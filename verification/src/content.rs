//! A payload held in memory, for a codec that reads from a stream.

use vstd::prelude::*;

verus! {

/// The bytes of a payload that have not been read yet. Reading takes them
/// from the front; writing is accepted and leaves no trace.
#[derive(Debug)]
pub struct RequestContent(pub Vec<u8>);

impl View for RequestContent {
    type V = Seq<u8>;

    open spec fn view(&self) -> Seq<u8> {
        self.0@
    }
}

/// The number of bytes that one read moves: as many as the buffer takes, and
/// no more than are left.
pub open spec fn read_len(room: nat, left: nat) -> nat {
    if room <= left {
        room
    } else {
        left
    }
}

impl RequestContent {
    pub fn new(bytes: Vec<u8>) -> (r: RequestContent)
        ensures
            r@ == bytes@,
    {
        RequestContent(bytes)
    }

    /// How many bytes are left to read.
    pub fn remaining(&self) -> (n: usize)
        ensures
            n == self@.len(),
    {
        self.0.len()
    }

    /// Moves the next bytes to the front of `buf` and returns their number:
    /// 0 once nothing is left. The rest of `buf` is not touched.
    pub fn read(&mut self, buf: &mut [u8]) -> (n: usize)
        ensures
            n == read_len(old(buf)@.len(), old(self)@.len()),
            final(buf)@ == old(self)@.take(n as int) + old(buf)@.skip(n as int),
            final(self)@ == old(self)@.skip(n as int),
    {
        let n = if buf.len() <= self.0.len() {
            buf.len()
        } else {
            self.0.len()
        };
        let mut i: usize = 0;
        while i < n
            invariant
                i <= n,
                n <= self.0.len(),
                n <= buf@.len(),
                buf@.len() == old(buf)@.len(),
                self.0@ == old(self)@,
                buf@ == old(self)@.take(i as int) + old(buf)@.skip(i as int),
            decreases n - i,
        {
            buf[i] = self.0[i];
            i += 1;
        }
        let rest = self.0.split_off(n);
        self.0 = rest;
        n
    }

    /// Accepts all of `buf` and keeps none of it.
    pub fn write(&mut self, buf: &[u8]) -> (n: usize)
        ensures
            n == buf@.len(),
            final(self)@ == old(self)@,
    {
        buf.len()
    }

    /// The bytes that are left, in order.
    pub fn into_bytes(self) -> (r: Vec<u8>)
        ensures
            r@ == self@,
    {
        self.0
    }
}

/// Two reads in a row hand out what one read into the two buffers laid end to
/// end would: nothing is lost or repeated between them.
pub proof fn lemma_reads_follow(content: Seq<u8>, first: nat, second: nat)
    ensures
        ({
            let a = read_len(first, content.len());
            let b = read_len(second, content.skip(a as int).len());
            &&& a + b == read_len(first + second, content.len())
            &&& content.take(a as int) + content.skip(a as int).take(b as int) == content.take(
                (a + b) as int,
            )
            &&& content.skip(a as int).skip(b as int) == content.skip((a + b) as int)
        }),
{
    let a = read_len(first, content.len());
    let b = read_len(second, content.skip(a as int).len());
    assert(content.take(a as int) + content.skip(a as int).take(b as int) =~= content.take((a + b) as int));
    assert(content.skip(a as int).skip(b as int) =~= content.skip((a + b) as int));
}

} // verus!
