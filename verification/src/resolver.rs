//! From a request to the node that it is meant for.

use vstd::prelude::*;
use vstd::string::*;
use crate::eid::EndpointId;
use crate::error::Error;
use crate::message::{header_value, lookup, Field, Request};
use crate::text::{
    chars_of, find_from, first_index, lemma_absent, lemma_first_index, same_text,
};

verus! {

/// A `Host` value without its port: what stands before the first `:`, or the
/// whole value where it holds none.
pub open spec fn strip_port(value: Seq<char>) -> Seq<char> {
    value.take(first_index(value, ':'))
}

/// The host that a request names: the value of its `Host` field, without the
/// port.
pub open spec fn target_of(headers: Seq<Field>) -> Option<Seq<char>> {
    match lookup(headers, "Host"@) {
        Some(value) => Some(strip_port(value)),
        None => None,
    }
}

/// The two names by which a client addresses the gateway's own node.
pub open spec fn is_loopback(host: Seq<char>) -> bool {
    host == "localhost"@ || host == "127.0.0.1"@
}

/// The node that a request is meant for: the host that it names, or the local
/// node where it names the loopback.
pub open spec fn resolved(headers: Seq<Field>, local_node: Seq<char>) -> Option<Seq<char>> {
    match target_of(headers) {
        Some(host) => Some(if is_loopback(host) { local_node } else { host }),
        None => None,
    }
}

/// Stripping the port leaves the text before the first `:`: a prefix of the
/// value that holds no `:` and is followed by one wherever it is shorter than
/// the value. A value without `:` is left whole.
pub proof fn lemma_strip_port(value: Seq<char>)
    ensures
        strip_port(value).is_prefix_of(value),
        !strip_port(value).contains(':'),
        strip_port(value).len() < value.len() ==> value[strip_port(value).len() as int] == ':',
        !value.contains(':') ==> strip_port(value) == value,
{
    lemma_first_index(value, ':');
    let host = strip_port(value);
    if host.contains(':') {
        let k = choose|k: int| 0 <= k < host.len() && host[k] == ':';
        assert(value[k] == ':');
    }
    if !value.contains(':') {
        lemma_absent(value, ':');
        assert(host =~= value);
    }
}

/// A request is refused exactly when it has no `Host` field; what it is
/// resolved to is never a loopback name, unless the local node bears one.
pub proof fn lemma_resolved(headers: Seq<Field>, local_node: Seq<char>)
    ensures
        resolved(headers, local_node) is None <==> lookup(headers, "Host"@) is None,
        resolved(headers, local_node) matches Some(host) ==> (is_loopback(host) ==> is_loopback(
            local_node,
        )),
{
}

/// The content of an optional text.
pub open spec fn text_of(s: Option<String>) -> Option<Seq<char>> {
    match s {
        Some(t) => Some(t@),
        None => None,
    }
}

/// The host named by the request's `Host` field, port stripped; `None` where
/// the request has no such field.
pub fn get_target_eid(req: &Request) -> (r: Option<String>)
    ensures
        text_of(r) == target_of(req@.headers),
{
    match header_value(&req.headers, "Host") {
        None => None,
        Some(value) => {
            let chars = chars_of(value);
            let colon = find_from(&chars, ':', 0);
            assert(chars@.skip(0) =~= value@);
            let host = value.substring_char(0, colon).to_owned();
            assert(host@ =~= strip_port(value@));
            Some(host)
        },
    }
}

/// The node component of the destination of `req`, seen from the node
/// `local`; `MissingHostHeader` where the request names no host.
pub fn resolve(req: &Request, local: &EndpointId) -> (r: Result<String, Error>)
    ensures
        match resolved(req@.headers, local@.node) {
            Some(host) => r matches Ok(h) && h@ == host,
            None => r matches Err(e) && e == Error::MissingHostHeader,
        },
{
    match get_target_eid(req) {
        None => Err(Error::MissingHostHeader),
        Some(host) => {
            if same_text(host.as_str(), "localhost") || same_text(host.as_str(), "127.0.0.1") {
                Ok(local.node().to_owned())
            } else {
                Ok(host)
            }
        },
    }
}

} // verus!
