//! What the gateway is started with where the command line says nothing.

use vstd::prelude::*;
use vstd::string::*;

verus! {

/// The address on which the forward gateway listens.
pub const DEFAULT_BIND: &'static str = "127.0.0.1:8555";

/// The agent under which the forward gateway sends.
pub const DEFAULT_SEND_AGENT_ID: &'static str = "dhttp/client";

/// The agent under which the reverse gateway receives, and to which the
/// forward gateway addresses its bundles.
pub const DEFAULT_AGENT_ID: &'static str = "www";

/// The directory that the local handler serves.
pub const DEFAULT_FILES_ROOT: &'static str = "./www";

/// The decimal digit for a number below ten.
pub open spec fn digit(d: nat) -> char {
    if d == 0 {
        '0'
    } else if d == 1 {
        '1'
    } else if d == 2 {
        '2'
    } else if d == 3 {
        '3'
    } else if d == 4 {
        '4'
    } else if d == 5 {
        '5'
    } else if d == 6 {
        '6'
    } else if d == 7 {
        '7'
    } else if d == 8 {
        '8'
    } else {
        '9'
    }
}

/// The decimal numeral of `n`, without leading zeros.
pub open spec fn numeral(n: nat) -> Seq<char>
    decreases n,
{
    if n < 10 {
        seq![digit(n)]
    } else {
        numeral(n / 10).push(digit(n % 10))
    }
}

/// The path of the transport daemon's socket for the user `uid`: the system's
/// for the superuser, and the user's own for everybody else.
pub open spec fn socket_path_of(uid: u32) -> Seq<char> {
    if uid == 0 {
        "/run/archipel-core/archipel-core.socket"@
    } else {
        "/run/user/"@ + numeral(uid as nat) + "/archipel-core/archipel-core.socket"@
    }
}

fn digit_text(d: u32) -> (r: &'static str)
    requires
        d < 10,
    ensures
        r@ == seq![digit(d as nat)],
{
    proof {
        reveal_strlit("0");
        reveal_strlit("1");
        reveal_strlit("2");
        reveal_strlit("3");
        reveal_strlit("4");
        reveal_strlit("5");
        reveal_strlit("6");
        reveal_strlit("7");
        reveal_strlit("8");
        reveal_strlit("9");
    }
    let r = if d == 0 {
        "0"
    } else if d == 1 {
        "1"
    } else if d == 2 {
        "2"
    } else if d == 3 {
        "3"
    } else if d == 4 {
        "4"
    } else if d == 5 {
        "5"
    } else if d == 6 {
        "6"
    } else if d == 7 {
        "7"
    } else if d == 8 {
        "8"
    } else {
        "9"
    };
    assert(r@ =~= seq![digit(d as nat)]);
    r
}

/// The decimal numeral of `n`.
pub fn decimal(n: u32) -> (r: String)
    ensures
        r@ == numeral(n as nat),
    decreases n,
{
    if n < 10 {
        digit_text(n).to_owned()
    } else {
        let mut r = decimal(n / 10);
        r.append(digit_text(n % 10));
        r
    }
}

/// The socket path used where none is given, for a process of the user `uid`.
pub fn default_socket_path(uid: u32) -> (r: String)
    ensures
        r@ == socket_path_of(uid),
{
    if uid == 0 {
        "/run/archipel-core/archipel-core.socket".to_owned()
    } else {
        let mut r = "/run/user/".to_owned();
        r.append(decimal(uid).as_str());
        r.append("/archipel-core/archipel-core.socket");
        r
    }
}

} // verus!
