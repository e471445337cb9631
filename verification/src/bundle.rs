//! What is handed to the transport.

use vstd::prelude::*;

verus! {

/// A payload on its way to an endpoint. It lives from the decision to send it
/// to the call that sends it, and is kept nowhere.
#[derive(Debug)]
pub struct Bundle {
    /// The endpoint identifier that the payload is sent to.
    pub destination: String,
    pub payload: Vec<u8>,
}

} // verus!
