//! The kinds of failure and what each of them leads to.

use vstd::prelude::*;

verus! {

/// Every kind of failure that the gateway distinguishes.
#[derive(Clone, Copy, Debug, PartialEq, Eq, Structural)]
pub enum Error {
    /// A forwarded request carried no `Host` header.
    MissingHostHeader,
    /// A forwarded request could not be serialised or sent.
    InternalServerError,
    /// The transport connection could not be established at startup.
    TransportConnectError,
    /// Receiving from the transport failed while running.
    TransportIOError,
    /// An inbound payload is not a well-formed HTTP request.
    MalformedPayload,
    /// The local handler failed; it answers for that itself.
    HandlerError,
}

/// A failure together with the text of its cause. The text is for the log
/// alone: no answer to a client carries it.
#[derive(Debug)]
pub struct Failure {
    pub kind: Error,
    pub detail: String,
}

/// What follows from a failure.
#[derive(Clone, Copy, Debug, PartialEq, Eq, Structural)]
pub enum Disposition {
    /// The HTTP client is answered with this status and the kind's message.
    Respond { status: u16 },
    /// The process gives up before serving.
    Abort,
    /// The failure is logged and the receive loop goes on.
    Continue,
    /// The failure is logged and the bundle is dropped without a reply.
    Drop,
    /// The handler has already turned the failure into its response.
    Absorbed,
}

/// The disposition of each kind of failure.
pub open spec fn disposition_of(e: Error) -> Disposition {
    match e {
        Error::MissingHostHeader => Disposition::Respond { status: 400 },
        Error::InternalServerError => Disposition::Respond { status: 500 },
        Error::TransportConnectError => Disposition::Abort,
        Error::TransportIOError => Disposition::Continue,
        Error::MalformedPayload => Disposition::Drop,
        Error::HandlerError => Disposition::Absorbed,
    }
}

/// The text shown to whoever is told of a failure of this kind. It never
/// holds the detail of the underlying cause.
pub open spec fn message_of(e: Error) -> Seq<char> {
    match e {
        Error::MissingHostHeader =>
            "Missing host header; Host header is required to route on DTN"@,
        Error::InternalServerError => "Internal server error"@,
        Error::TransportConnectError => "Transport connection failed"@,
        Error::TransportIOError => "Transport receive failed"@,
        Error::MalformedPayload => "Malformed payload"@,
        Error::HandlerError => "Handler failed"@,
    }
}

impl Error {
    pub fn disposition(&self) -> (r: Disposition)
        ensures
            r == disposition_of(*self),
    {
        match self {
            Error::MissingHostHeader => Disposition::Respond { status: 400 },
            Error::InternalServerError => Disposition::Respond { status: 500 },
            Error::TransportConnectError => Disposition::Abort,
            Error::TransportIOError => Disposition::Continue,
            Error::MalformedPayload => Disposition::Drop,
            Error::HandlerError => Disposition::Absorbed,
        }
    }

    /// The HTTP status that a client sees for this kind, if it sees any.
    pub fn status(&self) -> (r: Option<u16>)
        ensures
            r == match disposition_of(*self) {
                Disposition::Respond { status } => Some(status),
                _ => None,
            },
    {
        match self.disposition() {
            Disposition::Respond { status } => Some(status),
            _ => None,
        }
    }

    /// A failure of this kind whose cause is said by `detail`.
    pub fn because(self, detail: String) -> (r: Failure)
        ensures
            r == (Failure { kind: self, detail }),
    {
        Failure { kind: self, detail }
    }

    pub fn message(&self) -> (r: &'static str)
        ensures
            r@ == message_of(*self),
    {
        match self {
            Error::MissingHostHeader =>
                "Missing host header; Host header is required to route on DTN",
            Error::InternalServerError => "Internal server error",
            Error::TransportConnectError => "Transport connection failed",
            Error::TransportIOError => "Transport receive failed",
            Error::MalformedPayload => "Malformed payload",
            Error::HandlerError => "Handler failed",
        }
    }
}

} // verus!
