//! The reverse gateway: the life of the transport connection, and for each
//! inbound bundle the request that it carries and the reply that goes back.

use vstd::prelude::*;
use vstd::string::*;
use crate::bundle::Bundle;
use crate::codec::{
    dated, decode_request, encode_response, h1_response_bytes, lemma_dated, request_in,
    same_request, stamp,
};
use crate::config::{decimal, numeral};
use crate::content::RequestContent;
use crate::error::{Error, Failure};
use crate::message::{Request, Response};

verus! {

/// Where the transport connection stands.
#[derive(Clone, Copy, Debug, PartialEq, Eq, Structural)]
pub enum ConnectionState {
    Disconnected,
    Connecting,
    Connected,
    /// The connection could not be established; nothing is served.
    Terminated,
}

/// What the transport reported.
#[derive(Debug)]
pub enum Event {
    /// The process is starting.
    Start,
    /// The connection stands.
    ConnectSucceeded,
    /// The connection could not be established.
    ConnectFailed,
    /// A bundle arrived from `source`.
    Received { source: String, payload: Vec<u8> },
    /// Receiving failed.
    ReceiveFailed,
}

/// What is to be done next.
#[derive(Debug)]
pub enum Action {
    /// Establish the connection.
    Connect,
    /// Wait for the next bundle.
    Receive,
    /// Hand the bundle to a unit of work of its own, which calls
    /// `handle_bundle_reception`, and wait for the next bundle at once.
    Spawn { source: String, payload: Vec<u8> },
    /// Give up: the process ends with a failure.
    Abort,
    /// The event does not belong to the state; nothing is to be done.
    Ignore,
}

/// The state that follows `state` on `event`.
///
/// Starting leads to connecting, and connecting to the connected state or, on
/// failure, to the end. Once connected, neither a bundle nor a failed receive
/// changes the state. An event that does not belong to the state leaves it.
pub open spec fn next_state(state: ConnectionState, event: Event) -> ConnectionState {
    match (state, event) {
        (ConnectionState::Disconnected, Event::Start) => ConnectionState::Connecting,
        (ConnectionState::Connecting, Event::ConnectSucceeded) => ConnectionState::Connected,
        (ConnectionState::Connecting, Event::ConnectFailed) => ConnectionState::Terminated,
        _ => state,
    }
}

/// What is to be done when `event` arrives in `state`.
pub open spec fn action_of(state: ConnectionState, event: Event) -> Action {
    match (state, event) {
        (ConnectionState::Disconnected, Event::Start) => Action::Connect,
        (ConnectionState::Connecting, Event::ConnectSucceeded) => Action::Receive,
        (ConnectionState::Connecting, Event::ConnectFailed) => Action::Abort,
        (ConnectionState::Connected, Event::Received { source, payload }) => Action::Spawn {
            source,
            payload,
        },
        (ConnectionState::Connected, Event::ReceiveFailed) => Action::Receive,
        (ConnectionState::Terminated, _) => Action::Abort,
        _ => Action::Ignore,
    }
}

/// The state after a run of events.
pub open spec fn state_after(state: ConnectionState, events: Seq<Event>) -> ConnectionState
    decreases events.len(),
{
    if events.len() == 0 {
        state
    } else {
        next_state(state_after(state, events.drop_last()), events.last())
    }
}

/// Whether the receive loop goes on after `action`.
pub open spec fn receives_again(action: Action) -> bool {
    action is Receive || action is Spawn
}

/// Once the connection stands it stays: whatever arrives, and however receiving
/// fails, the state remains connected.
pub proof fn lemma_connected_stays(events: Seq<Event>)
    ensures
        state_after(ConnectionState::Connected, events) == ConnectionState::Connected,
    decreases events.len(),
{
    if events.len() > 0 {
        lemma_connected_stays(events.drop_last());
    }
}

/// A failed start is final: no event leaves the terminated state.
pub proof fn lemma_terminated_stays(events: Seq<Event>)
    ensures
        state_after(ConnectionState::Terminated, events) == ConnectionState::Terminated,
    decreases events.len(),
{
    if events.len() > 0 {
        lemma_terminated_stays(events.drop_last());
    }
}

/// While connected, every bundle and every failed receive is followed by the
/// next receive, whatever the bundle holds.
pub proof fn lemma_loop_goes_on(event: Event)
    requires
        event is Received || event is ReceiveFailed,
    ensures
        receives_again(action_of(ConnectionState::Connected, event)),
        next_state(ConnectionState::Connected, event) == ConnectionState::Connected,
{
}

/// What becomes of an inbound bundle.
#[derive(Debug)]
pub enum Reception {
    /// The payload is a request: it goes to the local handler, and the reply
    /// to its answer goes back to `source`.
    Dispatch { source: String, request: Request },
    /// The payload is no request: nothing is answered and nothing is sent.
    /// The failure says why, for the log.
    Dropped { failure: Failure },
}

/// The line that records a handled bundle: `[source] method target status`.
pub open spec fn record_of(
    source: Seq<char>,
    method: Seq<char>,
    target: Seq<char>,
    status: u16,
) -> Seq<char> {
    seq!['['] + source + seq![']', ' '] + method + seq![' '] + target + seq![' '] + numeral(
        status as nat,
    )
}

/// The reverse gateway of one node.
#[derive(Debug)]
pub struct Server {
    state: ConnectionState,
}

impl View for Server {
    type V = ConnectionState;

    closed spec fn view(&self) -> ConnectionState {
        self.state
    }
}

impl Server {
    /// A gateway that has no connection yet.
    pub fn new() -> (r: Server)
        ensures
            r@ == ConnectionState::Disconnected,
    {
        Server { state: ConnectionState::Disconnected }
    }

    pub fn state(&self) -> (r: ConnectionState)
        ensures
            r == self@,
    {
        self.state
    }

    /// Takes note of `event` and says what is to be done next.
    pub fn step(&mut self, event: Event) -> (r: Action)
        ensures
            final(self)@ == next_state(old(self)@, event),
            r == action_of(old(self)@, event),
    {
        match (self.state, event) {
            (ConnectionState::Disconnected, Event::Start) => {
                self.state = ConnectionState::Connecting;
                Action::Connect
            },
            (ConnectionState::Connecting, Event::ConnectSucceeded) => {
                self.state = ConnectionState::Connected;
                Action::Receive
            },
            (ConnectionState::Connecting, Event::ConnectFailed) => {
                self.state = ConnectionState::Terminated;
                Action::Abort
            },
            (ConnectionState::Connected, Event::Received { source, payload }) => Action::Spawn {
                source,
                payload,
            },
            (ConnectionState::Connected, Event::ReceiveFailed) => Action::Receive,
            (ConnectionState::Terminated, _) => Action::Abort,
            _ => Action::Ignore,
        }
    }

    /// What becomes of a bundle whose payload decoded to `decoded`.
    pub fn reception_of(source: String, decoded: Result<Request, Failure>) -> (r: Reception)
        ensures
            r == match decoded {
                Ok(request) => Reception::Dispatch { source, request },
                Err(failure) => Reception::Dropped { failure },
            },
    {
        match decoded {
            Ok(request) => Reception::Dispatch { source, request },
            Err(failure) => Reception::Dropped { failure },
        }
    }

    /// Reads the bundle that arrived from `source`.
    ///
    /// A payload that carries a request is dispatched, as that request. Any
    /// other is dropped as a `MalformedPayload`: one that may not be handed
    /// to the codec, one in which the codec finds no request, and one whose
    /// body is not as long as announced. No payload stops the gateway.
    pub fn handle_bundle_reception(source: String, payload: Vec<u8>) -> (r: Reception)
        ensures
            match request_in(payload@) {
                Some(found) => r matches Reception::Dispatch { source: to, request }
                    && to == source && same_request(request@, found),
                None => r matches Reception::Dropped { failure } && failure.kind
                    == Error::MalformedPayload,
            },
    {
        let decoded = decode_request(RequestContent::new(payload));
        Server::reception_of(source, decoded)
    }

    /// The line to log for a request from `source`, with this method and
    /// target, that the local handler answered with `status`.
    pub fn record(source: &str, method: &str, target: &str, status: u16) -> (r: String)
        ensures
            r@ == record_of(source@, method@, target@, status),
    {
        proof {
            reveal_strlit("[");
            reveal_strlit("] ");
            reveal_strlit(" ");
        }
        let mut r = "[".to_owned();
        r.append(source);
        r.append("] ");
        r.append(method);
        r.append(" ");
        r.append(target);
        r.append(" ");
        r.append(decimal(status as u32).as_str());
        assert("["@ =~= seq!['[']);
        assert("] "@ =~= seq![']', ' ']);
        assert(" "@ =~= seq![' ']);
        r
    }

    /// The bundle that carries `encoded` back to `source`, if there is
    /// anything to carry; else the text that says why there is not.
    pub fn reply_of(source: String, encoded: Result<Vec<u8>, String>) -> (r: Result<
        Bundle,
        String,
    >)
        ensures
            r == match encoded {
                Ok(payload) => Ok::<Bundle, String>(Bundle { destination: source, payload }),
                Err(detail) => Err(detail),
            },
    {
        match encoded {
            Ok(payload) => Ok(Bundle { destination: source, payload }),
            Err(detail) => Err(detail),
        }
    }

    /// The reply to the request of method `method` that arrived from
    /// `source`, once the local handler has answered it with `response`.
    ///
    /// The reply goes to `source` and to nobody else. Its payload is the
    /// response, serialised by the codec; a response that does not say when
    /// it was made is given the date `date` before. Where the response cannot
    /// be serialised there is no reply, and the error is the codec's text.
    pub fn reply(source: String, method: &str, response: Response, date: &str) -> (r: Result<
        Bundle,
        String,
    >)
        ensures
            match h1_response_bytes(
                response@.status,
                dated(response@.headers, date@),
                response@.body,
                method@,
            ) {
                Some(bytes) => r matches Ok(bundle) && bundle.destination == source
                    && bundle.payload@ == bytes,
                None => r is Err,
            },
    {
        let mut stamped = response;
        stamp(&mut stamped, date);
        proof {
            lemma_dated(response@.headers, date@, date@);
        }
        Server::reply_of(source, encode_response(&stamped, method))
    }
}

} // verus!
