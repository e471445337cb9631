//! The forward gateway: from an HTTP request to the bundle that carries it,
//! and from the fate of that bundle to the answer for the HTTP client.

use vstd::prelude::*;
use vstd::string::*;
use vstd::utf8::encode_utf8;
use crate::bundle::Bundle;
use crate::codec::{from_http, order_is_fixed, wire_form};
use crate::eid::{
    endpoint_text, lemma_render_parses, parse_components, render, well_formed, Components,
    EndpointId,
};
use crate::error::{disposition_of, message_of, Disposition, Error, Failure};
use crate::message::{Header, Request, Response, ResponseView};
use crate::resolver::{resolve, resolved};

verus! {

/// The forward gateway of one node.
pub struct Proxy {
    local: EndpointId,
    destination_agent_id: String,
}

/// What a forward gateway is made of.
pub struct ProxyView {
    /// The identifier of the node that the gateway runs on.
    pub local: Components,
    /// The agent that receives the forwarded requests on every node.
    pub destination_agent_id: Seq<char>,
}

impl View for Proxy {
    type V = ProxyView;

    closed spec fn view(&self) -> ProxyView {
        ProxyView { local: self.local@, destination_agent_id: self.destination_agent_id@ }
    }
}

/// The identifier that a request for `host` is sent to: the scheme of the
/// local node, the host as node component, and the receiving agent.
pub open spec fn destination_of(proxy: ProxyView, host: Seq<char>) -> Seq<char> {
    render(
        Components { scheme: proxy.local.scheme, node: host, agent: proxy.destination_agent_id },
    )
}

/// A bundle for a host that can be a node component is addressed to that
/// node and to the receiving agent, and to no other: the destination reads
/// back as exactly these.
pub proof fn lemma_destination_parses(proxy: ProxyView, host: Seq<char>)
    requires
        well_formed(proxy.local),
        host.len() > 0,
        !host.contains('/'),
    ensures
        parse_components(destination_of(proxy, host)) == Some(
            Components {
                scheme: proxy.local.scheme,
                node: host,
                agent: proxy.destination_agent_id,
            },
        ),
{
    lemma_render_parses(
        Components { scheme: proxy.local.scheme, node: host, agent: proxy.destination_agent_id },
    );
}

/// Bundles for different hosts go to different destinations.
pub proof fn lemma_destinations_differ(proxy: ProxyView, a: Seq<char>, b: Seq<char>)
    requires
        well_formed(proxy.local),
        a.len() > 0,
        !a.contains('/'),
        b.len() > 0,
        !b.contains('/'),
        a != b,
    ensures
        destination_of(proxy, a) != destination_of(proxy, b),
{
    lemma_destination_parses(proxy, a);
    lemma_destination_parses(proxy, b);
}

/// The kind under which a failure is shown to an HTTP client: itself where
/// the kind has a status of its own, and the generic internal error else.
pub open spec fn shown_as(e: Error) -> Error {
    match disposition_of(e) {
        Disposition::Respond { status } => e,
        _ => Error::InternalServerError,
    }
}

/// The answer to the HTTP client: 200 and a short confirmation once the
/// bundle is sent, and for a failure the status and message of its kind.
pub open spec fn answer_of(outcome: Result<(), Error>) -> ResponseView {
    let content_type = ("content-type"@, "text/plain;charset=utf-8"@);
    match outcome {
        Ok(_) => ResponseView {
            status: 200,
            headers: seq![content_type],
            body: encode_utf8("Bundle sent"@),
        },
        Err(e) => ResponseView {
            status: disposition_of(shown_as(e))->status,
            headers: seq![content_type],
            body: encode_utf8(message_of(shown_as(e))),
        },
    }
}

/// Every answer is 200, 400 or 500, and it is 200 only for a bundle that was
/// sent and 400 only for a request without a host.
pub proof fn lemma_answer_status(outcome: Result<(), Error>)
    ensures
        answer_of(outcome).status == 200 <==> outcome is Ok,
        answer_of(outcome).status == 400 <==> outcome == Err::<(), Error>(Error::MissingHostHeader),
        answer_of(outcome).status == 200 || answer_of(outcome).status == 400 || answer_of(
            outcome,
        ).status == 500,
{
}

impl Proxy {
    /// A gateway on the node `local` that addresses the agent
    /// `destination_agent_id` on the nodes it forwards to.
    pub fn new(local: EndpointId, destination_agent_id: String) -> (r: Proxy)
        ensures
            r@.local == local@,
            r@.destination_agent_id == destination_agent_id@,
    {
        Proxy { local, destination_agent_id }
    }

    /// The node that `req` is meant for, from its header fields alone;
    /// `MissingHostHeader` where it names no host. The body of the request
    /// need not have been read yet.
    pub fn resolve(&self, req: &Request) -> (r: Result<String, Error>)
        ensures
            match resolved(req@.headers, self@.local.node) {
                Some(host) => r matches Ok(h) && h@ == host,
                None => r matches Err(e) && e == Error::MissingHostHeader,
            },
    {
        resolve(req, &self.local)
    }

    /// The bundle that carries `req`.
    ///
    /// A request that names no host is refused with `MissingHostHeader`, and
    /// nothing is to be sent. Else the bundle goes to the receiving agent on
    /// the node that the request is meant for, with the request serialised
    /// for that node as its payload; a request that cannot be serialised is
    /// an `InternalServerError`, with the codec's text as detail.
    pub fn handle_dtn_request(&self, req: Request) -> (r: Result<Bundle, Failure>)
        ensures
            match resolved(req@.headers, self@.local.node) {
                None => r matches Err(e) && e.kind == Error::MissingHostHeader && e.detail@
                    == message_of(Error::MissingHostHeader),
                Some(host) => {
                    &&& r is Ok <==> wire_form(req@, host) is Some
                    &&& r matches Err(e) ==> e.kind == Error::InternalServerError
                    &&& r matches Ok(bundle) ==> bundle.destination@ == destination_of(
                        self@,
                        host,
                    )
                    &&& order_is_fixed(req@.headers) ==> (r matches Ok(bundle) ==> Some(
                        bundle.payload@,
                    ) == wire_form(req@, host))
                },
            },
    {
        let host = match resolve(&req, &self.local) {
            Ok(host) => host,
            Err(e) => {
                return Err(e.because(e.message().to_owned()));
            },
        };
        let payload = match from_http(req, host.as_str()) {
            Ok(payload) => payload,
            Err(e) => {
                return Err(e);
            },
        };
        let destination = endpoint_text(
            self.local.scheme(),
            host.as_str(),
            self.destination_agent_id.as_str(),
        );
        Ok(Bundle { destination, payload })
    }

    /// What the transport's answer to `send` means for the request: a bundle
    /// that could not be sent is an `InternalServerError`.
    pub fn send_outcome(sent: bool) -> (r: Result<(), Error>)
        ensures
            r == if sent {
                Ok::<(), Error>(())
            } else {
                Err(Error::InternalServerError)
            },
    {
        if sent {
            Ok(())
        } else {
            Err(Error::InternalServerError)
        }
    }

    /// The answer to the HTTP client for the given outcome of its request.
    pub fn answer(outcome: Result<(), Error>) -> (r: Response)
        ensures
            r@ == answer_of(outcome),
    {
        let (status, text): (u16, &str) = match outcome {
            Ok(_) => (200, "Bundle sent"),
            Err(e) => match e.disposition() {
                Disposition::Respond { status } => (status, e.message()),
                _ => (500, Error::InternalServerError.message()),
            },
        };
        let mut headers: Vec<Header> = Vec::new();
        headers.push(
            Header {
                name: "content-type".to_owned(),
                value: "text/plain;charset=utf-8".to_owned(),
            },
        );
        let r = Response { status, headers, body: text.as_bytes_vec() };
        assert(r@.headers =~= answer_of(outcome).headers);
        r
    }
}

} // verus!
