//! Serialising envelopes into bundle payloads and back. The HTTP/1.1 grammar
//! itself is the work of the `async-h1` codec; this module decides what is
//! handed to it and what becomes of its answers.

use std::str::FromStr;
use async_h1::client::decode as read_response;
use async_h1::client::Encoder as RequestEncoder;
use async_h1::server::decode as read_request;
use async_h1::server::Encoder as ResponseEncoder;
use futures_lite::future::block_on;
use futures_lite::io::Cursor;
use futures_lite::AsyncReadExt;
use http_types::headers::{HeaderName, HeaderValue};
use http_types::url::Position::{AfterQuery, BeforePath};
use http_types::{Method, StatusCode, Url};
use vstd::prelude::*;
use vstd::string::*;
use crate::content::RequestContent;
use crate::error::{Error, Failure};
use crate::message::{
    append_header, fields, header_value, lemma_values_replaced, lemma_values_without, lookup,
    named, remove_header, replaced, values, without, Field, Header, Request, RequestView,
    Response, ResponseView,
};
use crate::text::{eq_ignore_case, is_digits, is_number, lowercase, number};

verus! {

/// The bytes that `async_h1::client::Encoder` yields for a request with this
/// method, absolute URL, header fields and body, or `None` where the request
/// cannot be built or encoded.
pub uninterp spec fn h1_request_bytes(
    method: Seq<char>,
    url: Seq<char>,
    headers: Seq<(Seq<char>, Seq<char>)>,
    body: Seq<u8>,
) -> Option<Seq<u8>>;

/// The request that `async_h1::server::decode` reads from a payload, with its
/// body read to the end, or `None` where the payload is no request.
pub uninterp spec fn h1_decoded_request(payload: Seq<u8>) -> Option<RequestView>;

/// The bytes that `async_h1::server::Encoder` yields for a response with this
/// status, header fields and body, in answer to a request with this method, or
/// `None` where the response cannot be built or encoded.
pub uninterp spec fn h1_response_bytes(
    status: u16,
    headers: Seq<(Seq<char>, Seq<char>)>,
    body: Seq<u8>,
    method: Seq<char>,
) -> Option<Seq<u8>>;

/// The response that `async_h1::client::decode` reads from a payload, with
/// its body read to the end, or `None` where the payload is no response.
pub uninterp spec fn h1_decoded_response(payload: Seq<u8>) -> Option<ResponseView>;

/// Whether the codec writes these request fields in one fixed order. It sorts
/// them by name and puts `Host` where a field named `0` would stand, so it
/// does unless there is a field of that name.
pub open spec fn order_is_fixed(headers: Seq<Field>) -> bool {
    lookup(headers, "0"@) is None
}

/// Whether a response says itself when it was made. The codec stamps one that
/// does not with the time of encoding.
pub open spec fn is_dated(headers: Seq<Field>) -> bool {
    lookup(headers, "Date"@) is Some
}

/// The bytes of an outcome of the encoder, if it has any.
pub open spec fn content(outcome: Result<Vec<u8>, String>) -> Option<Seq<u8>> {
    match outcome {
        Ok(bytes) => Some(bytes@),
        Err(_) => None,
    }
}

/// Carriage return.
pub const CR: u8 = 13;

/// Line feed.
pub const LF: u8 = 10;

/// The name of the field that announces a chunked body, in lower case:
/// `transfer-encoding`.
pub open spec fn chunking_field() -> Seq<u8> {
    seq![116u8, 114, 97, 110, 115, 102, 101, 114, 45, 101, 110, 99, 111, 100, 105, 110, 103]
}

/// The ASCII lower-case form of a byte.
pub open spec fn lower_byte(b: u8) -> u8 {
    if 65 <= b && b <= 90 {
        (b + 32) as u8
    } else {
        b
    }
}

/// Whether an empty line, CR LF CR LF, begins at `i`.
pub open spec fn blank_line_at(payload: Seq<u8>, i: int) -> bool {
    &&& 0 <= i
    &&& i + 4 <= payload.len()
    &&& payload[i] == CR
    &&& payload[i + 1] == LF
    &&& payload[i + 2] == CR
    &&& payload[i + 3] == LF
}

/// The end of the first empty line at or behind `from`, or the length of the
/// payload where there is none.
pub open spec fn head_end_from(payload: Seq<u8>, from: int) -> int
    decreases payload.len() - from,
{
    if from < 0 || from + 4 > payload.len() {
        payload.len() as int
    } else if blank_line_at(payload, from) {
        from + 4
    } else {
        head_end_from(payload, from + 1)
    }
}

/// The length of the head of a payload: start line and header fields up to
/// and with the first empty line. A payload without an empty line is all head.
pub open spec fn head_len(payload: Seq<u8>) -> int {
    head_end_from(payload, 0)
}

/// Whether a line begins at `k` and begins with `name`, in any case.
pub open spec fn begins_field(payload: Seq<u8>, k: int, name: Seq<u8>) -> bool {
    &&& k == 0 || payload[k - 1] == LF
    &&& k + name.len() <= payload.len()
    &&& forall|t: int| 0 <= t < name.len() ==> lower_byte(#[trigger] payload[k + t]) == name[t]
}

/// Whether a payload may be handed to the decoder: its head is ASCII
/// throughout, and no line of the head begins with `Transfer-Encoding`.
///
/// A bundle payload is one fully buffered message and is never chunked. The
/// decoder does not return from a chunked body with an unfinished trailer, and
/// it gives up the whole process on a field value beyond ASCII.
pub open spec fn decodable(payload: Seq<u8>) -> bool {
    forall|k: int|
        0 <= k < head_len(payload) ==> #[trigger] payload[k] < 128 && !begins_field(
            payload,
            k,
            chunking_field(),
        )
}

/// Two envelopes that differ at most in the order of fields of different
/// names and in the case of field names.
pub open spec fn same_request(a: RequestView, b: RequestView) -> bool {
    &&& a.method == b.method
    &&& a.target == b.target
    &&& a.body == b.body
    &&& forall|name: Seq<char>| values(a.headers, name) == values(b.headers, name)
}

/// Two envelopes that differ at most in their `Date` fields, in the order of
/// fields of different names and in the case of field names.
pub open spec fn same_response(a: ResponseView, b: ResponseView) -> bool {
    &&& a.status == b.status
    &&& a.body == b.body
    &&& forall|name: Seq<char>|
        !eq_ignore_case("Date"@, name) ==> values(a.headers, name) == values(b.headers, name)
}

/// Builds an `http_types::Request` from the parts (`Method::from_str`,
/// `Url::parse`, `Request::append_header` for each field in turn,
/// `Request::set_body`) and reads `async_h1::client::Encoder` over it to the
/// end. Where a part is refused or the encoder fails, the error is the text
/// of that refusal.
///
/// Trusted: whether there are bytes depends on the four parts alone, and so
/// do the bytes as long as the encoder writes the fields in a fixed order.
/// Nothing is claimed of what the bytes are, nor of the text of an error.
#[verifier::external_body]
fn h1_encode_request(method: &str, url: &str, headers: &Vec<Header>, body: &Vec<u8>) -> (out:
    Result<Vec<u8>, String>)
    ensures
        out is Ok <==> h1_request_bytes(method@, url@, fields(headers@), body@) is Some,
        order_is_fixed(fields(headers@)) ==> content(out) == h1_request_bytes(
            method@,
            url@,
            fields(headers@),
            body@,
        ),
{
    let encode = || -> http_types::Result<Vec<u8>> {
        let mut req = http_types::Request::new(Method::from_str(method)?, Url::parse(url)?);
        for h in headers.iter() {
            req.append_header(HeaderName::from_str(&h.name)?, HeaderValue::from_str(&h.value)?);
        }
        req.set_body(body.clone());
        let mut out = Vec::new();
        block_on(RequestEncoder::new(req).read_to_end(&mut out))?;
        Ok(out)
    };
    encode().map_err(|e| e.to_string())
}

/// Runs `async_h1::server::decode` over the payload, reads the body that it
/// hands out to the end, and copies method, path and query, header fields and
/// body into an envelope. Where the decoder finds no request or fails, the
/// error is the text of its failure, or empty where it gave none.
///
/// Trusted: on a payload with an ASCII head and no chunked body the decoder
/// returns; whether a request is found depends on the payload alone, and so
/// does the request, up to the order of fields of different names (the
/// decoder keeps them in a hash map; the values of one name keep theirs).
/// Nothing is claimed of the text of an error.
#[verifier::external_body]
fn h1_decode_request(payload: &Vec<u8>) -> (out: Result<Request, String>)
    requires
        decodable(payload@),
    ensures
        out is Ok <==> h1_decoded_request(payload@) is Some,
        out matches Ok(req) ==> same_request(req@, h1_decoded_request(payload@)->0),
{
    let found = block_on(read_request(Cursor::new(payload.clone())));
    let (req, mut reader) = found.map_err(|e| e.to_string())?.ok_or(String::new())?;
    let mut body = Vec::new();
    block_on(reader.read_to_end(&mut body)).map_err(|e| e.to_string())?;
    let mut headers = Vec::new();
    for (name, found) in req.iter() {
        for v in found.iter() {
            headers.push(Header { name: name.to_string(), value: v.to_string() });
        }
    }
    let target = req.url()[BeforePath..AfterQuery].to_string();
    Ok(Request { method: req.method().to_string(), target, headers, body })
}

/// Builds an `http_types::Response` from the envelope
/// (`StatusCode::try_from`, `Response::append_header` for each field in turn,
/// `Response::set_body`) and reads `async_h1::server::Encoder` over it to the
/// end. Where a part is refused or the encoder fails, the error is the text
/// of that refusal.
///
/// Trusted: whether there are bytes depends on the envelope and the method
/// alone, and so do the bytes for a response with a `Date` field. Nothing is
/// claimed of what the bytes are, nor of the bytes for a response without
/// that field, which the encoder stamps with the current time, nor of the
/// text of an error.
#[verifier::external_body]
fn h1_encode_response(response: &Response, method: &str) -> (out: Result<Vec<u8>, String>)
    ensures
        out is Ok <==> h1_response_bytes(
            response@.status,
            response@.headers,
            response@.body,
            method@,
        ) is Some,
        is_dated(response@.headers) ==> content(out) == h1_response_bytes(
            response@.status,
            response@.headers,
            response@.body,
            method@,
        ),
{
    let encode = || -> http_types::Result<Vec<u8>> {
        let mut res = http_types::Response::new(StatusCode::try_from(response.status)?);
        for h in response.headers.iter() {
            res.append_header(HeaderName::from_str(&h.name)?, HeaderValue::from_str(&h.value)?);
        }
        res.set_body(response.body.clone());
        let mut out = Vec::new();
        let mut encoder = ResponseEncoder::new(res, Method::from_str(method)?);
        block_on(encoder.read_to_end(&mut out))?;
        Ok(out)
    };
    encode().map_err(|e| e.to_string())
}

/// Runs `async_h1::client::decode` over the payload, reads the body of the
/// response to the end (`Response::body_bytes`), and copies status, header
/// fields and body into an envelope. Where the decoder finds no response or
/// fails, the error is the text of its failure.
///
/// Trusted: on a payload with an ASCII head and no chunked body the decoder
/// returns; whether a response is found depends on the payload alone, and so
/// does the response, up to the order of fields of different names and but
/// for its `Date` field, which the decoder makes up from the current time
/// where the payload has none. Nothing is claimed of the text of an error.
#[verifier::external_body]
fn h1_decode_response(payload: &Vec<u8>) -> (out: Result<Response, String>)
    requires
        decodable(payload@),
    ensures
        out is Ok <==> h1_decoded_response(payload@) is Some,
        out matches Ok(res) ==> same_response(res@, h1_decoded_response(payload@)->0),
{
    let decode = || -> http_types::Result<Response> {
        let mut res = block_on(read_response(Cursor::new(payload.clone())))?;
        let body = block_on(res.body_bytes())?;
        let mut headers = Vec::new();
        for (name, found) in res.iter() {
            for v in found.iter() {
                headers.push(Header { name: name.to_string(), value: v.to_string() });
            }
        }
        Ok(Response { status: res.status().into(), headers, body })
    };
    decode().map_err(|e| e.to_string())
}

fn to_lower_byte(b: u8) -> (r: u8)
    ensures
        r == lower_byte(b),
{
    if 65 <= b && b <= 90 {
        b + 32
    } else {
        b
    }
}

/// The byte at `t` of `transfer-encoding`.
fn chunking_byte(t: usize) -> (r: u8)
    requires
        t < 17,
    ensures
        r == chunking_field()[t as int],
{
    let name: [u8; 17] = [
        116, 114, 97, 110, 115, 102, 101, 114, 45, 101, 110, 99, 111, 100, 105, 110, 103,
    ];
    name[t]
}

/// The length of the head of `payload`.
pub fn head_length(payload: &Vec<u8>) -> (n: usize)
    ensures
        n == head_len(payload@),
{
    let len = payload.len();
    let mut i: usize = 0;
    while i < len && len - i >= 4
        invariant
            len == payload@.len(),
            i <= len,
            head_len(payload@) == head_end_from(payload@, i as int),
        decreases len - i,
    {
        if payload[i] == CR && payload[i + 1] == LF && payload[i + 2] == CR && payload[i + 3]
            == LF {
            return i + 4;
        }
        i += 1;
    }
    len
}

/// Whether a line that begins with `Transfer-Encoding` begins at `k`.
fn begins_chunking_field(payload: &Vec<u8>, k: usize) -> (r: bool)
    requires
        k < payload.len(),
    ensures
        r == begins_field(payload@, k as int, chunking_field()),
{
    if k > 0 && payload[k - 1] != LF {
        return false;
    }
    if payload.len() - k < 17 {
        return false;
    }
    let mut t: usize = 0;
    while t < 17
        invariant
            t <= 17,
            k + 17 <= payload.len(),
            forall|u: int| 0 <= u < t ==> lower_byte(#[trigger] payload@[k + u]) == chunking_field()[u],
        decreases 17 - t,
    {
        if to_lower_byte(payload[k + t]) != chunking_byte(t) {
            return false;
        }
        t += 1;
    }
    true
}

/// Whether `payload` may be handed to the decoder.
pub fn is_decodable(payload: &Vec<u8>) -> (r: bool)
    ensures
        r == decodable(payload@),
{
    let head = head_length(payload);
    proof {
        lemma_head_len(payload@, 0);
    }
    let mut k: usize = 0;
    while k < head
        invariant
            k <= head,
            head == head_len(payload@),
            head <= payload.len(),
            forall|j: int|
                0 <= j < k ==> #[trigger] payload@[j] < 128 && !begins_field(
                    payload@,
                    j,
                    chunking_field(),
                ),
        decreases head - k,
    {
        if payload[k] >= 128 || begins_chunking_field(payload, k) {
            return false;
        }
        k += 1;
    }
    true
}

/// The head of a payload is no longer than the payload.
pub proof fn lemma_head_len(payload: Seq<u8>, from: int)
    requires
        0 <= from,
    ensures
        from <= payload.len() ==> from <= head_end_from(payload, from) <= payload.len(),
        from > payload.len() ==> head_end_from(payload, from) == payload.len(),
    decreases payload.len() - from,
{
    if from + 4 <= payload.len() && !blank_line_at(payload, from) {
        lemma_head_len(payload, from + 1);
    }
}

/// The head ends with the first empty line of the payload: no empty line
/// begins before the one that ends it, and where the payload has no empty line
/// the head is all of it.
pub proof fn lemma_head_ends_at_first_empty_line(payload: Seq<u8>)
    ensures
        forall|j: int| 0 <= j < head_len(payload) - 4 ==> !blank_line_at(payload, j),
        blank_line_at(payload, head_len(payload) - 4) || (head_len(payload) == payload.len()
            && forall|j: int| !blank_line_at(payload, j)),
{
    lemma_head_from(payload, 0);
}

proof fn lemma_head_from(payload: Seq<u8>, from: int)
    requires
        0 <= from,
    ensures
        forall|j: int| from <= j < head_end_from(payload, from) - 4 ==> !blank_line_at(payload, j),
        blank_line_at(payload, head_end_from(payload, from) - 4) || (head_end_from(payload, from)
            == payload.len() && forall|j: int| from <= j ==> !blank_line_at(payload, j)),
    decreases payload.len() - from,
{
    if from + 4 <= payload.len() && !blank_line_at(payload, from) {
        lemma_head_from(payload, from + 1);
        lemma_head_len(payload, from + 1);
    }
}

/// What becomes of the encoder's answer: its bytes, or an internal error
/// with the encoder's own text as detail.
pub fn encoded_or_error(encoded: Result<Vec<u8>, String>) -> (r: Result<Vec<u8>, Failure>)
    ensures
        r == match encoded {
            Ok(bytes) => Ok::<Vec<u8>, Failure>(bytes),
            Err(detail) => Err(Failure { kind: Error::InternalServerError, detail }),
        },
{
    match encoded {
        Ok(bytes) => Ok(bytes),
        Err(detail) => Err(Error::InternalServerError.because(detail)),
    }
}

/// The header fields that go out with a forwarded request: those of the
/// request but for `Forwarded`, `X-Forwarded-Host` and `Host`, in their order,
/// and behind them one `Host` field with the target host.
pub open spec fn normalized(headers: Seq<Field>, host: Seq<char>) -> Seq<Field> {
    replaced(without(without(headers, "Forwarded"@), "X-Forwarded-Host"@), "Host"@, host)
}

/// The absolute URL under which the codec is given a request for `host`.
pub open spec fn origin_url(host: Seq<char>, target: Seq<char>) -> Seq<char> {
    "http://"@ + host + target
}

/// The payload of a forwarded request: the codec's bytes for its method, its
/// target on the target host, its normalized header fields and its body.
pub open spec fn wire_form(req: RequestView, host: Seq<char>) -> Option<Seq<u8>> {
    h1_request_bytes(
        req.method,
        origin_url(host, req.target),
        normalized(req.headers, host),
        req.body,
    )
}

/// In the header fields that go out, `Host` has the target host as its only
/// value, `Forwarded` and `X-Forwarded-Host` have none, and every other name
/// has the values that it had in the request, in their order.
pub proof fn lemma_normalized_values(headers: Seq<Field>, host: Seq<char>, name: Seq<char>)
    ensures
        values(normalized(headers, host), name) == if eq_ignore_case("Host"@, name) {
            seq![host]
        } else if eq_ignore_case("Forwarded"@, name) || eq_ignore_case("X-Forwarded-Host"@, name) {
            Seq::<Seq<char>>::empty()
        } else {
            values(headers, name)
        },
{
    let first = without(headers, "Forwarded"@);
    let second = without(first, "X-Forwarded-Host"@);
    lemma_values_replaced(second, "Host"@, host, name);
    lemma_values_without(first, "X-Forwarded-Host"@, name);
    lemma_values_without(headers, "Forwarded"@, name);
}

/// A reader of `Host` in the fields that go out sees the target host.
pub proof fn lemma_normalized_host(headers: Seq<Field>, host: Seq<char>)
    ensures
        lookup(normalized(headers, host), "Host"@) == Some(host),
{
    lemma_normalized_values(headers, host, "Host"@);
}

/// Normalizing neither adds nor removes a field named `0`.
proof fn lemma_normalized_keeps_order(headers: Seq<Field>, host: Seq<char>)
    ensures
        order_is_fixed(normalized(headers, host)) <==> order_is_fixed(headers),
{
    reveal_strlit("0");
    reveal_strlit("Host");
    reveal_strlit("Forwarded");
    reveal_strlit("X-Forwarded-Host");
    assert(lowercase("0"@).len() == 1);
    assert(lowercase("Host"@).len() == 4);
    assert(lowercase("Forwarded"@).len() == 9);
    assert(lowercase("X-Forwarded-Host"@).len() == 16);
    lemma_normalized_values(headers, host, "0"@);
}

/// Serialises a request for the node `host` into a bundle payload.
///
/// `Forwarded`, `X-Forwarded-Host` and `Host` are stripped, `Host` is set to
/// `host`, and the codec frames the rest. The payload is the codec's, exactly,
/// unless the request has a field named `0`, for which the codec fixes no
/// order. Where the codec cannot encode the request, the error is an
/// `InternalServerError` with the codec's text as detail.
pub fn from_http(req: Request, host: &str) -> (r: Result<Vec<u8>, Failure>)
    ensures
        r is Ok <==> wire_form(req@, host@) is Some,
        r matches Err(e) ==> e.kind == Error::InternalServerError,
        order_is_fixed(req@.headers) ==> (r matches Ok(payload) ==> Some(payload@) == wire_form(
            req@,
            host@,
        )),
{
    let mut headers = req.headers;
    remove_header(&mut headers, "Forwarded");
    remove_header(&mut headers, "X-Forwarded-Host");
    remove_header(&mut headers, "Host");
    append_header(&mut headers, "Host", host);
    let mut url = "http://".to_owned();
    url.append(host);
    url.append(req.target.as_str());
    proof {
        lemma_normalized_keeps_order(req@.headers, host@);
    }
    let encoded = h1_encode_request(req.method.as_str(), url.as_str(), &headers, &req.body);
    encoded_or_error(encoded)
}

/// What becomes of the decoder's answer: its request, or a
/// `MalformedPayload` with the decoder's own text as detail.
pub fn decoded_or_error(decoded: Result<Request, String>) -> (r: Result<Request, Failure>)
    ensures
        r == match decoded {
            Ok(req) => Ok::<Request, Failure>(req),
            Err(detail) => Err(Failure { kind: Error::MalformedPayload, detail }),
        },
{
    match decoded {
        Ok(req) => Ok(req),
        Err(detail) => Err(Error::MalformedPayload.because(detail)),
    }
}

/// What is said of a payload that may not be handed to the decoder.
pub open spec fn refusal() -> Seq<char> {
    "the head of the payload is not ASCII throughout or announces a chunked body"@
}

fn refused() -> (r: Failure)
    ensures
        r.kind == Error::MalformedPayload,
        r.detail@ == refusal(),
{
    Error::MalformedPayload.because(
        "the head of the payload is not ASCII throughout or announces a chunked body".to_owned(),
    )
}

/// Whether a message with these header fields announces a body of `len`
/// bytes: its `Content-Length` is `len` in decimal digits, or it has no such
/// field and `len` is 0.
pub open spec fn announces(headers: Seq<Field>, len: nat) -> bool {
    match lookup(headers, "Content-Length"@) {
        Some(value) => is_digits(value) && number(value) == len,
        None => len == 0,
    }
}

/// Whether a message with these header fields announces a body of `len`
/// bytes.
pub fn is_announced(headers: &Vec<Header>, len: usize) -> (r: bool)
    ensures
        r == announces(fields(headers@), len as nat),
{
    match header_value(headers, "Content-Length") {
        Some(value) => is_number(value, len),
        None => len == 0,
    }
}

/// What is said of a message whose body is not as long as announced.
pub open spec fn shortfall() -> Seq<char> {
    "the body is not as long as Content-Length says"@
}

fn cut_short() -> (r: Failure)
    ensures
        r.kind == Error::MalformedPayload,
        r.detail@ == shortfall(),
{
    Error::MalformedPayload.because("the body is not as long as Content-Length says".to_owned())
}

/// The request that a payload carries: the one that the decoder finds, where
/// the payload may be handed to it and the body that it finds is as long as
/// the request announces. Any other payload carries none.
pub open spec fn request_in(payload: Seq<u8>) -> Option<RequestView> {
    if !decodable(payload) {
        None
    } else {
        match h1_decoded_request(payload) {
            Some(found) if announces(found.headers, found.body.len()) => Some(found),
            _ => None,
        }
    }
}

/// The response that a payload carries: the one that the decoder finds,
/// where the payload may be handed to it and the body that it finds is as
/// long as the response announces. Any other payload carries none.
pub open spec fn response_in(payload: Seq<u8>) -> Option<ResponseView> {
    if !decodable(payload) {
        None
    } else {
        match h1_decoded_response(payload) {
            Some(found) if announces(found.headers, found.body.len()) => Some(found),
            _ => None,
        }
    }
}

/// Reads a bundle payload as an HTTP/1.1 request with its whole body.
///
/// A payload whose head is not ASCII throughout, or which announces a chunked
/// body, is a `MalformedPayload`; so is one in which the codec finds no
/// request, and one whose body is not as long as its `Content-Length` says.
/// Else the request is the one that the codec finds, up to the order of
/// fields of different names.
pub fn decode_request(content: RequestContent) -> (r: Result<Request, Failure>)
    ensures
        match request_in(content@) {
            Some(found) => r matches Ok(req) && same_request(req@, found),
            None => r matches Err(e) && e.kind == Error::MalformedPayload,
        },
        !decodable(content@) ==> (r matches Err(e) && e.detail@ == refusal()),
{
    let payload = content.into_bytes();
    if !is_decodable(&payload) {
        return Err(refused());
    }
    match decoded_or_error(h1_decode_request(&payload)) {
        Ok(req) => {
            proof {
                let found = h1_decoded_request(content@)->0;
                assert(values(req@.headers, "Content-Length"@) == values(
                    found.headers,
                    "Content-Length"@,
                ));
            }
            if is_announced(&req.headers, req.body.len()) {
                Ok(req)
            } else {
                Err(cut_short())
            }
        },
        Err(failure) => Err(failure),
    }
}

/// The header fields of a response that says when it was made: its own where
/// it has a `Date` field, and else its own with `date` in such a field behind
/// them.
pub open spec fn dated(headers: Seq<Field>, date: Seq<char>) -> Seq<Field> {
    if is_dated(headers) {
        headers
    } else {
        headers.push(("date"@, date))
    }
}

/// Dating gives a response a date, keeps the date of one that has its own,
/// and leaves the values of every other name as they were.
pub proof fn lemma_dated(headers: Seq<Field>, date: Seq<char>, name: Seq<char>)
    ensures
        is_dated(dated(headers, date)),
        lookup(dated(headers, date), "Date"@) == if is_dated(headers) {
            lookup(headers, "Date"@)
        } else {
            Some(date)
        },
        !eq_ignore_case("Date"@, name) ==> values(dated(headers, date), name) == values(
            headers,
            name,
        ),
{
    reveal_strlit("Date");
    reveal_strlit("date");
    assert(lowercase("date"@) =~= lowercase("Date"@));
    if !is_dated(headers) {
        let field = ("date"@, date);
        let list = headers.push(field);
        assert(list.drop_last() =~= headers);
        assert(named(field, "Date"@));
        assert(named(field, name) <==> eq_ignore_case("Date"@, name));
    }
}

/// Gives a response that has no `Date` field one with `date`.
pub fn stamp(response: &mut Response, date: &str)
    ensures
        final(response)@ == (ResponseView {
            headers: dated(old(response)@.headers, date@),
            ..old(response)@
        }),
{
    if header_value(&response.headers, "Date").is_none() {
        append_header(&mut response.headers, "date", date);
    }
}

/// Reads a bundle payload as an HTTP/1.1 response with its whole body.
///
/// A payload whose head is not ASCII throughout, or which announces a chunked
/// body, is a `MalformedPayload`; so is one in which the codec finds no
/// response, and one whose body is not as long as its `Content-Length` says.
/// Else the response is the one that the codec finds, up to the order of
/// fields of different names and but for its `Date` field.
pub fn decode_response(content: RequestContent) -> (r: Result<Response, Failure>)
    ensures
        match response_in(content@) {
            Some(found) => r matches Ok(res) && same_response(res@, found),
            None => r matches Err(e) && e.kind == Error::MalformedPayload,
        },
        !decodable(content@) ==> (r matches Err(e) && e.detail@ == refusal()),
{
    let payload = content.into_bytes();
    if !is_decodable(&payload) {
        return Err(refused());
    }
    match h1_decode_response(&payload) {
        Ok(res) => {
            proof {
                reveal_strlit("Date");
                reveal_strlit("Content-Length");
                assert(lowercase("Date"@).len() == 4);
                assert(lowercase("Content-Length"@).len() == 14);
                let found = h1_decoded_response(content@)->0;
                assert(values(res@.headers, "Content-Length"@) == values(
                    found.headers,
                    "Content-Length"@,
                ));
            }
            if is_announced(&res.headers, res.body.len()) {
                Ok(res)
            } else {
                Err(cut_short())
            }
        },
        Err(detail) => Err(Error::MalformedPayload.because(detail)),
    }
}

/// Serialises a response to a request of the given method into a bundle
/// payload; where the codec cannot encode it, the error is the codec's text.
///
/// The codec stamps a response that has no `Date` field with the current
/// time. For a response that brings its own the payload is the codec's,
/// exactly.
pub fn encode_response(response: &Response, method: &str) -> (r: Result<Vec<u8>, String>)
    ensures
        r is Ok <==> h1_response_bytes(
            response@.status,
            response@.headers,
            response@.body,
            method@,
        ) is Some,
        is_dated(response@.headers) ==> content(r) == h1_response_bytes(
            response@.status,
            response@.headers,
            response@.body,
            method@,
        ),
{
    h1_encode_response(response, method)
}

} // verus!
