//! HTTP message envelopes: a request or a response held as plain values, with
//! its header fields as an ordered list whose names compare without case.

use vstd::prelude::*;
use crate::text::{eq_ignore_case, same_ignoring_case};

verus! {

/// A header field as a pair of name and value.
pub type Field = (Seq<char>, Seq<char>);

/// One header field.
#[derive(Debug)]
pub struct Header {
    pub name: String,
    pub value: String,
}

impl View for Header {
    type V = Field;

    open spec fn view(&self) -> Field {
        (self.name@, self.value@)
    }
}

/// The fields of a header list, in order.
pub open spec fn fields(headers: Seq<Header>) -> Seq<Field> {
    headers.map_values(|h: Header| h@)
}

/// Whether the name of `f` is `name`, up to ASCII case.
pub open spec fn named(f: Field, name: Seq<char>) -> bool {
    eq_ignore_case(f.0, name)
}

/// The values of the fields named `name`, in the order of the list.
pub open spec fn values(list: Seq<Field>, name: Seq<char>) -> Seq<Seq<char>>
    decreases list.len(),
{
    if list.len() == 0 {
        Seq::empty()
    } else if named(list.last(), name) {
        values(list.drop_last(), name).push(list.last().1)
    } else {
        values(list.drop_last(), name)
    }
}

/// The value that a reader of the field `name` sees: that of the last field
/// of this name, if there is one.
pub open spec fn lookup(list: Seq<Field>, name: Seq<char>) -> Option<Seq<char>> {
    let found = values(list, name);
    if found.len() == 0 {
        None
    } else {
        Some(found.last())
    }
}

/// The list without its fields named `name`; the others keep their order.
pub open spec fn without(list: Seq<Field>, name: Seq<char>) -> Seq<Field>
    decreases list.len(),
{
    if list.len() == 0 {
        list
    } else if named(list.last(), name) {
        without(list.drop_last(), name)
    } else {
        without(list.drop_last(), name).push(list.last())
    }
}

/// The list with `name` set to the single value `value`: earlier fields of
/// this name are dropped and the new field comes last.
pub open spec fn replaced(list: Seq<Field>, name: Seq<char>, value: Seq<char>) -> Seq<Field> {
    without(list, name).push((name, value))
}

/// Removing the fields of one name empties that name and leaves the values of
/// every other name as they were.
pub proof fn lemma_values_without(list: Seq<Field>, gone: Seq<char>, name: Seq<char>)
    ensures
        values(without(list, gone), name) == if eq_ignore_case(gone, name) {
            Seq::<Seq<char>>::empty()
        } else {
            values(list, name)
        },
    decreases list.len(),
{
    if list.len() > 0 {
        lemma_values_without(list.drop_last(), gone, name);
        if !named(list.last(), gone) {
            assert(without(list, gone).drop_last() =~= without(list.drop_last(), gone));
        }
    }
}

/// Setting a name gives it exactly the new value and leaves the values of
/// every other name as they were.
pub proof fn lemma_values_replaced(
    list: Seq<Field>,
    set: Seq<char>,
    value: Seq<char>,
    name: Seq<char>,
)
    ensures
        values(replaced(list, set, value), name) == if eq_ignore_case(set, name) {
            seq![value]
        } else {
            values(list, name)
        },
{
    lemma_values_without(list, set, name);
    assert(replaced(list, set, value).drop_last() =~= without(list, set));
}

/// A request envelope.
#[derive(Debug)]
pub struct Request {
    /// The method, such as `GET`.
    pub method: String,
    /// The request target: path and, behind a `?`, the query.
    pub target: String,
    pub headers: Vec<Header>,
    pub body: Vec<u8>,
}

/// What a request holds.
pub struct RequestView {
    pub method: Seq<char>,
    pub target: Seq<char>,
    pub headers: Seq<Field>,
    pub body: Seq<u8>,
}

impl View for Request {
    type V = RequestView;

    open spec fn view(&self) -> RequestView {
        RequestView {
            method: self.method@,
            target: self.target@,
            headers: fields(self.headers@),
            body: self.body@,
        }
    }
}

/// A response envelope.
#[derive(Debug)]
pub struct Response {
    pub status: u16,
    pub headers: Vec<Header>,
    pub body: Vec<u8>,
}

/// What a response holds.
pub struct ResponseView {
    pub status: u16,
    pub headers: Seq<Field>,
    pub body: Seq<u8>,
}

impl View for Response {
    type V = ResponseView;

    open spec fn view(&self) -> ResponseView {
        ResponseView { status: self.status, headers: fields(self.headers@), body: self.body@ }
    }
}

/// The value of the last field named `name`.
pub fn header_value<'a>(headers: &'a Vec<Header>, name: &str) -> (r: Option<&'a str>)
    ensures
        r is Some <==> lookup(fields(headers@), name@) is Some,
        r matches Some(v) ==> lookup(fields(headers@), name@) == Some(v@),
{
    let mut found: Option<&'a str> = None;
    let mut i: usize = 0;
    while i < headers.len()
        invariant
            i <= headers.len(),
            found is Some <==> lookup(fields(headers@).take(i as int), name@) is Some,
            found matches Some(v) ==> lookup(fields(headers@).take(i as int), name@) == Some(v@),
        decreases headers.len() - i,
    {
        proof {
            let next = fields(headers@).take(i + 1);
            assert(next.drop_last() =~= fields(headers@).take(i as int));
            assert(next.last() == headers@[i as int]@);
        }
        if same_ignoring_case(headers[i].name.as_str(), name) {
            found = Some(headers[i].value.as_str());
        }
        i += 1;
    }
    assert(fields(headers@).take(i as int) =~= fields(headers@));
    found
}

/// Drops every field named `name`.
pub fn remove_header(headers: &mut Vec<Header>, name: &str)
    ensures
        fields(final(headers)@) == without(fields(old(headers)@), name@),
{
    let mut kept: Vec<Header> = Vec::new();
    let mut i: usize = 0;
    while i < headers.len()
        invariant
            i <= headers.len(),
            fields(kept@) == without(fields(headers@).take(i as int), name@),
        decreases headers.len() - i,
    {
        proof {
            let next = fields(headers@).take(i + 1);
            assert(next.drop_last() =~= fields(headers@).take(i as int));
            assert(next.last() == headers@[i as int]@);
        }
        if !same_ignoring_case(headers[i].name.as_str(), name) {
            let ghost before = fields(kept@);
            let h = Header { name: headers[i].name.clone(), value: headers[i].value.clone() };
            kept.push(h);
            assert(fields(kept@) =~= before.push(headers@[i as int]@));
        }
        i += 1;
    }
    assert(fields(headers@).take(i as int) =~= fields(headers@));
    *headers = kept;
}

/// Adds a field at the end of the list.
pub fn append_header(headers: &mut Vec<Header>, name: &str, value: &str)
    ensures
        fields(final(headers)@) == fields(old(headers)@).push((name@, value@)),
{
    headers.push(Header { name: name.to_owned(), value: value.to_owned() });
    assert(fields(headers@) =~= fields(old(headers)@).push((name@, value@)));
}

/// Sets `name` to the single value `value`.
pub fn insert_header(headers: &mut Vec<Header>, name: &str, value: &str)
    ensures
        fields(final(headers)@) == replaced(fields(old(headers)@), name@, value@),
{
    remove_header(headers, name);
    append_header(headers, name, value);
}

} // verus!
