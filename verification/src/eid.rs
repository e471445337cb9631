//! Endpoint identifiers of the bundle transport: `scheme://node/agent`.

use vstd::prelude::*;
use vstd::string::*;
use crate::text::{
    chars_of, find_from, first_index, lemma_absent, lemma_first_index, lemma_first_index_unique,
};

verus! {

/// The three components of an endpoint identifier.
pub struct Components {
    pub scheme: Seq<char>,
    pub node: Seq<char>,
    pub agent: Seq<char>,
}

/// The separator between the scheme and the node component.
pub open spec fn separator() -> Seq<char> {
    seq![':', '/', '/']
}

/// A scheme is not empty and holds neither `:` nor `/`; a node component is
/// not empty and holds no `/`. The agent component is free.
pub open spec fn well_formed(c: Components) -> bool {
    &&& c.scheme.len() > 0
    &&& !c.scheme.contains(':')
    &&& !c.scheme.contains('/')
    &&& c.node.len() > 0
    &&& !c.node.contains('/')
}

/// The canonical text of an identifier.
pub open spec fn render(c: Components) -> Seq<char> {
    c.scheme + separator() + c.node + seq!['/'] + c.agent
}

/// Reads `text` as `scheme://node/agent`: the scheme ends at the first `:`,
/// the node component at the first `/` behind the separator, and the agent
/// component is whatever follows.
pub open spec fn parse_components(text: Seq<char>) -> Option<Components> {
    let i = first_index(text, ':');
    let rest = text.skip(i + 3);
    let j = first_index(rest, '/');
    if 0 < i && i + 3 <= text.len() && text.subrange(i, i + 3) == separator()
        && !text.take(i).contains('/') && 0 < j < rest.len() {
        Some(Components { scheme: text.take(i), node: rest.take(j), agent: rest.skip(j + 1) })
    } else {
        None
    }
}

/// Whatever parses is well formed, and its canonical text is the text that
/// was parsed.
pub proof fn lemma_parse_is_canonical(text: Seq<char>)
    ensures
        parse_components(text) matches Some(c) ==> well_formed(c) && render(c) == text,
{
    if let Some(c) = parse_components(text) {
        let i = first_index(text, ':');
        let rest = text.skip(i + 3);
        let j = first_index(rest, '/');
        lemma_first_index(text, ':');
        lemma_first_index(rest, '/');
        assert(!c.scheme.contains(':')) by {
            if c.scheme.contains(':') {
                let k = choose|k: int| 0 <= k < c.scheme.len() && c.scheme[k] == ':';
                assert(text[k] == ':');
            }
        }
        assert(!c.node.contains('/')) by {
            if c.node.contains('/') {
                let k = choose|k: int| 0 <= k < c.node.len() && c.node[k] == '/';
                assert(rest[k] == '/');
            }
        }
        assert(render(c) =~= text) by {
            assert(text.subrange(i, i + 3) =~= separator());
            assert(text =~= text.take(i) + text.subrange(i, i + 3) + rest);
            assert(rest =~= rest.take(j) + seq!['/'] + rest.skip(j + 1));
        }
    }
}

/// The canonical text of well-formed components parses back to them.
pub proof fn lemma_render_parses(c: Components)
    requires
        well_formed(c),
    ensures
        parse_components(render(c)) == Some(c),
{
    let text = render(c);
    let i = c.scheme.len() as int;
    assert(text[i] == ':');
    assert forall|k: int| 0 <= k < i implies text[k] != ':' by {
        assert(text[k] == c.scheme[k]);
        assert(c.scheme.contains(c.scheme[k]));
    }
    lemma_first_index_unique(text, ':', i);
    let rest = text.skip(i + 3);
    let j = c.node.len() as int;
    assert(rest =~= c.node + seq!['/'] + c.agent);
    assert(rest[j] == '/');
    assert forall|k: int| 0 <= k < j implies rest[k] != '/' by {
        assert(rest[k] == c.node[k]);
        assert(c.node.contains(c.node[k]));
    }
    lemma_first_index_unique(rest, '/', j);
    assert(text.subrange(i, i + 3) =~= separator());
    assert(text.take(i) =~= c.scheme);
    assert(rest.take(j) =~= c.node);
    assert(rest.skip(j + 1) =~= c.agent);
}

/// A parsed endpoint identifier. Its components are always well formed.
#[derive(Debug)]
pub struct EndpointId {
    scheme: String,
    node: String,
    agent: String,
}

impl View for EndpointId {
    type V = Components;

    closed spec fn view(&self) -> Components {
        Components { scheme: self.scheme@, node: self.node@, agent: self.agent@ }
    }
}

impl EndpointId {
    #[verifier::type_invariant]
    spec fn components_well_formed(&self) -> bool {
        well_formed(self@)
    }

    /// Parses `text`; `None` when it is not of the form `scheme://node/agent`.
    pub fn parse(text: &str) -> (r: Option<EndpointId>)
        ensures
            r is Some <==> parse_components(text@) is Some,
            r matches Some(e) ==> parse_components(text@) == Some(e@) && well_formed(e@),
    {
        let chars = chars_of(text);
        let n = chars.len();
        let i = find_from(&chars, ':', 0);
        assert(chars@.skip(0) =~= text@);
        if i == 0 || n < 3 || i > n - 3 {
            return None;
        }
        if chars[i + 1] != '/' || chars[i + 2] != '/' {
            assert(text@.subrange(i as int, i + 3)[1] == text@[i + 1]);
            assert(text@.subrange(i as int, i + 3)[2] == text@[i + 2]);
            return None;
        }
        assert(text@.subrange(i as int, i + 3) =~= separator()) by {
            lemma_first_index(text@, ':');
        }
        let slash = find_from(&chars, '/', 0);
        proof {
            lemma_first_index(text@, '/');
            lemma_absent(text@.take(i as int), '/');
            if slash < i {
                assert(text@.take(i as int)[slash as int] == '/');
                assert(text@.take(i as int).contains('/'));
            } else {
                if text@.take(i as int).contains('/') {
                    let k = choose|k: int| 0 <= k < i && text@.take(i as int)[k] == '/';
                    assert(text@[k] == '/');
                }
            }
        }
        if slash < i {
            return None;
        }
        let j = find_from(&chars, '/', i + 3);
        if j == i + 3 || j >= n {
            return None;
        }
        let scheme = text.substring_char(0, i).to_owned();
        let node = text.substring_char(i + 3, j).to_owned();
        let agent = text.substring_char(j + 1, n).to_owned();
        proof {
            let rest = text@.skip(i + 3);
            assert(rest.take(j - (i + 3)) =~= text@.subrange(i + 3, j as int));
            assert(rest.skip(j - (i + 3) + 1) =~= text@.subrange(j + 1, n as int));
            assert(text@.take(i as int) =~= text@.subrange(0, i as int));
            lemma_parse_is_canonical(text@);
        }
        let e = EndpointId { scheme, node, agent };
        Some(e)
    }

    /// The scheme, such as `dtn`.
    pub fn scheme(&self) -> (r: &str)
        ensures
            r@ == self@.scheme,
    {
        self.scheme.as_str()
    }

    /// The node component, such as `node1.dtn`.
    pub fn node(&self) -> (r: &str)
        ensures
            r@ == self@.node,
    {
        self.node.as_str()
    }

    /// The agent component; empty for the identifier of a node itself.
    pub fn agent(&self) -> (r: &str)
        ensures
            r@ == self@.agent,
    {
        self.agent.as_str()
    }

    /// The canonical text `scheme://node/agent`.
    pub fn to_text(&self) -> (r: String)
        ensures
            r@ == render(self@),
    {
        endpoint_text(self.scheme.as_str(), self.node.as_str(), self.agent.as_str())
    }
}

/// The text `scheme://node/agent` for the given parts, whatever they hold.
pub fn endpoint_text(scheme: &str, node: &str, agent: &str) -> (r: String)
    ensures
        r@ == render(Components { scheme: scheme@, node: node@, agent: agent@ }),
{
    proof {
        reveal_strlit("://");
        reveal_strlit("/");
    }
    let mut r = scheme.to_owned();
    r.append("://");
    r.append(node);
    r.append("/");
    r.append(agent);
    assert("://"@ =~= separator());
    assert("/"@ =~= seq!['/']);
    r
}

} // verus!
