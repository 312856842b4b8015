//! The structural document: raw source text plus a queryable YAML tree.
//!
//! The tree and its route queries come from the `yamlpath` crate; everything
//! this module states about them is collected in the trusted items below,
//! and everything downstream is proved from those statements.

use vstd::prelude::*;
use vstd::string::*;
use crate::finding::{Route, route_model};

verus! {

/// Building a document can fail in exactly one way.
#[derive(Copy, Clone, Debug, PartialEq, Eq, Structural)]
pub enum DocumentError {
    /// The source is not valid YAML.
    Invalid,
}

/// A route that does not resolve against the document: a caller error, per
/// the resolver's contract.
#[derive(Copy, Clone, Debug, PartialEq, Eq, Structural)]
pub struct ResolveError;

#[verifier::external_type_specification]
#[verifier::external_body]
pub struct ExDocument(yamlpath::Document);

/// The source text a document was built from.
pub uninterp spec fn doc_text(d: yamlpath::Document) -> Seq<char>;

/// The byte length of the source a document was built from.
pub uninterp spec fn doc_byte_len(d: yamlpath::Document) -> int;

/// Whether a route resolves against the document's tree.
pub uninterp spec fn doc_route_resolves(d: yamlpath::Document, steps: Seq<(bool, Seq<char>, int)>) -> bool;

/// The byte span of the node a route resolves to.
pub uninterp spec fn doc_route_span(d: yamlpath::Document, steps: Seq<(bool, Seq<char>, int)>) -> (
    int,
    int,
);

/// Relies on `yamlpath::Document::new`: it keeps the given source verbatim
/// (`source()` returns it) and fails on input that does not parse as YAML.
/// The document's byte length is the length of the source's UTF-8 encoding.
#[verifier::external_body]
fn yp_parse(source: &str) -> (r: Result<yamlpath::Document, DocumentError>)
    ensures
        r matches Ok(d) ==> doc_text(d) == source@ && doc_byte_len(d)
            == source.spec_bytes().len(),
{
    match yamlpath::Document::new(source.to_owned()) {
        Ok(d) => Ok(d),
        Err(_) => Err(DocumentError::Invalid),
    }
}

/// Relies on `yamlpath::Document::query_pretty`: a pure function of the
/// document and the route, returning on success the "pretty" byte span of
/// the matching node, a well-formed range within the source bytes, and on
/// failure resolving nothing. A route resolves by descending the tree one
/// component at a time, so when a route resolves, every prefix of it — in
/// particular its parent — resolves too.
#[verifier::external_body]
fn yp_query(doc: &yamlpath::Document, route: &Route) -> (r: Result<(usize, usize), ResolveError>)
    ensures
        match r {
            Ok(span) => doc_route_resolves(*doc, route_model(*route)) && span.0 as int
                == doc_route_span(*doc, route_model(*route)).0 && span.1 as int == doc_route_span(
                *doc,
                route_model(*route),
            ).1 && span.0 <= span.1 <= doc_byte_len(*doc),
            Err(_) => !doc_route_resolves(*doc, route_model(*route)),
        },
        r is Ok && route_model(*route).len() > 0 ==> doc_route_resolves(
            *doc,
            route_model(*route).drop_last(),
        ),
{
    let mut q = yamlpath::Route::default();
    for c in route.components.iter() {
        q = match c {
            crate::finding::RouteComponent::Key(k) => q.with_key(k.clone()),
            crate::finding::RouteComponent::Index(i) => q.with_key(*i),
        };
    }
    match doc.query_pretty(&q) {
        Ok(f) => Ok((f.location.byte_span.0, f.location.byte_span.1)),
        Err(_) => Err(ResolveError),
    }
}

/// One analyzable input: its registry key, its raw source text, and the
/// queryable document built from that text.
pub struct Input {
    key: String,
    source: String,
    doc: yamlpath::Document,
}

impl Input {
    /// The key this input is registered under.
    pub closed spec fn key_spec(self) -> Seq<char> {
        self.key@
    }

    /// The input's source text.
    pub closed spec fn text(self) -> Seq<char> {
        self.source@
    }

    /// The underlying document value.
    pub closed spec fn doc_spec(self) -> yamlpath::Document {
        self.doc
    }

    /// Well-formedness: the document was built from exactly this source, and
    /// its byte length is the length of the source's UTF-8 encoding, so the
    /// resolver can convert the document's byte offsets into character
    /// offsets.
    pub open spec fn wf(self) -> bool {
        &&& doc_text(self.doc_spec()) == self.text()
        &&& doc_byte_len(self.doc_spec()) == vstd::utf8::encode_utf8(self.text()).len()
    }

    /// Build an input from its key and raw source. Fails on text that is not
    /// valid YAML.
    pub fn new(key: String, source: String) -> (r: Result<Input, DocumentError>)
        ensures
            match r {
                Ok(inp) => inp.wf() && inp.key_spec() == key@ && inp.text() == source@,
                Err(_) => true,
            },
    {
        let doc = match yp_parse(source.as_str()) {
            Ok(d) => d,
            Err(e) => {
                return Err(e);
            },
        };
        Ok(Input { key, source, doc })
    }

    /// The raw source text.
    pub fn source(&self) -> (r: &str)
        ensures
            r@ == self.text(),
    {
        self.source.as_str()
    }

    /// The input's key.
    pub fn key(&self) -> (r: &str)
        ensures
            r@ == self.key_spec(),
    {
        self.key.as_str()
    }

    /// The whole-document symbolic location.
    pub fn location(&self) -> (r: crate::finding::SymbolicLocation)
        ensures
            r.key@ == self.key_spec(),
            route_model(r.route) == Seq::<(bool, Seq<char>, int)>::empty(),
            r.primary == false,
            r.annotation@ == Seq::<char>::empty(),
    {
        let r = crate::finding::SymbolicLocation {
            key: self.key.clone(),
            annotation: String::new(),
            route: Route::new(),
            primary: false,
        };
        r
    }

    /// Resolve a route to its character span: the whole document for the
    /// empty route, the matching node's span otherwise, its byte offsets
    /// converted to character offsets.
    pub fn resolve_span(&self, route: &Route) -> (r: Result<(usize, usize), ResolveError>)
        requires
            self.wf(),
        ensures
            match r {
                Ok(span) => input_route_resolves(*self, route_model(*route)) && (
                span.0 as int,
                span.1 as int,
                ) == input_route_span(*self, route_model(*route)) && span.0 <= span.1
                    <= self.text().len(),
                Err(_) => !input_route_resolves(*self, route_model(*route)),
            },
            r is Ok && route_model(*route).len() > 0 ==> input_route_resolves(
                *self,
                route_model(*route).drop_last(),
            ),
    {
        if route.components.len() == 0 {
            let n = self.source.as_str().unicode_len();
            proof {
                assert(route_model(*route) =~= Seq::<(bool, Seq<char>, int)>::empty());
            }
            return Ok((0, n));
        }
        proof {
            assert(route_model(*route).len() == route.components@.len());
        }
        let (a, b) = match yp_query(&self.doc, route) {
            Ok(span) => span,
            Err(e) => {
                return Err(e);
            },
        };
        let ca = crate::text::byte_to_char_offset(self.source.as_str(), a);
        let cb = crate::text::byte_to_char_offset(self.source.as_str(), b);
        proof {
            crate::text::lemma_byte_to_char_monotone(self.text(), a as int, b as int);
        }
        Ok((ca, cb))
    }
}

/// Whether a route resolves against an input: the empty route always does
/// (to the whole document); any other route exactly when the document's tree
/// resolves it.
pub open spec fn input_route_resolves(input: Input, steps: Seq<(bool, Seq<char>, int)>) -> bool {
    steps.len() == 0 || doc_route_resolves(input.doc_spec(), steps)
}

/// The span a route resolves to against an input, in character offsets: the
/// document's byte span converted through [`crate::text::byte_to_char`].
pub open spec fn input_route_span(input: Input, steps: Seq<(bool, Seq<char>, int)>) -> (int, int) {
    if steps.len() == 0 {
        (0, input.text().len() as int)
    } else {
        (
            crate::text::byte_to_char(input.text(), doc_route_span(input.doc_spec(), steps).0),
            crate::text::byte_to_char(input.text(), doc_route_span(input.doc_spec(), steps).1),
        )
    }
}

} // verus!
