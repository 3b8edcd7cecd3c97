//! Safe HTML surgery: parsing the resolved document and grafting rendered
//! fragment markup under selector-matched nodes.
//!
//! The parsing, selector matching, tree mutation and serialization are
//! kuchiki's (html5ever underneath).  Each is deterministic, so what it
//! produces is named by an uninterpreted spec function: a document tree is
//! described abstractly by `doc_state`, parsing and injection map such
//! descriptions to descriptions, and `rendered` names the text a described
//! tree serializes to.  The order in which fragments are applied — and that
//! a fragment whose selector matches nothing leaves the document as it was
//! — is verified here against those names.

use vstd::prelude::*;
use kuchiki::traits::TendrilSink;

verus! {

#[verifier::external_type_specification]
#[verifier::external_body]
pub struct ExNodeRef(kuchiki::NodeRef);

/// An abstract description of the document tree `d` currently holds.  Two
/// trees built by the same parse and the same injections are the same tree,
/// so they have the same description.
pub uninterp spec fn doc_state(d: kuchiki::NodeRef) -> Seq<char>;

/// The tree that parsing `html` yields.  Parsing normalizes the document
/// (html5ever's tree construction), so its serialization is not `html`
/// itself.
pub uninterp spec fn parsed_doc(html: Seq<char>) -> Seq<char>;

/// The tree after replacing the children of the first node matching
/// `selector` with the parsed `markup`.
pub uninterp spec fn injected(doc: Seq<char>, selector: Seq<char>, markup: Seq<char>) -> Seq<char>;

/// Whether `selector` parses and matches at least one node of the tree.
pub uninterp spec fn selector_hits(doc: Seq<char>, selector: Seq<char>) -> bool;

/// The text a described tree serializes to.
pub uninterp spec fn rendered(doc: Seq<char>) -> Seq<char>;

/// Relies on kuchiki::parse_html and html5ever's document parser: the
/// resulting tree is a function of the input text alone, named
/// `parsed_doc`.
#[verifier::external_body]
pub fn parse_document(html: &str) -> (d: kuchiki::NodeRef)
    ensures
        doc_state(d) == parsed_doc(html@),
{
    kuchiki::parse_html().one(html)
}

/// Relies on NodeRef's serializer (html5ever serialize): renders the tree
/// back to text.  Attributes sit in an ordered map, so the text is a
/// function of the tree alone, named `rendered`.
#[verifier::external_body]
pub fn serialize_document(d: &kuchiki::NodeRef) -> (s: String)
    ensures
        s@ == rendered(doc_state(*d)),
{
    d.to_string()
}

/// Relies on NodeRef::select_first, detach and append, and kuchiki's
/// fragment parsing through a throwaway wrapper element: replaces the first
/// matching node's children with the parsed markup.  When the selector does
/// not parse or matches no node, kuchiki's select finds nothing and the
/// tree is left untouched.  The body is one composite DOM operation rather
/// than a single call: every step handles only opaque kuchiki nodes (the
/// child walks cannot carry a termination measure), so splitting it would
/// multiply the trusted surface without verifying anything more.
#[verifier::external_body]
pub fn inject_into(d: kuchiki::NodeRef, selector: &str, markup: &str) -> (r: (
    kuchiki::NodeRef,
    bool,
))
    ensures
        doc_state(r.0) == injected(doc_state(d), selector@, markup@),
        r.1 == selector_hits(doc_state(d), selector@),
        !r.1 ==> injected(doc_state(d), selector@, markup@) == doc_state(d),
{
    if let Ok(target) = d.select_first(selector) {
        let node = target.as_node();
        while let Some(child) = node.first_child() { child.detach(); }
        let wrapped = format!("<div id=\"__greentic_fragment_wrapper\">{}</div>", markup);
        let parsed = kuchiki::parse_html().one(wrapped);
        if let Ok(wrapper) = parsed.select_first("#__greentic_fragment_wrapper") {
            while let Some(child) = wrapper.as_node().first_child() {
                child.detach();
                node.append(child);
            }
        }
        (d, true)
    } else {
        (d, false)
    }
}

/// The document after injecting each (selector, markup) pair in order.
pub open spec fn injected_all(doc: Seq<char>, pairs: Seq<(Seq<char>, Seq<char>)>) -> Seq<char>
    decreases pairs.len(),
{
    if pairs.len() == 0 {
        doc
    } else {
        injected(injected_all(doc, pairs.drop_last()), pairs.last().0, pairs.last().1)
    }
}

/// The views of a list of (selector, markup) pairs.
pub open spec fn pairs_view(pairs: Seq<(String, String)>) -> Seq<(Seq<char>, Seq<char>)> {
    pairs.map_values(|p: (String, String)| (p.0@, p.1@))
}

/// Parse the document once, inject every (selector, markup) pair in order,
/// and serialize the result.
pub fn apply_fragments(html: &str, pairs: &Vec<(String, String)>) -> (r: String)
    ensures
        r@ == rendered(injected_all(parsed_doc(html@), pairs_view(pairs@))),
        pairs@.len() == 0 ==> r@ == rendered(parsed_doc(html@)),
{
    let mut d = parse_document(html);
    let n = pairs.len();
    let mut i: usize = 0;
    proof {
        assert(pairs_view(pairs@.subrange(0, 0)) =~= Seq::<(Seq<char>, Seq<char>)>::empty());
    }
    while i < n
        invariant
            i <= n,
            n == pairs@.len(),
            doc_state(d) == injected_all(parsed_doc(html@), pairs_view(pairs@.subrange(0, i as int))),
        decreases n - i,
    {
        let stepped = inject_into(d, pairs[i].0.as_str(), pairs[i].1.as_str());
        d = stepped.0;
        proof {
            let pre = pairs_view(pairs@.subrange(0, i + 1));
            assert(pre.drop_last() =~= pairs_view(pairs@.subrange(0, i as int)));
            assert(pre.last() == (pairs@[i as int].0@, pairs@[i as int].1@));
        }
        i += 1;
    }
    proof {
        assert(pairs@.subrange(0, n as int) =~= pairs@);
    }
    serialize_document(&d)
}

/// Parse a document and serialize it back without touching it: the baseline
/// that an injection with an unmatched selector must reproduce exactly.
pub fn reserialize(html: &str) -> (r: String)
    ensures
        r@ == rendered(parsed_doc(html@)),
{
    let d = parse_document(html);
    serialize_document(&d)
}

} // verus!
