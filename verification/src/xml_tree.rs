//! A parsed XML document as a list of nodes in document order, and the
//! searches the invoice reader makes in it.
//!
//! Each node records whether it is an element, its local name, its text
//! (the text of its first child when that child is text), its `Id` and `id`
//! attributes, and how many nodes its subtree holds, itself included.  The
//! subtree of the node at `i` is then the nodes at `i .. i + size`.
use vstd::prelude::*;

use crate::text::{lower_char, lower_seq, trim, trim_chars, chars_of, string_of};

verus! {

broadcast use vstd::string::group_string_axioms;

/// One node of a parsed document.
#[derive(Debug, Clone)]
pub struct XmlNode {
    pub element: bool,
    pub name: String,
    pub text: Option<String>,
    pub id_upper: Option<String>,
    pub id_lower: Option<String>,
    pub size: usize,
    pub namespace: Option<String>,
}

pub type XmlNodeView = (bool, Seq<char>, Option<Seq<char>>, Option<Seq<char>>, Option<Seq<char>>, nat, Option<Seq<char>>);

pub open spec fn opt_text_view(o: Option<String>) -> Option<Seq<char>> {
    match o {
        Some(s) => Some(s@),
        None => None,
    }
}

pub open spec fn node_view(n: XmlNode) -> XmlNodeView {
    (
        n.element,
        n.name@,
        opt_text_view(n.text),
        opt_text_view(n.id_upper),
        opt_text_view(n.id_lower),
        n.size as nat,
        opt_text_view(n.namespace),
    )
}

pub open spec fn nodes_view(v: Seq<XmlNode>) -> Seq<XmlNodeView> {
    v.map_values(|n: XmlNode| node_view(n))
}

pub open spec fn parsed_view(r: Result<Vec<XmlNode>, String>) -> Result<Seq<XmlNodeView>, Seq<char>> {
    match r {
        Ok(v) => Ok(nodes_view(v@)),
        Err(e) => Err(e@),
    }
}

/// Names what `roxmltree::Document::parse` gives for a text: its nodes in
/// document order, or the message of its error.
pub uninterp spec fn xml_document(xml: Seq<char>) -> Result<Seq<XmlNodeView>, Seq<char>>;

/// Parses a document with `roxmltree::Document::parse` and lists every
/// node that `Document::descendants` walks, converted one for one; on an
/// error, its message.  The contract names the result.
#[verifier::external_body]
pub(crate) fn parse_xml_nodes(xml: &str) -> (r: Result<Vec<XmlNode>, String>)
    ensures
        parsed_view(r) == xml_document(xml@),
{
    match roxmltree::Document::parse(xml) {
        Ok(doc) => {
            let mut out = Vec::new();
            for n in doc.descendants() {
                let tag = n.tag_name();
                out.push(XmlNode { element: n.is_element(), name: tag.name().to_string(),
                    text: n.text().map(str::to_string), id_upper: n.attribute("Id").map(str::to_string),
                    id_lower: n.attribute("id").map(str::to_string), size: n.descendants().count(),
                    namespace: tag.namespace().map(str::to_string) });
            }
            Ok(out)
        },
        Err(e) => Err(e.to_string()),
    }
}

// ---------------------------------------------------------------------------
// Searches
// ---------------------------------------------------------------------------

/// `str::eq_ignore_ascii_case`.
pub open spec fn same_name(a: Seq<char>, b: Seq<char>) -> bool {
    lower_seq(a) == lower_seq(b)
}

/// An element with the given name, in any ASCII case.
pub open spec fn is_tag(n: XmlNodeView, tag: Seq<char>) -> bool {
    n.0 && same_name(n.1, tag)
}

/// Where the subtree of the node at `i` ends.
pub open spec fn subtree_end(ns: Seq<XmlNodeView>, i: int) -> int {
    if i + ns[i].5 <= ns.len() {
        i + ns[i].5
    } else {
        ns.len() as int
    }
}

/// The first element named `tag` among the nodes at `j .. end`.
pub open spec fn find_from(ns: Seq<XmlNodeView>, j: int, end: int, tag: Seq<char>) -> Option<int>
    decreases end - j,
{
    if j >= end || j < 0 || j >= ns.len() {
        None
    } else if is_tag(ns[j], tag) {
        Some(j)
    } else {
        find_from(ns, j + 1, end, tag)
    }
}

/// The first element named `tag` in the subtree of the node at `i`, the
/// node itself included.
pub open spec fn first_descendant(ns: Seq<XmlNodeView>, i: int, tag: Seq<char>) -> Option<int> {
    find_from(ns, i, subtree_end(ns, i), tag)
}

/// `first_descendant` on an optional node.
pub open spec fn descendant_of(ns: Seq<XmlNodeView>, node: Option<int>, tag: Seq<char>) -> Option<int> {
    match node {
        Some(i) => first_descendant(ns, i, tag),
        None => None,
    }
}

/// The trimmed text of the first element named `tag` under `node`, or the
/// empty text.
pub open spec fn text_in(ns: Seq<XmlNodeView>, node: Option<int>, tag: Seq<char>) -> Seq<char> {
    match descendant_of(ns, node, tag) {
        Some(j) => match ns[j].2 {
            Some(t) => trim(t),
            None => seq![],
        },
        None => seq![],
    }
}

/// The text under the first of two names that gives a non-empty one.
pub open spec fn text_in2(ns: Seq<XmlNodeView>, node: Option<int>, a: Seq<char>, b: Seq<char>) -> Seq<char> {
    if text_in(ns, node, a).len() > 0 {
        text_in(ns, node, a)
    } else {
        text_in(ns, node, b)
    }
}

pub proof fn lemma_find_from_bounds(ns: Seq<XmlNodeView>, j: int, end: int, tag: Seq<char>)
    ensures
        find_from(ns, j, end, tag) matches Some(k) ==> j <= k < end && 0 <= k < ns.len() && is_tag(ns[k], tag),
    decreases end - j,
{
    if !(j >= end || j < 0 || j >= ns.len()) && !is_tag(ns[j], tag) {
        lemma_find_from_bounds(ns, j + 1, end, tag);
    }
}

/// Whether two names are equal in any ASCII case.
pub fn same_name_exec(a: &Vec<char>, b: &Vec<char>) -> (r: bool)
    ensures
        r == same_name(a@, b@),
{
    if a.len() != b.len() {
        proof {
            assert(lower_seq(a@).len() != lower_seq(b@).len());
        }
        return false;
    }
    for i in 0..a.len()
        invariant
            a@.len() == b@.len(),
            forall|k: int| 0 <= k < i ==> lower_seq(a@)[k] == lower_seq(b@)[k],
    {
        if lower_char(a[i]) != lower_char(b[i]) {
            proof {
                assert(lower_seq(a@)[i as int] != lower_seq(b@)[i as int]);
            }
            return false;
        }
    }
    proof {
        assert(lower_seq(a@) =~= lower_seq(b@));
    }
    true
}

/// The nodes of a document with their names as characters.
pub struct XmlIndex {
    pub nodes: Vec<XmlNode>,
    pub names: Vec<Vec<char>>,
}

pub open spec fn index_ok(x: XmlIndex) -> bool {
    &&& x.names@.len() == x.nodes@.len()
    &&& forall|k: int| 0 <= k < x.names@.len() ==> (#[trigger] x.names@[k])@ == x.nodes@[k].name@
}

pub open spec fn index_view(x: XmlIndex) -> Seq<XmlNodeView> {
    nodes_view(x.nodes@)
}

pub fn make_index(nodes: Vec<XmlNode>) -> (r: XmlIndex)
    ensures
        index_ok(r),
        index_view(r) == nodes_view(nodes@),
{
    let mut names: Vec<Vec<char>> = Vec::new();
    for i in 0..nodes.len()
        invariant
            names@.len() == i,
            forall|k: int| 0 <= k < i ==> (#[trigger] names@[k])@ == nodes@[k].name@,
    {
        names.push(chars_of(nodes[i].name.as_str()));
    }
    XmlIndex { nodes, names }
}

pub fn subtree_end_exec(x: &XmlIndex, i: usize) -> (r: usize)
    requires
        index_ok(*x),
        i < x.nodes@.len(),
    ensures
        r as int == subtree_end(index_view(*x), i as int),
{
    let ghost ns = index_view(*x);
    assert(ns[i as int] == node_view(x.nodes@[i as int]));
    let n = x.nodes.len();
    let s = x.nodes[i].size;
    if s <= n - i {
        i + s
    } else {
        n
    }
}

/// The first element named `tag` among the nodes at `j .. end`.
pub fn find_from_exec(x: &XmlIndex, j: usize, end: usize, tag: &Vec<char>) -> (r: Option<usize>)
    requires
        index_ok(*x),
    ensures
        match r {
            Some(k) => find_from(index_view(*x), j as int, end as int, tag@) == Some(k as int),
            None => find_from(index_view(*x), j as int, end as int, tag@) is None,
        },
    decreases end - j,
{
    let ghost ns = index_view(*x);
    if j >= end || j >= x.nodes.len() {
        return None;
    }
    assert(ns[j as int] == node_view(x.nodes@[j as int]));
    if x.nodes[j].element && same_name_exec(&x.names[j], tag) {
        Some(j)
    } else {
        find_from_exec(x, j + 1, end, tag)
    }
}

pub fn first_descendant_exec(x: &XmlIndex, i: usize, tag: &str) -> (r: Option<usize>)
    requires
        index_ok(*x),
        i < x.nodes@.len(),
    ensures
        match r {
            Some(k) => first_descendant(index_view(*x), i as int, tag@) == Some(k as int),
            None => first_descendant(index_view(*x), i as int, tag@) is None,
        },
{
    let end = subtree_end_exec(x, i);
    let t = chars_of(tag);
    find_from_exec(x, i, end, &t)
}

pub open spec fn opt_index(o: Option<usize>) -> Option<int> {
    match o {
        Some(k) => Some(k as int),
        None => None,
    }
}

pub open spec fn valid_node(x: XmlIndex, o: Option<usize>) -> bool {
    o matches Some(k) ==> k < x.nodes@.len()
}

pub fn descendant_of_exec(x: &XmlIndex, node: Option<usize>, tag: &str) -> (r: Option<usize>)
    requires
        index_ok(*x),
        valid_node(*x, node),
    ensures
        opt_index(r) == descendant_of(index_view(*x), opt_index(node), tag@),
        valid_node(*x, r),
{
    match node {
        Some(i) => {
            let r = first_descendant_exec(x, i, tag);
            proof {
                lemma_find_from_bounds(index_view(*x), i as int, subtree_end(index_view(*x), i as int), tag@);
            }
            r
        },
        None => None,
    }
}

/// The trimmed text of the first element named `tag` under `node`.
pub fn text_in_exec(x: &XmlIndex, node: Option<usize>, tag: &str) -> (r: String)
    requires
        index_ok(*x),
        valid_node(*x, node),
    ensures
        r@ == text_in(index_view(*x), opt_index(node), tag@),
{
    let found = descendant_of_exec(x, node, tag);
    match found {
        Some(j) => {
            assert(index_view(*x)[j as int] == node_view(x.nodes@[j as int]));
            match &x.nodes[j].text {
                Some(t) => {
                    let v = chars_of(t.as_str());
                    string_of(&trim_chars(&v))
                },
                None => String::new(),
            }
        },
        None => String::new(),
    }
}

pub fn text_in2_exec(x: &XmlIndex, node: Option<usize>, a: &str, b: &str) -> (r: String)
    requires
        index_ok(*x),
        valid_node(*x, node),
    ensures
        r@ == text_in2(index_view(*x), opt_index(node), a@, b@),
{
    let first = text_in_exec(x, node, a);
    if !first.as_str().is_empty() {
        first
    } else {
        text_in_exec(x, node, b)
    }
}

} // verus!
