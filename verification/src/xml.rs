//! A plain tree of XML elements, and the depth-first walk that the
//! calendar-query client runs over server responses.
//!
//! The tree is built once, by a trusted call into the `minidom` XML
//! parser; everything that reads the tree is verified here.

use crate::util::str_eq;
use vstd::prelude::*;

verus! {

/// One element of a parsed XML document: local name, namespace, the
/// concatenated text of its direct text nodes, and its child elements
/// in document order.
pub struct XmlNode {
    pub name: String,
    pub ns: String,
    pub text: String,
    pub children: Vec<XmlNode>,
}

#[verifier::external_type_specification]
#[verifier::external_body]
pub struct ExElement(minidom::Element);

/// The tree that the XML text `s` denotes, if it is a well-formed
/// document: the name the result of `parse_xml` is stated with.
pub uninterp spec fn xml_of(s: Seq<char>) -> Option<XmlNode>;

/// Reads one `minidom::Element` into an `XmlNode`, field for field;
/// used only by `parse_xml` below.
#[verifier::external_body]
fn elem_to_node(e: &minidom::Element) -> XmlNode {
    let mut children: Vec<XmlNode> = Vec::new();
    for c in e.children() {
        children.push(elem_to_node(c));
    }
    XmlNode { name: e.name().to_string(), ns: e.ns(), text: e.text(), children }
}

/// Relies on `minidom::Element`'s `FromStr`: parses an XML document, or
/// reports that none decodes. The tree is a function of the text alone,
/// named `xml_of`.
#[verifier::external_body]
pub(crate) fn parse_xml(text: &str) -> (r: Option<XmlNode>)
    ensures
        r == xml_of(text@),
{
    match text.parse::<minidom::Element>() {
        Ok(e) => Some(elem_to_node(&e)),
        Err(_) => None,
    }
}

/// Every element of the forest `s` (depth-first, document order) whose
/// local name is `name`, at any depth — a match nested inside another
/// match is found too; the list a `find_elems` call returns.
pub open spec fn find_in_forest(s: Seq<XmlNode>, name: Seq<char>) -> Seq<XmlNode>
    decreases s,
{
    if s.len() == 0 {
        Seq::empty()
    } else {
        let last = s.last();
        let tail = if last.name@ == name {
            seq![last] + find_in_forest(last.children@, name)
        } else {
            find_in_forest(last.children@, name)
        };
        find_in_forest(s.drop_last(), name) + tail
    }
}

/// Walks an XML tree and returns every element that has the given name:
/// depth-first, document order, any depth; the root itself is never
/// returned, and the walk descends below matching elements as well, so
/// a match nested inside another match is returned after it.
pub fn find_elems<'a>(root: &'a XmlNode, searched_name: &str) -> (r: Vec<&'a XmlNode>)
    ensures
        r@.len() == find_in_forest(root.children@, searched_name@).len(),
        forall|j: int|
            0 <= j < r@.len() ==> *r@[j] == find_in_forest(root.children@, searched_name@)[j],
    decreases *root,
{
    let mut elems: Vec<&XmlNode> = Vec::new();
    let n = root.children.len();
    let ghost all = root.children@;
    let ghost target = searched_name@;
    let mut i: usize = 0;
    while i < n
        invariant
            i <= n,
            n == all.len(),
            all == root.children@,
            target == searched_name@,
            elems@.len() == find_in_forest(all.take(i as int), target).len(),
            forall|j: int|
                0 <= j < elems@.len() ==> *elems@[j] == find_in_forest(all.take(i as int), target)[j],
        decreases n - i,
    {
        let el = &root.children[i];
        proof {
            assert(decreases_to!(*root => root.children));
            assert(decreases_to!(root.children => root.children@));
            assert(decreases_to!(root.children@ => root.children@[i as int]));
        }
        if str_eq(el.name.as_str(), searched_name) {
            elems.push(el);
        }
        let mut sub = find_elems(el, searched_name);
        let ghost sub_snap = sub@;
        elems.append(&mut sub);
        proof {
            assert(forall|j: int|
                0 <= j < sub_snap.len() ==> elems@[elems@.len() - sub_snap.len() + j]
                    == sub_snap[j]);
        }
        proof {
            assert(all.take(i + 1).drop_last() =~= all.take(i as int));
            assert(all.take(i + 1).last() == all[i as int]);
        }
        i = i + 1;
    }
    proof {
        assert(all.take(n as int) =~= all);
    }
    elems
}

} // verus!
