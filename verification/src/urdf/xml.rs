use vstd::prelude::*;

use crate::text::{chars_of, equals};

verus! {

/// An attribute of an XML element: whether its name has a namespace, its
/// local name and its value.
#[derive(Debug, Clone)]
pub struct XmlAttribute {
    pub namespaced: bool,
    pub name: Vec<char>,
    pub value: Vec<char>,
}

/// A node of a parsed XML document, in document order: the position of its
/// parent node, whether it is an element, its local tag name (empty for
/// other nodes) and its attributes in order.
#[derive(Debug, Clone)]
pub struct XmlNode {
    pub parent: Option<usize>,
    pub is_element: bool,
    pub tag: Vec<char>,
    pub attributes: Vec<XmlAttribute>,
}

pub struct XmlAttributeView {
    pub namespaced: bool,
    pub name: Seq<char>,
    pub value: Seq<char>,
}

pub struct XmlNodeView {
    pub parent: Option<usize>,
    pub is_element: bool,
    pub tag: Seq<char>,
    pub attributes: Seq<XmlAttributeView>,
}

impl View for XmlAttribute {
    type V = XmlAttributeView;

    open spec fn view(&self) -> XmlAttributeView {
        XmlAttributeView { namespaced: self.namespaced, name: self.name@, value: self.value@ }
    }
}

impl View for XmlNode {
    type V = XmlNodeView;

    open spec fn view(&self) -> XmlNodeView {
        XmlNodeView {
            parent: self.parent,
            is_element: self.is_element,
            tag: self.tag@,
            attributes: self.attributes@.map_values(|a: XmlAttribute| a@),
        }
    }
}

pub open spec fn nodes_view(nodes: Seq<XmlNode>) -> Seq<XmlNodeView> {
    nodes.map_values(|n: XmlNode| n@)
}

/// The nodes, in document order, that `roxmltree` parses `text` into, or the
/// text of its parse error.
pub uninterp spec fn xml_document(text: Seq<char>) -> Result<Seq<XmlNodeView>, Seq<char>>;

/// A parse result as values.
pub open spec fn parse_result_view(r: Result<Vec<XmlNode>, String>) -> Result<Seq<XmlNodeView>, Seq<char>> {
    match r {
        Ok(nodes) => Ok(nodes_view(nodes@)),
        Err(e) => Err(e@),
    }
}

/// The shape every parsed document has: node 0 is the document root and has
/// no parent, every other node's parent comes before it, and the root has an
/// element child (the root element).
pub open spec fn xml_tree_well_formed(doc: Seq<XmlNodeView>) -> bool {
    &&& doc.len() > 0
    &&& doc[0].parent is None
    &&& forall|i: int|
        0 < i < doc.len() ==> (#[trigger] doc[i].parent matches Some(p) && p < i)
    &&& exists|i: int| 0 < i < doc.len() && #[trigger] doc[i].parent == Some(0usize) && doc[i].is_element
}

/// Parses `text` with `roxmltree::Document::parse` and lists its nodes in
/// document order (`Document::descendants`), each with its parent's position
/// (`NodeId::get_usize`, which is its index in that order), whether it is an
/// element, its local tag name and its attributes. The nodes are named by
/// `xml_document`. The shape is what `roxmltree` builds: the document root
/// first, each new node appended under an existing one, and a document
/// without a root element rejected.
#[verifier::external_body]
pub(crate) fn parse_xml(text: &str) -> (r: Result<Vec<XmlNode>, String>)
    ensures
        parse_result_view(r) == xml_document(text@),
        r is Ok ==> xml_tree_well_formed(nodes_view(r->Ok_0@)),
{
    match roxmltree::Document::parse(text) {
        Ok(doc) => Ok(doc.descendants().map(|n| XmlNode {
            parent: n.parent().map(|p| p.id().get_usize()),
            is_element: n.is_element(),
            tag: n.tag_name().name().chars().collect(),
            attributes: n.attributes().map(|a| XmlAttribute {
                namespaced: a.namespace().is_some(),
                name: a.name().chars().collect(),
                value: a.value().chars().collect(),
            }).collect(),
        }).collect()),
        Err(e) => Err(e.to_string()),
    }
}

// ---------------------------------------------------------------------------
// Queries
// ---------------------------------------------------------------------------

/// The first node at position `from` or later that is a child of `p` and has
/// tag name `name` (`children().find(|n| n.tag_name().name() == name)`).
pub open spec fn child_named_from(doc: Seq<XmlNodeView>, p: usize, name: Seq<char>, from: int) -> Option<usize>
    decreases doc.len() - from,
{
    if from < 0 || from >= doc.len() {
        None
    } else if doc[from].parent == Some(p) && doc[from].tag == name {
        Some(from as usize)
    } else {
        child_named_from(doc, p, name, from + 1)
    }
}

pub open spec fn child_named(doc: Seq<XmlNodeView>, p: usize, name: Seq<char>) -> Option<usize> {
    child_named_from(doc, p, name, 0)
}

/// The first element child of `p` at position `from` or later.
pub open spec fn element_child_from(doc: Seq<XmlNodeView>, p: usize, from: int) -> Option<usize>
    decreases doc.len() - from,
{
    if from < 0 || from >= doc.len() {
        None
    } else if doc[from].parent == Some(p) && doc[from].is_element {
        Some(from as usize)
    } else {
        element_child_from(doc, p, from + 1)
    }
}

/// Position of the first attribute at `from` or later without namespace and
/// with local name `name`.
pub open spec fn attribute_pos_from(attrs: Seq<XmlAttributeView>, name: Seq<char>, from: int) -> Option<int>
    decreases attrs.len() - from,
{
    if from < 0 || from >= attrs.len() {
        None
    } else if !attrs[from].namespaced && attrs[from].name == name {
        Some(from)
    } else {
        attribute_pos_from(attrs, name, from + 1)
    }
}

/// The value of the attribute `name` (without namespace) of node `n`
/// (`Node::attribute(name)`).
pub open spec fn attribute(doc: Seq<XmlNodeView>, n: usize, name: Seq<char>) -> Option<Seq<char>> {
    match attribute_pos_from(doc[n as int].attributes, name, 0) {
        Some(i) => Some(doc[n as int].attributes[i].value),
        None => None,
    }
}

pub fn child_named_at(nodes: &Vec<XmlNode>, p: usize, name: &str) -> (r: Option<usize>)
    ensures
        r == child_named(nodes_view(nodes@), p, name@),
        r matches Some(c) ==> c < nodes@.len(),
{
    let ghost doc = nodes_view(nodes@);
    let mut i: usize = 0;
    while i < nodes.len()
        invariant
            doc == nodes_view(nodes@),
            i <= nodes@.len(),
            child_named(doc, p, name@) == child_named_from(doc, p, name@, i as int),
        decreases nodes@.len() - i,
    {
        if nodes[i].parent == Some(p) && equals(nodes[i].tag.as_slice(), name) {
            return Some(i);
        }
        i = i + 1;
    }
    None
}

pub fn element_child_at(nodes: &Vec<XmlNode>, p: usize) -> (r: Option<usize>)
    ensures
        r == element_child_from(nodes_view(nodes@), p, 0),
        r matches Some(c) ==> c < nodes@.len(),
{
    let ghost doc = nodes_view(nodes@);
    let mut i: usize = 0;
    while i < nodes.len()
        invariant
            doc == nodes_view(nodes@),
            i <= nodes@.len(),
            element_child_from(doc, p, 0) == element_child_from(doc, p, i as int),
        decreases nodes@.len() - i,
    {
        if nodes[i].parent == Some(p) && nodes[i].is_element {
            return Some(i);
        }
        i = i + 1;
    }
    None
}

/// The value of attribute `name` of node `n`, as characters.
pub fn attribute_at(nodes: &Vec<XmlNode>, n: usize, name: &str) -> (r: Option<Vec<char>>)
    requires
        n < nodes@.len(),
    ensures
        match r {
            Some(v) => attribute(nodes_view(nodes@), n, name@) == Some(v@),
            None => attribute(nodes_view(nodes@), n, name@) is None,
        },
{
    let ghost attrs = nodes_view(nodes@)[n as int].attributes;
    let node = &nodes[n];
    assert(attrs == node.attributes@.map_values(|a: XmlAttribute| a@));
    let mut i: usize = 0;
    while i < node.attributes.len()
        invariant
            attrs == node.attributes@.map_values(|a: XmlAttribute| a@),
            attrs == nodes_view(nodes@)[n as int].attributes,
            i <= node.attributes@.len(),
            attribute_pos_from(attrs, name@, 0) == attribute_pos_from(attrs, name@, i as int),
        decreases node.attributes@.len() - i,
    {
        let a = &node.attributes[i];
        assert(attrs[i as int] == a@);
        if !a.namespaced && equals(a.name.as_slice(), name) {
            return Some(vstd::slice::slice_to_vec(a.value.as_slice()));
        }
        i = i + 1;
    }
    None
}

} // verus!
