//! An order-preserving structural tree for the serialized glyph and for the
//! opaque metadata blocks. The core reads and writes this tree; turning it
//! into raw text and back is the job of the surrounding format layer, an
//! external collaborator of this core.

use vstd::prelude::*;

verus! {

/// One node of the structural tree.
#[derive(Debug)]
pub enum XmlNode {
    Element(XmlElement),
    Text(String),
    Comment(String),
    CData(String),
}

/// An element: a name, ordered attributes, and ordered children.
#[derive(Debug)]
pub struct XmlElement {
    pub name: String,
    pub attrs: Vec<(String, String)>,
    pub children: Vec<XmlNode>,
}

impl XmlElement {
    /// An element with the given name and nothing else.
    pub fn named(name: String) -> (r: XmlElement)
        ensures
            r.name == name,
            r.attrs@ == Seq::<(String, String)>::empty(),
            r.children@ == Seq::<XmlNode>::empty(),
    {
        XmlElement { name, attrs: Vec::new(), children: Vec::new() }
    }
}

/// Structural equality of nodes, by the text each part holds.
pub open spec fn node_matches(a: XmlNode, b: XmlNode) -> bool
    decreases a,
{
    match (a, b) {
        (XmlNode::Element(x), XmlNode::Element(y)) => element_matches(x, y),
        (XmlNode::Text(x), XmlNode::Text(y)) => x@ == y@,
        (XmlNode::Comment(x), XmlNode::Comment(y)) => x@ == y@,
        (XmlNode::CData(x), XmlNode::CData(y)) => x@ == y@,
        _ => false,
    }
}

/// Structural equality of elements: same name, the same attributes in the
/// same order, and matching children in the same order.
pub open spec fn element_matches(a: XmlElement, b: XmlElement) -> bool
    decreases a,
{
    &&& a.name@ == b.name@
    &&& a.attrs@.len() == b.attrs@.len()
    &&& forall|i: int|
        0 <= i < a.attrs@.len() ==> a.attrs@[i].0@ == b.attrs@[i].0@ && a.attrs@[i].1@
            == b.attrs@[i].1@
    &&& a.children@.len() == b.children@.len()
    &&& forall|i: int|
        0 <= i < a.children@.len() ==> node_matches(
            #[trigger] a.children@[i],
            b.children@[i],
        )
}

/// Structural equality is reflexive.
pub proof fn lemma_element_matches_reflexive(a: XmlElement)
    ensures
        element_matches(a, a),
    decreases a,
{
    assert forall|i: int| 0 <= i < a.children@.len() implies node_matches(
        #[trigger] a.children@[i],
        a.children@[i],
    ) by {
        lemma_node_matches_reflexive(a.children@[i]);
    }
}

/// Structural equality of nodes is reflexive.
pub proof fn lemma_node_matches_reflexive(a: XmlNode)
    ensures
        node_matches(a, a),
    decreases a,
{
    match a {
        XmlNode::Element(x) => lemma_element_matches_reflexive(x),
        _ => (),
    }
}


impl XmlNode {
    /// A structural copy of this node.
    pub fn duplicate(&self) -> (r: XmlNode)
        ensures
            node_matches(r, *self),
        decreases self,
    {
        match self {
            XmlNode::Element(e) => XmlNode::Element(e.duplicate()),
            XmlNode::Text(s) => XmlNode::Text(s.clone()),
            XmlNode::Comment(s) => XmlNode::Comment(s.clone()),
            XmlNode::CData(s) => XmlNode::CData(s.clone()),
        }
    }
}

impl XmlElement {
    /// A structural copy of this element and everything under it.
    pub fn duplicate(&self) -> (r: XmlElement)
        ensures
            element_matches(r, *self),
        decreases self,
    {
        let mut attrs: Vec<(String, String)> = Vec::new();
        let mut i: usize = 0;
        while i < self.attrs.len()
            invariant
                i <= self.attrs@.len(),
                attrs@.len() == i,
                forall|j: int|
                    0 <= j < i ==> (#[trigger] attrs@[j]).0@ == self.attrs@[j].0@ && attrs@[j].1@
                        == self.attrs@[j].1@,
            decreases self.attrs@.len() - i,
        {
            attrs.push((self.attrs[i].0.clone(), self.attrs[i].1.clone()));
            i += 1;
        }
        let mut children: Vec<XmlNode> = Vec::new();
        let mut i: usize = 0;
        while i < self.children.len()
            invariant
                i <= self.children@.len(),
                children@.len() == i,
                forall|j: int| 0 <= j < i ==> node_matches(#[trigger] children@[j], self.children@[j]),
            decreases self.children@.len() - i,
        {
            children.push(self.children[i].duplicate());
            i += 1;
        }
        XmlElement { name: self.name.clone(), attrs, children }
    }
}

} // verus!
