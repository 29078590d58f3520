//! Values held by the nodes of a source tree.

use vstd::prelude::*;

verus! {

/// One attribute of an element: a name and the text of its value.
#[derive(Debug, PartialEq)]
pub struct Attribute {
    pub name: String,
    pub value: String,
}

pub ghost struct AttributeView {
    pub name: Seq<char>,
    pub value: Seq<char>,
}

impl View for Attribute {
    type V = AttributeView;

    open spec fn view(&self) -> AttributeView {
        AttributeView { name: self.name@, value: self.value@ }
    }
}

/// An element: its qualified name and its attributes in source order.
#[derive(Debug, PartialEq)]
pub struct Element {
    pub name: String,
    pub attrs: Vec<Attribute>,
}

pub ghost struct ElementView {
    pub name: Seq<char>,
    pub attrs: Seq<AttributeView>,
}

impl View for Element {
    type V = ElementView;

    open spec fn view(&self) -> ElementView {
        ElementView { name: self.name@, attrs: self.attrs@.map_values(|a: Attribute| a@) }
    }
}

/// A fragment: a wrapper without a tag of its own, optionally named.
#[derive(Debug, PartialEq)]
pub struct Fragment {
    pub name: Option<String>,
}

pub ghost struct FragmentView {
    pub name: Option<Seq<char>>,
}

impl View for Fragment {
    type V = FragmentView;

    open spec fn view(&self) -> FragmentView {
        FragmentView {
            name: match self.name {
                Some(n) => Some(n@),
                None => None,
            },
        }
    }
}

/// The value of one tree node.
#[derive(Debug, PartialEq)]
pub enum Node {
    Element(Element),
    Fragment(Fragment),
}

pub ghost enum NodeView {
    Element(ElementView),
    Fragment(FragmentView),
}

impl View for Node {
    type V = NodeView;

    open spec fn view(&self) -> NodeView {
        match self {
            Node::Element(e) => NodeView::Element(e@),
            Node::Fragment(f) => NodeView::Fragment(f@),
        }
    }
}

impl Attribute {
    pub fn new(name: String, value: String) -> (a: Attribute)
        ensures
            a@ == (AttributeView { name: name@, value: value@ }),
    {
        Attribute { name, value }
    }

    /// A copy with the same name and value.
    pub fn duplicate(&self) -> (a: Attribute)
        ensures
            a@ == self@,
    {
        Attribute { name: self.name.clone(), value: self.value.clone() }
    }
}

impl Element {
    pub fn new(name: String, attrs: Vec<Attribute>) -> (e: Element)
        ensures
            e.name == name,
            e.attrs == attrs,
    {
        Element { name, attrs }
    }

    /// A copy with the same name and the same attributes in the same order.
    pub fn duplicate(&self) -> (e: Element)
        ensures
            e@ == self@,
    {
        let mut attrs: Vec<Attribute> = Vec::new();
        let mut i: usize = 0;
        while i < self.attrs.len()
            invariant
                i <= self.attrs.len(),
                attrs@.len() == i,
                forall|k: int| 0 <= k < i ==> attrs@[k]@ == self.attrs@[k]@,
            decreases self.attrs.len() - i,
        {
            attrs.push(self.attrs[i].duplicate());
            i += 1;
        }
        let e = Element { name: self.name.clone(), attrs };
        assert(e@.attrs =~= self@.attrs);
        e
    }
}

impl Fragment {
    pub fn new(name: Option<String>) -> (f: Fragment)
        ensures
            f.name == name,
    {
        Fragment { name }
    }

    /// A copy with the same name.
    pub fn duplicate(&self) -> (f: Fragment)
        ensures
            f@ == self@,
    {
        match &self.name {
            Some(n) => Fragment { name: Some(n.clone()) },
            None => Fragment { name: None },
        }
    }
}

impl Node {
    /// A copy that holds the same value.
    pub fn duplicate(&self) -> (n: Node)
        ensures
            n@ == self@,
    {
        match self {
            Node::Element(e) => Node::Element(e.duplicate()),
            Node::Fragment(f) => Node::Fragment(f.duplicate()),
        }
    }
}

} // verus!
