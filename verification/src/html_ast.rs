//! The part of an HTML document tree that resource injection reads and
//! rewrites, together with its mathematical view.
use vstd::prelude::*;

verus! {

/// `name="value"`, or a bare `name` when `value` is `None`.
pub struct Attribute {
    pub name: String,
    pub value: Option<String>,
}

/// A node below an element or the document.
pub enum Child {
    Element(Element),
    Text(String),
    Comment(String),
    DocumentType(String),
}

/// `<tag_name attributes..>children..</tag_name>`; `content` holds the
/// nodes of a `<template>`'s content fragment.
pub struct Element {
    pub tag_name: String,
    pub attributes: Vec<Attribute>,
    pub children: Vec<Child>,
    pub content: Option<Vec<Child>>,
}

/// A whole document: its top-level nodes in order.
pub struct Document {
    pub children: Vec<Child>,
}

pub struct AttributeV {
    pub name: Seq<char>,
    pub value: Option<Seq<char>>,
}

pub enum ChildV {
    Element(ElementV),
    Text(Seq<char>),
    Comment(Seq<char>),
    DocumentType(Seq<char>),
}

pub struct ElementV {
    pub tag_name: Seq<char>,
    pub attributes: Seq<AttributeV>,
    pub children: Seq<ChildV>,
    pub content: Option<Seq<ChildV>>,
}

pub open spec fn opt_text_view(v: Option<String>) -> Option<Seq<char>> {
    match v {
        Some(s) => Some(s@),
        None => None,
    }
}

pub open spec fn attribute_view(a: Attribute) -> AttributeV {
    AttributeV { name: a.name@, value: opt_text_view(a.value) }
}

pub open spec fn attributes_view(v: Vec<Attribute>) -> Seq<AttributeV> {
    v@.map_values(|a: Attribute| attribute_view(a))
}

pub open spec fn element_view(e: Element) -> ElementV
    decreases e,
{
    ElementV {
        tag_name: e.tag_name@,
        attributes: attributes_view(e.attributes),
        children: children_view(e.children),
        content: content_view(e.content),
    }
}

pub open spec fn content_view(c: Option<Vec<Child>>) -> Option<Seq<ChildV>>
    decreases c,
{
    match c {
        Some(v) => Some(children_view(v)),
        None => None,
    }
}

pub open spec fn child_view(c: Child) -> ChildV
    decreases c,
{
    match c {
        Child::Element(e) => ChildV::Element(element_view(e)),
        Child::Text(s) => ChildV::Text(s@),
        Child::Comment(s) => ChildV::Comment(s@),
        Child::DocumentType(s) => ChildV::DocumentType(s@),
    }
}

pub open spec fn children_view(v: Vec<Child>) -> Seq<ChildV>
    decreases v,
{
    Seq::new(
        v@.len(),
        |i: int|
            if 0 <= i < v@.len() {
                child_view(v@[i])
            } else {
                ChildV::Text(Seq::empty())
            },
    )
}

impl View for Element {
    type V = ElementV;

    open spec fn view(&self) -> ElementV {
        element_view(*self)
    }
}

impl View for Document {
    type V = Seq<ChildV>;

    open spec fn view(&self) -> Seq<ChildV> {
        children_view(self.children)
    }
}

} // verus!
