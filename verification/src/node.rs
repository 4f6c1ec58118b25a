//! The element tree that the parse engine builds.

use crate::error::TextPosition;
use crate::token::{Token, TokenView};
use crate::value::{Value, ValueView};
use vstd::prelude::*;

verus! {

/// One element of a document, with what it was found to hold.
#[derive(Debug)]
pub struct Node {
    /// The name of the element as it was written.
    pub name: String,
    /// Where the element begins.
    pub position: TextPosition,
    /// Which of the child rules of its parent the element matched, counted
    /// from zero; zero for the root.
    pub slot: usize,
    /// For each attribute that the element may have, in the order of the
    /// schema, its value, if it has one.
    pub attributes: Vec<Option<Value>>,
    /// The child elements in the order of the document.
    pub children: Vec<Node>,
    /// The decoded text of the element, if it has text.
    pub text: Option<Value>,
    /// The tokens between the start and the end of an element whose contents
    /// are kept as they are.
    pub raw: Vec<Token>,
}

/// What a [`Node`] holds, as mathematical values.
pub struct NodeView {
    pub name: Seq<char>,
    pub position: TextPosition,
    pub slot: int,
    pub attributes: Seq<Option<ValueView>>,
    pub children: Seq<NodeView>,
    pub text: Option<ValueView>,
    pub raw: Seq<TokenView>,
}

/// What an optional value holds.
pub open spec fn option_view(value: Option<Value>) -> Option<ValueView> {
    match value {
        Some(v) => Some(v@),
        None => None,
    }
}

/// What `node` holds.
pub open spec fn node_view(node: Node) -> NodeView
    decreases node, 1int,
{
    NodeView {
        name: node.name@,
        position: node.position,
        slot: node.slot as int,
        attributes: slot_views(node.attributes@),
        children: node_views(node.children@),
        text: option_view(node.text),
        raw: crate::token::token_views(node.raw@),
    }
}

/// What each of `nodes` holds, in order.
pub open spec fn node_views(nodes: Seq<Node>) -> Seq<NodeView>
    decreases nodes, 0int,
{
    Seq::new(
        nodes.len(),
        |i: int|
            if 0 <= i < nodes.len() {
                node_view(nodes[i])
            } else {
                arbitrary()
            },
    )
}

impl View for Node {
    type V = NodeView;

    open spec fn view(&self) -> NodeView {
        node_view(*self)
    }
}

/// What each of `values` holds, in order.
pub open spec fn slot_views(values: Seq<Option<Value>>) -> Seq<Option<ValueView>> {
    Seq::new(values.len(), |i: int| option_view(values[i]))
}


} // verus!
