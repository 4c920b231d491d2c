//! The element tree that the cascade annotates and the layout reads.

use vstd::prelude::*;
use crate::style::{ComputedValues, NodeRef, Style};

verus! {

/// One glyph of a shaped word, with the distance to the next one.
#[derive(Clone, Copy, Debug, PartialEq, Eq)]
pub struct ShapedGlyph {
    pub index: u32,
    pub advance: u32,
}

/// A run of glyphs that is never split over two lines.
#[derive(Clone, Debug, PartialEq, Eq)]
pub struct ShapedWord {
    pub glyphs: Vec<ShapedGlyph>,
}

/// Text content: the characters, and the words they give when shaped at the
/// text size of the element that holds them.
#[derive(Clone, Debug, PartialEq, Eq)]
pub struct ShapedText {
    pub text: String,
    pub words: Vec<ShapedWord>,
    /// The height of one line of this text.
    pub line_height: u32,
}

#[derive(Debug)]
pub enum DynamicNode {
    Node(Element),
    Text(ShapedText),
}

#[derive(Debug)]
pub struct Element {
    pub id: u64,
    pub tag: u32,
    pub state: u32,
    pub style: Option<Style>,
    pub computed: Option<ComputedValues>,
    pub children: Vec<DynamicNode>,
}

impl Element {
    pub open spec fn node_ref(self, parent_tag: Option<u32>) -> NodeRef {
        NodeRef { tag: self.tag, state: self.state, parent_tag }
    }
}

} // verus!
