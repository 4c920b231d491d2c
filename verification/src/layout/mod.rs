//! The layout tree and the engine that builds it from a styled element tree.

use vstd::prelude::*;
use std::rc::Rc;
use crate::dom::{DynamicNode, Element, ShapedText};
use crate::geometry::{add_len, sat_add, LogicalPoint, LogicalSideOffsets, LogicalSize};
use crate::layout::block::{
    block_size,
    child_position,
    child_space,
    content_space,
    extent_sum,
    layout_block,
};
use crate::layout::inline::{
    boxes_at,
    element_count,
    finish_lines,
    fragments_are,
    inline_lines,
    layout_inline,
    layout_text,
    no_lines,
    push_words,
};
use crate::style::{BlockValues, ComputedValues, DisplayType};

pub mod block;
pub mod inline;
pub mod unique;

verus! {

/// A handle to one font of the font collection.
#[derive(Clone, Copy, Debug, PartialEq, Eq)]
pub struct FontRef(pub u32);

/// Each edge of the layout tree contains information on the positions
/// of the child elements, since elements are positioned relative to
/// their parents, and the position is assigned by the parent.
#[derive(Clone, Debug, PartialEq, Eq)]
pub struct LayoutChild {
    pub position: LogicalPoint,
    pub layout: Rc<LayoutTreeNode>,
}

/// One glyph of a line. The offset is relative to the origin of the box
/// that holds the text: `x` runs along the line and `y` is the top of the line.
#[derive(Clone, Copy, Debug, PartialEq, Eq)]
pub struct Glyph {
    pub index: u32,
    pub offset: LogicalPoint,
}

/// One line of text.
#[derive(Clone, Debug, PartialEq, Eq)]
pub struct TextFragment {
    pub font: FontRef,
    pub glyphs: Vec<Glyph>,
}

/// Information passed to the renderer for rendering text.
#[derive(Clone, Debug, PartialEq, Eq)]
pub struct LayoutText {
    pub fragments: Vec<TextFragment>,
    /// The text size of the text.
    pub size: u32,
}

/// What a box shows: the text of an element, by the element's id, or the
/// element itself.
#[derive(Clone, Debug, PartialEq, Eq)]
pub enum RenderData {
    Text { text: LayoutText, parent: u64 },
    Node(u64),
}

/// One node in the layout tree.
#[derive(Clone, Debug, PartialEq, Eq)]
pub struct LayoutTreeNode {
    /// The computed size of the node.
    pub size: LogicalSize,
    pub margin: LogicalSideOffsets,
    pub render: RenderData,
    pub children: Vec<LayoutChild>,
}

impl LayoutTreeNode {
    /// The width of the box with its left and right margin.
    pub open spec fn spec_outer_width(self) -> u32 {
        sat_add(sat_add(self.margin.left, self.size.width), self.margin.right)
    }

    /// The height of the box with its top and bottom margin.
    pub open spec fn spec_outer_height(self) -> u32 {
        sat_add(sat_add(self.margin.top, self.size.height), self.margin.bottom)
    }

    pub fn outer_width(&self) -> (r: u32)
        ensures
            r == self.spec_outer_width(),
    {
        add_len(add_len(self.margin.left, self.size.width), self.margin.right)
    }

    pub fn outer_height(&self) -> (r: u32)
        ensures
            r == self.spec_outer_height(),
    {
        add_len(add_len(self.margin.top, self.size.height), self.margin.bottom)
    }
}

/// Every element of the subtree carries resolved values.
pub open spec fn styled(e: Element) -> bool
    decreases e,
{
    &&& e.computed is Some
    &&& forall|i: int|
        0 <= i < e.children@.len() ==> match #[trigger] e.children@[i] {
            DynamicNode::Node(c) => styled(c),
            DynamicNode::Text(_) => true,
        }
}

/// `b` is the box of element `e` in the space `avail`: the block layout or
/// the inline layout, as the element's own resolved display says.
pub open spec fn is_layout(e: Element, avail: LogicalSize, font: FontRef, b: LayoutTreeNode) -> bool
    decreases e, 1nat,
{
    match e.computed {
        Some(v) => match v.display {
            DisplayType::Block(bv) => is_block_layout(e, v, bv, avail, font, b),
            DisplayType::Inline(_) => is_inline_layout(e, v, avail, font, b),
        },
        None => false,
    }
}

/// `b` is the box of a child of the element `parent`.
pub open spec fn is_child_layout(
    c: DynamicNode,
    parent: u64,
    text_size: u32,
    avail: LogicalSize,
    font: FontRef,
    b: LayoutTreeNode,
) -> bool
    decreases c, 2nat,
{
    match c {
        DynamicNode::Node(e) => is_layout(e, avail, font, b),
        DynamicNode::Text(t) => is_text_layout(t, parent, text_size, avail, font, b),
    }
}

/// `b` is the block layout of `e`: one box for each child, in order, each
/// laid out in the space that the earlier ones left and standing where they
/// end; the margin of the block values; the size that the block values and
/// the children's boxes give.
pub open spec fn is_block_layout(
    e: Element,
    v: ComputedValues,
    bv: BlockValues,
    avail: LogicalSize,
    font: FontRef,
    b: LayoutTreeNode,
) -> bool
    decreases e, 0nat,
{
    &&& b.margin == bv.margin
    &&& b.render == RenderData::Node(e.id)
    &&& b.size == block_size(bv, b.children@)
    &&& b.children@.len() == e.children@.len()
    &&& forall|i: int|
        0 <= i < e.children@.len() ==> is_block_child(
            #[trigger] e.children@[i],
            e.id,
            v.text_size,
            bv,
            content_space(bv, avail),
            extent_sum(bv.direction, b.children@, i),
            font,
            b.children@[i],
        )
}

/// `child` is the box of the child `c` of a block and stands where it
/// should when `used` is taken before it along the direction: the box is the
/// child's layout in the space that is left, and its position is past the
/// padding, past `used`, and past its own leading margins.
pub open spec fn is_block_child(
    c: DynamicNode,
    parent: u64,
    text_size: u32,
    bv: BlockValues,
    inner: LogicalSize,
    used: u32,
    font: FontRef,
    child: LayoutChild,
) -> bool
    decreases c, 3nat,
{
    &&& child.position == child_position(bv, used, child.layout.margin)
    &&& is_child_layout(c, parent, text_size, child_space(bv.direction, inner, used), font, *child.layout)
}

/// `b` shows the given lines as the text of element `parent`.
pub open spec fn shows_lines(b: LayoutTreeNode, lines: Seq<Seq<Glyph>>, parent: u64, text_size: u32, font: FontRef) -> bool {
    match b.render {
        RenderData::Text { text, parent: p } => {
            &&& p == parent
            &&& text.size == text_size
            &&& fragments_are(text.fragments@, lines, font)
        },
        RenderData::Node(_) => false,
    }
}

/// `b` is the box of a text: its words packed into lines no wider than the
/// space, one fragment for each line, the lines stacked from the top.
pub open spec fn is_text_layout(
    t: ShapedText,
    parent: u64,
    text_size: u32,
    avail: LogicalSize,
    font: FontRef,
    b: LayoutTreeNode,
) -> bool {
    let s = finish_lines(push_words(no_lines(), t.words@, t.line_height, avail.width, t.words@.len() as int));
    &&& b.size == (LogicalSize { width: s.width, height: s.y })
    &&& b.margin == LogicalSideOffsets::all_same(0)
    &&& b.children@.len() == 0
    &&& shows_lines(b, s.done, parent, text_size, font)
}

/// `b` is the inline layout of `e`: the words of its texts and the boxes of
/// its child elements packed into lines in the order of the children, each
/// child element laid out in the whole space and held as one unit.
pub open spec fn is_inline_layout(
    e: Element,
    v: ComputedValues,
    avail: LogicalSize,
    font: FontRef,
    b: LayoutTreeNode,
) -> bool
    decreases e, 0nat,
{
    let s = finish_lines(inline_lines(e.children@, b.children@, avail.width, e.children@.len() as int));
    &&& b.size == (LogicalSize { width: s.width, height: s.y })
    &&& b.margin == LogicalSideOffsets::all_same(0)
    &&& shows_lines(b, s.done, e.id, v.text_size, font)
    &&& boxes_at(b.children@, s.spots)
    &&& b.children@.len() == element_count(e.children@, e.children@.len() as int)
    &&& forall|i: int|
        0 <= i < e.children@.len() ==> match #[trigger] e.children@[i] {
            DynamicNode::Node(c) => is_layout(c, avail, font, *b.children@[element_count(e.children@, i)].layout),
            DynamicNode::Text(_) => true,
        }
}

/// Lays out one child of an element: an element by its own display, text as
/// lines.
pub fn layout_child(child: &DynamicNode, parent: u64, text_size: u32, size: LogicalSize, font: FontRef) -> (b:
    LayoutTreeNode)
    requires
        match *child {
            DynamicNode::Node(e) => styled(e),
            DynamicNode::Text(_) => true,
        },
    ensures
        is_child_layout(*child, parent, text_size, size, font, b),
    decreases *child, 2nat,
{
    match child {
        DynamicNode::Node(e) => LayoutEngine::run_layout(e, size, font),
        DynamicNode::Text(t) => layout_text(t, parent, text_size, size, font),
    }
}

/// The handle of the font that every text is set in.
pub open spec fn default_font() -> FontRef {
    FontRef(0)
}

/// Used to build the layout tree. Holds the handle of the default font once
/// the first layout has asked for it.
pub struct LayoutEngine {
    pub font: Option<FontRef>,
}

impl LayoutEngine {
    pub fn new() -> (r: LayoutEngine)
        ensures
            r.font is None,
    {
        LayoutEngine { font: None }
    }

    /// Lays out one element by its resolved display.
    pub fn run_layout(node: &Element, size: LogicalSize, font: FontRef) -> (b: LayoutTreeNode)
        requires
            styled(*node),
        ensures
            is_layout(*node, size, font, b),
        decreases *node, 1nat,
    {
        match &node.computed {
            Some(values) => match &values.display {
                DisplayType::Block(block) => layout_block(node, values, block, size, font),
                DisplayType::Inline(_) => layout_inline(node, values, size, font),
            },
            None => vstd::pervasive::unreached(),
        }
    }

    /// Perform a layout step based on the element tree and content size, and
    /// return a fresh layout tree. The first call takes the default font;
    /// every later call keeps the handle that the engine has.
    pub fn layout(&mut self, node: &Element, size: LogicalSize) -> (r: Rc<LayoutTreeNode>)
        requires
            styled(*node),
        ensures
            final(self).font == Some(
                match old(self).font {
                    Some(f) => f,
                    None => default_font(),
                },
            ),
            is_layout(*node, size, final(self).font->0, *r),
    {
        let font = match self.font {
            Some(f) => f,
            None => FontRef(0),
        };
        self.font = Some(font);
        Rc::new(Self::run_layout(node, size, font))
    }
}

} // verus!
