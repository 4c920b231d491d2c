//! A styled element has exactly one layout in a given space.

use vstd::prelude::*;
use crate::dom::{DynamicNode, Element};
use crate::geometry::LogicalSize;
use crate::layout::block::{child_space, content_space, extent_max, extent_sum};
use crate::layout::inline::{element_count, inline_lines, lemma_element_count_grows};
use crate::layout::{
    is_block_child,
    is_block_layout,
    is_child_layout,
    is_inline_layout,
    is_layout,
    FontRef,
    LayoutChild,
    LayoutText,
    LayoutTreeNode,
    RenderData,
};
use crate::style::{BlockValues, ComputedValues, DisplayType};

verus! {

/// The box that a child edge leads to.
pub open spec fn inner(c: LayoutChild) -> LayoutTreeNode {
    *c.layout
}

/// Two texts hold the same lines: the same glyphs at the same offsets in the
/// same font, at the same text size.
pub open spec fn same_text(a: LayoutText, b: LayoutText) -> bool {
    &&& a.size == b.size
    &&& a.fragments@.len() == b.fragments@.len()
    &&& forall|i: int|
        0 <= i < a.fragments@.len() ==> (#[trigger] a.fragments@[i]).font == b.fragments@[i].font
            && a.fragments@[i].glyphs@ == b.fragments@[i].glyphs@
}

pub open spec fn same_render(a: RenderData, b: RenderData) -> bool {
    match a {
        RenderData::Node(x) => b == RenderData::Node(x),
        RenderData::Text { text, parent } => match b {
            RenderData::Text { text: other, parent: p } => p == parent && same_text(text, other),
            RenderData::Node(_) => false,
        },
    }
}

/// Two boxes are equal by value: the same size, margin and content, and
/// equal child boxes at the same positions, all the way down.
pub open spec fn same_box(a: LayoutTreeNode, b: LayoutTreeNode) -> bool
    decreases a,
{
    &&& a.size == b.size
    &&& a.margin == b.margin
    &&& same_render(a.render, b.render)
    &&& a.children@.len() == b.children@.len()
    &&& forall|i: int|
        0 <= i < a.children@.len() ==> (#[trigger] a.children@[i]).position == b.children@[i].position
            && same_box(*a.children@[i].layout, *b.children@[i].layout)
}

/// An element has one layout in a given space: two boxes that are both its
/// layout are equal by value. So laying out an unchanged tree once more in
/// the same space gives an equal tree.
pub proof fn lemma_layout_unique(e: Element, avail: LogicalSize, font: FontRef, a: LayoutTreeNode, b: LayoutTreeNode)
    requires
        is_layout(e, avail, font, a),
        is_layout(e, avail, font, b),
    ensures
        same_box(a, b),
    decreases e, 1nat, 0nat,
{
    let v = e.computed->0;
    match v.display {
        DisplayType::Block(bv) => {
            let n = e.children@.len() as int;
            lemma_block_children_unique(e, v, bv, avail, font, a, b, n);
        },
        DisplayType::Inline(_) => {
            let n = e.children@.len() as int;
            lemma_inline_children_unique(e, v, avail, font, a, b, n);
        },
    }
}

/// The box of a child is unique, whether the child is an element or text.
pub proof fn lemma_child_unique(
    c: DynamicNode,
    parent: u64,
    text_size: u32,
    avail: LogicalSize,
    font: FontRef,
    a: LayoutTreeNode,
    b: LayoutTreeNode,
)
    requires
        is_child_layout(c, parent, text_size, avail, font, a),
        is_child_layout(c, parent, text_size, avail, font, b),
    ensures
        same_box(a, b),
    decreases c, 2nat, 0nat,
{
    match c {
        DynamicNode::Node(e) => {
            lemma_layout_unique(e, avail, font, a, b);
        },
        DynamicNode::Text(_) => {},
    }
}

/// Boxes that are equal by value have the same size and margin.
pub proof fn lemma_same_box_same_extent(a: LayoutTreeNode, b: LayoutTreeNode)
    requires
        same_box(a, b),
    ensures
        a.size == b.size,
        a.margin == b.margin,
{
}

/// In two block layouts of one element the first `n` children have equal
/// boxes at equal positions, and take the same room.
pub proof fn lemma_block_children_unique(
    e: Element,
    v: ComputedValues,
    bv: BlockValues,
    avail: LogicalSize,
    font: FontRef,
    a: LayoutTreeNode,
    b: LayoutTreeNode,
    n: int,
)
    requires
        is_block_layout(e, v, bv, avail, font, a),
        is_block_layout(e, v, bv, avail, font, b),
        0 <= n <= e.children@.len(),
    ensures
        forall|i: int|
            0 <= i < n ==> (#[trigger] a.children@[i]).position == b.children@[i].position && same_box(
                *a.children@[i].layout,
                *b.children@[i].layout,
            ),
        extent_sum(bv.direction, a.children@, n) == extent_sum(bv.direction, b.children@, n),
        extent_max(bv.direction, a.children@, n) == extent_max(bv.direction, b.children@, n),
    decreases e, 0nat, n,
{
    if n > 0 {
        lemma_block_children_unique(e, v, bv, avail, font, a, b, n - 1);
        let used = extent_sum(bv.direction, a.children@, n - 1);
        let space = child_space(bv.direction, content_space(bv, avail), used);
        let x = a.children@[n - 1];
        let y = b.children@[n - 1];
        assert(is_block_child(e.children@[n - 1], e.id, v.text_size, bv, content_space(bv, avail), used, font, x));
        assert(is_block_child(e.children@[n - 1], e.id, v.text_size, bv, content_space(bv, avail), used, font, y));
        lemma_child_unique(e.children@[n - 1], e.id, v.text_size, space, font, inner(x), inner(y));
        lemma_same_box_same_extent(inner(x), inner(y));
        assert(x.position == y.position);
    }
}

/// In two inline layouts of one element the child elements among the first
/// `n` children have equal boxes, and the lines after them are the same.
pub proof fn lemma_inline_children_unique(
    e: Element,
    v: ComputedValues,
    avail: LogicalSize,
    font: FontRef,
    a: LayoutTreeNode,
    b: LayoutTreeNode,
    n: int,
)
    requires
        is_inline_layout(e, v, avail, font, a),
        is_inline_layout(e, v, avail, font, b),
        0 <= n <= e.children@.len(),
    ensures
        inline_lines(e.children@, a.children@, avail.width, n) == inline_lines(
            e.children@,
            b.children@,
            avail.width,
            n,
        ),
        0 <= element_count(e.children@, n) <= a.children@.len(),
        forall|k: int|
            0 <= k < element_count(e.children@, n) ==> same_box(
                *(#[trigger] a.children@[k]).layout,
                *b.children@[k].layout,
            ),
    decreases e, 0nat, n,
{
    lemma_element_count_grows(e.children@, n, e.children@.len() as int);
    if n > 0 {
        lemma_inline_children_unique(e, v, avail, font, a, b, n - 1);
        match e.children@[n - 1] {
            DynamicNode::Node(c) => {
                let k = element_count(e.children@, n - 1);
                let x = a.children@[k];
                let y = b.children@[k];
                lemma_layout_unique(c, avail, font, inner(x), inner(y));
            },
            DynamicNode::Text(_) => {},
        }
    }
}

} // verus!
