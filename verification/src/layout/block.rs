//! Block layout: children stacked along one axis inside padding.

use vstd::prelude::*;
use std::rc::Rc;
use crate::dom::Element;
use crate::geometry::{
    add_len,
    max_len,
    max_of,
    sat_add,
    sat_sub,
    sub_len,
    LogicalPoint,
    LogicalSideOffsets,
    LogicalSize,
};
use crate::layout::{is_block_child, is_block_layout, layout_child, styled, FontRef, LayoutChild, LayoutTreeNode, RenderData};
use crate::style::{BlockValues, ComputedValues, Direction};

verus! {

/// The space inside the padding: the explicit size where there is one, else
/// what the parent offers, less the padding.
pub open spec fn content_space(bv: BlockValues, avail: LogicalSize) -> LogicalSize {
    LogicalSize {
        width: sat_sub(
            match bv.width {
                Some(w) => w,
                None => avail.width,
            },
            bv.padding.spec_horizontal(),
        ),
        height: sat_sub(
            match bv.height {
                Some(h) => h,
                None => avail.height,
            },
            bv.padding.spec_vertical(),
        ),
    }
}

/// What a box takes along the direction, margins included.
pub open spec fn main_extent(direction: Direction, b: LayoutTreeNode) -> u32 {
    match direction {
        Direction::Vertical => b.spec_outer_height(),
        Direction::Horizontal => b.spec_outer_width(),
    }
}

/// What a box takes across the direction, margins included.
pub open spec fn cross_extent(direction: Direction, b: LayoutTreeNode) -> u32 {
    match direction {
        Direction::Vertical => b.spec_outer_width(),
        Direction::Horizontal => b.spec_outer_height(),
    }
}

/// What the first `n` boxes take together along the direction.
pub open spec fn extent_sum(direction: Direction, boxes: Seq<LayoutChild>, n: int) -> u32
    decreases n,
{
    if n <= 0 {
        0
    } else {
        sat_add(extent_sum(direction, boxes, n - 1), main_extent(direction, *boxes[n - 1].layout))
    }
}

/// The largest that one of the first `n` boxes takes across the direction.
pub open spec fn extent_max(direction: Direction, boxes: Seq<LayoutChild>, n: int) -> u32
    decreases n,
{
    if n <= 0 {
        0
    } else {
        max_of(extent_max(direction, boxes, n - 1), cross_extent(direction, *boxes[n - 1].layout))
    }
}

/// What is left for a child once `used` is taken along the direction.
pub open spec fn child_space(direction: Direction, inner: LogicalSize, used: u32) -> LogicalSize {
    match direction {
        Direction::Vertical => LogicalSize { width: inner.width, height: sat_sub(inner.height, used) },
        Direction::Horizontal => LogicalSize { width: sat_sub(inner.width, used), height: inner.height },
    }
}

/// Where a child with the given margin stands when `used` is taken before
/// it: past the padding and its own leading margins, and past `used` along
/// the direction.
pub open spec fn child_position(bv: BlockValues, used: u32, margin: LogicalSideOffsets) -> LogicalPoint {
    match bv.direction {
        Direction::Vertical => LogicalPoint {
            x: sat_add(bv.padding.left, margin.left),
            y: sat_add(sat_add(bv.padding.top, used), margin.top),
        },
        Direction::Horizontal => LogicalPoint {
            x: sat_add(sat_add(bv.padding.left, used), margin.left),
            y: sat_add(bv.padding.top, margin.top),
        },
    }
}

/// `v` brought down to `max` and then up to `min`, where they are set.
pub open spec fn clamped(v: u32, min: Option<u32>, max: Option<u32>) -> u32 {
    let capped = match max {
        Some(m) => if v > m {
            m
        } else {
            v
        },
        None => v,
    };
    match min {
        Some(m) => if capped < m {
            m
        } else {
            capped
        },
        None => capped,
    }
}

/// The size of a block around its boxes: an explicit length as it is; else
/// what the boxes take, margins included, held between the minimum and the
/// maximum. Padding moves the children and narrows their space; it adds
/// nothing to a size that follows from them.
pub open spec fn block_size(bv: BlockValues, boxes: Seq<LayoutChild>) -> LogicalSize {
    let along = extent_sum(bv.direction, boxes, boxes.len() as int);
    let across = extent_max(bv.direction, boxes, boxes.len() as int);
    let content = match bv.direction {
        Direction::Vertical => LogicalSize { width: across, height: along },
        Direction::Horizontal => LogicalSize { width: along, height: across },
    };
    LogicalSize {
        width: match bv.width {
            Some(w) => w,
            None => clamped(content.width, bv.min_width, bv.max_width),
        },
        height: match bv.height {
            Some(h) => h,
            None => clamped(content.height, bv.min_height, bv.max_height),
        },
    }
}

pub fn clamp_len(v: u32, min: Option<u32>, max: Option<u32>) -> (r: u32)
    ensures
        r == clamped(v, min, max),
{
    let capped = match max {
        Some(m) => if v > m {
            m
        } else {
            v
        },
        None => v,
    };
    match min {
        Some(m) => if capped < m {
            m
        } else {
            capped
        },
        None => capped,
    }
}

/// The sum and the maximum over a prefix depend on that prefix alone.
pub proof fn lemma_extent_prefix(direction: Direction, a: Seq<LayoutChild>, b: Seq<LayoutChild>, n: int)
    requires
        n <= a.len(),
        n <= b.len(),
        forall|k: int| 0 <= k < n ==> a[k] == b[k],
    ensures
        extent_sum(direction, a, n) == extent_sum(direction, b, n),
        extent_max(direction, a, n) == extent_max(direction, b, n),
    decreases n,
{
    if n > 0 {
        lemma_extent_prefix(direction, a, b, n - 1);
    }
}

/// Lays out a block element: each child in turn along the direction, in the
/// space that the earlier ones left, then the box around them.
pub fn layout_block(
    node: &Element,
    values: &ComputedValues,
    block: &BlockValues,
    size: LogicalSize,
    font: FontRef,
) -> (b: LayoutTreeNode)
    requires
        styled(*node),
    ensures
        is_block_layout(*node, *values, *block, size, font, b),
    decreases *node, 0nat,
{
    let base_width = match block.width {
        Some(w) => w,
        None => size.width,
    };
    let base_height = match block.height {
        Some(h) => h,
        None => size.height,
    };
    let inner = LogicalSize {
        width: sub_len(base_width, block.padding.horizontal()),
        height: sub_len(base_height, block.padding.vertical()),
    };
    let mut children: Vec<LayoutChild> = Vec::new();
    let mut along: u32 = 0;
    let mut across: u32 = 0;
    let n = node.children.len();
    let mut i: usize = 0;
    while i < n
        invariant
            i <= n,
            n == node.children@.len(),
            styled(*node),
            inner == content_space(*block, size),
            children@.len() == i,
            along == extent_sum(block.direction, children@, i as int),
            across == extent_max(block.direction, children@, i as int),
            forall|j: int|
                0 <= j < i ==> is_block_child(
                    #[trigger] node.children@[j],
                    node.id,
                    values.text_size,
                    *block,
                    inner,
                    extent_sum(block.direction, children@, j),
                    font,
                    children@[j],
                ),
        decreases n - i,
    {
        let space = match block.direction {
            Direction::Vertical => LogicalSize { width: inner.width, height: sub_len(inner.height, along) },
            Direction::Horizontal => LogicalSize { width: sub_len(inner.width, along), height: inner.height },
        };
        let child = layout_child(&node.children[i], node.id, values.text_size, space, font);
        let outer_width = child.outer_width();
        let outer_height = child.outer_height();
        let position = match block.direction {
            Direction::Vertical => LogicalPoint {
                x: add_len(block.padding.left, child.margin.left),
                y: add_len(add_len(block.padding.top, along), child.margin.top),
            },
            Direction::Horizontal => LogicalPoint {
                x: add_len(add_len(block.padding.left, along), child.margin.left),
                y: add_len(block.padding.top, child.margin.top),
            },
        };
        let ghost before = children@;
        children.push(LayoutChild { position, layout: Rc::new(child) });
        proof {
            assert forall|j: int| 0 <= j < i + 1 implies is_block_child(
                #[trigger] node.children@[j],
                node.id,
                values.text_size,
                *block,
                inner,
                extent_sum(block.direction, children@, j),
                font,
                children@[j],
            ) by {
                lemma_extent_prefix(block.direction, children@, before, j);
                if j < i {
                    assert(children@[j] == before[j]);
                }
            }
            lemma_extent_prefix(block.direction, children@, before, i as int);
        }
        match block.direction {
            Direction::Vertical => {
                along = add_len(along, outer_height);
                across = max_len(across, outer_width);
            },
            Direction::Horizontal => {
                along = add_len(along, outer_width);
                across = max_len(across, outer_height);
            },
        }
        i += 1;
    }
    let content = match block.direction {
        Direction::Vertical => LogicalSize { width: across, height: along },
        Direction::Horizontal => LogicalSize { width: along, height: across },
    };
    let width = match block.width {
        Some(w) => w,
        None => clamp_len(content.width, block.min_width, block.max_width),
    };
    let height = match block.height {
        Some(h) => h,
        None => clamp_len(content.height, block.min_height, block.max_height),
    };
    LayoutTreeNode {
        size: LogicalSize { width, height },
        margin: block.margin,
        render: RenderData::Node(node.id),
        children,
    }
}

/// An explicit width or height is the box's width or height, whatever the
/// children take and whatever the limits say.
pub proof fn lemma_explicit_size(
    e: Element,
    v: ComputedValues,
    bv: BlockValues,
    avail: LogicalSize,
    font: FontRef,
    b: LayoutTreeNode,
)
    requires
        is_block_layout(e, v, bv, avail, font, b),
    ensures
        bv.width is Some ==> b.size.width == bv.width->0,
        bv.height is Some ==> b.size.height == bv.height->0,
{
}

/// A width or height that is not explicit is what the children take, held
/// between the limits: across the direction the largest of their outer
/// extents, along it their sum. The limits are applied to that length, not
/// to the space on offer, and the padding adds nothing to it.
pub proof fn lemma_auto_size_from_content(
    e: Element,
    v: ComputedValues,
    bv: BlockValues,
    avail: LogicalSize,
    font: FontRef,
    b: LayoutTreeNode,
)
    requires
        is_block_layout(e, v, bv, avail, font, b),
    ensures
        bv.width is None ==> b.size.width == clamped(
            match bv.direction {
                Direction::Vertical => extent_max(bv.direction, b.children@, b.children@.len() as int),
                Direction::Horizontal => extent_sum(bv.direction, b.children@, b.children@.len() as int),
            },
            bv.min_width,
            bv.max_width,
        ),
        bv.height is None ==> b.size.height == clamped(
            match bv.direction {
                Direction::Vertical => extent_sum(bv.direction, b.children@, b.children@.len() as int),
                Direction::Horizontal => extent_max(bv.direction, b.children@, b.children@.len() as int),
            },
            bv.min_height,
            bv.max_height,
        ),
{
}

/// A width or height that is not explicit lies between the limits that are
/// set, where they leave room for one; the minimum wins over the maximum.
pub proof fn lemma_auto_size_within_limits(
    e: Element,
    v: ComputedValues,
    bv: BlockValues,
    avail: LogicalSize,
    font: FontRef,
    b: LayoutTreeNode,
)
    requires
        is_block_layout(e, v, bv, avail, font, b),
    ensures
        bv.width is None && bv.min_width is Some ==> b.size.width >= bv.min_width->0,
        bv.width is None && bv.max_width is Some && (bv.min_width is Some ==> bv.min_width->0
            <= bv.max_width->0) ==> b.size.width <= bv.max_width->0,
        bv.height is None && bv.min_height is Some ==> b.size.height >= bv.min_height->0,
        bv.height is None && bv.max_height is Some && (bv.min_height is Some ==> bv.min_height->0
            <= bv.max_height->0) ==> b.size.height <= bv.max_height->0,
{
}

/// Each child of a block stands past the padding, past what the children
/// before it take along the direction, and past its own leading margins.
pub proof fn lemma_child_stands(
    e: Element,
    v: ComputedValues,
    bv: BlockValues,
    avail: LogicalSize,
    font: FontRef,
    b: LayoutTreeNode,
    i: int,
)
    requires
        is_block_layout(e, v, bv, avail, font, b),
        0 <= i < e.children@.len(),
    ensures
        b.children@[i].position == child_position(
            bv,
            extent_sum(bv.direction, b.children@, i),
            b.children@[i].layout.margin,
        ),
{
    assert(is_block_child(
        e.children@[i],
        e.id,
        v.text_size,
        bv,
        content_space(bv, avail),
        extent_sum(bv.direction, b.children@, i),
        font,
        b.children@[i],
    ));
}

/// The heights of the first `n` boxes, added up.
pub open spec fn height_sum(boxes: Seq<LayoutChild>, n: int) -> int
    decreases n,
{
    if n <= 0 {
        0
    } else {
        height_sum(boxes, n - 1) + boxes[n - 1].layout.size.height
    }
}

/// No box has a margin.
pub open spec fn no_margins(boxes: Seq<LayoutChild>) -> bool {
    forall|k: int|
        0 <= k < boxes.len() ==> (#[trigger] boxes[k]).layout.margin == LogicalSideOffsets::all_same(0)
}

/// Without margins, what boxes take from top to bottom is the sum of their
/// heights, as far as a length can hold it.
pub proof fn lemma_stack_extent(boxes: Seq<LayoutChild>, n: int)
    requires
        no_margins(boxes),
        0 <= n <= boxes.len(),
    ensures
        0 <= height_sum(boxes, n),
        extent_sum(Direction::Vertical, boxes, n) == if height_sum(boxes, n) > u32::MAX {
            u32::MAX as int
        } else {
            height_sum(boxes, n)
        },
    decreases n,
{
    if n > 0 {
        lemma_stack_extent(boxes, n - 1);
        assert(boxes[n - 1].layout.margin == LogicalSideOffsets::all_same(0));
    }
}

/// In a vertical block without padding, over children without margins, each
/// child stands at the left edge, as far down as the children before it are
/// high together, and the next child begins where it ends: no two overlap.
/// This holds as long as the heights add up to a length.
pub proof fn lemma_vertical_stack(
    e: Element,
    v: ComputedValues,
    bv: BlockValues,
    avail: LogicalSize,
    font: FontRef,
    b: LayoutTreeNode,
    i: int,
)
    requires
        is_block_layout(e, v, bv, avail, font, b),
        bv.direction == Direction::Vertical,
        bv.padding == LogicalSideOffsets::all_same(0),
        no_margins(b.children@),
        0 <= i < b.children@.len(),
    ensures
        b.children@[i].position.x == 0,
        height_sum(b.children@, i) <= u32::MAX ==> b.children@[i].position.y == height_sum(b.children@, i),
        i + 1 < b.children@.len() && height_sum(b.children@, i + 1) <= u32::MAX ==> b.children@[i].position.y
            + b.children@[i].layout.size.height == b.children@[i + 1].position.y,
{
    lemma_stack_extent(b.children@, i);
    assert(b.children@[i].layout.margin == LogicalSideOffsets::all_same(0));
    lemma_child_stands(e, v, bv, avail, font, b, i);
    if i + 1 < b.children@.len() {
        lemma_stack_extent(b.children@, i + 1);
        assert(b.children@[i + 1].layout.margin == LogicalSideOffsets::all_same(0));
        lemma_child_stands(e, v, bv, avail, font, b, i + 1);
    }
}

/// How far a point lies along the direction.
pub open spec fn along(direction: Direction, p: LogicalPoint) -> u32 {
    match direction {
        Direction::Vertical => p.y,
        Direction::Horizontal => p.x,
    }
}

/// How long a size is along the direction.
pub open spec fn length_along(direction: Direction, s: LogicalSize) -> u32 {
    match direction {
        Direction::Vertical => s.height,
        Direction::Horizontal => s.width,
    }
}

/// The children of a block follow one another along its direction and never
/// overlap: each child begins at or after the end of the one before it, with
/// that one's trailing margin and its own leading margin between them. This
/// holds wherever the child's position is a length that did not have to be
/// held at the largest one.
pub proof fn lemma_children_in_flow_order(
    e: Element,
    v: ComputedValues,
    bv: BlockValues,
    avail: LogicalSize,
    font: FontRef,
    b: LayoutTreeNode,
    i: int,
)
    requires
        is_block_layout(e, v, bv, avail, font, b),
        0 <= i,
        i + 1 < b.children@.len(),
        along(bv.direction, b.children@[i + 1].position) < u32::MAX,
    ensures
        along(bv.direction, b.children@[i].position) + length_along(
            bv.direction,
            b.children@[i].layout.size,
        ) <= along(bv.direction, b.children@[i + 1].position),
{
    lemma_child_stands(e, v, bv, avail, font, b, i);
    lemma_child_stands(e, v, bv, avail, font, b, i + 1);
}

} // verus!
