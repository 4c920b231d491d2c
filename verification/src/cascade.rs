//! The cascade over a whole element tree.

use vstd::prelude::*;
use crate::dom::{DynamicNode, Element};
use crate::geometry::LogicalSize;
use crate::layout::styled;
use crate::style::{
    cascade,
    compute_values,
    leaves_unset,
    lemma_text_inherited,
    ComputedValues,
    NodeRef,
    Property,
};

verus! {

/// `after` is `before` with the cascade's result published on the element and
/// on every element below it, and nothing else changed.
pub open spec fn resolved_node(
    before: Element,
    after: Element,
    parent: Option<ComputedValues>,
    parent_tag: Option<u32>,
) -> bool
    decreases before,
{
    let values = cascade(before.style, before.node_ref(parent_tag), parent);
    &&& after.id == before.id
    &&& after.tag == before.tag
    &&& after.state == before.state
    &&& after.style == before.style
    &&& after.computed == Some(values)
    &&& after.children@.len() == before.children@.len()
    &&& forall|i: int|
        0 <= i < before.children@.len() ==> resolved_child(
            before.children@[i],
            #[trigger] after.children@[i],
            values,
            before.tag,
        )
}

/// A child element is resolved below its parent; text content has no values
/// of its own and stays as it is.
pub open spec fn resolved_child(
    before: DynamicNode,
    after: DynamicNode,
    parent: ComputedValues,
    parent_tag: u32,
) -> bool
    decreases before,
{
    match before {
        DynamicNode::Node(e) => match after {
            DynamicNode::Node(a) => resolved_node(e, a, Some(parent), Some(parent_tag)),
            DynamicNode::Text(_) => false,
        },
        DynamicNode::Text(_) => after == before,
    }
}

/// In a resolved tree, a child element has the text size and the text
/// colour of the element above it, unless its own rule or one of that
/// rule's matching sub-rules holds the property. Along a chain of such
/// children the values are those of the nearest ancestor that set them.
pub proof fn lemma_child_inherits_text(
    before: Element,
    after: Element,
    parent: Option<ComputedValues>,
    parent_tag: Option<u32>,
    i: int,
    p: Property,
)
    requires
        resolved_node(before, after, parent, parent_tag),
        0 <= i < before.children@.len(),
        p == Property::TextSize || p == Property::TextColor,
        match before.children@[i] {
            DynamicNode::Node(c) => leaves_unset(c.style, c.node_ref(Some(before.tag)), p),
            DynamicNode::Text(_) => false,
        },
    ensures
        match (after.computed, after.children@[i]) {
            (Some(above), DynamicNode::Node(c)) => match c.computed {
                Some(values) => values.same(above, p),
                None => false,
            },
            _ => false,
        },
{
    let above = cascade(before.style, before.node_ref(parent_tag), parent);
    assert(resolved_child(before.children@[i], after.children@[i], above, before.tag));
    match before.children@[i] {
        DynamicNode::Node(c) => {
            lemma_text_inherited(c.style, c.node_ref(Some(before.tag)), above, p);
        },
        DynamicNode::Text(_) => {},
    }
}

/// After the cascade every element of the tree carries resolved values, so
/// the tree is ready for layout.
pub proof fn lemma_resolved_is_styled(
    before: Element,
    after: Element,
    parent: Option<ComputedValues>,
    parent_tag: Option<u32>,
)
    requires
        resolved_node(before, after, parent, parent_tag),
    ensures
        styled(after),
    decreases before,
{
    let values = cascade(before.style, before.node_ref(parent_tag), parent);
    assert forall|i: int| 0 <= i < after.children@.len() implies match #[trigger] after.children@[i] {
        DynamicNode::Node(c) => styled(c),
        DynamicNode::Text(_) => true,
    } by {
        assert(resolved_child(before.children@[i], after.children@[i], values, before.tag));
        match before.children@[i] {
            DynamicNode::Node(e) => {
                match after.children@[i] {
                    DynamicNode::Node(a) => {
                        lemma_resolved_is_styled(e, a, Some(values), Some(before.tag));
                    },
                    DynamicNode::Text(_) => {},
                }
            },
            DynamicNode::Text(_) => {},
        }
    }
}

/// Used to annotate the node tree with computed values from styling.
pub struct StyleEngine {}

impl StyleEngine {
    pub fn new() -> (r: StyleEngine) {
        StyleEngine {  }
    }

    /// Resolves `node` below a parent with the given values and tag, then
    /// every element of its subtree, parents before children.
    pub fn update_style(node: &mut Element, parent: Option<&ComputedValues>, parent_tag: Option<u32>)
        ensures
            resolved_node(
                *old(node),
                *final(node),
                match parent {
                    Some(p) => Some(*p),
                    None => None,
                },
                parent_tag,
            ),
        decreases *old(node),
    {
        let view = NodeRef { tag: node.tag, state: node.state, parent_tag };
        let computed = compute_values(node.style, &view, parent);
        node.computed = Some(computed);
        let tag = node.tag;
        let n = node.children.len();
        let mut i: usize = 0;
        while i < n
            invariant
                i <= n,
                n == old(node).children@.len(),
                node.children@.len() == n,
                node.id == old(node).id,
                node.tag == old(node).tag,
                node.state == old(node).state,
                node.style == old(node).style,
                node.computed == Some(computed),
                tag == node.tag,
                forall|j: int|
                    0 <= j < i ==> resolved_child(
                        old(node).children@[j],
                        #[trigger] node.children@[j],
                        computed,
                        tag,
                    ),
                forall|j: int| i <= j < n ==> node.children@[j] == old(node).children@[j],
            decreases n - i,
        {
            match &mut node.children[i] {
                DynamicNode::Node(child) => {
                    Self::update_style(child, Some(&computed), Some(tag));
                },
                DynamicNode::Text(_) => {},
            }
            i += 1;
        }
    }

    /// Update the node tree with computed values, starting at the root.
    /// The content size has no part in the cascade.
    pub fn update(&mut self, node: &mut Element, _size: LogicalSize)
        ensures
            resolved_node(*old(node), *final(node), None, None),
            styled(*final(node)),
    {
        let ghost before = *node;
        Self::update_style(node, None, None);
        proof {
            lemma_resolved_is_styled(before, *node, None, None);
        }
    }
}

} // verus!
