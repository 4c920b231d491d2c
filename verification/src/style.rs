//! Resolved visual attributes, style rules and the cascade that combines them.

use vstd::prelude::*;
use crate::geometry::{Color, LogicalLength, LogicalSideOffsets};

verus! {

/// Specifies which direction layout should be performed in.
#[derive(Clone, Copy, Debug, PartialEq, Eq)]
pub enum Direction {
    Vertical,
    Horizontal,
}

#[derive(Clone, Copy, Debug, PartialEq, Eq)]
pub struct InlineValues {}

#[derive(Clone, Copy, Debug, PartialEq, Eq)]
pub struct BlockValues {
    pub direction: Direction,
    pub margin: LogicalSideOffsets,
    pub padding: LogicalSideOffsets,
    pub width: Option<LogicalLength>,
    pub height: Option<LogicalLength>,
    pub min_width: Option<LogicalLength>,
    pub min_height: Option<LogicalLength>,
    pub max_width: Option<LogicalLength>,
    pub max_height: Option<LogicalLength>,
}

#[derive(Clone, Copy, Debug, PartialEq, Eq)]
pub enum DisplayType {
    Inline(InlineValues),
    Block(BlockValues),
}

/// The visual attributes of one element once the cascade has run.
#[derive(Clone, Copy, Debug, PartialEq, Eq)]
pub struct ComputedValues {
    pub display: DisplayType,
    pub text_size: LogicalLength,
    pub text_color: Color,
    pub background_color: Color,
    pub border_radius: LogicalLength,
    pub border_thickness: LogicalSideOffsets,
    pub border_color: Color,
}

impl Default for InlineValues {
    fn default() -> (r: InlineValues)
        ensures
            r == (InlineValues {  }),
    {
        InlineValues {  }
    }
}

impl BlockValues {
    /// A vertical block without margin, padding or size constraints.
    pub open spec fn initial() -> BlockValues {
        BlockValues {
            direction: Direction::Vertical,
            margin: LogicalSideOffsets::all_same(0),
            padding: LogicalSideOffsets::all_same(0),
            width: None,
            height: None,
            min_width: None,
            min_height: None,
            max_width: None,
            max_height: None,
        }
    }
}

impl Default for BlockValues {
    fn default() -> (r: BlockValues)
        ensures
            r == BlockValues::initial(),
    {
        BlockValues {
            direction: Direction::Vertical,
            margin: LogicalSideOffsets::new_all_same(0),
            padding: LogicalSideOffsets::new_all_same(0),
            width: None,
            height: None,
            min_width: None,
            min_height: None,
            max_width: None,
            max_height: None,
        }
    }
}

impl ComputedValues {
    /// What an element has before any rule applies: an unconstrained block,
    /// black text of 16 units, nothing painted behind or around it.
    pub open spec fn initial() -> ComputedValues {
        ComputedValues {
            display: DisplayType::Block(BlockValues::initial()),
            text_size: 16,
            text_color: Color::spec_black(),
            background_color: Color::spec_clear(),
            border_radius: 0,
            border_thickness: LogicalSideOffsets::all_same(0),
            border_color: Color::spec_clear(),
        }
    }

    /// The starting point of an element below `parent`: the initial values,
    /// with the two inheritable fields taken from the parent.
    pub open spec fn inherited(parent: Option<ComputedValues>) -> ComputedValues {
        match parent {
            Some(p) => ComputedValues {
                text_size: p.text_size,
                text_color: p.text_color,
                ..ComputedValues::initial()
            },
            None => ComputedValues::initial(),
        }
    }
}

impl Default for ComputedValues {
    fn default() -> (r: ComputedValues)
        ensures
            r == ComputedValues::initial(),
    {
        ComputedValues {
            display: DisplayType::Block(BlockValues::default()),
            text_size: 16,
            text_color: Color::black(),
            background_color: Color::clear(),
            border_radius: 0,
            border_thickness: LogicalSideOffsets::new_all_same(0),
            border_color: Color::clear(),
        }
    }
}

/// A set of properties, each either present or absent.
#[derive(Clone, Copy, Debug, PartialEq, Eq)]
pub struct CommonAttributes {
    pub display: Option<DisplayType>,
    pub text_size: Option<LogicalLength>,
    pub text_color: Option<Color>,
    pub background_color: Option<Color>,
    pub border_radius: Option<LogicalLength>,
    pub border_thickness: Option<LogicalSideOffsets>,
    pub border_color: Option<Color>,
}

impl CommonAttributes {
    pub open spec fn spec_empty() -> CommonAttributes {
        CommonAttributes {
            display: None,
            text_size: None,
            text_color: None,
            background_color: None,
            border_radius: None,
            border_thickness: None,
            border_color: None,
        }
    }

    /// `values` with every present property written over its field.
    pub open spec fn applied(self, values: ComputedValues) -> ComputedValues {
        ComputedValues {
            display: match self.display { Some(v) => v, None => values.display },
            text_size: match self.text_size { Some(v) => v, None => values.text_size },
            text_color: match self.text_color { Some(v) => v, None => values.text_color },
            background_color: match self.background_color {
                Some(v) => v,
                None => values.background_color,
            },
            border_radius: match self.border_radius { Some(v) => v, None => values.border_radius },
            border_thickness: match self.border_thickness {
                Some(v) => v,
                None => values.border_thickness,
            },
            border_color: match self.border_color { Some(v) => v, None => values.border_color },
        }
    }

    pub fn empty() -> (r: CommonAttributes)
        ensures
            r == Self::spec_empty(),
    {
        CommonAttributes {
            display: None,
            text_size: None,
            text_color: None,
            background_color: None,
            border_radius: None,
            border_thickness: None,
            border_color: None,
        }
    }

    /// Writes every present property over the corresponding field and leaves
    /// the other fields as they were.
    pub fn apply(&self, computed: &mut ComputedValues)
        ensures
            *final(computed) == self.applied(*old(computed)),
    {
        if let Some(v) = self.display {
            computed.display = v;
        }
        if let Some(v) = self.text_size {
            computed.text_size = v;
        }
        if let Some(v) = self.text_color {
            computed.text_color = v;
        }
        if let Some(v) = self.background_color {
            computed.background_color = v;
        }
        if let Some(v) = self.border_radius {
            computed.border_radius = v;
        }
        if let Some(v) = self.border_thickness {
            computed.border_thickness = v;
        }
        if let Some(v) = self.border_color {
            computed.border_color = v;
        }
    }
}

/// What a selector may read of an element: its tag, its state bits and the
/// tag of its parent, if it has one.
#[derive(Clone, Copy, Debug, PartialEq, Eq)]
pub struct NodeRef {
    pub tag: u32,
    pub state: u32,
    pub parent_tag: Option<u32>,
}

/// A condition on an element.
#[derive(Clone, Copy, Debug, PartialEq, Eq)]
pub enum Selector {
    /// Every element.
    Any,
    /// Elements with this tag.
    Tag(u32),
    /// Elements on which all of these state bits are set.
    State(u32),
    /// Elements whose parent has this tag.
    ChildOf(u32),
}

impl Selector {
    pub open spec fn matches(self, node: NodeRef) -> bool {
        match self {
            Selector::Any => true,
            Selector::Tag(t) => node.tag == t,
            Selector::State(mask) => node.state & mask == mask,
            Selector::ChildOf(t) => node.parent_tag == Some(t),
        }
    }

    pub fn test(&self, node: &NodeRef) -> (r: bool)
        ensures
            r == self.matches(*node),
    {
        match self {
            Selector::Any => true,
            Selector::Tag(t) => node.tag == *t,
            Selector::State(mask) => node.state & *mask == *mask,
            Selector::ChildOf(t) => match node.parent_tag {
                Some(p) => p == *t,
                None => false,
            },
        }
    }
}

#[derive(Clone, Copy, Debug)]
pub struct SubStyle {
    pub selector: Selector,
    pub attributes: CommonAttributes,
}

/// Affects the presentation of the elements that refer to it: a base set of
/// attributes, and further sets that apply where their selector matches.
#[derive(Debug)]
pub struct StyleData {
    pub attributes: CommonAttributes,
    pub sub_styles: &'static [SubStyle],
    pub name: &'static str,
    pub file: &'static str,
    pub line: u32,
}

#[derive(Clone, Copy, Debug)]
pub struct Style(pub &'static StyleData);

impl Style {
    pub fn name(&self) -> (r: &'static str)
        ensures
            r == self.0.name,
    {
        self.0.name
    }

    pub fn file(&self) -> (r: (&'static str, u32))
        ensures
            r.0 == self.0.file,
            r.1 == self.0.line,
    {
        (self.0.file, self.0.line)
    }
}

/// Whether two handles refer to one and the same rule. A rule is known by
/// where it is, not by what it holds: two rules with the same content are
/// two rules.
///
/// The answer is that of `std::ptr::eq` on the two references. All that is
/// claimed of it is that one rule has one content; when two references are
/// the same place is not something a contract here can say.
#[verifier::external_body]
pub fn same_rule(a: &Style, b: &Style) -> (r: bool)
    ensures
        r ==> a.0 == b.0,
{
    std::ptr::eq(a.0, b.0)
}

/// `values` after the first `n` of `subs` were tried in order, each applied
/// where its selector matches `node`.
pub open spec fn apply_sub_styles(
    subs: Seq<SubStyle>,
    node: NodeRef,
    values: ComputedValues,
    n: int,
) -> ComputedValues
    decreases n,
{
    if n <= 0 {
        values
    } else {
        let before = apply_sub_styles(subs, node, values, n - 1);
        if subs[n - 1].selector.matches(node) {
            subs[n - 1].attributes.applied(before)
        } else {
            before
        }
    }
}

/// The resolved values of an element: the inherited starting point, then the
/// rule's base attributes, then every matching sub-rule in declaration order.
pub open spec fn cascade(
    style: Option<Style>,
    node: NodeRef,
    parent: Option<ComputedValues>,
) -> ComputedValues {
    match style {
        Some(s) => apply_sub_styles(
            s.0.sub_styles@,
            node,
            s.0.attributes.applied(ComputedValues::inherited(parent)),
            s.0.sub_styles@.len() as int,
        ),
        None => ComputedValues::inherited(parent),
    }
}

/// Computes the resolved values of one element from those of its parent and
/// from the rule it refers to.
pub fn compute_values(style: Option<Style>, node: &NodeRef, parent: Option<&ComputedValues>) -> (r:
    ComputedValues)
    ensures
        r == cascade(
            style,
            *node,
            match parent {
                Some(p) => Some(*p),
                None => None,
            },
        ),
{
    let mut computed = ComputedValues::default();
    if let Some(p) = parent {
        computed.text_size = p.text_size;
        computed.text_color = p.text_color;
    }
    if let Some(s) = style {
        let data: &'static StyleData = s.0;
        data.attributes.apply(&mut computed);
        let ghost start = computed;
        let n = data.sub_styles.len();
        let mut i: usize = 0;
        while i < n
            invariant
                n == data.sub_styles@.len(),
                i <= n,
                computed == apply_sub_styles(data.sub_styles@, *node, start, i as int),
            decreases n - i,
        {
            let sub = &data.sub_styles[i];
            if sub.selector.test(node) {
                sub.attributes.apply(&mut computed);
            }
            i += 1;
        }
    }
    computed
}

/// The properties that a set of attributes may hold.
#[derive(Clone, Copy, Debug, PartialEq, Eq)]
pub enum Property {
    Display,
    TextSize,
    TextColor,
    BackgroundColor,
    BorderRadius,
    BorderThickness,
    BorderColor,
}

impl CommonAttributes {
    /// Whether the property is present in this set.
    pub open spec fn sets(self, p: Property) -> bool {
        match p {
            Property::Display => self.display is Some,
            Property::TextSize => self.text_size is Some,
            Property::TextColor => self.text_color is Some,
            Property::BackgroundColor => self.background_color is Some,
            Property::BorderRadius => self.border_radius is Some,
            Property::BorderThickness => self.border_thickness is Some,
            Property::BorderColor => self.border_color is Some,
        }
    }

    /// Whether the property is present in this set with the value that
    /// `values` has for it.
    pub open spec fn gives(self, p: Property, values: ComputedValues) -> bool {
        match p {
            Property::Display => self.display == Some(values.display),
            Property::TextSize => self.text_size == Some(values.text_size),
            Property::TextColor => self.text_color == Some(values.text_color),
            Property::BackgroundColor => self.background_color == Some(values.background_color),
            Property::BorderRadius => self.border_radius == Some(values.border_radius),
            Property::BorderThickness => self.border_thickness == Some(values.border_thickness),
            Property::BorderColor => self.border_color == Some(values.border_color),
        }
    }
}

impl ComputedValues {
    /// Whether two values agree on one property.
    pub open spec fn same(self, other: ComputedValues, p: Property) -> bool {
        match p {
            Property::Display => self.display == other.display,
            Property::TextSize => self.text_size == other.text_size,
            Property::TextColor => self.text_color == other.text_color,
            Property::BackgroundColor => self.background_color == other.background_color,
            Property::BorderRadius => self.border_radius == other.border_radius,
            Property::BorderThickness => self.border_thickness == other.border_thickness,
            Property::BorderColor => self.border_color == other.border_color,
        }
    }
}

/// No matching sub-rule among those numbered from `from` up to `to` holds
/// the property.
pub open spec fn untouched_between(
    subs: Seq<SubStyle>,
    node: NodeRef,
    p: Property,
    from: int,
    to: int,
) -> bool {
    forall|j: int|
        from <= j < to && (#[trigger] subs[j]).selector.matches(node) ==> !subs[j].attributes.sets(
            p,
        )
}

/// A property that no matching sub-rule in a stretch of the list holds has,
/// after that stretch, the value it had before it: the other properties that
/// those sub-rules set do not disturb it.
pub proof fn lemma_unset_property_kept(
    subs: Seq<SubStyle>,
    node: NodeRef,
    values: ComputedValues,
    p: Property,
    from: int,
    to: int,
)
    requires
        0 <= from <= to <= subs.len(),
        untouched_between(subs, node, p, from, to),
    ensures
        apply_sub_styles(subs, node, values, to).same(
            apply_sub_styles(subs, node, values, from),
            p,
        ),
    decreases to - from,
{
    if from < to {
        lemma_unset_property_kept(subs, node, values, p, from, to - 1);
        let _ = subs[to - 1];
    }
}

/// A matching sub-rule that holds a property decides it, whatever the base
/// attributes and the earlier sub-rules gave, unless a later matching
/// sub-rule holds that property too.
pub proof fn lemma_later_sub_style_wins(
    subs: Seq<SubStyle>,
    node: NodeRef,
    values: ComputedValues,
    p: Property,
    k: int,
)
    requires
        0 <= k < subs.len(),
        subs[k].selector.matches(node),
        subs[k].attributes.sets(p),
        untouched_between(subs, node, p, k + 1, subs.len() as int),
    ensures
        subs[k].attributes.gives(p, apply_sub_styles(subs, node, values, subs.len() as int)),
{
    lemma_unset_property_kept(subs, node, values, p, k + 1, subs.len() as int);
}

/// Nothing that applies to the element holds the property: it refers to no
/// rule, or neither the rule's base attributes nor any matching sub-rule
/// holds it.
pub open spec fn leaves_unset(style: Option<Style>, node: NodeRef, p: Property) -> bool {
    match style {
        Some(s) => !s.0.attributes.sets(p) && untouched_between(
            s.0.sub_styles@,
            node,
            p,
            0,
            s.0.sub_styles@.len() as int,
        ),
        None => true,
    }
}

/// The text size and the text colour of an element are those of its parent,
/// unless the element's rule or one of its matching sub-rules holds them.
pub proof fn lemma_text_inherited(
    style: Option<Style>,
    node: NodeRef,
    parent: ComputedValues,
    p: Property,
)
    requires
        p == Property::TextSize || p == Property::TextColor,
        leaves_unset(style, node, p),
    ensures
        cascade(style, node, Some(parent)).same(parent, p),
{
    if let Some(s) = style {
        lemma_unset_property_kept(
            s.0.sub_styles@,
            node,
            s.0.attributes.applied(ComputedValues::inherited(Some(parent))),
            p,
            0,
            s.0.sub_styles@.len() as int,
        );
    }
}

/// The properties other than text size and text colour start from their
/// initial values on every element, whatever the parent has.
pub proof fn lemma_rest_not_inherited(
    style: Option<Style>,
    node: NodeRef,
    parent: Option<ComputedValues>,
    p: Property,
)
    requires
        p != Property::TextSize && p != Property::TextColor,
    ensures
        cascade(style, node, parent).same(cascade(style, node, None), p),
{
    if let Some(s) = style {
        let n = s.0.sub_styles@.len() as int;
        lemma_same_start(
            s.0.sub_styles@,
            node,
            s.0.attributes.applied(ComputedValues::inherited(parent)),
            s.0.attributes.applied(ComputedValues::inherited(None)),
            p,
            n,
        );
    }
}

/// Two starting points that agree on a property still agree on it after the
/// same sub-rules.
pub proof fn lemma_same_start(
    subs: Seq<SubStyle>,
    node: NodeRef,
    a: ComputedValues,
    b: ComputedValues,
    p: Property,
    n: int,
)
    requires
        a.same(b, p),
    ensures
        apply_sub_styles(subs, node, a, n).same(apply_sub_styles(subs, node, b, n), p),
    decreases n,
{
    if n > 0 {
        lemma_same_start(subs, node, a, b, p, n - 1);
    }
}

} // verus!
