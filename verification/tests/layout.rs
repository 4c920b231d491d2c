use boxflow::cascade::StyleEngine;
use boxflow::dom::{DynamicNode, Element, ShapedGlyph, ShapedText, ShapedWord};
use boxflow::geometry::{add_len, max_len, sub_len, LogicalPoint, LogicalSideOffsets, LogicalSize};
use boxflow::layout::block::clamp_len;
use boxflow::layout::{FontRef, LayoutEngine, LayoutTreeNode, RenderData};
use boxflow::style::{
    BlockValues, CommonAttributes, ComputedValues, Direction, DisplayType, InlineValues,
};

fn zero() -> LogicalSideOffsets {
    LogicalSideOffsets { top: 0, right: 0, bottom: 0, left: 0 }
}

fn plain_block() -> BlockValues {
    BlockValues {
        direction: Direction::Vertical,
        margin: zero(),
        padding: zero(),
        width: None,
        height: None,
        min_width: None,
        min_height: None,
        max_width: None,
        max_height: None,
    }
}

fn with_display(id: u64, display: DisplayType, children: Vec<DynamicNode>) -> Element {
    let computed = ComputedValues { display, ..ComputedValues::default() };
    Element { id, tag: 0, state: 0, style: None, computed: Some(computed), children }
}

fn block(id: u64, values: BlockValues, children: Vec<DynamicNode>) -> Element {
    with_display(id, DisplayType::Block(values), children)
}

fn sized(id: u64, width: u32, height: u32) -> DynamicNode {
    DynamicNode::Node(block(
        id,
        BlockValues { width: Some(width), height: Some(height), ..plain_block() },
        vec![],
    ))
}

fn word(len: usize, first: u32) -> ShapedWord {
    let mut glyphs = Vec::new();
    for i in 0..len {
        glyphs.push(ShapedGlyph { index: first + i as u32, advance: 10 });
    }
    ShapedWord { glyphs }
}

fn three_words() -> ShapedText {
    ShapedText { text: String::new(), words: vec![word(3, 100), word(2, 200), word(4, 300)], line_height: 12 }
}

fn space(width: u32, height: u32) -> LogicalSize {
    LogicalSize { width, height }
}

fn run(node: &Element, size: LogicalSize) -> LayoutTreeNode {
    LayoutEngine::run_layout(node, size, FontRef(0))
}

fn fragments(b: &LayoutTreeNode) -> Vec<Vec<(u32, u32, u32)>> {
    match &b.render {
        RenderData::Text { text, .. } => text
            .fragments
            .iter()
            .map(|f| f.glyphs.iter().map(|g| (g.index, g.offset.x, g.offset.y)).collect())
            .collect(),
        RenderData::Node(_) => panic!("a box of text was expected"),
    }
}

#[test]
fn saturating_lengths() {
    assert_eq!(add_len(3, 4), 7);
    assert_eq!(add_len(u32::MAX, 1), u32::MAX);
    assert_eq!(sub_len(10, 4), 6);
    assert_eq!(sub_len(4, 10), 0);
    assert_eq!(max_len(4, 10), 10);
    assert_eq!(max_len(10, 4), 10);
    let offsets = LogicalSideOffsets { top: 1, right: 2, bottom: 3, left: 4 };
    assert_eq!(offsets.horizontal(), 6);
    assert_eq!(offsets.vertical(), 4);
}

#[test]
fn clamp_applies_max_then_min() {
    assert_eq!(clamp_len(50, None, None), 50);
    assert_eq!(clamp_len(50, Some(60), None), 60);
    assert_eq!(clamp_len(50, None, Some(40)), 40);
    assert_eq!(clamp_len(50, Some(10), Some(100)), 50);
    assert_eq!(clamp_len(50, Some(70), Some(60)), 70);
}

#[test]
fn horizontal_block_places_children_side_by_side() {
    let root = block(
        1,
        BlockValues { direction: Direction::Horizontal, width: Some(200), ..plain_block() },
        vec![sized(2, 80, 30), sized(3, 50, 40)],
    );
    let b = run(&root, space(500, 500));
    assert_eq!(b.size, space(200, 40));
    assert_eq!(b.render, RenderData::Node(1));
    assert_eq!(b.children.len(), 2);
    assert_eq!(b.children[0].position, LogicalPoint { x: 0, y: 0 });
    assert_eq!(b.children[1].position, LogicalPoint { x: 80, y: 0 });
    assert_eq!(b.children[0].layout.size, space(80, 30));
    assert_eq!(b.children[1].layout.size, space(50, 40));
    assert_eq!(b.children[1].layout.render, RenderData::Node(3));
}

#[test]
fn vertical_block_stacks_children_without_overlap() {
    let root = block(1, plain_block(), vec![sized(2, 30, 10), sized(3, 70, 20), sized(4, 50, 30)]);
    let b = run(&root, space(500, 500));
    assert_eq!(b.children[0].position, LogicalPoint { x: 0, y: 0 });
    assert_eq!(b.children[1].position, LogicalPoint { x: 0, y: 10 });
    assert_eq!(b.children[2].position, LogicalPoint { x: 0, y: 30 });
    assert_eq!(b.size, space(70, 60));
    for i in 0..2 {
        let end = b.children[i].position.y + b.children[i].layout.size.height;
        assert!(end <= b.children[i + 1].position.y);
    }
}

#[test]
fn explicit_width_ignores_content_and_limits() {
    let root = block(
        1,
        BlockValues {
            width: Some(40),
            min_width: Some(60),
            max_width: Some(20),
            ..plain_block()
        },
        vec![sized(2, 300, 10)],
    );
    let b = run(&root, space(500, 500));
    assert_eq!(b.size, space(40, 10));
}

#[test]
fn auto_size_is_clamped_after_content() {
    let wide = block(
        1,
        BlockValues { max_width: Some(100), min_height: Some(50), ..plain_block() },
        vec![sized(2, 300, 10)],
    );
    assert_eq!(run(&wide, space(500, 500)).size, space(100, 50));
    let empty = block(
        1,
        BlockValues { min_width: Some(15), max_height: Some(5), ..plain_block() },
        vec![],
    );
    assert_eq!(run(&empty, space(500, 500)).size, space(15, 0));
}

#[test]
fn padding_and_margins_move_children() {
    let kid = DynamicNode::Node(block(
        2,
        BlockValues {
            width: Some(20),
            height: Some(10),
            margin: LogicalSideOffsets { top: 1, right: 2, bottom: 3, left: 4 },
            ..plain_block()
        },
        vec![],
    ));
    let root = block(
        1,
        BlockValues {
            padding: LogicalSideOffsets { top: 5, right: 6, bottom: 7, left: 8 },
            margin: LogicalSideOffsets { top: 9, right: 9, bottom: 9, left: 9 },
            ..plain_block()
        },
        vec![kid, sized(3, 10, 10)],
    );
    let b = run(&root, space(500, 500));
    assert_eq!(b.margin, LogicalSideOffsets { top: 9, right: 9, bottom: 9, left: 9 });
    assert_eq!(b.children[0].position, LogicalPoint { x: 12, y: 6 });
    assert_eq!(b.children[1].position, LogicalPoint { x: 8, y: 19 });
    assert_eq!(b.size, space(26, 24));
}

#[test]
fn children_get_the_space_that_is_left() {
    let text = ShapedText { text: String::new(), words: vec![word(3, 0), word(3, 10)], line_height: 12 };
    let root = block(
        1,
        BlockValues {
            direction: Direction::Horizontal,
            width: Some(100),
            padding: LogicalSideOffsets { top: 0, right: 10, bottom: 0, left: 10 },
            ..plain_block()
        },
        vec![sized(2, 30, 10), DynamicNode::Text(text)],
    );
    let b = run(&root, space(500, 500));
    // 100 - 20 of padding - 30 taken: 50 are left, so the two words of 30 break.
    assert_eq!(b.children[1].position, LogicalPoint { x: 40, y: 0 });
    assert_eq!(b.children[1].layout.size, space(30, 24));
    assert_eq!(b.size, space(100, 24));
}

#[test]
fn text_wraps_when_the_next_word_does_not_fit() {
    let root = with_display(7, DisplayType::Inline(InlineValues {}), vec![DynamicNode::Text(three_words())]);
    let b = run(&root, space(50, 500));
    assert_eq!(b.size, space(50, 24));
    assert_eq!(b.margin, zero());
    assert_eq!(b.children.len(), 0);
    assert_eq!(
        fragments(&b),
        vec![
            vec![(100, 0, 0), (101, 10, 0), (102, 20, 0), (200, 30, 0), (201, 40, 0)],
            vec![(300, 0, 12), (301, 10, 12), (302, 20, 12), (303, 30, 12)],
        ]
    );
    match &b.render {
        RenderData::Text { text, parent } => {
            assert_eq!(*parent, 7);
            assert_eq!(text.size, 16);
            assert_eq!(text.fragments[0].font, FontRef(0));
        }
        RenderData::Node(_) => panic!("a box of text was expected"),
    }
}

#[test]
fn text_that_fits_stays_on_one_line() {
    let root = with_display(7, DisplayType::Inline(InlineValues {}), vec![DynamicNode::Text(three_words())]);
    let b = run(&root, space(90, 500));
    assert_eq!(b.size, space(90, 12));
    assert_eq!(fragments(&b).len(), 1);
}

#[test]
fn a_word_wider_than_the_line_stands_alone() {
    let root = with_display(7, DisplayType::Inline(InlineValues {}), vec![DynamicNode::Text(three_words())]);
    let b = run(&root, space(35, 500));
    let lines = fragments(&b);
    assert_eq!(lines.len(), 3);
    assert_eq!(lines[2].len(), 4);
    assert_eq!(b.size, space(40, 36));
}

#[test]
fn zero_width_puts_each_unit_on_its_own_line() {
    let root = with_display(7, DisplayType::Inline(InlineValues {}), vec![DynamicNode::Text(three_words())]);
    let b = run(&root, space(0, 0));
    let lines = fragments(&b);
    assert_eq!(lines.len(), 3);
    assert_eq!(lines[0], vec![(100, 0, 0), (101, 10, 0), (102, 20, 0)]);
    assert_eq!(lines[1], vec![(200, 0, 12), (201, 10, 12)]);
    assert_eq!(b.size, space(40, 36));
}

#[test]
fn empty_text_gives_an_empty_box() {
    let empty = ShapedText { text: String::new(), words: vec![], line_height: 12 };
    let root = with_display(7, DisplayType::Inline(InlineValues {}), vec![DynamicNode::Text(empty)]);
    let b = run(&root, space(100, 100));
    assert_eq!(b.size, space(0, 0));
    assert_eq!(fragments(&b).len(), 0);
    let bare = with_display(8, DisplayType::Inline(InlineValues {}), vec![]);
    assert_eq!(run(&bare, space(100, 100)).size, space(0, 0));
}

#[test]
fn inline_child_is_packed_as_one_unit() {
    let text = ShapedText { text: String::new(), words: vec![word(2, 0)], line_height: 12 };
    let root = with_display(
        7,
        DisplayType::Inline(InlineValues {}),
        vec![DynamicNode::Text(text), sized(8, 25, 30), sized(9, 10, 5)],
    );
    let b = run(&root, space(40, 500));
    assert_eq!(b.children.len(), 2);
    assert_eq!(b.children[0].position, LogicalPoint { x: 0, y: 12 });
    assert_eq!(b.children[1].position, LogicalPoint { x: 25, y: 12 });
    assert_eq!(b.children[0].layout.render, RenderData::Node(8));
    assert_eq!(b.size, space(35, 42));
    assert_eq!(fragments(&b), vec![vec![(0, 0, 0), (1, 10, 0)], vec![]]);
}

#[test]
fn layout_twice_gives_equal_trees() {
    let text = DynamicNode::Text(three_words());
    let inline = DynamicNode::Node(with_display(3, DisplayType::Inline(InlineValues {}), vec![text]));
    let root = block(1, plain_block(), vec![sized(2, 30, 10), inline]);
    let mut engine = LayoutEngine::new();
    assert_eq!(engine.font, None);
    let first = engine.layout(&root, space(50, 500));
    assert_eq!(engine.font, Some(FontRef(0)));
    let second = engine.layout(&root, space(50, 500));
    assert_eq!(engine.font, Some(FontRef(0)));
    assert_eq!(first, second);
    assert_eq!(first.size, space(50, 34));
}

#[test]
fn engine_keeps_the_font_it_has() {
    let root = with_display(7, DisplayType::Inline(InlineValues {}), vec![DynamicNode::Text(three_words())]);
    let mut engine = LayoutEngine { font: Some(FontRef(4)) };
    let b = engine.layout(&root, space(500, 500));
    assert_eq!(engine.font, Some(FontRef(4)));
    match &b.render {
        RenderData::Text { text, .. } => assert_eq!(text.fragments[0].font, FontRef(4)),
        RenderData::Node(_) => panic!("a box of text was expected"),
    }
}

#[test]
fn cascade_then_layout() {
    let mut root = Element {
        id: 1,
        tag: 0,
        state: 0,
        style: None,
        computed: None,
        children: vec![DynamicNode::Text(three_words())],
    };
    StyleEngine::new().update(&mut root, space(50, 500));
    let b = LayoutEngine::new().layout(&root, space(50, 500));
    assert_eq!(b.size, space(50, 24));
    assert_eq!(b.children[0].layout.size, space(50, 24));
    assert_eq!(CommonAttributes::empty().text_size, None);
}

#[test]
fn zero_width_with_single_glyph_words_gives_one_glyph_per_line() {
    let text = ShapedText {
        text: String::new(),
        words: vec![word(1, 1), word(1, 2), word(1, 3)],
        line_height: 7,
    };
    let root = with_display(7, DisplayType::Inline(InlineValues {}), vec![DynamicNode::Text(text)]);
    let b = run(&root, space(0, 0));
    assert_eq!(fragments(&b), vec![vec![(1, 0, 0)], vec![(2, 0, 7)], vec![(3, 0, 14)]]);
    assert_eq!(b.size, space(10, 21));
}

#[test]
fn no_line_is_wider_than_the_space_unless_it_holds_one_word() {
    let words: Vec<ShapedWord> = vec![2, 5, 1, 1, 1, 9, 3, 3, 2].into_iter().map(|n| word(n, 0)).collect();
    let lengths: Vec<usize> = words.iter().map(|w| w.glyphs.len()).collect();
    let text = ShapedText { text: String::new(), words, line_height: 12 };
    let root = with_display(7, DisplayType::Inline(InlineValues {}), vec![DynamicNode::Text(text)]);
    let b = run(&root, space(60, 0));
    let lines = fragments(&b);
    // 2+1+1+1 | 5 | 9 | 3+3 | 2 would be wrong: packing is greedy and in order.
    let counts: Vec<usize> = lines.iter().map(|l| l.len()).collect();
    assert_eq!(counts, vec![2, 5 + 1, 1 + 1, 9, 3 + 3, 2]);
    assert_eq!(counts.iter().sum::<usize>(), lengths.iter().sum::<usize>());
    for line in &lines {
        assert!(line.len() * 10 <= 60 || line.len() == 9);
    }
    assert_eq!(b.size, space(90, 72));
}

#[test]
fn lengths_stop_at_the_largest() {
    let root = block(1, plain_block(), vec![sized(2, 10, u32::MAX - 5), sized(3, 10, 10), sized(4, 10, 10)]);
    let b = run(&root, space(100, 100));
    assert_eq!(b.children[1].position.y, u32::MAX - 5);
    assert_eq!(b.children[2].position.y, u32::MAX);
    assert_eq!(b.size.height, u32::MAX);
}

#[test]
fn nested_blocks_are_sized_from_the_inside() {
    let inner = block(
        2,
        BlockValues { direction: Direction::Horizontal, ..plain_block() },
        vec![sized(3, 10, 5), sized(4, 20, 8)],
    );
    let root = block(
        1,
        BlockValues { padding: LogicalSideOffsets { top: 1, right: 1, bottom: 1, left: 1 }, ..plain_block() },
        vec![DynamicNode::Node(inner), sized(5, 4, 4)],
    );
    let b = run(&root, space(100, 100));
    assert_eq!(b.children[0].layout.size, space(30, 8));
    assert_eq!(b.children[0].layout.children[1].position, LogicalPoint { x: 10, y: 0 });
    assert_eq!(b.children[1].position, LogicalPoint { x: 1, y: 9 });
    assert_eq!(b.size, space(30, 12));
}

#[test]
fn display_of_the_child_decides_its_layout() {
    let inline = with_display(2, DisplayType::Inline(InlineValues::default()), vec![DynamicNode::Text(three_words())]);
    let root = block(1, BlockValues { width: Some(50), ..plain_block() }, vec![DynamicNode::Node(inline)]);
    let b = run(&root, space(500, 500));
    match &b.children[0].layout.render {
        RenderData::Text { parent, .. } => assert_eq!(*parent, 2),
        RenderData::Node(_) => panic!("a box of text was expected"),
    }
    assert_eq!(b.children[0].layout.size, space(50, 24));
    assert_eq!(b.size, space(50, 24));
}

#[test]
fn padding_adds_nothing_to_an_auto_size() {
    let empty = block(
        1,
        BlockValues { padding: LogicalSideOffsets { top: 3, right: 5, bottom: 3, left: 5 }, ..plain_block() },
        vec![],
    );
    assert_eq!(run(&empty, space(100, 100)).size, space(0, 0));
    let row = block(
        1,
        BlockValues {
            direction: Direction::Horizontal,
            padding: LogicalSideOffsets { top: 3, right: 5, bottom: 3, left: 5 },
            min_width: Some(10),
            max_height: Some(6),
            ..plain_block()
        },
        vec![sized(2, 30, 8), sized(3, 12, 4)],
    );
    let b = run(&row, space(100, 100));
    assert_eq!(b.size, space(42, 6));
    assert_eq!(b.children[1].position, LogicalPoint { x: 35, y: 3 });
}
