//! Packing words and inline boxes into lines.

use vstd::prelude::*;
use std::rc::Rc;
use crate::dom::{DynamicNode, Element, ShapedGlyph, ShapedText, ShapedWord};
use crate::geometry::{add_len, max_len, max_of, sat_add, LogicalPoint, LogicalSize};
use crate::geometry::LogicalSideOffsets;
use crate::layout::{
    is_inline_layout,
    is_layout,
    is_text_layout,
    styled,
    FontRef,
    Glyph,
    LayoutChild,
    LayoutEngine,
    LayoutText,
    LayoutTreeNode,
    RenderData,
    TextFragment,
};
use crate::style::ComputedValues;

verus! {

/// The state of line packing: the finished lines, and the line being filled.
pub struct Lines {
    /// The glyphs of each finished line.
    pub done: Seq<Seq<Glyph>>,
    /// The width of each finished line.
    pub widths: Seq<u32>,
    /// The number of units on each finished line.
    pub counts: Seq<int>,
    /// The glyphs on the line being filled.
    pub line: Seq<Glyph>,
    /// The number of units on the line being filled.
    pub units: int,
    /// The width taken on the line being filled.
    pub x: u32,
    /// The height of the line being filled.
    pub h: u32,
    /// The top of the line being filled.
    pub y: u32,
    /// The width of the widest finished line.
    pub width: u32,
    /// Where each inline box was put.
    pub spots: Seq<LogicalPoint>,
}

pub open spec fn no_lines() -> Lines {
    Lines {
        done: Seq::empty(),
        widths: Seq::empty(),
        counts: Seq::empty(),
        line: Seq::empty(),
        units: 0,
        x: 0,
        h: 0,
        y: 0,
        width: 0,
        spots: Seq::empty(),
    }
}

/// Ends the line being filled and starts an empty one below it.
pub open spec fn break_line(s: Lines) -> Lines {
    Lines {
        done: s.done.push(s.line),
        widths: s.widths.push(s.x),
        counts: s.counts.push(s.units),
        line: Seq::empty(),
        units: 0,
        x: 0,
        h: 0,
        y: sat_add(s.y, s.h),
        width: max_of(s.width, s.x),
        spots: s.spots,
    }
}

/// Breaks the line if it holds something and a unit of width `w` would
/// carry it past the available width.
pub open spec fn make_room(s: Lines, w: u32, avail: u32) -> Lines {
    if s.units > 0 && s.x + w > avail {
        break_line(s)
    } else {
        s
    }
}

/// The sum of the first `n` advances.
pub open spec fn advance_sum(glyphs: Seq<ShapedGlyph>, n: int) -> u32
    decreases n,
{
    if n <= 0 {
        0
    } else {
        sat_add(advance_sum(glyphs, n - 1), glyphs[n - 1].advance)
    }
}

/// The first `n` glyphs of a word that starts at `x` on the line at `y`.
pub open spec fn placed_glyphs(glyphs: Seq<ShapedGlyph>, x: u32, y: u32, n: int) -> Seq<Glyph>
    decreases n,
{
    if n <= 0 {
        Seq::empty()
    } else {
        placed_glyphs(glyphs, x, y, n - 1).push(
            Glyph {
                index: glyphs[n - 1].index,
                offset: LogicalPoint { x: sat_add(x, advance_sum(glyphs, n - 1)), y },
            },
        )
    }
}

/// Puts one word on the line, after a break if it would not fit.
pub open spec fn push_word(s: Lines, glyphs: Seq<ShapedGlyph>, line_height: u32, avail: u32) -> Lines {
    let w = advance_sum(glyphs, glyphs.len() as int);
    let r = make_room(s, w, avail);
    Lines {
        line: r.line + placed_glyphs(glyphs, r.x, r.y, glyphs.len() as int),
        units: r.units + 1,
        x: sat_add(r.x, w),
        h: max_of(r.h, line_height),
        ..r
    }
}

/// Puts the first `n` words of a text on the lines.
pub open spec fn push_words(s: Lines, words: Seq<ShapedWord>, line_height: u32, avail: u32, n: int) -> Lines
    decreases n,
{
    if n <= 0 {
        s
    } else {
        push_word(push_words(s, words, line_height, avail, n - 1), words[n - 1].glyphs@, line_height, avail)
    }
}

/// Puts one inline box on the line, after a break if it would not fit.
pub open spec fn push_box(s: Lines, b: LayoutTreeNode, avail: u32) -> Lines {
    let r = make_room(s, b.spec_outer_width(), avail);
    Lines {
        spots: r.spots.push(
            LogicalPoint { x: sat_add(r.x, b.margin.left), y: sat_add(r.y, b.margin.top) },
        ),
        units: r.units + 1,
        x: sat_add(r.x, b.spec_outer_width()),
        h: max_of(r.h, b.spec_outer_height()),
        ..r
    }
}

/// Ends the last line, if it holds anything.
pub open spec fn finish_lines(s: Lines) -> Lines {
    if s.units > 0 {
        break_line(s)
    } else {
        s
    }
}

/// The fragments are the given lines, in order, all in one font.
pub open spec fn fragments_are(fragments: Seq<TextFragment>, lines: Seq<Seq<Glyph>>, font: FontRef) -> bool {
    &&& fragments.len() == lines.len()
    &&& forall|i: int|
        0 <= i < fragments.len() ==> (#[trigger] fragments[i]).font == font && fragments[i].glyphs@
            == lines[i]
}

/// The boxes stand at the given places, in order.
pub open spec fn boxes_at(boxes: Seq<LayoutChild>, spots: Seq<LogicalPoint>) -> bool {
    &&& boxes.len() == spots.len()
    &&& forall|i: int| 0 <= i < boxes.len() ==> (#[trigger] boxes[i]).position == spots[i]
}

/// Fills lines of a given width with words and inline boxes.
pub struct LineBuilder {
    pub font: FontRef,
    pub avail: u32,
    pub done: Vec<TextFragment>,
    pub line: Vec<Glyph>,
    pub open: bool,
    pub x: u32,
    pub h: u32,
    pub y: u32,
    pub width: u32,
    pub children: Vec<LayoutChild>,
    pub state: Ghost<Lines>,
}

impl LineBuilder {
    /// The fields hold what the packing state says.
    pub open spec fn wf(&self) -> bool {
        let s = self.state@;
        &&& fragments_are(self.done@, s.done, self.font)
        &&& self.line@ == s.line
        &&& self.open == (s.units > 0)
        &&& s.units >= 0
        &&& self.x == s.x
        &&& self.h == s.h
        &&& self.y == s.y
        &&& self.width == s.width
        &&& boxes_at(self.children@, s.spots)
    }

    pub fn new(font: FontRef, avail: u32) -> (r: LineBuilder)
        ensures
            r.wf(),
            r.state@ == no_lines(),
            r.font == font,
            r.avail == avail,
            r.children@.len() == 0,
    {
        LineBuilder {
            font,
            avail,
            done: Vec::new(),
            line: Vec::new(),
            open: false,
            x: 0,
            h: 0,
            y: 0,
            width: 0,
            children: Vec::new(),
            state: Ghost(no_lines()),
        }
    }

    fn end_line(&mut self)
        requires
            old(self).wf(),
        ensures
            final(self).wf(),
            final(self).state@ == break_line(old(self).state@),
            final(self).font == old(self).font,
            final(self).avail == old(self).avail,
            final(self).children == old(self).children,
    {
        let mut glyphs: Vec<Glyph> = Vec::new();
        std::mem::swap(&mut glyphs, &mut self.line);
        self.done.push(TextFragment { font: self.font, glyphs });
        self.y = add_len(self.y, self.h);
        self.width = max_len(self.width, self.x);
        self.open = false;
        self.x = 0;
        self.h = 0;
        self.state = Ghost(break_line(self.state@));
    }

    fn make_room(&mut self, w: u32)
        requires
            old(self).wf(),
        ensures
            final(self).wf(),
            final(self).state@ == make_room(old(self).state@, w, old(self).avail),
            final(self).font == old(self).font,
            final(self).avail == old(self).avail,
            final(self).children == old(self).children,
    {
        if self.open && (w > self.avail || self.x > self.avail - w) {
            self.end_line();
        }
    }

    /// Puts one word on the lines.
    pub fn push_word(&mut self, word: &ShapedWord, line_height: u32)
        requires
            old(self).wf(),
        ensures
            final(self).wf(),
            final(self).state@ == push_word(old(self).state@, word.glyphs@, line_height, old(self).avail),
            final(self).font == old(self).font,
            final(self).avail == old(self).avail,
            final(self).children == old(self).children,
    {
        let n = word.glyphs.len();
        let mut w: u32 = 0;
        let mut i: usize = 0;
        while i < n
            invariant
                i <= n,
                n == word.glyphs@.len(),
                w == advance_sum(word.glyphs@, i as int),
            decreases n - i,
        {
            w = add_len(w, word.glyphs[i].advance);
            i += 1;
        }
        self.make_room(w);
        let ghost r = self.state@;
        let x = self.x;
        let y = self.y;
        let mut at: u32 = 0;
        i = 0;
        while i < n
            invariant
                i <= n,
                n == word.glyphs@.len(),
                at == advance_sum(word.glyphs@, i as int),
                self.wf(),
                self.x == x,
                self.y == y,
                self.state@ == (Lines { line: r.line + placed_glyphs(word.glyphs@, x, y, i as int), ..r }),
                self.font == old(self).font,
                self.avail == old(self).avail,
                self.children == old(self).children,
            decreases n - i,
        {
            let g = &word.glyphs[i];
            self.line.push(Glyph { index: g.index, offset: LogicalPoint { x: add_len(x, at), y } });
            at = add_len(at, g.advance);
            i += 1;
            proof {
                let before = placed_glyphs(word.glyphs@, x, y, i - 1);
                assert(r.line + before.push(self.line@[self.line@.len() - 1]) =~= (r.line
                    + before).push(self.line@[self.line@.len() - 1]));
                self.state = Ghost(Lines { line: r.line + placed_glyphs(word.glyphs@, x, y, i as int), ..r });
            }
        }
        self.x = add_len(self.x, w);
        self.h = max_len(self.h, line_height);
        self.open = true;
        proof {
            self.state = Ghost(push_word(old(self).state@, word.glyphs@, line_height, old(self).avail));
        }
    }

    /// Puts every word of a text on the lines, in order.
    pub fn push_text(&mut self, text: &ShapedText)
        requires
            old(self).wf(),
        ensures
            final(self).wf(),
            final(self).state@ == push_words(
                old(self).state@,
                text.words@,
                text.line_height,
                old(self).avail,
                text.words@.len() as int,
            ),
            final(self).font == old(self).font,
            final(self).avail == old(self).avail,
            final(self).children == old(self).children,
    {
        let n = text.words.len();
        let mut i: usize = 0;
        while i < n
            invariant
                i <= n,
                n == text.words@.len(),
                self.wf(),
                self.state@ == push_words(old(self).state@, text.words@, text.line_height, self.avail, i as int),
                self.font == old(self).font,
                self.avail == old(self).avail,
                self.children == old(self).children,
            decreases n - i,
        {
            self.push_word(&text.words[i], text.line_height);
            i += 1;
        }
    }

    /// Puts one inline box on the lines.
    pub fn push_box(&mut self, b: LayoutTreeNode)
        requires
            old(self).wf(),
        ensures
            final(self).wf(),
            final(self).state@ == push_box(old(self).state@, b, old(self).avail),
            final(self).font == old(self).font,
            final(self).avail == old(self).avail,
            final(self).children@.len() == old(self).children@.len() + 1,
            *final(self).children@[old(self).children@.len() as int].layout == b,
            forall|k: int|
                0 <= k < old(self).children@.len() ==> final(self).children@[k] == old(self).children@[k],
    {
        let w = b.outer_width();
        let h = b.outer_height();
        self.make_room(w);
        let position = LogicalPoint { x: add_len(self.x, b.margin.left), y: add_len(self.y, b.margin.top) };
        proof {
            self.state = Ghost(push_box(old(self).state@, b, old(self).avail));
        }
        self.children.push(LayoutChild { position, layout: Rc::new(b) });
        self.x = add_len(self.x, w);
        self.h = max_len(self.h, h);
        self.open = true;
    }

    /// Ends the last line and hands out the lines, the boxes and the size
    /// that the lines take together.
    pub fn finish(self) -> (r: (Vec<TextFragment>, Vec<LayoutChild>, LogicalSize))
        requires
            self.wf(),
        ensures
            fragments_are(r.0@, finish_lines(self.state@).done, self.font),
            r.1 == self.children,
            r.2.width == finish_lines(self.state@).width,
            r.2.height == finish_lines(self.state@).y,
    {
        let mut b = self;
        if b.open {
            b.end_line();
        }
        (b.done, b.children, LogicalSize { width: b.width, height: b.y })
    }
}

/// The number of elements among the first `n` children.
pub open spec fn element_count(children: Seq<DynamicNode>, n: int) -> int
    decreases n,
{
    if n <= 0 {
        0
    } else {
        element_count(children, n - 1) + match children[n - 1] {
            DynamicNode::Node(_) => 1int,
            DynamicNode::Text(_) => 0int,
        }
    }
}

/// The lines after the first `n` children: the words of a text one by one,
/// the box of a child element as one unit. `boxes` holds the boxes of the
/// child elements in order.
pub open spec fn inline_lines(children: Seq<DynamicNode>, boxes: Seq<LayoutChild>, avail: u32, n: int) -> Lines
    decreases n,
{
    if n <= 0 {
        no_lines()
    } else {
        let before = inline_lines(children, boxes, avail, n - 1);
        match children[n - 1] {
            DynamicNode::Node(_) => push_box(before, *boxes[element_count(children, n - 1)].layout, avail),
            DynamicNode::Text(t) => push_words(before, t.words@, t.line_height, avail, t.words@.len() as int),
        }
    }
}

/// The lines after some children depend only on the boxes of the child
/// elements among them.
pub proof fn lemma_inline_lines_prefix(
    children: Seq<DynamicNode>,
    a: Seq<LayoutChild>,
    b: Seq<LayoutChild>,
    avail: u32,
    n: int,
)
    requires
        forall|k: int| 0 <= k < element_count(children, n) ==> a[k] == b[k],
    ensures
        inline_lines(children, a, avail, n) == inline_lines(children, b, avail, n),
        0 <= element_count(children, n),
    decreases n,
{
    if n > 0 {
        lemma_element_count_grows(children, n - 1, n);
        lemma_inline_lines_prefix(children, a, b, avail, n - 1);
    }
}

/// The count of elements among the first children never falls as more
/// children are taken.
pub proof fn lemma_element_count_grows(children: Seq<DynamicNode>, m: int, n: int)
    requires
        m <= n,
    ensures
        0 <= element_count(children, m) <= element_count(children, n),
    decreases n - m,
{
    if m < n {
        lemma_element_count_grows(children, m, n - 1);
    } else {
        lemma_element_count_nonnegative(children, m);
    }
}

pub proof fn lemma_element_count_nonnegative(children: Seq<DynamicNode>, n: int)
    ensures
        0 <= element_count(children, n),
    decreases n,
{
    if n > 0 {
        lemma_element_count_nonnegative(children, n - 1);
    }
}

/// Lays out a text as lines in the width of `size`.
pub fn layout_text(text: &ShapedText, parent: u64, text_size: u32, size: LogicalSize, font: FontRef) -> (b:
    LayoutTreeNode)
    ensures
        is_text_layout(*text, parent, text_size, size, font, b),
{
    let mut builder = LineBuilder::new(font, size.width);
    builder.push_text(text);
    let (fragments, children, extent) = builder.finish();
    LayoutTreeNode {
        size: extent,
        margin: LogicalSideOffsets::new_all_same(0),
        render: RenderData::Text { text: LayoutText { fragments, size: text_size }, parent },
        children,
    }
}

/// Lays out an inline element: its texts and child elements flow into lines
/// in the width of `size`.
pub fn layout_inline(node: &Element, values: &ComputedValues, size: LogicalSize, font: FontRef) -> (b:
    LayoutTreeNode)
    requires
        styled(*node),
    ensures
        is_inline_layout(*node, *values, size, font, b),
    decreases *node, 0nat,
{
    let mut builder = LineBuilder::new(font, size.width);
    let n = node.children.len();
    let mut i: usize = 0;
    while i < n
        invariant
            i <= n,
            n == node.children@.len(),
            styled(*node),
            builder.wf(),
            builder.font == font,
            builder.avail == size.width,
            builder.state@ == inline_lines(node.children@, builder.children@, size.width, i as int),
            builder.children@.len() == element_count(node.children@, i as int),
            forall|j: int|
                0 <= j < i ==> match #[trigger] node.children@[j] {
                    DynamicNode::Node(c) => is_layout(
                        c,
                        size,
                        font,
                        *builder.children@[element_count(node.children@, j)].layout,
                    ),
                    DynamicNode::Text(_) => true,
                },
        decreases n - i,
    {
        let ghost before = builder.children@;
        let ghost lines = builder.state@;
        proof {
            lemma_element_count_nonnegative(node.children@, i as int);
        }
        match &node.children[i] {
            DynamicNode::Node(c) => {
                let child = LayoutEngine::run_layout(c, size, font);
                builder.push_box(child);
                proof {
                    lemma_inline_lines_prefix(node.children@, builder.children@, before, size.width, i as int);
                    assert(builder.state@ == push_box(lines, child, size.width));
                    assert(*builder.children@[element_count(node.children@, i as int)].layout == child);
                    assert(builder.state@ == inline_lines(
                        node.children@,
                        builder.children@,
                        size.width,
                        i + 1,
                    ));
                }
            },
            DynamicNode::Text(t) => {
                builder.push_text(t);
                proof {
                    assert(builder.children@ == before);
                    assert(builder.state@ == inline_lines(
                        node.children@,
                        builder.children@,
                        size.width,
                        i + 1,
                    ));
                }
            },
        }
        proof {
            assert forall|j: int| 0 <= j < i + 1 implies match #[trigger] node.children@[j] {
                DynamicNode::Node(c) => is_layout(
                    c,
                    size,
                    font,
                    *builder.children@[element_count(node.children@, j)].layout,
                ),
                DynamicNode::Text(_) => true,
            } by {
                if j < i {
                    lemma_element_count_grows(node.children@, j + 1, i as int);
                    lemma_element_count_nonnegative(node.children@, j);
                    if node.children@[j] is Node {
                        assert(element_count(node.children@, j + 1) == element_count(node.children@, j) + 1);
                        assert(builder.children@[element_count(node.children@, j)] == before[element_count(
                            node.children@,
                            j,
                        )]);
                    }
                }
            }
        }
        i += 1;
    }
    let (fragments, children, extent) = builder.finish();
    LayoutTreeNode {
        size: extent,
        margin: LogicalSideOffsets::new_all_same(0),
        render: RenderData::Text { text: LayoutText { fragments, size: values.text_size }, parent: node.id },
        children,
    }
}

/// Every finished line holds at least one unit and is no wider than the
/// available width unless it holds a single unit; the same goes for the
/// line being filled.
pub open spec fn well_packed(s: Lines, avail: u32) -> bool {
    &&& s.units >= 0
    &&& s.widths.len() == s.done.len()
    &&& s.counts.len() == s.done.len()
    &&& forall|i: int|
        0 <= i < s.done.len() ==> (#[trigger] s.counts[i]) >= 1 && (s.widths[i] <= avail || s.counts[i] == 1)
    &&& (s.x <= avail || s.units <= 1)
}

/// A word keeps the lines well packed.
pub proof fn lemma_push_word_packed(s: Lines, glyphs: Seq<ShapedGlyph>, line_height: u32, avail: u32)
    requires
        well_packed(s, avail),
    ensures
        well_packed(push_word(s, glyphs, line_height, avail), avail),
        push_word(s, glyphs, line_height, avail).units >= 1,
{
}

/// An inline box keeps the lines well packed.
pub proof fn lemma_push_box_packed(s: Lines, boxes: Seq<LayoutChild>, k: int, avail: u32)
    requires
        well_packed(s, avail),
    ensures
        well_packed(push_box(s, *boxes[k].layout, avail), avail),
        push_box(s, *boxes[k].layout, avail).units >= 1,
{
}

/// Ending the last line keeps the lines well packed.
pub proof fn lemma_finish_packed(s: Lines, avail: u32)
    requires
        well_packed(s, avail),
    ensures
        well_packed(finish_lines(s), avail),
{
    let f = finish_lines(s);
    assert forall|i: int| 0 <= i < f.done.len() implies (#[trigger] f.counts[i]) >= 1 && (f.widths[i] <= avail
        || f.counts[i] == 1) by {
        if i < s.done.len() {
            assert(f.widths[i] == s.widths[i]);
            assert(f.counts[i] == s.counts[i]);
        }
    }
}

/// The words of a text keep the lines well packed.
pub proof fn lemma_push_words_packed(s: Lines, words: Seq<ShapedWord>, line_height: u32, avail: u32, n: int)
    requires
        well_packed(s, avail),
        n <= words.len(),
    ensures
        well_packed(push_words(s, words, line_height, avail, n), avail),
    decreases n,
{
    if n > 0 {
        lemma_push_words_packed(s, words, line_height, avail, n - 1);
        lemma_push_word_packed(
            push_words(s, words, line_height, avail, n - 1),
            words[n - 1].glyphs@,
            line_height,
            avail,
        );
    }
}

/// No line of an inline layout is wider than the available width, unless it
/// holds a single word or box that is wider by itself; and no line is empty.
pub proof fn lemma_inline_lines_fit(children: Seq<DynamicNode>, boxes: Seq<LayoutChild>, avail: u32, n: int)
    requires
        n <= children.len(),
    ensures
        well_packed(inline_lines(children, boxes, avail, n), avail),
        well_packed(finish_lines(inline_lines(children, boxes, avail, n)), avail),
    decreases n,
{
    if n > 0 {
        lemma_inline_lines_fit(children, boxes, avail, n - 1);
        let before = inline_lines(children, boxes, avail, n - 1);
        match children[n - 1] {
            DynamicNode::Node(_) => {
                lemma_push_box_packed(before, boxes, element_count(children, n - 1), avail);
            },
            DynamicNode::Text(t) => {
                lemma_push_words_packed(before, t.words@, t.line_height, avail, t.words@.len() as int);
            },
        }
    }
    lemma_finish_packed(inline_lines(children, boxes, avail, n), avail);
}

/// The widths of the first `n` words, added up.
pub open spec fn words_width(words: Seq<ShapedWord>, n: int) -> int
    decreases n,
{
    if n <= 0 {
        0
    } else {
        words_width(words, n - 1) + advance_sum(words[n - 1].glyphs@, words[n - 1].glyphs@.len() as int)
    }
}

/// While the words of a text are still on the first line, that line is as
/// wide as the words together, and from the second word on they fit.
pub proof fn lemma_first_line(words: Seq<ShapedWord>, line_height: u32, avail: u32, n: int)
    requires
        0 <= n <= words.len(),
    ensures
        well_packed(push_words(no_lines(), words, line_height, avail, n), avail),
        0 <= words_width(words, n),
        n >= 1 ==> push_words(no_lines(), words, line_height, avail, n).units >= 1,
        push_words(no_lines(), words, line_height, avail, n).done.len() == 0 ==> {
            let s = push_words(no_lines(), words, line_height, avail, n);
            &&& s.units == n
            &&& s.x == words_width(words, n)
            &&& (n >= 2 ==> words_width(words, n) <= avail)
        },
    decreases n,
{
    if n > 0 {
        lemma_first_line(words, line_height, avail, n - 1);
        lemma_push_word_packed(
            push_words(no_lines(), words, line_height, avail, n - 1),
            words[n - 1].glyphs@,
            line_height,
            avail,
        );
    }
}

/// A text of two or more words that are wider together than the available
/// width takes more than one line, and none of its lines is wider than the
/// available width unless it holds a single word. A single word is never
/// split, however wide.
pub proof fn lemma_text_wraps(text: ShapedText, avail: u32)
    ensures
        well_packed(
            finish_lines(push_words(no_lines(), text.words@, text.line_height, avail, text.words@.len() as int)),
            avail,
        ),
        text.words@.len() >= 2 && words_width(text.words@, text.words@.len() as int) > avail ==> finish_lines(
            push_words(no_lines(), text.words@, text.line_height, avail, text.words@.len() as int),
        ).done.len() >= 2,
        text.words@.len() == 1 ==> finish_lines(
            push_words(no_lines(), text.words@, text.line_height, avail, text.words@.len() as int),
        ).done.len() == 1,
{
    let n = text.words@.len() as int;
    lemma_first_line(text.words@, text.line_height, avail, n);
    lemma_finish_packed(push_words(no_lines(), text.words@, text.line_height, avail, n), avail);
    if n == 1 {
        lemma_first_line(text.words@, text.line_height, avail, 0);
    }
}

/// The box of a text of two or more words that are wider together than the
/// available width shows more than one fragment.
pub proof fn lemma_text_box_wraps(
    text: ShapedText,
    parent: u64,
    text_size: u32,
    avail: LogicalSize,
    font: FontRef,
    b: LayoutTreeNode,
)
    requires
        is_text_layout(text, parent, text_size, avail, font, b),
        text.words@.len() >= 2,
        words_width(text.words@, text.words@.len() as int) > avail.width,
    ensures
        match b.render {
            RenderData::Text { text: shown, parent: _ } => shown.fragments@.len() >= 2,
            RenderData::Node(_) => false,
        },
{
    lemma_text_wraps(text, avail.width);
}

} // verus!
