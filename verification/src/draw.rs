//! The drawing calls that rendering produces, and the list that records them.

use vstd::prelude::*;
use crate::color::Color;

verus! {

/// Whether a shape is filled or outlined.
#[derive(Clone, Copy, Debug, PartialEq, Eq, Structural)]
pub enum PaintStyle {
    Fill,
    Stroke,
}

/// Horizontal placement of the lines of a paragraph.
#[derive(Clone, Copy, Debug, PartialEq, Eq, Structural)]
pub enum TextAlign {
    Left,
    Center,
    Right,
}

/// How a shape is painted. An empty `dash` is a solid line; otherwise it
/// holds the lengths of the strokes and gaps in turn.
#[derive(Clone, Debug, PartialEq, Eq)]
pub struct Paint {
    pub style: PaintStyle,
    pub stroke_width: i64,
    pub color: Color,
    pub anti_alias: bool,
    pub dash: Vec<i64>,
}

/// A paint as contracts speak of it.
pub struct PaintView {
    pub style: PaintStyle,
    pub stroke_width: i64,
    pub color: Color,
    pub anti_alias: bool,
    pub dash: Seq<i64>,
}

impl View for Paint {
    type V = PaintView;

    open spec fn view(&self) -> PaintView {
        PaintView {
            style: self.style,
            stroke_width: self.stroke_width,
            color: self.color,
            anti_alias: self.anti_alias,
            dash: self.dash@,
        }
    }
}

/// A text with all that the paragraph backend needs to lay it out: the width
/// to wrap at (`None` for a single line of any length), the font and the
/// alignment.
#[derive(Clone, Debug, PartialEq, Eq)]
pub struct TextRun {
    pub text: String,
    pub font_size: i64,
    pub color: Color,
    pub font_family: Option<String>,
    pub weight: u16,
    pub line_height: i64,
    pub underline: bool,
    pub align: TextAlign,
    pub width: Option<i64>,
    pub shrink_to: Option<i64>,
}

/// A run as contracts speak of it.
pub struct TextRunView {
    pub text: Seq<char>,
    pub font_size: i64,
    pub color: Color,
    pub font_family: Option<Seq<char>>,
    pub weight: u16,
    pub line_height: i64,
    pub underline: bool,
    pub align: TextAlign,
    pub width: Option<i64>,
    pub shrink_to: Option<i64>,
}

/// The text of an optional string.
pub open spec fn opt_text(s: Option<String>) -> Option<Seq<char>> {
    match s {
        Some(t) => Some(t@),
        None => None,
    }
}

impl View for TextRun {
    type V = TextRunView;

    open spec fn view(&self) -> TextRunView {
        TextRunView {
            text: self.text@,
            font_size: self.font_size,
            color: self.color,
            font_family: opt_text(self.font_family),
            weight: self.weight,
            line_height: self.line_height,
            underline: self.underline,
            align: self.align,
            width: self.width,
            shrink_to: self.shrink_to,
        }
    }
}

/// One call on the drawing surface.
#[derive(Clone, Debug, PartialEq, Eq)]
pub enum DrawCall {
    /// A rectangle with its top left corner at `(x, y)`.
    Rect { x: i64, y: i64, w: i64, h: i64, paint: Paint },
    /// The oval inscribed in the rectangle at `(x, y)`.
    Oval { x: i64, y: i64, w: i64, h: i64, paint: Paint },
    /// A straight line between two points.
    Line { x1: i64, y1: i64, x2: i64, y2: i64, paint: Paint },
    /// A paragraph with its top left corner at `(x, y)`, cut off at
    /// `clip_width` where one is given.
    Paragraph { run: TextRun, x: i64, y: i64, clip_width: Option<i64> },
    /// One line of text with the start of its baseline at `(x, y)`.
    Label { text: String, x: i64, y: i64, font_size: i64, paint: Paint },
}

/// A call as contracts speak of it.
pub enum DrawCallView {
    Rect { x: i64, y: i64, w: i64, h: i64, paint: PaintView },
    Oval { x: i64, y: i64, w: i64, h: i64, paint: PaintView },
    Line { x1: i64, y1: i64, x2: i64, y2: i64, paint: PaintView },
    Paragraph { run: TextRunView, x: i64, y: i64, clip_width: Option<i64> },
    Label { text: Seq<char>, x: i64, y: i64, font_size: i64, paint: PaintView },
}

impl View for DrawCall {
    type V = DrawCallView;

    open spec fn view(&self) -> DrawCallView {
        match *self {
            DrawCall::Rect { x, y, w, h, paint } => DrawCallView::Rect {
                x,
                y,
                w,
                h,
                paint: paint@,
            },
            DrawCall::Oval { x, y, w, h, paint } => DrawCallView::Oval {
                x,
                y,
                w,
                h,
                paint: paint@,
            },
            DrawCall::Line { x1, y1, x2, y2, paint } => DrawCallView::Line {
                x1,
                y1,
                x2,
                y2,
                paint: paint@,
            },
            DrawCall::Paragraph { run, x, y, clip_width } => DrawCallView::Paragraph {
                run: run@,
                x,
                y,
                clip_width,
            },
            DrawCall::Label { text, x, y, font_size, paint } => DrawCallView::Label {
                text: text@,
                x,
                y,
                font_size,
                paint: paint@,
            },
        }
    }
}

/// The number of paragraphs among `calls`.
pub open spec fn paragraph_count(calls: Seq<DrawCallView>) -> nat
    decreases calls.len(),
{
    if calls.len() == 0 {
        0
    } else {
        paragraph_count(calls.drop_last()) + if calls.last() is Paragraph {
            1nat
        } else {
            0nat
        }
    }
}

/// The runs of the paragraphs among `calls`, in order.
pub open spec fn paragraph_runs(calls: Seq<DrawCallView>) -> Seq<TextRunView>
    decreases calls.len(),
{
    if calls.len() == 0 {
        Seq::empty()
    } else {
        match calls.last() {
            DrawCallView::Paragraph { run, .. } => paragraph_runs(calls.drop_last()).push(run),
            _ => paragraph_runs(calls.drop_last()),
        }
    }
}

/// The runs of two lists of calls, one after the other, are the runs of the
/// first followed by those of the second.
pub proof fn lemma_runs_concat(a: Seq<DrawCallView>, b: Seq<DrawCallView>)
    ensures
        paragraph_runs(a + b) == paragraph_runs(a) + paragraph_runs(b),
    decreases b.len(),
{
    if b.len() == 0 {
        assert(a + b =~= a);
        assert(paragraph_runs(a) + paragraph_runs(b) =~= paragraph_runs(a));
    } else {
        assert((a + b).drop_last() =~= a + b.drop_last());
        assert((a + b).last() == b.last());
        lemma_runs_concat(a, b.drop_last());
        match b.last() {
            DrawCallView::Paragraph { run, .. } => {
                assert(paragraph_runs(a + b) =~= paragraph_runs(a) + paragraph_runs(b));
            },
            _ => {},
        }
    }
}

/// A call that is no paragraph adds no run; a paragraph adds its run.
pub proof fn lemma_runs_push(a: Seq<DrawCallView>, call: DrawCallView)
    ensures
        paragraph_runs(a.push(call)) == match call {
            DrawCallView::Paragraph { run, .. } => paragraph_runs(a).push(run),
            _ => paragraph_runs(a),
        },
{
    assert(a.push(call).drop_last() =~= a);
    assert(a.push(call).last() == call);
}

/// The views of a list of runs.
pub open spec fn run_views(runs: Seq<TextRun>) -> Seq<TextRunView> {
    Seq::new(runs.len(), |i: int| runs[i]@)
}

/// The paragraph count of a list is never more than its length.
pub proof fn lemma_paragraph_count_bound(calls: Seq<DrawCallView>)
    ensures
        paragraph_count(calls) <= calls.len(),
    decreases calls.len(),
{
    if calls.len() > 0 {
        lemma_paragraph_count_bound(calls.drop_last());
    }
}

/// The drawing surface of the library: it records every call made on it, in
/// order, and counts the paragraphs among them.
pub struct DrawList {
    pub calls: Vec<DrawCall>,
    pub paragraphs: usize,
}

impl View for DrawList {
    type V = Seq<DrawCallView>;

    open spec fn view(&self) -> Seq<DrawCallView> {
        Seq::new(self.calls@.len(), |i: int| self.calls@[i]@)
    }
}

impl DrawList {
    /// The paragraph counter agrees with the recorded calls.
    pub open spec fn wf(&self) -> bool {
        self.paragraphs == paragraph_count(self@)
    }

    /// An empty list.
    pub fn new() -> (list: DrawList)
        ensures
            list@ == Seq::<DrawCallView>::empty(),
            list.paragraphs == 0,
            list.wf(),
    {
        let list = DrawList { calls: Vec::new(), paragraphs: 0 };
        assert(list@ =~= Seq::<DrawCallView>::empty());
        list
    }

    /// The runs of the recorded paragraphs, in order: the run with ordinal `k`
    /// is the one whose measured height rendering looks up at position `k`.
    pub fn runs(&self) -> (runs: Vec<TextRun>)
        ensures
            run_views(runs@) == paragraph_runs(self@),
    {
        let mut runs: Vec<TextRun> = Vec::new();
        let mut i: usize = 0;
        assert(self@.take(0) =~= Seq::<DrawCallView>::empty());
        assert(run_views(runs@) =~= paragraph_runs(self@.take(0)));
        while i < self.calls.len()
            invariant
                i <= self.calls.len(),
                run_views(runs@) == paragraph_runs(self@.take(i as int)),
            decreases self.calls.len() - i,
        {
            let ghost before = runs@;
            assert(self@.take(i + 1).drop_last() =~= self@.take(i as int));
            assert(self@.take(i + 1).last() == self.calls@[i as int]@);
            match &self.calls[i] {
                DrawCall::Paragraph { run, .. } => {
                    runs.push(run.duplicate());
                    assert(run_views(runs@) =~= run_views(before).push(run@));
                },
                _ => {},
            }
            i += 1;
        }
        assert(self@.take(i as int) =~= self@);
        runs
    }

    /// Records a rectangle.
    pub fn draw_rect(&mut self, x: i64, y: i64, w: i64, h: i64, paint: Paint)
        requires
            old(self).wf(),
        ensures
            final(self)@ == old(self)@.push(DrawCallView::Rect { x, y, w, h, paint: paint@ }),
            final(self).paragraphs == old(self).paragraphs,
            final(self).wf(),
    {
        self.calls.push(DrawCall::Rect { x, y, w, h, paint });
        assert(self@ =~= old(self)@.push(DrawCallView::Rect { x, y, w, h, paint: paint@ }));
        assert(self@.drop_last() =~= old(self)@);
    }

    /// Records an oval.
    pub fn draw_oval(&mut self, x: i64, y: i64, w: i64, h: i64, paint: Paint)
        requires
            old(self).wf(),
        ensures
            final(self)@ == old(self)@.push(DrawCallView::Oval { x, y, w, h, paint: paint@ }),
            final(self).paragraphs == old(self).paragraphs,
            final(self).wf(),
    {
        self.calls.push(DrawCall::Oval { x, y, w, h, paint });
        assert(self@ =~= old(self)@.push(DrawCallView::Oval { x, y, w, h, paint: paint@ }));
        assert(self@.drop_last() =~= old(self)@);
    }

    /// Records a line.
    pub fn draw_line(&mut self, x1: i64, y1: i64, x2: i64, y2: i64, paint: Paint)
        requires
            old(self).wf(),
        ensures
            final(self)@ == old(self)@.push(DrawCallView::Line { x1, y1, x2, y2, paint: paint@ }),
            final(self).paragraphs == old(self).paragraphs,
            final(self).wf(),
    {
        self.calls.push(DrawCall::Line { x1, y1, x2, y2, paint });
        assert(self@ =~= old(self)@.push(DrawCallView::Line { x1, y1, x2, y2, paint: paint@ }));
        assert(self@.drop_last() =~= old(self)@);
    }

    /// Records one line of text.
    pub fn draw_label(&mut self, text: String, x: i64, y: i64, font_size: i64, paint: Paint)
        requires
            old(self).wf(),
        ensures
            final(self)@ == old(self)@.push(
                DrawCallView::Label { text: text@, x, y, font_size, paint: paint@ },
            ),
            final(self).paragraphs == old(self).paragraphs,
            final(self).wf(),
    {
        self.calls.push(DrawCall::Label { text, x, y, font_size, paint });
        assert(self@ =~= old(self)@.push(
            DrawCallView::Label { text: text@, x, y, font_size, paint: paint@ },
        ));
        assert(self@.drop_last() =~= old(self)@);
    }

    /// Records a paragraph.
    pub fn draw_paragraph(&mut self, run: TextRun, x: i64, y: i64, clip_width: Option<i64>)
        requires
            old(self).wf(),
        ensures
            final(self)@ == old(self)@.push(
                DrawCallView::Paragraph { run: run@, x, y, clip_width },
            ),
            final(self).paragraphs == old(self).paragraphs + 1,
            final(self).wf(),
    {
        proof {
            lemma_paragraph_count_bound(self@);
        }
        self.calls.push(DrawCall::Paragraph { run, x, y, clip_width });
        let recorded = self.calls.len();
        assert(old(self).paragraphs < recorded);
        self.paragraphs = self.paragraphs + 1;
        assert(self@ =~= old(self)@.push(DrawCallView::Paragraph { run: run@, x, y, clip_width }));
        assert(self@.drop_last() =~= old(self)@);
    }
}

} // verus!
