//! Defaults and the reading of style attributes.

use vstd::prelude::*;
use crate::color::{parse_color, parse_color_spec, Color};
use crate::deep_print_schema::FontWeight;
use crate::draw::{opt_text, Paint, PaintStyle, PaintView, TextAlign, TextRun, TextRunView};
use crate::text::{chars_of, same_text};

verus! {

/// One millimetre: the default width of strokes and borders.
pub const DEFAULT_STROKE: i64 = 2830;

/// The default padding of a table cell.
pub const DEFAULT_PADDING: i64 = 5000;

/// The default font size of a text.
pub const DEFAULT_FONT_SIZE: i64 = 12000;

/// The font size of table cells and captions.
pub const SMALL_FONT_SIZE: i64 = 10000;

/// The default line height, a factor in thousandths.
pub const DEFAULT_LINE_HEIGHT: i64 = 1200;

/// The font size below which a text is not shrunk.
pub const SHRINK_FLOOR: i64 = 6000;

/// The weight of normal text.
pub const WEIGHT_NORMAL: u16 = 400;

/// The weight of bold text.
pub const WEIGHT_BOLD: u16 = 700;

/// The value of an optional length, or `default` where there is none.
pub open spec fn length_or(v: Option<i64>, default: i64) -> i64 {
    match v {
        Some(x) => x,
        None => default,
    }
}

/// The alignment that an attribute names: "center", "right", and left for
/// everything else.
pub open spec fn align_spec(name: Option<Seq<char>>) -> TextAlign {
    match name {
        Some(s) => if s == "center"@ {
            TextAlign::Center
        } else if s == "right"@ {
            TextAlign::Right
        } else {
            TextAlign::Left
        },
        None => TextAlign::Left,
    }
}

/// Reads an alignment attribute.
pub fn align_of(name: &Option<String>) -> (a: TextAlign)
    ensures
        a == align_spec(opt_text(*name)),
{
    match name {
        Some(s) => if same_text(s.as_str(), "center") {
            TextAlign::Center
        } else if same_text(s.as_str(), "right") {
            TextAlign::Right
        } else {
            TextAlign::Left
        },
        None => TextAlign::Left,
    }
}

/// Whether `s` is the word "bold", in any mix of cases.
pub open spec fn is_bold_word(s: Seq<char>) -> bool {
    &&& s.len() == 4
    &&& (s[0] == 'b' || s[0] == 'B')
    &&& (s[1] == 'o' || s[1] == 'O')
    &&& (s[2] == 'l' || s[2] == 'L')
    &&& (s[3] == 'd' || s[3] == 'D')
}

/// The weight on the backend's axis: a number as it is, "bold" as 700, every
/// other name and no weight at all as 400.
pub open spec fn weight_spec(w: Option<FontWeight>) -> u16 {
    match w {
        Some(FontWeight::Number(n)) => n,
        Some(FontWeight::String(s)) => if is_bold_word(s@) {
            WEIGHT_BOLD
        } else {
            WEIGHT_NORMAL
        },
        None => WEIGHT_NORMAL,
    }
}

/// Reads a font weight.
pub fn weight_of(w: &Option<FontWeight>) -> (r: u16)
    ensures
        r == weight_spec(*w),
{
    match w {
        Some(FontWeight::Number(n)) => *n,
        Some(FontWeight::String(s)) => {
            let cs = chars_of(s.as_str());
            if cs.len() == 4 && (cs[0] == 'b' || cs[0] == 'B') && (cs[1] == 'o' || cs[1] == 'O')
                && (cs[2] == 'l' || cs[2] == 'L') && (cs[3] == 'd' || cs[3] == 'D') {
                WEIGHT_BOLD
            } else {
                WEIGHT_NORMAL
            }
        },
        None => WEIGHT_NORMAL,
    }
}

/// The colour that an attribute names, black where there is none.
pub open spec fn color_spec(name: Option<Seq<char>>) -> Color {
    match name {
        Some(s) => parse_color_spec(s),
        None => Color::black(),
    }
}

/// Reads a colour attribute.
pub fn color_of(name: &Option<String>) -> (c: Color)
    ensures
        c == color_spec(opt_text(*name)),
{
    match name {
        Some(s) => parse_color(s.as_str()),
        None => Color::black(),
    }
}

/// The dash pattern of an attribute, empty where there is none.
pub open spec fn dash_spec(dash: Option<Vec<i64>>) -> Seq<i64> {
    match dash {
        Some(d) => d@,
        None => Seq::empty(),
    }
}

/// A copy of a list of lengths.
pub fn copy_lengths(v: &Vec<i64>) -> (r: Vec<i64>)
    ensures
        r@ == v@,
{
    let mut out: Vec<i64> = Vec::new();
    let mut i: usize = 0;
    while i < v.len()
        invariant
            i <= v.len(),
            out@ == v@.take(i as int),
        decreases v.len() - i,
    {
        out.push(v[i]);
        assert(v@.take(i + 1) =~= v@.take(i as int).push(v@[i as int]));
        i += 1;
    }
    assert(v@.take(i as int) =~= v@);
    out
}

/// Reads a dash attribute.
pub fn dash_of(dash: &Option<Vec<i64>>) -> (r: Vec<i64>)
    ensures
        r@ == dash_spec(*dash),
{
    match dash {
        Some(d) => copy_lengths(d),
        None => Vec::new(),
    }
}

/// An outline of the given width and colour.
pub open spec fn stroke_spec(width: i64, color: Color, dash: Seq<i64>) -> PaintView {
    PaintView { style: PaintStyle::Stroke, stroke_width: width, color, anti_alias: false, dash }
}

/// A solid filling of the given colour.
pub open spec fn fill_spec(color: Color) -> PaintView {
    PaintView {
        style: PaintStyle::Fill,
        stroke_width: 0,
        color,
        anti_alias: false,
        dash: Seq::empty(),
    }
}

impl Paint {
    /// An outline of the given width and colour.
    pub fn stroke(width: i64, color: Color, dash: Vec<i64>) -> (p: Paint)
        ensures
            p@ == stroke_spec(width, color, dash@),
    {
        Paint { style: PaintStyle::Stroke, stroke_width: width, color, anti_alias: false, dash }
    }

    /// A solid filling of the given colour.
    pub fn fill(color: Color) -> (p: Paint)
        ensures
            p@ == fill_spec(color),
    {
        Paint {
            style: PaintStyle::Fill,
            stroke_width: 0,
            color,
            anti_alias: false,
            dash: Vec::new(),
        }
    }

    /// A copy of this paint.
    pub fn duplicate(&self) -> (p: Paint)
        ensures
            p@ == self@,
    {
        Paint {
            style: self.style,
            stroke_width: self.stroke_width,
            color: self.color,
            anti_alias: self.anti_alias,
            dash: copy_lengths(&self.dash),
        }
    }
}

/// The run of a table cell or a caption: small black text of normal weight.
pub open spec fn plain_run_spec(text: Seq<char>, width: i64, align: TextAlign) -> TextRunView {
    TextRunView {
        text,
        font_size: SMALL_FONT_SIZE,
        color: Color::black(),
        font_family: None,
        weight: WEIGHT_NORMAL,
        line_height: DEFAULT_LINE_HEIGHT,
        underline: false,
        align,
        width: Some(width),
        shrink_to: None,
    }
}

/// The font sizes that shrinking tries, in turn: `size`, then half of it,
/// and so on as long as the half is not below the floor.
pub open spec fn halvings(size: int) -> Seq<i64>
    decreases size,
{
    if size <= 0 || size / 2 < SHRINK_FLOOR {
        seq![size as i64]
    } else {
        seq![size as i64] + halvings(size / 2)
    }
}

/// The position of the first of `heights`, from `from` on, that is no more
/// than `limit`; the last position where none is, and zero for no heights
/// at all.
pub open spec fn first_fit_spec(heights: Seq<i64>, limit: i64, from: int) -> int
    decreases heights.len() - from,
{
    if from < 0 || from >= heights.len() {
        if heights.len() == 0 {
            0
        } else {
            heights.len() - 1
        }
    } else if heights[from] <= limit {
        from
    } else {
        first_fit_spec(heights, limit, from + 1)
    }
}

/// Picks among the heights that a text has at the sizes that shrinking
/// tries: the first that fits under `limit`, and the last, at the smallest
/// size, where none fits.
pub fn first_fit(heights: &Vec<i64>, limit: i64) -> (k: usize)
    ensures
        k == first_fit_spec(heights@, limit, 0),
        heights@.len() > 0 ==> k < heights@.len(),
{
    let mut k: usize = 0;
    while k < heights.len()
        invariant
            k <= heights.len(),
            first_fit_spec(heights@, limit, 0) == first_fit_spec(heights@, limit, k as int),
        decreases heights.len() - k,
    {
        if heights[k] <= limit {
            return k;
        }
        k += 1;
    }
    if heights.len() == 0 {
        0
    } else {
        heights.len() - 1
    }
}

impl TextRun {
    /// The font sizes to try for a run that is to be shrunk until it fits:
    /// its own size, then half of it, and so on down to the floor.
    pub fn shrink_sizes(&self) -> (sizes: Vec<i64>)
        ensures
            sizes@ == halvings(self.font_size as int),
    {
        let mut sizes: Vec<i64> = Vec::new();
        let mut size = self.font_size;
        sizes.push(size);
        assert(sizes@ =~= Seq::<i64>::empty() + seq![size]);
        while size > 0 && size / 2 >= SHRINK_FLOOR
            invariant
                sizes@.len() > 0,
                sizes@.drop_last() + halvings(size as int) == halvings(self.font_size as int),
                sizes@.last() == size,
            decreases size,
        {
            let ghost before = sizes@;
            size = size / 2;
            sizes.push(size);
            assert(sizes@.drop_last() =~= before);
            assert(before =~= before.drop_last() + seq![before.last()]);
            assert(sizes@.drop_last() + halvings(size as int) =~= before.drop_last() + (seq![
                before.last(),
            ] + halvings(size as int)));
        }
        assert(sizes@ =~= sizes@.drop_last() + seq![size]);
        sizes
    }

    /// A copy of this run.
    pub fn duplicate(&self) -> (run: TextRun)
        ensures
            run@ == self@,
    {
        TextRun {
            text: self.text.clone(),
            font_size: self.font_size,
            color: self.color,
            font_family: match &self.font_family {
                Some(f) => Some(f.clone()),
                None => None,
            },
            weight: self.weight,
            line_height: self.line_height,
            underline: self.underline,
            align: self.align,
            width: self.width,
            shrink_to: self.shrink_to,
        }
    }

    /// The run of a table cell or a caption.
    pub fn plain(text: &str, width: i64, align: TextAlign) -> (run: TextRun)
        ensures
            run@ == plain_run_spec(text@, width, align),
    {
        TextRun {
            text: String::from_str(text),
            font_size: SMALL_FONT_SIZE,
            color: Color::black(),
            font_family: None,
            weight: WEIGHT_NORMAL,
            line_height: DEFAULT_LINE_HEIGHT,
            underline: false,
            align,
            width: Some(width),
            shrink_to: None,
        }
    }
}

} // verus!
