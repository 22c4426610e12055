//! A fixed label: a title, three lines of text, a QR code and a frame.

use vstd::prelude::*;
use crate::color::Color;
use crate::draw::{DrawCallView, DrawList, Paint, PaintStyle, PaintView};
use crate::elements::qr_size;
use crate::qr::{encode_symbol, qr_symbol, symbol_calls, CorrectionLevel};
use crate::units::{clamp, mm_to_pt, mm_to_pt_spec, sat_sub};

verus! {

/// The width of the label where none is given, in thousandths of a millimetre.
pub const DEFAULT_WIDTH_MM: i64 = 100000;

/// The height of the label where none is given, in thousandths of a millimetre.
pub const DEFAULT_HEIGHT_MM: i64 = 60000;

/// The distance of the content from the edges of the label.
pub const MARGIN: i64 = 10000;

/// A length that is given, or the default.
pub open spec fn mm_or(v: Option<i64>, default: i64) -> i64 {
    match v {
        Some(x) => x,
        None => default,
    }
}

/// The paint of the label's texts: black, smoothed.
pub open spec fn ink() -> PaintView {
    PaintView {
        style: PaintStyle::Fill,
        stroke_width: 0,
        color: Color::black(),
        anti_alias: true,
        dash: Seq::empty(),
    }
}

/// The paint of the label's frame: a black outline two points wide, smoothed.
pub open spec fn frame_ink() -> PaintView {
    PaintView {
        style: PaintStyle::Stroke,
        stroke_width: 2000,
        color: Color::black(),
        anti_alias: true,
        dash: Seq::empty(),
    }
}

/// The calls that draw the QR code of `text` in a square of side `size` at
/// `(x, y)`; none where `text` cannot be encoded.
pub open spec fn qr_code_calls(text: Seq<char>, x: i64, y: i64, size: i64) -> Seq<DrawCallView> {
    match qr_symbol(text, CorrectionLevel::M) {
        Some((side, dark)) => symbol_calls(x, y, size, side, dark),
        None => Seq::empty(),
    }
}

/// The width and the height of the page, in points.
pub open spec fn page_size(width_mm: Option<i64>, height_mm: Option<i64>) -> (i64, i64) {
    (
        mm_to_pt_spec(mm_or(width_mm, DEFAULT_WIDTH_MM) as int) as i64,
        mm_to_pt_spec(mm_or(height_mm, DEFAULT_HEIGHT_MM) as int) as i64,
    )
}

/// The side of the label's QR code: the height of the page less the margin
/// above and below.
pub open spec fn label_qr_size(page_height: i64) -> i64 {
    clamp(page_height - 2 * MARGIN) as i64
}

/// The calls that draw the texts of the label.
pub open spec fn label_texts(text: Seq<char>) -> Seq<DrawCallView> {
    seq![
        DrawCallView::Label {
            text: "Asset Tag"@,
            x: MARGIN,
            y: 30000,
            font_size: 18000,
            paint: ink(),
        },
        DrawCallView::Label {
            text: "ID: "@ + text,
            x: MARGIN,
            y: 60000,
            font_size: 12000,
            paint: ink(),
        },
        DrawCallView::Label {
            text: "Date: 2025-12-17"@,
            x: MARGIN,
            y: 76000,
            font_size: 12000,
            paint: ink(),
        },
        DrawCallView::Label {
            text: "Dept: Engineering"@,
            x: MARGIN,
            y: 92000,
            font_size: 12000,
            paint: ink(),
        },
    ]
}

/// The calls that draw the label on a page of the given size: the texts on
/// the left, the QR code of `text` on the right, and the frame.
pub open spec fn label_calls(text: Seq<char>, page: (i64, i64)) -> Seq<DrawCallView> {
    let size = label_qr_size(page.1);
    label_texts(text) + qr_code_calls(
        text,
        clamp(clamp(page.0 - size) - MARGIN) as i64,
        MARGIN,
        size,
    ) + seq![
        DrawCallView::Rect {
            x: 2000,
            y: 2000,
            w: clamp(page.0 - 4000) as i64,
            h: clamp(page.1 - 4000) as i64,
            paint: frame_ink(),
        },
    ]
}

fn text_ink() -> (p: Paint)
    ensures
        p@ == ink(),
{
    Paint {
        style: PaintStyle::Fill,
        stroke_width: 0,
        color: Color::black(),
        anti_alias: true,
        dash: Vec::new(),
    }
}

/// Draws the label.
pub struct Engine;

impl Engine {
    pub fn new() -> (e: Self) {
        Engine
    }

    /// Millimetres to points, both in thousandths.
    pub fn mm_to_pt(mm: i64) -> (pt: i64)
        ensures
            pt == mm_to_pt_spec(mm as int),
    {
        mm_to_pt(mm)
    }

    /// Draws the QR code of `text`, at medium error correction, in a square
    /// of side `size` with its top left corner at `(x, y)`. A text that
    /// cannot be encoded draws nothing.
    pub fn draw_qr_code(&self, canvas: &mut DrawList, text: &str, x: i64, y: i64, size: i64)
        requires
            old(canvas).wf(),
        ensures
            final(canvas).wf(),
            final(canvas).paragraphs == old(canvas).paragraphs,
            final(canvas)@ == old(canvas)@ + qr_code_calls(text@, x, y, size),
    {
        match encode_symbol(text, CorrectionLevel::M) {
            Some(symbol) => {
                symbol.draw(canvas, x, y, size);
            },
            None => {
                assert(canvas@ =~= old(canvas)@ + Seq::<DrawCallView>::empty());
            },
        }
    }

    /// Draws the label for `text` on a page of the given size, 100 by 60
    /// millimetres where none is given, and returns the size of the page in
    /// points.
    pub fn draw_label(
        &self,
        canvas: &mut DrawList,
        text: &str,
        width_mm: Option<i64>,
        height_mm: Option<i64>,
    ) -> (page: (i64, i64))
        requires
            old(canvas).wf(),
        ensures
            final(canvas).wf(),
            page == page_size(width_mm, height_mm),
            final(canvas)@ == old(canvas)@ + label_calls(text@, page),
    {
        let page_width = Self::mm_to_pt(
            match width_mm {
                Some(w) => w,
                None => DEFAULT_WIDTH_MM,
            },
        );
        let page_height = Self::mm_to_pt(
            match height_mm {
                Some(h) => h,
                None => DEFAULT_HEIGHT_MM,
            },
        );
        let qr_size = sat_sub(page_height, 2 * MARGIN);
        canvas.draw_label(String::from_str("Asset Tag"), MARGIN, 30000, 18000, text_ink());
        let mut id_line = String::from_str("ID: ");
        id_line.append(text);
        canvas.draw_label(id_line, MARGIN, 60000, 12000, text_ink());
        canvas.draw_label(String::from_str("Date: 2025-12-17"), MARGIN, 76000, 12000, text_ink());
        canvas.draw_label(String::from_str("Dept: Engineering"), MARGIN, 92000, 12000, text_ink());
        assert(canvas@ =~= old(canvas)@ + label_texts(text@));
        let qr_x = sat_sub(sat_sub(page_width, qr_size), MARGIN);
        self.draw_qr_code(canvas, text, qr_x, MARGIN, qr_size);
        let frame = Paint {
            style: PaintStyle::Stroke,
            stroke_width: 2000,
            color: Color::black(),
            anti_alias: true,
            dash: Vec::new(),
        };
        canvas.draw_rect(
            2000,
            2000,
            sat_sub(page_width, 4000),
            sat_sub(page_height, 4000),
            frame,
        );
        assert(canvas@ =~= old(canvas)@ + label_calls(text@, (page_width, page_height)));
        (page_width, page_height)
    }
}

} // verus!
