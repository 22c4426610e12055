//! The drawing routines of texts, shapes and codes.

use vstd::prelude::*;
use crate::color::{parse_color, parse_color_spec, Color};
use crate::deep_print_schema::{
    BarcodeProps, Element, EllipseProps, GlobalStyles, ImageProps, LineProps, QrcodeProps,
    RectProps, TextProps,
};
use crate::draw::{
    opt_text, DrawCallView, DrawList, Paint, PaintView, TextAlign, TextRun, TextRunView,
};
use crate::interpolate::{render_spec, Interpolator};
use crate::qr::{encode_symbol, level_of, level_spec, qr_symbol, symbol_calls};
use crate::renderer::{DeepPrintRenderer, RenderContext};
use crate::style::{
    align_of, align_spec, color_of, color_spec, dash_of, dash_spec, fill_spec, length_or,
    plain_run_spec, stroke_spec, weight_of, weight_spec, DEFAULT_FONT_SIZE, DEFAULT_LINE_HEIGHT,
    DEFAULT_STROKE,
};
use crate::table::{height_at, measured};
use crate::text::same_text;
use crate::units::{clamp, half, half_of, sat_add, sat_sub};
use crate::value::Value;

verus! {

/// Whether the height of a text follows its content: it does unless the
/// attribute says otherwise.
pub open spec fn auto_height(props: TextProps) -> bool {
    match props.auto_height {
        Some(b) => b,
        None => true,
    }
}

/// The font size of a text: its own, else the template's, else 12 points.
pub open spec fn font_size_spec(props: TextProps, styles: Option<GlobalStyles>) -> i64 {
    match props.font_size {
        Some(s) => s,
        None => match styles {
            Some(g) => length_or(g.font_size, DEFAULT_FONT_SIZE),
            None => DEFAULT_FONT_SIZE,
        },
    }
}

/// The colour of a text: its own, else the template's, else black.
pub open spec fn font_color_spec(props: TextProps, styles: Option<GlobalStyles>) -> Color {
    match props.font_color {
        Some(c) => parse_color_spec(c@),
        None => match styles {
            Some(g) => color_spec(opt_text(g.font_color)),
            None => Color::black(),
        },
    }
}

/// The font family of a text: its own, else the template's, else none.
pub open spec fn font_family_spec(props: TextProps, styles: Option<GlobalStyles>) -> Option<
    Seq<char>,
> {
    match props.font_family {
        Some(f) => Some(f@),
        None => match styles {
            Some(g) => opt_text(g.font_family),
            None => None,
        },
    }
}

/// Whether the text stays on one line.
pub open spec fn single_line(props: TextProps) -> bool {
    props.line_break == Some(0u8)
}

/// The paragraph of a text element with the content `content`.
pub open spec fn text_run(
    base: Element,
    props: TextProps,
    content: Seq<char>,
    styles: Option<GlobalStyles>,
) -> TextRunView {
    TextRunView {
        text: content,
        font_size: font_size_spec(props, styles),
        color: font_color_spec(props, styles),
        font_family: font_family_spec(props, styles),
        weight: weight_spec(props.font_weight),
        line_height: length_or(props.line_height, DEFAULT_LINE_HEIGHT),
        underline: opt_text(props.text_decoration) == Some("underline"@),
        align: align_spec(opt_text(props.text_align)),
        width: if single_line(props) {
            None
        } else {
            Some(base.w)
        },
        shrink_to: if props.auto_shrink == Some(1u8) {
            Some(base.h)
        } else {
            None
        },
    }
}

/// Where a text of height `text_height` is painted in a box with its top at
/// `y`: within the box by its vertical alignment where the box has a fixed
/// height and is higher than the text, at the top of the box otherwise.
pub open spec fn text_top(base: Element, props: TextProps, y: i64, text_height: int) -> int {
    if !auto_height(props) && base.h > text_height {
        if opt_text(props.vertical_align) == Some("middle"@) {
            clamp(y + half_of(clamp(base.h - text_height)))
        } else if opt_text(props.vertical_align) == Some("bottom"@) {
            clamp(y + clamp(base.h - text_height))
        } else {
            y as int
        }
    } else {
        y as int
    }
}

/// The calls that draw a text element: none for an empty text whose height
/// follows its content, one paragraph otherwise.
pub open spec fn text_calls(
    base: Element,
    props: TextProps,
    y: i64,
    data: Value,
    styles: Option<GlobalStyles>,
    heights: Seq<i64>,
    first: int,
) -> Seq<DrawCallView> {
    let content = render_spec(props.content@, data);
    if content.len() == 0 && auto_height(props) {
        Seq::empty()
    } else {
        seq![
            DrawCallView::Paragraph {
                run: text_run(base, props, content, styles),
                x: base.x,
                y: text_top(base, props, y, height_at(heights, first)) as i64,
                clip_width: if single_line(props) {
                    Some(base.w)
                } else {
                    None
                },
            },
        ]
    }
}

/// The height of a text element: the measured height of its paragraph where
/// the height follows the content (zero for an empty text), the height of
/// its box otherwise.
pub open spec fn text_height(
    base: Element,
    props: TextProps,
    data: Value,
    heights: Seq<i64>,
    first: int,
) -> int {
    if auto_height(props) {
        if render_spec(props.content@, data).len() == 0 {
            0
        } else {
            height_at(heights, first)
        }
    } else {
        base.h as int
    }
}

/// The right edge of a box.
pub open spec fn right_of(base: Element) -> i64 {
    clamp(base.x + base.w) as i64
}

/// The bottom edge of a box with its top at `y`.
pub open spec fn bottom_of(base: Element, y: i64) -> i64 {
    clamp(y + base.h) as i64
}

/// The outline that the stroke attributes describe.
pub open spec fn outline_spec(
    width: Option<i64>,
    color: Option<String>,
    dash: Option<Vec<i64>>,
) -> PaintView {
    stroke_spec(length_or(width, DEFAULT_STROKE), color_spec(opt_text(color)), dash_spec(dash))
}

/// The call that draws a line: a stroke from the top left corner of the box
/// to its far corner.
pub open spec fn line_calls(base: Element, props: LineProps, y: i64) -> Seq<DrawCallView> {
    seq![
        DrawCallView::Line {
            x1: base.x,
            y1: y,
            x2: right_of(base),
            y2: bottom_of(base, y),
            paint: outline_spec(props.stroke_width, props.stroke_color, props.dash_array),
        },
    ]
}

/// Whether a rectangle is filled: it is where a fill colour is given and
/// not empty.
pub open spec fn is_filled(props: RectProps) -> bool {
    match props.fill_color {
        Some(c) => c@.len() > 0,
        None => false,
    }
}

/// The calls that draw a rectangle: the filling, if it has one, then the
/// outline, if the stroke has a width.
pub open spec fn rect_calls(base: Element, props: RectProps, y: i64) -> Seq<DrawCallView> {
    let fill = if is_filled(props) {
        seq![
            DrawCallView::Rect {
                x: base.x,
                y,
                w: base.w,
                h: base.h,
                paint: fill_spec(color_spec(opt_text(props.fill_color))),
            },
        ]
    } else {
        Seq::empty()
    };
    if length_or(props.stroke_width, DEFAULT_STROKE) > 0 {
        fill.push(
            DrawCallView::Rect {
                x: base.x,
                y,
                w: base.w,
                h: base.h,
                paint: outline_spec(props.stroke_width, props.stroke_color, props.dash_array),
            },
        )
    } else {
        fill
    }
}

/// The call that draws an ellipse: the outline of the oval inscribed in the box.
pub open spec fn ellipse_calls(base: Element, props: EllipseProps, y: i64) -> Seq<DrawCallView> {
    seq![
        DrawCallView::Oval {
            x: base.x,
            y,
            w: base.w,
            h: base.h,
            paint: outline_spec(props.stroke_width, props.stroke_color, props.dash_array),
        },
    ]
}

/// The side of the square that a QR code is drawn in: the size attribute,
/// else the smaller side of the box.
pub open spec fn qr_size(base: Element, props: QrcodeProps) -> i64 {
    match props.size {
        Some(s) => s,
        None => if base.w <= base.h {
            base.w
        } else {
            base.h
        },
    }
}

/// The calls that draw a QR code: the dark modules of the symbol that
/// encodes the interpolated value, and nothing where the value is empty or
/// cannot be encoded.
pub open spec fn qrcode_calls(base: Element, props: QrcodeProps, y: i64, data: Value) -> Seq<
    DrawCallView,
> {
    let content = render_spec(props.value@, data);
    if content.len() == 0 {
        Seq::empty()
    } else {
        match qr_symbol(content, level_spec(opt_text(props.correction_level))) {
            Some((side, dark)) => symbol_calls(base.x, y, qr_size(base, props), side, dark),
            None => Seq::empty(),
        }
    }
}

/// The caption of a barcode.
pub open spec fn barcode_caption(value: Seq<char>) -> Seq<char> {
    "[Barcode: "@ + value + "]"@
}

/// The calls that stand for a barcode: the outline of its box and a caption
/// centred between top and bottom.
pub open spec fn barcode_calls(
    base: Element,
    props: BarcodeProps,
    y: i64,
    data: Value,
    heights: Seq<i64>,
    first: int,
) -> Seq<DrawCallView> {
    seq![
        DrawCallView::Rect {
            x: base.x,
            y,
            w: base.w,
            h: base.h,
            paint: stroke_spec(0, Color::black(), Seq::empty()),
        },
        DrawCallView::Paragraph {
            run: plain_run_spec(
                barcode_caption(render_spec(props.value@, data)),
                base.w,
                TextAlign::Left,
            ),
            x: base.x,
            y: clamp(y + half_of(clamp(base.h - height_at(heights, first)))) as i64,
            clip_width: None,
        },
    ]
}

/// The calls that stand for an image: a light grey box crossed by two red
/// diagonals.
pub open spec fn image_calls(base: Element, y: i64) -> Seq<DrawCallView> {
    let cross = stroke_spec(1000, Color::red(), Seq::empty());
    seq![
        DrawCallView::Rect {
            x: base.x,
            y,
            w: base.w,
            h: base.h,
            paint: fill_spec(Color::light_gray()),
        },
        DrawCallView::Line {
            x1: base.x,
            y1: y,
            x2: right_of(base),
            y2: bottom_of(base, y),
            paint: cross,
        },
        DrawCallView::Line {
            x1: right_of(base),
            y1: y,
            x2: base.x,
            y2: bottom_of(base, y),
            paint: cross,
        },
    ]
}

fn copy_text(s: &Option<String>) -> (r: Option<String>)
    ensures
        opt_text(r) == opt_text(*s),
{
    match s {
        Some(t) => Some(t.clone()),
        None => None,
    }
}

fn outline(width: &Option<i64>, color: &Option<String>, dash: &Option<Vec<i64>>) -> (p: Paint)
    ensures
        p@ == outline_spec(*width, *color, *dash),
{
    let w = match width {
        Some(v) => *v,
        None => DEFAULT_STROKE,
    };
    Paint::stroke(w, color_of(color), dash_of(dash))
}

impl DeepPrintRenderer {
    /// The paragraph of a text element.
    pub fn run_of_text(
        &self,
        base: &Element,
        props: &TextProps,
        content: String,
        styles: &Option<GlobalStyles>,
    ) -> (run: TextRun)
        ensures
            run@ == text_run(*base, *props, content@, *styles),
    {
        let font_size = match props.font_size {
            Some(s) => s,
            None => match styles {
                Some(g) => match g.font_size {
                    Some(s) => s,
                    None => DEFAULT_FONT_SIZE,
                },
                None => DEFAULT_FONT_SIZE,
            },
        };
        let color = match &props.font_color {
            Some(c) => parse_color(c.as_str()),
            None => match styles {
                Some(g) => color_of(&g.font_color),
                None => Color::black(),
            },
        };
        let font_family = match &props.font_family {
            Some(f) => Some(f.clone()),
            None => match styles {
                Some(g) => copy_text(&g.font_family),
                None => None,
            },
        };
        let underline = match &props.text_decoration {
            Some(d) => same_text(d.as_str(), "underline"),
            None => false,
        };
        let one_line = match props.line_break {
            Some(v) => v == 0,
            None => false,
        };
        let shrink = match props.auto_shrink {
            Some(v) => v == 1,
            None => false,
        };
        TextRun {
            text: content,
            font_size,
            color,
            font_family,
            weight: weight_of(&props.font_weight),
            line_height: match props.line_height {
                Some(h) => h,
                None => DEFAULT_LINE_HEIGHT,
            },
            underline,
            align: align_of(&props.text_align),
            width: if one_line {
                None
            } else {
                Some(base.w)
            },
            shrink_to: if shrink {
                Some(base.h)
            } else {
                None
            },
        }
    }

    /// Draws a text with the top of its box at `y` and returns its height.
    /// The content is interpolated first; an empty text whose height follows
    /// its content draws nothing and has no height.
    pub fn draw_text(
        &self,
        canvas: &mut DrawList,
        base: &Element,
        props: &TextProps,
        y: i64,
        ctx: &RenderContext,
    ) -> (height: i64)
        requires
            old(canvas).wf(),
        ensures
            final(canvas).wf(),
            final(canvas)@ == old(canvas)@ + text_calls(
                *base,
                *props,
                y,
                *ctx.data,
                *ctx.global_styles,
                ctx.heights@,
                old(canvas).paragraphs as int,
            ),
            height == text_height(
                *base,
                *props,
                *ctx.data,
                ctx.heights@,
                old(canvas).paragraphs as int,
            ),
    {
        let content = Interpolator::render(props.content.as_str(), ctx.data);
        let auto = match props.auto_height {
            Some(b) => b,
            None => true,
        };
        if content.as_str().is_empty() && auto {
            assert(canvas@ =~= old(canvas)@ + Seq::<DrawCallView>::empty());
            return 0;
        }
        let measured_height = measured(ctx.heights, canvas.paragraphs, 0);
        let run = self.run_of_text(base, props, content, ctx.global_styles);
        let draw_y = if !auto && base.h > measured_height {
            let spare = sat_sub(base.h, measured_height);
            match &props.vertical_align {
                Some(v) => if same_text(v.as_str(), "middle") {
                    sat_add(y, half(spare))
                } else if same_text(v.as_str(), "bottom") {
                    sat_add(y, spare)
                } else {
                    y
                },
                None => y,
            }
        } else {
            y
        };
        let one_line = match props.line_break {
            Some(v) => v == 0,
            None => false,
        };
        let clip = if one_line {
            Some(base.w)
        } else {
            None
        };
        canvas.draw_paragraph(run, base.x, draw_y, clip);
        assert(canvas@ =~= old(canvas)@ + text_calls(
            *base,
            *props,
            y,
            *ctx.data,
            *ctx.global_styles,
            ctx.heights@,
            old(canvas).paragraphs as int,
        ));
        if auto {
            measured_height
        } else {
            base.h
        }
    }

    /// Draws a line from the top left corner of the box, at `y`, to its far
    /// corner, and returns the height of the box.
    pub fn draw_line(
        &self,
        canvas: &mut DrawList,
        base: &Element,
        props: &LineProps,
        y: i64,
        _ctx: &RenderContext,
    ) -> (height: i64)
        requires
            old(canvas).wf(),
        ensures
            final(canvas).wf(),
            final(canvas)@ == old(canvas)@ + line_calls(*base, *props, y),
            height == base.h,
    {
        let paint = outline(&props.stroke_width, &props.stroke_color, &props.dash_array);
        canvas.draw_line(base.x, y, sat_add(base.x, base.w), sat_add(y, base.h), paint);
        assert(canvas@ =~= old(canvas)@ + line_calls(*base, *props, y));
        base.h
    }

    /// Draws a rectangle with its top at `y` and returns the height of the box.
    pub fn draw_rect(
        &self,
        canvas: &mut DrawList,
        base: &Element,
        props: &RectProps,
        y: i64,
        _ctx: &RenderContext,
    ) -> (height: i64)
        requires
            old(canvas).wf(),
        ensures
            final(canvas).wf(),
            final(canvas)@ == old(canvas)@ + rect_calls(*base, *props, y),
            height == base.h,
    {
        match &props.fill_color {
            Some(fill) => {
                if !fill.as_str().is_empty() {
                    canvas.draw_rect(
                        base.x,
                        y,
                        base.w,
                        base.h,
                        Paint::fill(parse_color(fill.as_str())),
                    );
                }
            },
            None => {},
        }
        let stroke_w = match props.stroke_width {
            Some(w) => w,
            None => DEFAULT_STROKE,
        };
        if stroke_w > 0 {
            let paint = outline(&props.stroke_width, &props.stroke_color, &props.dash_array);
            canvas.draw_rect(base.x, y, base.w, base.h, paint);
        }
        assert(canvas@ =~= old(canvas)@ + rect_calls(*base, *props, y));
        base.h
    }

    /// Draws the oval inscribed in the box with its top at `y` and returns
    /// the height of the box.
    pub fn draw_ellipse(
        &self,
        canvas: &mut DrawList,
        base: &Element,
        props: &EllipseProps,
        y: i64,
        _ctx: &RenderContext,
    ) -> (height: i64)
        requires
            old(canvas).wf(),
        ensures
            final(canvas).wf(),
            final(canvas)@ == old(canvas)@ + ellipse_calls(*base, *props, y),
            height == base.h,
    {
        let paint = outline(&props.stroke_width, &props.stroke_color, &props.dash_array);
        canvas.draw_oval(base.x, y, base.w, base.h, paint);
        assert(canvas@ =~= old(canvas)@ + ellipse_calls(*base, *props, y));
        base.h
    }

    /// Draws a QR code with its top at `y` and returns the height of the
    /// box. A value that is empty or cannot be encoded draws nothing.
    pub fn draw_qrcode(
        &self,
        canvas: &mut DrawList,
        base: &Element,
        props: &QrcodeProps,
        y: i64,
        ctx: &RenderContext,
    ) -> (height: i64)
        requires
            old(canvas).wf(),
        ensures
            final(canvas).wf(),
            final(canvas).paragraphs == old(canvas).paragraphs,
            final(canvas)@ == old(canvas)@ + qrcode_calls(*base, *props, y, *ctx.data),
            height == base.h,
    {
        let content = Interpolator::render(props.value.as_str(), ctx.data);
        assert(canvas@ =~= old(canvas)@ + Seq::<DrawCallView>::empty());
        if content.as_str().is_empty() {
            return base.h;
        }
        let level = level_of(&props.correction_level);
        match encode_symbol(content.as_str(), level) {
            Some(symbol) => {
                let size = match props.size {
                    Some(s) => s,
                    None => if base.w <= base.h {
                        base.w
                    } else {
                        base.h
                    },
                };
                symbol.draw(canvas, base.x, y, size);
            },
            None => {},
        }
        base.h
    }

    /// Draws what stands for a barcode, with its top at `y`, and returns the
    /// height of the box.
    pub fn draw_barcode(
        &self,
        canvas: &mut DrawList,
        base: &Element,
        props: &BarcodeProps,
        y: i64,
        ctx: &RenderContext,
    ) -> (height: i64)
        requires
            old(canvas).wf(),
        ensures
            final(canvas).wf(),
            final(canvas)@ == old(canvas)@ + barcode_calls(
                *base,
                *props,
                y,
                *ctx.data,
                ctx.heights@,
                old(canvas).paragraphs as int,
            ),
            height == base.h,
    {
        let content = Interpolator::render(props.value.as_str(), ctx.data);
        let caption_height = measured(ctx.heights, canvas.paragraphs, 0);
        canvas.draw_rect(base.x, y, base.w, base.h, Paint::stroke(0, Color::black(), Vec::new()));
        let mut caption = String::from_str("[Barcode: ");
        caption.append(content.as_str());
        caption.append("]");
        let run = TextRun::plain(caption.as_str(), base.w, TextAlign::Left);
        canvas.draw_paragraph(
            run,
            base.x,
            sat_add(y, half(sat_sub(base.h, caption_height))),
            None,
        );
        assert(canvas@ =~= old(canvas)@ + barcode_calls(
            *base,
            *props,
            y,
            *ctx.data,
            ctx.heights@,
            old(canvas).paragraphs as int,
        ));
        base.h
    }

    /// Draws what stands for an image, with its top at `y`, and returns the
    /// height of the box.
    pub fn draw_image_placeholder(
        &self,
        canvas: &mut DrawList,
        base: &Element,
        _props: &ImageProps,
        y: i64,
        _ctx: &RenderContext,
    ) -> (height: i64)
        requires
            old(canvas).wf(),
        ensures
            final(canvas).wf(),
            final(canvas)@ == old(canvas)@ + image_calls(*base, y),
            height == base.h,
    {
        let right = sat_add(base.x, base.w);
        let bottom = sat_add(y, base.h);
        canvas.draw_rect(base.x, y, base.w, base.h, Paint::fill(Color::light_gray()));
        canvas.draw_line(base.x, y, right, bottom, Paint::stroke(1000, Color::red(), Vec::new()));
        canvas.draw_line(right, y, base.x, bottom, Paint::stroke(1000, Color::red(), Vec::new()));
        assert(canvas@ =~= old(canvas)@ + image_calls(*base, y));
        base.h
    }
}

} // verus!
