//! Tables: a header row and one row for each item of the data, each as
//! high as its tallest text.

use vstd::prelude::*;
use crate::columns::{column_widths, column_widths_spec};
use crate::deep_print_schema::{Element, TableColumn, TableProps};
use crate::draw::{opt_text, DrawCallView, DrawList, Paint, PaintView, TextAlign, TextRun};
use crate::interpolate::{array_at, value_text, Interpolator};
use crate::renderer::{DeepPrintRenderer, RenderContext};
use crate::style::{
    align_of, align_spec, color_of, color_spec, length_or, plain_run_spec, stroke_spec,
    DEFAULT_PADDING, DEFAULT_STROKE,
};
use crate::text::texts;
use crate::units::{clamp, half, half_of, larger, sat_add, sat_sub};
use crate::value::Value;

verus! {

/// The measured height of the paragraph with ordinal `k`, zero where no
/// height was supplied for it.
pub open spec fn height_at(heights: Seq<i64>, k: int) -> int {
    if 0 <= k < heights.len() {
        heights[k] as int
    } else {
        0
    }
}

/// Looks up the measured height of the paragraph with ordinal `first + offset`.
pub fn measured(heights: &Vec<i64>, first: usize, offset: usize) -> (h: i64)
    ensures
        h == height_at(heights@, first + offset),
{
    let k: u128 = first as u128 + offset as u128;
    if k < heights.len() as u128 {
        heights[k as usize]
    } else {
        0
    }
}

/// What all rows of a table share: where they start, how wide the columns
/// are and how their texts are aligned, the padding of the cells and the
/// paint of their borders.
pub struct RowFrame {
    pub x: i64,
    pub widths: Vec<i64>,
    pub aligns: Vec<TextAlign>,
    pub padding: i64,
    pub border: Paint,
}

/// A frame as contracts speak of it.
pub struct RowFrameView {
    pub x: i64,
    pub widths: Seq<i64>,
    pub aligns: Seq<TextAlign>,
    pub padding: i64,
    pub border: PaintView,
}

impl View for RowFrame {
    type V = RowFrameView;

    open spec fn view(&self) -> RowFrameView {
        RowFrameView {
            x: self.x,
            widths: self.widths@,
            aligns: self.aligns@,
            padding: self.padding,
            border: self.border@,
        }
    }
}

impl RowFrameView {
    /// Every column has a width and an alignment.
    pub open spec fn wf(self) -> bool {
        self.widths.len() == self.aligns.len()
    }

    /// The padding of both sides of a cell together.
    pub open spec fn padding_twice(self) -> int {
        clamp(self.padding + self.padding)
    }

    /// The left edge of column `k`.
    pub open spec fn left_of(self, k: int) -> int
        decreases k,
    {
        if k <= 0 {
            self.x as int
        } else {
            clamp(self.left_of(k - 1) + self.widths[k - 1])
        }
    }

    /// The width that the text of column `c` is laid out in: the column's
    /// width less the padding on both sides, never less than zero.
    pub open spec fn inner_width(self, c: int) -> int {
        let w = clamp(self.widths[c] - self.padding_twice());
        if w < 0 {
            0
        } else {
            w
        }
    }

    /// The largest measured height among the first `n` cells of the row
    /// whose first paragraph has ordinal `first`; never less than zero.
    pub open spec fn tallest(self, heights: Seq<i64>, first: int, n: int) -> int
        decreases n,
    {
        if n <= 0 {
            0
        } else {
            let t = self.tallest(heights, first, n - 1);
            let h = height_at(heights, first + n - 1);
            if h > t {
                h
            } else {
                t
            }
        }
    }

    /// The height of a row: its tallest text and the padding above and below.
    pub open spec fn row_height(self, heights: Seq<i64>, first: int) -> int {
        clamp(self.tallest(heights, first, self.widths.len() as int) + self.padding_twice())
    }

    /// The calls that draw cell `c` of a row at `y`: its border, if the
    /// border has a width, and its text, padded on the left and centred
    /// between top and bottom.
    pub open spec fn cell_calls(
        self,
        y: i64,
        text: Seq<char>,
        heights: Seq<i64>,
        first: int,
        c: int,
    ) -> Seq<DrawCallView> {
        let x = self.left_of(c);
        let h = self.row_height(heights, first);
        let border = if self.border.stroke_width > 0 {
            seq![
                DrawCallView::Rect {
                    x: x as i64,
                    y,
                    w: self.widths[c],
                    h: h as i64,
                    paint: self.border,
                },
            ]
        } else {
            Seq::empty()
        };
        border.push(
            DrawCallView::Paragraph {
                run: plain_run_spec(text, self.inner_width(c) as i64, self.aligns[c]),
                x: clamp(x + self.padding) as i64,
                y: clamp(y + half_of(clamp(h - height_at(heights, first + c)))) as i64,
                clip_width: None,
            },
        )
    }

    /// The calls that draw the first `k` cells of a row.
    pub open spec fn row_calls(
        self,
        y: i64,
        cells: Seq<Seq<char>>,
        heights: Seq<i64>,
        first: int,
        k: int,
    ) -> Seq<DrawCallView>
        decreases k,
    {
        if k <= 0 {
            Seq::empty()
        } else {
            self.row_calls(y, cells, heights, first, k - 1) + self.cell_calls(
                y,
                cells[k - 1],
                heights,
                first,
                k - 1,
            )
        }
    }
}

impl RowFrame {
    /// Draws one row at `y` and returns its height. `cells` holds the text
    /// of each cell; the height of the text of cell `c` is the one measured
    /// for the paragraph that this call draws for it.
    pub fn draw_row(
        &self,
        canvas: &mut DrawList,
        y: i64,
        cells: &Vec<String>,
        heights: &Vec<i64>,
    ) -> (height: i64)
        requires
            old(canvas).wf(),
            self@.wf(),
            cells.len() == self.widths.len(),
        ensures
            final(canvas).wf(),
            final(canvas)@ == old(canvas)@ + self@.row_calls(
                y,
                texts(cells@),
                heights@,
                old(canvas).paragraphs as int,
                cells.len() as int,
            ),
            final(canvas).paragraphs == old(canvas).paragraphs + cells.len(),
            height == self@.row_height(heights@, old(canvas).paragraphs as int),
    {
        let n = self.widths.len();
        let first = canvas.paragraphs;
        let twice = sat_add(self.padding, self.padding);
        let mut tallest: i64 = 0;
        let mut c: usize = 0;
        while c < n
            invariant
                c <= n,
                n == self.widths.len(),
                tallest == self@.tallest(heights@, first as int, c as int),
            decreases n - c,
        {
            tallest = larger(measured(heights, first, c), tallest);
            c += 1;
        }
        let height = sat_add(tallest, twice);
        let mut x = self.x;
        c = 0;
        assert(canvas@ =~= old(canvas)@ + Seq::<DrawCallView>::empty());
        while c < n
            invariant
                c <= n,
                n == self.widths.len(),
                n == self.aligns.len(),
                n == cells.len(),
                first == old(canvas).paragraphs,
                twice == self@.padding_twice(),
                height == self@.row_height(heights@, first as int),
                x == self@.left_of(c as int),
                canvas.wf(),
                canvas.paragraphs == first + c,
                canvas@ == old(canvas)@ + self@.row_calls(
                    y,
                    texts(cells@),
                    heights@,
                    first as int,
                    c as int,
                ),
            decreases n - c,
        {
            let ghost before = canvas@;
            let w = self.widths[c];
            if self.border.stroke_width > 0 {
                canvas.draw_rect(x, y, w, height, self.border.duplicate());
            }
            let inner = larger(sat_sub(w, twice), 0);
            let text_h = measured(heights, first, c);
            let run = TextRun::plain(cells[c].as_str(), inner, self.aligns[c]);
            canvas.draw_paragraph(
                run,
                sat_add(x, self.padding),
                sat_add(y, half(sat_sub(height, text_h))),
                None,
            );
            assert(canvas@ =~= before + self@.cell_calls(
                y,
                texts(cells@)[c as int],
                heights@,
                first as int,
                c as int,
            ));
            assert(canvas@ =~= old(canvas)@ + self@.row_calls(
                y,
                texts(cells@),
                heights@,
                first as int,
                c + 1,
            ));
            x = sat_add(x, w);
            c += 1;
        }
        height
    }
}

/// What the rows of the table `props` in the box `base` share.
pub open spec fn table_frame(base: Element, props: TableProps) -> RowFrameView {
    RowFrameView {
        x: base.x,
        widths: column_widths_spec(props.columns@, base.w as int),
        aligns: Seq::new(
            props.columns@.len(),
            |i: int| align_spec(opt_text(props.columns@[i].text_align)),
        ),
        padding: length_or(props.cell_padding, DEFAULT_PADDING),
        border: stroke_spec(
            length_or(props.border_width, DEFAULT_STROKE),
            color_spec(opt_text(props.border_color)),
            Seq::empty(),
        ),
    }
}

/// Whether the table has a header row: it has unless `show_head` says otherwise.
pub open spec fn shows_head(props: TableProps) -> bool {
    match props.show_head {
        Some(v) => v == 1,
        None => true,
    }
}

/// The titles of the columns.
pub open spec fn header_cells(cols: Seq<TableColumn>) -> Seq<Seq<char>> {
    Seq::new(cols.len(), |i: int| cols[i].title@)
}

/// The texts of the cells of a row: for each column, the text under the
/// column's field in the row.
pub open spec fn row_cells(row: Value, cols: Seq<TableColumn>) -> Seq<Seq<char>> {
    Seq::new(cols.len(), |i: int| value_text(row, cols[i].field@))
}

/// The rows of a table: the array that its data expression names, and no
/// rows where it names none.
pub open spec fn table_rows(data: Value, props: TableProps) -> Seq<Value> {
    match array_at(data, props.data@) {
        Some(items) => items@,
        None => Seq::empty(),
    }
}

/// The calls that draw the header row, if the table has one.
pub open spec fn head_calls(
    base: Element,
    props: TableProps,
    start_y: i64,
    heights: Seq<i64>,
    first: int,
) -> Seq<DrawCallView> {
    if shows_head(props) {
        table_frame(base, props).row_calls(
            start_y,
            header_cells(props.columns@),
            heights,
            first,
            props.columns@.len() as int,
        )
    } else {
        Seq::empty()
    }
}

/// The top of the first data row.
pub open spec fn body_top(
    base: Element,
    props: TableProps,
    start_y: i64,
    heights: Seq<i64>,
    first: int,
) -> int {
    if shows_head(props) {
        clamp(start_y + table_frame(base, props).row_height(heights, first))
    } else {
        start_y as int
    }
}

/// The ordinal of the first paragraph of data row `r`.
pub open spec fn row_first(props: TableProps, first: int, r: int) -> int {
    first + (if shows_head(props) {
        props.columns@.len() as int
    } else {
        0
    }) + r * props.columns@.len()
}

/// The bottom of the first `r` data rows.
pub open spec fn body_bottom(
    base: Element,
    props: TableProps,
    start_y: i64,
    rows: Seq<Value>,
    heights: Seq<i64>,
    first: int,
    r: int,
) -> int
    decreases r,
{
    if r <= 0 {
        body_top(base, props, start_y, heights, first)
    } else {
        clamp(
            body_bottom(base, props, start_y, rows, heights, first, r - 1) + table_frame(
                base,
                props,
            ).row_height(heights, row_first(props, first, r - 1)),
        )
    }
}

/// The calls that draw the first `r` data rows, each below the one before.
pub open spec fn body_calls(
    base: Element,
    props: TableProps,
    start_y: i64,
    rows: Seq<Value>,
    heights: Seq<i64>,
    first: int,
    r: int,
) -> Seq<DrawCallView>
    decreases r,
{
    if r <= 0 {
        Seq::empty()
    } else {
        body_calls(base, props, start_y, rows, heights, first, r - 1) + table_frame(
            base,
            props,
        ).row_calls(
            body_bottom(base, props, start_y, rows, heights, first, r - 1) as i64,
            row_cells(rows[r - 1], props.columns@),
            heights,
            row_first(props, first, r - 1),
            props.columns@.len() as int,
        )
    }
}

/// The calls that draw a table with its top at `start_y`: the header row,
/// then one row for each item of the data. `first` is the ordinal of the
/// table's first paragraph.
pub open spec fn table_calls(
    base: Element,
    props: TableProps,
    start_y: i64,
    data: Value,
    heights: Seq<i64>,
    first: int,
) -> Seq<DrawCallView> {
    let rows = table_rows(data, props);
    head_calls(base, props, start_y, heights, first) + body_calls(
        base,
        props,
        start_y,
        rows,
        heights,
        first,
        rows.len() as int,
    )
}

/// The height of a table: from its top to the bottom of its last row.
pub open spec fn table_height(
    base: Element,
    props: TableProps,
    start_y: i64,
    data: Value,
    heights: Seq<i64>,
    first: int,
) -> int {
    let rows = table_rows(data, props);
    clamp(body_bottom(base, props, start_y, rows, heights, first, rows.len() as int) - start_y)
}

impl DeepPrintRenderer {
    /// What the rows of a table share.
    pub fn frame_of(&self, base: &Element, props: &TableProps) -> (frame: RowFrame)
        ensures
            frame@ == table_frame(*base, *props),
            frame@.wf(),
            frame.widths@.len() == props.columns@.len(),
    {
        let widths = column_widths(&props.columns, base.w);
        let mut aligns: Vec<TextAlign> = Vec::new();
        let mut i: usize = 0;
        while i < props.columns.len()
            invariant
                i <= props.columns.len(),
                aligns@.len() == i,
                forall|j: int|
                    0 <= j < i ==> #[trigger] aligns@[j] == align_spec(
                        opt_text(props.columns@[j].text_align),
                    ),
            decreases props.columns.len() - i,
        {
            aligns.push(align_of(&props.columns[i].text_align));
            i += 1;
        }
        let padding = match props.cell_padding {
            Some(p) => p,
            None => DEFAULT_PADDING,
        };
        let border_width = match props.border_width {
            Some(w) => w,
            None => DEFAULT_STROKE,
        };
        let border = Paint::stroke(border_width, color_of(&props.border_color), Vec::new());
        let frame = RowFrame { x: base.x, widths, aligns, padding, border };
        assert(frame@.aligns =~= table_frame(*base, *props).aligns);
        frame
    }

    /// The titles of the columns.
    pub fn header_texts(&self, columns: &Vec<TableColumn>) -> (cells: Vec<String>)
        ensures
            texts(cells@) == header_cells(columns@),
            cells@.len() == columns@.len(),
    {
        let mut cells: Vec<String> = Vec::new();
        let mut i: usize = 0;
        while i < columns.len()
            invariant
                i <= columns.len(),
                cells@.len() == i,
                forall|j: int| 0 <= j < i ==> #[trigger] cells@[j]@ == columns@[j].title@,
            decreases columns.len() - i,
        {
            cells.push(columns[i].title.clone());
            i += 1;
        }
        assert(texts(cells@) =~= header_cells(columns@));
        cells
    }

    /// The texts of the cells of one row.
    pub fn row_texts(&self, row: &Value, columns: &Vec<TableColumn>) -> (cells: Vec<String>)
        ensures
            texts(cells@) == row_cells(*row, columns@),
            cells@.len() == columns@.len(),
    {
        let mut cells: Vec<String> = Vec::new();
        let mut i: usize = 0;
        while i < columns.len()
            invariant
                i <= columns.len(),
                cells@.len() == i,
                forall|j: int|
                    0 <= j < i ==> #[trigger] cells@[j]@ == value_text(*row, columns@[j].field@),
            decreases columns.len() - i,
        {
            cells.push(Interpolator::get_value_from_obj(row, columns[i].field.as_str()));
            i += 1;
        }
        assert(texts(cells@) =~= row_cells(*row, columns@));
        cells
    }

    /// Draws a table with its top at `start_y` and returns its height: the
    /// header row, unless it is switched off, then one row for each item of
    /// the array that the table's data expression names. Every row is as
    /// high as its tallest text and the padding above and below it.
    pub fn draw_table(
        &self,
        canvas: &mut DrawList,
        base: &Element,
        props: &TableProps,
        start_y: i64,
        ctx: &RenderContext,
    ) -> (height: i64)
        requires
            old(canvas).wf(),
        ensures
            final(canvas).wf(),
            final(canvas)@ == old(canvas)@ + table_calls(
                *base,
                *props,
                start_y,
                *ctx.data,
                ctx.heights@,
                old(canvas).paragraphs as int,
            ),
            height == table_height(
                *base,
                *props,
                start_y,
                *ctx.data,
                ctx.heights@,
                old(canvas).paragraphs as int,
            ),
    {
        let ghost first = old(canvas).paragraphs as int;
        let ghost hs = ctx.heights@;
        let frame = self.frame_of(base, props);
        let none: Vec<Value> = Vec::new();
        let found = Interpolator::get_array_by_path(ctx.data, props.data.as_str());
        let rows: &Vec<Value> = match found {
            Some(items) => items,
            None => &none,
        };
        assert(rows@ == table_rows(*ctx.data, *props));
        let mut current_y = start_y;
        let head = match props.show_head {
            Some(v) => v == 1,
            None => true,
        };
        if head {
            let titles = self.header_texts(&props.columns);
            let h = frame.draw_row(canvas, current_y, &titles, ctx.heights);
            current_y = sat_add(current_y, h);
        }
        assert(canvas@ =~= old(canvas)@ + head_calls(*base, *props, start_y, hs, first));
        let n = rows.len();
        let mut r: usize = 0;
        let ghost head_part = head_calls(*base, *props, start_y, hs, first);
        assert(canvas@ =~= old(canvas)@ + head_part + body_calls(
            *base,
            *props,
            start_y,
            rows@,
            hs,
            first,
            0,
        ));
        while r < n
            invariant
                r <= n,
                n == rows.len(),
                first == old(canvas).paragraphs,
                hs == ctx.heights@,
                frame@ == table_frame(*base, *props),
                frame@.wf(),
                frame.widths@.len() == props.columns@.len(),
                canvas.wf(),
                canvas.paragraphs == row_first(*props, first, r as int),
                current_y == body_bottom(*base, *props, start_y, rows@, hs, first, r as int),
                canvas@ == old(canvas)@ + head_calls(*base, *props, start_y, hs, first)
                    + body_calls(*base, *props, start_y, rows@, hs, first, r as int),
            decreases n - r,
        {
            let ghost before = canvas@;
            let cells = self.row_texts(&rows[r], &props.columns);
            let h = frame.draw_row(canvas, current_y, &cells, ctx.heights);
            assert(canvas@ =~= old(canvas)@ + head_calls(*base, *props, start_y, hs, first)
                + body_calls(*base, *props, start_y, rows@, hs, first, r + 1));
            assert(row_first(*props, first, r + 1) == row_first(*props, first, r as int)
                + props.columns@.len()) by (nonlinear_arith)
                requires
                    row_first(*props, first, r + 1) == first + (if shows_head(*props) {
                        props.columns@.len() as int
                    } else {
                        0
                    }) + (r + 1) * props.columns@.len(),
                    row_first(*props, first, r as int) == first + (if shows_head(*props) {
                        props.columns@.len() as int
                    } else {
                        0
                    }) + r * props.columns@.len(),
            ;
            current_y = sat_add(current_y, h);
            r += 1;
        }
        sat_sub(current_y, start_y)
    }
}

} // verus!
