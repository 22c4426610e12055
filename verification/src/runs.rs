//! Which paragraphs a rendering draws: they are the same whatever heights
//! were measured, so that a first rendering can tell what to measure.

use vstd::prelude::*;
use crate::deep_print_schema::{DeepPrintTemplate, Element, ElementData, GlobalStyles, TableProps};
use crate::draw::{
    lemma_runs_concat, lemma_runs_push, opt_text, paragraph_count, paragraph_runs, DrawCallView,
    TextAlign, TextRunView,
};
use crate::elements::{auto_height, barcode_caption, qr_size, text_run};
use crate::graph::drawing_order;
use crate::interpolate::render_spec;
use crate::layout::anchor_links;
use crate::qr::{lemma_symbol_has_no_runs, level_spec, qr_symbol};
use crate::renderer::{element_calls, progress, rendered, top_of};
use crate::style::plain_run_spec;
use crate::table::{
    body_bottom, body_calls, head_calls, header_cells, row_cells, row_first, shows_head,
    table_frame, table_rows, RowFrameView,
};
use crate::value::Value;

verus! {

impl RowFrameView {
    /// The runs of the first `k` cells of a row.
    pub open spec fn row_runs(self, cells: Seq<Seq<char>>, k: int) -> Seq<TextRunView>
        decreases k,
    {
        if k <= 0 {
            Seq::empty()
        } else {
            self.row_runs(cells, k - 1).push(
                plain_run_spec(cells[k - 1], self.inner_width(k - 1) as i64, self.aligns[k - 1]),
            )
        }
    }
}

/// The paragraphs of a row are the runs of its cells, wherever the row is
/// drawn and whatever was measured.
pub proof fn lemma_row_runs(
    frame: RowFrameView,
    y: i64,
    cells: Seq<Seq<char>>,
    heights: Seq<i64>,
    first: int,
    k: int,
)
    ensures
        paragraph_runs(frame.row_calls(y, cells, heights, first, k)) == frame.row_runs(cells, k),
    decreases k,
{
    if k > 0 {
        lemma_row_runs(frame, y, cells, heights, first, k - 1);
        let before = frame.row_calls(y, cells, heights, first, k - 1);
        let cell = frame.cell_calls(y, cells[k - 1], heights, first, k - 1);
        lemma_runs_concat(before, cell);
        let run = plain_run_spec(
            cells[k - 1],
            frame.inner_width(k - 1) as i64,
            frame.aligns[k - 1],
        );
        assert(paragraph_runs(cell) =~= seq![run]) by {
            let border = cell.drop_last();
            assert(cell =~= border.push(cell.last()));
            lemma_runs_push(border, cell.last());
            if frame.border.stroke_width > 0 {
                assert(border =~= Seq::<DrawCallView>::empty().push(border[0]));
                lemma_runs_push(Seq::<DrawCallView>::empty(), border[0]);
            } else {
                assert(border =~= Seq::<DrawCallView>::empty());
            }
        }
        assert(frame.row_runs(cells, k - 1) + seq![run] =~= frame.row_runs(cells, k));
    }
}

/// The runs of the cells of the first `r` data rows.
pub open spec fn body_runs(base: Element, props: TableProps, rows: Seq<Value>, r: int) -> Seq<
    TextRunView,
>
    decreases r,
{
    if r <= 0 {
        Seq::empty()
    } else {
        body_runs(base, props, rows, r - 1) + table_frame(base, props).row_runs(
            row_cells(rows[r - 1], props.columns@),
            props.columns@.len() as int,
        )
    }
}

/// The paragraphs of a table: the titles, if it has a header row, then
/// the cells row by row.
pub open spec fn table_runs(base: Element, props: TableProps, data: Value) -> Seq<TextRunView> {
    let rows = table_rows(data, props);
    let head = if shows_head(props) {
        table_frame(base, props).row_runs(
            header_cells(props.columns@),
            props.columns@.len() as int,
        )
    } else {
        Seq::empty()
    };
    head + body_runs(base, props, rows, rows.len() as int)
}

/// The paragraphs of an element, in the order in which they are drawn: one
/// for a text that is drawn, one for each cell of a table, the caption of a
/// barcode, and none for the other kinds.
pub open spec fn element_runs(element: Element, data: Value, styles: Option<GlobalStyles>) -> Seq<
    TextRunView,
> {
    match element.data {
        ElementData::Text(props) => {
            let content = render_spec(props.content@, data);
            if content.len() == 0 && auto_height(props) {
                Seq::empty()
            } else {
                seq![text_run(element, props, content, styles)]
            }
        },
        ElementData::Table(props) => table_runs(element, props, data),
        ElementData::Barcode(props) => seq![
            plain_run_spec(
                barcode_caption(render_spec(props.value@, data)),
                element.w,
                TextAlign::Left,
            ),
        ],
        _ => Seq::empty(),
    }
}

/// The paragraphs of the first `k` elements of `order`.
pub open spec fn template_runs(
    elements: Seq<Element>,
    order: Seq<usize>,
    data: Value,
    styles: Option<GlobalStyles>,
    k: int,
) -> Seq<TextRunView>
    decreases k,
{
    if k <= 0 {
        Seq::empty()
    } else {
        template_runs(elements, order, data, styles, k - 1) + element_runs(
            elements[order[k - 1] as int],
            data,
            styles,
        )
    }
}

proof fn lemma_body_runs(
    base: Element,
    props: TableProps,
    start_y: i64,
    rows: Seq<Value>,
    heights: Seq<i64>,
    first: int,
    r: int,
)
    ensures
        paragraph_runs(body_calls(base, props, start_y, rows, heights, first, r)) == body_runs(
            base,
            props,
            rows,
            r,
        ),
    decreases r,
{
    if r > 0 {
        lemma_body_runs(base, props, start_y, rows, heights, first, r - 1);
        let before = body_calls(base, props, start_y, rows, heights, first, r - 1);
        let y = body_bottom(base, props, start_y, rows, heights, first, r - 1) as i64;
        let cells = row_cells(rows[r - 1], props.columns@);
        let row = table_frame(base, props).row_calls(
            y,
            cells,
            heights,
            row_first(props, first, r - 1),
            props.columns@.len() as int,
        );
        lemma_runs_concat(before, row);
        lemma_row_runs(
            table_frame(base, props),
            y,
            cells,
            heights,
            row_first(props, first, r - 1),
            props.columns@.len() as int,
        );
    }
}

/// The paragraphs among the calls of an element are its runs, wherever the
/// element is drawn and whatever was measured.
pub proof fn lemma_element_runs(
    element: Element,
    y: i64,
    data: Value,
    styles: Option<GlobalStyles>,
    heights: Seq<i64>,
    first: int,
)
    ensures
        paragraph_runs(element_calls(element, y, data, styles, heights, first)) == element_runs(
            element,
            data,
            styles,
        ),
{
    let calls = element_calls(element, y, data, styles, heights, first);
    let nothing = Seq::<DrawCallView>::empty();
    match element.data {
        ElementData::Text(props) => {
            if calls.len() > 0 {
                lemma_runs_push(nothing, calls[0]);
                assert(calls =~= nothing.push(calls[0]));
                assert(paragraph_runs(calls) =~= element_runs(element, data, styles));
            }
        },
        ElementData::Table(props) => {
            let rows = table_rows(data, props);
            let head = head_calls(element, props, y, heights, first);
            let body = body_calls(element, props, y, rows, heights, first, rows.len() as int);
            lemma_runs_concat(head, body);
            lemma_body_runs(element, props, y, rows, heights, first, rows.len() as int);
            if shows_head(props) {
                lemma_row_runs(
                    table_frame(element, props),
                    y,
                    header_cells(props.columns@),
                    heights,
                    first,
                    props.columns@.len() as int,
                );
            }
        },
        ElementData::Line(props) => {
            lemma_runs_push(nothing, calls[0]);
            assert(calls =~= nothing.push(calls[0]));
        },
        ElementData::Rect(props) => {
            if calls.len() == 2 {
                lemma_runs_push(nothing, calls[0]);
                lemma_runs_push(nothing.push(calls[0]), calls[1]);
                assert(calls =~= nothing.push(calls[0]).push(calls[1]));
            } else if calls.len() == 1 {
                lemma_runs_push(nothing, calls[0]);
                assert(calls =~= nothing.push(calls[0]));
            }
        },
        ElementData::Ellipse(props) => {
            lemma_runs_push(nothing, calls[0]);
            assert(calls =~= nothing.push(calls[0]));
        },
        ElementData::Image(_) => {
            lemma_runs_push(nothing, calls[0]);
            lemma_runs_push(nothing.push(calls[0]), calls[1]);
            lemma_runs_push(nothing.push(calls[0]).push(calls[1]), calls[2]);
            assert(calls =~= nothing.push(calls[0]).push(calls[1]).push(calls[2]));
        },
        ElementData::Barcode(props) => {
            lemma_runs_push(nothing, calls[0]);
            lemma_runs_push(nothing.push(calls[0]), calls[1]);
            assert(calls =~= nothing.push(calls[0]).push(calls[1]));
            assert(paragraph_runs(calls) =~= element_runs(element, data, styles));
        },
        ElementData::Qrcode(props) => {
            let content = render_spec(props.value@, data);
            if content.len() != 0 {
                match qr_symbol(content, level_spec(opt_text(props.correction_level))) {
                    Some((side, dark)) => {
                        lemma_symbol_has_no_runs(
                            element.x,
                            y,
                            qr_size(element, props),
                            side,
                            dark,
                        );
                    },
                    None => {},
                }
            }
        },
    }
}

/// The paragraphs of a rendering are those that were on the surface and
/// the runs of the elements in drawing order.
pub proof fn lemma_progress_runs(
    drawn: Seq<DrawCallView>,
    elements: Seq<Element>,
    order: Seq<usize>,
    data: Value,
    styles: Option<GlobalStyles>,
    heights: Seq<i64>,
    k: int,
)
    ensures
        paragraph_runs(progress(drawn, elements, order, data, styles, heights, k).calls)
            == paragraph_runs(drawn) + template_runs(elements, order, data, styles, k),
    decreases k,
{
    if k <= 0 {
        assert(paragraph_runs(drawn) + Seq::<TextRunView>::empty() =~= paragraph_runs(drawn));
    } else {
        lemma_progress_runs(drawn, elements, order, data, styles, heights, k - 1);
        let before = progress(drawn, elements, order, data, styles, heights, k - 1);
        let element = elements[order[k - 1] as int];
        let y = top_of(element, before.cache);
        let first = paragraph_count(before.calls) as int;
        lemma_element_runs(element, y, data, styles, heights, first);
        lemma_runs_concat(before.calls, element_calls(element, y, data, styles, heights, first));
        assert(paragraph_runs(drawn) + template_runs(elements, order, data, styles, k - 1)
            + element_runs(element, data, styles) =~= paragraph_runs(drawn) + template_runs(
            elements,
            order,
            data,
            styles,
            k,
        ));
    }
}

/// Which paragraphs a rendering draws, and in which order, does not depend
/// on the measured heights: the heights of the paragraphs of a rendering
/// without heights are the heights that a second rendering needs.
pub proof fn lemma_runs_do_not_depend_on_heights(
    drawn: Seq<DrawCallView>,
    template: DeepPrintTemplate,
    data: Value,
    heights: Seq<i64>,
    other: Seq<i64>,
)
    ensures
        paragraph_runs(rendered(drawn, template, data, heights)) == paragraph_runs(
            rendered(drawn, template, data, other),
        ),
{
    let elements = template.canvas.elements@;
    let order = drawing_order(anchor_links(elements));
    lemma_progress_runs(
        drawn,
        elements,
        order,
        data,
        template.canvas.styles,
        heights,
        order.len() as int,
    );
    lemma_progress_runs(
        drawn,
        elements,
        order,
        data,
        template.canvas.styles,
        other,
        order.len() as int,
    );
}

} // verus!
