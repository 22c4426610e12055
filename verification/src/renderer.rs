//! The driver: the elements are put in drawing order, and each is placed
//! below its anchor and drawn.

use vstd::prelude::*;
use crate::deep_print_schema::{DeepPrintTemplate, Element, ElementData, GlobalStyles};
use crate::draw::{opt_text, paragraph_count, DrawCallView, DrawList};
use crate::elements::{
    auto_height, barcode_calls, ellipse_calls, image_calls, line_calls, qrcode_calls, rect_calls,
    text_calls, text_height,
};
use crate::graph::{
    anchors_first, drawing_order, first_cycle_node, has_cycle, lemma_first_cycle_node_unique,
    lists_all, lists_nodes, sort_links,
};
use crate::interpolate::render_spec;
use crate::layout::{
    anchor_bottom, anchor_links, anchored_y, links_of, place, LayoutCache, LayoutError,
};
use crate::table::{table_calls, table_height};
use crate::units::clamp;
use crate::value::Value;

verus! {

/// What one rendering works with: the data document, the template's default
/// styles, the measured heights of the paragraphs in the order in which they
/// are drawn, and the placements made so far.
pub struct RenderContext<'a> {
    pub data: &'a Value,
    pub global_styles: &'a Option<GlobalStyles>,
    pub heights: &'a Vec<i64>,
    pub layout_cache: LayoutCache,
}

/// The calls that draw an element with its top at `y`. `first` is the
/// ordinal of the element's first paragraph.
pub open spec fn element_calls(
    element: Element,
    y: i64,
    data: Value,
    styles: Option<GlobalStyles>,
    heights: Seq<i64>,
    first: int,
) -> Seq<DrawCallView> {
    match element.data {
        ElementData::Text(props) => text_calls(element, props, y, data, styles, heights, first),
        ElementData::Table(props) => table_calls(element, props, y, data, heights, first),
        ElementData::Line(props) => line_calls(element, props, y),
        ElementData::Rect(props) => rect_calls(element, props, y),
        ElementData::Ellipse(props) => ellipse_calls(element, props, y),
        ElementData::Image(_) => image_calls(element, y),
        ElementData::Barcode(props) => barcode_calls(element, props, y, data, heights, first),
        ElementData::Qrcode(props) => qrcode_calls(element, props, y, data),
    }
}

/// The height that an element turns out to have: that of its content for a
/// text whose height follows its content and for a table, that of its box
/// for every other element.
pub open spec fn element_height(
    element: Element,
    y: i64,
    data: Value,
    heights: Seq<i64>,
    first: int,
) -> int {
    match element.data {
        ElementData::Text(props) => text_height(element, props, data, heights, first),
        ElementData::Table(props) => table_height(element, props, y, data, heights, first),
        _ => element.h as int,
    }
}

/// What has been drawn so far, and where.
pub struct Progress {
    pub calls: Seq<DrawCallView>,
    pub cache: Map<Seq<char>, (i64, i64)>,
}

/// The top of `element`, given what has been placed before it.
pub open spec fn top_of(element: Element, cache: Map<Seq<char>, (i64, i64)>) -> i64 {
    anchored_y(element.y, opt_text(element.linked_to), cache) as i64
}

/// The progress after `element` is drawn: its calls follow the earlier
/// ones, and its top and its height are recorded under its id.
pub open spec fn after_element(
    before: Progress,
    element: Element,
    data: Value,
    styles: Option<GlobalStyles>,
    heights: Seq<i64>,
) -> Progress {
    let y = top_of(element, before.cache);
    let first = paragraph_count(before.calls) as int;
    Progress {
        calls: before.calls + element_calls(element, y, data, styles, heights, first),
        cache: before.cache.insert(
            element.id@,
            (y, element_height(element, y, data, heights, first) as i64),
        ),
    }
}

/// The progress after the first `k` elements of `order` are drawn on a
/// surface that holds `drawn` already.
pub open spec fn progress(
    drawn: Seq<DrawCallView>,
    elements: Seq<Element>,
    order: Seq<usize>,
    data: Value,
    styles: Option<GlobalStyles>,
    heights: Seq<i64>,
    k: int,
) -> Progress
    decreases k,
{
    if k <= 0 {
        Progress { calls: drawn, cache: Map::empty() }
    } else {
        after_element(
            progress(drawn, elements, order, data, styles, heights, k - 1),
            elements[order[k - 1] as int],
            data,
            styles,
            heights,
        )
    }
}

/// What a surface that holds `drawn` holds after `template` is rendered on
/// it with `data`: the calls of every element, in drawing order.
pub open spec fn rendered(
    drawn: Seq<DrawCallView>,
    template: DeepPrintTemplate,
    data: Value,
    heights: Seq<i64>,
) -> Seq<DrawCallView> {
    let elements = template.canvas.elements@;
    let order = drawing_order(anchor_links(elements));
    progress(
        drawn,
        elements,
        order,
        data,
        template.canvas.styles,
        heights,
        order.len() as int,
    ).calls
}

/// How a rendering on a surface that holds `drawn` can end: with a cycle
/// among the links it fails and the surface is as before; without one it
/// succeeds and the surface holds what `rendered` says.
pub open spec fn rendering(
    drawn: Seq<DrawCallView>,
    template: DeepPrintTemplate,
    data: Value,
    heights: Seq<i64>,
    ok: bool,
    after: Seq<DrawCallView>,
) -> bool {
    if has_cycle(anchor_links(template.canvas.elements@)) {
        !ok && after == drawn
    } else {
        ok && after == rendered(drawn, template, data, heights)
    }
}

/// Two renderings of the same template with the same data and measured
/// heights, on surfaces that hold the same calls, end alike and leave the
/// same calls.
pub proof fn lemma_rendering_is_deterministic(
    drawn: Seq<DrawCallView>,
    template: DeepPrintTemplate,
    data: Value,
    heights: Seq<i64>,
    ok1: bool,
    after1: Seq<DrawCallView>,
    ok2: bool,
    after2: Seq<DrawCallView>,
)
    requires
        rendering(drawn, template, data, heights, ok1, after1),
        rendering(drawn, template, data, heights, ok2, after2),
    ensures
        ok1 == ok2,
        after1 == after2,
{
}

/// A text that is empty once interpolated, and whose height follows its
/// content, draws nothing, and an element linked to it stands below the
/// text's top by just its own `y`.
pub proof fn lemma_empty_text_takes_no_room(
    before: Progress,
    element: Element,
    next: Element,
    data: Value,
    styles: Option<GlobalStyles>,
    heights: Seq<i64>,
)
    requires
        element.data is Text,
        auto_height(element.data->Text_0),
        render_spec(element.data->Text_0.content@, data).len() == 0,
        opt_text(next.linked_to) == Some(element.id@),
    ensures
        after_element(before, element, data, styles, heights).calls == before.calls,
        top_of(next, after_element(before, element, data, styles, heights).cache) == clamp(
            top_of(element, before.cache) + next.y,
        ),
{
    let after = after_element(before, element, data, styles, heights);
    assert(after.calls =~= before.calls);
}

/// The id that a cycle is reported under: that of the element at which
/// the first element whose links lead onto a cycle enters it.
pub open spec fn cycle_id(elements: Seq<Element>) -> Seq<char> {
    elements[choose|node: int| first_cycle_node(anchor_links(elements), node)].id@
}

/// What makes a rendering fail.
#[derive(Debug, PartialEq, Eq)]
pub enum RenderError {
    /// The template cannot be laid out.
    Layout(LayoutError),
    /// An element could not be drawn.
    Element { id: String, cause: String },
}

/// Draws templates.
pub struct DeepPrintRenderer {}

impl DeepPrintRenderer {
    pub fn new() -> (r: Self) {
        Self {  }
    }

    /// Renders `template` with `data` on `canvas`: the elements are put in
    /// drawing order, each is placed below its anchor and drawn, and its top
    /// and height are kept for the elements linked to it. `heights` holds
    /// the measured height of every paragraph, in the order in which the
    /// paragraphs are drawn; a paragraph without one counts as having no
    /// height. A cycle among the links is an error, and nothing is drawn.
    pub fn render(
        &self,
        canvas: &mut DrawList,
        template: &DeepPrintTemplate,
        data: &Value,
        heights: &Vec<i64>,
    ) -> (r: Result<(), RenderError>)
        requires
            old(canvas).wf(),
        ensures
            final(canvas).wf(),
            rendering(old(canvas)@, *template, *data, heights@, r is Ok, final(canvas)@),
            match r {
                Ok(_) => true,
                Err(RenderError::Layout(LayoutError::Cycle(id))) => id@ == cycle_id(
                    template.canvas.elements@,
                ),
                Err(_) => false,
            },
    {
        let mut ctx = RenderContext {
            data,
            global_styles: &template.canvas.styles,
            heights,
            layout_cache: LayoutCache::new(),
        };
        let sorted = match self.topological_sort(&template.canvas.elements) {
            Ok(order) => order,
            Err(e) => {
                return Err(RenderError::Layout(e));
            },
        };
        let ghost elements = template.canvas.elements@;
        let mut k: usize = 0;
        while k < sorted.len()
            invariant
                k <= sorted.len(),
                elements == template.canvas.elements@,
                sorted@ == drawing_order(anchor_links(elements)),
                lists_nodes(anchor_links(elements), sorted@),
                ctx.data == data,
                ctx.global_styles == &template.canvas.styles,
                ctx.heights == heights,
                canvas.wf(),
                canvas@ == progress(
                    old(canvas)@,
                    elements,
                    sorted@,
                    *data,
                    template.canvas.styles,
                    heights@,
                    k as int,
                ).calls,
                ctx.layout_cache@ == progress(
                    old(canvas)@,
                    elements,
                    sorted@,
                    *data,
                    template.canvas.styles,
                    heights@,
                    k as int,
                ).cache,
            decreases sorted.len() - k,
        {
            assert(sorted@[k as int] < anchor_links(elements).len());
            self.render_element(canvas, &template.canvas.elements[sorted[k]], &mut ctx);
            k += 1;
        }
        Ok(())
    }

    /// Places one element, draws it and records its top and its height.
    pub fn render_element(
        &self,
        canvas: &mut DrawList,
        element: &Element,
        ctx: &mut RenderContext,
    )
        requires
            old(canvas).wf(),
        ensures
            final(canvas).wf(),
            final(ctx).data == old(ctx).data,
            final(ctx).global_styles == old(ctx).global_styles,
            final(ctx).heights == old(ctx).heights,
            final(canvas)@ == after_element(
                Progress { calls: old(canvas)@, cache: old(ctx).layout_cache@ },
                *element,
                *old(ctx).data,
                *old(ctx).global_styles,
                old(ctx).heights@,
            ).calls,
            final(ctx).layout_cache@ == after_element(
                Progress { calls: old(canvas)@, cache: old(ctx).layout_cache@ },
                *element,
                *old(ctx).data,
                *old(ctx).global_styles,
                old(ctx).heights@,
            ).cache,
    {
        let (actual_y, _) = self.calculate_y(element, ctx);
        let actual_height = match &element.data {
            ElementData::Text(props) => self.draw_text(canvas, element, props, actual_y, ctx),
            ElementData::Table(props) => self.draw_table(canvas, element, props, actual_y, ctx),
            ElementData::Line(props) => self.draw_line(canvas, element, props, actual_y, ctx),
            ElementData::Rect(props) => self.draw_rect(canvas, element, props, actual_y, ctx),
            ElementData::Ellipse(props) => self.draw_ellipse(canvas, element, props, actual_y, ctx),
            ElementData::Image(props) => self.draw_image_placeholder(
                canvas,
                element,
                props,
                actual_y,
                ctx,
            ),
            ElementData::Barcode(props) => self.draw_barcode(canvas, element, props, actual_y, ctx),
            ElementData::Qrcode(props) => self.draw_qrcode(canvas, element, props, actual_y, ctx),
        };
        ctx.layout_cache.insert(element.id.clone(), actual_y, actual_height);
    }

    /// Puts the elements in drawing order: every element after the one it
    /// is linked to, and otherwise as they are listed. The result holds the
    /// positions of the elements. Links that lead in a circle are an error,
    /// which names an element on the circle.
    pub fn topological_sort(&self, elements: &Vec<Element>) -> (r: Result<Vec<usize>, LayoutError>)
        ensures
            match r {
                Ok(order) => {
                    &&& !has_cycle(anchor_links(elements@))
                    &&& order@ == drawing_order(anchor_links(elements@))
                    &&& lists_nodes(anchor_links(elements@), order@)
                    &&& lists_all(anchor_links(elements@), order@)
                    &&& anchors_first(anchor_links(elements@), order@)
                },
                Err(LayoutError::Cycle(id)) => {
                    &&& has_cycle(anchor_links(elements@))
                    &&& id@ == cycle_id(elements@)
                },
            },
    {
        let links = links_of(elements);
        match sort_links(&links) {
            Ok(order) => Ok(order),
            Err(node) => {
                proof {
                    let found = choose|found: int| first_cycle_node(links@, found);
                    lemma_first_cycle_node_unique(links@, node as int, found);
                }
                Err(LayoutError::Cycle(elements[node].id.clone()))
            },
        }
    }

    /// The top of an element and the bottom of its anchor: the element's own
    /// `y` is the gap below the anchor where the anchor has been placed,
    /// and the distance from the top of the canvas otherwise.
    pub fn calculate_y(&self, element: &Element, ctx: &RenderContext) -> (r: (i64, i64))
        ensures
            r.0 == anchored_y(element.y, opt_text(element.linked_to), ctx.layout_cache@),
            r.1 == anchor_bottom(opt_text(element.linked_to), ctx.layout_cache@),
    {
        place(element.y, &element.linked_to, &ctx.layout_cache)
    }
}

} // verus!
