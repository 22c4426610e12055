use deep_print::color::Color;
use deep_print::deep_print_schema::{
    BarcodeProps, Canvas, DeepPrintTemplate, Element, ElementData, EllipseProps, FontWeight,
    GlobalStyles, ImageProps, LineProps, Meta, QrcodeProps, RectProps, TableColumn,
    TableColumnWidth, TableProps, TextProps,
};
use deep_print::draw::{DrawCall, DrawList, Paint, PaintStyle, TextAlign, TextRun};
use deep_print::layout::LayoutError;
use deep_print::renderer::{DeepPrintRenderer, RenderError};
use deep_print::value::{Member, Value};

const BLACK: Color = Color { r: 0, g: 0, b: 0 };

fn object(members: Vec<(&str, Value)>) -> Value {
    Value::Object(
        members
            .into_iter()
            .map(|(key, value)| Member { key: key.to_string(), value })
            .collect(),
    )
}

fn text_value(s: &str) -> Value {
    Value::String(s.to_string())
}

fn text_props(content: &str) -> TextProps {
    TextProps {
        content: content.to_string(),
        font_family: None,
        font_size: None,
        font_weight: None,
        font_color: None,
        line_height: None,
        text_align: None,
        vertical_align: None,
        text_decoration: None,
        auto_shrink: None,
        line_break: None,
        auto_height: None,
    }
}

fn element(id: &str, x: i64, y: i64, w: i64, h: i64, link: Option<&str>, data: ElementData) -> Element {
    Element { id: id.to_string(), x, y, w, h, linked_to: link.map(|s| s.to_string()), data }
}

fn template(styles: Option<GlobalStyles>, elements: Vec<Element>) -> DeepPrintTemplate {
    DeepPrintTemplate {
        meta: Meta { version: "6.1".to_string(), name: "test".to_string() },
        data_schema: String::new(),
        assets: None,
        canvas: Canvas { width: 380_000, height: 0, orientation: Some(3), styles, elements },
    }
}

fn render(t: &DeepPrintTemplate, data: &Value, heights: &Vec<i64>) -> Vec<DrawCall> {
    let mut canvas = DrawList::new();
    let r = DeepPrintRenderer::new().render(&mut canvas, t, data, heights);
    assert_eq!(r, Ok(()));
    canvas.calls
}

fn default_run(text: &str, width: i64) -> TextRun {
    TextRun {
        text: text.to_string(),
        font_size: 12_000,
        color: BLACK,
        font_family: None,
        weight: 400,
        line_height: 1200,
        underline: false,
        align: TextAlign::Left,
        width: Some(width),
        shrink_to: None,
    }
}

fn small_run(text: &str, width: i64, align: TextAlign) -> TextRun {
    TextRun { font_size: 10_000, align, ..default_run(text, width) }
}

fn stroke(width: i64, color: Color, dash: Vec<i64>) -> Paint {
    Paint { style: PaintStyle::Stroke, stroke_width: width, color, anti_alias: false, dash }
}

fn fill(color: Color) -> Paint {
    Paint { style: PaintStyle::Fill, stroke_width: 0, color, anti_alias: false, dash: Vec::new() }
}

fn paragraph_tops(calls: &Vec<DrawCall>) -> Vec<i64> {
    calls
        .iter()
        .filter_map(|c| match c {
            DrawCall::Paragraph { y, .. } => Some(*y),
            _ => None,
        })
        .collect()
}

#[test]
fn linked_element_is_placed_below_the_measured_bottom_of_its_anchor() {
    let t = template(
        None,
        vec![
            element("H", 0, 20_000, 380_000, 40_000, None, ElementData::Text(text_props("header"))),
            element("S", 0, 5_000, 380_000, 20_000, Some("H"), ElementData::Text(text_props("sub"))),
        ],
    );
    let calls = render(&t, &object(vec![]), &vec![30_000, 10_000]);
    assert_eq!(
        calls,
        vec![
            DrawCall::Paragraph { run: default_run("header", 380_000), x: 0, y: 20_000, clip_width: None },
            DrawCall::Paragraph { run: default_run("sub", 380_000), x: 0, y: 55_000, clip_width: None },
        ]
    );
}

#[test]
fn linked_element_listed_first_is_still_drawn_after_its_anchor() {
    let t = template(
        None,
        vec![
            element("S", 0, 5_000, 380_000, 20_000, Some("H"), ElementData::Text(text_props("sub"))),
            element("H", 0, 20_000, 380_000, 40_000, None, ElementData::Text(text_props("header"))),
        ],
    );
    let calls = render(&t, &object(vec![]), &vec![30_000, 10_000]);
    assert_eq!(
        calls,
        vec![
            DrawCall::Paragraph { run: default_run("header", 380_000), x: 0, y: 20_000, clip_width: None },
            DrawCall::Paragraph { run: default_run("sub", 380_000), x: 0, y: 55_000, clip_width: None },
        ]
    );
}

#[test]
fn rendering_twice_gives_the_same_calls() {
    let t = receipt();
    let data = order();
    let heights = receipt_heights();
    assert_eq!(render(&t, &data, &heights), render(&t, &data, &heights));
}

#[test]
fn a_cycle_is_an_error_and_draws_nothing() {
    let t = template(
        None,
        vec![
            element("A", 0, 0, 10_000, 10_000, Some("B"), ElementData::Text(text_props("a"))),
            element("B", 0, 0, 10_000, 10_000, Some("A"), ElementData::Text(text_props("b"))),
        ],
    );
    let mut canvas = DrawList::new();
    let r = DeepPrintRenderer::new().render(&mut canvas, &t, &object(vec![]), &Vec::new());
    assert_eq!(r, Err(RenderError::Layout(LayoutError::Cycle("A".to_string()))));
    assert!(canvas.calls.is_empty());
    assert_eq!(canvas.paragraphs, 0);
}

#[test]
fn a_cycle_anywhere_leaves_the_surface_as_it_was() {
    let t = template(
        None,
        vec![
            element("ok", 0, 0, 10_000, 10_000, None, ElementData::Text(text_props("fine"))),
            element("loop", 0, 0, 10_000, 10_000, Some("loop"), ElementData::Text(text_props("b"))),
        ],
    );
    let mut canvas = DrawList::new();
    canvas.draw_rect(1, 2, 3, 4, fill(BLACK));
    let r = DeepPrintRenderer::new().render(&mut canvas, &t, &object(vec![]), &Vec::new());
    assert_eq!(r, Err(RenderError::Layout(LayoutError::Cycle("loop".to_string()))));
    assert_eq!(canvas.calls, vec![DrawCall::Rect { x: 1, y: 2, w: 3, h: 4, paint: fill(BLACK) }]);
}

#[test]
fn a_link_to_an_unknown_id_places_the_element_at_its_own_y() {
    let t = template(
        None,
        vec![element("A", 3_000, 42_000, 10_000, 10_000, Some("ghost"), ElementData::Text(text_props("a")))],
    );
    let calls = render(&t, &object(vec![]), &vec![9_000]);
    assert_eq!(
        calls,
        vec![DrawCall::Paragraph { run: default_run("a", 10_000), x: 3_000, y: 42_000, clip_width: None }]
    );
}

#[test]
fn an_empty_auto_height_text_draws_nothing_and_takes_no_room() {
    let t = template(
        None,
        vec![
            element("first", 0, 10_000, 100_000, 40_000, None, ElementData::Text(text_props("{{missing}}"))),
            element("next", 0, 5_000, 100_000, 20_000, Some("first"), ElementData::Text(text_props("below"))),
        ],
    );
    let calls = render(&t, &object(vec![]), &vec![11_000, 99_000]);
    assert_eq!(
        calls,
        vec![DrawCall::Paragraph { run: default_run("below", 100_000), x: 0, y: 15_000, clip_width: None }]
    );
}

#[test]
fn an_empty_text_of_fixed_height_is_drawn_and_keeps_its_height() {
    let mut props = text_props("");
    props.auto_height = Some(false);
    let t = template(
        None,
        vec![
            element("first", 0, 10_000, 100_000, 40_000, None, ElementData::Text(props)),
            element("next", 0, 5_000, 100_000, 20_000, Some("first"), ElementData::Text(text_props("below"))),
        ],
    );
    let calls = render(&t, &object(vec![]), &vec![0, 7_000]);
    assert_eq!(paragraph_tops(&calls), vec![10_000, 55_000]);
}

fn aligned(vertical: Option<&str>, auto: Option<bool>, h: i64, text_height: i64) -> i64 {
    let mut props = text_props("text");
    props.vertical_align = vertical.map(|s| s.to_string());
    props.auto_height = auto;
    let t = template(None, vec![element("t", 0, 100_000, 50_000, h, None, ElementData::Text(props))]);
    paragraph_tops(&render(&t, &object(vec![]), &vec![text_height]))[0]
}

#[test]
fn vertical_alignment_places_the_text_within_a_fixed_box() {
    assert_eq!(aligned(Some("middle"), Some(false), 40_000, 20_000), 110_000);
    assert_eq!(aligned(Some("bottom"), Some(false), 40_000, 20_000), 120_000);
    assert_eq!(aligned(Some("top"), Some(false), 40_000, 20_000), 100_000);
    assert_eq!(aligned(None, Some(false), 40_000, 20_000), 100_000);
    assert_eq!(aligned(Some("middle"), Some(false), 40_000, 25_001), 107_499);
}

#[test]
fn vertical_alignment_is_ignored_when_the_height_follows_the_content() {
    assert_eq!(aligned(Some("middle"), Some(true), 40_000, 20_000), 100_000);
    assert_eq!(aligned(Some("middle"), None, 40_000, 20_000), 100_000);
    assert_eq!(aligned(Some("bottom"), None, 40_000, 20_000), 100_000);
}

#[test]
fn vertical_alignment_is_ignored_when_the_text_is_not_lower_than_the_box() {
    assert_eq!(aligned(Some("middle"), Some(false), 40_000, 40_000), 100_000);
    assert_eq!(aligned(Some("bottom"), Some(false), 40_000, 60_000), 100_000);
}

#[test]
fn a_text_of_fixed_height_counts_with_the_height_of_its_box() {
    let mut props = text_props("text");
    props.auto_height = Some(false);
    let t = template(
        None,
        vec![
            element("a", 0, 0, 50_000, 40_000, None, ElementData::Text(props)),
            element("b", 0, 1_000, 50_000, 10_000, Some("a"), ElementData::Text(text_props("x"))),
        ],
    );
    assert_eq!(paragraph_tops(&render(&t, &object(vec![]), &vec![90_000, 5_000])), vec![0, 41_000]);
}

#[test]
fn text_styles_cascade_from_the_element_to_the_template() {
    let styles = GlobalStyles {
        font_family: Some("Arial".to_string()),
        font_size: Some(14_000),
        font_color: Some("#333333".to_string()),
    };
    let mut own = text_props("own");
    own.font_family = Some("Courier".to_string());
    own.font_size = Some(24_000);
    own.font_color = Some("#FF0000".to_string());
    own.font_weight = Some(FontWeight::String("Bold".to_string()));
    own.line_height = Some(1500);
    own.text_align = Some("center".to_string());
    own.text_decoration = Some("underline".to_string());
    own.auto_shrink = Some(1);
    let t = template(
        Some(styles),
        vec![
            element("a", 1_000, 0, 50_000, 40_000, None, ElementData::Text(own)),
            element("b", 2_000, 0, 60_000, 10_000, None, ElementData::Text(text_props("inherited"))),
        ],
    );
    let calls = render(&t, &object(vec![]), &vec![]);
    assert_eq!(
        calls,
        vec![
            DrawCall::Paragraph {
                run: TextRun {
                    text: "own".to_string(),
                    font_size: 24_000,
                    color: Color { r: 255, g: 0, b: 0 },
                    font_family: Some("Courier".to_string()),
                    weight: 700,
                    line_height: 1500,
                    underline: true,
                    align: TextAlign::Center,
                    width: Some(50_000),
                    shrink_to: Some(40_000),
                },
                x: 1_000,
                y: 0,
                clip_width: None,
            },
            DrawCall::Paragraph {
                run: TextRun {
                    text: "inherited".to_string(),
                    font_size: 14_000,
                    color: Color { r: 51, g: 51, b: 51 },
                    font_family: Some("Arial".to_string()),
                    weight: 400,
                    line_height: 1200,
                    underline: false,
                    align: TextAlign::Left,
                    width: Some(60_000),
                    shrink_to: None,
                },
                x: 2_000,
                y: 0,
                clip_width: None,
            },
        ]
    );
}

#[test]
fn font_weight_maps_to_the_weight_axis() {
    let weights = vec![
        (Some(FontWeight::String("bold".to_string())), 700),
        (Some(FontWeight::String("BOLD".to_string())), 700),
        (Some(FontWeight::String("normal".to_string())), 400),
        (Some(FontWeight::String("heavy".to_string())), 400),
        (Some(FontWeight::Number(900)), 900),
        (Some(FontWeight::Number(100)), 100),
        (None, 400),
    ];
    for (weight, expected) in weights {
        let mut props = text_props("w");
        props.font_weight = weight;
        let t = template(None, vec![element("a", 0, 0, 1, 1, None, ElementData::Text(props))]);
        match &render(&t, &object(vec![]), &vec![])[0] {
            DrawCall::Paragraph { run, .. } => assert_eq!(run.weight, expected),
            other => panic!("unexpected call {:?}", other),
        }
    }
}

#[test]
fn a_text_without_line_breaks_is_laid_out_unbounded_and_clipped() {
    let mut props = text_props("one long line");
    props.line_break = Some(0);
    let t = template(None, vec![element("a", 0, 0, 50_000, 1, None, ElementData::Text(props))]);
    match &render(&t, &object(vec![]), &vec![])[0] {
        DrawCall::Paragraph { run, clip_width, .. } => {
            assert_eq!(run.width, None);
            assert_eq!(*clip_width, Some(50_000));
        }
        other => panic!("unexpected call {:?}", other),
    }
    let mut props = text_props("wrapped");
    props.line_break = Some(1);
    let t = template(None, vec![element("a", 0, 0, 50_000, 1, None, ElementData::Text(props))]);
    match &render(&t, &object(vec![]), &vec![])[0] {
        DrawCall::Paragraph { run, clip_width, .. } => {
            assert_eq!(run.width, Some(50_000));
            assert_eq!(*clip_width, None);
        }
        other => panic!("unexpected call {:?}", other),
    }
}

#[test]
fn text_content_is_interpolated() {
    let t = template(
        None,
        vec![element("a", 0, 0, 50_000, 1, None, ElementData::Text(text_props("Hello {{user.name}}!")))],
    );
    let data = object(vec![("user", object(vec![("name", text_value("Ada"))]))]);
    match &render(&t, &data, &vec![])[0] {
        DrawCall::Paragraph { run, .. } => assert_eq!(run.text, "Hello Ada!"),
        other => panic!("unexpected call {:?}", other),
    }
    match &render(&t, &object(vec![]), &vec![])[0] {
        DrawCall::Paragraph { run, .. } => assert_eq!(run.text, "Hello !"),
        other => panic!("unexpected call {:?}", other),
    }
}

#[test]
fn a_line_runs_to_the_far_corner_of_its_box() {
    let props = LineProps {
        stroke_width: None,
        stroke_color: Some("#CCCCCC".to_string()),
        dash_array: Some(vec![5_000, 5_000]),
    };
    let t = template(None, vec![element("l", 20_000, 15_000, 340_000, 2_000, None, ElementData::Line(props))]);
    assert_eq!(
        render(&t, &object(vec![]), &vec![]),
        vec![DrawCall::Line {
            x1: 20_000,
            y1: 15_000,
            x2: 360_000,
            y2: 17_000,
            paint: stroke(2830, Color { r: 204, g: 204, b: 204 }, vec![5_000, 5_000]),
        }]
    );
}

#[test]
fn a_rect_is_filled_then_outlined() {
    let props = RectProps {
        stroke_width: Some(1_000),
        stroke_color: Some("#0000FF".to_string()),
        fill_color: Some("#00FF00".to_string()),
        border_radius: Some(4_000),
        dash_array: None,
    };
    let t = template(None, vec![element("r", 1, 2, 3, 4, None, ElementData::Rect(props))]);
    assert_eq!(
        render(&t, &object(vec![]), &vec![]),
        vec![
            DrawCall::Rect { x: 1, y: 2, w: 3, h: 4, paint: fill(Color { r: 0, g: 255, b: 0 }) },
            DrawCall::Rect { x: 1, y: 2, w: 3, h: 4, paint: stroke(1_000, Color { r: 0, g: 0, b: 255 }, vec![]) },
        ]
    );
}

#[test]
fn a_rect_without_fill_or_stroke_width_draws_less() {
    let no_fill = RectProps {
        stroke_width: None,
        stroke_color: None,
        fill_color: Some(String::new()),
        border_radius: None,
        dash_array: Some(vec![1, 2]),
    };
    let t = template(None, vec![element("r", 1, 2, 3, 4, None, ElementData::Rect(no_fill))]);
    assert_eq!(
        render(&t, &object(vec![]), &vec![]),
        vec![DrawCall::Rect { x: 1, y: 2, w: 3, h: 4, paint: stroke(2830, BLACK, vec![1, 2]) }]
    );
    let no_stroke = RectProps {
        stroke_width: Some(0),
        stroke_color: None,
        fill_color: Some("nonsense".to_string()),
        border_radius: None,
        dash_array: None,
    };
    let t = template(None, vec![element("r", 1, 2, 3, 4, None, ElementData::Rect(no_stroke))]);
    assert_eq!(
        render(&t, &object(vec![]), &vec![]),
        vec![DrawCall::Rect { x: 1, y: 2, w: 3, h: 4, paint: fill(BLACK) }]
    );
    let nothing = RectProps {
        stroke_width: Some(-1),
        stroke_color: None,
        fill_color: None,
        border_radius: None,
        dash_array: None,
    };
    let t = template(None, vec![element("r", 1, 2, 3, 4, None, ElementData::Rect(nothing))]);
    assert!(render(&t, &object(vec![]), &vec![]).is_empty());
}

#[test]
fn an_ellipse_is_the_outline_of_the_oval_in_its_box() {
    let props = EllipseProps {
        stroke_width: Some(500),
        stroke_color: None,
        fill_color: Some("#FF0000".to_string()),
        dash_array: None,
    };
    let t = template(None, vec![element("e", 1, 2, 3, 4, None, ElementData::Ellipse(props))]);
    assert_eq!(
        render(&t, &object(vec![]), &vec![]),
        vec![DrawCall::Oval { x: 1, y: 2, w: 3, h: 4, paint: stroke(500, BLACK, vec![]) }]
    );
}

#[test]
fn an_image_is_a_grey_box_with_a_red_cross() {
    let props = ImageProps { src: "logo".to_string(), object_fit: None };
    let t = template(None, vec![element("i", 10, 20, 30, 40, None, ElementData::Image(props))]);
    let red = Color { r: 255, g: 0, b: 0 };
    assert_eq!(
        render(&t, &object(vec![]), &vec![]),
        vec![
            DrawCall::Rect { x: 10, y: 20, w: 30, h: 40, paint: fill(Color { r: 204, g: 204, b: 204 }) },
            DrawCall::Line { x1: 10, y1: 20, x2: 40, y2: 60, paint: stroke(1_000, red, vec![]) },
            DrawCall::Line { x1: 40, y1: 20, x2: 10, y2: 60, paint: stroke(1_000, red, vec![]) },
        ]
    );
}

#[test]
fn a_barcode_is_an_outlined_box_with_a_centred_caption() {
    let props = BarcodeProps { value: "{{code}}".to_string(), format: "CODE128".to_string(), display_value: None };
    let t = template(None, vec![element("b", 10_000, 20_000, 100_000, 40_000, None, ElementData::Barcode(props))]);
    let data = object(vec![("code", Value::Number("12345".to_string()))]);
    assert_eq!(
        render(&t, &data, &vec![12_000]),
        vec![
            DrawCall::Rect { x: 10_000, y: 20_000, w: 100_000, h: 40_000, paint: stroke(0, BLACK, vec![]) },
            DrawCall::Paragraph {
                run: small_run("[Barcode: 12345]", 100_000, TextAlign::Left),
                x: 10_000,
                y: 34_000,
                clip_width: None,
            },
        ]
    );
}

fn qr_element(value: &str, level: Option<&str>, size: Option<i64>, w: i64, h: i64) -> Element {
    let props = QrcodeProps {
        value: value.to_string(),
        correction_level: level.map(|s| s.to_string()),
        size,
    };
    element("q", 130_000, 30_000, w, h, None, ElementData::Qrcode(props))
}

fn dark_modules(content: &str, level: qrcode::EcLevel) -> (usize, Vec<bool>) {
    let code = qrcode::QrCode::with_error_correction_level(content.as_bytes(), level).unwrap();
    (code.width(), code.to_colors().iter().map(|c| *c == qrcode::Color::Dark).collect())
}

#[test]
fn a_qr_code_draws_one_square_for_each_dark_module() {
    let t = template(None, vec![qr_element("{{v}}", None, None, 126_000, 210_000)]);
    let data = object(vec![("v", text_value("HELLO"))]);
    let calls = render(&t, &data, &vec![]);
    let (side, dark) = dark_modules("HELLO", qrcode::EcLevel::M);
    assert_eq!(side, 21);
    assert_eq!(dark.len(), 21 * 21);
    let mut expected = Vec::new();
    for (i, d) in dark.iter().enumerate() {
        if *d {
            expected.push(DrawCall::Rect {
                x: 130_000 + (i % 21) as i64 * 6_000,
                y: 30_000 + (i / 21) as i64 * 6_000,
                w: 6_000,
                h: 6_000,
                paint: fill(BLACK),
            });
        }
    }
    assert!(!expected.is_empty());
    assert_eq!(calls, expected);
}

#[test]
fn a_qr_code_follows_its_size_and_its_level() {
    let t = template(None, vec![qr_element("HELLO", Some("H"), Some(42_000), 126_000, 210_000)]);
    let calls = render(&t, &object(vec![]), &vec![]);
    let (side, dark) = dark_modules("HELLO", qrcode::EcLevel::H);
    assert_eq!(calls.len(), dark.iter().filter(|d| **d).count());
    let module = 42_000 / side as i64;
    for call in &calls {
        match call {
            DrawCall::Rect { w, h, .. } => {
                assert_eq!(*w, module);
                assert_eq!(*h, module);
            }
            other => panic!("unexpected call {:?}", other),
        }
    }
    let low = template(None, vec![qr_element("HELLO", Some("L"), Some(42_000), 126_000, 210_000)]);
    let (_, dark_low) = dark_modules("HELLO", qrcode::EcLevel::L);
    assert_eq!(render(&low, &object(vec![]), &vec![]).len(), dark_low.iter().filter(|d| **d).count());
    let other = template(None, vec![qr_element("HELLO", Some("X"), Some(42_000), 126_000, 210_000)]);
    let (_, dark_m) = dark_modules("HELLO", qrcode::EcLevel::M);
    assert_eq!(render(&other, &object(vec![]), &vec![]).len(), dark_m.iter().filter(|d| **d).count());
}

#[test]
fn a_qr_code_of_an_empty_or_oversized_value_draws_nothing() {
    let t = template(
        None,
        vec![
            qr_element("{{missing}}", None, None, 120_000, 120_000),
            element("after", 0, 1_000, 10_000, 10_000, Some("q"), ElementData::Text(text_props("x"))),
        ],
    );
    let calls = render(&t, &object(vec![]), &vec![]);
    assert_eq!(paragraph_tops(&calls), vec![151_000]);
    assert_eq!(calls.len(), 1);
    let long = "x".repeat(8000);
    let t = template(None, vec![qr_element(&long, None, None, 120_000, 120_000)]);
    assert!(render(&t, &object(vec![]), &vec![]).is_empty());
}

fn column(title: &str, field: &str, width: Option<TableColumnWidth>, align: Option<&str>) -> TableColumn {
    TableColumn {
        title: title.to_string(),
        field: field.to_string(),
        width,
        text_align: align.map(|s| s.to_string()),
    }
}

fn goods_table() -> TableProps {
    TableProps {
        data: "{{order.items}}".to_string(),
        columns: vec![
            column("菜品名称", "name", Some(TableColumnWidth::Percentage("50%".to_string())), None),
            column("数量", "qty", Some(TableColumnWidth::Percentage("20%".to_string())), Some("center")),
            column("金额", "amount", Some(TableColumnWidth::Percentage("30%".to_string())), Some("right")),
        ],
        show_head: None,
        cell_padding: Some(8_000),
        border_width: Some(0),
        border_color: None,
        auto_height: None,
    }
}

fn item(name: &str, qty: &str, amount: &str) -> Value {
    object(vec![
        ("name", text_value(name)),
        ("qty", Value::Number(qty.to_string())),
        ("amount", text_value(amount)),
    ])
}

fn order() -> Value {
    object(vec![(
        "order",
        object(vec![
            ("no", text_value("DP-20231024-8888")),
            ("time", text_value("2023-10-24 18:30:45")),
            ("cashier", text_value("007号")),
            ("total", text_value("216.00")),
            (
                "items",
                Value::Array(vec![
                    item("招牌香辣烤鱼", "1", "128.00"),
                    item("蒜蓉空心菜", "1", "28.00"),
                    item("鲜榨西瓜汁(扎)", "1", "48.00"),
                    item("米饭", "4", "12.00"),
                ]),
            ),
        ]),
    )])
}

fn receipt() -> DeepPrintTemplate {
    let mut header = text_props("DeepPrint 智慧餐厅");
    header.font_size = Some(24_000);
    header.font_weight = Some(FontWeight::String("bold".to_string()));
    header.text_align = Some("center".to_string());
    let mut sub = text_props("-- 结账单 --");
    sub.text_align = Some("center".to_string());
    sub.font_color = Some("#999999".to_string());
    let mut info = text_props("单号: {{order.no}}\n时间: {{order.time}}\n收银员: {{order.cashier}}");
    info.font_size = Some(10_000);
    info.line_height = Some(1_500);
    let line_1 = LineProps {
        stroke_width: None,
        stroke_color: Some("#CCCCCC".to_string()),
        dash_array: Some(vec![5_000, 5_000]),
    };
    let line_2 = LineProps {
        stroke_width: Some(2_000),
        stroke_color: Some("#000000".to_string()),
        dash_array: None,
    };
    let mut total = text_props("合计金额:   ￥{{order.total}}");
    total.text_align = Some("right".to_string());
    total.font_size = Some(16_000);
    total.font_weight = Some(FontWeight::String("bold".to_string()));
    let qr = QrcodeProps {
        value: "https://deepprint.io/invoice/{{order.no}}".to_string(),
        correction_level: Some("M".to_string()),
        size: None,
    };
    let mut footer = text_props("扫码开具电子发票\n谢谢惠顾，欢迎下次光临");
    footer.text_align = Some("center".to_string());
    footer.font_size = Some(10_000);
    footer.font_color = Some("#999999".to_string());
    template(
        Some(GlobalStyles {
            font_family: Some("Arial".to_string()),
            font_size: Some(12_000),
            font_color: Some("#333333".to_string()),
        }),
        vec![
            element("header", 0, 20_000, 380_000, 40_000, None, ElementData::Text(header)),
            element("sub_header", 0, 0, 380_000, 20_000, Some("header"), ElementData::Text(sub)),
            element("info_block", 20_000, 20_000, 340_000, 20_000, Some("sub_header"), ElementData::Text(info)),
            element("line_1", 20_000, 15_000, 340_000, 2_000, Some("info_block"), ElementData::Line(line_1)),
            element("goods_table", 20_000, 10_000, 340_000, 0, Some("line_1"), ElementData::Table(goods_table())),
            element("line_2", 20_000, 10_000, 340_000, 2_000, Some("goods_table"), ElementData::Line(line_2)),
            element("total_row", 20_000, 15_000, 340_000, 30_000, Some("line_2"), ElementData::Text(total)),
            element("qr_code", 130_000, 30_000, 120_000, 120_000, Some("total_row"), ElementData::Qrcode(qr)),
            element("footer", 0, 10_000, 380_000, 20_000, Some("qr_code"), ElementData::Text(footer)),
        ],
    )
}

fn receipt_heights() -> Vec<i64> {
    let mut heights = vec![30_000, 15_000, 40_000];
    for _ in 0..15 {
        heights.push(12_000);
    }
    heights.push(20_000);
    heights.push(25_000);
    heights
}

#[test]
fn receipt_is_laid_out_from_top_to_bottom() {
    let calls = render(&receipt(), &order(), &receipt_heights());
    let invoice = "https://deepprint.io/invoice/DP-20231024-8888";
    let (side, dark) = dark_modules(invoice, qrcode::EcLevel::M);
    let dark_count = dark.iter().filter(|d| **d).count();
    assert_eq!(side, 29);
    assert_eq!(dark.len(), side * side);
    assert_eq!(calls.len(), 3 + 1 + 15 + 1 + 1 + dark_count + 1);

    // The three texts at the top, each below the one before.
    match &calls[0] {
        DrawCall::Paragraph { run, x, y, .. } => {
            assert_eq!(run.text, "DeepPrint 智慧餐厅");
            assert_eq!(run.font_size, 24_000);
            assert_eq!(run.weight, 700);
            assert_eq!(run.align, TextAlign::Center);
            assert_eq!(run.color, Color { r: 51, g: 51, b: 51 });
            assert_eq!(run.font_family, Some("Arial".to_string()));
            assert_eq!((*x, *y), (0, 20_000));
        }
        other => panic!("unexpected call {:?}", other),
    }
    match &calls[1] {
        DrawCall::Paragraph { run, y, .. } => {
            assert_eq!(run.text, "-- 结账单 --");
            assert_eq!(run.color, Color { r: 153, g: 153, b: 153 });
            assert_eq!(*y, 50_000);
        }
        other => panic!("unexpected call {:?}", other),
    }
    match &calls[2] {
        DrawCall::Paragraph { run, x, y, .. } => {
            assert_eq!(run.text, "单号: DP-20231024-8888\n时间: 2023-10-24 18:30:45\n收银员: 007号");
            assert_eq!(run.line_height, 1_500);
            assert_eq!((*x, *y), (20_000, 85_000));
        }
        other => panic!("unexpected call {:?}", other),
    }
    // The separator.
    assert_eq!(
        calls[3],
        DrawCall::Line {
            x1: 20_000,
            y1: 140_000,
            x2: 360_000,
            y2: 142_000,
            paint: stroke(2830, Color { r: 204, g: 204, b: 204 }, vec![5_000, 5_000]),
        }
    );
    // The table: a header row and four rows of three cells, 28 points each.
    let titles = ["菜品名称", "数量", "金额"];
    let lefts = [20_000, 190_000, 258_000];
    let inner = [154_000, 52_000, 86_000];
    let aligns = [TextAlign::Left, TextAlign::Center, TextAlign::Right];
    for c in 0..3 {
        assert_eq!(
            calls[4 + c],
            DrawCall::Paragraph {
                run: small_run(titles[c], inner[c], aligns[c]),
                x: lefts[c] + 8_000,
                y: 152_000 + 8_000,
                clip_width: None,
            }
        );
    }
    let rows = [
        ["招牌香辣烤鱼", "1", "128.00"],
        ["蒜蓉空心菜", "1", "28.00"],
        ["鲜榨西瓜汁(扎)", "1", "48.00"],
        ["米饭", "4", "12.00"],
    ];
    for r in 0..4 {
        for c in 0..3 {
            assert_eq!(
                calls[7 + 3 * r + c],
                DrawCall::Paragraph {
                    run: small_run(rows[r][c], inner[c], aligns[c]),
                    x: lefts[c] + 8_000,
                    y: 180_000 + 28_000 * r as i64 + 8_000,
                    clip_width: None,
                }
            );
        }
    }
    // The line below the table, and the total.
    assert_eq!(
        calls[19],
        DrawCall::Line { x1: 20_000, y1: 302_000, x2: 360_000, y2: 304_000, paint: stroke(2_000, BLACK, vec![]) }
    );
    match &calls[20] {
        DrawCall::Paragraph { run, y, .. } => {
            assert_eq!(run.text, "合计金额:   ￥216.00");
            assert_eq!(run.align, TextAlign::Right);
            assert_eq!(*y, 319_000);
        }
        other => panic!("unexpected call {:?}", other),
    }
    // The QR code: one filled square for each dark module.
    let module = 120_000 / side as i64;
    let mut k = 21;
    for (i, d) in dark.iter().enumerate() {
        if *d {
            assert_eq!(
                calls[k],
                DrawCall::Rect {
                    x: 130_000 + (i % side) as i64 * module,
                    y: 369_000 + (i / side) as i64 * module,
                    w: module,
                    h: module,
                    paint: fill(BLACK),
                }
            );
            k += 1;
        }
    }
    assert_eq!(k, 21 + dark_count);
    // The footer below the QR code.
    match &calls[k] {
        DrawCall::Paragraph { run, y, .. } => {
            assert_eq!(run.text, "扫码开具电子发票\n谢谢惠顾，欢迎下次光临");
            assert_eq!(*y, 499_000);
        }
        other => panic!("unexpected call {:?}", other),
    }
}

#[test]
fn receipt_paragraphs_are_the_same_whatever_the_heights() {
    let t = receipt();
    let data = order();
    let mut first = DrawList::new();
    assert_eq!(DeepPrintRenderer::new().render(&mut first, &t, &data, &Vec::new()), Ok(()));
    let mut second = DrawList::new();
    assert_eq!(DeepPrintRenderer::new().render(&mut second, &t, &data, &receipt_heights()), Ok(()));
    assert_eq!(first.runs(), second.runs());
    assert_eq!(first.runs().len(), 20);
    assert_eq!(first.paragraphs, 20);
}

#[test]
fn a_table_without_header_or_rows() {
    let mut props = goods_table();
    props.show_head = Some(0);
    props.border_width = None;
    props.border_color = Some("#FF0000".to_string());
    let t = template(
        None,
        vec![
            element("t", 0, 10_000, 100_000, 0, None, ElementData::Table(props)),
            element("after", 0, 0, 10_000, 10_000, Some("t"), ElementData::Text(text_props("x"))),
        ],
    );
    let none = object(vec![]);
    let calls = render(&t, &none, &vec![5_000]);
    assert_eq!(paragraph_tops(&calls), vec![10_000]);
    let one = object(vec![("order", object(vec![("items", Value::Array(vec![item("a", "1", "2")]))]))]);
    let calls = render(&t, &one, &vec![5_000, 7_000, 6_000, 9_000]);
    let red = Color { r: 255, g: 0, b: 0 };
    assert_eq!(calls.len(), 7);
    assert_eq!(calls[0], DrawCall::Rect { x: 0, y: 10_000, w: 50_000, h: 23_000, paint: stroke(2830, red, vec![]) });
    assert_eq!(calls[2], DrawCall::Rect { x: 50_000, y: 10_000, w: 20_000, h: 23_000, paint: stroke(2830, red, vec![]) });
    assert_eq!(calls[4], DrawCall::Rect { x: 70_000, y: 10_000, w: 30_000, h: 23_000, paint: stroke(2830, red, vec![]) });
    assert_eq!(
        calls[3],
        DrawCall::Paragraph {
            run: small_run("1", 4_000, TextAlign::Center),
            x: 58_000,
            y: 18_000,
            clip_width: None,
        }
    );
    assert_eq!(paragraph_tops(&calls), vec![19_000, 18_000, 18_500, 33_000]);
}

#[test]
fn draw_list_counts_paragraphs() {
    let mut list = DrawList::new();
    list.draw_rect(0, 0, 1, 1, fill(BLACK));
    list.draw_oval(0, 0, 1, 1, fill(BLACK));
    list.draw_line(0, 0, 1, 1, stroke(1, BLACK, vec![]));
    list.draw_label("l".to_string(), 0, 0, 10, fill(BLACK));
    assert_eq!(list.paragraphs, 0);
    list.draw_paragraph(default_run("p", 1), 0, 0, None);
    list.draw_paragraph(default_run("q", 2), 0, 0, Some(3));
    assert_eq!(list.paragraphs, 2);
    assert_eq!(list.calls.len(), 6);
    assert_eq!(list.runs(), vec![default_run("p", 1), default_run("q", 2)]);
}
