use deep_print::color::Color;
use deep_print::draw::{DrawCall, DrawList, Paint, PaintStyle, TextRun, TextAlign};
use deep_print::engine::Engine;
use deep_print::style::first_fit;

const BLACK: Color = Color { r: 0, g: 0, b: 0 };

fn ink() -> Paint {
    Paint { style: PaintStyle::Fill, stroke_width: 0, color: BLACK, anti_alias: true, dash: Vec::new() }
}

fn dark_modules(content: &str) -> (usize, Vec<bool>) {
    let code = qrcode::QrCode::new(content).unwrap();
    (code.width(), code.to_colors().iter().map(|c| *c == qrcode::Color::Dark).collect())
}

#[test]
fn engine_converts_millimetres() {
    assert_eq!(Engine::mm_to_pt(100_000), 283_465);
    assert_eq!(Engine::mm_to_pt(60_000), 170_079);
    assert_eq!(Engine::mm_to_pt(210_000), 595_276);
}

#[test]
fn draw_qr_code_fills_the_dark_modules() {
    let mut canvas = DrawList::new();
    Engine::new().draw_qr_code(&mut canvas, "A-1", 10_000, 20_000, 42_000);
    let (side, dark) = dark_modules("A-1");
    assert_eq!(side, 21);
    let mut expected = Vec::new();
    for (i, d) in dark.iter().enumerate() {
        if *d {
            expected.push(DrawCall::Rect {
                x: 10_000 + (i % side) as i64 * 2_000,
                y: 20_000 + (i / side) as i64 * 2_000,
                w: 2_000,
                h: 2_000,
                paint: Paint {
                    style: PaintStyle::Fill,
                    stroke_width: 0,
                    color: BLACK,
                    anti_alias: false,
                    dash: Vec::new(),
                },
            });
        }
    }
    assert_eq!(canvas.calls, expected);
    assert_eq!(canvas.paragraphs, 0);
}

#[test]
fn draw_qr_code_ignores_what_cannot_be_encoded() {
    let mut canvas = DrawList::new();
    Engine::new().draw_qr_code(&mut canvas, &"x".repeat(8000), 0, 0, 100_000);
    assert!(canvas.calls.is_empty());
}

#[test]
fn draw_label_lays_out_texts_code_and_frame() {
    let mut canvas = DrawList::new();
    let page = Engine::new().draw_label(&mut canvas, "A-1", None, None);
    assert_eq!(page, (283_465, 170_079));
    let (side, dark) = dark_modules("A-1");
    let dark_count = dark.iter().filter(|d| **d).count();
    assert_eq!(canvas.calls.len(), 4 + dark_count + 1);
    assert_eq!(
        canvas.calls[0],
        DrawCall::Label { text: "Asset Tag".to_string(), x: 10_000, y: 30_000, font_size: 18_000, paint: ink() }
    );
    assert_eq!(
        canvas.calls[1],
        DrawCall::Label { text: "ID: A-1".to_string(), x: 10_000, y: 60_000, font_size: 12_000, paint: ink() }
    );
    assert_eq!(
        canvas.calls[2],
        DrawCall::Label { text: "Date: 2025-12-17".to_string(), x: 10_000, y: 76_000, font_size: 12_000, paint: ink() }
    );
    assert_eq!(
        canvas.calls[3],
        DrawCall::Label { text: "Dept: Engineering".to_string(), x: 10_000, y: 92_000, font_size: 12_000, paint: ink() }
    );
    let qr_size = 170_079 - 20_000;
    let module = qr_size / side as i64;
    let first_dark = dark.iter().position(|d| *d).unwrap();
    match &canvas.calls[4] {
        DrawCall::Rect { x, y, w, h, .. } => {
            assert_eq!(*x, 283_465 - qr_size - 10_000 + (first_dark % side) as i64 * module);
            assert_eq!(*y, 10_000 + (first_dark / side) as i64 * module);
            assert_eq!((*w, *h), (module, module));
        }
        other => panic!("unexpected call {:?}", other),
    }
    assert_eq!(
        canvas.calls[4 + dark_count],
        DrawCall::Rect {
            x: 2_000,
            y: 2_000,
            w: 279_465,
            h: 166_079,
            paint: Paint {
                style: PaintStyle::Stroke,
                stroke_width: 2_000,
                color: BLACK,
                anti_alias: true,
                dash: Vec::new(),
            },
        }
    );
}

#[test]
fn draw_label_takes_the_size_of_the_page() {
    let mut canvas = DrawList::new();
    let page = Engine::new().draw_label(&mut canvas, "", Some(50_000), Some(30_000));
    assert_eq!(page, (141_732, 85_039));
    let mut other = DrawList::new();
    let page = Engine::new().draw_label(&mut other, "", None, Some(30_000));
    assert_eq!(page, (283_465, 85_039));
}

fn run(size: i64) -> TextRun {
    TextRun {
        text: "t".to_string(),
        font_size: size,
        color: BLACK,
        font_family: None,
        weight: 400,
        line_height: 1200,
        underline: false,
        align: TextAlign::Left,
        width: None,
        shrink_to: Some(10_000),
    }
}

#[test]
fn shrink_sizes_halve_down_to_the_floor() {
    assert_eq!(run(24_000).shrink_sizes(), vec![24_000, 12_000, 6_000]);
    assert_eq!(run(25_000).shrink_sizes(), vec![25_000, 12_500, 6_250]);
    assert_eq!(run(11_999).shrink_sizes(), vec![11_999]);
    assert_eq!(run(12_000).shrink_sizes(), vec![12_000, 6_000]);
    assert_eq!(run(5_000).shrink_sizes(), vec![5_000]);
    assert_eq!(run(0).shrink_sizes(), vec![0]);
    assert_eq!(run(-7).shrink_sizes(), vec![-7]);
}

#[test]
fn first_fit_picks_the_first_height_under_the_limit() {
    assert_eq!(first_fit(&vec![30, 20, 10], 25), 1);
    assert_eq!(first_fit(&vec![30, 20, 10], 30), 0);
    assert_eq!(first_fit(&vec![30, 20, 10], 5), 2);
    assert_eq!(first_fit(&vec![30], 5), 0);
    assert_eq!(first_fit(&Vec::new(), 5), 0);
}
