use deep_print::color::{parse_color, Color};
use deep_print::units::{half, larger, mm_to_pt, sat_add, sat_sub, scale};

#[test]
fn parse_color_reads_rrggbb() {
    assert_eq!(parse_color("#FF0000"), Color { r: 255, g: 0, b: 0 });
    assert_eq!(parse_color("#00ff00"), Color { r: 0, g: 255, b: 0 });
    assert_eq!(parse_color("#333333"), Color { r: 51, g: 51, b: 51 });
    assert_eq!(parse_color("#1a2B3c"), Color { r: 26, g: 43, b: 60 });
    assert_eq!(parse_color("#000000"), Color { r: 0, g: 0, b: 0 });
    assert_eq!(parse_color("#ffffff"), Color { r: 255, g: 255, b: 255 });
}

#[test]
fn parse_color_gives_black_for_every_other_shape() {
    let black = Color { r: 0, g: 0, b: 0 };
    assert_eq!(parse_color("red"), black);
    assert_eq!(parse_color("#F00"), black);
    assert_eq!(parse_color(""), black);
    assert_eq!(parse_color("#"), black);
    assert_eq!(parse_color("FF00000"), black);
    assert_eq!(parse_color("#FF00000"), black);
    assert_eq!(parse_color("#GG0000"), black);
    assert_eq!(parse_color("#FFGG00"), black);
    assert_eq!(parse_color("#+F0000"), black);
    assert_eq!(parse_color("#FF000é"), black);
}

#[test]
fn named_colors() {
    assert_eq!(Color::black(), Color { r: 0, g: 0, b: 0 });
    assert_eq!(Color::light_gray(), Color { r: 204, g: 204, b: 204 });
    assert_eq!(Color::red(), Color { r: 255, g: 0, b: 0 });
}

#[test]
fn mm_to_pt_multiplies_by_the_factor() {
    assert_eq!(mm_to_pt(1000), 2834);
    assert_eq!(mm_to_pt(100000), 283465);
    assert_eq!(mm_to_pt(60000), 170079);
    assert_eq!(mm_to_pt(0), 0);
    assert_eq!(mm_to_pt(-1000), -2834);
    assert_eq!(mm_to_pt(i64::MAX), i64::MAX);
    assert_eq!(mm_to_pt(i64::MIN), i64::MIN);
}

#[test]
fn saturating_arithmetic_holds_at_the_ends() {
    assert_eq!(sat_add(1, 2), 3);
    assert_eq!(sat_add(i64::MAX, 1), i64::MAX);
    assert_eq!(sat_add(i64::MIN, -1), i64::MIN);
    assert_eq!(sat_sub(5, 7), -2);
    assert_eq!(sat_sub(i64::MIN, 1), i64::MIN);
    assert_eq!(sat_sub(i64::MAX, -1), i64::MAX);
    assert_eq!(sat_sub(0, i64::MIN), i64::MAX);
}

#[test]
fn half_rounds_toward_zero() {
    assert_eq!(half(20000), 10000);
    assert_eq!(half(5), 2);
    assert_eq!(half(-5), -2);
    assert_eq!(half(0), 0);
    assert_eq!(half(i64::MIN), i64::MIN / 2);
    assert_eq!(half(i64::MAX), i64::MAX / 2);
}

#[test]
fn scale_multiplies_then_divides() {
    assert_eq!(scale(150000, 50000, 100000), 75000);
    assert_eq!(scale(100, 1, 3), 33);
    assert_eq!(scale(-100, 1, 3), -33);
    assert_eq!(scale(i64::MAX, 2, 1), i64::MAX);
    assert_eq!(scale(i64::MIN, 2, 1), i64::MIN);
    assert_eq!(scale(7, 0, 5), 0);
}

#[test]
fn larger_picks_the_larger() {
    assert_eq!(larger(1, 2), 2);
    assert_eq!(larger(2, 1), 2);
    assert_eq!(larger(-1, -1), -1);
}
