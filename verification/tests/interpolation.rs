use deep_print::interpolate::Interpolator;
use deep_print::text::{chars_of, decimal, same_text, split, strip};
use deep_print::value::{Member, Value};

fn object(members: Vec<(&str, Value)>) -> Value {
    Value::Object(
        members
            .into_iter()
            .map(|(key, value)| Member { key: key.to_string(), value })
            .collect(),
    )
}

fn text(s: &str) -> Value {
    Value::String(s.to_string())
}

fn number(s: &str) -> Value {
    Value::Number(s.to_string())
}

fn sample() -> Value {
    object(vec![
        ("x", object(vec![("y", text("deep")), ("n", number("42")), ("t", Value::Bool(true))])),
        ("user", object(vec![("name", text("Ada"))])),
        ("flag", Value::Bool(false)),
        ("nothing", Value::Null),
        ("list", Value::Array(vec![number("1"), number("2")])),
        ("price", number("12.5")),
    ])
}

#[test]
fn render_replaces_a_token_by_the_scalar_under_its_path() {
    let data = sample();
    assert_eq!(Interpolator::render("{{x.y}}", &data), "deep");
    assert_eq!(Interpolator::render("{{x.n}}", &data), "42");
    assert_eq!(Interpolator::render("{{price}}", &data), "12.5");
    assert_eq!(Interpolator::render("{{x.t}}", &data), "true");
    assert_eq!(Interpolator::render("{{flag}}", &data), "false");
}

#[test]
fn render_leaves_nothing_for_a_missing_path() {
    let data = sample();
    assert_eq!(Interpolator::render("{{x.z}}", &data), "");
    assert_eq!(Interpolator::render("a{{missing}}b", &data), "ab");
    assert_eq!(Interpolator::render("{{x.y.deeper}}", &data), "");
}

#[test]
fn render_leaves_nothing_for_null_and_containers() {
    let data = sample();
    assert_eq!(Interpolator::render("[{{nothing}}]", &data), "[]");
    assert_eq!(Interpolator::render("[{{list}}]", &data), "[]");
    assert_eq!(Interpolator::render("[{{x}}]", &data), "[]");
}

#[test]
fn render_tolerates_white_space_inside_the_braces() {
    let data = sample();
    assert_eq!(Interpolator::render("{{ x.y }}", &data), "deep");
    assert_eq!(Interpolator::render("{{\tx.y\n}}", &data), "deep");
    assert_eq!(Interpolator::render("{{   user.name}}", &data), "Ada");
}

#[test]
fn render_keeps_the_text_around_the_tokens() {
    let data = sample();
    assert_eq!(Interpolator::render("Hello {{user.name}}!", &data), "Hello Ada!");
    assert_eq!(Interpolator::render("Hello {{user.name}}!", &object(vec![])), "Hello !");
    assert_eq!(
        Interpolator::render("{{x.y}}-{{x.n}}-{{user.name}}", &data),
        "deep-42-Ada"
    );
    assert_eq!(Interpolator::render("no tokens here", &data), "no tokens here");
    assert_eq!(Interpolator::render("", &data), "");
}

#[test]
fn render_leaves_what_is_no_token_alone() {
    let data = sample();
    assert_eq!(Interpolator::render("{x.y}", &data), "{x.y}");
    assert_eq!(Interpolator::render("{{x y}}", &data), "{{x y}}");
    assert_eq!(Interpolator::render("{{}}", &data), "{{}}");
    assert_eq!(Interpolator::render("{{x-y}}", &data), "{{x-y}}");
}

#[test]
fn render_keeps_text_that_is_not_ascii() {
    let data = object(vec![("order", object(vec![("total", text("216.00"))]))]);
    assert_eq!(
        Interpolator::render("合计金额:   ￥{{order.total}}", &data),
        "合计金额:   ￥216.00"
    );
}

#[test]
fn assemble_weaves_pieces_and_token_values() {
    let data = sample();
    let pieces = vec!["Hello ".to_string(), "!".to_string()];
    let tokens = vec!["{{ user.name }}".to_string()];
    assert_eq!(Interpolator::assemble(&pieces, &tokens, &data), "Hello Ada!");
    let none: Vec<String> = Vec::new();
    assert_eq!(Interpolator::assemble(&pieces, &none, &data), "Hello !");
    assert_eq!(Interpolator::assemble(&none, &tokens, &data), "Ada");
    assert_eq!(Interpolator::assemble(&none, &none, &data), "");
}

#[test]
fn path_of_token_is_the_run_of_path_characters() {
    assert_eq!(Interpolator::path_of_token("{{ a.b_1 }}"), "a.b_1");
    assert_eq!(Interpolator::path_of_token("{{x}}"), "x");
    assert_eq!(Interpolator::path_of_token("{{}}"), "");
    assert_eq!(Interpolator::path_of_token(""), "");
    assert_eq!(Interpolator::path_of_token("ab cd"), "ab");
}

#[test]
fn get_value_from_obj_follows_the_dotted_path() {
    let data = sample();
    assert_eq!(Interpolator::get_value_from_obj(&data, "user.name"), "Ada");
    assert_eq!(Interpolator::get_value_from_obj(&data, "user"), "");
    assert_eq!(Interpolator::get_value_from_obj(&data, "user.age"), "");
    assert_eq!(Interpolator::get_value_from_obj(&data, ""), "");
    assert_eq!(Interpolator::get_value_from_obj(&text("plain"), "a"), "");
}

#[test]
fn get_value_by_path_is_none_for_an_empty_text() {
    let data = sample();
    assert_eq!(Interpolator::get_value_by_path(&data, "x.y"), Some("deep".to_string()));
    assert_eq!(Interpolator::get_value_by_path(&data, "x.z"), None);
    assert_eq!(Interpolator::get_value_by_path(&data, "nothing"), None);
}

#[test]
fn get_array_by_path_strips_braces_and_blanks() {
    let data = sample();
    let expected = vec![number("1"), number("2")];
    assert_eq!(Interpolator::get_array_by_path(&data, "{{list}}"), Some(&expected));
    assert_eq!(Interpolator::get_array_by_path(&data, "{{ list }}"), Some(&expected));
    assert_eq!(Interpolator::get_array_by_path(&data, "list"), Some(&expected));
    assert_eq!(Interpolator::get_array_by_path(&data, "{{x.y}}"), None);
    assert_eq!(Interpolator::get_array_by_path(&data, "{{missing}}"), None);
    assert_eq!(Interpolator::get_array_by_path(&data, ""), None);
}

#[test]
fn get_array_by_path_reaches_nested_arrays() {
    let items = vec![object(vec![("name", text("rice"))])];
    let data = object(vec![("order", object(vec![("items", Value::Array(vec![object(vec![("name", text("rice"))])]))]))]);
    assert_eq!(Interpolator::get_array_by_path(&data, "{{order.items}}"), Some(&items));
}

#[test]
fn split_gives_one_more_piece_than_separators() {
    assert_eq!(split("a.b.c", '.'), vec!["a", "b", "c"]);
    assert_eq!(split("", '.'), vec![""]);
    assert_eq!(split("a..b", '.'), vec!["a", "", "b"]);
    assert_eq!(split(".a.", '.'), vec!["", "a", ""]);
    assert_eq!(split("名.字", '.'), vec!["名", "字"]);
}

#[test]
fn strip_takes_braces_and_blanks_from_both_ends() {
    assert_eq!(strip("{{ a.b }}"), "a.b");
    assert_eq!(strip("a {b} c"), "a {b} c");
    assert_eq!(strip("{{}}"), "");
    assert_eq!(strip(" \t\n"), "");
    assert_eq!(strip(""), "");
}

#[test]
fn value_get_finds_the_first_member_of_that_key() {
    let v = object(vec![("a", number("1")), ("a", number("2")), ("b", Value::Null)]);
    assert_eq!(v.get("a"), Some(&number("1")));
    assert_eq!(v.get("b"), Some(&Value::Null));
    assert_eq!(v.get("c"), None);
    assert_eq!(number("1").get("a"), None);
    assert_eq!(Value::Array(vec![]).get("0"), None);
}

#[test]
fn value_to_text_writes_scalars_only() {
    assert_eq!(text("s").to_text(), "s");
    assert_eq!(number("-1.5e3").to_text(), "-1.5e3");
    assert_eq!(Value::Bool(true).to_text(), "true");
    assert_eq!(Value::Bool(false).to_text(), "false");
    assert_eq!(Value::Null.to_text(), "");
    assert_eq!(Value::Array(vec![text("s")]).to_text(), "");
    assert_eq!(object(vec![("a", text("s"))]).to_text(), "");
}

#[test]
fn decimal_writes_numbers() {
    assert_eq!(decimal(0), "0");
    assert_eq!(decimal(7), "7");
    assert_eq!(decimal(10), "10");
    assert_eq!(decimal(1234567890), "1234567890");
    assert_eq!(decimal(usize::MAX), usize::MAX.to_string());
}

#[test]
fn chars_and_equality_of_texts() {
    assert_eq!(chars_of("aé名"), vec!['a', 'é', '名']);
    assert_eq!(chars_of(""), Vec::<char>::new());
    assert!(same_text("abc", "abc"));
    assert!(same_text("", ""));
    assert!(!same_text("abc", "abd"));
    assert!(!same_text("abc", "ab"));
    assert!(!same_text("é", "e"));
}
