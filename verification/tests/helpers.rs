//! Tests of the helper catalog: case conversions, replacement, defaulting,
//! concatenation, variable assignment and time formatting.

use rustgen::context::VarContext;
use rustgen::rustgen_error::ErrorKind;
use rustgen::template::helpers::{
    apply_case, TplValue, CASE_ALTERNATING, CASE_CAMEL, CASE_COBOL, CASE_FLAT, CASE_KEBAB,
    CASE_LOWER, CASE_PASCAL, CASE_SCREAMING_SNAKE, CASE_SNAKE, CASE_TITLE, CASE_TOGGLE,
    CASE_TRAIN, CASE_UPPER, CASE_UPPER_FLAT,
};
use rustgen::template::renderer::render;
use rustgen::template::{ConcatHelper, DefaultHelper, RegexReplaceHelper, TimeHelper};

fn ctx_of(pairs: &[(&str, &str)]) -> VarContext {
    let mut ctx = VarContext::new();
    for (k, v) in pairs {
        ctx.insert(k, v);
    }
    ctx
}

fn render_one(template: &str, pairs: &[(&str, &str)]) -> String {
    let mut ctx = ctx_of(pairs);
    render(template, &mut ctx, 0).unwrap()
}

#[test]
fn case_helpers_change_their_input() {
    assert_eq!(apply_case(CASE_UPPER, "My variable NAME"), "MY VARIABLE NAME");
    assert_eq!(apply_case(CASE_LOWER, "My variable NAME"), "my variable name");
    assert_eq!(apply_case(CASE_SNAKE, "My variable NAME"), "my_variable_name");
    assert_eq!(apply_case(CASE_KEBAB, "My variable NAME"), "my-variable-name");
    assert_eq!(apply_case(CASE_PASCAL, "my variable name"), "MyVariableName");
    assert_eq!(apply_case(CASE_CAMEL, "my variable name"), "myVariableName");
    assert_eq!(apply_case(CASE_TITLE, "My variable NAME"), "My Variable Name");
    assert_eq!(
        apply_case(CASE_SCREAMING_SNAKE, "My variable NAME"),
        "MY_VARIABLE_NAME"
    );
    assert_eq!(apply_case(CASE_COBOL, "My variable NAME"), "MY-VARIABLE-NAME");
    assert_eq!(apply_case(CASE_TRAIN, "My variable NAME"), "My-Variable-Name");
    assert_eq!(apply_case(CASE_FLAT, "My variable NAME"), "myvariablename");
    assert_eq!(apply_case(CASE_UPPER_FLAT, "My variable NAME"), "MYVARIABLENAME");
    assert_eq!(apply_case(CASE_TOGGLE, "My variable NAME"), "mY vARIABLE nAME");
    assert_eq!(
        apply_case(CASE_ALTERNATING, "My variable NAME"),
        "mY vArIaBlE nAmE"
    );
}

#[test]
fn case_helpers_are_idempotent_on_their_own_output() {
    let kinds = [
        CASE_UPPER,
        CASE_LOWER,
        CASE_TITLE,
        CASE_CAMEL,
        CASE_PASCAL,
        CASE_SNAKE,
        CASE_SCREAMING_SNAKE,
        CASE_KEBAB,
        CASE_COBOL,
        CASE_TRAIN,
        CASE_FLAT,
        CASE_UPPER_FLAT,
    ];
    for kind in kinds {
        let once = apply_case(kind, "My variable NAME");
        let twice = apply_case(kind, once.as_str());
        assert_eq!(twice, once);
    }
    assert_eq!(apply_case(CASE_SNAKE, "snake_case"), "snake_case");
}

#[test]
fn case_helper_through_renderer() {
    assert_eq!(
        render_one("{{upper_case name}}", &[("name", "my-entity")]),
        "MY ENTITY"
    );
    assert_eq!(
        render_one("{{snake_case name}}", &[("name", "myEntity")]),
        "my_entity"
    );
}

#[test]
fn replace_replaces_all_literal_occurrences() {
    assert_eq!(
        render_one("{{replace input \"a\" \"x\"}}", &[("input", "a-b-a")]),
        "x-b-x"
    );
}

#[test]
fn regex_replace_reorders_capture_groups() {
    let out = RegexReplaceHelper::call("2024-01-02", "(\\d+)-(\\d+)-(\\d+)", "${3}/${2}/${1}")
        .unwrap();
    assert_eq!(out, "02/01/2024");
}

#[test]
fn regex_replace_through_renderer() {
    assert_eq!(
        render_one(
            "{{regex_replace date \"(\\d+)-(\\d+)-(\\d+)\" \"${3}/${2}/${1}\"}}",
            &[("date", "2024-01-02")]
        ),
        "02/01/2024"
    );
}

#[test]
fn regex_replace_with_bad_pattern_is_a_render_error() {
    let e = RegexReplaceHelper::call("abc", "(unclosed", "x").unwrap_err();
    assert_eq!(e.kind(), ErrorKind::Render);
}

#[test]
fn default_returns_fallback_only_for_falsy_values() {
    let fallback = || TplValue::Str(vec!['f', 'b']);
    for falsy in [
        TplValue::Missing,
        TplValue::Null,
        TplValue::Bool(false),
        TplValue::Int(0),
        TplValue::Str(Vec::new()),
    ] {
        match DefaultHelper::call(falsy, fallback()) {
            TplValue::Str(s) => assert_eq!(s, vec!['f', 'b']),
            _ => panic!("expected the fallback"),
        }
    }
    // The text "0" is non-empty text, so it is kept.
    match DefaultHelper::call(TplValue::Str(vec!['0']), fallback()) {
        TplValue::Str(s) => assert_eq!(s, vec!['0']),
        _ => panic!("expected the value"),
    }
    match DefaultHelper::call(TplValue::Int(7), fallback()) {
        TplValue::Int(n) => assert_eq!(n, 7),
        _ => panic!("expected the value"),
    }
    match DefaultHelper::call(TplValue::Bool(true), fallback()) {
        TplValue::Bool(b) => assert!(b),
        _ => panic!("expected the value"),
    }
}

#[test]
fn default_through_renderer() {
    assert_eq!(
        render_one("{{default missing \"fallback\"}}", &[]),
        "fallback"
    );
    assert_eq!(
        render_one("{{default v \"fallback\"}}", &[("v", "")]),
        "fallback"
    );
    assert_eq!(
        render_one("{{default v \"fallback\"}}", &[("v", "0")]),
        "0"
    );
    assert_eq!(
        render_one("{{default v \"fallback\"}}", &[("v", "value")]),
        "value"
    );
}

#[test]
fn concat_joins_in_order_without_separator() {
    let parts = vec![
        TplValue::Str(vec!['a']),
        TplValue::Int(12),
        TplValue::Str(vec!['b']),
        TplValue::Missing,
        TplValue::Bool(true),
    ];
    assert_eq!(ConcatHelper::call(&parts), "a12btrue");
    assert_eq!(
        render_one(
            "{{concat base \"/sub/\" name}}",
            &[("base", "root"), ("name", "file.txt")]
        ),
        "root/sub/file.txt"
    );
}

#[test]
fn set_binds_for_the_rest_of_the_pass_in_textual_order() {
    assert_eq!(render_one("{{x}}-{{set \"x\" \"1\"}}{{x}}", &[]), "-1");
    assert_eq!(
        render_one("{{set \"x\" (concat \"a\" \"b\")}}{{x}}", &[]),
        "ab"
    );
    // A value set in one render pass does not leak into another.
    let mut ctx = ctx_of(&[]);
    assert_eq!(render("{{set \"x\" \"1\"}}", &mut ctx, 0).unwrap(), "");
    assert_eq!(ctx.get_str("x").unwrap(), "1");
}

#[test]
fn nested_helper_calls_evaluate_inside_out() {
    assert_eq!(
        render_one("{{upper_case (concat \"a\" \"b\")}}", &[]),
        "AB"
    );
    assert_eq!(
        render_one(
            "{{replace (concat a a) \"x\" \"y\"}}",
            &[("a", "x-")]
        ),
        "y-y-"
    );
}

#[test]
fn unknown_helper_is_a_render_error() {
    let mut ctx = ctx_of(&[]);
    let e = render("{{frobnicate \"a\"}}", &mut ctx, 0).unwrap_err();
    assert_eq!(e.kind(), ErrorKind::Render);
}

#[test]
fn wrong_argument_count_is_a_render_error() {
    let mut ctx = ctx_of(&[("a", "x")]);
    let e = render("{{replace a \"x\"}}", &mut ctx, 0).unwrap_err();
    assert_eq!(e.kind(), ErrorKind::Render);
    let e = render("{{default a}}", &mut ctx, 0).unwrap_err();
    assert_eq!(e.kind(), ErrorKind::Render);
}

#[test]
fn unterminated_expression_is_a_render_error() {
    let mut ctx = ctx_of(&[]);
    let e = render("text {{name", &mut ctx, 0).unwrap_err();
    assert_eq!(e.kind(), ErrorKind::Render);
    let e = render("{{\"unterminated}}", &mut ctx, 0).unwrap_err();
    assert_eq!(e.kind(), ErrorKind::Render);
}

#[test]
fn missing_variable_renders_as_nothing() {
    assert_eq!(render_one("a{{ghost}}b", &[]), "ab");
}

#[test]
fn literal_text_is_copied_verbatim() {
    assert_eq!(render_one("no expressions here", &[]), "no expressions here");
    assert_eq!(render_one("", &[]), "");
}

#[test]
fn time_formats_the_epoch() {
    assert_eq!(TimeHelper::call(0, "%Y-%m-%d").unwrap(), "1970-01-01");
    assert_eq!(TimeHelper::call(0, "%F %T").unwrap(), "1970-01-01 00:00:00");
}

#[test]
fn time_formats_a_known_timestamp() {
    // 2024-01-02 01:02:03 UTC
    let ts: u64 = 1704153600 + 3723;
    assert_eq!(TimeHelper::call(ts, "%F").unwrap(), "2024-01-02");
    assert_eq!(TimeHelper::call(ts, "%H:%M:%S").unwrap(), "01:02:03");
    assert_eq!(TimeHelper::call(ts, "%d/%m/%Y").unwrap(), "02/01/2024");
    assert_eq!(TimeHelper::call(ts, "100%%").unwrap(), "100%");
}

#[test]
fn time_handles_leap_years() {
    // 2024-02-29 00:00:00 UTC
    let ts: u64 = 1709164800;
    assert_eq!(TimeHelper::call(ts, "%F").unwrap(), "2024-02-29");
    // 2100 is not a leap year: one day after 2100-02-28 is 2100-03-01.
    let ts2100: u64 = 4107456000 + 86400;
    assert_eq!(TimeHelper::call(ts2100, "%F").unwrap(), "2100-03-01");
}

#[test]
fn time_formats_names_and_numbers() {
    // 2024-01-02 was a Tuesday.
    let ts: u64 = 1704153600;
    assert_eq!(TimeHelper::call(ts, "%a %b %e %Y").unwrap(), "Tue Jan  2 2024");
    assert_eq!(TimeHelper::call(ts, "%A, %B").unwrap(), "Tuesday, January");
    assert_eq!(TimeHelper::call(ts, "%y %j %u %w").unwrap(), "24 002 2 2");
    assert_eq!(TimeHelper::call(ts, "%D %R").unwrap(), "01/02/24 00:00");
    assert_eq!(TimeHelper::call(ts, "%s").unwrap(), "1704153600");
    assert_eq!(TimeHelper::call(ts + 3723, "%I%p").unwrap(), "01AM");
    assert_eq!(TimeHelper::call(ts + 13 * 3600, "%I%p").unwrap(), "01PM");
    assert_eq!(TimeHelper::call(ts, "a%nb%tc").unwrap(), "a\nb\tc");
}

#[test]
fn case_helper_rejects_non_ascii_input() {
    let mut ctx = ctx_of(&[("name", "entit\u{00c4}t")]);
    let e = render("{{snake_case name}}", &mut ctx, 0).unwrap_err();
    assert_eq!(e.kind(), ErrorKind::Render);
}

#[test]
fn time_with_unknown_specifier_is_a_render_error() {
    let e = TimeHelper::call(0, "%Q").unwrap_err();
    assert_eq!(e.kind(), ErrorKind::Render);
    let mut ctx = ctx_of(&[]);
    let e = render("{{time \"%Q\"}}", &mut ctx, 0).unwrap_err();
    assert_eq!(e.kind(), ErrorKind::Render);
}

#[test]
fn time_through_renderer_uses_the_given_timestamp() {
    let mut ctx = ctx_of(&[]);
    assert_eq!(
        render("Today: {{time \"%Y-%m-%d\"}}", &mut ctx, 1704153600).unwrap(),
        "Today: 2024-01-02"
    );
}
