use valua::diagnostics::{CollectingReporter, Reporter};

use valua::unsupported::UnsupportedFeatureGuard;
use valua::lint::Lint;

fn parse_uf_src(src: &str) -> valua::ast::Block {
    valua::parser::parse(src).expect("parse failed")
}

fn uf_codes(src: &str) -> Vec<&'static str> {
    UnsupportedFeatureGuard
        .check(&parse_uf_src(src))
        .into_iter()
        .filter_map(|d| d.code)
        .collect()
}

// ── E0101: math.type detection ───────────────────────────────────────────

#[test]
fn uf_detects_math_type_call() {
    assert_eq!(uf_codes("math.type(1)"), vec!["E0101"]);
}

#[test]
fn uf_no_false_positive_math_floor() {
    assert!(uf_codes("math.floor(1.5)").is_empty());
}

#[test]
fn uf_no_false_positive_other_table_type() {
    assert!(uf_codes("x.type(1)").is_empty());
}

#[test]
fn uf_detects_math_type_in_local_decl() {
    assert_eq!(uf_codes("local t = math.type(1)"), vec!["E0101"]);
}

#[test]
fn uf_detects_math_type_in_return() {
    assert_eq!(uf_codes("return math.type(x)"), vec!["E0101"]);
}

#[test]
fn uf_detects_math_type_nested_in_table_value() {
    let src = "local t = { a = math.type(1) }";
    assert_eq!(uf_codes(src), vec!["E0101"]);
}

#[test]
fn uf_detects_math_type_as_multiple_args() {
    let src = "foo(math.type(1), math.type(2))";
    let result = uf_codes(src);
    assert_eq!(result.len(), 2);
    assert!(result.iter().all(|&c| c == "E0101"));
}

#[test]
fn uf_detects_math_type_in_function_body() {
    let src = "local function f() return math.type(1) end";
    assert_eq!(uf_codes(src), vec!["E0101"]);
}

// ── E0102: i64::MAX literal detection ───────────────────────────────────

#[test]
fn uf_detects_i64_max_literal() {
    let src = format!("local x = {}", i64::MAX);
    assert_eq!(uf_codes(&src), vec!["E0102"]);
}

#[test]
fn uf_no_false_positive_i64_max_minus_one() {
    let src = format!("local x = {}", i64::MAX - 1);
    assert!(uf_codes(&src).is_empty());
}

#[test]
fn uf_no_false_positive_small_integer() {
    assert!(uf_codes("local x = 42").is_empty());
}

#[test]
fn uf_detects_i64_max_in_positional_table() {
    let src = format!("local t = {{ {} }}", i64::MAX);
    assert_eq!(uf_codes(&src), vec!["E0102"]);
}

#[test]
fn uf_detects_i64_max_in_function_body() {
    let src = format!("function f() return {} end", i64::MAX);
    assert_eq!(uf_codes(&src), vec!["E0102"]);
}

// ── Combined E0101 + E0102 ───────────────────────────────────────────────

#[test]
fn uf_detects_both_codes_in_same_block() {
    let src = format!("math.type(1)\nlocal x = {}", i64::MAX);
    let result = uf_codes(&src);
    assert!(result.contains(&"E0101"), "expected E0101 in {result:?}");
    assert!(result.contains(&"E0102"), "expected E0102 in {result:?}");
}

// ── CollectingReporter integration ───────────────────────────────────────

#[test]
fn uf_collecting_reporter_captures_e0101() {
    let src = "math.type(1)";
    let diags = UnsupportedFeatureGuard.check(&parse_uf_src(src));
    let mut reporter = CollectingReporter::default();
    for d in &diags {
        reporter.report(d, src, "test.lua");
    }
    assert!(reporter.has_errors());
    assert_eq!(reporter.diagnostics[0].code, Some("E0101"));
}

#[test]
fn uf_collecting_reporter_captures_e0102() {
    let src = format!("local x = {}", i64::MAX);
    let diags = UnsupportedFeatureGuard.check(&parse_uf_src(&src));
    let mut reporter = CollectingReporter::default();
    for d in &diags {
        reporter.report(d, &src, "test.lua");
    }
    assert!(reporter.has_errors());
    assert_eq!(reporter.diagnostics[0].code, Some("E0102"));
}

#[test]
fn uf_clean_code_no_errors() {
    let src = "local x = 42\nreturn x + 1";
    let diags = UnsupportedFeatureGuard.check(&parse_uf_src(src));
    assert!(diags.is_empty());
}
