use valua::const_mutation::ConstMutation;
use valua::diagnostics::{CollectingReporter, Diagnostic, Reporter};
use valua::lint::Lint;

fn parse(src: &str) -> valua::ast::Block {
    valua::parser::parse(src).expect("parse failed")
}

fn diags(src: &str) -> Vec<Diagnostic> {
    ConstMutation.check(&parse(src))
}

fn codes(src: &str) -> Vec<&'static str> {
    diags(src).into_iter().filter_map(|d| d.code).collect()
}

#[test]
fn cm_detects_simple_mutation() {
    assert_eq!(codes("local x <const> = 1\nx = 2"), vec!["E0301"]);
}

#[test]
fn cm_no_false_positive_plain_local() {
    assert!(codes("local x = 1\nx = 2").is_empty());
}

#[test]
fn cm_no_false_positive_read_only() {
    assert!(codes("local x <const> = 1\nlocal y = x + 1").is_empty());
}

#[test]
fn cm_multiple_mutations_same_const() {
    let result = codes("local x <const> = 1\nx = 2\nx = 3");
    assert_eq!(result, vec!["E0301", "E0301"]);
}

#[test]
fn cm_mutation_in_do_block() {
    assert_eq!(codes("local x <const> = 1\ndo\n  x = 2\nend"), vec!["E0301"]);
}

#[test]
fn cm_inner_non_const_shadows_outer_const() {
    assert!(codes("local x <const> = 1\ndo\n  local x = 2\n  x = 3\nend").is_empty());
}

#[test]
fn cm_shadow_ends_at_block_boundary() {
    let result = codes("local x <const> = 1\ndo\n  local x = 2\n  x = 3\nend\nx = 4");
    assert_eq!(result, vec!["E0301"]);
}

#[test]
fn cm_deeply_nested_do_blocks_detect_mutation() {
    let src = "local x <const> = 1\ndo\n  do\n    do\n      x = 2\n    end\n  end\nend";
    assert_eq!(codes(src), vec!["E0301"]);
}

#[test]
fn cm_deeply_nested_shadow_stops_at_boundary() {
    let src = "local x <const> = 1\ndo\n  do\n    local x = 2\n    x = 3\n  end\n  x = 4\nend";
    assert_eq!(codes(src), vec!["E0301"]);
}

#[test]
fn cm_mutation_in_anonymous_function_value() {
    let src = "local x <const> = 1\nlocal f = function() x = 2 end";
    assert_eq!(codes(src), vec!["E0301"]);
}

#[test]
fn cm_mutation_in_named_function_decl() {
    let src = "local x <const> = 1\nfunction foo() x = 2 end";
    assert_eq!(codes(src), vec!["E0301"]);
}

#[test]
fn cm_mutation_in_local_function_decl() {
    let src = "local x <const> = 1\nlocal function foo() x = 2 end";
    assert_eq!(codes(src), vec!["E0301"]);
}

#[test]
fn cm_function_param_shadows_outer_const() {
    let src = "local x <const> = 1\nlocal function f(x) x = 2 end";
    assert!(codes(src).is_empty());
}

#[test]
fn cm_function_param_does_not_affect_outer_scope() {
    let src = "local x <const> = 1\nlocal function f(x) x = 2 end\nx = 3";
    assert_eq!(codes(src), vec!["E0301"]);
}

#[test]
fn cm_close_attribute_not_flagged() {
    let src = "local x <close> = io.open('f')\nx = nil";
    assert!(codes(src).is_empty());
}

#[test]
fn cm_mutation_span_on_correct_line() {
    let src = "local x <const> = 1\nx = 2";
    let diagnostics = diags(src);
    assert_eq!(diagnostics.len(), 1);
    let d = &diagnostics[0];
    assert_eq!(d.code, Some("E0301"));
    assert_eq!(d.span.line, 2, "mutation span should be on line 2");
}

#[test]
fn cm_secondary_label_on_declaration_line() {
    let src = "local x <const> = 1\nx = 2";
    let diagnostics = diags(src);
    assert_eq!(diagnostics.len(), 1);
    let d = &diagnostics[0];
    assert_eq!(d.secondary_labels.len(), 1);
    assert_eq!(
        d.secondary_labels[0].0.line, 1,
        "secondary label should point to line 1 (declaration)"
    );
}

#[test]
fn cm_mutation_in_while_body() {
    let src = "local x <const> = 1\nwhile true do\n  x = 2\nend";
    assert_eq!(codes(src), vec!["E0301"]);
}

#[test]
fn cm_mutation_in_if_then() {
    let src = "local x <const> = 1\nif true then\n  x = 2\nend";
    assert_eq!(codes(src), vec!["E0301"]);
}

#[test]
fn cm_mutation_in_numeric_for_body() {
    let src = "local x <const> = 1\nfor i = 1, 10 do\n  x = 2\nend";
    assert_eq!(codes(src), vec!["E0301"]);
}

#[test]
fn cm_collecting_reporter_captures_e0301() {
    let src = "local x <const> = 1\nx = 2";
    let diagnostics = ConstMutation.check(&parse(src));
    let mut reporter = CollectingReporter::default();
    for d in &diagnostics {
        reporter.report(d, src, "test.lua");
    }
    assert!(reporter.has_errors());
    assert_eq!(reporter.diagnostics.len(), 1);
    assert_eq!(reporter.diagnostics[0].code, Some("E0301"));
}

#[test]
fn cm_collecting_reporter_clean_code() {
    let src = "local x <const> = 1\nreturn x";
    let diagnostics = ConstMutation.check(&parse(src));
    let mut reporter = CollectingReporter::default();
    for d in &diagnostics {
        reporter.report(d, src, "test.lua");
    }
    assert!(!reporter.has_errors());
}

#[test]
fn cm_message_names_the_variable() {
    let d = &diags("local count <const> = 1\ncount = 2")[0];
    assert_eq!(d.message, "assignment to const variable `count`");
    assert_eq!(d.notes.len(), 1);
    assert_eq!(
        d.notes[0],
        "`count` was declared with <const>; Lua 5.4 treats this as a compile-time constant"
    );
    assert_eq!(d.secondary_labels[0].1, "declared as const here");
}
