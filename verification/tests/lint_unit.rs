use valua::ast::{Block, LuaTarget};
use valua::diagnostics::{CollectingReporter, Diagnostic, Reporter, Span};

use valua::lint::{Lint, LintPipeline};

fn parse_lint_src(src: &str) -> Block {
    valua::parser::parse(src).expect("parse failed")
}

fn lint_span() -> Span {
    Span::new(0, 1, 1, 1)
}

// ── Lint trait: mock implementations ─────────────────────────────────────

struct AlwaysErrors;
impl Lint for AlwaysErrors {
    fn check(&self, _: &Block) -> Vec<Diagnostic> {
        vec![Diagnostic::error("always fires", lint_span()).with_code("E9999")]
    }
}

struct NeverErrors;
impl Lint for NeverErrors {
    fn check(&self, _: &Block) -> Vec<Diagnostic> {
        vec![]
    }
}

#[test]
fn lint_trait_mock_fires() {
    let block = parse_lint_src("local x = 1");
    let diags = AlwaysErrors.check(&block);
    assert_eq!(diags.len(), 1);
    assert_eq!(diags[0].code, Some("E9999"));
}

#[test]
fn lint_trait_mock_silent() {
    let block = parse_lint_src("local x = 1");
    assert!(NeverErrors.check(&block).is_empty());
}

// ── LintPipeline: target routing ─────────────────────────────────────────

#[test]
fn pipeline_lua51_runs_unsupported_guard() {
    let block = parse_lint_src("math.type(1)");
    let diags = LintPipeline::default_for(LuaTarget::Lua51).run(&block);
    assert!(diags.iter().any(|d| d.code == Some("E0101")));
}

#[test]
fn pipeline_luajit_runs_unsupported_guard() {
    let block = parse_lint_src("math.type(1)");
    let diags = LintPipeline::default_for(LuaTarget::LuaJIT).run(&block);
    assert!(diags.iter().any(|d| d.code == Some("E0101")));
}

#[test]
fn pipeline_all_targets_run_const_mutation() {
    let block = parse_lint_src("local x <const> = 1\nx = 2");
    for target in [LuaTarget::Lua51, LuaTarget::LuaJIT] {
        let diags = LintPipeline::default_for(target).run(&block);
        assert!(
            diags.iter().any(|d| d.code == Some("E0301")),
            "{target:?} should detect E0301"
        );
    }
}

#[test]
fn pipeline_run_returns_diags_in_pass_order() {
    let src = format!(
        "local x <const> = 1\nx = 2\nmath.type(1)\nlocal y = {}",
        i64::MAX
    );
    let diags = LintPipeline::default_for(LuaTarget::Lua51).run(&parse_lint_src(&src));
    let codes: Vec<_> = diags.iter().filter_map(|d| d.code).collect();
    // E0301 from ConstMutation runs before E0101/E0102 from UnsupportedFeatureGuard
    let e0301_pos = codes.iter().position(|&c| c == "E0301").unwrap();
    let e0101_pos = codes.iter().position(|&c| c == "E0101").unwrap();
    assert!(
        e0301_pos < e0101_pos,
        "E0301 should appear before E0101 (pass order)"
    );
    assert!(codes.contains(&"E0102"));
}

#[test]
fn pipeline_clean_code_no_diags() {
    let block = parse_lint_src("local x = 1\nlocal y = x + 2\nreturn y");
    let diags = LintPipeline::default_for(LuaTarget::Lua51).run(&block);
    assert!(diags.is_empty());
}

// ── CollectingReporter integration ────────────────────────────────────────

#[test]
fn pipeline_with_collecting_reporter() {
    let src = "local x <const> = 1\nx = 2";
    let diags = LintPipeline::default_for(LuaTarget::Lua51).run(&parse_lint_src(src));
    let mut reporter = CollectingReporter::default();
    for d in &diags {
        reporter.report(d, src, "test.lua");
    }
    assert!(reporter.has_errors());
    assert!(reporter.diagnostics.iter().any(|d| d.code == Some("E0301")));
}

#[test]
fn pipeline_no_errors_reporter_clean() {
    let src = "local x = 1";
    let diags = LintPipeline::default_for(LuaTarget::Lua51).run(&parse_lint_src(src));
    let mut reporter = CollectingReporter::default();
    for d in &diags {
        reporter.report(d, src, "test.lua");
    }
    assert!(!reporter.has_errors());
}
