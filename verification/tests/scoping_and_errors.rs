use valua::ast::{Attribute, Statement};
use valua::bench::{jit_parity, outputs_agree};
use valua::compile::{CompileError, CompileOptions, Compiler};
use valua::const_mutation::ConstMutation;
use valua::diagnostics::{CollectingReporter, Reporter, Span};
use valua::lexer::Lexer;
use valua::lint::Lint;
use valua::parser::{parse, ParseError};
use valua::passes::{
    CloseAttributeTransform, ConstAttributeValidator, Transform, TransformError, TransformPass,
    TransformPipeline,
};
use valua::token::Token;
use valua::unsupported::UnsupportedFeatureGuard;

fn block_of(src: &str) -> valua::ast::Block {
    parse(src).expect("parses")
}

#[test]
fn const_validator_refuses_mutated_const() {
    let mut b = block_of("local x <const> = 1\nx = 2");
    let n = b.stmts.len();
    match ConstAttributeValidator.transform(&mut b) {
        Err(TransformError::ConstViolation { name, span }) => {
            assert_eq!(name, "x");
            assert_eq!(span, Span::new(20, 21, 2, 1));
        }
        other => panic!("expected a const violation, got {other:?}"),
    }
    assert_eq!(b.stmts.len(), n);
    match &b.stmts[0] {
        Statement::LocalDecl(d) => assert_eq!(d.names[0].attribute, Some(Attribute::Const)),
        other => panic!("expected a local declaration, got {other:?}"),
    }
}

#[test]
fn const_validator_strips_unmutated_const() {
    let mut b = block_of("local x <const> = 1\nreturn x");
    assert!(ConstAttributeValidator.transform(&mut b).is_ok());
    match &b.stmts[0] {
        Statement::LocalDecl(d) => assert_eq!(d.names[0].attribute, None),
        other => panic!("expected a local declaration, got {other:?}"),
    }
}

#[test]
fn const_lint_local_function_shadows_const() {
    let b = block_of("local x <const> = 1\nlocal function x() end\nx = 2");
    assert!(ConstMutation.check(&b).is_empty());
}

#[test]
fn const_lint_local_function_shadow_ends_with_block() {
    let b = block_of("local x <const> = 1\ndo\n  local function x() end\nend\nx = 2");
    let codes: Vec<_> = ConstMutation.check(&b).iter().map(|d| d.code).collect();
    assert_eq!(codes, vec![Some("E0301")]);
}

#[test]
fn unsupported_guard_scans_assignment_targets() {
    let b = block_of("t[math.type(1)] = 0");
    let codes: Vec<_> = UnsupportedFeatureGuard.check(&b).iter().map(|d| d.code).collect();
    assert_eq!(codes, vec![Some("E0101")]);
}

#[test]
fn close_transform_always_succeeds_and_inserts_helper() {
    let mut b = block_of("local f <close> = open()\nuse(f)");
    assert!(CloseAttributeTransform.transform(&mut b).is_ok());
    match &b.stmts[0] {
        Statement::LocalFunctionDecl(f) => assert_eq!(f.name, "__valua_close"),
        other => panic!("expected the close helper, got {other:?}"),
    }
}

#[test]
fn pipeline_stops_at_failing_pass_and_keeps_block() {
    let mut b = block_of("local x <const> = 1\nx = 2");
    let mut p = TransformPipeline::new();
    p.add_pass(TransformPass::ConstAttributeValidator(ConstAttributeValidator));
    p.add_pass(TransformPass::CloseAttributeTransform(CloseAttributeTransform));
    assert!(matches!(p.run(&mut b), Err(TransformError::ConstViolation { .. })));
    assert_eq!(b.stmts.len(), 2);
}

#[test]
fn collecting_reporter_default_is_empty() {
    let mut r = CollectingReporter::default();
    assert!(r.diagnostics.is_empty());
    assert!(!r.has_errors());
    let d = valua::diagnostics::Diagnostic::warning("w", Span::dummy());
    r.report(&d, "", "f");
    assert_eq!(r.diagnostics.len(), 1);
    assert!(!r.has_errors());
}

#[test]
fn lexer_into_items_yields_each_token() {
    let items = Lexer::new("x = 1").into_items();
    assert_eq!(items.len(), 4);
    assert!(matches!(&items[0], Ok(t) if t.token == Token::Ident("x".into())));
    assert!(matches!(&items[3], Ok(t) if t.token == Token::Eof));
    assert!(Lexer::new("@").into_items().is_empty());
}

#[test]
fn parser_refuses_deep_nesting() {
    let src = format!("x = {}1{}", "(".repeat(1000), ")".repeat(1000));
    match parse(&src) {
        Err(e @ ParseError::NestingDepthExceeded { .. }) => {
            assert_eq!(e.into_diagnostic().code, Some("E0203"));
        }
        other => panic!("expected a nesting error, got {:?}", other.map(|b| b.stmts.len())),
    }
    let blocks = format!("{}x = 1{}", "do ".repeat(1000), " end".repeat(1000));
    assert!(matches!(parse(&blocks), Err(ParseError::NestingDepthExceeded { .. })));
}

#[test]
fn parser_accepts_moderate_nesting() {
    let src = format!("x = {}1{}", "(".repeat(50), ")".repeat(50));
    assert!(parse(&src).is_ok());
}

#[test]
fn compile_unknown_attribute_is_parse_error() {
    match Compiler::compile("local x <future_attr> = 1", CompileOptions::luajit()) {
        Err(CompileError::Parse(e)) => assert!(e.message().contains("future_attr")),
        other => panic!("expected a parse error, got {other:?}"),
    }
}

#[test]
fn bench_verdicts() {
    assert!(jit_parity(Some(2), Some(1)));
    assert!(jit_parity(Some(0), Some(0)));
    assert!(!jit_parity(Some(0), Some(1)));
    assert!(!jit_parity(None, Some(0)));
    let a = String::from("42");
    let b = String::from("42");
    let c = String::from("43");
    assert!(outputs_agree(&a, &b, &a));
    assert!(!outputs_agree(&a, &b, &c));
}

#[test]
fn parse_refuses_tokens_after_the_top_level_block() {
    assert!(matches!(parse("x = 1 end"), Err(ParseError::Unexpected { found: Token::End, .. })));
    assert!(matches!(parse("return 1 2"), Err(ParseError::Unexpected { .. })));
    assert!(parse("return 1;").is_ok());
}

#[test]
fn parse_hex_literal_as_integer() {
    let b = block_of("local x = 0xFF");
    match &b.stmts[0] {
        Statement::LocalDecl(d) => {
            assert!(matches!(d.values[0], valua::ast::Expression::Integer(255, _)))
        }
        other => panic!("expected a local declaration, got {other:?}"),
    }
}

#[test]
fn compile_refuses_trailing_tokens() {
    assert!(matches!(
        Compiler::compile("x = 1 end", CompileOptions::luajit()),
        Err(CompileError::Parse(ParseError::Unexpected { .. }))
    ));
}
