use valua::ast::{BinaryOp, Expression, LuaTarget, Statement, UnaryOp};
use valua::codegen::{CodeGen, EmitOptions, LuaEmitter};
use valua::compile::{CompileError, CompileOptions, Compiler};
use valua::lexer::{LexError, Lexer};
use valua::lint::{Lint, LintPipeline};
use valua::parser::{binary_prec, parse, ParseError};
use valua::token::Token;
use valua::unsupported::UnsupportedFeatureGuard;

fn lex(src: &str) -> Vec<Token> {
    Lexer::new(src).tokenize().expect("lex failed").into_iter().map(|t| t.token).collect()
}

fn compile(src: &str, opts: CompileOptions) -> String {
    Compiler::compile(src, opts).expect("compile failed")
}

#[test]
fn test_compile_options_default() {
    let opts = CompileOptions::default();
    assert_eq!(opts.target, LuaTarget::Lua51);
    assert!(opts.inject_polyfills);
    assert_eq!(CompileOptions::lua51().target, LuaTarget::Lua51);
}

#[test]
fn compile_empty_source_is_empty() {
    assert_eq!(compile("", CompileOptions::default()), "");
}

#[test]
fn compile_readme_example_for_luajit() {
    let src = "local function process(mask, value)\n    local result = value & mask    -- bitwise AND\n    local half   = result // 2     -- integer floor division\n    return half | 0xFF00           -- bitwise OR\nend\n";
    let out = compile(src, CompileOptions::luajit());
    assert_eq!(
        out,
        "local function process(mask, value)\n    local result = bit.band(value, mask)\n    local half = math.floor(result / 2)\n    return bit.bor(half, 65280)\nend\n"
    );
}

#[test]
fn compile_lua51_prepends_bit_polyfill() {
    let out = compile("local x = a & b", CompileOptions::lua51());
    assert!(out.starts_with("local _bU = 4294967296\n"));
    assert!(out.ends_with("local x = bit.band(a, b)\n"));
}

#[test]
fn compile_without_polyfills_keeps_only_code() {
    let mut opts = CompileOptions::lua51();
    opts.inject_polyfills = false;
    assert_eq!(compile("local x = a & b", opts), "local x = bit.band(a, b)\n");
}

#[test]
fn compile_strips_const() {
    assert_eq!(compile("local x <const> = 1\nreturn x", CompileOptions::luajit()), "local x = 1\nreturn x\n");
}

#[test]
fn compile_rejects_const_mutation() {
    match Compiler::compile("local x <const> = 1\nx = 2", CompileOptions::luajit()) {
        Err(CompileError::Lint(ds)) => {
            assert_eq!(ds.len(), 1);
            assert_eq!(ds[0].code, Some("E0301"));
        }
        other => panic!("expected lint error, got {other:?}"),
    }
}

#[test]
fn compile_block_refuses_every_lint_error_in_order() {
    let src = "local x <const> = 1\nlocal t = math.type(1)\nx = 2";
    let block = Compiler::parse_only(src).expect("parses");
    match Compiler::compile_block(block, CompileOptions::luajit()) {
        Err(CompileError::Lint(ds)) => {
            let codes: Vec<_> = ds.iter().map(|d| d.code).collect();
            assert_eq!(codes, vec![Some("E0301"), Some("E0101")]);
        }
        other => panic!("expected lint errors, got {other:?}"),
    }
}

#[test]
fn compile_block_emits_clean_block() {
    let block = Compiler::parse_only("local a = 1 & 2").expect("parses");
    match Compiler::compile_block(block, CompileOptions::luajit()) {
        Ok(text) => assert_eq!(text, "local a = bit.band(1, 2)\n"),
        other => panic!("expected output, got {other:?}"),
    }
}

#[test]
fn compile_reports_parse_error() {
    match Compiler::compile("local = 1", CompileOptions::luajit()) {
        Err(e @ CompileError::Parse(_)) => {
            let d = e.into_parse_diagnostic().expect("parse diagnostic");
            assert_eq!(d.code, Some("E0201"));
        }
        other => panic!("expected parse error, got {other:?}"),
    }
}

#[test]
fn compile_close_wraps_tail_in_pcall() {
    let src = "local f <close> = open()\nuse(f)\nreturn 1";
    let mut opts = CompileOptions::luajit();
    opts.inject_polyfills = false;
    let out = compile(src, opts);
    assert!(out.starts_with("local function __valua_close(obj)\n"));
    assert!(out.contains("local f = open()\nlocal __valua_ok, __valua_result = pcall(function()\n    use(f)\n    return 1\nend)\n__valua_close(f)\nif not __valua_ok then\n    error(__valua_result, 0)\nend\nreturn __valua_result\n"));
}

#[test]
fn lexer_integers_and_operators() {
    assert_eq!(lex("42")[0], Token::Integer(42));
    assert_eq!(lex("0xFF")[0], Token::HexInteger(255));
    let t = lex("& | ~ << >> //");
    assert_eq!(&t[..6], &[Token::Ampersand, Token::Pipe, Token::Tilde, Token::LtLt, Token::GtGt, Token::DoubleSlash]);
    assert_eq!(t[6], Token::Eof);
}

#[test]
fn lexer_strings_and_comments() {
    assert_eq!(lex("\"a\\tb\\65\\x41\\u{48}\"")[0], Token::StringLit("a\tbAAH".into()));
    assert_eq!(lex("[==[\nx]]y]==]")[0], Token::StringLit("x]]y".into()));
    assert_eq!(lex("1 --[[ c\n ]] 2 -- end"), vec![Token::Integer(1), Token::Integer(2), Token::Eof]);
    assert_eq!(lex("1.5e3 .5 0x1p4")[..3], [Token::Float("1.5e3".into()), Token::Float(".5".into()), Token::Float("0x1p4".into())]);
}

#[test]
fn lexer_errors() {
    assert!(matches!(Lexer::new("@").tokenize(), Err(LexError::UnexpectedChar { ch: '@', .. })));
    assert!(matches!(Lexer::new("\"hello").tokenize(), Err(LexError::UnterminatedString { .. })));
    assert!(matches!(Lexer::new("\"\\xGG\"").tokenize(), Err(LexError::InvalidEscape { .. })));
    assert!(matches!(Lexer::new("\"\\256\"").tokenize(), Err(LexError::InvalidEscape { .. })));
    assert!(matches!(Lexer::new("\"\\u{D800}\"").tokenize(), Err(LexError::InvalidEscape { .. })));
    assert!(matches!(Lexer::new("[[hello").tokenize(), Err(LexError::UnterminatedLongString { .. })));
    assert!(matches!(Lexer::new("--[[ open").tokenize(), Err(LexError::UnterminatedLongString { .. })));
    assert!(matches!(Lexer::new("99999999999999999999").tokenize(), Err(LexError::InvalidNumber { .. })));
}

#[test]
fn lexer_spans_lines_and_columns() {
    let toks = Lexer::new("a\n  bb").tokenize().unwrap();
    assert_eq!((toks[1].span.start, toks[1].span.end, toks[1].span.line, toks[1].span.col), (4, 6, 2, 3));
    let eof = toks[2].span;
    assert_eq!((eof.start, eof.end, eof.line, eof.col), (6, 6, 2, 4));
}

#[test]
fn lexer_error_message_and_diagnostic() {
    let e = Lexer::new("x = $").tokenize().unwrap_err();
    assert_eq!(e.message(), "unexpected character '$'");
    let d = e.into_diagnostic();
    assert_eq!((d.span.start, d.span.end), (4, 5));
}

#[test]
fn token_describe() {
    assert_eq!(Token::Integer(-3).describe(), "integer `-3`");
    assert_eq!(Token::HexInteger(255).describe(), "integer `0xff`");
    assert_eq!(Token::Ident("x".into()).describe(), "`x`");
    assert_eq!(Token::End.describe(), "`end`");
    assert_eq!(Token::Eof.describe(), "end of file");
    assert_eq!(Token::StringLit("a\"b".into()).describe(), "string `\"a\\\"b\"`");
}

#[test]
fn parser_precedence_and_associativity() {
    let b = parse("return 1 + 2 * 3 ^ 2 ^ 1 .. x .. y").unwrap();
    let Statement::Return(r) = &b.stmts[0] else { panic!("expected return") };
    let Expression::BinOp(lhs, BinaryOp::Concat, rhs, _) = &r.values[0] else { panic!("concat at top") };
    assert!(matches!(**lhs, Expression::BinOp(_, BinaryOp::Add, _, _)));
    assert!(matches!(**rhs, Expression::BinOp(_, BinaryOp::Concat, _, _)));
    assert_eq!(binary_prec(BinaryOp::Pow), (24, 23));
    assert_eq!(binary_prec(BinaryOp::Add), (17, 18));
}

#[test]
fn parser_unary_binds_looser_than_pow() {
    let b = parse("return -x ^ 2").unwrap();
    let Statement::Return(r) = &b.stmts[0] else { panic!() };
    assert!(matches!(r.values[0], Expression::UnOp(UnaryOp::Neg, _, _)));
}

#[test]
fn parser_paren_span() {
    let b = parse("local x = (a + b)").unwrap();
    let Statement::LocalDecl(d) = &b.stmts[0] else { panic!() };
    assert_eq!((d.values[0].span().start, d.values[0].span().end), (10, 17));
}

#[test]
fn parser_errors_and_codes() {
    let e = parse("local x <foo> = 1").unwrap_err();
    assert!(matches!(e, ParseError::Expected { .. }));
    let d = e.into_diagnostic();
    assert_eq!(d.code, Some("E0202"));
    assert_eq!(d.message, "unknown attribute `foo`");
    let e = parse("x").unwrap_err();
    assert_eq!(e.message(), "unexpected token end of file");
    assert_eq!(e.into_diagnostic().code, Some("E0201"));
    let e = parse("do x = 1").unwrap_err();
    assert_eq!(e.message(), "expected End, found end of file");
    assert!(matches!(parse("@"), Err(ParseError::Lex(LexError::UnexpectedChar { .. }))));
}

#[test]
fn lint_pipeline_orders_passes() {
    let src = format!("local x <const> = 1\nx = 2\nmath.type(1)\nlocal y = {}", i64::MAX);
    let diags = LintPipeline::default_for(LuaTarget::Lua51).run(&parse(&src).unwrap());
    let codes: Vec<_> = diags.iter().filter_map(|d| d.code).collect();
    assert_eq!(codes, vec!["E0301", "E0101", "E0102"]);
}

#[test]
fn unsupported_guard_flags_math_type() {
    let diags = UnsupportedFeatureGuard.check(&parse("math.type(1)").unwrap());
    assert_eq!(diags.len(), 1);
    assert_eq!(diags[0].code, Some("E0101"));
}

#[test]
fn emitter_parenthesizes_by_precedence() {
    let b = parse("return (a + b) * c, a - (b - c), (a .. b) .. c, -(-x), (\"s\"):len(), {1, k = 2, [3] = 4}").unwrap();
    let out = LuaEmitter::lua51().emit(&b).unwrap();
    assert_eq!(out, "return (a + b) * c, a - (b - c), (a .. b) .. c, -(-x), (\"s\"):len(), {1, k = 2, [3] = 4}\n");
}

#[test]
fn emitter_indents_with_option() {
    let b = parse("while x do if y then z() else w() end end").unwrap();
    let opts = EmitOptions { indent: "\t".to_string(), ..EmitOptions::default() };
    let out = LuaEmitter::new(opts).emit(&b).unwrap();
    assert_eq!(out, "while x do\n\tif y then\n\t\tz()\n\telse\n\t\tw()\n\tend\nend\n");
}

#[test]
fn emitter_escapes_strings() {
    let b = parse("print(\"a\\nb\\0\")").unwrap();
    assert_eq!(LuaEmitter::luajit().emit(&b).unwrap(), "print(\"a\\nb\\000\")\n");
}
