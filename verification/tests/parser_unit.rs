use valua::ast::{Attribute, BinaryOp, Block, Expression, Statement, UnaryOp};
use valua::parser::parse;

fn parse_ok(src: &str) -> Block {
    parse(src).unwrap_or_else(|e| panic!("parse failed: {}", e.message()))
}

#[test]
fn test_parse_empty_block() {
    let block = parse_ok("");
    assert!(block.stmts.is_empty());
}

#[test]
fn test_parse_local_decl() {
    let block = parse_ok("local x = 1");
    assert!(matches!(block.stmts[0], Statement::LocalDecl(_)));
    if let Statement::LocalDecl(d) = &block.stmts[0] {
        assert_eq!(d.names[0].name, "x");
        assert!(matches!(d.values[0], Expression::Integer(1, _)));
    }
}

#[test]
fn test_parse_const_attribute() {
    let block = parse_ok("local x <const> = 1");
    if let Statement::LocalDecl(d) = &block.stmts[0] {
        assert_eq!(d.names[0].attribute, Some(Attribute::Const));
    }
}

#[test]
fn test_parse_close_attribute() {
    let block = parse_ok(r#"local f <close> = io.open("f.txt", "r")"#);
    if let Statement::LocalDecl(d) = &block.stmts[0] {
        assert_eq!(d.names[0].attribute, Some(Attribute::Close));
    }
}

#[test]
fn test_parse_bitwise_expr() {
    let block = parse_ok("local x = a & b");
    if let Statement::LocalDecl(d) = &block.stmts[0] {
        assert!(matches!(
            d.values[0],
            Expression::BinOp(_, BinaryOp::BitwiseAnd, _, _)
        ));
    }
}



#[test]
fn test_paren_adjusts_span_on_binop() {
    // (a + b) — the BinOp node must adopt the outer () span.
    let block = parse_ok("local x = (a + b)");
    if let Statement::LocalDecl(d) = &block.stmts[0] {
        let expr = &d.values[0];
        // Inner span of `a + b` starts at `a`. Outer span starts at `(`.
        // With adjust_span fixed, expr.span().start points at `(`.
        assert!(
            matches!(expr, Expression::BinOp(_, BinaryOp::Add, _, _)),
            "expected BinOp"
        );
        // `local x = ` is 10 bytes; `(` is at offset 10.
        assert_eq!(expr.span().start, 10, "BinOp span should start at `(`");
        // closing `)` is at offset 16; end is exclusive so 17.
        assert_eq!(expr.span().end, 17, "BinOp span should end after `)`");
    } else {
        panic!("expected LocalDecl");
    }
}

#[test]
fn test_paren_adjusts_span_on_unop() {
    let block = parse_ok("local x = (#t)");
    if let Statement::LocalDecl(d) = &block.stmts[0] {
        let expr = &d.values[0];
        assert!(matches!(expr, Expression::UnOp(UnaryOp::Len, _, _)), "expected UnOp Len");
        assert_eq!(expr.span().start, 10, "UnOp span should start at `(`");
    } else {
        panic!("expected LocalDecl");
    }
}

#[test]
fn test_paren_adjusts_span_on_call() {
    let block = parse_ok("local x = (f())");
    if let Statement::LocalDecl(d) = &block.stmts[0] {
        let expr = &d.values[0];
        assert!(matches!(expr, Expression::Call(_)), "expected Call");
        assert_eq!(expr.span().start, 10, "Call span should start at outer `(`");
    } else {
        panic!("expected LocalDecl");
    }
}
