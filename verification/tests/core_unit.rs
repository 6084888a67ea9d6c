use valua::ast::Statement;
use valua::compile::{CompileOptions, Compiler};

#[test]
fn test_compile_empty_source() {
    let result = Compiler::compile("", CompileOptions::default());
    assert_eq!(result.expect("empty source should compile"), "");
}



#[test]
fn test_parse_only_returns_block() {
    let block = Compiler::parse_only("local x = 1").expect("parse failed");
    assert_eq!(block.stmts.len(), 1);
    assert!(matches!(block.stmts[0], Statement::LocalDecl(_)));
}
