use valua::lexer::{LexError, Lexer};
use valua::token::Token;

fn lex_tokens(src: &str) -> Vec<Token> {
    Lexer::new(src)
        .tokenize()
        .expect("lex failed")
        .into_iter()
        .map(|st| st.token)
        .collect()
}

#[test]
fn test_lexes_integer() {
    let tokens = lex_tokens("42");
    assert_eq!(tokens[0], Token::Integer(42));
}

#[test]
fn test_lexes_hex_integer() {
    let tokens = lex_tokens("0xFF");
    assert_eq!(tokens[0], Token::HexInteger(0xFF));
}

#[test]
fn test_lexes_const_attribute() {
    // <const> is not a single token; it lexes as Lt, Ident("const"), Gt
    let tokens = lex_tokens("<const>");
    assert_eq!(tokens[0], Token::Lt);
    assert_eq!(tokens[1], Token::Ident("const".into()));
    assert_eq!(tokens[2], Token::Gt);
}

#[test]
fn test_lexes_bitwise_operators() {
    let tokens = lex_tokens("& | ~ << >>");
    assert_eq!(tokens[0], Token::Ampersand);
    assert_eq!(tokens[1], Token::Pipe);
    assert_eq!(tokens[2], Token::Tilde);
    assert_eq!(tokens[3], Token::LtLt);
    assert_eq!(tokens[4], Token::GtGt);
}

#[test]
fn test_lexes_integer_division() {
    let tokens = lex_tokens("a // b");
    assert_eq!(tokens[1], Token::DoubleSlash);
}

#[test]
fn test_lex_error_unknown_char() {
    let result = Lexer::new("@").tokenize();
    assert!(matches!(result, Err(LexError::UnexpectedChar { .. })));
}

#[test]
fn test_lex_error_unterminated_string() {
    let result = Lexer::new("\"hello").tokenize();
    assert!(matches!(result, Err(LexError::UnterminatedString { .. })));
}

#[test]
fn test_lex_error_invalid_escape_hex_bad_digit() {
    // \xGG — G is not a hex digit
    let result = Lexer::new("\"\\xGG\"").tokenize();
    assert!(matches!(result, Err(LexError::InvalidEscape { .. })));
}

#[test]
fn test_lex_error_invalid_escape_decimal_overflow() {
    // \256 — out of 0–255 range
    let result = Lexer::new("\"\\256\"").tokenize();
    assert!(matches!(result, Err(LexError::InvalidEscape { .. })));
}

#[test]
fn test_lex_error_invalid_escape_unicode_bad_codepoint() {
    // \u{D800} — surrogate, not a valid Unicode scalar
    let result = Lexer::new("\"\\u{D800}\"").tokenize();
    assert!(matches!(result, Err(LexError::InvalidEscape { .. })));
}

#[test]
fn test_lex_error_invalid_escape_unicode_empty_braces() {
    let result = Lexer::new("\"\\u{}\"").tokenize();
    assert!(matches!(result, Err(LexError::InvalidEscape { .. })));
}

#[test]
fn test_lex_error_unterminated_long_string() {
    let result = Lexer::new("[[hello").tokenize();
    assert!(matches!(
        result,
        Err(LexError::UnterminatedLongString { .. })
    ));
}

#[test]
fn test_lex_error_unterminated_long_comment() {
    let result = Lexer::new("--[[ unterminated").tokenize();
    assert!(matches!(
        result,
        Err(LexError::UnterminatedLongString { .. })
    ));
}

#[test]
fn test_skips_line_comment() {
    let tokens = lex_tokens("1 -- comment\n2");
    assert_eq!(tokens[0], Token::Integer(1));
    assert_eq!(tokens[1], Token::Integer(2));
}

#[test]
fn test_skips_long_comment() {
    let tokens = lex_tokens("1 --[[ multi\nline ]] 2");
    assert_eq!(tokens[0], Token::Integer(1));
    assert_eq!(tokens[1], Token::Integer(2));
}

#[test]
fn test_lexes_string() {
    let tokens = lex_tokens(r#""hello""#);
    assert_eq!(tokens[0], Token::StringLit("hello".into()));
}

#[test]
fn test_lexes_long_string() {
    let tokens = lex_tokens("[[hello world]]");
    assert_eq!(tokens[0], Token::StringLit("hello world".into()));
}
