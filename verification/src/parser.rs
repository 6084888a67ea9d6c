//! Recursive-descent parser for Lua 5.5, with precedence climbing for
//! binary operators.

use vstd::prelude::*;
use vstd::string::StringExecFns;

use crate::ast::{
    expr_span, view_block, view_elseif, view_elseifs, view_exprs, view_field, view_fields, view_func,
    view_local_names, view_names, view_opt_string, view_params, view_stmt, view_stmts, view_expr,
    BlockV, ElseIfV, FieldV, LocalNameV, StmtV, Assign, Attribute, BinaryOp, Block, Call, Do, ElseIf, ExprV,
    Expression, FunctionBody, FunctionDecl, FunctionName, GenericFor, Goto, If, Label, LocalDecl,
    LocalFunctionDecl, LocalName, NumericFor, Param, Repeat, Return, Statement, TableConstructor,
    TableField, UnaryOp, While,
};
use crate::diagnostics::{spec_diagnostic, Diagnostic, DiagnosticView, Severity, Span};
use crate::lexer::{byte_len, lex_error_span, lex_message, tokens_of, LexError, Lexer, SpannedToken};
use crate::text::text_eq;
use crate::grammar::{
    g_assign_or_call, g_attr, g_binops, g_block, g_callargs, g_dotparts, g_elseifs, g_expect, g_expr,
    g_exprlist, g_exprs_loop, g_field, g_fields, g_for, g_forvars, g_funcbody, g_funcname, g_ident,
    g_if, g_local_function, g_local_names, g_named_function, g_names_loop, g_params,
    g_params_loop, g_primary, g_return, g_stmt, g_stmts, g_suffixed, g_suffixes, g_table,
    g_targets, g_unary, fwd, is_end, kat, parse_spec, stay, kind_v, name_assign, parsed, sat, skip_semis, tat, PErr, Toks,
    G,
};
use crate::lexer::view_spanned;
use crate::token::{describe_text, kind_of, view_token, Token, TokenKind, TokenV};

verus! {

/// Errors produced by the parser.
#[derive(Debug)]
pub enum ParseError {
    /// The source could not be tokenized.
    Lex(LexError),
    /// A token other than the one the grammar requires here.
    Expected { expected: String, found: Token, span: Span },
    /// A token that cannot start what the grammar requires here.
    Unexpected { found: Token, span: Span },
    /// An expression nested too deeply.
    NestingDepthExceeded { span: Span },
}

/// The name of a token kind, as `{:?}` prints a token of that kind without payload.
pub open spec fn kind_name(k: TokenKind) -> Seq<char> {
    match k {
        TokenKind::Comment => "Comment"@,
        TokenKind::StringLit => "StringLit"@,
        TokenKind::Float => "Float"@,
        TokenKind::HexInteger => "HexInteger"@,
        TokenKind::Integer => "Integer"@,
        TokenKind::And => "And"@,
        TokenKind::Break => "Break"@,
        TokenKind::Do => "Do"@,
        TokenKind::Else => "Else"@,
        TokenKind::Elseif => "Elseif"@,
        TokenKind::End => "End"@,
        TokenKind::False => "False"@,
        TokenKind::For => "For"@,
        TokenKind::Function => "Function"@,
        TokenKind::Goto => "Goto"@,
        TokenKind::If => "If"@,
        TokenKind::In => "In"@,
        TokenKind::Local => "Local"@,
        TokenKind::Nil => "Nil"@,
        TokenKind::Not => "Not"@,
        TokenKind::Or => "Or"@,
        TokenKind::Repeat => "Repeat"@,
        TokenKind::Return => "Return"@,
        TokenKind::Then => "Then"@,
        TokenKind::True => "True"@,
        TokenKind::Until => "Until"@,
        TokenKind::While => "While"@,
        TokenKind::Ident => "Ident"@,
        TokenKind::AttrConst => "AttrConst"@,
        TokenKind::AttrClose => "AttrClose"@,
        TokenKind::Eq => "Eq"@,
        TokenKind::TildeEq => "TildeEq"@,
        TokenKind::LtEq => "LtEq"@,
        TokenKind::GtEq => "GtEq"@,
        TokenKind::LtLt => "LtLt"@,
        TokenKind::GtGt => "GtGt"@,
        TokenKind::DoubleSlash => "DoubleSlash"@,
        TokenKind::DblColon => "DblColon"@,
        TokenKind::DotDot => "DotDot"@,
        TokenKind::DotDotDot => "DotDotDot"@,
        TokenKind::Plus => "Plus"@,
        TokenKind::Minus => "Minus"@,
        TokenKind::Star => "Star"@,
        TokenKind::Slash => "Slash"@,
        TokenKind::Percent => "Percent"@,
        TokenKind::Caret => "Caret"@,
        TokenKind::Hash => "Hash"@,
        TokenKind::Ampersand => "Ampersand"@,
        TokenKind::Tilde => "Tilde"@,
        TokenKind::Pipe => "Pipe"@,
        TokenKind::Lt => "Lt"@,
        TokenKind::Gt => "Gt"@,
        TokenKind::Assign => "Assign"@,
        TokenKind::LParen => "LParen"@,
        TokenKind::RParen => "RParen"@,
        TokenKind::LBrace => "LBrace"@,
        TokenKind::RBrace => "RBrace"@,
        TokenKind::LBracket => "LBracket"@,
        TokenKind::RBracket => "RBracket"@,
        TokenKind::Semicolon => "Semicolon"@,
        TokenKind::Colon => "Colon"@,
        TokenKind::Comma => "Comma"@,
        TokenKind::Dot => "Dot"@,
        TokenKind::Eof => "Eof"@,
    }
}

fn kind_name_exec(k: TokenKind) -> (r: String)
    ensures
        r@ == kind_name(k),
{
    match k {
        TokenKind::Comment => "Comment".to_owned(),
        TokenKind::StringLit => "StringLit".to_owned(),
        TokenKind::Float => "Float".to_owned(),
        TokenKind::HexInteger => "HexInteger".to_owned(),
        TokenKind::Integer => "Integer".to_owned(),
        TokenKind::And => "And".to_owned(),
        TokenKind::Break => "Break".to_owned(),
        TokenKind::Do => "Do".to_owned(),
        TokenKind::Else => "Else".to_owned(),
        TokenKind::Elseif => "Elseif".to_owned(),
        TokenKind::End => "End".to_owned(),
        TokenKind::False => "False".to_owned(),
        TokenKind::For => "For".to_owned(),
        TokenKind::Function => "Function".to_owned(),
        TokenKind::Goto => "Goto".to_owned(),
        TokenKind::If => "If".to_owned(),
        TokenKind::In => "In".to_owned(),
        TokenKind::Local => "Local".to_owned(),
        TokenKind::Nil => "Nil".to_owned(),
        TokenKind::Not => "Not".to_owned(),
        TokenKind::Or => "Or".to_owned(),
        TokenKind::Repeat => "Repeat".to_owned(),
        TokenKind::Return => "Return".to_owned(),
        TokenKind::Then => "Then".to_owned(),
        TokenKind::True => "True".to_owned(),
        TokenKind::Until => "Until".to_owned(),
        TokenKind::While => "While".to_owned(),
        TokenKind::Ident => "Ident".to_owned(),
        TokenKind::AttrConst => "AttrConst".to_owned(),
        TokenKind::AttrClose => "AttrClose".to_owned(),
        TokenKind::Eq => "Eq".to_owned(),
        TokenKind::TildeEq => "TildeEq".to_owned(),
        TokenKind::LtEq => "LtEq".to_owned(),
        TokenKind::GtEq => "GtEq".to_owned(),
        TokenKind::LtLt => "LtLt".to_owned(),
        TokenKind::GtGt => "GtGt".to_owned(),
        TokenKind::DoubleSlash => "DoubleSlash".to_owned(),
        TokenKind::DblColon => "DblColon".to_owned(),
        TokenKind::DotDot => "DotDot".to_owned(),
        TokenKind::DotDotDot => "DotDotDot".to_owned(),
        TokenKind::Plus => "Plus".to_owned(),
        TokenKind::Minus => "Minus".to_owned(),
        TokenKind::Star => "Star".to_owned(),
        TokenKind::Slash => "Slash".to_owned(),
        TokenKind::Percent => "Percent".to_owned(),
        TokenKind::Caret => "Caret".to_owned(),
        TokenKind::Hash => "Hash".to_owned(),
        TokenKind::Ampersand => "Ampersand".to_owned(),
        TokenKind::Tilde => "Tilde".to_owned(),
        TokenKind::Pipe => "Pipe".to_owned(),
        TokenKind::Lt => "Lt".to_owned(),
        TokenKind::Gt => "Gt".to_owned(),
        TokenKind::Assign => "Assign".to_owned(),
        TokenKind::LParen => "LParen".to_owned(),
        TokenKind::RParen => "RParen".to_owned(),
        TokenKind::LBrace => "LBrace".to_owned(),
        TokenKind::RBrace => "RBrace".to_owned(),
        TokenKind::LBracket => "LBracket".to_owned(),
        TokenKind::RBracket => "RBracket".to_owned(),
        TokenKind::Semicolon => "Semicolon".to_owned(),
        TokenKind::Colon => "Colon".to_owned(),
        TokenKind::Comma => "Comma".to_owned(),
        TokenKind::Dot => "Dot".to_owned(),
        TokenKind::Eof => "Eof".to_owned(),
    }
}

/// The text of a parse error.
pub open spec fn parse_message(e: ParseError) -> Seq<char> {
    match e {
        ParseError::Lex(l) => "lex error: "@ + lex_message(l),
        ParseError::Expected { expected, found, .. } => "expected "@ + expected@ + ", found "@
            + describe_text(view_token(found)),
        ParseError::Unexpected { found, .. } => "unexpected token "@ + describe_text(
            view_token(found),
        ),
        ParseError::NestingDepthExceeded { .. } =>
            "expression too complex \u{2014} maximum nesting depth exceeded"@,
    }
}

/// The diagnostic a parse error is reported as: E0202 for an unknown
/// attribute, E0201 for a mismatched or unexpected token, E0203 for nesting.
pub open spec fn parse_diagnostic(e: ParseError) -> DiagnosticView {
    match e {
        ParseError::Lex(l) => spec_diagnostic(Severity::Error, lex_message(l), lex_error_span(l)),
        ParseError::Expected { expected, found, span } => if expected@ == "const or close"@
            && found is Ident {
            let name = found->Ident_0@;
            DiagnosticView {
                code: Some("E0202"@),
                notes: seq!["`<"@ + name + ">` is not a valid Lua 5.4/5.5 attribute"@],
                suggestion: Some("valid attributes are `<const>` and `<close>`"@),
                ..spec_diagnostic(Severity::Error, "unknown attribute `"@ + name + "`"@, span)
            }
        } else {
            DiagnosticView {
                code: Some("E0201"@),
                ..spec_diagnostic(
                    Severity::Error,
                    "expected "@ + expected@ + ", found "@ + describe_text(view_token(found)),
                    span,
                )
            }
        },
        ParseError::Unexpected { found, span } => DiagnosticView {
            code: Some("E0201"@),
            ..spec_diagnostic(
                Severity::Error,
                "unexpected token "@ + describe_text(view_token(found)),
                span,
            )
        },
        ParseError::NestingDepthExceeded { span } => DiagnosticView {
            code: Some("E0203"@),
            ..spec_diagnostic(
                Severity::Error,
                "expression too complex \u{2014} maximum nesting depth exceeded"@,
                span,
            )
        },
    }
}

impl ParseError {
    /// The human-readable description of the error.
    pub fn message(&self) -> (r: String)
        ensures
            r@ == parse_message(*self),
    {
        match self {
            ParseError::Lex(l) => {
                let mut m = "lex error: ".to_owned();
                m.append(l.message().as_str());
                m
            },
            ParseError::Expected { expected, found, .. } => {
                let mut m = "expected ".to_owned();
                m.append(expected.as_str());
                m.append(", found ");
                m.append(found.describe().as_str());
                m
            },
            ParseError::Unexpected { found, .. } => {
                let mut m = "unexpected token ".to_owned();
                m.append(found.describe().as_str());
                m
            },
            ParseError::NestingDepthExceeded { .. } => {
                "expression too complex \u{2014} maximum nesting depth exceeded".to_owned()
            },
        }
    }

    /// Converts this error into a diagnostic with an error code (E0201
    /// mismatched or unexpected token, E0202 unknown attribute, E0203
    /// nesting depth) and the span of the offending token.
    pub fn into_diagnostic(self) -> (r: Diagnostic)
        ensures
            r@ == parse_diagnostic(self),
    {
        match self {
            ParseError::Lex(l) => l.into_diagnostic(),
            ParseError::Expected { expected, found, span } => {
                let is_attr = text_eq(&expected, "const or close");
                match found {
                    Token::Ident(name) => {
                        if is_attr {
                            let mut m = "unknown attribute `".to_owned();
                            m.append(name.as_str());
                            m.append("`");
                            let mut note = "`<".to_owned();
                            note.append(name.as_str());
                            note.append(">` is not a valid Lua 5.4/5.5 attribute");
                            let d = Diagnostic::error(m.as_str(), span).with_code("E0202");
                            let d = d.with_note(note.as_str());
                            return d.with_suggestion("valid attributes are `<const>` and `<close>`");
                        }
                        let found = Token::Ident(name);
                        let mut m = "expected ".to_owned();
                        m.append(expected.as_str());
                        m.append(", found ");
                        m.append(found.describe().as_str());
                        Diagnostic::error(m.as_str(), span).with_code("E0201")
                    },
                    _ => {
                        let mut m = "expected ".to_owned();
                        m.append(expected.as_str());
                        m.append(", found ");
                        m.append(found.describe().as_str());
                        Diagnostic::error(m.as_str(), span).with_code("E0201")
                    },
                }
            },
            ParseError::Unexpected { found, span } => {
                let mut m = "unexpected token ".to_owned();
                m.append(found.describe().as_str());
                Diagnostic::error(m.as_str(), span).with_code("E0201")
            },
            ParseError::NestingDepthExceeded { span } => Diagnostic::error(
                "expression too complex \u{2014} maximum nesting depth exceeded",
                span,
            ).with_code("E0203"),
        }
    }
}


// ── Precedence ───────────────────────────────────────────────────────────────

/// The binding power of unary operators: tighter than `*`, looser than `^`.
pub const UNARY_PREC: u8 = 21;

/// `(left, right)` binding powers of a binary operator. A left-associative
/// operator has `(n, n + 1)`, a right-associative one (`..`, `^`) `(n + 1, n)`.
pub open spec fn spec_binary_prec(op: BinaryOp) -> (u8, u8) {
    match op {
        BinaryOp::Or => (1, 2),
        BinaryOp::And => (3, 4),
        BinaryOp::Lt | BinaryOp::Gt | BinaryOp::Le | BinaryOp::Ge | BinaryOp::Eq | BinaryOp::Ne => (
            5,
            6,
        ),
        BinaryOp::BitwiseOr => (7, 8),
        BinaryOp::BitwiseXor => (9, 10),
        BinaryOp::BitwiseAnd => (11, 12),
        BinaryOp::Shl | BinaryOp::Shr => (13, 14),
        BinaryOp::Concat => (16, 15),
        BinaryOp::Add | BinaryOp::Sub => (17, 18),
        BinaryOp::Mul | BinaryOp::Div | BinaryOp::IDiv | BinaryOp::Mod => (19, 20),
        BinaryOp::Pow => (24, 23),
    }
}

/// Returns `(left_bp, right_bp)` for a binary operator.
pub fn binary_prec(op: BinaryOp) -> (r: (u8, u8))
    ensures
        r == spec_binary_prec(op),
{
    match op {
        BinaryOp::Or => (1, 2),
        BinaryOp::And => (3, 4),
        BinaryOp::Lt | BinaryOp::Gt | BinaryOp::Le | BinaryOp::Ge | BinaryOp::Eq | BinaryOp::Ne => (
            5,
            6,
        ),
        BinaryOp::BitwiseOr => (7, 8),
        BinaryOp::BitwiseXor => (9, 10),
        BinaryOp::BitwiseAnd => (11, 12),
        BinaryOp::Shl | BinaryOp::Shr => (13, 14),
        BinaryOp::Concat => (16, 15),
        BinaryOp::Add | BinaryOp::Sub => (17, 18),
        BinaryOp::Mul | BinaryOp::Div | BinaryOp::IDiv | BinaryOp::Mod => (19, 20),
        BinaryOp::Pow => (24, 23),
    }
}

/// The binary operator a token stands for.
pub open spec fn binop_of(k: TokenKind) -> Option<BinaryOp> {
    match k {
        TokenKind::Or => Some(BinaryOp::Or),
        TokenKind::And => Some(BinaryOp::And),
        TokenKind::Lt => Some(BinaryOp::Lt),
        TokenKind::Gt => Some(BinaryOp::Gt),
        TokenKind::LtEq => Some(BinaryOp::Le),
        TokenKind::GtEq => Some(BinaryOp::Ge),
        TokenKind::Eq => Some(BinaryOp::Eq),
        TokenKind::TildeEq => Some(BinaryOp::Ne),
        TokenKind::Pipe => Some(BinaryOp::BitwiseOr),
        TokenKind::Tilde => Some(BinaryOp::BitwiseXor),
        TokenKind::Ampersand => Some(BinaryOp::BitwiseAnd),
        TokenKind::LtLt => Some(BinaryOp::Shl),
        TokenKind::GtGt => Some(BinaryOp::Shr),
        TokenKind::DotDot => Some(BinaryOp::Concat),
        TokenKind::Plus => Some(BinaryOp::Add),
        TokenKind::Minus => Some(BinaryOp::Sub),
        TokenKind::Star => Some(BinaryOp::Mul),
        TokenKind::Slash => Some(BinaryOp::Div),
        TokenKind::DoubleSlash => Some(BinaryOp::IDiv),
        TokenKind::Percent => Some(BinaryOp::Mod),
        TokenKind::Caret => Some(BinaryOp::Pow),
        _ => None,
    }
}

fn binop_of_exec(k: TokenKind) -> (r: Option<BinaryOp>)
    ensures
        r == binop_of(k),
{
    match k {
        TokenKind::Or => Some(BinaryOp::Or),
        TokenKind::And => Some(BinaryOp::And),
        TokenKind::Lt => Some(BinaryOp::Lt),
        TokenKind::Gt => Some(BinaryOp::Gt),
        TokenKind::LtEq => Some(BinaryOp::Le),
        TokenKind::GtEq => Some(BinaryOp::Ge),
        TokenKind::Eq => Some(BinaryOp::Eq),
        TokenKind::TildeEq => Some(BinaryOp::Ne),
        TokenKind::Pipe => Some(BinaryOp::BitwiseOr),
        TokenKind::Tilde => Some(BinaryOp::BitwiseXor),
        TokenKind::Ampersand => Some(BinaryOp::BitwiseAnd),
        TokenKind::LtLt => Some(BinaryOp::Shl),
        TokenKind::GtGt => Some(BinaryOp::Shr),
        TokenKind::DotDot => Some(BinaryOp::Concat),
        TokenKind::Plus => Some(BinaryOp::Add),
        TokenKind::Minus => Some(BinaryOp::Sub),
        TokenKind::Star => Some(BinaryOp::Mul),
        TokenKind::Slash => Some(BinaryOp::Div),
        TokenKind::DoubleSlash => Some(BinaryOp::IDiv),
        TokenKind::Percent => Some(BinaryOp::Mod),
        TokenKind::Caret => Some(BinaryOp::Pow),
        _ => None,
    }
}

// ── Parenthesised spans ──────────────────────────────────────────────────────

/// `e` with its own span replaced by `span`, everything under it unchanged.
pub open spec fn reframe(e: ExprV, span: Span) -> ExprV {
    match e {
        ExprV::Nil { .. } => ExprV::Nil { span },
        ExprV::True { .. } => ExprV::True { span },
        ExprV::False { .. } => ExprV::False { span },
        ExprV::Integer { value, .. } => ExprV::Integer { value, span },
        ExprV::Float { text, .. } => ExprV::Float { text, span },
        ExprV::Str { value, .. } => ExprV::Str { value, span },
        ExprV::Vararg { .. } => ExprV::Vararg { span },
        ExprV::Name { name, .. } => ExprV::Name { name, span },
        ExprV::Index { base, field, .. } => ExprV::Index { base, field, span },
        ExprV::IndexExpr { base, key, .. } => ExprV::IndexExpr { base, key, span },
        ExprV::BinOp { lhs, op, rhs, .. } => ExprV::BinOp { lhs, op, rhs, span },
        ExprV::UnOp { op, operand, .. } => ExprV::UnOp { op, operand, span },
        ExprV::Call { func, args, .. } => ExprV::Call { func, args, span },
        ExprV::MethodCall { obj, method, args, .. } => ExprV::MethodCall { obj, method, args, span },
        ExprV::Function { func } => ExprV::Function { func: crate::ast::FuncV { span, ..func } },
        ExprV::Table { fields, .. } => ExprV::Table { fields, span },
    }
}

/// Gives a parenthesised expression the span of its parentheses.
pub fn adjust_span(expr: Expression, span: Span) -> (r: Expression)
    ensures
        view_expr(r) == reframe(view_expr(expr), span),
        expr_span(view_expr(r)) == span,
{
    match expr {
        Expression::Nil(_) => Expression::Nil(span),
        Expression::True(_) => Expression::True(span),
        Expression::False(_) => Expression::False(span),
        Expression::Integer(v, _) => Expression::Integer(v, span),
        Expression::Float(v, _) => Expression::Float(v, span),
        Expression::String(v, _) => Expression::String(v, span),
        Expression::Vararg(_) => Expression::Vararg(span),
        Expression::Name(v, _) => Expression::Name(v, span),
        Expression::BinOp(lhs, op, rhs, _) => Expression::BinOp(lhs, op, rhs, span),
        Expression::UnOp(op, operand, _) => Expression::UnOp(op, operand, span),
        Expression::Index(base, field, _) => Expression::Index(base, field, span),
        Expression::IndexExpr(base, key, _) => Expression::IndexExpr(base, key, span),
        Expression::Call(call) => Expression::Call(
            match call {
                Call::Call { func, args, .. } => Call::Call { func, args, span },
                Call::MethodCall { obj, method, args, .. } => Call::MethodCall {
                    obj,
                    method,
                    args,
                    span,
                },
            },
        ),
        Expression::Function(f) => {
            let ghost old_f = f;
            let FunctionBody { params, is_vararg, body, .. } = f;
            let nf = FunctionBody { params, is_vararg, body, span };
            proof {
                assert(crate::ast::view_func(old_f).body == crate::ast::view_block(old_f.body));
                assert(crate::ast::view_func(nf).body == crate::ast::view_block(nf.body));
                assert(crate::ast::view_func(old_f).params == crate::ast::view_params(old_f.params@));
                assert(crate::ast::view_func(nf).params == crate::ast::view_params(nf.params@));
                assert(crate::ast::view_func(old_f).is_vararg == old_f.is_vararg);
                assert(crate::ast::view_func(nf).is_vararg == nf.is_vararg);
                assert(crate::ast::view_func(nf).span == span);
            }
            Expression::Function(nf)
        },
        Expression::Table(tbl) => {
            let TableConstructor { fields, .. } = tbl;
            Expression::Table(TableConstructor { fields, span })
        },
    }
}


// ── Parser state ─────────────────────────────────────────────────────────────

/// How deeply blocks and expressions may nest before the parser refuses
/// the source, so that no input exhausts the stack.
pub const MAX_NESTING: usize = 200;

/// A cursor over a token stream.
pub struct Parser {
    tokens: Vec<SpannedToken>,
    pos: usize,
    /// Blocks and expressions being parsed, one inside the other.
    depth: usize,
}

type PResult<T> = Result<T, ParseError>;

/// A parse error, by content.
pub open spec fn perr(e: ParseError) -> PErr {
    match e {
        ParseError::Lex(l) => PErr::Lex(l),
        ParseError::Expected { expected, found, span } => PErr::Expected {
            expected: expected@,
            found: view_token(found),
            span,
        },
        ParseError::Unexpected { found, span } => PErr::Unexpected { found: view_token(found), span },
        ParseError::NestingDepthExceeded { span } => PErr::Nesting { span },
    }
}

/// A parse result, by content.
pub open spec fn presult(r: Result<Block, ParseError>) -> Result<BlockV, PErr> {
    match r {
        Ok(b) => Ok(b@),
        Err(e) => Err(perr(e)),
    }
}

/// `r` is what the grammar rule gives, `v` taking the value to its model and
/// `pos` being the cursor afterwards.
pub open spec fn agree<T, V>(r: Result<T, ParseError>, g: G<V>, v: spec_fn(T) -> V, pos: int) -> bool {
    match g {
        Ok((x, q)) => r matches Ok(y) && v(y) == x && pos == q,
        Err(e) => r matches Err(y) && perr(y) == e,
    }
}

proof fn lemma_kind_v(t: Token)
    ensures
        kind_v(view_token(t)) == kind_of(t),
{
    match t {
        Token::StringLit(_) => {},
        Token::Float(_) => {},
        Token::HexInteger(_) => {},
        Token::Integer(_) => {},
        Token::Ident(_) => {},
        _ => {},
    }
}

/// A copy of a token.
fn copy_token(t: &Token) -> (r: Token)
    ensures
        view_token(r) == view_token(*t),
{
    match t {
        Token::StringLit(x) => Token::StringLit(x.clone()),
        Token::Float(x) => Token::Float(x.clone()),
        Token::HexInteger(v) => Token::HexInteger(*v),
        Token::Integer(v) => Token::Integer(*v),
        Token::Ident(x) => Token::Ident(x.clone()),
        _ => {
            proof {
                lemma_kind_v(*t);
            }
            Token::plain(t.kind())
        },
    }
}

/// The result is not a lexing error.
pub open spec fn not_lex<T>(r: Result<T, ParseError>) -> bool {
    !(r matches Err(ParseError::Lex(_)))
}

impl Parser {
    /// The cursor is within the stream.
    pub closed spec fn ok(&self) -> bool {
        self.pos <= self.tokens@.len()
    }

    /// Same stream as `from`, cursor no earlier.
    pub closed spec fn moved(&self, from: Parser) -> bool {
        self.tokens@ == from.tokens@ && from.pos <= self.pos <= self.tokens@.len()
    }

    /// Same stream as `from`, cursor strictly later.
    pub closed spec fn consumed(&self, from: Parser) -> bool {
        self.tokens@ == from.tokens@ && from.pos < self.pos <= self.tokens@.len()
    }

    /// Tokens left to read.
    pub closed spec fn left(&self) -> int {
        self.tokens@.len() - self.pos
    }

    pub closed spec fn at(&self) -> TokenKind {
        kat(self.toks(), self.pos as int)
    }

    pub closed spec fn cursor(&self) -> int {
        self.pos as int
    }

    /// The token stream, by content.
    pub closed spec fn toks(&self) -> Toks {
        view_spanned(self.tokens@)
    }

    /// How many blocks and expressions enclose the cursor.
    pub closed spec fn level(&self) -> int {
        self.depth as int
    }

    pub fn new(tokens: Vec<SpannedToken>) -> (r: Self)
        ensures
            r.ok(),
            r.cursor() == 0,
            r.level() == 0,
            r.toks() == view_spanned(tokens@),
    {
        Parser { tokens, pos: 0, depth: 0 }
    }

    fn peek_kind(&self) -> (r: TokenKind)
        ensures
            r == self.at(),
            r == kat(self.toks(), self.cursor()),
    {
        if self.pos < self.tokens.len() {
            proof {
                lemma_kind_v(self.tokens@[self.pos as int].token);
            }
            self.tokens[self.pos].token.kind()
        } else {
            TokenKind::Eof
        }
    }

    fn peek_span(&self) -> (r: Span)
        ensures
            r == sat(self.toks(), self.cursor()),
    {
        if self.pos < self.tokens.len() {
            self.tokens[self.pos].span
        } else {
            Span::dummy()
        }
    }

    fn peek_token(&self) -> (r: Token)
        ensures
            view_token(r) == tat(self.toks(), self.cursor()),
    {
        if self.pos < self.tokens.len() {
            copy_token(&self.tokens[self.pos].token)
        } else {
            Token::Eof
        }
    }

    /// Steps over the current token, which is not the end of input.
    fn advance(&mut self)
        requires
            old(self).ok(),
            old(self).at() != TokenKind::Eof,
        ensures
            final(self).consumed(*old(self)),
            final(self).pos == old(self).pos + 1,
            final(self).level() == old(self).level(),
    {
        let n = self.tokens.len();
        assert(self.pos < n);
        self.pos = self.pos + 1;
    }

    fn check(&self, k: TokenKind) -> (r: bool)
        ensures
            r == (self.at() == k),
    {
        self.peek_kind() == k
    }

    fn consume_if(&mut self, k: TokenKind) -> (r: Option<Span>)
        requires
            old(self).ok(),
            k != TokenKind::Eof,
        ensures
            final(self).moved(*old(self)),
            r is Some <==> old(self).at() == k,
            r is Some ==> final(self).consumed(*old(self)),
            r is None ==> final(self).pos == old(self).pos,
            final(self).cursor() == if kat(old(self).toks(), old(self).cursor()) == k {
                old(self).cursor() + 1
            } else {
                old(self).cursor()
            },
            final(self).level() == old(self).level(),
    {
        if self.peek_kind() == k {
            let span = self.peek_span();
            self.advance();
            Some(span)
        } else {
            None
        }
    }

    fn expect(&mut self, k: TokenKind) -> (r: PResult<Span>)
        requires
            old(self).ok(),
            k != TokenKind::Eof,
        ensures
            not_lex(r),
            final(self).moved(*old(self)),
            r is Ok ==> final(self).consumed(*old(self)),
            agree(r, g_expect(old(self).toks(), old(self).cursor(), k), |x: Span| x, final(self).cursor()),
            final(self).level() == old(self).level(),
    {
        if self.peek_kind() == k {
            let span = self.peek_span();
            self.advance();
            Ok(span)
        } else {
            Err(ParseError::Expected {
                expected: kind_name_exec(k),
                found: self.peek_token(),
                span: self.peek_span(),
            })
        }
    }

    fn expect_ident(&mut self) -> (r: PResult<(String, Span)>)
        requires
            old(self).ok(),
        ensures
            not_lex(r),
            final(self).moved(*old(self)),
            r is Ok ==> final(self).consumed(*old(self)),
            r is Ok ==> final(self).pos == old(self).pos + 1,
            agree(
                r,
                g_ident(old(self).toks(), old(self).cursor()),
                |x: (String, Span)| (x.0@, x.1),
                final(self).cursor(),
            ),
            final(self).level() == old(self).level(),
    {
        if self.pos < self.tokens.len() {
            match &self.tokens[self.pos].token {
                Token::Ident(name) => {
                    let n = name.clone();
                    let span = self.tokens[self.pos].span;
                    self.pos = self.pos + 1;
                    return Ok((n, span));
                },
                _ => {},
            }
        }
        Err(ParseError::Expected {
            expected: "identifier".to_owned(),
            found: self.peek_token(),
            span: self.peek_span(),
        })
    }

    fn at_block_end(&self) -> (r: bool)
        ensures
            r == (self.at() == TokenKind::End || self.at() == TokenKind::Else || self.at()
                == TokenKind::Elseif || self.at() == TokenKind::Until || self.at()
                == TokenKind::Eof),
            r == is_end(kat(self.toks(), self.cursor())),
    {
        let k = self.peek_kind();
        k == TokenKind::End || k == TokenKind::Else || k == TokenKind::Elseif || k
            == TokenKind::Until || k == TokenKind::Eof
    }
}


proof fn lemma_vs_push(s: Seq<Statement>, x: Statement)
    ensures
        view_stmts(s.push(x)) == view_stmts(s).push(view_stmt(x)),
{
    assert(s.push(x).drop_last() =~= s);
}

proof fn lemma_ve_push(s: Seq<Expression>, x: Expression)
    ensures
        view_exprs(s.push(x)) == view_exprs(s).push(view_expr(x)),
{
    assert(s.push(x).drop_last() =~= s);
}

proof fn lemma_vf_push(s: Seq<TableField>, x: TableField)
    ensures
        view_fields(s.push(x)) == view_fields(s).push(view_field(x)),
{
    assert(s.push(x).drop_last() =~= s);
}

proof fn lemma_vei_push(s: Seq<ElseIf>, x: ElseIf)
    ensures
        view_elseifs(s.push(x)) == view_elseifs(s).push(view_elseif(x)),
{
    assert(s.push(x).drop_last() =~= s);
}

impl Parser {
    /// A block: statements up to `end`, `else`, `elseif`, `until` or the end
    /// of input; a `return` ends it.
    #[verifier::rlimit(100)]
    pub fn parse_block(&mut self) -> (r: PResult<Block>)
        requires
            old(self).ok(),
        ensures
            not_lex(r),
            final(self).moved(*old(self)),
            r is Ok ==> final(self).level() == old(self).level(),
            agree(
                r,
                g_block(old(self).toks(), old(self).cursor(), old(self).level()),
                |b: Block| b@,
                final(self).cursor(),
            ),
        decreases old(self).left(), 30int,
    {
        let ghost ts = self.toks();
        let ghost p0 = self.cursor();
        let ghost d0 = self.level();
        let saved = self.depth;
        if saved >= MAX_NESTING {
            return Err(ParseError::NestingDepthExceeded { span: self.peek_span() });
        }
        self.depth = saved + 1;
        let start_span = self.peek_span();
        let mut stmts: Vec<Statement> = Vec::new();
        loop
            invariant_except_break
                self.moved(*old(self)),
                old(self).ok(),
                self.toks() == ts,
                ts == old(self).toks(),
                p0 == old(self).cursor(),
                d0 == old(self).level(),
                d0 < MAX_NESTING,
                start_span == sat(ts, p0),
                self.level() == d0 + 1,
                g_stmts(ts, p0, d0 + 1, seq![]) == g_stmts(
                    ts,
                    self.cursor(),
                    d0 + 1,
                    view_stmts(stmts@),
                ),
            ensures
                self.moved(*old(self)),
                self.toks() == ts,
                ts == old(self).toks(),
                p0 == old(self).cursor(),
                d0 == old(self).level(),
                d0 < MAX_NESTING,
                start_span == sat(ts, p0),
                self.level() == d0 + 1,
                g_stmts(ts, p0, d0 + 1, seq![]) == Ok::<(Seq<StmtV>, int), PErr>(
                    (view_stmts(stmts@), self.cursor()),
                ),
            decreases self.left(),
        {
            if self.at_block_end() {
                break;
            }
            let ghost c0 = self.cursor();
            let ghost acc = view_stmts(stmts@);
            while self.consume_if(TokenKind::Semicolon).is_some()
                invariant
                    self.moved(*old(self)),
                    old(self).ok(),
                    self.toks() == ts,
                    self.level() == d0 + 1,
                    c0 <= self.cursor(),
                    skip_semis(ts, c0) == skip_semis(ts, self.cursor()),
                decreases self.left(),
            {
            }
            let ghost p1 = self.cursor();
            assert(skip_semis(ts, c0) == p1);
            if self.at_block_end() {
                break;
            }
            if self.check(TokenKind::Return) {
                let ret = self.parse_return()?;
                let ghost before = stmts@;
                stmts.push(Statement::Return(ret));
                proof {
                    lemma_vs_push(before, Statement::Return(ret));
                }
                self.consume_if(TokenKind::Semicolon);
                break;
            }
            let stmt = self.parse_statement()?;
            let ghost before = stmts@;
            let ghost sv = view_stmt(stmt);
            stmts.push(stmt);
            proof {
                lemma_vs_push(before, stmts@.last());
                assert(stmts@ == before.push(stmts@.last()));
            }
        }
        let end_span = self.peek_span();
        let span = start_span.merge(end_span);
        self.depth = saved;
        Ok(Block { stmts, span })
    }

    #[verifier::rlimit(100)]
    fn parse_statement(&mut self) -> (r: PResult<Statement>)
        requires
            old(self).ok(),
        ensures
            not_lex(r),
            final(self).moved(*old(self)),
            r is Ok ==> final(self).consumed(*old(self)),
            r is Ok ==> final(self).level() == old(self).level(),
            agree(
                r,
                g_stmt(old(self).toks(), old(self).cursor(), old(self).level()),
                |x: Statement| x@,
                final(self).cursor(),
            ),
        decreases old(self).left(), 29int,
    {
        let k = self.peek_kind();
        match k {
            TokenKind::Local => {
                let span_start = self.peek_span();
                self.advance();
                if self.check(TokenKind::Function) {
                    self.advance();
                    let decl = self.parse_local_function_body(span_start)?;
                    Ok(Statement::LocalFunctionDecl(decl))
                } else {
                    let decl = self.parse_local_names(span_start)?;
                    Ok(Statement::LocalDecl(decl))
                }
            },
            TokenKind::Function => {
                self.advance();
                let decl = self.parse_named_function()?;
                Ok(Statement::FunctionDecl(decl))
            },
            TokenKind::Do => {
                let s = self.peek_span();
                self.advance();
                let body = self.parse_block()?;
                let e = self.expect(TokenKind::End)?;
                Ok(Statement::Do(Do { body, span: s.merge(e) }))
            },
            TokenKind::While => {
                let s = self.peek_span();
                self.advance();
                let condition = Box::new(self.parse_expression(0)?);
                self.expect(TokenKind::Do)?;
                let body = self.parse_block()?;
                let e = self.expect(TokenKind::End)?;
                Ok(Statement::While(While { condition, body, span: s.merge(e) }))
            },
            TokenKind::Repeat => {
                let s = self.peek_span();
                self.advance();
                let body = self.parse_block()?;
                self.expect(TokenKind::Until)?;
                let condition = Box::new(self.parse_expression(0)?);
                let e = condition.span();
                Ok(Statement::Repeat(Repeat { body, condition, span: s.merge(e) }))
            },
            TokenKind::If => {
                let stmt = self.parse_if()?;
                Ok(Statement::If(stmt))
            },
            TokenKind::For => {
                self.advance();
                self.parse_for_stmt()
            },
            TokenKind::Goto => {
                let s = self.peek_span();
                self.advance();
                let (label, e) = self.expect_ident()?;
                Ok(Statement::Goto(Goto { label, span: s.merge(e) }))
            },
            TokenKind::DblColon => {
                let s = self.peek_span();
                self.advance();
                let (name, _) = self.expect_ident()?;
                let e = self.expect(TokenKind::DblColon)?;
                Ok(Statement::Label(Label { name, span: s.merge(e) }))
            },
            TokenKind::Break => {
                let s = self.peek_span();
                self.advance();
                Ok(Statement::Break(s))
            },
            _ => self.parse_assign_or_call(),
        }
    }

    #[verifier::rlimit(100)]
    fn parse_local_names(&mut self, start: Span) -> (r: PResult<LocalDecl>)
        requires
            old(self).ok(),
        ensures
            not_lex(r),
            final(self).moved(*old(self)),
            r is Ok ==> final(self).consumed(*old(self)),
            r is Ok ==> final(self).level() == old(self).level(),
            agree(
                r,
                g_local_names(old(self).toks(), old(self).cursor(), old(self).level(), start),
                |x: LocalDecl| StmtV::LocalDecl {
                    names: view_local_names(x.names@),
                    values: view_exprs(x.values@),
                    span: x.span,
                },
                final(self).cursor(),
            ),
        decreases old(self).left(), 27int,
    {
        let ghost ts = self.toks();
        let ghost p0 = self.cursor();
        let ghost d0 = self.level();
        let mut names: Vec<LocalName> = Vec::new();
        let (name, name_span) = self.expect_ident()?;
        let ghost q1 = self.cursor();
        let ghost nm = name@;
        let attribute = self.parse_attribute()?;
        names.push(LocalName { name, attribute, span: name_span });
        proof {
            assert(view_local_names(names@) =~= seq![LocalNameV { name: nm, attribute, span: name_span }]);
        }
        let ghost q2 = self.cursor();
        let names = self.parse_more_names(names)?;
        let mut values: Vec<Expression> = Vec::new();
        if self.consume_if(TokenKind::Assign).is_some() {
            values = self.parse_expr_list()?;
        }
        let end_span = if values.len() > 0 {
            values[values.len() - 1].span()
        } else {
            start
        };
        proof {
            if values.len() > 0 {
                crate::ast::lemma_view_exprs(values@);
            }
            assert(view_exprs(Seq::<Expression>::empty()) =~= Seq::<ExprV>::empty());
        }
        Ok(LocalDecl { names, values, span: start.merge(end_span) })
    }

    /// The names after the first one of a `local` declaration.
    #[verifier::rlimit(100)]
    fn parse_more_names(&mut self, init: Vec<LocalName>) -> (r: PResult<Vec<LocalName>>)
        requires
            old(self).ok(),
        ensures
            not_lex(r),
            final(self).moved(*old(self)),
            r is Ok ==> final(self).level() == old(self).level(),
            agree(
                r,
                g_names_loop(old(self).toks(), old(self).cursor(), old(self).level(), view_local_names(init@)),
                |x: Vec<LocalName>| view_local_names(x@),
                final(self).cursor(),
            ),
    {
        let ghost ts = self.toks();
        let ghost p0 = self.cursor();
        let ghost d0 = self.level();
        let ghost first = view_local_names(init@);
        let mut names = init;
        while self.consume_if(TokenKind::Comma).is_some()
            invariant_except_break
                self.moved(*old(self)),
                old(self).ok(),
                self.toks() == ts,
                self.level() == d0,
                ts == old(self).toks(),
                p0 == old(self).cursor(),
                d0 == old(self).level(),
                first == view_local_names(init@),
                g_names_loop(ts, p0, d0, first) == g_names_loop(ts, self.cursor(), d0, view_local_names(names@)),
            ensures
                self.moved(*old(self)),
                self.toks() == ts,
                self.level() == d0,
                ts == old(self).toks(),
                p0 == old(self).cursor(),
                d0 == old(self).level(),
                first == view_local_names(init@),
                g_names_loop(ts, p0, d0, first) == Ok::<(Seq<LocalNameV>, int), PErr>((view_local_names(names@), self.cursor())),
            decreases self.left(),
        {
            let (n2, s2) = self.expect_ident()?;
            let a2 = self.parse_attribute()?;
            let ghost before = names@;
            names.push(LocalName { name: n2, attribute: a2, span: s2 });
            proof {
                assert(view_local_names(names@) =~= view_local_names(before).push(
                    LocalNameV { name: n2@, attribute: a2, span: s2 },
                ));
            }
        }
        Ok(names)
    }

    #[verifier::rlimit(100)]
    fn parse_attribute(&mut self) -> (r: PResult<Option<Attribute>>)
        requires
            old(self).ok(),
        ensures
            not_lex(r),
            final(self).moved(*old(self)),
            r is Ok ==> final(self).level() == old(self).level(),
            agree(
                r,
                g_attr(old(self).toks(), old(self).cursor()),
                |x: Option<Attribute>| x,
                final(self).cursor(),
            ),
    {
        if self.consume_if(TokenKind::Lt).is_none() {
            return Ok(None);
        }
        let (name, span) = self.expect_ident()?;
        let attr = if text_eq(&name, "const") {
            proof {
                reveal_strlit("const");
            }
            Attribute::Const
        } else if text_eq(&name, "close") {
            proof {
                reveal_strlit("close");
                reveal_strlit("const");
            }
            Attribute::Close
        } else {
            return Err(ParseError::Expected {
                expected: "const or close".to_owned(),
                found: Token::Ident(name),
                span,
            });
        };
        self.expect(TokenKind::Gt)?;
        Ok(Some(attr))
    }

    #[verifier::rlimit(100)]
    fn parse_local_function_body(&mut self, start: Span) -> (r: PResult<LocalFunctionDecl>)
        requires
            old(self).ok(),
        ensures
            not_lex(r),
            final(self).moved(*old(self)),
            r is Ok ==> final(self).consumed(*old(self)),
            r is Ok ==> final(self).level() == old(self).level(),
            agree(
                r,
                g_local_function(old(self).toks(), old(self).cursor(), old(self).level(), start),
                |x: LocalFunctionDecl| StmtV::LocalFunctionDecl {
                    name: x.name@,
                    func: view_func(x.func),
                    span: x.span,
                },
                final(self).cursor(),
            ),
        decreases old(self).left(), 27int,
    {
        let (name, _) = self.expect_ident()?;
        let func = self.parse_function_body()?;
        let span = start.merge(func.span);
        Ok(LocalFunctionDecl { name, func, span })
    }

    #[verifier::rlimit(100)]
    fn parse_named_function(&mut self) -> (r: PResult<FunctionDecl>)
        requires
            old(self).ok(),
        ensures
            not_lex(r),
            final(self).moved(*old(self)),
            r is Ok ==> final(self).consumed(*old(self)),
            r is Ok ==> final(self).level() == old(self).level(),
            agree(
                r,
                g_named_function(old(self).toks(), old(self).cursor(), old(self).level()),
                |x: FunctionDecl| StmtV::FunctionDecl {
                    parts: view_names(x.name.parts@),
                    method: view_opt_string(x.name.method),
                    name_span: x.name.span,
                    func: view_func(x.func),
                    span: x.span,
                },
                final(self).cursor(),
            ),
        decreases old(self).left(), 27int,
    {
        let name = self.parse_function_name()?;
        let func = self.parse_function_body()?;
        let span = name.span.merge(func.span);
        Ok(FunctionDecl { name, func, span })
    }

    #[verifier::rlimit(100)]
    fn parse_function_name(&mut self) -> (r: PResult<FunctionName>)
        requires
            old(self).ok(),
        ensures
            not_lex(r),
            final(self).moved(*old(self)),
            r is Ok ==> final(self).consumed(*old(self)),
            r is Ok ==> final(self).level() == old(self).level(),
            agree(
                r,
                g_funcname(old(self).toks(), old(self).cursor()),
                |x: FunctionName| (view_names(x.parts@), view_opt_string(x.method), x.span),
                final(self).cursor(),
            ),
    {
        let ghost ts = self.toks();
        let ghost p0 = self.cursor();
        let ghost d0 = self.level();
        let (first, start) = self.expect_ident()?;
        let ghost fst = first@;
        let mut parts: Vec<String> = Vec::new();
        parts.push(first);
        let mut end = start;
        let ghost q = self.cursor();
        proof {
            assert(view_names(parts@) =~= seq![fst]);
        }
        while self.consume_if(TokenKind::Dot).is_some()
            invariant_except_break
                self.consumed(*old(self)),
                old(self).ok(),
                self.toks() == ts,
                self.level() == d0,
                ts == old(self).toks(),
                p0 == old(self).cursor(),
                d0 == old(self).level(),
                g_ident(ts, p0) == Ok::<((Seq<char>, Span), int), PErr>(((fst, start), q)),
                g_dotparts(ts, q, seq![fst], start) == g_dotparts(
                    ts,
                    self.cursor(),
                    view_names(parts@),
                    end,
                ),
            ensures
                self.consumed(*old(self)),
                self.toks() == ts,
                self.level() == d0,
                ts == old(self).toks(),
                p0 == old(self).cursor(),
                d0 == old(self).level(),
                g_ident(ts, p0) == Ok::<((Seq<char>, Span), int), PErr>(((fst, start), q)),
                g_dotparts(ts, q, seq![fst], start) == Ok::<((Seq<Seq<char>>, Span), int), PErr>(
                    ((view_names(parts@), end), self.cursor()),
                ),
            decreases self.left(),
        {
            let (part, s) = self.expect_ident()?;
            end = s;
            let ghost before = parts@;
            parts.push(part);
            proof {
                assert(view_names(parts@) =~= view_names(before).push(part@));
            }
        }
        let method = if self.consume_if(TokenKind::Colon).is_some() {
            let (m, s) = self.expect_ident()?;
            end = s;
            Some(m)
        } else {
            None
        };
        Ok(FunctionName { parts, method, span: start.merge(end) })
    }

    #[verifier::rlimit(100)]
    fn parse_function_body(&mut self) -> (r: PResult<FunctionBody>)
        requires
            old(self).ok(),
        ensures
            not_lex(r),
            final(self).moved(*old(self)),
            r is Ok ==> final(self).consumed(*old(self)),
            r is Ok ==> final(self).level() == old(self).level(),
            agree(
                r,
                g_funcbody(old(self).toks(), old(self).cursor(), old(self).level()),
                |x: FunctionBody| view_func(x),
                final(self).cursor(),
            ),
        decreases old(self).left(), 26int,
    {
        let s = self.expect(TokenKind::LParen)?;
        let (params, is_vararg) = self.parse_param_list()?;
        self.expect(TokenKind::RParen)?;
        let body = self.parse_block()?;
        let e = self.expect(TokenKind::End)?;
        Ok(FunctionBody { params, is_vararg, body, span: s.merge(e) })
    }

    #[verifier::rlimit(100)]
    fn parse_param_list(&mut self) -> (r: PResult<(Vec<Param>, bool)>)
        requires
            old(self).ok(),
        ensures
            not_lex(r),
            final(self).moved(*old(self)),
            r is Ok ==> final(self).level() == old(self).level(),
            agree(
                r,
                g_params(old(self).toks(), old(self).cursor()),
                |x: (Vec<Param>, bool)| (view_params(x.0@), x.1),
                final(self).cursor(),
            ),
    {
        let ghost ts = self.toks();
        let ghost p0 = self.cursor();
        let ghost d0 = self.level();
        let mut params: Vec<Param> = Vec::new();
        let mut is_vararg = false;
        if self.check(TokenKind::RParen) {
            proof {
                assert(view_params(params@) =~= Seq::<(Seq<char>, Span)>::empty());
            }
            return Ok((params, is_vararg));
        }
        proof {
            assert(view_params(params@) =~= Seq::<(Seq<char>, Span)>::empty());
        }
        loop
            invariant_except_break
                self.moved(*old(self)),
                old(self).ok(),
                self.toks() == ts,
                self.level() == d0,
                ts == old(self).toks(),
                p0 == old(self).cursor(),
                d0 == old(self).level(),
                !is_vararg,
                g_params(ts, p0) == g_params_loop(ts, self.cursor(), view_params(params@)),
            ensures
                self.moved(*old(self)),
                self.toks() == ts,
                self.level() == d0,
                ts == old(self).toks(),
                p0 == old(self).cursor(),
                d0 == old(self).level(),
                g_params(ts, p0) == Ok::<((Seq<(Seq<char>, Span)>, bool), int), PErr>(
                    ((view_params(params@), is_vararg), self.cursor()),
                ),
            decreases self.left(),
        {
            if self.check(TokenKind::DotDotDot) {
                self.advance();
                is_vararg = true;
                break;
            }
            let (name, span) = self.expect_ident()?;
            let ghost before = params@;
            params.push(Param { name, span });
            proof {
                assert(view_params(params@) =~= view_params(before).push((name@, span)));
            }
            if self.consume_if(TokenKind::Comma).is_none() {
                break;
            }
        }
        Ok((params, is_vararg))
    }

    #[verifier::rlimit(100)]
    fn parse_if(&mut self) -> (r: PResult<If>)
        requires
            old(self).ok(),
        ensures
            not_lex(r),
            final(self).moved(*old(self)),
            r is Ok ==> final(self).consumed(*old(self)),
            r is Ok ==> final(self).level() == old(self).level(),
            agree(
                r,
                g_if(old(self).toks(), old(self).cursor(), old(self).level()),
                |x: If| view_stmt(Statement::If(x)),
                final(self).cursor(),
            ),
        decreases old(self).left(), 28int,
    {
        let ghost ts = self.toks();
        let ghost p0 = self.cursor();
        let ghost d0 = self.level();
        let s = self.peek_span();
        self.expect(TokenKind::If)?;
        let ghost q0 = self.cursor();
        let condition = Box::new(self.parse_expression(0)?);
        let ghost q1 = self.cursor();
        let ghost cond_v = view_expr(*condition);
        self.expect(TokenKind::Then)?;
        let ghost q2 = self.cursor();
        let then_block = self.parse_block()?;
        let ghost then_v = view_block(then_block);
        let mut elseif_clauses: Vec<ElseIf> = Vec::new();
        let mut else_block: Option<Block> = None;
        let ghost q3 = self.cursor();
        proof {
            assert(view_elseifs(elseif_clauses@) =~= Seq::<ElseIfV>::empty());
        }
        loop
            invariant_except_break
                self.consumed(*old(self)),
                old(self).ok(),
                self.toks() == ts,
                self.level() == d0,
                ts == old(self).toks(),
                p0 == old(self).cursor(),
                d0 == old(self).level(),
                s == sat(ts, p0),
                g_expect(ts, p0, TokenKind::If) == Ok::<(Span, int), PErr>((sat(ts, p0), q0)),
                fwd(ts, p0, q0),
                g_expr(ts, q0, d0, 0) == Ok::<(ExprV, int), PErr>((cond_v, q1)),
                g_expect(ts, q1, TokenKind::Then) == Ok::<(Span, int), PErr>((sat(ts, q1), q2)),
                fwd(ts, p0, q2),
                g_block(ts, q2, d0) == Ok::<(BlockV, int), PErr>((then_v, q3)),
                stay(ts, p0, q3),
                view_expr(*condition) == cond_v,
                view_block(then_block) == then_v,
                else_block is None,
                q3 <= self.cursor(),
                g_elseifs(ts, q3, d0, seq![]) == g_elseifs(
                    ts,
                    self.cursor(),
                    d0,
                    view_elseifs(elseif_clauses@),
                ),
            ensures
                self.consumed(*old(self)),
                self.toks() == ts,
                self.level() == d0,
                ts == old(self).toks(),
                p0 == old(self).cursor(),
                d0 == old(self).level(),
                s == sat(ts, p0),
                g_expect(ts, p0, TokenKind::If) == Ok::<(Span, int), PErr>((sat(ts, p0), q0)),
                fwd(ts, p0, q0),
                g_expr(ts, q0, d0, 0) == Ok::<(ExprV, int), PErr>((cond_v, q1)),
                g_expect(ts, q1, TokenKind::Then) == Ok::<(Span, int), PErr>((sat(ts, q1), q2)),
                fwd(ts, p0, q2),
                g_block(ts, q2, d0) == Ok::<(BlockV, int), PErr>((then_v, q3)),
                stay(ts, p0, q3),
                view_expr(*condition) == cond_v,
                view_block(then_block) == then_v,
                q3 <= self.cursor(),
                g_elseifs(ts, q3, d0, seq![]) == Ok::<((Seq<ElseIfV>, Option<BlockV>), int), PErr>(
                    (
                        (
                            view_elseifs(elseif_clauses@),
                            match else_block {
                                Some(b) => Some(view_block(b)),
                                None => None,
                            },
                        ),
                        self.cursor(),
                    ),
                ),
            decreases self.left(),
        {
            if self.check(TokenKind::Elseif) {
                let es = self.peek_span();
                self.advance();
                let cond = Box::new(self.parse_expression(0)?);
                self.expect(TokenKind::Then)?;
                let body = self.parse_block()?;
                let span = es.merge(body.span);
                let ghost before = elseif_clauses@;
                let clause = ElseIf { condition: cond, body, span };
                let ghost cv = view_elseif(clause);
                elseif_clauses.push(clause);
                proof {
                    lemma_vei_push(before, elseif_clauses@.last());
                    assert(elseif_clauses@ == before.push(elseif_clauses@.last()));
                }
            } else if self.consume_if(TokenKind::Else).is_some() {
                else_block = Some(self.parse_block()?);
                break;
            } else {
                break;
            }
        }
        let e = self.expect(TokenKind::End)?;
        Ok(If { condition, then_block, elseif_clauses, else_block, span: s.merge(e) })
    }

    #[verifier::rlimit(100)]
    fn parse_for_stmt(&mut self) -> (r: PResult<Statement>)
        requires
            old(self).ok(),
        ensures
            not_lex(r),
            final(self).moved(*old(self)),
            r is Ok ==> final(self).consumed(*old(self)),
            r is Ok ==> final(self).level() == old(self).level(),
            agree(
                r,
                g_for(old(self).toks(), old(self).cursor(), old(self).level()),
                |x: Statement| x@,
                final(self).cursor(),
            ),
        decreases old(self).left(), 27int,
    {
        let ghost ts = self.toks();
        let ghost p0 = self.cursor();
        let ghost d0 = self.level();
        let (first_name, start) = self.expect_ident()?;
        if self.check(TokenKind::Assign) {
            self.advance();
            let init = self.parse_expression(0)?;
            self.expect(TokenKind::Comma)?;
            let limit = self.parse_expression(0)?;
            let step = if self.consume_if(TokenKind::Comma).is_some() {
                Some(Box::new(self.parse_expression(0)?))
            } else {
                None
            };
            self.expect(TokenKind::Do)?;
            let body = self.parse_block()?;
            let e = self.expect(TokenKind::End)?;
            Ok(
                Statement::NumericFor(
                    NumericFor {
                        var: first_name,
                        start: Box::new(init),
                        limit: Box::new(limit),
                        step,
                        body,
                        span: start.merge(e),
                    },
                ),
            )
        } else {
            let ghost fname = first_name@;
            let mut vars: Vec<String> = Vec::new();
            vars.push(first_name);
            let ghost q = self.cursor();
            proof {
                assert(view_names(vars@) =~= seq![fname]);
            }
            while self.consume_if(TokenKind::Comma).is_some()
                invariant_except_break
                    self.consumed(*old(self)),
                    old(self).ok(),
                    self.toks() == ts,
                    self.level() == d0,
                    ts == old(self).toks(),
                    p0 == old(self).cursor(),
                    d0 == old(self).level(),
                    g_ident(ts, p0) == Ok::<((Seq<char>, Span), int), PErr>(((fname, start), q)),
                    kat(ts, q) != TokenKind::Assign,
                    g_forvars(ts, q, seq![fname]) == g_forvars(
                        ts,
                        self.cursor(),
                        view_names(vars@),
                    ),
                ensures
                    self.consumed(*old(self)),
                    self.toks() == ts,
                    self.level() == d0,
                    ts == old(self).toks(),
                    p0 == old(self).cursor(),
                    d0 == old(self).level(),
                    g_ident(ts, p0) == Ok::<((Seq<char>, Span), int), PErr>(((fname, start), q)),
                    kat(ts, q) != TokenKind::Assign,
                    g_forvars(ts, q, seq![fname]) == Ok::<(Seq<Seq<char>>, int), PErr>(
                        (view_names(vars@), self.cursor()),
                    ),
                decreases self.left(),
            {
                let (name, _) = self.expect_ident()?;
                let ghost before = vars@;
                vars.push(name);
                proof {
                    assert(view_names(vars@) =~= view_names(before).push(name@));
                }
            }
            self.expect(TokenKind::In)?;
            let iterators = self.parse_expr_list()?;
            self.expect(TokenKind::Do)?;
            let body = self.parse_block()?;
            let e = self.expect(TokenKind::End)?;
            Ok(Statement::GenericFor(GenericFor { vars, iterators, body, span: start.merge(e) }))
        }
    }

    #[verifier::rlimit(100)]
    fn parse_return(&mut self) -> (r: PResult<Return>)
        requires
            old(self).ok(),
        ensures
            not_lex(r),
            final(self).moved(*old(self)),
            r is Ok ==> final(self).consumed(*old(self)),
            r is Ok ==> final(self).level() == old(self).level(),
            agree(
                r,
                g_return(old(self).toks(), old(self).cursor(), old(self).level()),
                |x: Return| view_stmt(Statement::Return(x)),
                final(self).cursor(),
            ),
        decreases old(self).left(), 28int,
    {
        let s = self.peek_span();
        self.expect(TokenKind::Return)?;
        let values = if self.at_block_end() || self.check(TokenKind::Semicolon) {
            Vec::new()
        } else {
            self.parse_expr_list()?
        };
        let end = if values.len() > 0 {
            values[values.len() - 1].span()
        } else {
            s
        };
        proof {
            if values.len() > 0 {
                crate::ast::lemma_view_exprs(values@);
            }
            assert(view_exprs(Seq::<Expression>::empty()) =~= Seq::<ExprV>::empty());
        }
        Ok(Return { values, span: s.merge(end) })
    }

    #[verifier::rlimit(100)]
    fn parse_assign_or_call(&mut self) -> (r: PResult<Statement>)
        requires
            old(self).ok(),
        ensures
            not_lex(r),
            final(self).moved(*old(self)),
            r is Ok ==> final(self).consumed(*old(self)),
            r is Ok ==> final(self).level() == old(self).level(),
            agree(
                r,
                g_assign_or_call(old(self).toks(), old(self).cursor(), old(self).level()),
                |x: Statement| x@,
                final(self).cursor(),
            ),
        decreases old(self).left(), 28int,
    {
        let ghost ts = self.toks();
        let ghost p0 = self.cursor();
        let ghost d0 = self.level();
        let expr = self.parse_suffixed_expression()?;
        let ghost q0 = self.cursor();
        if self.check(TokenKind::Assign) || self.check(TokenKind::Comma) {
            let span_start = expr.span();
            let ghost ev = view_expr(expr);
            let mut targets: Vec<Expression> = Vec::new();
            targets.push(expr);
            let ghost q = self.cursor();
            proof {
                crate::ast::lemma_view_exprs(targets@);
                assert(view_exprs(targets@) =~= seq![ev]);
            }
            while self.consume_if(TokenKind::Comma).is_some()
                invariant_except_break
                    self.consumed(*old(self)),
                    old(self).ok(),
                    self.toks() == ts,
                    self.level() == d0,
                    ts == old(self).toks(),
                    p0 == old(self).cursor(),
                    d0 == old(self).level(),
                    g_suffixed(ts, p0, d0) == Ok::<(ExprV, int), PErr>((ev, q0)),
                    q == q0,
                    kat(ts, q) == TokenKind::Assign || kat(ts, q) == TokenKind::Comma,
                    fwd(ts, p0, q),
                    span_start == expr_span(ev),
                    g_targets(ts, q, d0, seq![ev]) == g_targets(
                        ts,
                        self.cursor(),
                        d0,
                        view_exprs(targets@),
                    ),
                ensures
                    self.consumed(*old(self)),
                    self.toks() == ts,
                    self.level() == d0,
                    ts == old(self).toks(),
                    p0 == old(self).cursor(),
                    d0 == old(self).level(),
                    g_suffixed(ts, p0, d0) == Ok::<(ExprV, int), PErr>((ev, q0)),
                    q == q0,
                    kat(ts, q) == TokenKind::Assign || kat(ts, q) == TokenKind::Comma,
                    fwd(ts, p0, q),
                    span_start == expr_span(ev),
                    g_targets(ts, q, d0, seq![ev]) == Ok::<(Seq<ExprV>, int), PErr>(
                        (view_exprs(targets@), self.cursor()),
                    ),
                decreases self.left(),
            {
                let t = self.parse_suffixed_expression()?;
                let ghost before = targets@;
                targets.push(t);
                proof {
                    lemma_ve_push(before, targets@.last());
                    assert(targets@ == before.push(targets@.last()));
                }
            }
            self.expect(TokenKind::Assign)?;
            let values = self.parse_expr_list()?;
            let span_end = if values.len() > 0 {
                values[values.len() - 1].span()
            } else {
                span_start
            };
            proof {
                if values.len() > 0 {
                    crate::ast::lemma_view_exprs(values@);
                }
            }
            Ok(Statement::Assign(Assign { targets, values, span: span_start.merge(span_end) }))
        } else {
            match expr {
                Expression::Call(_) => Ok(Statement::ExprStmt(expr)),
                _ => Err(ParseError::Unexpected { found: self.peek_token(), span: self.peek_span() }),
            }
        }
    }
}

impl Parser {
    #[verifier::rlimit(100)]
    fn parse_expr_list(&mut self) -> (r: PResult<Vec<Expression>>)
        requires
            old(self).ok(),
        ensures
            not_lex(r),
            final(self).moved(*old(self)),
            r is Ok ==> final(self).consumed(*old(self)),
            r is Ok ==> final(self).level() == old(self).level(),
            agree(
                r,
                g_exprlist(old(self).toks(), old(self).cursor(), old(self).level()),
                |x: Vec<Expression>| view_exprs(x@),
                final(self).cursor(),
            ),
        decreases old(self).left(), 21int,
    {
        let ghost ts = self.toks();
        let ghost p0 = self.cursor();
        let ghost d0 = self.level();
        let mut exprs: Vec<Expression> = Vec::new();
        let first = self.parse_expression(0)?;
        let ghost fv = view_expr(first);
        exprs.push(first);
        let ghost q = self.cursor();
        proof {
            crate::ast::lemma_view_exprs(exprs@);
            assert(view_exprs(exprs@) =~= seq![fv]);
        }
        while self.consume_if(TokenKind::Comma).is_some()
            invariant_except_break
                self.consumed(*old(self)),
                old(self).ok(),
                self.toks() == ts,
                self.level() == d0,
                ts == old(self).toks(),
                p0 == old(self).cursor(),
                d0 == old(self).level(),
                g_expr(ts, p0, d0, 0) == Ok::<(ExprV, int), PErr>((fv, q)),
                fwd(ts, p0, q),
                g_exprs_loop(ts, q, d0, seq![fv]) == g_exprs_loop(
                    ts,
                    self.cursor(),
                    d0,
                    view_exprs(exprs@),
                ),
            ensures
                self.consumed(*old(self)),
                self.toks() == ts,
                self.level() == d0,
                ts == old(self).toks(),
                p0 == old(self).cursor(),
                d0 == old(self).level(),
                g_expr(ts, p0, d0, 0) == Ok::<(ExprV, int), PErr>((fv, q)),
                fwd(ts, p0, q),
                g_exprs_loop(ts, q, d0, seq![fv]) == Ok::<(Seq<ExprV>, int), PErr>(
                    (view_exprs(exprs@), self.cursor()),
                ),
            decreases self.left(),
        {
            let e = self.parse_expression(0)?;
            let ghost before = exprs@;
            exprs.push(e);
            proof {
                lemma_ve_push(before, exprs@.last());
                assert(exprs@ == before.push(exprs@.last()));
            }
        }
        Ok(exprs)
    }

    /// Precedence climbing: operands joined by binary operators whose left
    /// binding power is at least `min_prec`.
    #[verifier::rlimit(100)]
    fn parse_expression(&mut self, min_prec: u8) -> (r: PResult<Expression>)
        requires
            old(self).ok(),
        ensures
            not_lex(r),
            final(self).moved(*old(self)),
            r is Ok ==> final(self).consumed(*old(self)),
            r is Ok ==> final(self).level() == old(self).level(),
            agree(
                r,
                g_expr(old(self).toks(), old(self).cursor(), old(self).level(), min_prec),
                |x: Expression| x@,
                final(self).cursor(),
            ),
        decreases old(self).left(), 20int,
    {
        let ghost ts = self.toks();
        let ghost p0 = self.cursor();
        let ghost d0 = self.level();
        let saved = self.depth;
        if saved >= MAX_NESTING {
            return Err(ParseError::NestingDepthExceeded { span: self.peek_span() });
        }
        self.depth = saved + 1;
        let mut lhs = self.parse_unary_expression()?;
        let ghost q = self.cursor();
        let ghost lv = view_expr(lhs);
        loop
            invariant_except_break
                self.consumed(*old(self)),
                old(self).ok(),
                self.toks() == ts,
                self.level() == d0 + 1,
                ts == old(self).toks(),
                p0 == old(self).cursor(),
                d0 == old(self).level(),
                d0 < MAX_NESTING,
                saved == d0,
                g_unary(ts, p0, d0 + 1) == Ok::<(ExprV, int), PErr>((lv, q)),
                fwd(ts, p0, q),
                g_binops(ts, q, d0 + 1, min_prec, lv) == g_binops(
                    ts,
                    self.cursor(),
                    d0 + 1,
                    min_prec,
                    view_expr(lhs),
                ),
            ensures
                self.consumed(*old(self)),
                self.toks() == ts,
                self.level() == d0 + 1,
                ts == old(self).toks(),
                p0 == old(self).cursor(),
                d0 == old(self).level(),
                d0 < MAX_NESTING,
                saved == d0,
                g_unary(ts, p0, d0 + 1) == Ok::<(ExprV, int), PErr>((lv, q)),
                fwd(ts, p0, q),
                g_binops(ts, q, d0 + 1, min_prec, lv) == Ok::<(ExprV, int), PErr>(
                    (view_expr(lhs), self.cursor()),
                ),
            decreases self.left(),
        {
            let op = match binop_of_exec(self.peek_kind()) {
                Some(op) => op,
                None => break,
            };
            let (left_bp, right_bp) = binary_prec(op);
            if left_bp < min_prec {
                break;
            }
            self.advance();
            let rhs = self.parse_expression(right_bp)?;
            let span = lhs.span().merge(rhs.span());
            lhs = Expression::BinOp(Box::new(lhs), op, Box::new(rhs), span);
        }
        self.depth = saved;
        Ok(lhs)
    }

    #[verifier::rlimit(100)]
    fn parse_unary_expression(&mut self) -> (r: PResult<Expression>)
        requires
            old(self).ok(),
        ensures
            not_lex(r),
            final(self).moved(*old(self)),
            r is Ok ==> final(self).consumed(*old(self)),
            r is Ok ==> final(self).level() == old(self).level(),
            agree(
                r,
                g_unary(old(self).toks(), old(self).cursor(), old(self).level()),
                |x: Expression| x@,
                final(self).cursor(),
            ),
        decreases old(self).left(), 19int,
    {
        let s = self.peek_span();
        let op = match self.peek_kind() {
            TokenKind::Minus => Some(UnaryOp::Neg),
            TokenKind::Not => Some(UnaryOp::Not),
            TokenKind::Hash => Some(UnaryOp::Len),
            TokenKind::Tilde => Some(UnaryOp::BitwiseNot),
            _ => None,
        };
        match op {
            Some(unop) => {
                self.advance();
                let operand = self.parse_expression(UNARY_PREC)?;
                let span = s.merge(operand.span());
                Ok(Expression::UnOp(unop, Box::new(operand), span))
            },
            None => self.parse_suffixed_expression(),
        }
    }

    #[verifier::rlimit(100)]
    fn parse_suffixed_expression(&mut self) -> (r: PResult<Expression>)
        requires
            old(self).ok(),
        ensures
            not_lex(r),
            final(self).moved(*old(self)),
            r is Ok ==> final(self).consumed(*old(self)),
            r is Ok ==> final(self).level() == old(self).level(),
            agree(
                r,
                g_suffixed(old(self).toks(), old(self).cursor(), old(self).level()),
                |x: Expression| x@,
                final(self).cursor(),
            ),
        decreases old(self).left(), 17int,
    {
        let ghost ts = self.toks();
        let ghost p0 = self.cursor();
        let ghost d0 = self.level();
        let mut base = self.parse_primary_expression()?;
        let ghost q = self.cursor();
        let ghost bv = view_expr(base);
        loop
            invariant_except_break
                self.consumed(*old(self)),
                old(self).ok(),
                self.toks() == ts,
                self.level() == d0,
                ts == old(self).toks(),
                p0 == old(self).cursor(),
                d0 == old(self).level(),
                g_primary(ts, p0, d0) == Ok::<(ExprV, int), PErr>((bv, q)),
                fwd(ts, p0, q),
                g_suffixes(ts, q, d0, bv) == g_suffixes(ts, self.cursor(), d0, view_expr(base)),
            ensures
                self.consumed(*old(self)),
                self.toks() == ts,
                self.level() == d0,
                ts == old(self).toks(),
                p0 == old(self).cursor(),
                d0 == old(self).level(),
                g_primary(ts, p0, d0) == Ok::<(ExprV, int), PErr>((bv, q)),
                fwd(ts, p0, q),
                g_suffixes(ts, q, d0, bv) == Ok::<(ExprV, int), PErr>(
                    (view_expr(base), self.cursor()),
                ),
            decreases self.left(),
        {
            match self.peek_kind() {
                TokenKind::Dot => {
                    self.advance();
                    let (field, s) = self.expect_ident()?;
                    let span = base.span().merge(s);
                    base = Expression::Index(Box::new(base), field, span);
                },
                TokenKind::LBracket => {
                    let s = self.peek_span();
                    self.advance();
                    let key = self.parse_expression(0)?;
                    let e = self.expect(TokenKind::RBracket)?;
                    let span = s.merge(e);
                    base = Expression::IndexExpr(Box::new(base), Box::new(key), span);
                },
                TokenKind::Colon => {
                    self.advance();
                    let (method, _) = self.expect_ident()?;
                    let (args, e) = self.parse_call_args()?;
                    let span = base.span().merge(e);
                    base = Expression::Call(Call::MethodCall { obj: Box::new(base), method, args, span });
                },
                TokenKind::LParen | TokenKind::StringLit | TokenKind::LBrace => {
                    let (args, e) = self.parse_call_args()?;
                    let span = base.span().merge(e);
                    base = Expression::Call(Call::Call { func: Box::new(base), args, span });
                },
                _ => break,
            }
        }
        Ok(base)
    }

    #[verifier::rlimit(100)]
    fn parse_primary_expression(&mut self) -> (r: PResult<Expression>)
        requires
            old(self).ok(),
        ensures
            not_lex(r),
            final(self).moved(*old(self)),
            r is Ok ==> final(self).consumed(*old(self)),
            r is Ok ==> final(self).level() == old(self).level(),
            agree(
                r,
                g_primary(old(self).toks(), old(self).cursor(), old(self).level()),
                |x: Expression| x@,
                final(self).cursor(),
            ),
        decreases old(self).left(), 16int,
    {
        let s = self.peek_span();
        if self.pos < self.tokens.len() {
            match &self.tokens[self.pos].token {
                Token::Integer(n) => {
                    let n = *n;
                    self.pos = self.pos + 1;
                    return Ok(Expression::Integer(n, s));
                },
                Token::HexInteger(n) => {
                    let n = *n;
                    self.pos = self.pos + 1;
                    return Ok(Expression::Integer(n, s));
                },
                Token::Float(f) => {
                    let f = f.clone();
                    self.pos = self.pos + 1;
                    return Ok(Expression::Float(f, s));
                },
                Token::StringLit(text) => {
                    let text = text.clone();
                    self.pos = self.pos + 1;
                    return Ok(Expression::String(text, s));
                },
                Token::Ident(name) => {
                    let name = name.clone();
                    self.pos = self.pos + 1;
                    return Ok(Expression::Name(name, s));
                },
                _ => {},
            }
        }
        match self.peek_kind() {
            TokenKind::Nil => {
                self.advance();
                Ok(Expression::Nil(s))
            },
            TokenKind::True => {
                self.advance();
                Ok(Expression::True(s))
            },
            TokenKind::False => {
                self.advance();
                Ok(Expression::False(s))
            },
            TokenKind::DotDotDot => {
                self.advance();
                Ok(Expression::Vararg(s))
            },
            TokenKind::LParen => {
                self.advance();
                let inner = self.parse_expression(0)?;
                let e = self.expect(TokenKind::RParen)?;
                Ok(adjust_span(inner, s.merge(e)))
            },
            TokenKind::LBrace => {
                let tbl = self.parse_table_constructor()?;
                Ok(Expression::Table(tbl))
            },
            TokenKind::Function => {
                self.advance();
                let body = self.parse_function_body()?;
                Ok(Expression::Function(body))
            },
            _ => Err(ParseError::Unexpected { found: self.peek_token(), span: s }),
        }
    }

    #[verifier::rlimit(100)]
    fn parse_call_args(&mut self) -> (r: PResult<(Vec<Expression>, Span)>)
        requires
            old(self).ok(),
        ensures
            not_lex(r),
            final(self).moved(*old(self)),
            r is Ok ==> final(self).consumed(*old(self)),
            r is Ok ==> final(self).level() == old(self).level(),
            agree(
                r,
                g_callargs(old(self).toks(), old(self).cursor(), old(self).level()),
                |x: (Vec<Expression>, Span)| (view_exprs(x.0@), x.1),
                final(self).cursor(),
            ),
        decreases old(self).left(), 15int,
    {
        if self.pos < self.tokens.len() {
            match &self.tokens[self.pos].token {
                Token::StringLit(text) => {
                    let text = text.clone();
                    let s = self.tokens[self.pos].span;
                    self.pos = self.pos + 1;
                    let mut args: Vec<Expression> = Vec::new();
                    args.push(Expression::String(text, s));
                    proof {
                        crate::ast::lemma_view_exprs(args@);
                        assert(view_exprs(args@) =~= seq![view_expr(args@[0])]);
                    }
                    return Ok((args, s));
                },
                _ => {},
            }
        }
        match self.peek_kind() {
            TokenKind::LParen => {
                let s = self.peek_span();
                self.advance();
                let args = if self.check(TokenKind::RParen) {
                    Vec::new()
                } else {
                    self.parse_expr_list()?
                };
                proof {
                    assert(view_exprs(Seq::<Expression>::empty()) =~= Seq::<ExprV>::empty());
                }
                let e = self.expect(TokenKind::RParen)?;
                Ok((args, s.merge(e)))
            },
            TokenKind::LBrace => {
                let tbl = self.parse_table_constructor()?;
                let span = tbl.span;
                let mut args: Vec<Expression> = Vec::new();
                args.push(Expression::Table(tbl));
                proof {
                    crate::ast::lemma_view_exprs(args@);
                    assert(view_exprs(args@) =~= seq![view_expr(args@[0])]);
                }
                Ok((args, span))
            },
            _ => Err(ParseError::Expected {
                expected: "call arguments".to_owned(),
                found: self.peek_token(),
                span: self.peek_span(),
            }),
        }
    }

    #[verifier::rlimit(100)]
    fn parse_table_constructor(&mut self) -> (r: PResult<TableConstructor>)
        requires
            old(self).ok(),
        ensures
            not_lex(r),
            final(self).moved(*old(self)),
            r is Ok ==> final(self).consumed(*old(self)),
            r is Ok ==> final(self).level() == old(self).level(),
            agree(
                r,
                g_table(old(self).toks(), old(self).cursor(), old(self).level()),
                |x: TableConstructor| ExprV::Table { fields: view_fields(x.fields@), span: x.span },
                final(self).cursor(),
            ),
        decreases old(self).left(), 14int,
    {
        let ghost ts = self.toks();
        let ghost p0 = self.cursor();
        let ghost d0 = self.level();
        let s = self.expect(TokenKind::LBrace)?;
        let mut fields: Vec<TableField> = Vec::new();
        let ghost q = self.cursor();
        proof {
            assert(view_fields(fields@) =~= Seq::<FieldV>::empty());
        }
        while !self.check(TokenKind::RBrace)
            invariant_except_break
                self.consumed(*old(self)),
                old(self).ok(),
                self.toks() == ts,
                self.level() == d0,
                ts == old(self).toks(),
                p0 == old(self).cursor(),
                d0 == old(self).level(),
                g_expect(ts, p0, TokenKind::LBrace) == Ok::<(Span, int), PErr>((s, q)),
                fwd(ts, p0, q),
                g_fields(ts, q, d0, seq![]) == g_fields(ts, self.cursor(), d0, view_fields(fields@)),
            ensures
                self.consumed(*old(self)),
                self.toks() == ts,
                self.level() == d0,
                ts == old(self).toks(),
                p0 == old(self).cursor(),
                d0 == old(self).level(),
                g_expect(ts, p0, TokenKind::LBrace) == Ok::<(Span, int), PErr>((s, q)),
                fwd(ts, p0, q),
                g_fields(ts, q, d0, seq![]) == Ok::<(Seq<FieldV>, int), PErr>(
                    (view_fields(fields@), self.cursor()),
                ),
            decreases self.left(),
        {
            let f = self.parse_table_field()?;
            let ghost before = fields@;
            fields.push(f);
            proof {
                lemma_vf_push(before, fields@.last());
                assert(fields@ == before.push(fields@.last()));
            }
            if self.consume_if(TokenKind::Comma).is_none() && self.consume_if(
                TokenKind::Semicolon,
            ).is_none() {
                break;
            }
        }
        let e = self.expect(TokenKind::RBrace)?;
        Ok(TableConstructor { fields, span: s.merge(e) })
    }

    #[verifier::rlimit(100)]
    fn parse_table_field(&mut self) -> (r: PResult<TableField>)
        requires
            old(self).ok(),
        ensures
            not_lex(r),
            final(self).moved(*old(self)),
            r is Ok ==> final(self).consumed(*old(self)),
            r is Ok ==> final(self).level() == old(self).level(),
            agree(
                r,
                g_field(old(self).toks(), old(self).cursor(), old(self).level()),
                |x: TableField| view_field(x),
                final(self).cursor(),
            ),
        decreases old(self).left(), 25int,
    {
        if self.check(TokenKind::LBracket) {
            let s = self.peek_span();
            self.advance();
            let key = self.parse_expression(0)?;
            self.expect(TokenKind::RBracket)?;
            self.expect(TokenKind::Assign)?;
            let value = Box::new(self.parse_expression(0)?);
            let span = s.merge(value.span());
            return Ok(TableField::ExprKey { key: Box::new(key), value, span });
        }
        if self.is_name_assign_field() {
            let s = self.peek_span();
            let (name, _) = self.expect_ident()?;
            self.advance();
            let value = Box::new(self.parse_expression(0)?);
            let span = s.merge(value.span());
            return Ok(TableField::NameKey { key: name, value, span });
        }
        Ok(TableField::Positional(self.parse_expression(0)?))
    }

    /// Whether the next tokens are `Name =`.
    fn is_name_assign_field(&self) -> (r: bool)
        ensures
            r == name_assign(self.toks(), self.cursor()),
            r ==> self.at() == TokenKind::Ident,
            r ==> self.pos + 1 < self.tokens@.len() && kind_of(self.tokens@[self.pos + 1].token)
                == TokenKind::Assign,
    {
        proof {
            if self.pos < self.tokens.len() {
                lemma_kind_v(self.tokens@[self.pos as int].token);
            }
            if self.pos + 1 < self.tokens.len() {
                lemma_kind_v(self.tokens@[self.pos + 1].token);
            }
        }
        self.pos < self.tokens.len() && self.tokens[self.pos].token.kind() == TokenKind::Ident
            && self.pos + 1 < self.tokens.len() && self.tokens[self.pos + 1].token.kind()
            == TokenKind::Assign
    }
}

/// Parses a Lua 5.5 source into a block, or reports why it cannot: the
/// tokens must form one block that reaches the end of input.
#[verifier::rlimit(100)]
pub fn parse(source: &str) -> (r: Result<Block, ParseError>)
    requires
        byte_len(source@) < u32::MAX,
    ensures
        presult(r) == parsed(source@),
        tokens_of(source@) is Err ==> r == Err::<Block, ParseError>(
            ParseError::Lex(tokens_of(source@)->Err_0),
        ),
        tokens_of(source@) is Ok ==> !(r matches Err(ParseError::Lex(_))),
{
    let lexer = Lexer::new(source);
    let tokens = match lexer.tokenize() {
        Ok(t) => t,
        Err(e) => {
            return Err(ParseError::Lex(e));
        },
    };
    let ghost ts = view_spanned(tokens@);
    let mut parser = Parser::new(tokens);
    let block = match parser.parse_block() {
        Ok(b) => b,
        Err(e) => {
            proof {
                assert(parse_spec(ts) == Err::<BlockV, PErr>(perr(e)));
            }
            return Err(e);
        },
    };
    if parser.peek_kind() != TokenKind::Eof {
        return Err(ParseError::Unexpected { found: parser.peek_token(), span: parser.peek_span() });
    }
    Ok(block)
}

} // verus!
