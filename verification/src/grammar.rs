//! The Lua 5.5 grammar the parser accepts, as functions over the token
//! stream: each takes the stream, a position and the current nesting depth,
//! and gives the syntax tree read from there with the position after it, or
//! the error the parser reports.

use vstd::prelude::*;

use crate::ast::{expr_span, Attribute, BinaryOp, BlockV, ElseIfV, ExprV, FieldV, FuncV, LocalNameV, StmtV, UnaryOp};
use crate::diagnostics::{spec_dummy, spec_merge, Span};
use crate::lexer::{tokens_of, LexError};
use crate::parser::{binop_of, kind_name, reframe, spec_binary_prec, MAX_NESTING, UNARY_PREC};
use crate::token::{TokenKind, TokenV};

verus! {

/// A parse error, by content.
pub ghost enum PErr {
    Lex(LexError),
    Expected { expected: Seq<char>, found: TokenV, span: Span },
    Unexpected { found: TokenV, span: Span },
    Nesting { span: Span },
}

/// A token stream, by content.
pub type Toks = Seq<(TokenV, Span)>;

/// What a grammar rule gives: a value and the position after it, or an error.
pub type G<X> = Result<(X, int), PErr>;

pub open spec fn kind_v(t: TokenV) -> TokenKind {
    match t {
        TokenV::Str(_) => TokenKind::StringLit,
        TokenV::Float(_) => TokenKind::Float,
        TokenV::Hex(_) => TokenKind::HexInteger,
        TokenV::Int(_) => TokenKind::Integer,
        TokenV::Name(_) => TokenKind::Ident,
        TokenV::Sym(k) => k,
    }
}

/// The kind of the token at `p`; `Eof` past the end.
pub open spec fn kat(ts: Toks, p: int) -> TokenKind {
    if 0 <= p < ts.len() {
        kind_v(ts[p].0)
    } else {
        TokenKind::Eof
    }
}

/// The token at `p`; `Eof` past the end.
pub open spec fn tat(ts: Toks, p: int) -> TokenV {
    if 0 <= p < ts.len() {
        ts[p].0
    } else {
        TokenV::Sym(TokenKind::Eof)
    }
}

/// The span of the token at `p`; the placeholder span past the end.
pub open spec fn sat(ts: Toks, p: int) -> Span {
    if 0 <= p < ts.len() {
        ts[p].1
    } else {
        spec_dummy()
    }
}

/// A kind that closes a block.
pub open spec fn is_end(k: TokenKind) -> bool {
    k == TokenKind::End || k == TokenKind::Else || k == TokenKind::Elseif || k == TokenKind::Until
        || k == TokenKind::Eof
}

/// The next position is a step forward, within the stream.
pub open spec fn fwd(ts: Toks, p: int, q: int) -> bool {
    p < q <= ts.len()
}

/// No step backward, within the stream.
pub open spec fn stay(ts: Toks, p: int, q: int) -> bool {
    p <= q <= ts.len()
}

/// Stands for a case the rules themselves never reach.
pub open spec fn gap<X>() -> G<X> {
    Err(PErr::Nesting { span: spec_dummy() })
}

pub open spec fn expected_err<X>(ts: Toks, p: int, what: Seq<char>) -> G<X> {
    Err(PErr::Expected { expected: what, found: tat(ts, p), span: sat(ts, p) })
}

/// A token of kind `k`, giving its span.
pub open spec fn g_expect(ts: Toks, p: int, k: TokenKind) -> G<Span> {
    if kat(ts, p) == k {
        Ok((sat(ts, p), p + 1))
    } else {
        expected_err(ts, p, kind_name(k))
    }
}

/// A name, giving its text and span.
pub open spec fn g_ident(ts: Toks, p: int) -> G<(Seq<char>, Span)> {
    if 0 <= p < ts.len() && ts[p].0 is Name {
        Ok(((ts[p].0->Name_0, ts[p].1), p + 1))
    } else {
        expected_err(ts, p, "identifier"@)
    }
}

/// The position after any semicolons at `p`.
pub open spec fn skip_semis(ts: Toks, p: int) -> int
    decreases ts.len() - p,
{
    if 0 <= p < ts.len() && kind_v(ts[p].0) == TokenKind::Semicolon {
        skip_semis(ts, p + 1)
    } else {
        p
    }
}

/// `<const>` or `<close>` after a local name, if present.
pub open spec fn g_attr(ts: Toks, p: int) -> G<Option<Attribute>> {
    if kat(ts, p) != TokenKind::Lt {
        Ok((None, p))
    } else {
        match g_ident(ts, p + 1) {
            Err(e) => Err(e),
            Ok(((name, span), q)) => {
                if name == "const"@ || name == "close"@ {
                    match g_expect(ts, q, TokenKind::Gt) {
                        Err(e) => Err(e),
                        Ok((_, q2)) => Ok(
                            (Some(if name == "const"@ { Attribute::Const } else { Attribute::Close }), q2),
                        ),
                    }
                } else {
                    Err(PErr::Expected { expected: "const or close"@, found: TokenV::Name(name), span })
                }
            },
        }
    }
}

/// The names of a dotted function name after its first part.
pub open spec fn g_dotparts(ts: Toks, p: int, acc: Seq<Seq<char>>, end: Span) -> G<(Seq<Seq<char>>, Span)>
    decreases ts.len() - p,
{
    if kat(ts, p) == TokenKind::Dot {
        match g_ident(ts, p + 1) {
            Err(e) => Err(e),
            Ok(((part, s), q)) => if fwd(ts, p, q) {
                g_dotparts(ts, q, acc.push(part), s)
            } else {
                gap()
            },
        }
    } else {
        Ok(((acc, end), p))
    }
}

/// `a.b.c:m`: the parts, the method, and the span.
pub open spec fn g_funcname(ts: Toks, p: int) -> G<(Seq<Seq<char>>, Option<Seq<char>>, Span)> {
    match g_ident(ts, p) {
        Err(e) => Err(e),
        Ok(((first, start), q)) => match g_dotparts(ts, q, seq![first], start) {
            Err(e) => Err(e),
            Ok(((parts, end), q2)) => if kat(ts, q2) == TokenKind::Colon {
                match g_ident(ts, q2 + 1) {
                    Err(e) => Err(e),
                    Ok(((m, s), q3)) => Ok(((parts, Some(m), spec_merge(start, s)), q3)),
                }
            } else {
                Ok(((parts, None, spec_merge(start, end)), q2))
            },
        },
    }
}

pub open spec fn g_params_loop(ts: Toks, p: int, acc: Seq<(Seq<char>, Span)>) -> G<(Seq<(Seq<char>, Span)>, bool)>
    decreases ts.len() - p,
{
    if kat(ts, p) == TokenKind::DotDotDot {
        Ok(((acc, true), p + 1))
    } else {
        match g_ident(ts, p) {
            Err(e) => Err(e),
            Ok(((n, s), q)) => if kat(ts, q) == TokenKind::Comma {
                if fwd(ts, p, q + 1) {
                    g_params_loop(ts, q + 1, acc.push((n, s)))
                } else {
                    gap()
                }
            } else {
                Ok(((acc.push((n, s)), false), q))
            },
        }
    }
}

/// A parameter list up to, not including, its `)`.
pub open spec fn g_params(ts: Toks, p: int) -> G<(Seq<(Seq<char>, Span)>, bool)> {
    if kat(ts, p) == TokenKind::RParen {
        Ok(((seq![], false), p))
    } else {
        g_params_loop(ts, p, seq![])
    }
}

pub open spec fn g_forvars(ts: Toks, p: int, acc: Seq<Seq<char>>) -> G<Seq<Seq<char>>>
    decreases ts.len() - p,
{
    if kat(ts, p) == TokenKind::Comma {
        match g_ident(ts, p + 1) {
            Err(e) => Err(e),
            Ok(((n, _), q)) => if fwd(ts, p, q) {
                g_forvars(ts, q, acc.push(n))
            } else {
                gap()
            },
        }
    } else {
        Ok((acc, p))
    }
}

/// `Name =` starts a table field.
pub open spec fn name_assign(ts: Toks, p: int) -> bool {
    0 <= p && p + 1 < ts.len() && kind_v(ts[p].0) == TokenKind::Ident && kind_v(ts[p + 1].0)
        == TokenKind::Assign
}

/// The prefix operator a token stands for.
pub open spec fn unop_of(k: TokenKind) -> Option<UnaryOp> {
    match k {
        TokenKind::Minus => Some(UnaryOp::Neg),
        TokenKind::Not => Some(UnaryOp::Not),
        TokenKind::Hash => Some(UnaryOp::Len),
        TokenKind::Tilde => Some(UnaryOp::BitwiseNot),
        _ => None,
    }
}

/// A block: statements up to a closing keyword or the end of input. Nesting
/// deeper than `MAX_NESTING` is refused.
pub open spec fn g_block(ts: Toks, p: int, d: int) -> G<BlockV>
    decreases ts.len() - p, 32int,
{
    if d >= MAX_NESTING {
        Err(PErr::Nesting { span: sat(ts, p) })
    } else {
        match g_stmts(ts, p, d + 1, seq![]) {
            Err(e) => Err(e),
            Ok((stmts, q)) => Ok((BlockV { stmts, span: spec_merge(sat(ts, p), sat(ts, q)) }, q)),
        }
    }
}

/// The statements of a block after `acc`; a `return` ends the block.
pub open spec fn g_stmts(ts: Toks, p: int, d: int, acc: Seq<StmtV>) -> G<Seq<StmtV>>
    decreases ts.len() - p, 31int,
{
    if !stay(ts, 0, p) {
        gap()
    } else if is_end(kat(ts, p)) {
        Ok((acc, p))
    } else {
        let p1 = skip_semis(ts, p);
        if !stay(ts, p, p1) {
            gap()
        } else if is_end(kat(ts, p1)) {
            Ok((acc, p1))
        } else if kat(ts, p1) == TokenKind::Return {
            match g_return(ts, p1, d) {
                Err(e) => Err(e),
                Ok((r, q)) => Ok(
                    (acc.push(r), if kat(ts, q) == TokenKind::Semicolon { q + 1 } else { q }),
                ),
            }
        } else {
            match g_stmt(ts, p1, d) {
                Err(e) => Err(e),
                Ok((s, q)) => if fwd(ts, p1, q) {
                    g_stmts(ts, q, d, acc.push(s))
                } else {
                    gap()
                },
            }
        }
    }
}

/// One statement other than `return`.
pub open spec fn g_stmt(ts: Toks, p: int, d: int) -> G<StmtV>
    decreases ts.len() - p, 29int,
{
    if !stay(ts, 0, p) {
        gap()
    } else {
        let s = sat(ts, p);
        match kat(ts, p) {
            TokenKind::Local => if kat(ts, p + 1) == TokenKind::Function {
                g_local_function(ts, p + 2, d, s)
            } else {
                g_local_names(ts, p + 1, d, s)
            },
            TokenKind::Function => g_named_function(ts, p + 1, d),
            TokenKind::Do => match g_block(ts, p + 1, d) {
                Err(e) => Err(e),
                Ok((body, q)) => match g_expect(ts, q, TokenKind::End) {
                    Err(e) => Err(e),
                    Ok((e, q2)) => Ok((StmtV::Do { body, span: spec_merge(s, e) }, q2)),
                },
            },
            TokenKind::While => match g_expr(ts, p + 1, d, 0) {
                Err(e) => Err(e),
                Ok((condition, q)) => match g_expect(ts, q, TokenKind::Do) {
                    Err(e) => Err(e),
                    Ok((_, q2)) => if fwd(ts, p, q2) {
                        match g_block(ts, q2, d) {
                            Err(e) => Err(e),
                            Ok((body, q3)) => match g_expect(ts, q3, TokenKind::End) {
                                Err(e) => Err(e),
                                Ok((e, q4)) => Ok(
                                    (StmtV::While { condition, body, span: spec_merge(s, e) }, q4),
                                ),
                            },
                        }
                    } else {
                        gap()
                    },
                },
            },
            TokenKind::Repeat => match g_block(ts, p + 1, d) {
                Err(e) => Err(e),
                Ok((body, q)) => match g_expect(ts, q, TokenKind::Until) {
                    Err(e) => Err(e),
                    Ok((_, q2)) => if fwd(ts, p, q2) {
                        match g_expr(ts, q2, d, 0) {
                            Err(e) => Err(e),
                            Ok((condition, q3)) => Ok(
                                (
                                    StmtV::Repeat {
                                        body,
                                        condition,
                                        span: spec_merge(s, expr_span(condition)),
                                    },
                                    q3,
                                ),
                            ),
                        }
                    } else {
                        gap()
                    },
                },
            },
            TokenKind::If => g_if(ts, p, d),
            TokenKind::For => g_for(ts, p + 1, d),
            TokenKind::Goto => match g_ident(ts, p + 1) {
                Err(e) => Err(e),
                Ok(((label, e), q)) => Ok((StmtV::Goto { label, span: spec_merge(s, e) }, q)),
            },
            TokenKind::DblColon => match g_ident(ts, p + 1) {
                Err(e) => Err(e),
                Ok(((name, _), q)) => match g_expect(ts, q, TokenKind::DblColon) {
                    Err(e) => Err(e),
                    Ok((e, q2)) => Ok((StmtV::Label { name, span: spec_merge(s, e) }, q2)),
                },
            },
            TokenKind::Break => Ok((StmtV::Break { span: s }, p + 1)),
            _ => g_assign_or_call(ts, p, d),
        }
    }
}

/// `local a <attr>, b = values`, after `local`; `start` is the span of `local`.
pub open spec fn g_local_names(ts: Toks, p: int, d: int, start: Span) -> G<StmtV>
    decreases ts.len() - p, 27int,
{
    match g_ident(ts, p) {
        Err(e) => Err(e),
        Ok(((name, span), q)) => match g_attr(ts, q) {
            Err(e) => Err(e),
            Ok((attribute, q2)) => if fwd(ts, p, q2) {
                match g_names_loop(
                    ts,
                    q2,
                    d,
                    seq![LocalNameV { name, attribute, span }],
                ) {
                    Err(e) => Err(e),
                    Ok((names, q3)) => if kat(ts, q3) == TokenKind::Assign {
                        if !fwd(ts, p, q3 + 1) {
                            gap()
                        } else {
                        match g_exprlist(ts, q3 + 1, d) {
                            Err(e) => Err(e),
                            Ok((values, q4)) => Ok(
                                (
                                    StmtV::LocalDecl {
                                        names,
                                        values,
                                        span: spec_merge(start, end_of(values, start)),
                                    },
                                    q4,
                                ),
                            ),
                        }
                        }
                    } else {
                        Ok((StmtV::LocalDecl { names, values: seq![], span: spec_merge(start, start) }, q3))
                    },
                }
            } else {
                gap()
            },
        },
    }
}

/// The span of the last value, or `start` when there is none.
pub open spec fn end_of(values: Seq<ExprV>, start: Span) -> Span {
    if values.len() > 0 {
        expr_span(values.last())
    } else {
        start
    }
}

pub open spec fn g_names_loop(ts: Toks, p: int, d: int, acc: Seq<LocalNameV>) -> G<Seq<LocalNameV>>
    decreases ts.len() - p, 26int,
{
    if kat(ts, p) == TokenKind::Comma {
        match g_ident(ts, p + 1) {
            Err(e) => Err(e),
            Ok(((name, span), q)) => match g_attr(ts, q) {
                Err(e) => Err(e),
                Ok((attribute, q2)) => if fwd(ts, p, q2) {
                    g_names_loop(ts, q2, d, acc.push(LocalNameV { name, attribute, span }))
                } else {
                    gap()
                },
            },
        }
    } else {
        Ok((acc, p))
    }
}

/// `local function f(...) ... end`, after `function`.
pub open spec fn g_local_function(ts: Toks, p: int, d: int, start: Span) -> G<StmtV>
    decreases ts.len() - p, 27int,
{
    match g_ident(ts, p) {
        Err(e) => Err(e),
        Ok(((name, _), q)) => if fwd(ts, p, q) {
            match g_funcbody(ts, q, d) {
                Err(e) => Err(e),
                Ok((func, q2)) => Ok(
                    (StmtV::LocalFunctionDecl { name, func, span: spec_merge(start, func.span) }, q2),
                ),
            }
        } else {
            gap()
        },
    }
}

/// `function a.b:c(...) ... end`, after `function`.
pub open spec fn g_named_function(ts: Toks, p: int, d: int) -> G<StmtV>
    decreases ts.len() - p, 27int,
{
    match g_funcname(ts, p) {
        Err(e) => Err(e),
        Ok(((parts, method, name_span), q)) => if fwd(ts, p, q) {
            match g_funcbody(ts, q, d) {
                Err(e) => Err(e),
                Ok((func, q2)) => Ok(
                    (
                        StmtV::FunctionDecl {
                            parts,
                            method,
                            name_span,
                            func,
                            span: spec_merge(name_span, func.span),
                        },
                        q2,
                    ),
                ),
            }
        } else {
            gap()
        },
    }
}

/// `(params) body end`.
pub open spec fn g_funcbody(ts: Toks, p: int, d: int) -> G<FuncV>
    decreases ts.len() - p, 26int,
{
    match g_expect(ts, p, TokenKind::LParen) {
        Err(e) => Err(e),
        Ok((s, q)) => match g_params(ts, q) {
            Err(e) => Err(e),
            Ok(((params, is_vararg), q2)) => match g_expect(ts, q2, TokenKind::RParen) {
                Err(e) => Err(e),
                Ok((_, q3)) => if fwd(ts, p, q3) {
                    match g_block(ts, q3, d) {
                        Err(e) => Err(e),
                        Ok((body, q4)) => match g_expect(ts, q4, TokenKind::End) {
                            Err(e) => Err(e),
                            Ok((e, q5)) => Ok(
                                (FuncV { params, is_vararg, body, span: spec_merge(s, e) }, q5),
                            ),
                        },
                    }
                } else {
                    gap()
                },
            },
        },
    }
}

/// `if c then b elseif ... else ... end`.
pub open spec fn g_if(ts: Toks, p: int, d: int) -> G<StmtV>
    decreases ts.len() - p, 28int,
{
    let s = sat(ts, p);
    match g_expect(ts, p, TokenKind::If) {
        Err(e) => Err(e),
        Ok((_, q)) => if fwd(ts, p, q) {
            match g_expr(ts, q, d, 0) {
                Err(e) => Err(e),
                Ok((condition, q1)) => match g_expect(ts, q1, TokenKind::Then) {
                    Err(e) => Err(e),
                    Ok((_, q2)) => if fwd(ts, p, q2) {
                        match g_block(ts, q2, d) {
                            Err(e) => Err(e),
                            Ok((then_block, q3)) => if stay(ts, p, q3) {
                                match g_elseifs(ts, q3, d, seq![]) {
                                    Err(e) => Err(e),
                                    Ok(((elseifs, else_block), q4)) => match g_expect(
                                        ts,
                                        q4,
                                        TokenKind::End,
                                    ) {
                                        Err(e) => Err(e),
                                        Ok((e, q5)) => Ok(
                                            (
                                                StmtV::If {
                                                    condition,
                                                    then_block,
                                                    elseifs,
                                                    else_block,
                                                    span: spec_merge(s, e),
                                                },
                                                q5,
                                            ),
                                        ),
                                    },
                                }
                            } else {
                                gap()
                            },
                        }
                    } else {
                        gap()
                    },
                },
            }
        } else {
            gap()
        },
    }
}

/// The `elseif` branches after `acc`, then an optional `else` block.
pub open spec fn g_elseifs(ts: Toks, p: int, d: int, acc: Seq<ElseIfV>) -> G<(Seq<ElseIfV>, Option<BlockV>)>
    decreases ts.len() - p, 27int,
{
    if kat(ts, p) == TokenKind::Elseif {
        let es = sat(ts, p);
        match g_expr(ts, p + 1, d, 0) {
            Err(e) => Err(e),
            Ok((condition, q)) => match g_expect(ts, q, TokenKind::Then) {
                Err(e) => Err(e),
                Ok((_, q2)) => if fwd(ts, p, q2) {
                    match g_block(ts, q2, d) {
                        Err(e) => Err(e),
                        Ok((body, q3)) => if fwd(ts, p, q3) {
                            g_elseifs(
                                ts,
                                q3,
                                d,
                                acc.push(ElseIfV { condition, body, span: spec_merge(es, body.span) }),
                            )
                        } else {
                            gap()
                        },
                    }
                } else {
                    gap()
                },
            },
        }
    } else if kat(ts, p) == TokenKind::Else {
        match g_block(ts, p + 1, d) {
            Err(e) => Err(e),
            Ok((b, q)) => Ok(((acc, Some(b)), q)),
        }
    } else {
        Ok(((acc, None), p))
    }
}

/// A numeric or generic `for`, after `for`.
pub open spec fn g_for(ts: Toks, p: int, d: int) -> G<StmtV>
    decreases ts.len() - p, 27int,
{
    match g_ident(ts, p) {
        Err(e) => Err(e),
        Ok(((first, start), q)) => if kat(ts, q) == TokenKind::Assign {
            match g_expr(ts, q + 1, d, 0) {
                Err(e) => Err(e),
                Ok((init, q1)) => match g_expect(ts, q1, TokenKind::Comma) {
                    Err(e) => Err(e),
                    Ok((_, q2)) => if fwd(ts, p, q2) {
                        match g_expr(ts, q2, d, 0) {
                            Err(e) => Err(e),
                            Ok((limit, q3)) => {
                                let step_r: G<Option<ExprV>> = if kat(ts, q3) == TokenKind::Comma {
                                    if fwd(ts, p, q3 + 1) {
                                        match g_expr(ts, q3 + 1, d, 0) {
                                            Err(e) => Err(e),
                                            Ok((st, q4)) => Ok((Some(st), q4)),
                                        }
                                    } else {
                                        gap()
                                    }
                                } else {
                                    Ok((None, q3))
                                };
                                match step_r {
                                    Err(e) => Err(e),
                                    Ok((step, q4)) => match g_expect(ts, q4, TokenKind::Do) {
                                        Err(e) => Err(e),
                                        Ok((_, q5)) => if fwd(ts, p, q5) {
                                            match g_block(ts, q5, d) {
                                                Err(e) => Err(e),
                                                Ok((body, q6)) => match g_expect(
                                                    ts,
                                                    q6,
                                                    TokenKind::End,
                                                ) {
                                                    Err(e) => Err(e),
                                                    Ok((e, q7)) => Ok(
                                                        (
                                                            StmtV::NumericFor {
                                                                var: first,
                                                                start: init,
                                                                limit,
                                                                step,
                                                                body,
                                                                span: spec_merge(start, e),
                                                            },
                                                            q7,
                                                        ),
                                                    ),
                                                },
                                            }
                                        } else {
                                            gap()
                                        },
                                    },
                                }
                            },
                        }
                    } else {
                        gap()
                    },
                },
            }
        } else {
            match g_forvars(ts, q, seq![first]) {
                Err(e) => Err(e),
                Ok((vars, q1)) => match g_expect(ts, q1, TokenKind::In) {
                    Err(e) => Err(e),
                    Ok((_, q2)) => if fwd(ts, p, q2) {
                        match g_exprlist(ts, q2, d) {
                            Err(e) => Err(e),
                            Ok((iterators, q3)) => match g_expect(ts, q3, TokenKind::Do) {
                                Err(e) => Err(e),
                                Ok((_, q4)) => if fwd(ts, p, q4) {
                                    match g_block(ts, q4, d) {
                                        Err(e) => Err(e),
                                        Ok((body, q5)) => match g_expect(ts, q5, TokenKind::End) {
                                            Err(e) => Err(e),
                                            Ok((e, q6)) => Ok(
                                                (
                                                    StmtV::GenericFor {
                                                        vars,
                                                        iterators,
                                                        body,
                                                        span: spec_merge(start, e),
                                                    },
                                                    q6,
                                                ),
                                            ),
                                        },
                                    }
                                } else {
                                    gap()
                                },
                            },
                        }
                    } else {
                        gap()
                    },
                },
            }
        },
    }
}

/// `return values`.
pub open spec fn g_return(ts: Toks, p: int, d: int) -> G<StmtV>
    decreases ts.len() - p, 28int,
{
    let s = sat(ts, p);
    match g_expect(ts, p, TokenKind::Return) {
        Err(e) => Err(e),
        Ok((_, q)) => if is_end(kat(ts, q)) || kat(ts, q) == TokenKind::Semicolon {
            Ok((StmtV::Return { values: seq![], span: spec_merge(s, s) }, q))
        } else if fwd(ts, p, q) {
            match g_exprlist(ts, q, d) {
                Err(e) => Err(e),
                Ok((values, q2)) => Ok(
                    (StmtV::Return { values, span: spec_merge(s, end_of(values, s)) }, q2),
                ),
            }
        } else {
            gap()
        },
    }
}

/// An assignment or a call statement.
pub open spec fn g_assign_or_call(ts: Toks, p: int, d: int) -> G<StmtV>
    decreases ts.len() - p, 28int,
{
    match g_suffixed(ts, p, d) {
        Err(e) => Err(e),
        Ok((first, q)) => if kat(ts, q) == TokenKind::Assign || kat(ts, q) == TokenKind::Comma {
            if fwd(ts, p, q) {
                match g_targets(ts, q, d, seq![first]) {
                    Err(e) => Err(e),
                    Ok((targets, q2)) => match g_expect(ts, q2, TokenKind::Assign) {
                        Err(e) => Err(e),
                        Ok((_, q3)) => if fwd(ts, p, q3) {
                            match g_exprlist(ts, q3, d) {
                                Err(e) => Err(e),
                                Ok((values, q4)) => Ok(
                                    (
                                        StmtV::Assign {
                                            targets,
                                            values,
                                            span: spec_merge(
                                                expr_span(first),
                                                end_of(values, expr_span(first)),
                                            ),
                                        },
                                        q4,
                                    ),
                                ),
                            }
                        } else {
                            gap()
                        },
                    },
                }
            } else {
                gap()
            }
        } else {
            match first {
                ExprV::Call { .. } => Ok((StmtV::ExprStmt { expr: first }, q)),
                ExprV::MethodCall { .. } => Ok((StmtV::ExprStmt { expr: first }, q)),
                _ => Err(PErr::Unexpected { found: tat(ts, q), span: sat(ts, q) }),
            }
        },
    }
}

pub open spec fn g_targets(ts: Toks, p: int, d: int, acc: Seq<ExprV>) -> G<Seq<ExprV>>
    decreases ts.len() - p, 27int,
{
    if kat(ts, p) == TokenKind::Comma {
        match g_suffixed(ts, p + 1, d) {
            Err(e) => Err(e),
            Ok((t, q)) => if fwd(ts, p, q) {
                g_targets(ts, q, d, acc.push(t))
            } else {
                gap()
            },
        }
    } else {
        Ok((acc, p))
    }
}

/// Expressions separated by commas.
pub open spec fn g_exprlist(ts: Toks, p: int, d: int) -> G<Seq<ExprV>>
    decreases ts.len() - p, 22int,
{
    match g_expr(ts, p, d, 0) {
        Err(e) => Err(e),
        Ok((e, q)) => if fwd(ts, p, q) {
            g_exprs_loop(ts, q, d, seq![e])
        } else {
            gap()
        },
    }
}

pub open spec fn g_exprs_loop(ts: Toks, p: int, d: int, acc: Seq<ExprV>) -> G<Seq<ExprV>>
    decreases ts.len() - p, 22int,
{
    if kat(ts, p) == TokenKind::Comma {
        match g_expr(ts, p + 1, d, 0) {
            Err(e) => Err(e),
            Ok((e, q)) => if fwd(ts, p, q) {
                g_exprs_loop(ts, q, d, acc.push(e))
            } else {
                gap()
            },
        }
    } else {
        Ok((acc, p))
    }
}

/// An expression whose binary operators bind at least as tightly as
/// `min_prec`, by precedence climbing. Nesting deeper than `MAX_NESTING` is
/// refused.
pub open spec fn g_expr(ts: Toks, p: int, d: int, min_prec: u8) -> G<ExprV>
    decreases ts.len() - p, 21int,
{
    if d >= MAX_NESTING {
        Err(PErr::Nesting { span: sat(ts, p) })
    } else {
        match g_unary(ts, p, d + 1) {
            Err(e) => Err(e),
            Ok((lhs, q)) => if fwd(ts, p, q) {
                g_binops(ts, q, d + 1, min_prec, lhs)
            } else {
                gap()
            },
        }
    }
}

/// Binary operators after `lhs` while they bind at least as tightly as `min_prec`.
pub open spec fn g_binops(ts: Toks, p: int, d: int, min_prec: u8, lhs: ExprV) -> G<ExprV>
    decreases ts.len() - p, 21int,
{
    match binop_of(kat(ts, p)) {
        None => Ok((lhs, p)),
        Some(op) => if spec_binary_prec(op).0 < min_prec {
            Ok((lhs, p))
        } else {
            match g_expr(ts, p + 1, d, spec_binary_prec(op).1) {
                Err(e) => Err(e),
                Ok((rhs, q)) => if fwd(ts, p, q) {
                    g_binops(
                        ts,
                        q,
                        d,
                        min_prec,
                        ExprV::BinOp {
                            lhs: Box::new(lhs),
                            op,
                            rhs: Box::new(rhs),
                            span: spec_merge(expr_span(lhs), expr_span(rhs)),
                        },
                    )
                } else {
                    gap()
                },
            }
        },
    }
}

/// A prefix operator applied to an operand, or a suffixed expression.
pub open spec fn g_unary(ts: Toks, p: int, d: int) -> G<ExprV>
    decreases ts.len() - p, 19int,
{
    let s = sat(ts, p);
    match unop_of(kat(ts, p)) {
        Some(op) => match g_expr(ts, p + 1, d, UNARY_PREC) {
            Err(e) => Err(e),
            Ok((operand, q)) => Ok(
                (
                    ExprV::UnOp {
                        op,
                        operand: Box::new(operand),
                        span: spec_merge(s, expr_span(operand)),
                    },
                    q,
                ),
            ),
        },
        None => g_suffixed(ts, p, d),
    }
}

/// A primary expression followed by field accesses, indexing and calls.
pub open spec fn g_suffixed(ts: Toks, p: int, d: int) -> G<ExprV>
    decreases ts.len() - p, 18int,
{
    match g_primary(ts, p, d) {
        Err(e) => Err(e),
        Ok((base, q)) => if fwd(ts, p, q) {
            g_suffixes(ts, q, d, base)
        } else {
            gap()
        },
    }
}

pub open spec fn g_suffixes(ts: Toks, p: int, d: int, base: ExprV) -> G<ExprV>
    decreases ts.len() - p, 18int,
{
    match kat(ts, p) {
        TokenKind::Dot => match g_ident(ts, p + 1) {
            Err(e) => Err(e),
            Ok(((field, s), q)) => if fwd(ts, p, q) {
                g_suffixes(
                    ts,
                    q,
                    d,
                    ExprV::Index { base: Box::new(base), field, span: spec_merge(expr_span(base), s) },
                )
            } else {
                gap()
            },
        },
        TokenKind::LBracket => {
            let s = sat(ts, p);
            match g_expr(ts, p + 1, d, 0) {
                Err(e) => Err(e),
                Ok((key, q)) => match g_expect(ts, q, TokenKind::RBracket) {
                    Err(e) => Err(e),
                    Ok((e, q2)) => if fwd(ts, p, q2) {
                        g_suffixes(
                            ts,
                            q2,
                            d,
                            ExprV::IndexExpr {
                                base: Box::new(base),
                                key: Box::new(key),
                                span: spec_merge(s, e),
                            },
                        )
                    } else {
                        gap()
                    },
                },
            }
        },
        TokenKind::Colon => match g_ident(ts, p + 1) {
            Err(e) => Err(e),
            Ok(((method, _), q)) => if fwd(ts, p, q) {
                match g_callargs(ts, q, d) {
                    Err(e) => Err(e),
                    Ok(((args, e), q2)) => if fwd(ts, p, q2) {
                        g_suffixes(
                            ts,
                            q2,
                            d,
                            ExprV::MethodCall {
                                obj: Box::new(base),
                                method,
                                args,
                                span: spec_merge(expr_span(base), e),
                            },
                        )
                    } else {
                        gap()
                    },
                }
            } else {
                gap()
            },
        },
        TokenKind::LParen | TokenKind::StringLit | TokenKind::LBrace => match g_callargs(ts, p, d) {
            Err(e) => Err(e),
            Ok(((args, e), q)) => if fwd(ts, p, q) {
                g_suffixes(
                    ts,
                    q,
                    d,
                    ExprV::Call { func: Box::new(base), args, span: spec_merge(expr_span(base), e) },
                )
            } else {
                gap()
            },
        },
        _ => Ok((base, p)),
    }
}

/// A literal, a name, a parenthesised expression, a table or a function.
pub open spec fn g_primary(ts: Toks, p: int, d: int) -> G<ExprV>
    decreases ts.len() - p, 16int,
{
    let s = sat(ts, p);
    if 0 <= p < ts.len() && !(ts[p].0 is Sym) {
        match ts[p].0 {
            TokenV::Int(n) => Ok((ExprV::Integer { value: n, span: s }, p + 1)),
            TokenV::Hex(n) => Ok((ExprV::Integer { value: n, span: s }, p + 1)),
            TokenV::Float(t) => Ok((ExprV::Float { text: t, span: s }, p + 1)),
            TokenV::Str(t) => Ok((ExprV::Str { value: t, span: s }, p + 1)),
            TokenV::Name(n) => Ok((ExprV::Name { name: n, span: s }, p + 1)),
            TokenV::Sym(_) => gap(),
        }
    } else {
        match kat(ts, p) {
            TokenKind::Nil => Ok((ExprV::Nil { span: s }, p + 1)),
            TokenKind::True => Ok((ExprV::True { span: s }, p + 1)),
            TokenKind::False => Ok((ExprV::False { span: s }, p + 1)),
            TokenKind::DotDotDot => Ok((ExprV::Vararg { span: s }, p + 1)),
            TokenKind::LParen => match g_expr(ts, p + 1, d, 0) {
                Err(e) => Err(e),
                Ok((inner, q)) => match g_expect(ts, q, TokenKind::RParen) {
                    Err(e) => Err(e),
                    Ok((e, q2)) => Ok((reframe(inner, spec_merge(s, e)), q2)),
                },
            },
            TokenKind::LBrace => g_table(ts, p, d),
            TokenKind::Function => match g_funcbody(ts, p + 1, d) {
                Err(e) => Err(e),
                Ok((func, q)) => Ok((ExprV::Function { func }, q)),
            },
            _ => Err(PErr::Unexpected { found: tat(ts, p), span: s }),
        }
    }
}

/// The arguments of a call and the span they cover.
pub open spec fn g_callargs(ts: Toks, p: int, d: int) -> G<(Seq<ExprV>, Span)>
    decreases ts.len() - p, 15int,
{
    if 0 <= p < ts.len() && ts[p].0 is Str {
        let s = ts[p].1;
        Ok(((seq![ExprV::Str { value: ts[p].0->Str_0, span: s }], s), p + 1))
    } else {
        match kat(ts, p) {
            TokenKind::LParen => {
                let s = sat(ts, p);
                let args_r: G<Seq<ExprV>> = if kat(ts, p + 1) == TokenKind::RParen {
                    Ok((seq![], p + 1))
                } else {
                    g_exprlist(ts, p + 1, d)
                };
                match args_r {
                    Err(e) => Err(e),
                    Ok((args, q)) => match g_expect(ts, q, TokenKind::RParen) {
                        Err(e) => Err(e),
                        Ok((e, q2)) => Ok(((args, spec_merge(s, e)), q2)),
                    },
                }
            },
            TokenKind::LBrace => match g_table(ts, p, d) {
                Err(e) => Err(e),
                Ok((t, q)) => Ok(((seq![t], expr_span(t)), q)),
            },
            _ => expected_err(ts, p, "call arguments"@),
        }
    }
}

/// A table constructor `{ fields }`.
pub open spec fn g_table(ts: Toks, p: int, d: int) -> G<ExprV>
    decreases ts.len() - p, 14int,
{
    match g_expect(ts, p, TokenKind::LBrace) {
        Err(e) => Err(e),
        Ok((s, q)) => if fwd(ts, p, q) {
            match g_fields(ts, q, d, seq![]) {
                Err(e) => Err(e),
                Ok((fields, q2)) => match g_expect(ts, q2, TokenKind::RBrace) {
                    Err(e) => Err(e),
                    Ok((e, q3)) => Ok((ExprV::Table { fields, span: spec_merge(s, e) }, q3)),
                },
            }
        } else {
            gap()
        },
    }
}

/// The fields after `acc`, each followed by `,` or `;` except the last.
pub open spec fn g_fields(ts: Toks, p: int, d: int, acc: Seq<FieldV>) -> G<Seq<FieldV>>
    decreases ts.len() - p, 26int,
{
    if kat(ts, p) == TokenKind::RBrace {
        Ok((acc, p))
    } else {
        match g_field(ts, p, d) {
            Err(e) => Err(e),
            Ok((f, q)) => if kat(ts, q) == TokenKind::Comma || kat(ts, q) == TokenKind::Semicolon {
                if fwd(ts, p, q + 1) {
                    g_fields(ts, q + 1, d, acc.push(f))
                } else {
                    gap()
                }
            } else {
                Ok((acc.push(f), q))
            },
        }
    }
}

/// `[k] = v`, `name = v` or `v`.
pub open spec fn g_field(ts: Toks, p: int, d: int) -> G<FieldV>
    decreases ts.len() - p, 25int,
{
    let s = sat(ts, p);
    if kat(ts, p) == TokenKind::LBracket {
        match g_expr(ts, p + 1, d, 0) {
            Err(e) => Err(e),
            Ok((key, q)) => match g_expect(ts, q, TokenKind::RBracket) {
                Err(e) => Err(e),
                Ok((_, q2)) => match g_expect(ts, q2, TokenKind::Assign) {
                    Err(e) => Err(e),
                    Ok((_, q3)) => if fwd(ts, p, q3) {
                        match g_expr(ts, q3, d, 0) {
                            Err(e) => Err(e),
                            Ok((value, q4)) => Ok(
                                (FieldV::ExprKey { key, value, span: spec_merge(s, expr_span(value)) }, q4),
                            ),
                        }
                    } else {
                        gap()
                    },
                },
            },
        }
    } else if name_assign(ts, p) {
        match g_expr(ts, p + 2, d, 0) {
            Err(e) => Err(e),
            Ok((value, q)) => Ok(
                (
                    FieldV::NameKey {
                        key: ts[p].0->Name_0,
                        value,
                        span: spec_merge(s, expr_span(value)),
                    },
                    q,
                ),
            ),
        }
    } else {
        match g_expr(ts, p, d, 0) {
            Err(e) => Err(e),
            Ok((value, q)) => Ok((FieldV::Positional { value }, q)),
        }
    }
}

/// The tree of a whole token stream: a block that reaches the end of input.
pub open spec fn parse_spec(ts: Toks) -> Result<BlockV, PErr> {
    match g_block(ts, 0, 0) {
        Err(e) => Err(e),
        Ok((b, q)) => if kat(ts, q) == TokenKind::Eof {
            Ok(b)
        } else {
            Err(PErr::Unexpected { found: tat(ts, q), span: sat(ts, q) })
        },
    }
}

/// The tree of a source text, or why there is none.
pub open spec fn parsed(source: Seq<char>) -> Result<BlockV, PErr> {
    match tokens_of(source) {
        Err(l) => Err(PErr::Lex(l)),
        Ok(ts) => parse_spec(ts),
    }
}

/// A numeric `for` keeps every expression of its header: when the header
/// after `for` reads a name, `=`, and three expressions separated by commas,
/// the statement parsed there (if the rest of it parses) starts at the
/// first expression, runs to the second, and steps by the third.
pub proof fn lemma_numeric_for_keeps_header(
    ts: Toks,
    p: int,
    d: int,
    e1: ExprV,
    q1: int,
    e2: ExprV,
    q2: int,
    e3: ExprV,
    q3: int,
)
    requires
        0 <= p < ts.len(),
        ts[p].0 is Name,
        kat(ts, p + 1) == TokenKind::Assign,
        g_expr(ts, p + 2, d, 0) == Ok::<(ExprV, int), PErr>((e1, q1)),
        kat(ts, q1) == TokenKind::Comma,
        g_expr(ts, q1 + 1, d, 0) == Ok::<(ExprV, int), PErr>((e2, q2)),
        kat(ts, q2) == TokenKind::Comma,
        g_expr(ts, q2 + 1, d, 0) == Ok::<(ExprV, int), PErr>((e3, q3)),
        p < q1 < q2,
    ensures
        g_for(ts, p, d) is Err || (g_for(ts, p, d) matches Ok((StmtV::NumericFor { start, limit, step, .. }, _))
            && start == e1 && limit == e2 && step == Some(e3)),
{
    assert(g_ident(ts, p) == Ok::<((Seq<char>, Span), int), PErr>(((ts[p].0->Name_0, ts[p].1), p + 1)));
    assert(g_expect(ts, q1, TokenKind::Comma) == Ok::<(Span, int), PErr>((sat(ts, q1), q1 + 1)));
    assert(q1 < ts.len());
    assert(q2 < ts.len());
    assert(fwd(ts, p, q1 + 1));
    assert(fwd(ts, p, q2 + 1));
}

/// A numeric `for` whose header has two expressions has no step.
pub proof fn lemma_numeric_for_without_step(
    ts: Toks,
    p: int,
    d: int,
    e1: ExprV,
    q1: int,
    e2: ExprV,
    q2: int,
)
    requires
        0 <= p < ts.len(),
        ts[p].0 is Name,
        kat(ts, p + 1) == TokenKind::Assign,
        g_expr(ts, p + 2, d, 0) == Ok::<(ExprV, int), PErr>((e1, q1)),
        kat(ts, q1) == TokenKind::Comma,
        g_expr(ts, q1 + 1, d, 0) == Ok::<(ExprV, int), PErr>((e2, q2)),
        kat(ts, q2) == TokenKind::Do,
        p < q1,
    ensures
        g_for(ts, p, d) is Err || (g_for(ts, p, d) matches Ok((StmtV::NumericFor { start, limit, step, .. }, _))
            && start == e1 && limit == e2 && step is None),
{
    assert(g_ident(ts, p) == Ok::<((Seq<char>, Span), int), PErr>(((ts[p].0->Name_0, ts[p].1), p + 1)));
    assert(q1 < ts.len());
    assert(fwd(ts, p, q1 + 1));
}

/// A `while` loop keeps its condition and its body: `while` followed by a
/// condition, `do`, a block and `end` is that loop over that block.
pub proof fn lemma_while_keeps_parts(ts: Toks, p: int, d: int, c: ExprV, q: int, b: BlockV, q3: int)
    requires
        0 <= p < ts.len(),
        kat(ts, p) == TokenKind::While,
        g_expr(ts, p + 1, d, 0) == Ok::<(ExprV, int), PErr>((c, q)),
        kat(ts, q) == TokenKind::Do,
        p < q,
        g_block(ts, q + 1, d) == Ok::<(BlockV, int), PErr>((b, q3)),
        kat(ts, q3) == TokenKind::End,
    ensures
        g_stmt(ts, p, d) == Ok::<(StmtV, int), PErr>(
            (StmtV::While { condition: c, body: b, span: spec_merge(sat(ts, p), sat(ts, q3)) }, q3 + 1),
        ),
{
    assert(q < ts.len());
    assert(fwd(ts, p, q + 1));
}

/// A `repeat` loop keeps its body and its condition: `repeat` followed by a
/// block, `until` and a condition is that loop.
pub proof fn lemma_repeat_keeps_parts(ts: Toks, p: int, d: int, b: BlockV, q: int, c: ExprV, q3: int)
    requires
        0 <= p < ts.len(),
        kat(ts, p) == TokenKind::Repeat,
        g_block(ts, p + 1, d) == Ok::<(BlockV, int), PErr>((b, q)),
        kat(ts, q) == TokenKind::Until,
        p < q,
        g_expr(ts, q + 1, d, 0) == Ok::<(ExprV, int), PErr>((c, q3)),
    ensures
        g_stmt(ts, p, d) == Ok::<(StmtV, int), PErr>(
            (StmtV::Repeat { body: b, condition: c, span: spec_merge(sat(ts, p), expr_span(c)) }, q3),
        ),
{
    assert(q < ts.len());
    assert(fwd(ts, p, q + 1));
}

/// A `do` block keeps its body.
pub proof fn lemma_do_keeps_body(ts: Toks, p: int, d: int, b: BlockV, q: int)
    requires
        0 <= p < ts.len(),
        kat(ts, p) == TokenKind::Do,
        g_block(ts, p + 1, d) == Ok::<(BlockV, int), PErr>((b, q)),
        kat(ts, q) == TokenKind::End,
    ensures
        g_stmt(ts, p, d) == Ok::<(StmtV, int), PErr>(
            (StmtV::Do { body: b, span: spec_merge(sat(ts, p), sat(ts, q)) }, q + 1),
        ),
{
}

/// A binary operator keeps its operands in order: after a left operand, an
/// operator that binds tightly enough and a right operand that ends the
/// expression give that operator applied to the left operand, then the
/// right one.
pub proof fn lemma_binop_keeps_operands(
    ts: Toks,
    p: int,
    d: int,
    min_prec: u8,
    lhs: ExprV,
    op: BinaryOp,
    rhs: ExprV,
    q: int,
)
    requires
        binop_of(kat(ts, p)) == Some(op),
        spec_binary_prec(op).0 >= min_prec,
        g_expr(ts, p + 1, d, spec_binary_prec(op).1) == Ok::<(ExprV, int), PErr>((rhs, q)),
        p < q <= ts.len(),
        binop_of(kat(ts, q)) is None,
    ensures
        g_binops(ts, p, d, min_prec, lhs) == Ok::<(ExprV, int), PErr>(
            (
                ExprV::BinOp {
                    lhs: Box::new(lhs),
                    op,
                    rhs: Box::new(rhs),
                    span: spec_merge(expr_span(lhs), expr_span(rhs)),
                },
                q,
            ),
        ),
{
    let e = ExprV::BinOp {
        lhs: Box::new(lhs),
        op,
        rhs: Box::new(rhs),
        span: spec_merge(expr_span(lhs), expr_span(rhs)),
    };
    assert(fwd(ts, p, q));
    assert(g_binops(ts, q, d, min_prec, e) == Ok::<(ExprV, int), PErr>((e, q)));
    assert(g_binops(ts, p, d, min_prec, lhs) == g_binops(ts, q, d, min_prec, e));
}

} // verus!
