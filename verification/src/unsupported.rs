//! E0101 / E0102: Lua 5.4+ behaviour that LuaJIT and Lua 5.1 cannot represent.

use vstd::prelude::*;

use crate::ast::{
    expr_span, lemma_view_elseifs, lemma_view_exprs, lemma_view_fields, lemma_view_stmts,
    view_block, view_elseif, view_elseifs, view_expr, view_exprs, view_field, view_fields,
    view_func, view_stmt, view_stmts, Block, BlockV, Call, ElseIf, ElseIfV, ExprV, Expression,
    FieldV, Statement, StmtV, TableField,
};
use crate::diagnostics::{Diagnostic, DiagnosticView, Span};
use crate::lint::Lint;
use crate::text::text_eq;
use crate::walk::{
    count_block, count_elseifs, count_expr, count_exprs, count_field, count_fields,
    count_opt_block, count_opt_expr, count_stmt, count_stmts,
};
use crate::transformer::{
    lemma_elseifs_prefix, lemma_exprs_prefix, lemma_fields_prefix, lemma_push_drop,
    lemma_stmts_prefix,
};

verus! {

/// The content of a list of diagnostics.
pub open spec fn view_diags(s: Seq<Diagnostic>) -> Seq<DiagnosticView> {
    s.map_values(|d: Diagnostic| d@)
}

pub open spec fn e0101_diag(span: Span) -> DiagnosticView {
    DiagnosticView {
        severity: crate::diagnostics::Severity::Error,
        message: "reflection of numerical types is not representable in LuaJIT target"@,
        span,
        code: Some("E0101"@),
        suggestion: Some(
            "Remove the type discrimination or refactor to track numeric kind in user code"@,
        ),
        notes: Seq::empty(),
        secondary_labels: Seq::empty(),
    }
}

pub open spec fn e0102_diag(span: Span) -> DiagnosticView {
    DiagnosticView {
        severity: crate::diagnostics::Severity::Error,
        message: "integer overflow semantics differ between Lua 5.4 and LuaJIT"@,
        span,
        code: Some("E0102"@),
        suggestion: Some(
            "Use bit.* operations on the bit pattern explicitly, or accept double-precision semantics"@,
        ),
        notes: Seq::empty(),
        secondary_labels: Seq::empty(),
    }
}

/// `math.type` as a callee.
pub open spec fn is_math_type(e: ExprV) -> bool {
    match e {
        ExprV::Index { base, field, .. } => field == "type"@ && match *base {
            ExprV::Name { name, .. } => name == "math"@,
            _ => false,
        },
        _ => false,
    }
}

/// `acc` followed by the diagnostics of an expression, in source order.
pub open spec fn uf_expr(e: ExprV, acc: Seq<DiagnosticView>) -> Seq<DiagnosticView>
    decreases e,
{
    match e {
        ExprV::Integer { value, span } => if value == i64::MAX {
            acc.push(e0102_diag(span))
        } else {
            acc
        },
        ExprV::Call { func, args, .. } => uf_exprs(
            args,
            if is_math_type(*func) {
                acc.push(e0101_diag(expr_span(*func)))
            } else {
                uf_expr(*func, acc)
            },
        ),
        ExprV::MethodCall { obj, args, .. } => uf_exprs(args, uf_expr(*obj, acc)),
        ExprV::BinOp { lhs, rhs, .. } => uf_expr(*rhs, uf_expr(*lhs, acc)),
        ExprV::UnOp { operand, .. } => uf_expr(*operand, acc),
        ExprV::Index { base, .. } => uf_expr(*base, acc),
        ExprV::IndexExpr { base, key, .. } => uf_expr(*key, uf_expr(*base, acc)),
        ExprV::Function { func } => uf_block(func.body, acc),
        ExprV::Table { fields, .. } => uf_fields(fields, acc),
        _ => acc,
    }
}

pub open spec fn uf_exprs(s: Seq<ExprV>, acc: Seq<DiagnosticView>) -> Seq<DiagnosticView>
    decreases s,
{
    if s.len() == 0 {
        acc
    } else {
        uf_expr(s.last(), uf_exprs(s.drop_last(), acc))
    }
}

pub open spec fn uf_field(x: FieldV, acc: Seq<DiagnosticView>) -> Seq<DiagnosticView>
    decreases x,
{
    match x {
        FieldV::ExprKey { key, value, .. } => uf_expr(value, uf_expr(key, acc)),
        FieldV::NameKey { value, .. } => uf_expr(value, acc),
        FieldV::Positional { value } => uf_expr(value, acc),
    }
}

pub open spec fn uf_fields(s: Seq<FieldV>, acc: Seq<DiagnosticView>) -> Seq<DiagnosticView>
    decreases s,
{
    if s.len() == 0 {
        acc
    } else {
        uf_field(s.last(), uf_fields(s.drop_last(), acc))
    }
}

/// `acc` followed by the diagnostics of a block, in source order.
pub open spec fn uf_block(b: BlockV, acc: Seq<DiagnosticView>) -> Seq<DiagnosticView>
    decreases b,
{
    uf_stmts(b.stmts, acc)
}

pub open spec fn uf_stmts(s: Seq<StmtV>, acc: Seq<DiagnosticView>) -> Seq<DiagnosticView>
    decreases s,
{
    if s.len() == 0 {
        acc
    } else {
        uf_stmt(s.last(), uf_stmts(s.drop_last(), acc))
    }
}

pub open spec fn uf_elseif(x: ElseIfV, acc: Seq<DiagnosticView>) -> Seq<DiagnosticView>
    decreases x,
{
    uf_block(x.body, uf_expr(x.condition, acc))
}

pub open spec fn uf_elseifs(s: Seq<ElseIfV>, acc: Seq<DiagnosticView>) -> Seq<DiagnosticView>
    decreases s,
{
    if s.len() == 0 {
        acc
    } else {
        uf_elseif(s.last(), uf_elseifs(s.drop_last(), acc))
    }
}

pub open spec fn uf_opt_block(b: Option<BlockV>, acc: Seq<DiagnosticView>) -> Seq<DiagnosticView>
    decreases b,
{
    match b {
        Some(x) => uf_block(x, acc),
        None => acc,
    }
}

pub open spec fn uf_opt_expr(e: Option<ExprV>, acc: Seq<DiagnosticView>) -> Seq<DiagnosticView>
    decreases e,
{
    match e {
        Some(x) => uf_expr(x, acc),
        None => acc,
    }
}

/// `acc` followed by the diagnostics of a statement, in source order (an
/// assignment's targets before its values).
pub open spec fn uf_stmt(s: StmtV, acc: Seq<DiagnosticView>) -> Seq<DiagnosticView>
    decreases s,
{
    match s {
        StmtV::LocalDecl { values, .. } => uf_exprs(values, acc),
        StmtV::Assign { targets, values, .. } => uf_exprs(values, uf_exprs(targets, acc)),
        StmtV::Return { values, .. } => uf_exprs(values, acc),
        StmtV::ExprStmt { expr } => uf_expr(expr, acc),
        StmtV::Do { body, .. } => uf_block(body, acc),
        StmtV::While { condition, body, .. } => uf_block(body, uf_expr(condition, acc)),
        StmtV::Repeat { body, condition, .. } => uf_expr(condition, uf_block(body, acc)),
        StmtV::If { condition, then_block, elseifs, else_block, .. } => uf_opt_block(
            else_block,
            uf_elseifs(elseifs, uf_block(then_block, uf_expr(condition, acc))),
        ),
        StmtV::NumericFor { start, limit, step, body, .. } => uf_block(
            body,
            uf_opt_expr(step, uf_expr(limit, uf_expr(start, acc))),
        ),
        StmtV::GenericFor { iterators, body, .. } => uf_block(body, uf_exprs(iterators, acc)),
        StmtV::FunctionDecl { func, .. } => uf_block(func.body, acc),
        StmtV::LocalFunctionDecl { func, .. } => uf_block(func.body, acc),
        _ => acc,
    }
}

// ── One diagnostic per site ─────────────────────────────────────────────────

/// How many of the diagnostics carry code `c`.
pub open spec fn code_count(ds: Seq<DiagnosticView>, c: Seq<char>) -> nat
    decreases ds.len(),
{
    if ds.len() == 0 {
        0
    } else {
        code_count(ds.drop_last(), c) + if ds.last().code == Some(c) {
            1nat
        } else {
            0nat
        }
    }
}

/// A call whose callee is `math.type`.
pub open spec fn math_type_call() -> spec_fn(ExprV) -> bool {
    |e: ExprV|
        match e {
            ExprV::Call { func, .. } => is_math_type(*func),
            _ => false,
        }
}

/// An integer literal at `i64::MAX`.
pub open spec fn max_int_literal() -> spec_fn(ExprV) -> bool {
    |e: ExprV|
        match e {
            ExprV::Integer { value, .. } => value == i64::MAX,
            _ => false,
        }
}

/// Both counts of `ds` grow by those of the tree that was checked after it.
pub open spec fn counts_add(before: Seq<DiagnosticView>, after: Seq<DiagnosticView>, calls: nat, lits: nat) -> bool {
    &&& code_count(after, "E0101"@) == code_count(before, "E0101"@) + calls
    &&& code_count(after, "E0102"@) == code_count(before, "E0102"@) + lits
}

proof fn lemma_code_count_push(ds: Seq<DiagnosticView>, d: DiagnosticView, c: Seq<char>)
    ensures
        code_count(ds.push(d), c) == code_count(ds, c) + if d.code == Some(c) {
            1nat
        } else {
            0nat
        },
{
    assert(ds.push(d).drop_last() =~= ds);
}

proof fn lemma_codes_differ()
    ensures
        "E0101"@ != "E0102"@,
{
    reveal_strlit("E0101");
    reveal_strlit("E0102");
    assert("E0101"@[4] != "E0102"@[4]);
}

proof fn lemma_push_e0101(acc: Seq<DiagnosticView>, span: Span)
    ensures
        counts_add(acc, acc.push(e0101_diag(span)), 1, 0),
{
    lemma_codes_differ();
    lemma_code_count_push(acc, e0101_diag(span), "E0101"@);
    lemma_code_count_push(acc, e0101_diag(span), "E0102"@);
}

proof fn lemma_push_e0102(acc: Seq<DiagnosticView>, span: Span)
    ensures
        counts_add(acc, acc.push(e0102_diag(span)), 0, 1),
{
    lemma_codes_differ();
    lemma_code_count_push(acc, e0102_diag(span), "E0101"@);
    lemma_code_count_push(acc, e0102_diag(span), "E0102"@);
}

proof fn lemma_math_type_callee_counts(e: ExprV)
    requires
        is_math_type(e),
    ensures
        count_expr(e, math_type_call()) == 0,
        count_expr(e, max_int_literal()) == 0,
{
    match e {
        ExprV::Index { base, .. } => {
            assert(count_expr(*base, math_type_call()) == 0);
            assert(count_expr(*base, max_int_literal()) == 0);
        },
        _ => {},
    }
}

proof fn lemma_uf_expr_counts(e: ExprV, acc: Seq<DiagnosticView>)
    ensures
        counts_add(acc, uf_expr(e, acc), count_expr(e, math_type_call()), count_expr(e, max_int_literal())),
    decreases e,
{
    let mt = math_type_call();
    let ml = max_int_literal();
    match e {
        ExprV::Integer { value, span } => {
            if value == i64::MAX {
                lemma_push_e0102(acc, span);
            }
        },
        ExprV::Call { func, args, .. } => {
            if is_math_type(*func) {
                lemma_push_e0101(acc, expr_span(*func));
                lemma_math_type_callee_counts(*func);
                lemma_uf_exprs_counts(args, acc.push(e0101_diag(expr_span(*func))));
            } else {
                lemma_uf_expr_counts(*func, acc);
                lemma_uf_exprs_counts(args, uf_expr(*func, acc));
            }
        },
        ExprV::MethodCall { obj, args, .. } => {
            lemma_uf_expr_counts(*obj, acc);
            lemma_uf_exprs_counts(args, uf_expr(*obj, acc));
        },
        ExprV::BinOp { lhs, rhs, .. } => {
            lemma_uf_expr_counts(*lhs, acc);
            lemma_uf_expr_counts(*rhs, uf_expr(*lhs, acc));
        },
        ExprV::UnOp { operand, .. } => lemma_uf_expr_counts(*operand, acc),
        ExprV::Index { base, .. } => lemma_uf_expr_counts(*base, acc),
        ExprV::IndexExpr { base, key, .. } => {
            lemma_uf_expr_counts(*base, acc);
            lemma_uf_expr_counts(*key, uf_expr(*base, acc));
        },
        ExprV::Function { func } => lemma_uf_block_counts(func.body, acc),
        ExprV::Table { fields, .. } => lemma_uf_fields_counts(fields, acc),
        _ => {},
    }
}

proof fn lemma_uf_exprs_counts(s: Seq<ExprV>, acc: Seq<DiagnosticView>)
    ensures
        counts_add(acc, uf_exprs(s, acc), count_exprs(s, math_type_call()), count_exprs(s, max_int_literal())),
    decreases s,
{
    if s.len() > 0 {
        lemma_uf_exprs_counts(s.drop_last(), acc);
        lemma_uf_expr_counts(s.last(), uf_exprs(s.drop_last(), acc));
    }
}

proof fn lemma_uf_opt_expr_counts(e: Option<ExprV>, acc: Seq<DiagnosticView>)
    ensures
        counts_add(acc, uf_opt_expr(e, acc), count_opt_expr(e, math_type_call()), count_opt_expr(e, max_int_literal())),
    decreases e,
{
    match e {
        Some(x) => lemma_uf_expr_counts(x, acc),
        None => {},
    }
}

proof fn lemma_uf_field_counts(x: FieldV, acc: Seq<DiagnosticView>)
    ensures
        counts_add(acc, uf_field(x, acc), count_field(x, math_type_call()), count_field(x, max_int_literal())),
    decreases x,
{
    match x {
        FieldV::ExprKey { key, value, .. } => {
            lemma_uf_expr_counts(key, acc);
            lemma_uf_expr_counts(value, uf_expr(key, acc));
        },
        FieldV::NameKey { value, .. } => lemma_uf_expr_counts(value, acc),
        FieldV::Positional { value } => lemma_uf_expr_counts(value, acc),
    }
}

proof fn lemma_uf_fields_counts(s: Seq<FieldV>, acc: Seq<DiagnosticView>)
    ensures
        counts_add(acc, uf_fields(s, acc), count_fields(s, math_type_call()), count_fields(s, max_int_literal())),
    decreases s,
{
    if s.len() > 0 {
        lemma_uf_fields_counts(s.drop_last(), acc);
        lemma_uf_field_counts(s.last(), uf_fields(s.drop_last(), acc));
    }
}

proof fn lemma_uf_block_counts(b: BlockV, acc: Seq<DiagnosticView>)
    ensures
        counts_add(acc, uf_block(b, acc), count_block(b, math_type_call()), count_block(b, max_int_literal())),
    decreases b,
{
    lemma_uf_stmts_counts(b.stmts, acc);
}

proof fn lemma_uf_opt_block_counts(b: Option<BlockV>, acc: Seq<DiagnosticView>)
    ensures
        counts_add(acc, uf_opt_block(b, acc), count_opt_block(b, math_type_call()), count_opt_block(b, max_int_literal())),
    decreases b,
{
    match b {
        Some(x) => lemma_uf_block_counts(x, acc),
        None => {},
    }
}

proof fn lemma_uf_stmts_counts(s: Seq<StmtV>, acc: Seq<DiagnosticView>)
    ensures
        counts_add(acc, uf_stmts(s, acc), count_stmts(s, math_type_call()), count_stmts(s, max_int_literal())),
    decreases s,
{
    if s.len() > 0 {
        lemma_uf_stmts_counts(s.drop_last(), acc);
        lemma_uf_stmt_counts(s.last(), uf_stmts(s.drop_last(), acc));
    }
}

proof fn lemma_uf_elseifs_counts(s: Seq<ElseIfV>, acc: Seq<DiagnosticView>)
    ensures
        counts_add(acc, uf_elseifs(s, acc), count_elseifs(s, math_type_call()), count_elseifs(s, max_int_literal())),
    decreases s,
{
    if s.len() > 0 {
        let x = s.last();
        let a1 = uf_elseifs(s.drop_last(), acc);
        lemma_uf_elseifs_counts(s.drop_last(), acc);
        lemma_uf_expr_counts(x.condition, a1);
        lemma_uf_block_counts(x.body, uf_expr(x.condition, a1));
        assert(uf_elseifs(s, acc) == uf_elseif(x, a1));
        assert(uf_elseif(x, a1) == uf_block(x.body, uf_expr(x.condition, a1)));
    }
}

proof fn lemma_uf_stmt_counts(s: StmtV, acc: Seq<DiagnosticView>)
    ensures
        counts_add(acc, uf_stmt(s, acc), count_stmt(s, math_type_call()), count_stmt(s, max_int_literal())),
    decreases s,
{
    match s {
        StmtV::LocalDecl { values, .. } => lemma_uf_exprs_counts(values, acc),
        StmtV::Assign { targets, values, .. } => {
            lemma_uf_exprs_counts(targets, acc);
            lemma_uf_exprs_counts(values, uf_exprs(targets, acc));
        },
        StmtV::Return { values, .. } => lemma_uf_exprs_counts(values, acc),
        StmtV::ExprStmt { expr } => lemma_uf_expr_counts(expr, acc),
        StmtV::Do { body, .. } => lemma_uf_block_counts(body, acc),
        StmtV::While { condition, body, .. } => {
            lemma_uf_expr_counts(condition, acc);
            lemma_uf_block_counts(body, uf_expr(condition, acc));
        },
        StmtV::Repeat { body, condition, .. } => {
            lemma_uf_block_counts(body, acc);
            lemma_uf_expr_counts(condition, uf_block(body, acc));
        },
        StmtV::If { condition, then_block, elseifs, else_block, .. } => {
            let a1 = uf_expr(condition, acc);
            let a2 = uf_block(then_block, a1);
            let a3 = uf_elseifs(elseifs, a2);
            lemma_uf_expr_counts(condition, acc);
            lemma_uf_block_counts(then_block, a1);
            lemma_uf_elseifs_counts(elseifs, a2);
            lemma_uf_opt_block_counts(else_block, a3);
        },
        StmtV::NumericFor { start, limit, step, body, .. } => {
            let a1 = uf_expr(start, acc);
            let a2 = uf_expr(limit, a1);
            let a3 = uf_opt_expr(step, a2);
            lemma_uf_expr_counts(start, acc);
            lemma_uf_expr_counts(limit, a1);
            lemma_uf_opt_expr_counts(step, a2);
            lemma_uf_block_counts(body, a3);
        },
        StmtV::GenericFor { iterators, body, .. } => {
            lemma_uf_exprs_counts(iterators, acc);
            lemma_uf_block_counts(body, uf_exprs(iterators, acc));
        },
        StmtV::FunctionDecl { func, .. } => lemma_uf_block_counts(func.body, acc),
        StmtV::LocalFunctionDecl { func, .. } => lemma_uf_block_counts(func.body, acc),
        _ => {},
    }
}

/// One diagnostic per site: checking a block reports exactly as many E0101
/// diagnostics as the block has calls whose callee is `math.type`, and
/// exactly as many E0102 diagnostics as it has integer literals at
/// `i64::MAX`, wherever they stand: in any statement, in any expression
/// position (conditions, loop bounds, assignment targets included), in
/// nested blocks and in function bodies.
pub proof fn lemma_one_diagnostic_per_site(b: BlockV)
    ensures
        code_count(uf_block(b, seq![]), "E0101"@) == count_block(b, math_type_call()),
        code_count(uf_block(b, seq![]), "E0102"@) == count_block(b, max_int_literal()),
{
    lemma_uf_block_counts(b, seq![]);
}

// ── Executable pass ──────────────────────────────────────────────────────────

fn push_diag(diags: &mut Vec<Diagnostic>, d: Diagnostic)
    ensures
        view_diags(final(diags)@) == view_diags(old(diags)@).push(d@),
{
    let ghost before = diags@;
    diags.push(d);
    assert(view_diags(diags@) =~= view_diags(before).push(d@));
}

fn make_e0101(span: Span) -> (r: Diagnostic)
    ensures
        r@ == e0101_diag(span),
{
    Diagnostic::error("reflection of numerical types is not representable in LuaJIT target", span)
        .with_code("E0101").with_suggestion(
        "Remove the type discrimination or refactor to track numeric kind in user code",
    )
}

fn make_e0102(span: Span) -> (r: Diagnostic)
    ensures
        r@ == e0102_diag(span),
{
    Diagnostic::error("integer overflow semantics differ between Lua 5.4 and LuaJIT", span)
        .with_code("E0102").with_suggestion(
        "Use bit.* operations on the bit pattern explicitly, or accept double-precision semantics",
    )
}

fn is_math_type_exec(e: &Expression) -> (r: bool)
    ensures
        r == is_math_type(e@),
{
    match e {
        Expression::Index(base, field, _) => {
            if text_eq(field, "type") {
                match &**base {
                    Expression::Name(n, sp) => {
                        assert(view_expr(**base) == (ExprV::Name { name: n@, span: *sp }));
                        text_eq(n, "math")
                    },
                    _ => {
                        assert(!(view_expr(**base) is Name));
                        false
                    },
                }
            } else {
                false
            }
        },
        _ => false,
    }
}

fn uf_check_exprs(v: &Vec<Expression>, diags: &mut Vec<Diagnostic>)
    ensures
        view_diags(final(diags)@) == uf_exprs(view_exprs(v@), view_diags(old(diags)@)),
    decreases v,
{
    let mut i: usize = 0;
    while i < v.len()
        invariant
            i <= v.len(),
            view_diags(diags@) == uf_exprs(
                view_exprs(v@.subrange(0, i as int)),
                view_diags(old(diags)@),
            ),
        decreases v.len() - i,
    {
        proof {
            lemma_exprs_prefix(v@, i as int);
            lemma_push_drop(view_exprs(v@.subrange(0, i as int)), view_expr(v@[i as int]));
            assert(decreases_to!(*v => v@));
            assert(decreases_to!(v@ => v@[i as int]));
        }
        uf_check_expr(&v[i], diags);
        i += 1;
    }
    assert(v@.subrange(0, v.len() as int) =~= v@);
}

fn uf_check_fields(v: &Vec<TableField>, diags: &mut Vec<Diagnostic>)
    ensures
        view_diags(final(diags)@) == uf_fields(view_fields(v@), view_diags(old(diags)@)),
    decreases v,
{
    let mut i: usize = 0;
    while i < v.len()
        invariant
            i <= v.len(),
            view_diags(diags@) == uf_fields(
                view_fields(v@.subrange(0, i as int)),
                view_diags(old(diags)@),
            ),
        decreases v.len() - i,
    {
        proof {
            lemma_fields_prefix(v@, i as int);
            lemma_push_drop(view_fields(v@.subrange(0, i as int)), view_field(v@[i as int]));
            assert(decreases_to!(*v => v@));
            assert(decreases_to!(v@ => v@[i as int]));
        }
        uf_check_field(&v[i], diags);
        i += 1;
    }
    assert(v@.subrange(0, v.len() as int) =~= v@);
}

fn uf_check_elseifs(v: &Vec<ElseIf>, diags: &mut Vec<Diagnostic>)
    ensures
        view_diags(final(diags)@) == uf_elseifs(view_elseifs(v@), view_diags(old(diags)@)),
    decreases v,
{
    let mut i: usize = 0;
    while i < v.len()
        invariant
            i <= v.len(),
            view_diags(diags@) == uf_elseifs(
                view_elseifs(v@.subrange(0, i as int)),
                view_diags(old(diags)@),
            ),
        decreases v.len() - i,
    {
        proof {
            lemma_elseifs_prefix(v@, i as int);
            lemma_push_drop(view_elseifs(v@.subrange(0, i as int)), view_elseif(v@[i as int]));
            assert(decreases_to!(*v => v@));
            assert(decreases_to!(v@ => v@[i as int]));
        }
        uf_check_elseif(&v[i], diags);
        i += 1;
    }
    assert(v@.subrange(0, v.len() as int) =~= v@);
}

fn uf_check_field(f: &TableField, diags: &mut Vec<Diagnostic>)
    ensures
        view_diags(final(diags)@) == uf_field(view_field(*f), view_diags(old(diags)@)),
    decreases f,
{
    match f {
        TableField::ExprKey { key, value, .. } => {
            uf_check_expr(key, diags);
            uf_check_expr(value, diags);
        },
        TableField::NameKey { value, .. } => uf_check_expr(value, diags),
        TableField::Positional(value) => uf_check_expr(value, diags),
    }
}

fn uf_check_elseif(clause: &ElseIf, diags: &mut Vec<Diagnostic>)
    ensures
        view_diags(final(diags)@) == uf_elseif(view_elseif(*clause), view_diags(old(diags)@)),
    decreases clause,
{
    uf_check_expr(&clause.condition, diags);
    uf_check_block(&clause.body, diags);
}

/// Appends the diagnostics of `block` to `diags`.
pub fn uf_check_block(block: &Block, diags: &mut Vec<Diagnostic>)
    ensures
        view_diags(final(diags)@) == uf_block(block@, view_diags(old(diags)@)),
    decreases block,
{
    let mut i: usize = 0;
    proof {
        assert(decreases_to!(*block => block.stmts));
    }
    while i < block.stmts.len()
        invariant
            i <= block.stmts.len(),
            decreases_to!(*block => block.stmts),
            view_diags(diags@) == uf_stmts(
                view_stmts(block.stmts@.subrange(0, i as int)),
                view_diags(old(diags)@),
            ),
        decreases block.stmts.len() - i,
    {
        proof {
            lemma_stmts_prefix(block.stmts@, i as int);
            lemma_push_drop(
                view_stmts(block.stmts@.subrange(0, i as int)),
                view_stmt(block.stmts@[i as int]),
            );
            assert(decreases_to!(block.stmts => block.stmts@));
            assert(decreases_to!(block.stmts@ => block.stmts@[i as int]));
        }
        uf_check_stmt(&block.stmts[i], diags);
        i += 1;
    }
    assert(block.stmts@.subrange(0, block.stmts.len() as int) =~= block.stmts@);
}

#[verifier::rlimit(50)]
fn uf_check_stmt(stmt: &Statement, diags: &mut Vec<Diagnostic>)
    ensures
        view_diags(final(diags)@) == uf_stmt(stmt@, view_diags(old(diags)@)),
    decreases stmt,
{
    match stmt {
        Statement::LocalDecl(d) => uf_check_exprs(&d.values, diags),
        Statement::Assign(a) => {
            uf_check_exprs(&a.targets, diags);
            uf_check_exprs(&a.values, diags);
        },
        Statement::Return(r) => uf_check_exprs(&r.values, diags),
        Statement::ExprStmt(e) => uf_check_expr(e, diags),
        Statement::Do(b) => uf_check_block(&b.body, diags),
        Statement::While(w) => {
            uf_check_expr(&w.condition, diags);
            uf_check_block(&w.body, diags);
        },
        Statement::Repeat(r) => {
            uf_check_block(&r.body, diags);
            uf_check_expr(&r.condition, diags);
        },
        Statement::If(i) => {
            uf_check_expr(&i.condition, diags);
            uf_check_block(&i.then_block, diags);
            proof {
                assert(decreases_to!(*stmt => stmt->If_0));
                assert(decreases_to!(stmt->If_0 => i.elseif_clauses));
            }
            uf_check_elseifs(&i.elseif_clauses, diags);
            match &i.else_block {
                Some(b) => uf_check_block(b, diags),
                None => {},
            }
        },
        Statement::NumericFor(f) => {
            uf_check_expr(&f.start, diags);
            uf_check_expr(&f.limit, diags);
            match &f.step {
                Some(step) => uf_check_expr(step, diags),
                None => {},
            }
            uf_check_block(&f.body, diags);
        },
        Statement::GenericFor(f) => {
            uf_check_exprs(&f.iterators, diags);
            uf_check_block(&f.body, diags);
        },
        Statement::FunctionDecl(f) => uf_check_block(&f.func.body, diags),
        Statement::LocalFunctionDecl(f) => uf_check_block(&f.func.body, diags),
        _ => {},
    }
}

#[verifier::rlimit(50)]
fn uf_check_expr(expr: &Expression, diags: &mut Vec<Diagnostic>)
    ensures
        view_diags(final(diags)@) == uf_expr(expr@, view_diags(old(diags)@)),
    decreases expr,
{
    match expr {
        Expression::Integer(val, span) => {
            if *val == i64::MAX {
                push_diag(diags, make_e0102(*span));
            }
        },
        Expression::Call(Call::Call { func, args, .. }) => {
            if is_math_type_exec(func) {
                let s = func.span();
                push_diag(diags, make_e0101(s));
            } else {
                uf_check_expr(func, diags);
            }
            uf_check_exprs(args, diags);
        },
        Expression::Call(Call::MethodCall { obj, args, .. }) => {
            uf_check_expr(obj, diags);
            uf_check_exprs(args, diags);
        },
        Expression::BinOp(lhs, _, rhs, _) => {
            uf_check_expr(lhs, diags);
            uf_check_expr(rhs, diags);
        },
        Expression::UnOp(_, operand, _) => uf_check_expr(operand, diags),
        Expression::Index(base, _, _) => uf_check_expr(base, diags),
        Expression::IndexExpr(base, key, _) => {
            uf_check_expr(base, diags);
            uf_check_expr(key, diags);
        },
        Expression::Function(f) => {
            assert(view_func(*f).body == view_block(f.body));
            uf_check_block(&f.body, diags);
        },
        Expression::Table(t) => uf_check_fields(&t.fields, diags),
        _ => {},
    }
}

/// E0101 and E0102: `math.type` calls and integer literals at `i64::MAX`.
pub struct UnsupportedFeatureGuard;

impl Lint for UnsupportedFeatureGuard {
    /// All E0101/E0102 diagnostics of `block`, in source order.
    fn check(&self, block: &Block) -> (r: Vec<Diagnostic>)
        ensures
            view_diags(r@) == uf_block(block@, seq![]),
    {
        let mut diags: Vec<Diagnostic> = Vec::new();
        assert(view_diags(diags@) =~= Seq::<DiagnosticView>::empty());
        uf_check_block(block, &mut diags);
        diags
    }
}

} // verus!
