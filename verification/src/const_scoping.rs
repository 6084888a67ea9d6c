//! How the `<const>` check reaches into nested blocks: what it reports does
//! not depend on what was reported before, the scopes it leaves behind are
//! those it was given (up to the names a statement declares), and an
//! assignment to a `<const>` local is reported wherever it is nested.

use vstd::prelude::*;

use crate::ast::{BlockV, ElseIfV, ExprV, FieldV, FuncV, StmtV};
use crate::const_mutation::{
    bind_plain, cm_block, cm_elseif, cm_elseifs, cm_expr, cm_exprs, cm_field, cm_fields, cm_func,
    cm_stmt, cm_stmts, cm_targets, e0301_diag, find_const, frame_lookup, param_frame, register,
    FrameV,
};
use crate::diagnostics::{DiagnosticView, Span};

verus! {

// ── Independence from what was reported before ──────────────────────────────

/// A check started after `acc` reports `acc` followed by what it reports
/// when started with nothing, and leaves the same scopes.
pub open spec fn after(acc: Seq<DiagnosticView>, fresh: (Seq<DiagnosticView>, Seq<FrameV>), r: (Seq<DiagnosticView>, Seq<FrameV>)) -> bool {
    r == (acc + fresh.0, fresh.1)
}

proof fn lemma_assoc(a: Seq<DiagnosticView>, b: Seq<DiagnosticView>, c: Seq<DiagnosticView>)
    ensures
        (a + b) + c == a + (b + c),
{
    assert((a + b) + c =~= a + (b + c));
}

proof fn lemma_empty_left(a: Seq<DiagnosticView>)
    ensures
        Seq::<DiagnosticView>::empty() + a == a,
        a + Seq::<DiagnosticView>::empty() == a,
{
    assert(Seq::<DiagnosticView>::empty() + a =~= a);
    assert(a + Seq::<DiagnosticView>::empty() =~= a);
}

proof fn lemma_targets_acc(targets: Seq<ExprV>, frames: Seq<FrameV>, acc: Seq<DiagnosticView>)
    ensures
        cm_targets(targets, frames, acc) == acc + cm_targets(targets, frames, seq![]),
    decreases targets.len(),
{
    lemma_empty_left(acc);
    if targets.len() > 0 {
        lemma_targets_acc(targets.drop_last(), frames, acc);
        let b0 = cm_targets(targets.drop_last(), frames, seq![]);
        match targets.last() {
            ExprV::Name { name, span } => match find_const(frames, name) {
                Some(decl) => {
                    assert((acc + b0).push(e0301_diag(name, span, decl)) =~= acc + b0.push(
                        e0301_diag(name, span, decl),
                    ));
                },
                None => {},
            },
            _ => {},
        }
    }
}

/// Threads `r`, a result of the form `after(acc, fresh, r)`, through a
/// second step whose own results are independent of the accumulator.
proof fn lemma_chain(
    acc: Seq<DiagnosticView>,
    fresh1: (Seq<DiagnosticView>, Seq<FrameV>),
    step_acc: (Seq<DiagnosticView>, Seq<FrameV>),
    step_fresh1: (Seq<DiagnosticView>, Seq<FrameV>),
    step_empty: (Seq<DiagnosticView>, Seq<FrameV>),
)
    requires
        step_acc == (acc + fresh1.0 + step_empty.0, step_empty.1),
        step_fresh1 == (fresh1.0 + step_empty.0, step_empty.1),
    ensures
        after(acc, step_fresh1, step_acc),
{
    lemma_assoc(acc, fresh1.0, step_empty.0);
}

proof fn lemma_expr_acc(e: ExprV, frames: Seq<FrameV>, acc: Seq<DiagnosticView>)
    ensures
        after(acc, cm_expr(e, frames, seq![]), cm_expr(e, frames, acc)),
    decreases e,
{
    lemma_empty_left(acc);
    match e {
        ExprV::Function { func } => lemma_func_acc(func, frames, acc),
        ExprV::Call { func, args, .. } => {
            lemma_expr_acc(*func, frames, acc);
            lemma_expr_acc(*func, frames, seq![]);
            let r0 = cm_expr(*func, frames, seq![]);
            lemma_exprs_acc(args, r0.1, acc + r0.0);
            lemma_exprs_acc(args, r0.1, r0.0);
            lemma_chain(acc, r0, cm_exprs(args, r0.1, acc + r0.0), cm_exprs(args, r0.1, r0.0), cm_exprs(args, r0.1, seq![]));
        },
        ExprV::MethodCall { obj, args, .. } => {
            lemma_expr_acc(*obj, frames, acc);
            let r0 = cm_expr(*obj, frames, seq![]);
            lemma_exprs_acc(args, r0.1, acc + r0.0);
            lemma_exprs_acc(args, r0.1, r0.0);
            lemma_chain(acc, r0, cm_exprs(args, r0.1, acc + r0.0), cm_exprs(args, r0.1, r0.0), cm_exprs(args, r0.1, seq![]));
        },
        ExprV::Table { fields, .. } => lemma_fields_acc(fields, frames, acc),
        ExprV::BinOp { lhs, rhs, .. } => {
            lemma_expr_acc(*lhs, frames, acc);
            let r0 = cm_expr(*lhs, frames, seq![]);
            lemma_expr_acc(*rhs, r0.1, acc + r0.0);
            lemma_expr_acc(*rhs, r0.1, r0.0);
            lemma_chain(acc, r0, cm_expr(*rhs, r0.1, acc + r0.0), cm_expr(*rhs, r0.1, r0.0), cm_expr(*rhs, r0.1, seq![]));
        },
        ExprV::UnOp { operand, .. } => lemma_expr_acc(*operand, frames, acc),
        ExprV::Index { base, .. } => lemma_expr_acc(*base, frames, acc),
        ExprV::IndexExpr { base, key, .. } => {
            lemma_expr_acc(*base, frames, acc);
            let r0 = cm_expr(*base, frames, seq![]);
            lemma_expr_acc(*key, r0.1, acc + r0.0);
            lemma_expr_acc(*key, r0.1, r0.0);
            lemma_chain(acc, r0, cm_expr(*key, r0.1, acc + r0.0), cm_expr(*key, r0.1, r0.0), cm_expr(*key, r0.1, seq![]));
        },
        _ => {},
    }
}

proof fn lemma_exprs_acc(s: Seq<ExprV>, frames: Seq<FrameV>, acc: Seq<DiagnosticView>)
    ensures
        after(acc, cm_exprs(s, frames, seq![]), cm_exprs(s, frames, acc)),
    decreases s,
{
    lemma_empty_left(acc);
    if s.len() > 0 {
        lemma_exprs_acc(s.drop_last(), frames, acc);
        let r0 = cm_exprs(s.drop_last(), frames, seq![]);
        lemma_expr_acc(s.last(), r0.1, acc + r0.0);
        lemma_expr_acc(s.last(), r0.1, r0.0);
        lemma_chain(acc, r0, cm_expr(s.last(), r0.1, acc + r0.0), cm_expr(s.last(), r0.1, r0.0), cm_expr(s.last(), r0.1, seq![]));
    }
}

proof fn lemma_field_acc(x: FieldV, frames: Seq<FrameV>, acc: Seq<DiagnosticView>)
    ensures
        after(acc, cm_field(x, frames, seq![]), cm_field(x, frames, acc)),
    decreases x,
{
    lemma_empty_left(acc);
    match x {
        FieldV::ExprKey { key, value, .. } => {
            lemma_expr_acc(key, frames, acc);
            let r0 = cm_expr(key, frames, seq![]);
            lemma_expr_acc(value, r0.1, acc + r0.0);
            lemma_expr_acc(value, r0.1, r0.0);
            lemma_chain(acc, r0, cm_expr(value, r0.1, acc + r0.0), cm_expr(value, r0.1, r0.0), cm_expr(value, r0.1, seq![]));
        },
        FieldV::NameKey { value, .. } => lemma_expr_acc(value, frames, acc),
        FieldV::Positional { value } => lemma_expr_acc(value, frames, acc),
    }
}

proof fn lemma_fields_acc(s: Seq<FieldV>, frames: Seq<FrameV>, acc: Seq<DiagnosticView>)
    ensures
        after(acc, cm_fields(s, frames, seq![]), cm_fields(s, frames, acc)),
    decreases s,
{
    lemma_empty_left(acc);
    if s.len() > 0 {
        lemma_fields_acc(s.drop_last(), frames, acc);
        let r0 = cm_fields(s.drop_last(), frames, seq![]);
        lemma_field_acc(s.last(), r0.1, acc + r0.0);
        lemma_field_acc(s.last(), r0.1, r0.0);
        lemma_chain(acc, r0, cm_field(s.last(), r0.1, acc + r0.0), cm_field(s.last(), r0.1, r0.0), cm_field(s.last(), r0.1, seq![]));
    }
}

proof fn lemma_func_acc(f: FuncV, frames: Seq<FrameV>, acc: Seq<DiagnosticView>)
    ensures
        after(acc, cm_func(f, frames, seq![]), cm_func(f, frames, acc)),
    decreases f,
{
    lemma_stmts_acc(f.body.stmts, frames.push(param_frame(f.params)), acc);
}

proof fn lemma_block_acc(b: BlockV, frames: Seq<FrameV>, acc: Seq<DiagnosticView>)
    ensures
        after(acc, cm_block(b, frames, seq![]), cm_block(b, frames, acc)),
    decreases b,
{
    lemma_stmts_acc(b.stmts, frames.push(Seq::empty()), acc);
}

proof fn lemma_stmts_acc(s: Seq<StmtV>, frames: Seq<FrameV>, acc: Seq<DiagnosticView>)
    ensures
        after(acc, cm_stmts(s, frames, seq![]), cm_stmts(s, frames, acc)),
    decreases s,
{
    lemma_empty_left(acc);
    if s.len() > 0 {
        lemma_stmts_acc(s.drop_last(), frames, acc);
        let r0 = cm_stmts(s.drop_last(), frames, seq![]);
        lemma_stmt_acc(s.last(), r0.1, acc + r0.0);
        lemma_stmt_acc(s.last(), r0.1, r0.0);
        lemma_chain(acc, r0, cm_stmt(s.last(), r0.1, acc + r0.0), cm_stmt(s.last(), r0.1, r0.0), cm_stmt(s.last(), r0.1, seq![]));
    }
}

proof fn lemma_elseif_acc(x: ElseIfV, frames: Seq<FrameV>, acc: Seq<DiagnosticView>)
    ensures
        after(acc, cm_elseif(x, frames, seq![]), cm_elseif(x, frames, acc)),
    decreases x,
{
    lemma_empty_left(acc);
    lemma_expr_acc(x.condition, frames, acc);
    let r0 = cm_expr(x.condition, frames, seq![]);
    lemma_block_acc(x.body, r0.1, acc + r0.0);
    lemma_block_acc(x.body, r0.1, r0.0);
    lemma_chain(acc, r0, cm_block(x.body, r0.1, acc + r0.0), cm_block(x.body, r0.1, r0.0), cm_block(x.body, r0.1, seq![]));
}

proof fn lemma_elseifs_acc(s: Seq<ElseIfV>, frames: Seq<FrameV>, acc: Seq<DiagnosticView>)
    ensures
        after(acc, cm_elseifs(s, frames, seq![]), cm_elseifs(s, frames, acc)),
    decreases s,
{
    lemma_empty_left(acc);
    if s.len() > 0 {
        lemma_elseifs_acc(s.drop_last(), frames, acc);
        let r0 = cm_elseifs(s.drop_last(), frames, seq![]);
        lemma_elseif_acc(s.last(), r0.1, acc + r0.0);
        lemma_elseif_acc(s.last(), r0.1, r0.0);
        lemma_chain(acc, r0, cm_elseif(s.last(), r0.1, acc + r0.0), cm_elseif(s.last(), r0.1, r0.0), cm_elseif(s.last(), r0.1, seq![]));
    }
}

#[verifier::rlimit(40)]
proof fn lemma_stmt_acc(s: StmtV, frames: Seq<FrameV>, acc: Seq<DiagnosticView>)
    ensures
        after(acc, cm_stmt(s, frames, seq![]), cm_stmt(s, frames, acc)),
    decreases s,
{
    lemma_empty_left(acc);
    match s {
        StmtV::LocalDecl { names, values, .. } => lemma_exprs_acc(values, frames, acc),
        StmtV::Assign { targets, values, .. } => {
            lemma_exprs_acc(values, frames, acc);
            let r0 = cm_exprs(values, frames, seq![]);
            lemma_targets_acc(targets, r0.1, acc + r0.0);
            lemma_targets_acc(targets, r0.1, r0.0);
            lemma_assoc(acc, r0.0, cm_targets(targets, r0.1, seq![]));
        },
        StmtV::ExprStmt { expr } => lemma_expr_acc(expr, frames, acc),
        StmtV::Return { values, .. } => lemma_exprs_acc(values, frames, acc),
        StmtV::Do { body, .. } => lemma_block_acc(body, frames, acc),
        StmtV::While { condition, body, .. } => {
            lemma_expr_acc(condition, frames, acc);
            let r0 = cm_expr(condition, frames, seq![]);
            lemma_block_acc(body, r0.1, acc + r0.0);
            lemma_block_acc(body, r0.1, r0.0);
            lemma_chain(acc, r0, cm_block(body, r0.1, acc + r0.0), cm_block(body, r0.1, r0.0), cm_block(body, r0.1, seq![]));
        },
        StmtV::Repeat { body, condition, .. } => {
            lemma_block_acc(body, frames, acc);
            let r0 = cm_block(body, frames, seq![]);
            lemma_expr_acc(condition, r0.1, acc + r0.0);
            lemma_expr_acc(condition, r0.1, r0.0);
            lemma_chain(acc, r0, cm_expr(condition, r0.1, acc + r0.0), cm_expr(condition, r0.1, r0.0), cm_expr(condition, r0.1, seq![]));
        },
        StmtV::If { condition, then_block, elseifs, else_block, .. } => {
            lemma_expr_acc(condition, frames, acc);
            let r1 = cm_expr(condition, frames, seq![]);
            lemma_block_acc(then_block, r1.1, acc + r1.0);
            lemma_block_acc(then_block, r1.1, r1.0);
            let r2 = cm_block(then_block, r1.1, r1.0);
            lemma_chain(acc, r1, cm_block(then_block, r1.1, acc + r1.0), r2, cm_block(then_block, r1.1, seq![]));
            lemma_elseifs_acc(elseifs, r2.1, acc + r2.0);
            lemma_elseifs_acc(elseifs, r2.1, r2.0);
            let r3 = cm_elseifs(elseifs, r2.1, r2.0);
            lemma_chain(acc, r2, cm_elseifs(elseifs, r2.1, acc + r2.0), r3, cm_elseifs(elseifs, r2.1, seq![]));
            match else_block {
                Some(b) => {
                    lemma_block_acc(b, r3.1, acc + r3.0);
                    lemma_block_acc(b, r3.1, r3.0);
                    lemma_chain(acc, r3, cm_block(b, r3.1, acc + r3.0), cm_block(b, r3.1, r3.0), cm_block(b, r3.1, seq![]));
                },
                None => {},
            }
        },
        StmtV::NumericFor { start, limit, step, body, .. } => {
            lemma_expr_acc(start, frames, acc);
            let r1 = cm_expr(start, frames, seq![]);
            lemma_expr_acc(limit, r1.1, acc + r1.0);
            lemma_expr_acc(limit, r1.1, r1.0);
            let r2 = cm_expr(limit, r1.1, r1.0);
            lemma_chain(acc, r1, cm_expr(limit, r1.1, acc + r1.0), r2, cm_expr(limit, r1.1, seq![]));
            let r3 = match step {
                Some(x) => cm_expr(x, r2.1, r2.0),
                None => r2,
            };
            match step {
                Some(x) => {
                    lemma_expr_acc(x, r2.1, acc + r2.0);
                    lemma_expr_acc(x, r2.1, r2.0);
                    lemma_chain(acc, r2, cm_expr(x, r2.1, acc + r2.0), r3, cm_expr(x, r2.1, seq![]));
                },
                None => {},
            }
            lemma_block_acc(body, r3.1, acc + r3.0);
            lemma_block_acc(body, r3.1, r3.0);
            lemma_chain(acc, r3, cm_block(body, r3.1, acc + r3.0), cm_block(body, r3.1, r3.0), cm_block(body, r3.1, seq![]));
        },
        StmtV::GenericFor { iterators, body, .. } => {
            lemma_exprs_acc(iterators, frames, acc);
            let r0 = cm_exprs(iterators, frames, seq![]);
            lemma_block_acc(body, r0.1, acc + r0.0);
            lemma_block_acc(body, r0.1, r0.0);
            lemma_chain(acc, r0, cm_block(body, r0.1, acc + r0.0), cm_block(body, r0.1, r0.0), cm_block(body, r0.1, seq![]));
        },
        StmtV::FunctionDecl { func, .. } => lemma_func_acc(func, frames, acc),
        StmtV::LocalFunctionDecl { name, func, .. } => lemma_func_acc(func, bind_plain(frames, name), acc),
        _ => {},
    }
}

// ── Scopes left behind ──────────────────────────────────────────────────────

/// `out` has the scopes of `frames`, the innermost one possibly grown.
pub open spec fn keeps_outer(frames: Seq<FrameV>, out: Seq<FrameV>) -> bool {
    &&& out.len() == frames.len()
    &&& forall|i: int| 0 <= i < frames.len() - 1 ==> #[trigger] out[i] == frames[i]
}

proof fn lemma_register_outer(frames: Seq<FrameV>, names: Seq<crate::ast::LocalNameV>)
    ensures
        keeps_outer(frames, register(frames, names)),
    decreases names.len(),
{
    if frames.len() > 0 && names.len() > 0 {
        lemma_register_outer(frames, names.drop_last());
    }
}

proof fn lemma_keeps_outer_trans(a: Seq<FrameV>, b: Seq<FrameV>, c: Seq<FrameV>)
    requires
        keeps_outer(a, b),
        keeps_outer(b, c),
    ensures
        keeps_outer(a, c),
{
    assert forall|i: int| 0 <= i < a.len() - 1 implies #[trigger] c[i] == a[i] by {
        assert(c[i] == b[i]);
    }
}

proof fn lemma_expr_frames(e: ExprV, frames: Seq<FrameV>, acc: Seq<DiagnosticView>)
    ensures
        cm_expr(e, frames, acc).1 == frames,
    decreases e,
{
    match e {
        ExprV::Function { func } => lemma_func_frames(func, frames, acc),
        ExprV::Call { func, args, .. } => {
            lemma_expr_frames(*func, frames, acc);
            let r = cm_expr(*func, frames, acc);
            lemma_exprs_frames(args, r.1, r.0);
        },
        ExprV::MethodCall { obj, args, .. } => {
            lemma_expr_frames(*obj, frames, acc);
            let r = cm_expr(*obj, frames, acc);
            lemma_exprs_frames(args, r.1, r.0);
        },
        ExprV::Table { fields, .. } => lemma_fields_frames(fields, frames, acc),
        ExprV::BinOp { lhs, rhs, .. } => {
            lemma_expr_frames(*lhs, frames, acc);
            let r = cm_expr(*lhs, frames, acc);
            lemma_expr_frames(*rhs, r.1, r.0);
        },
        ExprV::UnOp { operand, .. } => lemma_expr_frames(*operand, frames, acc),
        ExprV::Index { base, .. } => lemma_expr_frames(*base, frames, acc),
        ExprV::IndexExpr { base, key, .. } => {
            lemma_expr_frames(*base, frames, acc);
            let r = cm_expr(*base, frames, acc);
            lemma_expr_frames(*key, r.1, r.0);
        },
        _ => {},
    }
}

proof fn lemma_exprs_frames(s: Seq<ExprV>, frames: Seq<FrameV>, acc: Seq<DiagnosticView>)
    ensures
        cm_exprs(s, frames, acc).1 == frames,
    decreases s,
{
    if s.len() > 0 {
        lemma_exprs_frames(s.drop_last(), frames, acc);
        let r = cm_exprs(s.drop_last(), frames, acc);
        lemma_expr_frames(s.last(), r.1, r.0);
    }
}

proof fn lemma_field_frames(x: FieldV, frames: Seq<FrameV>, acc: Seq<DiagnosticView>)
    ensures
        cm_field(x, frames, acc).1 == frames,
    decreases x,
{
    match x {
        FieldV::ExprKey { key, value, .. } => {
            lemma_expr_frames(key, frames, acc);
            let r = cm_expr(key, frames, acc);
            lemma_expr_frames(value, r.1, r.0);
        },
        FieldV::NameKey { value, .. } => lemma_expr_frames(value, frames, acc),
        FieldV::Positional { value } => lemma_expr_frames(value, frames, acc),
    }
}

proof fn lemma_fields_frames(s: Seq<FieldV>, frames: Seq<FrameV>, acc: Seq<DiagnosticView>)
    ensures
        cm_fields(s, frames, acc).1 == frames,
    decreases s,
{
    if s.len() > 0 {
        lemma_fields_frames(s.drop_last(), frames, acc);
        let r = cm_fields(s.drop_last(), frames, acc);
        lemma_field_frames(s.last(), r.1, r.0);
    }
}

proof fn lemma_pop_pushed(frames: Seq<FrameV>, top: FrameV, out: Seq<FrameV>)
    requires
        keeps_outer(frames.push(top), out),
    ensures
        out.drop_last() == frames,
{
    assert forall|i: int| 0 <= i < frames.len() implies #[trigger] out.drop_last()[i] == frames[i] by {
        assert(out[i] == frames.push(top)[i]);
    }
    assert(out.drop_last() =~= frames);
}

proof fn lemma_func_frames(f: FuncV, frames: Seq<FrameV>, acc: Seq<DiagnosticView>)
    ensures
        cm_func(f, frames, acc).1 == frames,
    decreases f,
{
    let g = frames.push(param_frame(f.params));
    lemma_stmts_frames(f.body.stmts, g, acc);
    lemma_pop_pushed(frames, param_frame(f.params), cm_stmts(f.body.stmts, g, acc).1);
}

proof fn lemma_block_frames(b: BlockV, frames: Seq<FrameV>, acc: Seq<DiagnosticView>)
    ensures
        cm_block(b, frames, acc).1 == frames,
    decreases b,
{
    let g = frames.push(Seq::empty());
    lemma_stmts_frames(b.stmts, g, acc);
    lemma_pop_pushed(frames, Seq::empty(), cm_stmts(b.stmts, g, acc).1);
}

proof fn lemma_stmts_frames(s: Seq<StmtV>, frames: Seq<FrameV>, acc: Seq<DiagnosticView>)
    ensures
        keeps_outer(frames, cm_stmts(s, frames, acc).1),
    decreases s,
{
    if s.len() > 0 {
        lemma_stmts_frames(s.drop_last(), frames, acc);
        let r = cm_stmts(s.drop_last(), frames, acc);
        lemma_stmt_frames(s.last(), r.1, r.0);
        lemma_keeps_outer_trans(frames, r.1, cm_stmt(s.last(), r.1, r.0).1);
    }
}

proof fn lemma_elseif_frames(x: ElseIfV, frames: Seq<FrameV>, acc: Seq<DiagnosticView>)
    ensures
        cm_elseif(x, frames, acc).1 == frames,
    decreases x,
{
    lemma_expr_frames(x.condition, frames, acc);
    let r = cm_expr(x.condition, frames, acc);
    lemma_block_frames(x.body, r.1, r.0);
}

proof fn lemma_elseifs_frames(s: Seq<ElseIfV>, frames: Seq<FrameV>, acc: Seq<DiagnosticView>)
    ensures
        cm_elseifs(s, frames, acc).1 == frames,
    decreases s,
{
    if s.len() > 0 {
        lemma_elseifs_frames(s.drop_last(), frames, acc);
        let r = cm_elseifs(s.drop_last(), frames, acc);
        lemma_elseif_frames(s.last(), r.1, r.0);
    }
}

#[verifier::rlimit(30)]
proof fn lemma_stmt_frames(s: StmtV, frames: Seq<FrameV>, acc: Seq<DiagnosticView>)
    ensures
        keeps_outer(frames, cm_stmt(s, frames, acc).1),
    decreases s,
{
    match s {
        StmtV::LocalDecl { names, values, .. } => {
            lemma_exprs_frames(values, frames, acc);
            lemma_register_outer(frames, names);
        },
        StmtV::Assign { values, .. } => lemma_exprs_frames(values, frames, acc),
        StmtV::ExprStmt { expr } => lemma_expr_frames(expr, frames, acc),
        StmtV::Return { values, .. } => lemma_exprs_frames(values, frames, acc),
        StmtV::Do { body, .. } => lemma_block_frames(body, frames, acc),
        StmtV::While { condition, body, .. } => {
            lemma_expr_frames(condition, frames, acc);
            let r = cm_expr(condition, frames, acc);
            lemma_block_frames(body, r.1, r.0);
        },
        StmtV::Repeat { body, condition, .. } => {
            lemma_block_frames(body, frames, acc);
            let r = cm_block(body, frames, acc);
            lemma_expr_frames(condition, r.1, r.0);
        },
        StmtV::If { condition, then_block, elseifs, else_block, .. } => {
            lemma_expr_frames(condition, frames, acc);
            let r1 = cm_expr(condition, frames, acc);
            lemma_block_frames(then_block, r1.1, r1.0);
            let r2 = cm_block(then_block, r1.1, r1.0);
            lemma_elseifs_frames(elseifs, r2.1, r2.0);
            let r3 = cm_elseifs(elseifs, r2.1, r2.0);
            match else_block {
                Some(b) => lemma_block_frames(b, r3.1, r3.0),
                None => {},
            }
        },
        StmtV::NumericFor { start, limit, step, body, .. } => {
            lemma_expr_frames(start, frames, acc);
            let r1 = cm_expr(start, frames, acc);
            lemma_expr_frames(limit, r1.1, r1.0);
            let r2 = cm_expr(limit, r1.1, r1.0);
            match step {
                Some(x) => lemma_expr_frames(x, r2.1, r2.0),
                None => {},
            }
            let r3 = match step {
                Some(x) => cm_expr(x, r2.1, r2.0),
                None => r2,
            };
            lemma_block_frames(body, r3.1, r3.0);
        },
        StmtV::GenericFor { iterators, body, .. } => {
            lemma_exprs_frames(iterators, frames, acc);
            let r = cm_exprs(iterators, frames, acc);
            lemma_block_frames(body, r.1, r.0);
        },
        StmtV::FunctionDecl { func, .. } => lemma_func_frames(func, frames, acc),
        StmtV::LocalFunctionDecl { name, func, .. } => lemma_func_frames(func, bind_plain(frames, name), acc),
        _ => {},
    }
}

// ── Reports reach out of nested blocks ─────────────────────────────────────

/// The blocks a statement holds directly: the body of `do`, `while`,
/// `repeat` and both `for` loops, and every branch of an `if`.
pub open spec fn nested_blocks(s: StmtV) -> Seq<BlockV> {
    match s {
        StmtV::Do { body, .. } => seq![body],
        StmtV::While { body, .. } => seq![body],
        StmtV::Repeat { body, .. } => seq![body],
        StmtV::NumericFor { body, .. } => seq![body],
        StmtV::GenericFor { body, .. } => seq![body],
        StmtV::If { then_block, elseifs, else_block, .. } => seq![then_block] + elseifs.map_values(
            |x: ElseIfV| x.body,
        ) + match else_block {
            Some(b) => seq![b],
            None => Seq::empty(),
        },
        _ => Seq::empty(),
    }
}

proof fn lemma_contains_right(a: Seq<DiagnosticView>, b: Seq<DiagnosticView>, d: DiagnosticView)
    requires
        b.contains(d),
    ensures
        (a + b).contains(d),
{
    let k = choose|k: int| 0 <= k < b.len() && b[k] == d;
    assert((a + b)[a.len() + k] == d);
}

proof fn lemma_contains_left(a: Seq<DiagnosticView>, b: Seq<DiagnosticView>, d: DiagnosticView)
    requires
        a.contains(d),
    ensures
        (a + b).contains(d),
{
    let k = choose|k: int| 0 <= k < a.len() && a[k] == d;
    assert((a + b)[k] == d);
}

/// A block checked from `frames` after `acc` reports what it reports alone.
proof fn lemma_block_in_context(b: BlockV, frames: Seq<FrameV>, acc: Seq<DiagnosticView>, d: DiagnosticView)
    requires
        cm_block(b, frames, seq![]).0.contains(d),
    ensures
        cm_block(b, frames, acc).0.contains(d),
{
    lemma_block_acc(b, frames, acc);
    lemma_contains_right(acc, cm_block(b, frames, seq![]).0, d);
}

proof fn lemma_elseifs_report(s: Seq<ElseIfV>, j: int, frames: Seq<FrameV>, acc: Seq<DiagnosticView>, d: DiagnosticView)
    requires
        0 <= j < s.len(),
        cm_block(s[j].body, frames, seq![]).0.contains(d),
    ensures
        cm_elseifs(s, frames, acc).0.contains(d),
    decreases s.len(),
{
    let r = cm_elseifs(s.drop_last(), frames, acc);
    lemma_elseifs_frames(s.drop_last(), frames, acc);
    let x = s.last();
    lemma_expr_frames(x.condition, r.1, r.0);
    let c = cm_expr(x.condition, r.1, r.0);
    assert(cm_elseifs(s, frames, acc) == cm_elseif(x, r.1, r.0));
    assert(cm_elseif(x, r.1, r.0) == cm_block(x.body, c.1, c.0));
    if j == s.len() - 1 {
        lemma_block_in_context(x.body, frames, c.0, d);
    } else {
        assert(s.drop_last()[j] == s[j]);
        lemma_elseifs_report(s.drop_last(), j, frames, acc, d);
        lemma_expr_acc(x.condition, r.1, r.0);
        lemma_contains_left(r.0, cm_expr(x.condition, r.1, seq![]).0, d);
        lemma_block_acc(x.body, c.1, c.0);
        lemma_contains_left(c.0, cm_block(x.body, c.1, seq![]).0, d);
    }
}

/// Nesting keeps what is reported: whatever the check reports inside a
/// block that a statement holds (a loop body, a `do` block, a branch of an
/// `if`), checked from the scopes around the statement, it also reports for
/// the statement, whatever was reported before it.
#[verifier::rlimit(40)]
pub proof fn lemma_nested_block_reports(
    s: StmtV,
    i: int,
    frames: Seq<FrameV>,
    acc: Seq<DiagnosticView>,
    d: DiagnosticView,
)
    requires
        0 <= i < nested_blocks(s).len(),
        cm_block(nested_blocks(s)[i], frames, seq![]).0.contains(d),
    ensures
        cm_stmt(s, frames, acc).0.contains(d),
{
    match s {
        StmtV::Do { body, .. } => lemma_block_in_context(body, frames, acc, d),
        StmtV::While { condition, body, .. } => {
            lemma_expr_frames(condition, frames, acc);
            let r = cm_expr(condition, frames, acc);
            lemma_block_in_context(body, frames, r.0, d);
        },
        StmtV::Repeat { body, condition, .. } => {
            lemma_block_in_context(body, frames, acc, d);
            lemma_block_frames(body, frames, acc);
            let r = cm_block(body, frames, acc);
            lemma_expr_acc(condition, r.1, r.0);
            lemma_contains_left(r.0, cm_expr(condition, r.1, seq![]).0, d);
        },
        StmtV::NumericFor { start, limit, step, body, .. } => {
            lemma_expr_frames(start, frames, acc);
            let r1 = cm_expr(start, frames, acc);
            lemma_expr_frames(limit, r1.1, r1.0);
            let r2 = cm_expr(limit, r1.1, r1.0);
            match step {
                Some(x) => lemma_expr_frames(x, r2.1, r2.0),
                None => {},
            }
            let r3 = match step {
                Some(x) => cm_expr(x, r2.1, r2.0),
                None => r2,
            };
            lemma_block_in_context(body, frames, r3.0, d);
        },
        StmtV::GenericFor { iterators, body, .. } => {
            lemma_exprs_frames(iterators, frames, acc);
            let r = cm_exprs(iterators, frames, acc);
            lemma_block_in_context(body, frames, r.0, d);
        },
        StmtV::If { condition, then_block, elseifs, else_block, .. } => {
            let bodies = elseifs.map_values(|x: ElseIfV| x.body);
            let tail: Seq<BlockV> = match else_block {
                Some(b) => seq![b],
                None => Seq::empty(),
            };
            assert(nested_blocks(s) == seq![then_block] + bodies + tail);
            lemma_expr_frames(condition, frames, acc);
            let r1 = cm_expr(condition, frames, acc);
            lemma_block_frames(then_block, r1.1, r1.0);
            let r2 = cm_block(then_block, r1.1, r1.0);
            lemma_elseifs_frames(elseifs, r2.1, r2.0);
            let r3 = cm_elseifs(elseifs, r2.1, r2.0);
            if i == 0 {
                assert(nested_blocks(s)[0] == then_block);
                lemma_block_in_context(then_block, frames, r1.0, d);
                lemma_elseifs_acc(elseifs, r2.1, r2.0);
                lemma_contains_left(r2.0, cm_elseifs(elseifs, r2.1, seq![]).0, d);
            } else if i <= elseifs.len() {
                assert(nested_blocks(s)[i] == bodies[i - 1]);
                assert(bodies[i - 1] == elseifs[i - 1].body);
                lemma_elseifs_report(elseifs, i - 1, frames, r2.0, d);
            } else {
                assert(nested_blocks(s)[i] == tail[i - 1 - elseifs.len()]);
            }
            if i <= elseifs.len() {
                match else_block {
                    Some(b) => {
                        lemma_block_acc(b, r3.1, r3.0);
                        lemma_contains_left(r3.0, cm_block(b, r3.1, seq![]).0, d);
                    },
                    None => {},
                }
            } else {
                match else_block {
                    Some(b) => lemma_block_in_context(b, frames, r3.0, d),
                    None => {},
                }
            }
        },
        _ => {},
    }
}

proof fn lemma_stmts_opening_reports(s: Seq<StmtV>, frames: Seq<FrameV>, acc: Seq<DiagnosticView>, d: DiagnosticView)
    requires
        s.len() > 0,
        cm_stmt(s[0], frames, seq![]).0.contains(d),
    ensures
        cm_stmts(s, frames, acc).0.contains(d),
    decreases s.len(),
{
    if s.len() == 1 {
        assert(s.drop_last().len() == 0);
        assert(cm_stmts(s.drop_last(), frames, acc) == (acc, frames));
        assert(s.last() == s[0]);
        assert(cm_stmts(s, frames, acc) == cm_stmt(s[0], frames, acc));
        lemma_stmt_acc(s[0], frames, acc);
        lemma_contains_right(acc, cm_stmt(s[0], frames, seq![]).0, d);
    } else {
        assert(s.drop_last()[0] == s[0]);
        lemma_stmts_opening_reports(s.drop_last(), frames, acc, d);
        let r = cm_stmts(s.drop_last(), frames, acc);
        lemma_stmt_acc(s.last(), r.1, r.0);
        lemma_contains_left(r.0, cm_stmt(s.last(), r.1, seq![]).0, d);
    }
}

/// What the check reports for the first statement of a block, checked in
/// the block's own new scope, it reports for the block, whatever was
/// reported before it.
pub proof fn lemma_block_opening_reports(b: BlockV, frames: Seq<FrameV>, acc: Seq<DiagnosticView>, d: DiagnosticView)
    requires
        b.stmts.len() > 0,
        cm_stmt(b.stmts[0], frames.push(Seq::empty()), seq![]).0.contains(d),
    ensures
        cm_block(b, frames, acc).0.contains(d),
{
    lemma_stmts_opening_reports(b.stmts, frames.push(Seq::empty()), acc, d);
}

proof fn lemma_targets_report(targets: Seq<ExprV>, k: int, frames: Seq<FrameV>, acc: Seq<DiagnosticView>, x: Seq<char>, span: Span, decl: Span)
    requires
        0 <= k < targets.len(),
        targets[k] == (ExprV::Name { name: x, span }),
        find_const(frames, x) == Some(decl),
    ensures
        cm_targets(targets, frames, acc).contains(e0301_diag(x, span, decl)),
    decreases targets.len(),
{
    let before = cm_targets(targets.drop_last(), frames, acc);
    let d = e0301_diag(x, span, decl);
    if k == targets.len() - 1 {
        assert(before.push(d)[before.len() as int] == d);
    } else {
        assert(targets.drop_last()[k] == targets[k]);
        lemma_targets_report(targets.drop_last(), k, frames, acc, x, span, decl);
        let w = choose|w: int| 0 <= w < before.len() && before[w] == d;
        match targets.last() {
            ExprV::Name { name, span: s2 } => match find_const(frames, name) {
                Some(decl2) => {
                    assert(before.push(e0301_diag(name, s2, decl2))[w] == d);
                },
                None => {},
            },
            _ => {},
        }
    }
}

/// An assignment reports every target that is a name whose innermost
/// binding in scope is a `<const>` local, with that declaration's span.
pub proof fn lemma_assignment_reports(
    targets: Seq<ExprV>,
    values: Seq<ExprV>,
    aspan: Span,
    k: int,
    frames: Seq<FrameV>,
    acc: Seq<DiagnosticView>,
    x: Seq<char>,
    span: Span,
    decl: Span,
)
    requires
        0 <= k < targets.len(),
        targets[k] == (ExprV::Name { name: x, span }),
        find_const(frames, x) == Some(decl),
    ensures
        cm_stmt(StmtV::Assign { targets, values, span: aspan }, frames, acc).0.contains(
            e0301_diag(x, span, decl),
        ),
{
    lemma_exprs_frames(values, frames, acc);
    let r = cm_exprs(values, frames, acc);
    lemma_targets_report(targets, k, frames, r.0, x, span, decl);
}

/// An assignment to a `<const>` local is reported from inside any block a
/// statement holds: a statement whose loop body, `do` block or `if` branch
/// opens with an assignment to a name whose innermost binding around the
/// statement is `<const>` gets an E0301 for that name, pointing at the
/// declaration. Applied again to the block, this reaches any depth.
pub proof fn lemma_const_assignment_in_nested_block(
    s: StmtV,
    i: int,
    k: int,
    frames: Seq<FrameV>,
    acc: Seq<DiagnosticView>,
    x: Seq<char>,
    span: Span,
    decl: Span,
)
    requires
        0 <= i < nested_blocks(s).len(),
        nested_blocks(s)[i].stmts.len() > 0,
        nested_blocks(s)[i].stmts[0] matches StmtV::Assign { targets, .. } && 0 <= k < targets.len()
            && targets[k] == (ExprV::Name { name: x, span }),
        find_const(frames, x) == Some(decl),
    ensures
        cm_stmt(s, frames, acc).0.contains(e0301_diag(x, span, decl)),
{
    let b = nested_blocks(s)[i];
    let inner = frames.push(Seq::<(Seq<char>, Option<Span>)>::empty());
    assert(frame_lookup(inner.last(), x) is None);
    assert(inner.drop_last() =~= frames);
    assert(find_const(inner, x) == Some(decl));
    match b.stmts[0] {
        StmtV::Assign { targets, values, span: aspan } => {
            lemma_assignment_reports(targets, values, aspan, k, inner, seq![], x, span, decl);
        },
        _ => {},
    }
    lemma_block_opening_reports(b, frames, seq![], e0301_diag(x, span, decl));
    lemma_nested_block_reports(s, i, frames, acc, e0301_diag(x, span, decl));
}

/// A chunk that declares `x` as `<const>` and then holds a statement whose
/// loop body, `do` block or `if` branch opens with an assignment to `x` is
/// refused: checking it reports an E0301 for that assignment.
pub proof fn lemma_chunk_reports_nested_const_assignment(
    b: BlockV,
    x: Seq<char>,
    dspan: Span,
    values: Seq<ExprV>,
    lspan: Span,
    s: StmtV,
    i: int,
    k: int,
    span: Span,
)
    requires
        b.stmts == seq![
            StmtV::LocalDecl {
                names: seq![
                    crate::ast::LocalNameV {
                        name: x,
                        attribute: Some(crate::ast::Attribute::Const),
                        span: dspan,
                    },
                ],
                values,
                span: lspan,
            },
            s,
        ],
        0 <= i < nested_blocks(s).len(),
        nested_blocks(s)[i].stmts.len() > 0,
        nested_blocks(s)[i].stmts[0] matches StmtV::Assign { targets, .. } && 0 <= k < targets.len()
            && targets[k] == (ExprV::Name { name: x, span }),
    ensures
        cm_block(b, seq![], seq![]).0.contains(e0301_diag(x, span, dspan)),
{
    let names = seq![
        crate::ast::LocalNameV {
            name: x,
            attribute: Some(crate::ast::Attribute::Const),
            span: dspan,
        },
    ];
    let f0: Seq<FrameV> = seq![Seq::empty()];
    assert(Seq::<FrameV>::empty().push(Seq::empty()) =~= f0);
    lemma_exprs_frames(values, Seq::<FrameV>::empty().push(Seq::empty()), seq![]);
    let r = cm_exprs(values, Seq::<FrameV>::empty().push(Seq::empty()), seq![]);
    assert(names.drop_last() =~= Seq::<crate::ast::LocalNameV>::empty());
    let fr = register(r.1, names);
    assert(register(r.1, names.drop_last()) == r.1);
    assert(r.1.len() == 1);
    assert(fr.last() == r.1.last().push((x, Some(dspan))));
    assert(fr.last().last() == (x, Some(dspan)));
    assert(frame_lookup(fr.last(), x) == Some(Some(dspan)));
    assert(find_const(fr, x) == Some(dspan));
    let d0 = b.stmts[0];
    let g = Seq::<FrameV>::empty().push(Seq::empty());
    assert(cm_stmt(d0, g, seq![]) == (r.0, fr));
    let st = b.stmts;
    assert(st.drop_last() =~= seq![d0]);
    assert(seq![d0].drop_last() =~= Seq::<StmtV>::empty());
    assert(seq![d0].last() == d0);
    assert(cm_stmts(seq![d0].drop_last(), g, seq![]) == (Seq::<DiagnosticView>::empty(), g));
    assert(cm_stmts(seq![d0], g, seq![]) == (r.0, fr));
    lemma_const_assignment_in_nested_block(s, i, k, fr, r.0, x, span, dspan);
    assert(st.last() == s);
}

} // verus!
