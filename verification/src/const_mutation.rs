//! E0301: reassignment of `<const>` locals.

use vstd::prelude::*;
use vstd::string::StringExecFns;

use crate::ast::{
    lemma_view_exprs, view_block, view_elseif, view_elseifs, view_expr, view_exprs, view_field,
    view_fields, view_func, view_local_names, view_params, view_stmt, view_stmts, Assign,
    Attribute, Block, BlockV, Call, ElseIf, ElseIfV, ExprV, Expression, FieldV, FuncV,
    FunctionBody, LocalDecl, LocalNameV, Statement, StmtV, TableField,
};
use crate::diagnostics::{Diagnostic, DiagnosticView, Severity, Span};
use crate::transformer::{
    lemma_elseifs_prefix, lemma_exprs_prefix, lemma_fields_prefix, lemma_push_drop,
    lemma_stmts_prefix,
};
use crate::lint::Lint;
use crate::unsupported::view_diags;

verus! {

/// One lexical scope: declared names in declaration order, each with the
/// span of its `<const>` declaration, or `None` when the name is not const.
pub type FrameV = Seq<(Seq<char>, Option<Span>)>;

/// The innermost binding of `name` in a scope, if it has one.
pub open spec fn frame_lookup(frame: FrameV, name: Seq<char>) -> Option<Option<Span>>
    decreases frame.len(),
{
    if frame.len() == 0 {
        None
    } else if frame.last().0 == name {
        Some(frame.last().1)
    } else {
        frame_lookup(frame.drop_last(), name)
    }
}

/// The span of the `<const>` declaration that `name` refers to, if the
/// innermost binding of `name` is const.
pub open spec fn find_const(frames: Seq<FrameV>, name: Seq<char>) -> Option<Span>
    decreases frames.len(),
{
    if frames.len() == 0 {
        None
    } else {
        match frame_lookup(frames.last(), name) {
            Some(entry) => entry,
            None => find_const(frames.drop_last(), name),
        }
    }
}

/// `frames` with the names of a declaration added to the innermost scope.
pub open spec fn register(frames: Seq<FrameV>, names: Seq<LocalNameV>) -> Seq<FrameV>
    decreases names.len(),
{
    if frames.len() == 0 || names.len() == 0 {
        frames
    } else {
        let before = register(frames, names.drop_last());
        let n = names.last();
        before.update(
            before.len() - 1,
            before.last().push(
                (
                    n.name,
                    if n.attribute == Some(Attribute::Const) {
                        Some(n.span)
                    } else {
                        None
                    },
                ),
            ),
        )
    }
}

/// Scopes with `name` bound as a plain (non-const) local in the innermost one.
pub open spec fn bind_plain(frames: Seq<FrameV>, name: Seq<char>) -> Seq<FrameV> {
    if frames.len() == 0 {
        frames
    } else {
        frames.update(frames.len() - 1, frames.last().push((name, None)))
    }
}

/// The scope opened by a function body: its parameters, none of them const.
pub open spec fn param_frame(params: Seq<(Seq<char>, Span)>) -> FrameV {
    params.map_values(|p: (Seq<char>, Span)| (p.0, None::<Span>))
}

pub open spec fn e0301_diag(name: Seq<char>, span: Span, decl: Span) -> DiagnosticView {
    DiagnosticView {
        severity: Severity::Error,
        message: "assignment to const variable `"@ + name + "`"@,
        span,
        code: Some("E0301"@),
        suggestion: Some(
            "Remove the assignment or remove the <const> attribute from the declaration"@,
        ),
        notes: seq![
            "`"@ + name
                + "` was declared with <const>; Lua 5.4 treats this as a compile-time constant"@,
        ],
        secondary_labels: seq![(decl, "declared as const here"@)],
    }
}

/// `acc` followed by one E0301 for each assignment target that names a const local.
pub open spec fn cm_targets(targets: Seq<ExprV>, frames: Seq<FrameV>, acc: Seq<DiagnosticView>) -> Seq<DiagnosticView>
    decreases targets.len(),
{
    if targets.len() == 0 {
        acc
    } else {
        let before = cm_targets(targets.drop_last(), frames, acc);
        match targets.last() {
            ExprV::Name { name, span } => match find_const(frames, name) {
                Some(decl) => before.push(e0301_diag(name, span, decl)),
                None => before,
            },
            _ => before,
        }
    }
}

/// Diagnostics and scopes after the closures inside an expression are checked.
pub open spec fn cm_expr(e: ExprV, frames: Seq<FrameV>, acc: Seq<DiagnosticView>) -> (Seq<DiagnosticView>, Seq<FrameV>)
    decreases e,
{
    match e {
        ExprV::Function { func } => cm_func(func, frames, acc),
        ExprV::Call { func, args, .. } => {
            let r = cm_expr(*func, frames, acc);
            cm_exprs(args, r.1, r.0)
        },
        ExprV::MethodCall { obj, args, .. } => {
            let r = cm_expr(*obj, frames, acc);
            cm_exprs(args, r.1, r.0)
        },
        ExprV::Table { fields, .. } => cm_fields(fields, frames, acc),
        ExprV::BinOp { lhs, rhs, .. } => {
            let r = cm_expr(*lhs, frames, acc);
            cm_expr(*rhs, r.1, r.0)
        },
        ExprV::UnOp { operand, .. } => cm_expr(*operand, frames, acc),
        ExprV::Index { base, .. } => cm_expr(*base, frames, acc),
        ExprV::IndexExpr { base, key, .. } => {
            let r = cm_expr(*base, frames, acc);
            cm_expr(*key, r.1, r.0)
        },
        _ => (acc, frames),
    }
}

pub open spec fn cm_exprs(s: Seq<ExprV>, frames: Seq<FrameV>, acc: Seq<DiagnosticView>) -> (Seq<DiagnosticView>, Seq<FrameV>)
    decreases s,
{
    if s.len() == 0 {
        (acc, frames)
    } else {
        let r = cm_exprs(s.drop_last(), frames, acc);
        cm_expr(s.last(), r.1, r.0)
    }
}

pub open spec fn cm_field(x: FieldV, frames: Seq<FrameV>, acc: Seq<DiagnosticView>) -> (Seq<DiagnosticView>, Seq<FrameV>)
    decreases x,
{
    match x {
        FieldV::ExprKey { key, value, .. } => {
            let r = cm_expr(key, frames, acc);
            cm_expr(value, r.1, r.0)
        },
        FieldV::NameKey { value, .. } => cm_expr(value, frames, acc),
        FieldV::Positional { value } => cm_expr(value, frames, acc),
    }
}

pub open spec fn cm_fields(s: Seq<FieldV>, frames: Seq<FrameV>, acc: Seq<DiagnosticView>) -> (Seq<DiagnosticView>, Seq<FrameV>)
    decreases s,
{
    if s.len() == 0 {
        (acc, frames)
    } else {
        let r = cm_fields(s.drop_last(), frames, acc);
        cm_field(s.last(), r.1, r.0)
    }
}

/// A function body is checked in a new scope holding its parameters.
pub open spec fn cm_func(f: FuncV, frames: Seq<FrameV>, acc: Seq<DiagnosticView>) -> (Seq<DiagnosticView>, Seq<FrameV>)
    decreases f,
{
    let r = cm_stmts(f.body.stmts, frames.push(param_frame(f.params)), acc);
    (r.0, r.1.drop_last())
}

/// A block is checked in a new, empty scope.
pub open spec fn cm_block(b: BlockV, frames: Seq<FrameV>, acc: Seq<DiagnosticView>) -> (Seq<DiagnosticView>, Seq<FrameV>)
    decreases b,
{
    let r = cm_stmts(b.stmts, frames.push(Seq::empty()), acc);
    (r.0, r.1.drop_last())
}

pub open spec fn cm_stmts(s: Seq<StmtV>, frames: Seq<FrameV>, acc: Seq<DiagnosticView>) -> (Seq<DiagnosticView>, Seq<FrameV>)
    decreases s,
{
    if s.len() == 0 {
        (acc, frames)
    } else {
        let r = cm_stmts(s.drop_last(), frames, acc);
        cm_stmt(s.last(), r.1, r.0)
    }
}

pub open spec fn cm_elseif(x: ElseIfV, frames: Seq<FrameV>, acc: Seq<DiagnosticView>) -> (Seq<DiagnosticView>, Seq<FrameV>)
    decreases x,
{
    let r = cm_expr(x.condition, frames, acc);
    cm_block(x.body, r.1, r.0)
}

pub open spec fn cm_elseifs(s: Seq<ElseIfV>, frames: Seq<FrameV>, acc: Seq<DiagnosticView>) -> (Seq<DiagnosticView>, Seq<FrameV>)
    decreases s,
{
    if s.len() == 0 {
        (acc, frames)
    } else {
        let r = cm_elseifs(s.drop_last(), frames, acc);
        cm_elseif(s.last(), r.1, r.0)
    }
}

/// Diagnostics and scopes after a statement is checked. A declaration's
/// values are checked before its names come into scope; a local function's
/// name is in scope, as a plain local, from its own body on; the variables
/// of a `for` loop are not bound.
pub open spec fn cm_stmt(s: StmtV, frames: Seq<FrameV>, acc: Seq<DiagnosticView>) -> (Seq<DiagnosticView>, Seq<FrameV>)
    decreases s,
{
    match s {
        StmtV::LocalDecl { names, values, .. } => {
            let r = cm_exprs(values, frames, acc);
            (r.0, register(r.1, names))
        },
        StmtV::Assign { targets, values, .. } => {
            let r = cm_exprs(values, frames, acc);
            (cm_targets(targets, r.1, r.0), r.1)
        },
        StmtV::ExprStmt { expr } => cm_expr(expr, frames, acc),
        StmtV::Return { values, .. } => cm_exprs(values, frames, acc),
        StmtV::Do { body, .. } => cm_block(body, frames, acc),
        StmtV::While { condition, body, .. } => {
            let r = cm_expr(condition, frames, acc);
            cm_block(body, r.1, r.0)
        },
        StmtV::Repeat { body, condition, .. } => {
            let r = cm_block(body, frames, acc);
            cm_expr(condition, r.1, r.0)
        },
        StmtV::If { condition, then_block, elseifs, else_block, .. } => {
            let r1 = cm_expr(condition, frames, acc);
            let r2 = cm_block(then_block, r1.1, r1.0);
            let r3 = cm_elseifs(elseifs, r2.1, r2.0);
            match else_block {
                Some(b) => cm_block(b, r3.1, r3.0),
                None => r3,
            }
        },
        StmtV::NumericFor { start, limit, step, body, .. } => {
            let r1 = cm_expr(start, frames, acc);
            let r2 = cm_expr(limit, r1.1, r1.0);
            let r3 = match step {
                Some(x) => cm_expr(x, r2.1, r2.0),
                None => r2,
            };
            cm_block(body, r3.1, r3.0)
        },
        StmtV::GenericFor { iterators, body, .. } => {
            let r = cm_exprs(iterators, frames, acc);
            cm_block(body, r.1, r.0)
        },
        StmtV::FunctionDecl { func, .. } => cm_func(func, frames, acc),
        StmtV::LocalFunctionDecl { name, func, .. } => cm_func(func, bind_plain(frames, name), acc),
        _ => (acc, frames),
    }
}

// ── Shape of the reported diagnostics ───────────────────────────────────────

/// The variable an E0301 diagnostic names, read back from its message.
pub open spec fn e0301_name(d: DiagnosticView) -> Seq<char> {
    d.message.subrange(30, d.message.len() - 1)
}

/// `d` is an E0301 diagnostic for the variable its message names.
pub open spec fn e0301_shaped(d: DiagnosticView) -> bool {
    &&& d.secondary_labels.len() == 1
    &&& d.message.len() >= 31
    &&& d == e0301_diag(e0301_name(d), d.span, d.secondary_labels[0].0)
}

pub open spec fn all_e0301(s: Seq<DiagnosticView>) -> bool {
    forall|i: int| 0 <= i < s.len() ==> #[trigger] e0301_shaped(s[i])
}

proof fn lemma_e0301_shaped(name: Seq<char>, span: Span, decl: Span)
    ensures
        e0301_shaped(e0301_diag(name, span, decl)),
{
    reveal_strlit("assignment to const variable `");
    reveal_strlit("`");
    let d = e0301_diag(name, span, decl);
    assert(d.message.len() == 31 + name.len());
    assert(e0301_name(d) =~= name);
}

proof fn lemma_push_e0301(acc: Seq<DiagnosticView>, d: DiagnosticView)
    requires
        all_e0301(acc),
        e0301_shaped(d),
    ensures
        all_e0301(acc.push(d)),
{
    assert forall|i: int| 0 <= i < acc.push(d).len() implies #[trigger] e0301_shaped(acc.push(d)[i]) by {
        if i < acc.len() {
            assert(acc.push(d)[i] == acc[i]);
        }
    }
}

proof fn lemma_cm_targets(targets: Seq<ExprV>, frames: Seq<FrameV>, acc: Seq<DiagnosticView>)
    requires
        all_e0301(acc),
    ensures
        all_e0301(cm_targets(targets, frames, acc)),
    decreases targets.len(),
{
    if targets.len() > 0 {
        lemma_cm_targets(targets.drop_last(), frames, acc);
        let before = cm_targets(targets.drop_last(), frames, acc);
        match targets.last() {
            ExprV::Name { name, span } => match find_const(frames, name) {
                Some(decl) => {
                    lemma_e0301_shaped(name, span, decl);
                    lemma_push_e0301(before, e0301_diag(name, span, decl));
                },
                None => {},
            },
            _ => {},
        }
    }
}

proof fn lemma_cm_expr(e: ExprV, frames: Seq<FrameV>, acc: Seq<DiagnosticView>)
    requires
        all_e0301(acc),
    ensures
        all_e0301(cm_expr(e, frames, acc).0),
    decreases e,
{
    match e {
        ExprV::Function { func } => lemma_cm_func(func, frames, acc),
        ExprV::Call { func, args, .. } => {
            lemma_cm_expr(*func, frames, acc);
            let r = cm_expr(*func, frames, acc);
            lemma_cm_exprs(args, r.1, r.0);
        },
        ExprV::MethodCall { obj, args, .. } => {
            lemma_cm_expr(*obj, frames, acc);
            let r = cm_expr(*obj, frames, acc);
            lemma_cm_exprs(args, r.1, r.0);
        },
        ExprV::Table { fields, .. } => lemma_cm_fields(fields, frames, acc),
        ExprV::BinOp { lhs, rhs, .. } => {
            lemma_cm_expr(*lhs, frames, acc);
            let r = cm_expr(*lhs, frames, acc);
            lemma_cm_expr(*rhs, r.1, r.0);
        },
        ExprV::UnOp { operand, .. } => lemma_cm_expr(*operand, frames, acc),
        ExprV::Index { base, .. } => lemma_cm_expr(*base, frames, acc),
        ExprV::IndexExpr { base, key, .. } => {
            lemma_cm_expr(*base, frames, acc);
            let r = cm_expr(*base, frames, acc);
            lemma_cm_expr(*key, r.1, r.0);
        },
        _ => {},
    }
}

proof fn lemma_cm_exprs(s: Seq<ExprV>, frames: Seq<FrameV>, acc: Seq<DiagnosticView>)
    requires
        all_e0301(acc),
    ensures
        all_e0301(cm_exprs(s, frames, acc).0),
    decreases s,
{
    if s.len() > 0 {
        lemma_cm_exprs(s.drop_last(), frames, acc);
        let r = cm_exprs(s.drop_last(), frames, acc);
        lemma_cm_expr(s.last(), r.1, r.0);
    }
}

proof fn lemma_cm_field(x: FieldV, frames: Seq<FrameV>, acc: Seq<DiagnosticView>)
    requires
        all_e0301(acc),
    ensures
        all_e0301(cm_field(x, frames, acc).0),
    decreases x,
{
    match x {
        FieldV::ExprKey { key, value, .. } => {
            lemma_cm_expr(key, frames, acc);
            let r = cm_expr(key, frames, acc);
            lemma_cm_expr(value, r.1, r.0);
        },
        FieldV::NameKey { value, .. } => lemma_cm_expr(value, frames, acc),
        FieldV::Positional { value } => lemma_cm_expr(value, frames, acc),
    }
}

proof fn lemma_cm_fields(s: Seq<FieldV>, frames: Seq<FrameV>, acc: Seq<DiagnosticView>)
    requires
        all_e0301(acc),
    ensures
        all_e0301(cm_fields(s, frames, acc).0),
    decreases s,
{
    if s.len() > 0 {
        lemma_cm_fields(s.drop_last(), frames, acc);
        let r = cm_fields(s.drop_last(), frames, acc);
        lemma_cm_field(s.last(), r.1, r.0);
    }
}

proof fn lemma_cm_func(f: FuncV, frames: Seq<FrameV>, acc: Seq<DiagnosticView>)
    requires
        all_e0301(acc),
    ensures
        all_e0301(cm_func(f, frames, acc).0),
    decreases f,
{
    lemma_cm_stmts(f.body.stmts, frames.push(param_frame(f.params)), acc);
}

/// Every diagnostic of the const-mutation model is an E0301 for the variable
/// its message names.
pub proof fn lemma_cm_block(b: BlockV, frames: Seq<FrameV>, acc: Seq<DiagnosticView>)
    requires
        all_e0301(acc),
    ensures
        all_e0301(cm_block(b, frames, acc).0),
    decreases b,
{
    lemma_cm_stmts(b.stmts, frames.push(Seq::empty()), acc);
}

proof fn lemma_cm_stmts(s: Seq<StmtV>, frames: Seq<FrameV>, acc: Seq<DiagnosticView>)
    requires
        all_e0301(acc),
    ensures
        all_e0301(cm_stmts(s, frames, acc).0),
    decreases s,
{
    if s.len() > 0 {
        lemma_cm_stmts(s.drop_last(), frames, acc);
        let r = cm_stmts(s.drop_last(), frames, acc);
        lemma_cm_stmt(s.last(), r.1, r.0);
    }
}

proof fn lemma_cm_elseif(x: ElseIfV, frames: Seq<FrameV>, acc: Seq<DiagnosticView>)
    requires
        all_e0301(acc),
    ensures
        all_e0301(cm_elseif(x, frames, acc).0),
    decreases x,
{
    lemma_cm_expr(x.condition, frames, acc);
    let r = cm_expr(x.condition, frames, acc);
    lemma_cm_block(x.body, r.1, r.0);
}

proof fn lemma_cm_elseifs(s: Seq<ElseIfV>, frames: Seq<FrameV>, acc: Seq<DiagnosticView>)
    requires
        all_e0301(acc),
    ensures
        all_e0301(cm_elseifs(s, frames, acc).0),
    decreases s,
{
    if s.len() > 0 {
        lemma_cm_elseifs(s.drop_last(), frames, acc);
        let r = cm_elseifs(s.drop_last(), frames, acc);
        lemma_cm_elseif(s.last(), r.1, r.0);
    }
}

proof fn lemma_cm_stmt(s: StmtV, frames: Seq<FrameV>, acc: Seq<DiagnosticView>)
    requires
        all_e0301(acc),
    ensures
        all_e0301(cm_stmt(s, frames, acc).0),
    decreases s,
{
    match s {
        StmtV::LocalDecl { names, values, .. } => lemma_cm_exprs(values, frames, acc),
        StmtV::Assign { targets, values, .. } => {
            lemma_cm_exprs(values, frames, acc);
            let r = cm_exprs(values, frames, acc);
            lemma_cm_targets(targets, r.1, r.0);
        },
        StmtV::ExprStmt { expr } => lemma_cm_expr(expr, frames, acc),
        StmtV::Return { values, .. } => lemma_cm_exprs(values, frames, acc),
        StmtV::Do { body, .. } => lemma_cm_block(body, frames, acc),
        StmtV::While { condition, body, .. } => {
            lemma_cm_expr(condition, frames, acc);
            let r = cm_expr(condition, frames, acc);
            lemma_cm_block(body, r.1, r.0);
        },
        StmtV::Repeat { body, condition, .. } => {
            lemma_cm_block(body, frames, acc);
            let r = cm_block(body, frames, acc);
            lemma_cm_expr(condition, r.1, r.0);
        },
        StmtV::If { condition, then_block, elseifs, else_block, .. } => {
            lemma_cm_expr(condition, frames, acc);
            let r1 = cm_expr(condition, frames, acc);
            lemma_cm_block(then_block, r1.1, r1.0);
            let r2 = cm_block(then_block, r1.1, r1.0);
            lemma_cm_elseifs(elseifs, r2.1, r2.0);
            let r3 = cm_elseifs(elseifs, r2.1, r2.0);
            match else_block {
                Some(b) => lemma_cm_block(b, r3.1, r3.0),
                None => {},
            }
        },
        StmtV::NumericFor { start, limit, step, body, .. } => {
            lemma_cm_expr(start, frames, acc);
            let r1 = cm_expr(start, frames, acc);
            lemma_cm_expr(limit, r1.1, r1.0);
            let r2 = cm_expr(limit, r1.1, r1.0);
            match step {
                Some(x) => lemma_cm_expr(x, r2.1, r2.0),
                None => {},
            }
            let r3 = match step {
                Some(x) => cm_expr(x, r2.1, r2.0),
                None => r2,
            };
            lemma_cm_block(body, r3.1, r3.0);
        },
        StmtV::GenericFor { iterators, body, .. } => {
            lemma_cm_exprs(iterators, frames, acc);
            let r = cm_exprs(iterators, frames, acc);
            lemma_cm_block(body, r.1, r.0);
        },
        StmtV::FunctionDecl { func, .. } => lemma_cm_func(func, frames, acc),
        StmtV::LocalFunctionDecl { name, func, .. } => lemma_cm_func(func, bind_plain(frames, name), acc),
        _ => {},
    }
}

// ── Executable pass ──────────────────────────────────────────────────────────

type Frame = Vec<(String, Option<Span>)>;

pub open spec fn view_frame(f: Vec<(String, Option<Span>)>) -> FrameV {
    f@.map_values(|e: (String, Option<Span>)| (e.0@, e.1))
}

pub open spec fn view_frames(s: Seq<Vec<(String, Option<Span>)>>) -> Seq<FrameV> {
    s.map_values(|f: Vec<(String, Option<Span>)>| view_frame(f))
}

fn lookup_frame(frame: &Frame, name: &String) -> (r: Option<Option<Span>>)
    ensures
        r == frame_lookup(view_frame(*frame), name@),
{
    let mut i: usize = frame.len();
    assert(view_frame(*frame).subrange(0, i as int) =~= view_frame(*frame));
    while i > 0
        invariant
            i <= frame.len(),
            frame_lookup(view_frame(*frame), name@) == frame_lookup(
                view_frame(*frame).subrange(0, i as int),
                name@,
            ),
        decreases i,
    {
        let ghost pre = view_frame(*frame).subrange(0, i as int);
        assert(pre.drop_last() =~= view_frame(*frame).subrange(0, i - 1));
        if frame[i - 1].0 == *name {
            return Some(frame[i - 1].1);
        }
        i -= 1;
    }
    None
}

fn find_const_exec(scopes: &Vec<Frame>, name: &String) -> (r: Option<Span>)
    ensures
        r == find_const(view_frames(scopes@), name@),
{
    let mut i: usize = scopes.len();
    assert(view_frames(scopes@).subrange(0, i as int) =~= view_frames(scopes@));
    while i > 0
        invariant
            i <= scopes.len(),
            find_const(view_frames(scopes@), name@) == find_const(
                view_frames(scopes@).subrange(0, i as int),
                name@,
            ),
        decreases i,
    {
        let ghost pre = view_frames(scopes@).subrange(0, i as int);
        assert(pre.drop_last() =~= view_frames(scopes@).subrange(0, i - 1));
        match lookup_frame(&scopes[i - 1], name) {
            Some(entry) => {
                return entry;
            },
            None => {},
        }
        i -= 1;
    }
    None
}

fn make_e0301(name: &String, span: Span, decl: Span) -> (r: Diagnostic)
    ensures
        r@ == e0301_diag(name@, span, decl),
{
    let mut message = "assignment to const variable `".to_owned();
    message.append(name.as_str());
    message.append("`");
    let mut note = "`".to_owned();
    note.append(name.as_str());
    note.append("` was declared with <const>; Lua 5.4 treats this as a compile-time constant");
    Diagnostic::error(message.as_str(), span).with_code("E0301").with_secondary_label(
        decl,
        "declared as const here",
    ).with_note(note.as_str()).with_suggestion(
        "Remove the assignment or remove the <const> attribute from the declaration",
    )
}

fn push_frame(scopes: &mut Vec<Frame>, frame: Frame)
    ensures
        view_frames(final(scopes)@) == view_frames(old(scopes)@).push(view_frame(frame)),
        final(scopes)@.len() == old(scopes)@.len() + 1,
{
    let ghost before = scopes@;
    scopes.push(frame);
    assert(view_frames(scopes@) =~= view_frames(before).push(view_frame(frame)));
}

fn pop_frame(scopes: &mut Vec<Frame>)
    requires
        old(scopes).len() > 0,
    ensures
        view_frames(final(scopes)@) == view_frames(old(scopes)@).drop_last(),
        final(scopes)@.len() == old(scopes)@.len() - 1,
{
    let ghost before = scopes@;
    let _ = scopes.pop();
    assert(view_frames(scopes@) =~= view_frames(before).drop_last());
}

fn bind_name(name: &String, scopes: &mut Vec<Frame>)
    ensures
        view_frames(final(scopes)@) == bind_plain(view_frames(old(scopes)@), name@),
        final(scopes)@.len() == old(scopes)@.len(),
{
    let n = scopes.len();
    if n == 0 {
        return;
    }
    let ghost before = scopes@;
    let mut frame = Vec::new();
    std::mem::swap(&mut frame, &mut scopes[n - 1]);
    frame.push((name.clone(), None));
    scopes.set(n - 1, frame);
    proof {
        assert(view_frame(scopes@[n - 1]) =~= view_frame(before[n - 1]).push((name@, None)));
        assert(view_frames(scopes@) =~= view_frames(before).update(
            n - 1,
            view_frame(before[n - 1]).push((name@, None)),
        ));
    }
}

fn register_locals(decl: &LocalDecl, scopes: &mut Vec<Frame>)
    ensures
        view_frames(final(scopes)@) == register(
            view_frames(old(scopes)@),
            view_local_names(decl.names@),
        ),
        final(scopes)@.len() == old(scopes)@.len(),
{
    let n = scopes.len();
    if n == 0 {
        return;
    }
    let mut i: usize = 0;
    while i < decl.names.len()
        invariant
            n == scopes.len(),
            n > 0,
            i <= decl.names.len(),
            view_frames(scopes@) == register(
                view_frames(old(scopes)@),
                view_local_names(decl.names@.subrange(0, i as int)),
            ),
        decreases decl.names.len() - i,
    {
        let ghost names_i = view_local_names(decl.names@.subrange(0, i + 1));
        assert(names_i.drop_last() =~= view_local_names(decl.names@.subrange(0, i as int)));
        let name = &decl.names[i];
        let entry = if name.attribute == Some(Attribute::Const) {
            Some(name.span)
        } else {
            None
        };
        let ghost before = scopes@;
        let mut frame = Vec::new();
        std::mem::swap(&mut frame, &mut scopes[n - 1]);
        frame.push((name.name.clone(), entry));
        scopes.set(n - 1, frame);
        proof {
            assert(view_frame(scopes@[n - 1]) =~= view_frame(before[n - 1]).push(
                (name.name@, entry),
            ));
            assert(view_frames(scopes@) =~= view_frames(before).update(
                n - 1,
                view_frame(before[n - 1]).push((name.name@, entry)),
            ));
        }
        i += 1;
    }
    assert(decl.names@.subrange(0, decl.names.len() as int) =~= decl.names@);
}

fn check_assign(assign: &Assign, scopes: &Vec<Frame>, diags: &mut Vec<Diagnostic>)
    ensures
        view_diags(final(diags)@) == cm_targets(
            view_exprs(assign.targets@),
            view_frames(scopes@),
            view_diags(old(diags)@),
        ),
{
    let mut i: usize = 0;
    while i < assign.targets.len()
        invariant
            i <= assign.targets.len(),
            view_diags(diags@) == cm_targets(
                view_exprs(assign.targets@.subrange(0, i as int)),
                view_frames(scopes@),
                view_diags(old(diags)@),
            ),
        decreases assign.targets.len() - i,
    {
        proof {
            lemma_exprs_prefix(assign.targets@, i as int);
            lemma_push_drop(
                view_exprs(assign.targets@.subrange(0, i as int)),
                view_expr(assign.targets@[i as int]),
            );
        }
        match &assign.targets[i] {
            Expression::Name(name, mutation_span) => {
                match find_const_exec(scopes, name) {
                    Some(decl_span) => {
                        let d = make_e0301(name, *mutation_span, decl_span);
                        let ghost before = diags@;
                        diags.push(d);
                        assert(view_diags(diags@) =~= view_diags(before).push(d@));
                    },
                    None => {},
                }
            },
            _ => {},
        }
        i += 1;
    }
    assert(assign.targets@.subrange(0, assign.targets.len() as int) =~= assign.targets@);
}

type Diags = Vec<Diagnostic>;

fn cm_check_exprs(v: &Vec<Expression>, scopes: &mut Vec<Frame>, diags: &mut Diags)
    ensures
        (view_diags(final(diags)@), view_frames(final(scopes)@)) == cm_exprs(
            view_exprs(v@),
            view_frames(old(scopes)@),
            view_diags(old(diags)@),
        ),
        final(scopes)@.len() == old(scopes)@.len(),
    decreases v,
{
    let mut i: usize = 0;
    while i < v.len()
        invariant
            i <= v.len(),
            scopes@.len() == old(scopes)@.len(),
            (view_diags(diags@), view_frames(scopes@)) == cm_exprs(
                view_exprs(v@.subrange(0, i as int)),
                view_frames(old(scopes)@),
                view_diags(old(diags)@),
            ),
        decreases v.len() - i,
    {
        proof {
            lemma_exprs_prefix(v@, i as int);
            lemma_push_drop(view_exprs(v@.subrange(0, i as int)), view_expr(v@[i as int]));
            assert(decreases_to!(*v => v@));
            assert(decreases_to!(v@ => v@[i as int]));
        }
        check_expr_closures(&v[i], scopes, diags);
        i += 1;
    }
    assert(v@.subrange(0, v.len() as int) =~= v@);
}

fn cm_check_fields(v: &Vec<TableField>, scopes: &mut Vec<Frame>, diags: &mut Diags)
    ensures
        (view_diags(final(diags)@), view_frames(final(scopes)@)) == cm_fields(
            view_fields(v@),
            view_frames(old(scopes)@),
            view_diags(old(diags)@),
        ),
        final(scopes)@.len() == old(scopes)@.len(),
    decreases v,
{
    let mut i: usize = 0;
    while i < v.len()
        invariant
            i <= v.len(),
            scopes@.len() == old(scopes)@.len(),
            (view_diags(diags@), view_frames(scopes@)) == cm_fields(
                view_fields(v@.subrange(0, i as int)),
                view_frames(old(scopes)@),
                view_diags(old(diags)@),
            ),
        decreases v.len() - i,
    {
        proof {
            lemma_fields_prefix(v@, i as int);
            lemma_push_drop(view_fields(v@.subrange(0, i as int)), view_field(v@[i as int]));
            assert(decreases_to!(*v => v@));
            assert(decreases_to!(v@ => v@[i as int]));
        }
        cm_check_field(&v[i], scopes, diags);
        i += 1;
    }
    assert(v@.subrange(0, v.len() as int) =~= v@);
}

fn cm_check_field(f: &TableField, scopes: &mut Vec<Frame>, diags: &mut Diags)
    ensures
        (view_diags(final(diags)@), view_frames(final(scopes)@)) == cm_field(
            view_field(*f),
            view_frames(old(scopes)@),
            view_diags(old(diags)@),
        ),
        final(scopes)@.len() == old(scopes)@.len(),
    decreases f,
{
    match f {
        TableField::ExprKey { key, value, .. } => {
            check_expr_closures(key, scopes, diags);
            check_expr_closures(value, scopes, diags);
        },
        TableField::NameKey { value, .. } => check_expr_closures(value, scopes, diags),
        TableField::Positional(value) => check_expr_closures(value, scopes, diags),
    }
}

fn cm_check_elseifs(v: &Vec<ElseIf>, scopes: &mut Vec<Frame>, diags: &mut Diags)
    ensures
        (view_diags(final(diags)@), view_frames(final(scopes)@)) == cm_elseifs(
            view_elseifs(v@),
            view_frames(old(scopes)@),
            view_diags(old(diags)@),
        ),
        final(scopes)@.len() == old(scopes)@.len(),
    decreases v,
{
    let mut i: usize = 0;
    while i < v.len()
        invariant
            i <= v.len(),
            scopes@.len() == old(scopes)@.len(),
            (view_diags(diags@), view_frames(scopes@)) == cm_elseifs(
                view_elseifs(v@.subrange(0, i as int)),
                view_frames(old(scopes)@),
                view_diags(old(diags)@),
            ),
        decreases v.len() - i,
    {
        proof {
            lemma_elseifs_prefix(v@, i as int);
            lemma_push_drop(view_elseifs(v@.subrange(0, i as int)), view_elseif(v@[i as int]));
            assert(decreases_to!(*v => v@));
            assert(decreases_to!(v@ => v@[i as int]));
        }
        cm_check_elseif(&v[i], scopes, diags);
        i += 1;
    }
    assert(v@.subrange(0, v.len() as int) =~= v@);
}

fn cm_check_elseif(clause: &ElseIf, scopes: &mut Vec<Frame>, diags: &mut Diags)
    ensures
        (view_diags(final(diags)@), view_frames(final(scopes)@)) == cm_elseif(
            view_elseif(*clause),
            view_frames(old(scopes)@),
            view_diags(old(diags)@),
        ),
        final(scopes)@.len() == old(scopes)@.len(),
    decreases clause,
{
    check_expr_closures(&clause.condition, scopes, diags);
    check_block(&clause.body, scopes, diags);
}

fn check_stmts(stmts: &Vec<Statement>, scopes: &mut Vec<Frame>, diags: &mut Diags)
    ensures
        (view_diags(final(diags)@), view_frames(final(scopes)@)) == cm_stmts(
            view_stmts(stmts@),
            view_frames(old(scopes)@),
            view_diags(old(diags)@),
        ),
        final(scopes)@.len() == old(scopes)@.len(),
    decreases stmts,
{
    let mut i: usize = 0;
    while i < stmts.len()
        invariant
            i <= stmts.len(),
            scopes@.len() == old(scopes)@.len(),
            (view_diags(diags@), view_frames(scopes@)) == cm_stmts(
                view_stmts(stmts@.subrange(0, i as int)),
                view_frames(old(scopes)@),
                view_diags(old(diags)@),
            ),
        decreases stmts.len() - i,
    {
        proof {
            lemma_stmts_prefix(stmts@, i as int);
            lemma_push_drop(view_stmts(stmts@.subrange(0, i as int)), view_stmt(stmts@[i as int]));
            assert(decreases_to!(*stmts => stmts@));
            assert(decreases_to!(stmts@ => stmts@[i as int]));
        }
        check_stmt(&stmts[i], scopes, diags);
        i += 1;
    }
    assert(stmts@.subrange(0, stmts.len() as int) =~= stmts@);
}

fn check_block(block: &Block, scopes: &mut Vec<Frame>, diags: &mut Diags)
    ensures
        (view_diags(final(diags)@), view_frames(final(scopes)@)) == cm_block(
            block@,
            view_frames(old(scopes)@),
            view_diags(old(diags)@),
        ),
        final(scopes)@.len() == old(scopes)@.len(),
    decreases block,
{
    let empty: Frame = Vec::new();
    proof {
        assert(view_frame(empty) =~= Seq::empty());
        assert(decreases_to!(*block => block.stmts));
    }
    push_frame(scopes, empty);
    check_stmts(&block.stmts, scopes, diags);
    pop_frame(scopes);
}

fn make_param_frame(func: &FunctionBody) -> (r: Frame)
    ensures
        view_frame(r) == param_frame(view_params(func.params@)),
{
    let mut frame: Frame = Vec::new();
    let mut i: usize = 0;
    while i < func.params.len()
        invariant
            i <= func.params.len(),
            view_frame(frame) == param_frame(view_params(func.params@.subrange(0, i as int))),
        decreases func.params.len() - i,
    {
        let ghost before = frame;
        let name = func.params[i].name.clone();
        frame.push((name, None));
        proof {
            let ps = func.params@.subrange(0, i + 1);
            assert(ps =~= func.params@.subrange(0, i as int).push(func.params@[i as int]));
            assert(view_params(ps) =~= view_params(func.params@.subrange(0, i as int)).push(
                (func.params@[i as int].name@, func.params@[i as int].span),
            ));
            assert(view_frame(frame) =~= view_frame(before).push((name@, None)));
            assert(view_frame(frame) =~= param_frame(view_params(ps)));
        }
        i += 1;
    }
    assert(func.params@.subrange(0, func.params.len() as int) =~= func.params@);
    frame
}

fn check_function_body(func: &FunctionBody, scopes: &mut Vec<Frame>, diags: &mut Diags)
    ensures
        (view_diags(final(diags)@), view_frames(final(scopes)@)) == cm_func(
            view_func(*func),
            view_frames(old(scopes)@),
            view_diags(old(diags)@),
        ),
        final(scopes)@.len() == old(scopes)@.len(),
    decreases func,
{
    let frame = make_param_frame(func);
    push_frame(scopes, frame);
    proof {
        assert(decreases_to!(*func => func.body));
        assert(decreases_to!(func.body => func.body.stmts));
        assert(view_func(*func).body == view_block(func.body));
    }
    check_stmts(&func.body.stmts, scopes, diags);
    pop_frame(scopes);
}

#[verifier::rlimit(50)]
fn check_stmt(stmt: &Statement, scopes: &mut Vec<Frame>, diags: &mut Diags)
    ensures
        (view_diags(final(diags)@), view_frames(final(scopes)@)) == cm_stmt(
            stmt@,
            view_frames(old(scopes)@),
            view_diags(old(diags)@),
        ),
        final(scopes)@.len() == old(scopes)@.len(),
    decreases stmt,
{
    match stmt {
        Statement::LocalDecl(decl) => {
            cm_check_exprs(&decl.values, scopes, diags);
            register_locals(decl, scopes);
        },
        Statement::Assign(assign) => {
            cm_check_exprs(&assign.values, scopes, diags);
            check_assign(assign, scopes, diags);
        },
        Statement::ExprStmt(e) => check_expr_closures(e, scopes, diags),
        Statement::Return(r) => cm_check_exprs(&r.values, scopes, diags),
        Statement::Do(b) => check_block(&b.body, scopes, diags),
        Statement::While(w) => {
            check_expr_closures(&w.condition, scopes, diags);
            check_block(&w.body, scopes, diags);
        },
        Statement::Repeat(r) => {
            check_block(&r.body, scopes, diags);
            check_expr_closures(&r.condition, scopes, diags);
        },
        Statement::If(i) => {
            check_expr_closures(&i.condition, scopes, diags);
            check_block(&i.then_block, scopes, diags);
            proof {
                assert(decreases_to!(*stmt => stmt->If_0));
                assert(decreases_to!(stmt->If_0 => i.elseif_clauses));
            }
            cm_check_elseifs(&i.elseif_clauses, scopes, diags);
            match &i.else_block {
                Some(b) => check_block(b, scopes, diags),
                None => {},
            }
        },
        Statement::NumericFor(f) => {
            check_expr_closures(&f.start, scopes, diags);
            check_expr_closures(&f.limit, scopes, diags);
            match &f.step {
                Some(step) => check_expr_closures(step, scopes, diags),
                None => {},
            }
            check_block(&f.body, scopes, diags);
        },
        Statement::GenericFor(f) => {
            cm_check_exprs(&f.iterators, scopes, diags);
            check_block(&f.body, scopes, diags);
        },
        Statement::FunctionDecl(f) => check_function_body(&f.func, scopes, diags),
        Statement::LocalFunctionDecl(f) => {
            bind_name(&f.name, scopes);
            check_function_body(&f.func, scopes, diags);
        },
        _ => {},
    }
}

#[verifier::rlimit(50)]
fn check_expr_closures(expr: &Expression, scopes: &mut Vec<Frame>, diags: &mut Diags)
    ensures
        (view_diags(final(diags)@), view_frames(final(scopes)@)) == cm_expr(
            expr@,
            view_frames(old(scopes)@),
            view_diags(old(diags)@),
        ),
        final(scopes)@.len() == old(scopes)@.len(),
    decreases expr,
{
    match expr {
        Expression::Function(f) => check_function_body(f, scopes, diags),
        Expression::Call(Call::Call { func, args, .. }) => {
            check_expr_closures(func, scopes, diags);
            cm_check_exprs(args, scopes, diags);
        },
        Expression::Call(Call::MethodCall { obj, args, .. }) => {
            check_expr_closures(obj, scopes, diags);
            cm_check_exprs(args, scopes, diags);
        },
        Expression::Table(t) => cm_check_fields(&t.fields, scopes, diags),
        Expression::BinOp(lhs, _, rhs, _) => {
            check_expr_closures(lhs, scopes, diags);
            check_expr_closures(rhs, scopes, diags);
        },
        Expression::UnOp(_, operand, _) => check_expr_closures(operand, scopes, diags),
        Expression::Index(base, _, _) => check_expr_closures(base, scopes, diags),
        Expression::IndexExpr(base, key, _) => {
            check_expr_closures(base, scopes, diags);
            check_expr_closures(key, scopes, diags);
        },
        _ => {},
    }
}

/// E0301: detects reassignment of `<const>`-attributed local variables.
pub struct ConstMutation;

impl Lint for ConstMutation {
    /// Every E0301 of `block`, in source order.
    fn check(&self, block: &Block) -> (r: Vec<Diagnostic>)
        ensures
            view_diags(r@) == cm_block(block@, seq![], seq![]).0,
    {
        let mut diags: Vec<Diagnostic> = Vec::new();
        let mut scopes: Vec<Frame> = Vec::new();
        assert(view_diags(diags@) =~= Seq::<DiagnosticView>::empty());
        assert(view_frames(scopes@) =~= Seq::<FrameV>::empty());
        check_block(block, &mut scopes, &mut diags);
        diags
    }
}

} // verus!
