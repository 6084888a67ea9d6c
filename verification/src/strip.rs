//! Removal of `<const>` attributes once their use has been validated.

use vstd::prelude::*;

use crate::ast::{
    lemma_view_elseifs, lemma_view_exprs, lemma_view_fields, lemma_view_stmts, view_block,
    view_elseif, view_elseifs, view_expr, view_exprs, view_field, view_fields, view_func,
    view_local_names, view_stmt, view_stmts, Attribute, Block, Call, ElseIf, Expression, If,
    LocalName, Statement, TableField,
};
use crate::diagnostics::Span;
use crate::walk::{
    lemma_strip_elseifs, lemma_strip_exprs, lemma_strip_fields, lemma_strip_stmts, strip_block,
    strip_elseif, strip_elseifs, strip_expr, strip_exprs, strip_field, strip_fields, strip_func,
    strip_names, strip_stmt, strip_stmts,
};

verus! {

fn strip_local_names(v: &mut Vec<LocalName>)
    ensures
        view_local_names(final(v)@) == strip_names(view_local_names(old(v)@)),
{
    let ghost old_v = v@;
    let mut i: usize = 0;
    while i < v.len()
        invariant
            i <= v.len(),
            v.len() == old_v.len(),
            forall|j: int|
                0 <= j < i ==> view_local_names(v@)[j] == strip_names(view_local_names(old_v))[j],
            forall|j: int| i <= j < v.len() ==> #[trigger] v@[j] == old_v[j],
        decreases v.len() - i,
    {
        if v[i].attribute == Some(Attribute::Const) {
            v[i].attribute = None;
        }
        i += 1;
    }
    assert(view_local_names(v@) =~= strip_names(view_local_names(old_v)));
}

fn strip_const_exprs(v: &mut Vec<Expression>)
    ensures
        view_exprs(final(v)@) == strip_exprs(view_exprs(old(v)@)),
    decreases *old(v),
{
    let ghost old_v = v@;
    let mut i: usize = 0;
    while i < v.len()
        invariant
            i <= v.len(),
            v.len() == old_v.len(),
            old(v)@ == old_v,
            decreases_to!(*old(v) => old_v),
            forall|j: int|
                0 <= j < i ==> view_expr(#[trigger] v@[j]) == strip_expr(view_expr(old_v[j])),
            forall|j: int| i <= j < v.len() ==> #[trigger] v@[j] == old_v[j],
        decreases v.len() - i,
    {
        proof {
            assert(decreases_to!(old_v => old_v[i as int]));
        }
        strip_const_expr(&mut v[i]);
        i += 1;
    }
    proof {
        lemma_view_exprs(v@);
        lemma_view_exprs(old_v);
        lemma_strip_exprs(view_exprs(old_v));
        assert(view_exprs(v@) =~= strip_exprs(view_exprs(old_v)));
    }
}

fn strip_const_fields(v: &mut Vec<TableField>)
    ensures
        view_fields(final(v)@) == strip_fields(view_fields(old(v)@)),
    decreases *old(v),
{
    let ghost old_v = v@;
    let mut i: usize = 0;
    while i < v.len()
        invariant
            i <= v.len(),
            v.len() == old_v.len(),
            old(v)@ == old_v,
            decreases_to!(*old(v) => old_v),
            forall|j: int|
                0 <= j < i ==> view_field(#[trigger] v@[j]) == strip_field(view_field(old_v[j])),
            forall|j: int| i <= j < v.len() ==> #[trigger] v@[j] == old_v[j],
        decreases v.len() - i,
    {
        proof {
            assert(decreases_to!(old_v => old_v[i as int]));
        }
        strip_const_field(&mut v[i]);
        i += 1;
    }
    proof {
        lemma_view_fields(v@);
        lemma_view_fields(old_v);
        lemma_strip_fields(view_fields(old_v));
        assert(view_fields(v@) =~= strip_fields(view_fields(old_v)));
    }
}

fn strip_const_field(f: &mut TableField)
    ensures
        view_field(*final(f)) == strip_field(view_field(*old(f))),
    decreases *old(f),
{
    match f {
        TableField::ExprKey { key, value, .. } => {
            strip_const_expr(key);
            strip_const_expr(value);
        },
        TableField::NameKey { value, .. } => strip_const_expr(value),
        TableField::Positional(value) => strip_const_expr(value),
    }
}

fn strip_const_elseifs(v: &mut Vec<ElseIf>)
    ensures
        view_elseifs(final(v)@) == strip_elseifs(view_elseifs(old(v)@)),
    decreases *old(v),
{
    let ghost old_v = v@;
    let mut i: usize = 0;
    while i < v.len()
        invariant
            i <= v.len(),
            v.len() == old_v.len(),
            old(v)@ == old_v,
            decreases_to!(*old(v) => old_v),
            forall|j: int|
                0 <= j < i ==> view_elseif(#[trigger] v@[j]) == strip_elseif(
                    view_elseif(old_v[j]),
                ),
            forall|j: int| i <= j < v.len() ==> #[trigger] v@[j] == old_v[j],
        decreases v.len() - i,
    {
        proof {
            assert(decreases_to!(old_v => old_v[i as int]));
        }
        strip_const_elseif(&mut v[i]);
        i += 1;
    }
    proof {
        lemma_view_elseifs(v@);
        lemma_view_elseifs(old_v);
        lemma_strip_elseifs(view_elseifs(old_v));
        assert(view_elseifs(v@) =~= strip_elseifs(view_elseifs(old_v)));
    }
}

fn strip_const_elseif(clause: &mut ElseIf)
    ensures
        view_elseif(*final(clause)) == strip_elseif(view_elseif(*old(clause))),
    decreases *old(clause),
{
    strip_const_expr(&mut clause.condition);
    strip_const_block(&mut clause.body);
}

/// Drops every `<const>` attribute that the pass reaches in `block`.
pub fn strip_const_block(block: &mut Block)
    ensures
        final(block)@ == strip_block(old(block)@),
    decreases *old(block),
{
    let ghost old_v = block.stmts@;
    let mut i: usize = 0;
    while i < block.stmts.len()
        invariant
            i <= block.stmts.len(),
            block.stmts.len() == old_v.len(),
            old(block).stmts@ == old_v,
            block.span == old(block).span,
            decreases_to!(*old(block) => old_v),
            forall|j: int|
                0 <= j < i ==> view_stmt(#[trigger] block.stmts@[j]) == strip_stmt(
                    view_stmt(old_v[j]),
                ),
            forall|j: int| i <= j < block.stmts.len() ==> #[trigger] block.stmts@[j] == old_v[j],
        decreases block.stmts.len() - i,
    {
        proof {
            assert(decreases_to!(old_v => old_v[i as int]));
        }
        strip_const_stmt(&mut block.stmts[i]);
        i += 1;
    }
    proof {
        lemma_view_stmts(block.stmts@);
        lemma_view_stmts(old_v);
        lemma_strip_stmts(view_stmts(old_v));
        assert(view_stmts(block.stmts@) =~= strip_stmts(view_stmts(old_v)));
    }
}

fn strip_const_if(i: &mut If)
    ensures
        view_stmt(Statement::If(*final(i))) == strip_stmt(view_stmt(Statement::If(*old(i)))),
    decreases *old(i),
{
    strip_const_expr(&mut i.condition);
    strip_const_block(&mut i.then_block);
    strip_const_elseifs(&mut i.elseif_clauses);
    match &mut i.else_block {
        Some(else_block) => strip_const_block(else_block),
        None => {},
    }
}

#[verifier::rlimit(50)]
fn strip_const_stmt(stmt: &mut Statement)
    ensures
        final(stmt)@ == strip_stmt(old(stmt)@),
    decreases *old(stmt),
{
    match stmt {
        Statement::LocalDecl(d) => {
            strip_local_names(&mut d.names);
            strip_const_exprs(&mut d.values);
        },
        Statement::Assign(a) => strip_const_exprs(&mut a.values),
        Statement::Return(r) => strip_const_exprs(&mut r.values),
        Statement::ExprStmt(e) => strip_const_expr(e),
        Statement::Do(b) => strip_const_block(&mut b.body),
        Statement::While(w) => {
            strip_const_expr(&mut w.condition);
            strip_const_block(&mut w.body);
        },
        Statement::Repeat(r) => {
            strip_const_block(&mut r.body);
            strip_const_expr(&mut r.condition);
        },
        Statement::If(i) => strip_const_if(i),
        Statement::NumericFor(f) => {
            strip_const_expr(&mut f.start);
            strip_const_expr(&mut f.limit);
            match &mut f.step {
                Some(step) => strip_const_expr(step),
                None => {},
            }
            strip_const_block(&mut f.body);
        },
        Statement::GenericFor(f) => {
            strip_const_exprs(&mut f.iterators);
            strip_const_block(&mut f.body);
        },
        Statement::FunctionDecl(f) => {
            let ghost old_func = f.func;
            strip_const_block(&mut f.func.body);
            assert(view_func(f.func) == strip_func(view_func(old_func)));
        },
        Statement::LocalFunctionDecl(f) => {
            let ghost old_func = f.func;
            strip_const_block(&mut f.func.body);
            assert(view_func(f.func) == strip_func(view_func(old_func)));
        },
        _ => {},
    }
}

#[verifier::rlimit(50)]
fn strip_const_expr(expr: &mut Expression)
    ensures
        final(expr)@ == strip_expr(old(expr)@),
    decreases *old(expr),
{
    let mut node = Expression::Nil(Span::dummy());
    std::mem::swap(&mut node, expr);
    *expr = match node {
        Expression::BinOp(lhs, op, rhs, span) => {
            let mut l = *lhs;
            let mut r = *rhs;
            strip_const_expr(&mut l);
            strip_const_expr(&mut r);
            Expression::BinOp(Box::new(l), op, Box::new(r), span)
        },
        Expression::UnOp(op, operand, span) => {
            let mut x = *operand;
            strip_const_expr(&mut x);
            Expression::UnOp(op, Box::new(x), span)
        },
        Expression::Call(Call::Call { func, args, span }) => {
            let mut f = *func;
            let mut a = args;
            strip_const_expr(&mut f);
            strip_const_exprs(&mut a);
            Expression::Call(Call::Call { func: Box::new(f), args: a, span })
        },
        Expression::Call(Call::MethodCall { obj, method, args, span }) => {
            let mut o = *obj;
            let mut a = args;
            strip_const_expr(&mut o);
            strip_const_exprs(&mut a);
            Expression::Call(Call::MethodCall { obj: Box::new(o), method, args: a, span })
        },
        Expression::Table(t) => {
            let mut t = t;
            strip_const_fields(&mut t.fields);
            Expression::Table(t)
        },
        Expression::Function(f) => {
            let mut f = f;
            let ghost old_f = f;
            strip_const_block(&mut f.body);
            assert(view_func(f) == strip_func(view_func(old_f)));
            Expression::Function(f)
        },
        Expression::Index(base, field, span) => {
            let mut b = *base;
            strip_const_expr(&mut b);
            Expression::Index(Box::new(b), field, span)
        },
        Expression::IndexExpr(base, key, span) => {
            let mut b = *base;
            let mut k = *key;
            strip_const_expr(&mut b);
            strip_const_expr(&mut k);
            Expression::IndexExpr(Box::new(b), Box::new(k), span)
        },
        other => other,
    };
}

} // verus!
