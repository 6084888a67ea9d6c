//! Deep copies of syntax trees.

use vstd::prelude::*;

use crate::ast::{
    lemma_view_elseifs, lemma_view_exprs, lemma_view_fields, lemma_view_stmts, view_block,
    view_elseif, view_elseifs, view_expr, view_exprs, view_field, view_fields, view_func,
    view_local_names, view_names, view_params, view_stmt, view_stmts, Assign, Block, Call, Do,
    ElseIf, Expression, FunctionBody, FunctionDecl, FunctionName, GenericFor, Goto, If, Label,
    LocalDecl, LocalFunctionDecl, LocalName, NumericFor, Param, Repeat, Return, Statement,
    TableConstructor, TableField, While,
};
use crate::transformer::{
    lemma_elseifs_prefix, lemma_exprs_prefix, lemma_fields_prefix, lemma_stmts_prefix,
};

verus! {

fn copy_names(v: &Vec<String>) -> (r: Vec<String>)
    ensures
        view_names(r@) == view_names(v@),
{
    let mut out: Vec<String> = Vec::new();
    let mut i: usize = 0;
    while i < v.len()
        invariant
            i <= v.len(),
            out@.len() == i,
            forall|j: int| 0 <= j < i ==> #[trigger] out@[j]@ == v@[j]@,
        decreases v.len() - i,
    {
        let x = v[i].clone();
        out.push(x);
        i += 1;
    }
    assert(view_names(out@) =~= view_names(v@));
    out
}

fn copy_local_names(v: &Vec<LocalName>) -> (r: Vec<LocalName>)
    ensures
        view_local_names(r@) == view_local_names(v@),
{
    let mut out: Vec<LocalName> = Vec::new();
    let mut i: usize = 0;
    while i < v.len()
        invariant
            i <= v.len(),
            out@.len() == i,
            forall|j: int|
                0 <= j < i ==> #[trigger] out@[j].name@ == v@[j].name@ && out@[j].attribute
                    == v@[j].attribute && out@[j].span == v@[j].span,
        decreases v.len() - i,
    {
        let x = LocalName { name: v[i].name.clone(), attribute: v[i].attribute, span: v[i].span };
        out.push(x);
        i += 1;
    }
    assert(view_local_names(out@) =~= view_local_names(v@));
    out
}

fn copy_params(v: &Vec<Param>) -> (r: Vec<Param>)
    ensures
        view_params(r@) == view_params(v@),
{
    let mut out: Vec<Param> = Vec::new();
    let mut i: usize = 0;
    while i < v.len()
        invariant
            i <= v.len(),
            out@.len() == i,
            forall|j: int|
                0 <= j < i ==> #[trigger] out@[j].name@ == v@[j].name@ && out@[j].span
                    == v@[j].span,
        decreases v.len() - i,
    {
        let x = Param { name: v[i].name.clone(), span: v[i].span };
        out.push(x);
        i += 1;
    }
    assert(view_params(out@) =~= view_params(v@));
    out
}

fn copy_exprs(v: &Vec<Expression>) -> (r: Vec<Expression>)
    ensures
        view_exprs(r@) == view_exprs(v@),
    decreases v,
{
    let mut out: Vec<Expression> = Vec::new();
    let mut i: usize = 0;
    while i < v.len()
        invariant
            i <= v.len(),
            view_exprs(out@) == view_exprs(v@.subrange(0, i as int)),
        decreases v.len() - i,
    {
        proof {
            lemma_exprs_prefix(v@, i as int);
            assert(decreases_to!(*v => v@));
            assert(decreases_to!(v@ => v@[i as int]));
        }
        let e = copy_expr(&v[i]);
        let ghost before = out@;
        out.push(e);
        proof {
            assert(out@.drop_last() =~= before);
        }
        i += 1;
    }
    assert(v@.subrange(0, v.len() as int) =~= v@);
    out
}

fn copy_fields(v: &Vec<TableField>) -> (r: Vec<TableField>)
    ensures
        view_fields(r@) == view_fields(v@),
    decreases v,
{
    let mut out: Vec<TableField> = Vec::new();
    let mut i: usize = 0;
    while i < v.len()
        invariant
            i <= v.len(),
            view_fields(out@) == view_fields(v@.subrange(0, i as int)),
        decreases v.len() - i,
    {
        proof {
            lemma_fields_prefix(v@, i as int);
            assert(decreases_to!(*v => v@));
            assert(decreases_to!(v@ => v@[i as int]));
        }
        let f = copy_field(&v[i]);
        let ghost before = out@;
        out.push(f);
        proof {
            assert(out@.drop_last() =~= before);
        }
        i += 1;
    }
    assert(v@.subrange(0, v.len() as int) =~= v@);
    out
}

fn copy_field(f: &TableField) -> (r: TableField)
    ensures
        view_field(r) == view_field(*f),
    decreases f,
{
    match f {
        TableField::ExprKey { key, value, span } => TableField::ExprKey {
            key: Box::new(copy_expr(key)),
            value: Box::new(copy_expr(value)),
            span: *span,
        },
        TableField::NameKey { key, value, span } => TableField::NameKey {
            key: key.clone(),
            value: Box::new(copy_expr(value)),
            span: *span,
        },
        TableField::Positional(value) => TableField::Positional(copy_expr(value)),
    }
}

/// A deep copy of a function body.
pub fn copy_func(f: &FunctionBody) -> (r: FunctionBody)
    ensures
        view_func(r) == view_func(*f),
    decreases f,
{
    let r = FunctionBody {
        params: copy_params(&f.params),
        is_vararg: f.is_vararg,
        body: copy_block(&f.body),
        span: f.span,
    };
    assert(view_func(r).body == view_block(r.body));
    assert(view_func(*f).body == view_block(f.body));
    r
}

/// A deep copy of an expression.
#[verifier::rlimit(40)]
pub fn copy_expr(e: &Expression) -> (r: Expression)
    ensures
        view_expr(r) == view_expr(*e),
    decreases e,
{
    match e {
        Expression::Nil(s) => Expression::Nil(*s),
        Expression::True(s) => Expression::True(*s),
        Expression::False(s) => Expression::False(*s),
        Expression::Integer(v, s) => Expression::Integer(*v, *s),
        Expression::Float(t, s) => Expression::Float(t.clone(), *s),
        Expression::String(t, s) => Expression::String(t.clone(), *s),
        Expression::Vararg(s) => Expression::Vararg(*s),
        Expression::Name(n, s) => Expression::Name(n.clone(), *s),
        Expression::Index(b, f, s) => Expression::Index(Box::new(copy_expr(b)), f.clone(), *s),
        Expression::IndexExpr(b, k, s) => Expression::IndexExpr(
            Box::new(copy_expr(b)),
            Box::new(copy_expr(k)),
            *s,
        ),
        Expression::BinOp(l, op, r, s) => Expression::BinOp(
            Box::new(copy_expr(l)),
            *op,
            Box::new(copy_expr(r)),
            *s,
        ),
        Expression::UnOp(op, x, s) => Expression::UnOp(*op, Box::new(copy_expr(x)), *s),
        Expression::Call(Call::Call { func, args, span }) => Expression::Call(
            Call::Call { func: Box::new(copy_expr(func)), args: copy_exprs(args), span: *span },
        ),
        Expression::Call(Call::MethodCall { obj, method, args, span }) => Expression::Call(
            Call::MethodCall {
                obj: Box::new(copy_expr(obj)),
                method: method.clone(),
                args: copy_exprs(args),
                span: *span,
            },
        ),
        Expression::Function(f) => Expression::Function(copy_func(f)),
        Expression::Table(t) => Expression::Table(
            TableConstructor { fields: copy_fields(&t.fields), span: t.span },
        ),
    }
}

/// A deep copy of a block.
pub fn copy_block(b: &Block) -> (r: Block)
    ensures
        view_block(r) == view_block(*b),
    decreases b,
{
    proof {
        assert(decreases_to!(*b => b.stmts));
    }
    let stmts = copy_stmts(&b.stmts);
    Block { stmts, span: b.span }
}

/// Deep copies of a list of statements.
pub fn copy_stmts(v: &Vec<Statement>) -> (r: Vec<Statement>)
    ensures
        view_stmts(r@) == view_stmts(v@),
    decreases v,
{
    let mut out: Vec<Statement> = Vec::new();
    let mut i: usize = 0;
    while i < v.len()
        invariant
            i <= v.len(),
            view_stmts(out@) == view_stmts(v@.subrange(0, i as int)),
        decreases v.len() - i,
    {
        proof {
            lemma_stmts_prefix(v@, i as int);
            assert(decreases_to!(*v => v@));
            assert(decreases_to!(v@ => v@[i as int]));
        }
        let s = copy_stmt(&v[i]);
        let ghost before = out@;
        out.push(s);
        proof {
            assert(out@.drop_last() =~= before);
        }
        i += 1;
    }
    assert(v@.subrange(0, v.len() as int) =~= v@);
    out
}

fn copy_elseif(c: &ElseIf) -> (r: ElseIf)
    ensures
        view_elseif(r) == view_elseif(*c),
    decreases c,
{
    ElseIf { condition: Box::new(copy_expr(&c.condition)), body: copy_block(&c.body), span: c.span }
}

fn copy_elseifs(v: &Vec<ElseIf>) -> (r: Vec<ElseIf>)
    ensures
        view_elseifs(r@) == view_elseifs(v@),
    decreases v,
{
    let mut out: Vec<ElseIf> = Vec::new();
    let mut i: usize = 0;
    while i < v.len()
        invariant
            i <= v.len(),
            view_elseifs(out@) == view_elseifs(v@.subrange(0, i as int)),
        decreases v.len() - i,
    {
        proof {
            lemma_elseifs_prefix(v@, i as int);
            assert(decreases_to!(*v => v@));
            assert(decreases_to!(v@ => v@[i as int]));
        }
        let x = copy_elseif(&v[i]);
        let ghost before = out@;
        out.push(x);
        proof {
            assert(out@.drop_last() =~= before);
        }
        i += 1;
    }
    assert(v@.subrange(0, v.len() as int) =~= v@);
    out
}

/// A deep copy of a statement.
#[verifier::rlimit(60)]
pub fn copy_stmt(s: &Statement) -> (r: Statement)
    ensures
        view_stmt(r) == view_stmt(*s),
    decreases s,
{
    match s {
        Statement::LocalDecl(d) => Statement::LocalDecl(
            LocalDecl { names: copy_local_names(&d.names), values: copy_exprs(&d.values), span: d.span },
        ),
        Statement::Assign(a) => Statement::Assign(
            Assign { targets: copy_exprs(&a.targets), values: copy_exprs(&a.values), span: a.span },
        ),
        Statement::Do(d) => Statement::Do(Do { body: copy_block(&d.body), span: d.span }),
        Statement::While(w) => Statement::While(
            While { condition: Box::new(copy_expr(&w.condition)), body: copy_block(&w.body), span: w.span },
        ),
        Statement::Repeat(r) => Statement::Repeat(
            Repeat { body: copy_block(&r.body), condition: Box::new(copy_expr(&r.condition)), span: r.span },
        ),
        Statement::If(i) => {
            proof {
                assert(decreases_to!(*s => s->If_0));
                assert(decreases_to!(s->If_0 => i.elseif_clauses));
            }
            let else_block = match &i.else_block {
                Some(b) => Some(copy_block(b)),
                None => None,
            };
            Statement::If(
                If {
                    condition: Box::new(copy_expr(&i.condition)),
                    then_block: copy_block(&i.then_block),
                    elseif_clauses: copy_elseifs(&i.elseif_clauses),
                    else_block,
                    span: i.span,
                },
            )
        },
        Statement::NumericFor(f) => {
            let step = match &f.step {
                Some(x) => Some(Box::new(copy_expr(x))),
                None => None,
            };
            Statement::NumericFor(
                NumericFor {
                    var: f.var.clone(),
                    start: Box::new(copy_expr(&f.start)),
                    limit: Box::new(copy_expr(&f.limit)),
                    step,
                    body: copy_block(&f.body),
                    span: f.span,
                },
            )
        },
        Statement::GenericFor(f) => Statement::GenericFor(
            GenericFor {
                vars: copy_names(&f.vars),
                iterators: copy_exprs(&f.iterators),
                body: copy_block(&f.body),
                span: f.span,
            },
        ),
        Statement::FunctionDecl(f) => {
            let method = match &f.name.method {
                Some(m) => Some(m.clone()),
                None => None,
            };
            Statement::FunctionDecl(
                FunctionDecl {
                    name: FunctionName { parts: copy_names(&f.name.parts), method, span: f.name.span },
                    func: copy_func(&f.func),
                    span: f.span,
                },
            )
        },
        Statement::LocalFunctionDecl(f) => Statement::LocalFunctionDecl(
            LocalFunctionDecl { name: f.name.clone(), func: copy_func(&f.func), span: f.span },
        ),
        Statement::Return(r) => Statement::Return(Return { values: copy_exprs(&r.values), span: r.span }),
        Statement::Break(sp) => Statement::Break(*sp),
        Statement::Goto(g) => Statement::Goto(Goto { label: g.label.clone(), span: g.span }),
        Statement::Label(l) => Statement::Label(Label { name: l.name.clone(), span: l.span }),
        Statement::ExprStmt(e) => Statement::ExprStmt(copy_expr(e)),
    }
}

} // verus!
