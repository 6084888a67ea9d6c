//! AST passes that lower Lua 5.5 features to Lua 5.1 equivalents.

use vstd::prelude::*;

use crate::ast::{
    lemma_view_elseifs, lemma_view_exprs, lemma_view_fields, lemma_view_stmts, ExprV,
    view_block, view_elseif, view_func, view_elseifs, view_expr, view_exprs, view_field, view_fields,
    view_local_names, view_stmt, view_stmts, Attribute, BinaryOp, Block, Call, ElseIf, Expression, If, LocalName,
    Statement, TableField, UnaryOp,
};
use crate::diagnostics::Span;
use crate::polyfills::FeatureSet;
use crate::walk::{
    lemma_map_elseifs, lemma_map_exprs, lemma_map_fields, lemma_map_stmts, map_block,
    map_elseif, map_elseifs, map_func, map_expr, map_exprs, map_field, map_fields, map_stmt, map_stmts,
    block_features, elseifs_features, expr_features, exprs_features, fields_features,
    close_only, elseif_features, field_features, has_close_name, is_bitwise_binop, no_fs, node_features, or_fs, stmt_features, stmts_features,
};

verus! {

// ── Feature detection ────────────────────────────────────────────────────────

pub proof fn lemma_exprs_prefix(s: Seq<Expression>, i: int)
    requires
        0 <= i < s.len(),
    ensures
        view_exprs(s.subrange(0, i + 1)) == view_exprs(s.subrange(0, i)).push(view_expr(s[i])),
{
    assert(s.subrange(0, i + 1).drop_last() =~= s.subrange(0, i));
}

pub proof fn lemma_stmts_prefix(s: Seq<Statement>, i: int)
    requires
        0 <= i < s.len(),
    ensures
        view_stmts(s.subrange(0, i + 1)) == view_stmts(s.subrange(0, i)).push(view_stmt(s[i])),
{
    assert(s.subrange(0, i + 1).drop_last() =~= s.subrange(0, i));
}

pub proof fn lemma_fields_prefix(s: Seq<TableField>, i: int)
    requires
        0 <= i < s.len(),
    ensures
        view_fields(s.subrange(0, i + 1)) == view_fields(s.subrange(0, i)).push(view_field(s[i])),
{
    assert(s.subrange(0, i + 1).drop_last() =~= s.subrange(0, i));
}

pub proof fn lemma_elseifs_prefix(s: Seq<ElseIf>, i: int)
    requires
        0 <= i < s.len(),
    ensures
        view_elseifs(s.subrange(0, i + 1)) == view_elseifs(s.subrange(0, i)).push(
            view_elseif(s[i]),
        ),
{
    assert(s.subrange(0, i + 1).drop_last() =~= s.subrange(0, i));
}

pub proof fn lemma_push_drop<A>(s: Seq<A>, x: A)
    ensures
        s.push(x).drop_last() == s,
        s.push(x).last() == x,
{
    assert(s.push(x).drop_last() =~= s);
}

fn detect_exprs(v: &Vec<Expression>, fs: &mut FeatureSet)
    ensures
        *final(fs) == or_fs(*old(fs), exprs_features(view_exprs(v@))),
    decreases v,
{
    let mut i: usize = 0;
    while i < v.len()
        invariant
            i <= v.len(),
            *fs == or_fs(*old(fs), exprs_features(view_exprs(v@.subrange(0, i as int)))),
        decreases v.len() - i,
    {
        proof {
            lemma_exprs_prefix(v@, i as int);
            lemma_push_drop(view_exprs(v@.subrange(0, i as int)), view_expr(v@[i as int]));
            assert(decreases_to!(*v => v@));
            assert(decreases_to!(v@ => v@[i as int]));
        }
        detect_expr(&v[i], fs);
        i += 1;
    }
    assert(v@.subrange(0, v.len() as int) =~= v@);
}

fn detect_fields(v: &Vec<TableField>, fs: &mut FeatureSet)
    ensures
        *final(fs) == or_fs(*old(fs), fields_features(view_fields(v@))),
    decreases v,
{
    let mut i: usize = 0;
    while i < v.len()
        invariant
            i <= v.len(),
            *fs == or_fs(*old(fs), fields_features(view_fields(v@.subrange(0, i as int)))),
        decreases v.len() - i,
    {
        proof {
            lemma_fields_prefix(v@, i as int);
            lemma_push_drop(view_fields(v@.subrange(0, i as int)), view_field(v@[i as int]));
            assert(decreases_to!(*v => v@));
            assert(decreases_to!(v@ => v@[i as int]));
        }
        match &v[i] {
            TableField::ExprKey { key, value, .. } => {
                assert(field_features(view_field(v@[i as int])) == or_fs(
                    expr_features(key@),
                    expr_features(value@),
                ));
                detect_expr(key, fs);
                detect_expr(value, fs);
            },
            TableField::NameKey { value, .. } => {
                assert(field_features(view_field(v@[i as int])) == expr_features(value@));
                detect_expr(value, fs);
            },
            TableField::Positional(value) => {
                assert(field_features(view_field(v@[i as int])) == expr_features(value@));
                detect_expr(value, fs);
            },
        }
        i += 1;
    }
    assert(v@.subrange(0, v.len() as int) =~= v@);
}

fn detect_block(block: &Block, fs: &mut FeatureSet)
    ensures
        *final(fs) == or_fs(*old(fs), block_features(block@)),
    decreases block,
{
    let mut i: usize = 0;
    proof {
        assert(decreases_to!(*block => block.stmts));
    }
    while i < block.stmts.len()
        invariant
            i <= block.stmts.len(),
            decreases_to!(*block => block.stmts),
            *fs == or_fs(
                *old(fs),
                stmts_features(view_stmts(block.stmts@.subrange(0, i as int))),
            ),
        decreases block.stmts.len() - i,
    {
        proof {
            lemma_stmts_prefix(block.stmts@, i as int);
            lemma_push_drop(
                view_stmts(block.stmts@.subrange(0, i as int)),
                view_stmt(block.stmts@[i as int]),
            );
            assert(decreases_to!(block.stmts => block.stmts@));
            assert(decreases_to!(block.stmts@ => block.stmts@[i as int]));
        }
        detect_stmt(&block.stmts[i], fs);
        i += 1;
    }
    assert(block.stmts@.subrange(0, block.stmts.len() as int) =~= block.stmts@);
}

fn detect_close_names(names: &Vec<LocalName>, fs: &mut FeatureSet)
    ensures
        *final(fs) == or_fs(
            *old(fs),
            close_only(has_close_name(view_local_names(names@))),
        ),
{
    let mut i: usize = 0;
    while i < names.len()
        invariant
            i <= names.len(),
            *fs == or_fs(
                *old(fs),
                FeatureSet {
                    close_attribute: exists|j: int|
                        0 <= j < i && names@[j].attribute == Some(Attribute::Close),
                    ..no_fs()
                },
            ),
        decreases names.len() - i,
    {
        if names[i].attribute == Some(Attribute::Close) {
            fs.close_attribute = true;
        }
        i += 1;
    }
    assert(has_close_name(view_local_names(names@)) == exists|j: int|
        0 <= j < names.len() && names@[j].attribute == Some(Attribute::Close)) by {
        if exists|j: int| 0 <= j < names.len() && names@[j].attribute == Some(Attribute::Close) {
            let j = choose|j: int|
                0 <= j < names.len() && names@[j].attribute == Some(Attribute::Close);
            assert(view_local_names(names@)[j].attribute == Some(Attribute::Close));
        }
        if has_close_name(view_local_names(names@)) {
            let j = choose|j: int|
                0 <= j < view_local_names(names@).len() && view_local_names(names@)[j].attribute
                    == Some(Attribute::Close);
            assert(names@[j].attribute == Some(Attribute::Close));
        }
    }
}

fn detect_elseifs(v: &Vec<ElseIf>, fs: &mut FeatureSet)
    ensures
        *final(fs) == or_fs(*old(fs), elseifs_features(view_elseifs(v@))),
    decreases v,
{
    let mut i: usize = 0;
    while i < v.len()
        invariant
            i <= v.len(),
            *fs == or_fs(*old(fs), elseifs_features(view_elseifs(v@.subrange(0, i as int)))),
        decreases v.len() - i,
    {
        proof {
            lemma_elseifs_prefix(v@, i as int);
            lemma_push_drop(view_elseifs(v@.subrange(0, i as int)), view_elseif(v@[i as int]));
            assert(decreases_to!(*v => v@));
            assert(decreases_to!(v@ => v@[i as int]));
        }
        let clause = &v[i];
        assert(elseif_features(view_elseif(*clause)) == or_fs(
            expr_features(view_expr(*clause.condition)),
            block_features(view_block(clause.body)),
        ));
        detect_expr(&clause.condition, fs);
        detect_block(&clause.body, fs);
        i += 1;
    }
    assert(v@.subrange(0, v.len() as int) =~= v@);
}

fn detect_stmt(stmt: &Statement, fs: &mut FeatureSet)
    ensures
        *final(fs) == or_fs(*old(fs), stmt_features(stmt@)),
    decreases stmt,
{
    match stmt {
        Statement::LocalDecl(d) => {
            detect_close_names(&d.names, fs);
            detect_exprs(&d.values, fs);
        },
        Statement::Assign(a) => {
            detect_exprs(&a.targets, fs);
            detect_exprs(&a.values, fs);
        },
        Statement::Return(r) => {
            detect_exprs(&r.values, fs);
        },
        Statement::ExprStmt(e) => detect_expr(e, fs),
        Statement::Do(b) => detect_block(&b.body, fs),
        Statement::While(w) => {
            detect_expr(&w.condition, fs);
            detect_block(&w.body, fs);
        },
        Statement::Repeat(r) => {
            detect_block(&r.body, fs);
            detect_expr(&r.condition, fs);
        },
        Statement::If(i) => {
            detect_expr(&i.condition, fs);
            detect_block(&i.then_block, fs);
            proof {
                assert(decreases_to!(*stmt => stmt->If_0));
                assert(decreases_to!(stmt->If_0 => i.elseif_clauses));
            }
            detect_elseifs(&i.elseif_clauses, fs);
            if let Some(else_block) = &i.else_block {
                detect_block(else_block, fs);
            }
        },
        Statement::NumericFor(f) => {
            detect_expr(&f.start, fs);
            detect_expr(&f.limit, fs);
            if let Some(step) = &f.step {
                detect_expr(step, fs);
            }
            detect_block(&f.body, fs);
        },
        Statement::GenericFor(f) => {
            detect_exprs(&f.iterators, fs);
            detect_block(&f.body, fs);
        },
        Statement::FunctionDecl(f) => detect_block(&f.func.body, fs),
        Statement::LocalFunctionDecl(f) => detect_block(&f.func.body, fs),
        _ => {},
    }
}

/// Whether `op` is one of the five bitwise binary operators.
pub fn is_bitwise_op(op: BinaryOp) -> (r: bool)
    ensures
        r == is_bitwise_binop(op),
{
    match op {
        BinaryOp::BitwiseAnd | BinaryOp::BitwiseOr | BinaryOp::BitwiseXor | BinaryOp::Shl
        | BinaryOp::Shr => true,
        _ => false,
    }
}

#[verifier::rlimit(50)]
fn detect_expr(expr: &Expression, fs: &mut FeatureSet)
    ensures
        *final(fs) == or_fs(*old(fs), expr_features(expr@)),
    decreases expr,
{
    match expr {
        Expression::BinOp(lhs, op, rhs, _) => {
            if is_bitwise_op(*op) {
                fs.bitwise_ops = true;
            }
            if *op == BinaryOp::IDiv {
                fs.integer_div = true;
            }
            detect_expr(lhs, fs);
            detect_expr(rhs, fs);
            assert(expr_features(expr@) == or_fs(
                node_features(expr@),
                or_fs(expr_features(lhs@), expr_features(rhs@)),
            ));
        },
        Expression::UnOp(op, operand, _) => {
            if *op == UnaryOp::BitwiseNot {
                fs.bitwise_ops = true;
            }
            detect_expr(operand, fs);
        },
        Expression::Call(Call::Call { func, args, .. }) => {
            detect_expr(func, fs);
            detect_exprs(args, fs);
        },
        Expression::Call(Call::MethodCall { obj, args, .. }) => {
            detect_expr(obj, fs);
            detect_exprs(args, fs);
        },
        Expression::Table(t) => detect_fields(&t.fields, fs),
        Expression::Function(f) => {
            assert(view_func(*f).body == view_block(f.body));
            detect_block(&f.body, fs);
        },
        Expression::Index(base, _, _) => detect_expr(base, fs),
        Expression::IndexExpr(base, key, _) => {
            detect_expr(base, fs);
            detect_expr(key, fs);
        },
        _ => {},
    }
}

} // verus!

verus! {

/// The feature-detection pass: records which Lua 5.5 features a block uses.
#[derive(Debug)]
pub struct FeatureDetector {
    pub feature_set: FeatureSet,
}

impl FeatureDetector {
    pub fn new() -> (r: Self)
        ensures
            r.feature_set == no_fs(),
    {
        FeatureDetector { feature_set: FeatureSet::default() }
    }

    /// Walk `block` and return the set of Lua 5.5 features used.
    pub fn detect(block: &Block) -> (r: FeatureSet)
        ensures
            r == block_features(block@),
    {
        let mut fs = FeatureSet::default();
        detect_block(block, &mut fs);
        fs
    }
}

// ── Node rewrites ────────────────────────────────────────────────────────────

/// A rewrite of single expression nodes, applied bottom-up to a whole tree.
pub trait NodeRewrite {
    /// What the rewrite makes of one node whose children are already rewritten.
    spec fn node(e: ExprV) -> ExprV;

    /// Rewrites one node.
    fn rewrite_node(e: Expression) -> (r: Expression)
        ensures
            r@ == Self::node(e@),
    ;
}

/// The node rewrite of `R` as a function value.
pub open spec fn lowering_of<R: NodeRewrite>() -> spec_fn(ExprV) -> ExprV {
    |e: ExprV| R::node(e)
}

/// `bit.<method>(args…)`, every node carrying `span`.
pub open spec fn bit_call(method: Seq<char>, args: Seq<ExprV>, span: Span) -> ExprV {
    ExprV::Call {
        func: Box::new(
            ExprV::Index {
                base: Box::new(ExprV::Name { name: "bit"@, span }),
                field: method,
                span,
            },
        ),
        args,
        span,
    }
}

/// The `bit` library function that implements a bitwise binary operator.
pub open spec fn bit_method(op: BinaryOp) -> Seq<char> {
    match op {
        BinaryOp::BitwiseAnd => "band"@,
        BinaryOp::BitwiseOr => "bor"@,
        BinaryOp::BitwiseXor => "bxor"@,
        BinaryOp::Shl => "lshift"@,
        _ => "rshift"@,
    }
}

/// `a & b`, `a | b`, `a ~ b`, `a << b`, `a >> b` and `~a` become `bit.*` calls
/// with the same operands; every other node is left as it is.
pub open spec fn lower_bitwise_node(e: ExprV) -> ExprV {
    match e {
        ExprV::BinOp { lhs, op, rhs, span } => if is_bitwise_binop(op) {
            bit_call(bit_method(op), seq![*lhs, *rhs], span)
        } else {
            e
        },
        ExprV::UnOp { op, operand, span } => if op == UnaryOp::BitwiseNot {
            bit_call("bnot"@, seq![*operand], span)
        } else {
            e
        },
        _ => e,
    }
}

/// `a // b` becomes `math.floor(a / b)`, every node carrying the span of the
/// `//` node; every other node is left as it is.
pub open spec fn lower_idiv_node(e: ExprV) -> ExprV {
    match e {
        ExprV::BinOp { lhs, op, rhs, span } => if op == BinaryOp::IDiv {
            ExprV::Call {
                func: Box::new(
                    ExprV::Index {
                        base: Box::new(ExprV::Name { name: "math"@, span }),
                        field: "floor"@,
                        span,
                    },
                ),
                args: seq![ExprV::BinOp { lhs, op: BinaryOp::Div, rhs, span }],
                span,
            }
        } else {
            e
        },
        _ => e,
    }
}

proof fn lemma_view_two(a: Expression, b: Expression)
    ensures
        view_exprs(seq![a, b]) == seq![view_expr(a), view_expr(b)],
{
    lemma_view_exprs(seq![a, b]);
    assert(view_exprs(seq![a, b]) =~= seq![view_expr(a), view_expr(b)]);
}

proof fn lemma_view_one(a: Expression)
    ensures
        view_exprs(seq![a]) == seq![view_expr(a)],
{
    lemma_view_exprs(seq![a]);
    assert(view_exprs(seq![a]) =~= seq![view_expr(a)]);
}

fn make_bit_call(method: &str, args: Vec<Expression>, span: Span) -> (r: Expression)
    ensures
        r@ == bit_call(method@, view_exprs(args@), span),
{
    let name = Expression::Name("bit".to_owned(), span);
    assert(name@ == (ExprV::Name { name: "bit"@, span }));
    let index = Expression::Index(Box::new(name), method.to_owned(), span);
    assert(index@ == (ExprV::Index { base: Box::new(name@), field: method@, span }));
    let r = Expression::Call(Call::Call { func: Box::new(index), args, span });
    assert(r@ == (ExprV::Call { func: Box::new(index@), args: view_exprs(args@), span }));
    r
}

/// Lowers bitwise operators to LuaJIT `bit` library calls.
pub struct BitwiseLowering;

impl NodeRewrite for BitwiseLowering {
    open spec fn node(e: ExprV) -> ExprV {
        lower_bitwise_node(e)
    }

    fn rewrite_node(e: Expression) -> (r: Expression) {
        match e {
            Expression::BinOp(lhs, op, rhs, span) => {
                if is_bitwise_op(op) {
                    let method = match op {
                        BinaryOp::BitwiseAnd => "band",
                        BinaryOp::BitwiseOr => "bor",
                        BinaryOp::BitwiseXor => "bxor",
                        BinaryOp::Shl => "lshift",
                        _ => "rshift",
                    };
                    let l = *lhs;
                    let r = *rhs;
                    proof {
                        lemma_view_two(l, r);
                    }
                    assert(method@ == bit_method(op));
                    let args = vec![l, r];
                    assert(args@ == seq![l, r]);
                    make_bit_call(method, args, span)
                } else {
                    Expression::BinOp(lhs, op, rhs, span)
                }
            },
            Expression::UnOp(op, operand, span) => {
                if op == UnaryOp::BitwiseNot {
                    let x = *operand;
                    proof {
                        lemma_view_one(x);
                    }
                    let args = vec![x];
                    assert(args@ == seq![x]);
                    make_bit_call("bnot", args, span)
                } else {
                    Expression::UnOp(op, operand, span)
                }
            },
            other => other,
        }
    }
}

/// Lowers integer division to `math.floor` of a float division.
pub struct IdivLowering;

impl NodeRewrite for IdivLowering {
    open spec fn node(e: ExprV) -> ExprV {
        lower_idiv_node(e)
    }

    fn rewrite_node(e: Expression) -> (r: Expression) {
        match e {
            Expression::BinOp(lhs, op, rhs, span) => {
                if op == BinaryOp::IDiv {
                    let div = Expression::BinOp(lhs, BinaryOp::Div, rhs, span);
                    proof {
                        lemma_view_one(div);
                    }
                    assert(div@ == (ExprV::BinOp {
                        lhs: Box::new(view_expr(*lhs)),
                        op: BinaryOp::Div,
                        rhs: Box::new(view_expr(*rhs)),
                        span,
                    }));
                    let name = Expression::Name("math".to_owned(), span);
                    assert(name@ == (ExprV::Name { name: "math"@, span }));
                    let index = Expression::Index(Box::new(name), "floor".to_owned(), span);
                    assert(index@ == (ExprV::Index { base: Box::new(name@), field: "floor"@, span }));
                    let args = vec![div];
                    assert(args@ == seq![div]);
                    let r = Expression::Call(Call::Call { func: Box::new(index), args, span });
                    assert(r@ == (ExprV::Call { func: Box::new(index@), args: view_exprs(args@), span }));
                    r
                } else {
                    Expression::BinOp(lhs, op, rhs, span)
                }
            },
            other => other,
        }
    }
}

// ── Bottom-up rewriting ──────────────────────────────────────────────────────

fn rewrite_exprs<R: NodeRewrite>(v: &mut Vec<Expression>)
    ensures
        view_exprs(final(v)@) == map_exprs(view_exprs(old(v)@), lowering_of::<R>()),
    decreases *old(v),
{
    let ghost old_v = v@;
    let mut i: usize = 0;
    while i < v.len()
        invariant
            i <= v.len(),
            v.len() == old_v.len(),
            old(v)@ == old_v,
            decreases_to!(*old(v) => old_v),
            forall|j: int|
                0 <= j < i ==> view_expr(#[trigger] v@[j]) == map_expr(
                    view_expr(old_v[j]),
                    lowering_of::<R>(),
                ),
            forall|j: int| i <= j < v.len() ==> #[trigger] v@[j] == old_v[j],
        decreases v.len() - i,
    {
        proof {
            assert(decreases_to!(old_v => old_v[i as int]));
        }
        rewrite_expr::<R>(&mut v[i]);
        i += 1;
    }
    proof {
        lemma_view_exprs(v@);
        lemma_view_exprs(old_v);
        lemma_map_exprs(view_exprs(old_v), lowering_of::<R>());
        assert(view_exprs(v@) =~= map_exprs(view_exprs(old_v), lowering_of::<R>()));
    }
}

fn rewrite_fields<R: NodeRewrite>(v: &mut Vec<TableField>)
    ensures
        view_fields(final(v)@) == map_fields(view_fields(old(v)@), lowering_of::<R>()),
    decreases *old(v),
{
    let ghost old_v = v@;
    let mut i: usize = 0;
    while i < v.len()
        invariant
            i <= v.len(),
            v.len() == old_v.len(),
            old(v)@ == old_v,
            decreases_to!(*old(v) => old_v),
            forall|j: int|
                0 <= j < i ==> view_field(#[trigger] v@[j]) == map_field(
                    view_field(old_v[j]),
                    lowering_of::<R>(),
                ),
            forall|j: int| i <= j < v.len() ==> #[trigger] v@[j] == old_v[j],
        decreases v.len() - i,
    {
        proof {
            assert(decreases_to!(old_v => old_v[i as int]));
        }
        rewrite_field::<R>(&mut v[i]);
        i += 1;
    }
    proof {
        lemma_view_fields(v@);
        lemma_view_fields(old_v);
        lemma_map_fields(view_fields(old_v), lowering_of::<R>());
        assert(view_fields(v@) =~= map_fields(view_fields(old_v), lowering_of::<R>()));
    }
}

fn rewrite_field<R: NodeRewrite>(f: &mut TableField)
    ensures
        view_field(*final(f)) == map_field(view_field(*old(f)), lowering_of::<R>()),
    decreases *old(f),
{
    match f {
        TableField::ExprKey { key, value, .. } => {
            rewrite_expr::<R>(key);
            rewrite_expr::<R>(value);
        },
        TableField::NameKey { value, .. } => rewrite_expr::<R>(value),
        TableField::Positional(value) => rewrite_expr::<R>(value),
    }
}

fn rewrite_elseifs<R: NodeRewrite>(v: &mut Vec<ElseIf>)
    ensures
        view_elseifs(final(v)@) == map_elseifs(view_elseifs(old(v)@), lowering_of::<R>()),
    decreases *old(v),
{
    let ghost old_v = v@;
    let mut i: usize = 0;
    while i < v.len()
        invariant
            i <= v.len(),
            v.len() == old_v.len(),
            old(v)@ == old_v,
            decreases_to!(*old(v) => old_v),
            forall|j: int|
                0 <= j < i ==> view_elseif(#[trigger] v@[j]) == map_elseif(
                    view_elseif(old_v[j]),
                    lowering_of::<R>(),
                ),
            forall|j: int| i <= j < v.len() ==> #[trigger] v@[j] == old_v[j],
        decreases v.len() - i,
    {
        proof {
            assert(decreases_to!(old_v => old_v[i as int]));
        }
        rewrite_elseif::<R>(&mut v[i]);
        i += 1;
    }
    proof {
        lemma_view_elseifs(v@);
        lemma_view_elseifs(old_v);
        lemma_map_elseifs(view_elseifs(old_v), lowering_of::<R>());
        assert(view_elseifs(v@) =~= map_elseifs(view_elseifs(old_v), lowering_of::<R>()));
    }
}

fn rewrite_elseif<R: NodeRewrite>(clause: &mut ElseIf)
    ensures
        view_elseif(*final(clause)) == map_elseif(view_elseif(*old(clause)), lowering_of::<R>()),
    decreases *old(clause),
{
    rewrite_expr::<R>(&mut clause.condition);
    rewrite_block::<R>(&mut clause.body);
}

/// Rewrites every expression node of `block` bottom-up with `R`.
pub fn rewrite_block<R: NodeRewrite>(block: &mut Block)
    ensures
        final(block)@ == map_block(old(block)@, lowering_of::<R>()),
    decreases *old(block),
{
    let ghost old_v = block.stmts@;
    let mut i: usize = 0;
    while i < block.stmts.len()
        invariant
            i <= block.stmts.len(),
            block.stmts.len() == old_v.len(),
            old(block).stmts@ == old_v,
            block.span == old(block).span,
            decreases_to!(*old(block) => old_v),
            forall|j: int|
                0 <= j < i ==> view_stmt(#[trigger] block.stmts@[j]) == map_stmt(
                    view_stmt(old_v[j]),
                    lowering_of::<R>(),
                ),
            forall|j: int| i <= j < block.stmts.len() ==> #[trigger] block.stmts@[j] == old_v[j],
        decreases block.stmts.len() - i,
    {
        proof {
            assert(decreases_to!(old_v => old_v[i as int]));
        }
        rewrite_stmt::<R>(&mut block.stmts[i]);
        i += 1;
    }
    proof {
        lemma_view_stmts(block.stmts@);
        lemma_view_stmts(old_v);
        lemma_map_stmts(view_stmts(old_v), lowering_of::<R>());
        assert(view_stmts(block.stmts@) =~= map_stmts(view_stmts(old_v), lowering_of::<R>()));
    }
}

#[verifier::rlimit(50)]
fn rewrite_stmt<R: NodeRewrite>(stmt: &mut Statement)
    ensures
        final(stmt)@ == map_stmt(old(stmt)@, lowering_of::<R>()),
    decreases *old(stmt),
{
    match stmt {
        Statement::LocalDecl(d) => rewrite_exprs::<R>(&mut d.values),
        Statement::Assign(a) => {
            rewrite_exprs::<R>(&mut a.targets);
            rewrite_exprs::<R>(&mut a.values);
        },
        Statement::Return(r) => rewrite_exprs::<R>(&mut r.values),
        Statement::ExprStmt(e) => rewrite_expr::<R>(e),
        Statement::Do(b) => rewrite_block::<R>(&mut b.body),
        Statement::While(w) => {
            rewrite_expr::<R>(&mut w.condition);
            rewrite_block::<R>(&mut w.body);
        },
        Statement::Repeat(r) => {
            rewrite_block::<R>(&mut r.body);
            rewrite_expr::<R>(&mut r.condition);
        },
        Statement::If(i) => rewrite_if::<R>(i),
        Statement::NumericFor(f) => {
            rewrite_expr::<R>(&mut f.start);
            rewrite_expr::<R>(&mut f.limit);
            match &mut f.step {
                Some(step) => rewrite_expr::<R>(step),
                None => {},
            }
            rewrite_block::<R>(&mut f.body);
        },
        Statement::GenericFor(f) => {
            rewrite_exprs::<R>(&mut f.iterators);
            rewrite_block::<R>(&mut f.body);
        },
        Statement::FunctionDecl(f) => {
            let ghost old_func = f.func;
            rewrite_block::<R>(&mut f.func.body);
            assert(view_func(f.func) == map_func(view_func(old_func), lowering_of::<R>()));
        },
        Statement::LocalFunctionDecl(f) => {
            let ghost old_func = f.func;
            rewrite_block::<R>(&mut f.func.body);
            assert(view_func(f.func) == map_func(view_func(old_func), lowering_of::<R>()));
        },
        _ => {},
    }
}

fn rewrite_if<R: NodeRewrite>(i: &mut If)
    ensures
        view_stmt(Statement::If(*final(i))) == map_stmt(
            view_stmt(Statement::If(*old(i))),
            lowering_of::<R>(),
        ),
    decreases *old(i),
{
    rewrite_expr::<R>(&mut i.condition);
    rewrite_block::<R>(&mut i.then_block);
    rewrite_elseifs::<R>(&mut i.elseif_clauses);
    match &mut i.else_block {
        Some(else_block) => rewrite_block::<R>(else_block),
        None => {},
    }
}

#[verifier::rlimit(50)]
fn rewrite_expr<R: NodeRewrite>(expr: &mut Expression)
    ensures
        final(expr)@ == map_expr(old(expr)@, lowering_of::<R>()),
    decreases *old(expr),
{
    let mut node = Expression::Nil(Span::dummy());
    std::mem::swap(&mut node, expr);
    let rebuilt = match node {
        Expression::BinOp(lhs, op, rhs, span) => {
            let mut l = *lhs;
            let mut r = *rhs;
            rewrite_expr::<R>(&mut l);
            rewrite_expr::<R>(&mut r);
            Expression::BinOp(Box::new(l), op, Box::new(r), span)
        },
        Expression::UnOp(op, operand, span) => {
            let mut x = *operand;
            rewrite_expr::<R>(&mut x);
            Expression::UnOp(op, Box::new(x), span)
        },
        Expression::Call(Call::Call { func, args, span }) => {
            let mut f = *func;
            let mut a = args;
            rewrite_expr::<R>(&mut f);
            rewrite_exprs::<R>(&mut a);
            Expression::Call(Call::Call { func: Box::new(f), args: a, span })
        },
        Expression::Call(Call::MethodCall { obj, method, args, span }) => {
            let mut o = *obj;
            let mut a = args;
            rewrite_expr::<R>(&mut o);
            rewrite_exprs::<R>(&mut a);
            Expression::Call(Call::MethodCall { obj: Box::new(o), method, args: a, span })
        },
        Expression::Table(t) => {
            let mut t = t;
            rewrite_fields::<R>(&mut t.fields);
            Expression::Table(t)
        },
        Expression::Function(f) => {
            let mut f = f;
            let ghost old_f = f;
            rewrite_block::<R>(&mut f.body);
            assert(view_func(f) == map_func(view_func(old_f), lowering_of::<R>()));
            Expression::Function(f)
        },
        Expression::Index(base, field, span) => {
            let mut b = *base;
            rewrite_expr::<R>(&mut b);
            Expression::Index(Box::new(b), field, span)
        },
        Expression::IndexExpr(base, key, span) => {
            let mut b = *base;
            let mut k = *key;
            rewrite_expr::<R>(&mut b);
            rewrite_expr::<R>(&mut k);
            Expression::IndexExpr(Box::new(b), Box::new(k), span)
        },
        other => other,
    };
    *expr = R::rewrite_node(rebuilt);
}

} // verus!
