//! Structural walks over the AST model that the transform passes are
//! specified with: a bottom-up rewrite of every expression node, and the
//! feature summary of a tree.

use vstd::prelude::*;

use crate::ast::{Attribute, BinaryOp, BlockV, ElseIfV, ExprV, FieldV, FuncV, LocalNameV, StmtV, UnaryOp};
use crate::diagnostics::Span;
use crate::polyfills::FeatureSet;

verus! {

// ── Bottom-up expression rewriting ───────────────────────────────────────────

/// Rewrites every expression node of `e`, children first, with `f`.
pub open spec fn map_expr(e: ExprV, f: spec_fn(ExprV) -> ExprV) -> ExprV
    decreases e,
{
    match e {
        ExprV::Index { base, field, span } => f(
            ExprV::Index { base: Box::new(map_expr(*base, f)), field, span },
        ),
        ExprV::IndexExpr { base, key, span } => f(
            ExprV::IndexExpr {
                base: Box::new(map_expr(*base, f)),
                key: Box::new(map_expr(*key, f)),
                span,
            },
        ),
        ExprV::BinOp { lhs, op, rhs, span } => f(
            ExprV::BinOp {
                lhs: Box::new(map_expr(*lhs, f)),
                op,
                rhs: Box::new(map_expr(*rhs, f)),
                span,
            },
        ),
        ExprV::UnOp { op, operand, span } => f(
            ExprV::UnOp { op, operand: Box::new(map_expr(*operand, f)), span },
        ),
        ExprV::Call { func, args, span } => f(
            ExprV::Call { func: Box::new(map_expr(*func, f)), args: map_exprs(args, f), span },
        ),
        ExprV::MethodCall { obj, method, args, span } => f(
            ExprV::MethodCall {
                obj: Box::new(map_expr(*obj, f)),
                method,
                args: map_exprs(args, f),
                span,
            },
        ),
        ExprV::Function { func } => f(ExprV::Function { func: map_func(func, f) }),
        ExprV::Table { fields, span } => f(ExprV::Table { fields: map_fields(fields, f), span }),
        _ => f(e),
    }
}

pub open spec fn map_exprs(s: Seq<ExprV>, f: spec_fn(ExprV) -> ExprV) -> Seq<ExprV>
    decreases s,
{
    if s.len() == 0 {
        Seq::empty()
    } else {
        map_exprs(s.drop_last(), f).push(map_expr(s.last(), f))
    }
}

pub open spec fn map_field(x: FieldV, f: spec_fn(ExprV) -> ExprV) -> FieldV
    decreases x,
{
    match x {
        FieldV::ExprKey { key, value, span } => FieldV::ExprKey {
            key: map_expr(key, f),
            value: map_expr(value, f),
            span,
        },
        FieldV::NameKey { key, value, span } => FieldV::NameKey {
            key,
            value: map_expr(value, f),
            span,
        },
        FieldV::Positional { value } => FieldV::Positional { value: map_expr(value, f) },
    }
}

pub open spec fn map_fields(s: Seq<FieldV>, f: spec_fn(ExprV) -> ExprV) -> Seq<FieldV>
    decreases s,
{
    if s.len() == 0 {
        Seq::empty()
    } else {
        map_fields(s.drop_last(), f).push(map_field(s.last(), f))
    }
}

pub open spec fn map_func(x: FuncV, f: spec_fn(ExprV) -> ExprV) -> FuncV
    decreases x,
{
    FuncV { body: map_block(x.body, f), ..x }
}

pub open spec fn map_block(b: BlockV, f: spec_fn(ExprV) -> ExprV) -> BlockV
    decreases b,
{
    BlockV { stmts: map_stmts(b.stmts, f), span: b.span }
}

pub open spec fn map_stmts(s: Seq<StmtV>, f: spec_fn(ExprV) -> ExprV) -> Seq<StmtV>
    decreases s,
{
    if s.len() == 0 {
        Seq::empty()
    } else {
        map_stmts(s.drop_last(), f).push(map_stmt(s.last(), f))
    }
}

pub open spec fn map_elseif(x: ElseIfV, f: spec_fn(ExprV) -> ExprV) -> ElseIfV
    decreases x,
{
    ElseIfV { condition: map_expr(x.condition, f), body: map_block(x.body, f), span: x.span }
}

pub open spec fn map_elseifs(s: Seq<ElseIfV>, f: spec_fn(ExprV) -> ExprV) -> Seq<ElseIfV>
    decreases s,
{
    if s.len() == 0 {
        Seq::empty()
    } else {
        map_elseifs(s.drop_last(), f).push(map_elseif(s.last(), f))
    }
}

pub open spec fn map_stmt(s: StmtV, f: spec_fn(ExprV) -> ExprV) -> StmtV
    decreases s,
{
    match s {
        StmtV::LocalDecl { names, values, span } => StmtV::LocalDecl {
            names,
            values: map_exprs(values, f),
            span,
        },
        StmtV::Assign { targets, values, span } => StmtV::Assign {
            targets: map_exprs(targets, f),
            values: map_exprs(values, f),
            span,
        },
        StmtV::Return { values, span } => StmtV::Return { values: map_exprs(values, f), span },
        StmtV::ExprStmt { expr } => StmtV::ExprStmt { expr: map_expr(expr, f) },
        StmtV::Do { body, span } => StmtV::Do { body: map_block(body, f), span },
        StmtV::While { condition, body, span } => StmtV::While {
            condition: map_expr(condition, f),
            body: map_block(body, f),
            span,
        },
        StmtV::Repeat { body, condition, span } => StmtV::Repeat {
            body: map_block(body, f),
            condition: map_expr(condition, f),
            span,
        },
        StmtV::If { condition, then_block, elseifs, else_block, span } => StmtV::If {
            condition: map_expr(condition, f),
            then_block: map_block(then_block, f),
            elseifs: map_elseifs(elseifs, f),
            else_block: match else_block {
                Some(b) => Some(map_block(b, f)),
                None => None,
            },
            span,
        },
        StmtV::NumericFor { var, start, limit, step, body, span } => StmtV::NumericFor {
            var,
            start: map_expr(start, f),
            limit: map_expr(limit, f),
            step: match step {
                Some(x) => Some(map_expr(x, f)),
                None => None,
            },
            body: map_block(body, f),
            span,
        },
        StmtV::GenericFor { vars, iterators, body, span } => StmtV::GenericFor {
            vars,
            iterators: map_exprs(iterators, f),
            body: map_block(body, f),
            span,
        },
        StmtV::FunctionDecl { parts, method, name_span, func, span } => StmtV::FunctionDecl {
            parts,
            method,
            name_span,
            func: map_func(func, f),
            span,
        },
        StmtV::LocalFunctionDecl { name, func, span } => StmtV::LocalFunctionDecl {
            name,
            func: map_func(func, f),
            span,
        },
        _ => s,
    }
}

pub proof fn lemma_map_exprs(s: Seq<ExprV>, f: spec_fn(ExprV) -> ExprV)
    ensures
        map_exprs(s, f).len() == s.len(),
        forall|i: int| 0 <= i < s.len() ==> #[trigger] map_exprs(s, f)[i] == map_expr(s[i], f),
    decreases s.len(),
{
    if s.len() > 0 {
        lemma_map_exprs(s.drop_last(), f);
    }
}

pub proof fn lemma_map_stmts(s: Seq<StmtV>, f: spec_fn(ExprV) -> ExprV)
    ensures
        map_stmts(s, f).len() == s.len(),
        forall|i: int| 0 <= i < s.len() ==> #[trigger] map_stmts(s, f)[i] == map_stmt(s[i], f),
    decreases s.len(),
{
    if s.len() > 0 {
        lemma_map_stmts(s.drop_last(), f);
    }
}

pub proof fn lemma_map_fields(s: Seq<FieldV>, f: spec_fn(ExprV) -> ExprV)
    ensures
        map_fields(s, f).len() == s.len(),
        forall|i: int| 0 <= i < s.len() ==> #[trigger] map_fields(s, f)[i] == map_field(s[i], f),
    decreases s.len(),
{
    if s.len() > 0 {
        lemma_map_fields(s.drop_last(), f);
    }
}

pub proof fn lemma_map_elseifs(s: Seq<ElseIfV>, f: spec_fn(ExprV) -> ExprV)
    ensures
        map_elseifs(s, f).len() == s.len(),
        forall|i: int|
            0 <= i < s.len() ==> #[trigger] map_elseifs(s, f)[i] == map_elseif(s[i], f),
    decreases s.len(),
{
    if s.len() > 0 {
        lemma_map_elseifs(s.drop_last(), f);
    }
}

// ── Removal of `<const>` attributes ──────────────────────────────────────────

/// A declared name with `<const>` dropped (`<close>` is kept).
pub open spec fn strip_name(n: LocalNameV) -> LocalNameV {
    LocalNameV {
        attribute: if n.attribute == Some(Attribute::Const) {
            None
        } else {
            n.attribute
        },
        ..n
    }
}

pub open spec fn strip_names(s: Seq<LocalNameV>) -> Seq<LocalNameV> {
    s.map_values(|n: LocalNameV| strip_name(n))
}

/// Drops `<const>` from every local declaration reachable through the
/// expression's nested function bodies; nothing else changes.
pub open spec fn strip_expr(e: ExprV) -> ExprV
    decreases e,
{
    match e {
        ExprV::Index { base, field, span } => ExprV::Index {
            base: Box::new(strip_expr(*base)),
            field,
            span,
        },
        ExprV::IndexExpr { base, key, span } => ExprV::IndexExpr {
            base: Box::new(strip_expr(*base)),
            key: Box::new(strip_expr(*key)),
            span,
        },
        ExprV::BinOp { lhs, op, rhs, span } => ExprV::BinOp {
            lhs: Box::new(strip_expr(*lhs)),
            op,
            rhs: Box::new(strip_expr(*rhs)),
            span,
        },
        ExprV::UnOp { op, operand, span } => ExprV::UnOp {
            op,
            operand: Box::new(strip_expr(*operand)),
            span,
        },
        ExprV::Call { func, args, span } => ExprV::Call {
            func: Box::new(strip_expr(*func)),
            args: strip_exprs(args),
            span,
        },
        ExprV::MethodCall { obj, method, args, span } => ExprV::MethodCall {
            obj: Box::new(strip_expr(*obj)),
            method,
            args: strip_exprs(args),
            span,
        },
        ExprV::Function { func } => ExprV::Function { func: strip_func(func) },
        ExprV::Table { fields, span } => ExprV::Table { fields: strip_fields(fields), span },
        _ => e,
    }
}

pub open spec fn strip_exprs(s: Seq<ExprV>) -> Seq<ExprV>
    decreases s,
{
    if s.len() == 0 {
        Seq::empty()
    } else {
        strip_exprs(s.drop_last()).push(strip_expr(s.last()))
    }
}

pub open spec fn strip_field(x: FieldV) -> FieldV
    decreases x,
{
    match x {
        FieldV::ExprKey { key, value, span } => FieldV::ExprKey {
            key: strip_expr(key),
            value: strip_expr(value),
            span,
        },
        FieldV::NameKey { key, value, span } => FieldV::NameKey {
            key,
            value: strip_expr(value),
            span,
        },
        FieldV::Positional { value } => FieldV::Positional { value: strip_expr(value) },
    }
}

pub open spec fn strip_fields(s: Seq<FieldV>) -> Seq<FieldV>
    decreases s,
{
    if s.len() == 0 {
        Seq::empty()
    } else {
        strip_fields(s.drop_last()).push(strip_field(s.last()))
    }
}

pub open spec fn strip_func(x: FuncV) -> FuncV
    decreases x,
{
    FuncV { body: strip_block(x.body), ..x }
}

pub open spec fn strip_block(b: BlockV) -> BlockV
    decreases b,
{
    BlockV { stmts: strip_stmts(b.stmts), span: b.span }
}

pub open spec fn strip_stmts(s: Seq<StmtV>) -> Seq<StmtV>
    decreases s,
{
    if s.len() == 0 {
        Seq::empty()
    } else {
        strip_stmts(s.drop_last()).push(strip_stmt(s.last()))
    }
}

pub open spec fn strip_elseif(x: ElseIfV) -> ElseIfV
    decreases x,
{
    ElseIfV { condition: strip_expr(x.condition), body: strip_block(x.body), span: x.span }
}

pub open spec fn strip_elseifs(s: Seq<ElseIfV>) -> Seq<ElseIfV>
    decreases s,
{
    if s.len() == 0 {
        Seq::empty()
    } else {
        strip_elseifs(s.drop_last()).push(strip_elseif(s.last()))
    }
}

/// Drops `<const>` from declarations; the targets of an assignment are not visited.
pub open spec fn strip_stmt(s: StmtV) -> StmtV
    decreases s,
{
    match s {
        StmtV::LocalDecl { names, values, span } => StmtV::LocalDecl {
            names: strip_names(names),
            values: strip_exprs(values),
            span,
        },
        StmtV::Assign { targets, values, span } => StmtV::Assign {
            targets,
            values: strip_exprs(values),
            span,
        },
        StmtV::Return { values, span } => StmtV::Return { values: strip_exprs(values), span },
        StmtV::ExprStmt { expr } => StmtV::ExprStmt { expr: strip_expr(expr) },
        StmtV::Do { body, span } => StmtV::Do { body: strip_block(body), span },
        StmtV::While { condition, body, span } => StmtV::While {
            condition: strip_expr(condition),
            body: strip_block(body),
            span,
        },
        StmtV::Repeat { body, condition, span } => StmtV::Repeat {
            body: strip_block(body),
            condition: strip_expr(condition),
            span,
        },
        StmtV::If { condition, then_block, elseifs, else_block, span } => StmtV::If {
            condition: strip_expr(condition),
            then_block: strip_block(then_block),
            elseifs: strip_elseifs(elseifs),
            else_block: match else_block {
                Some(b) => Some(strip_block(b)),
                None => None,
            },
            span,
        },
        StmtV::NumericFor { var, start, limit, step, body, span } => StmtV::NumericFor {
            var,
            start: strip_expr(start),
            limit: strip_expr(limit),
            step: match step {
                Some(x) => Some(strip_expr(x)),
                None => None,
            },
            body: strip_block(body),
            span,
        },
        StmtV::GenericFor { vars, iterators, body, span } => StmtV::GenericFor {
            vars,
            iterators: strip_exprs(iterators),
            body: strip_block(body),
            span,
        },
        StmtV::FunctionDecl { parts, method, name_span, func, span } => StmtV::FunctionDecl {
            parts,
            method,
            name_span,
            func: strip_func(func),
            span,
        },
        StmtV::LocalFunctionDecl { name, func, span } => StmtV::LocalFunctionDecl {
            name,
            func: strip_func(func),
            span,
        },
        _ => s,
    }
}

pub proof fn lemma_strip_exprs(s: Seq<ExprV>)
    ensures
        strip_exprs(s).len() == s.len(),
        forall|i: int| 0 <= i < s.len() ==> #[trigger] strip_exprs(s)[i] == strip_expr(s[i]),
    decreases s.len(),
{
    if s.len() > 0 {
        lemma_strip_exprs(s.drop_last());
    }
}

pub proof fn lemma_strip_fields(s: Seq<FieldV>)
    ensures
        strip_fields(s).len() == s.len(),
        forall|i: int| 0 <= i < s.len() ==> #[trigger] strip_fields(s)[i] == strip_field(s[i]),
    decreases s.len(),
{
    if s.len() > 0 {
        lemma_strip_fields(s.drop_last());
    }
}

pub proof fn lemma_strip_stmts(s: Seq<StmtV>)
    ensures
        strip_stmts(s).len() == s.len(),
        forall|i: int| 0 <= i < s.len() ==> #[trigger] strip_stmts(s)[i] == strip_stmt(s[i]),
    decreases s.len(),
{
    if s.len() > 0 {
        lemma_strip_stmts(s.drop_last());
    }
}

pub proof fn lemma_strip_elseifs(s: Seq<ElseIfV>)
    ensures
        strip_elseifs(s).len() == s.len(),
        forall|i: int| 0 <= i < s.len() ==> #[trigger] strip_elseifs(s)[i] == strip_elseif(s[i]),
    decreases s.len(),
{
    if s.len() > 0 {
        lemma_strip_elseifs(s.drop_last());
    }
}

// ── Feature summary ──────────────────────────────────────────────────────────

/// Flag-wise disjunction of two feature sets.
pub open spec fn or_fs(a: FeatureSet, b: FeatureSet) -> FeatureSet {
    FeatureSet {
        bitwise_ops: a.bitwise_ops || b.bitwise_ops,
        close_attribute: a.close_attribute || b.close_attribute,
        integer_div: a.integer_div || b.integer_div,
        string_extensions: a.string_extensions || b.string_extensions,
        math_extensions: a.math_extensions || b.math_extensions,
    }
}

pub open spec fn no_fs() -> FeatureSet {
    FeatureSet {
        bitwise_ops: false,
        close_attribute: false,
        integer_div: false,
        string_extensions: false,
        math_extensions: false,
    }
}

pub open spec fn is_bitwise_binop(op: BinaryOp) -> bool {
    op == BinaryOp::BitwiseAnd || op == BinaryOp::BitwiseOr || op == BinaryOp::BitwiseXor || op
        == BinaryOp::Shl || op == BinaryOp::Shr
}

/// The features used by an expression node itself, ignoring its children.
pub open spec fn node_features(e: ExprV) -> FeatureSet {
    match e {
        ExprV::BinOp { op, .. } => FeatureSet {
            bitwise_ops: is_bitwise_binop(op),
            integer_div: op == BinaryOp::IDiv,
            ..no_fs()
        },
        ExprV::UnOp { op, .. } => FeatureSet { bitwise_ops: op == UnaryOp::BitwiseNot, ..no_fs() },
        _ => no_fs(),
    }
}

/// The features used anywhere in an expression.
pub open spec fn expr_features(e: ExprV) -> FeatureSet
    decreases e, 1nat,
{
    or_fs(node_features(e), children_features(e))
}

/// The features used anywhere below an expression node.
pub open spec fn children_features(e: ExprV) -> FeatureSet
    decreases e, 0nat,
{
    match e {
        ExprV::Index { base, .. } => expr_features(*base),
        ExprV::IndexExpr { base, key, .. } => or_fs(expr_features(*base), expr_features(*key)),
        ExprV::BinOp { lhs, rhs, .. } => or_fs(expr_features(*lhs), expr_features(*rhs)),
        ExprV::UnOp { operand, .. } => expr_features(*operand),
        ExprV::Call { func, args, .. } => or_fs(expr_features(*func), exprs_features(args)),
        ExprV::MethodCall { obj, args, .. } => or_fs(expr_features(*obj), exprs_features(args)),
        ExprV::Function { func } => block_features(func.body),
        ExprV::Table { fields, .. } => fields_features(fields),
        _ => no_fs(),
    }
}

pub open spec fn exprs_features(s: Seq<ExprV>) -> FeatureSet
    decreases s, 0nat,
{
    if s.len() == 0 {
        no_fs()
    } else {
        or_fs(exprs_features(s.drop_last()), expr_features(s.last()))
    }
}

pub open spec fn field_features(x: FieldV) -> FeatureSet
    decreases x, 0nat,
{
    match x {
        FieldV::ExprKey { key, value, .. } => or_fs(expr_features(key), expr_features(value)),
        FieldV::NameKey { value, .. } => expr_features(value),
        FieldV::Positional { value } => expr_features(value),
    }
}

pub open spec fn fields_features(s: Seq<FieldV>) -> FeatureSet
    decreases s, 0nat,
{
    if s.len() == 0 {
        no_fs()
    } else {
        or_fs(fields_features(s.drop_last()), field_features(s.last()))
    }
}

/// The features used anywhere in a block.
pub open spec fn block_features(b: BlockV) -> FeatureSet
    decreases b, 0nat,
{
    stmts_features(b.stmts)
}

pub open spec fn stmts_features(s: Seq<StmtV>) -> FeatureSet
    decreases s, 0nat,
{
    if s.len() == 0 {
        no_fs()
    } else {
        or_fs(stmts_features(s.drop_last()), stmt_features(s.last()))
    }
}

pub open spec fn elseif_features(x: ElseIfV) -> FeatureSet
    decreases x, 0nat,
{
    or_fs(expr_features(x.condition), block_features(x.body))
}

pub open spec fn elseifs_features(s: Seq<ElseIfV>) -> FeatureSet
    decreases s, 0nat,
{
    if s.len() == 0 {
        no_fs()
    } else {
        or_fs(elseifs_features(s.drop_last()), elseif_features(s.last()))
    }
}

/// The feature set with only `close_attribute` possibly raised.
pub open spec fn close_only(c: bool) -> FeatureSet {
    FeatureSet { close_attribute: c, ..no_fs() }
}

/// Whether any of the declared names carries `<close>`.
pub open spec fn has_close_name(names: Seq<LocalNameV>) -> bool {
    exists|i: int| 0 <= i < names.len() && names[i].attribute == Some(Attribute::Close)
}

pub open spec fn stmt_features(s: StmtV) -> FeatureSet
    decreases s, 0nat,
{
    match s {
        StmtV::LocalDecl { names, values, .. } => or_fs(
            close_only(has_close_name(names)),
            exprs_features(values),
        ),
        StmtV::Assign { targets, values, .. } => or_fs(
            exprs_features(targets),
            exprs_features(values),
        ),
        StmtV::Return { values, .. } => exprs_features(values),
        StmtV::ExprStmt { expr } => expr_features(expr),
        StmtV::Do { body, .. } => block_features(body),
        StmtV::While { condition, body, .. } => or_fs(
            expr_features(condition),
            block_features(body),
        ),
        StmtV::Repeat { body, condition, .. } => or_fs(
            block_features(body),
            expr_features(condition),
        ),
        StmtV::If { condition, then_block, elseifs, else_block, .. } => or_fs(
            or_fs(expr_features(condition), block_features(then_block)),
            or_fs(
                elseifs_features(elseifs),
                match else_block {
                    Some(b) => block_features(b),
                    None => no_fs(),
                },
            ),
        ),
        StmtV::NumericFor { start, limit, step, body, .. } => or_fs(
            or_fs(expr_features(start), expr_features(limit)),
            or_fs(
                match step {
                    Some(x) => expr_features(x),
                    None => no_fs(),
                },
                block_features(body),
            ),
        ),
        StmtV::GenericFor { iterators, body, .. } => or_fs(
            exprs_features(iterators),
            block_features(body),
        ),
        StmtV::FunctionDecl { func, .. } => block_features(func.body),
        StmtV::LocalFunctionDecl { func, .. } => block_features(func.body),
        _ => no_fs(),
    }
}


// ── Rewrites that leave feature-free code alone ─────────────────────────────

/// `f` leaves alone every node that does not itself use the feature `bad`
/// detects, `bad` looking at one flag other than `close_attribute`.
pub open spec fn fixes(f: spec_fn(ExprV) -> ExprV, bad: spec_fn(FeatureSet) -> bool) -> bool {
    &&& forall|a: FeatureSet, b: FeatureSet| #[trigger] bad(or_fs(a, b)) == (bad(a) || bad(b))
    &&& !bad(no_fs())
    &&& forall|c: bool| !#[trigger] bad(close_only(c))
    &&& forall|x: ExprV| !bad(node_features(x)) ==> #[trigger] f(x) == x
}

pub proof fn lemma_fix_expr(e: ExprV, f: spec_fn(ExprV) -> ExprV, bad: spec_fn(FeatureSet) -> bool)
    requires
        fixes(f, bad),
        !bad(expr_features(e)),
    ensures
        map_expr(e, f) == e,
    decreases e,
{
    assert(!bad(node_features(e)) && !bad(children_features(e)));
    assert(f(e) == e);
    match e {
        ExprV::Index { base, field, span } => {
            assert(!bad(expr_features(*base)));
            lemma_fix_expr(*base, f, bad);
            let x = ExprV::Index { base: Box::new(map_expr(*base, f)), field, span };
            assert(x == e);
            assert(map_expr(e, f) == f(x));
            assert(f(x) == f(e));
            assert(map_expr(e, f) == e);
        },
        ExprV::IndexExpr { base, key, .. } => {
            lemma_fix_expr(*base, f, bad);
            lemma_fix_expr(*key, f, bad);
        },
        ExprV::BinOp { lhs, rhs, .. } => {
            lemma_fix_expr(*lhs, f, bad);
            lemma_fix_expr(*rhs, f, bad);
        },
        ExprV::UnOp { operand, .. } => lemma_fix_expr(*operand, f, bad),
        ExprV::Call { func, args, .. } => {
            lemma_fix_expr(*func, f, bad);
            lemma_fix_exprs(args, f, bad);
        },
        ExprV::MethodCall { obj, args, .. } => {
            lemma_fix_expr(*obj, f, bad);
            lemma_fix_exprs(args, f, bad);
        },
        ExprV::Function { func } => {
            lemma_fix_block(func.body, f, bad);
            assert(map_func(func, f) == func);
        },
        ExprV::Table { fields, .. } => lemma_fix_fields(fields, f, bad),
        _ => {},
    }
}

pub proof fn lemma_fix_exprs(s: Seq<ExprV>, f: spec_fn(ExprV) -> ExprV, bad: spec_fn(FeatureSet) -> bool)
    requires
        fixes(f, bad),
        !bad(exprs_features(s)),
    ensures
        map_exprs(s, f) == s,
    decreases s,
{
    if s.len() > 0 {
        lemma_fix_exprs(s.drop_last(), f, bad);
        lemma_fix_expr(s.last(), f, bad);
        assert(s.drop_last().push(s.last()) =~= s);
    }
}

pub proof fn lemma_fix_field(x: FieldV, f: spec_fn(ExprV) -> ExprV, bad: spec_fn(FeatureSet) -> bool)
    requires
        fixes(f, bad),
        !bad(field_features(x)),
    ensures
        map_field(x, f) == x,
    decreases x,
{
    match x {
        FieldV::ExprKey { key, value, .. } => {
            lemma_fix_expr(key, f, bad);
            lemma_fix_expr(value, f, bad);
        },
        FieldV::NameKey { value, .. } => lemma_fix_expr(value, f, bad),
        FieldV::Positional { value } => lemma_fix_expr(value, f, bad),
    }
}

pub proof fn lemma_fix_fields(s: Seq<FieldV>, f: spec_fn(ExprV) -> ExprV, bad: spec_fn(FeatureSet) -> bool)
    requires
        fixes(f, bad),
        !bad(fields_features(s)),
    ensures
        map_fields(s, f) == s,
    decreases s,
{
    if s.len() > 0 {
        lemma_fix_fields(s.drop_last(), f, bad);
        lemma_fix_field(s.last(), f, bad);
        assert(s.drop_last().push(s.last()) =~= s);
    }
}

/// A rewrite that leaves alone every node without the feature leaves a
/// whole block without the feature unchanged.
pub proof fn lemma_fix_block(b: BlockV, f: spec_fn(ExprV) -> ExprV, bad: spec_fn(FeatureSet) -> bool)
    requires
        fixes(f, bad),
        !bad(block_features(b)),
    ensures
        map_block(b, f) == b,
    decreases b,
{
    lemma_fix_stmts(b.stmts, f, bad);
}

pub proof fn lemma_fix_stmts(s: Seq<StmtV>, f: spec_fn(ExprV) -> ExprV, bad: spec_fn(FeatureSet) -> bool)
    requires
        fixes(f, bad),
        !bad(stmts_features(s)),
    ensures
        map_stmts(s, f) == s,
    decreases s,
{
    if s.len() > 0 {
        lemma_fix_stmts(s.drop_last(), f, bad);
        lemma_fix_stmt(s.last(), f, bad);
        assert(s.drop_last().push(s.last()) =~= s);
    }
}

pub proof fn lemma_fix_elseifs(s: Seq<ElseIfV>, f: spec_fn(ExprV) -> ExprV, bad: spec_fn(FeatureSet) -> bool)
    requires
        fixes(f, bad),
        !bad(elseifs_features(s)),
    ensures
        map_elseifs(s, f) == s,
    decreases s,
{
    if s.len() > 0 {
        lemma_fix_elseifs(s.drop_last(), f, bad);
        let e = s.last();
        assert(!bad(elseif_features(e)));
        lemma_fix_expr(e.condition, f, bad);
        lemma_fix_block(e.body, f, bad);
        assert(map_elseif(e, f) == e);
        assert(s.drop_last().push(s.last()) =~= s);
    }
}

pub proof fn lemma_fix_stmt(s: StmtV, f: spec_fn(ExprV) -> ExprV, bad: spec_fn(FeatureSet) -> bool)
    requires
        fixes(f, bad),
        !bad(stmt_features(s)),
    ensures
        map_stmt(s, f) == s,
    decreases s,
{
    match s {
        StmtV::LocalDecl { names, values, .. } => lemma_fix_exprs(values, f, bad),
        StmtV::Assign { targets, values, .. } => {
            lemma_fix_exprs(targets, f, bad);
            lemma_fix_exprs(values, f, bad);
        },
        StmtV::Return { values, .. } => lemma_fix_exprs(values, f, bad),
        StmtV::ExprStmt { expr } => lemma_fix_expr(expr, f, bad),
        StmtV::Do { body, .. } => lemma_fix_block(body, f, bad),
        StmtV::While { condition, body, .. } => {
            lemma_fix_expr(condition, f, bad);
            lemma_fix_block(body, f, bad);
        },
        StmtV::Repeat { body, condition, .. } => {
            lemma_fix_block(body, f, bad);
            lemma_fix_expr(condition, f, bad);
        },
        StmtV::If { condition, then_block, elseifs, else_block, .. } => {
            lemma_fix_expr(condition, f, bad);
            lemma_fix_block(then_block, f, bad);
            lemma_fix_elseifs(elseifs, f, bad);
            match else_block {
                Some(b) => lemma_fix_block(b, f, bad),
                None => {},
            }
        },
        StmtV::NumericFor { start, limit, step, body, .. } => {
            lemma_fix_expr(start, f, bad);
            lemma_fix_expr(limit, f, bad);
            match step {
                Some(x) => lemma_fix_expr(x, f, bad),
                None => {},
            }
            lemma_fix_block(body, f, bad);
        },
        StmtV::GenericFor { iterators, body, .. } => {
            lemma_fix_exprs(iterators, f, bad);
            lemma_fix_block(body, f, bad);
        },
        StmtV::FunctionDecl { func, .. } => {
            lemma_fix_block(func.body, f, bad);
            assert(map_func(func, f) == func);
        },
        StmtV::LocalFunctionDecl { func, .. } => {
            lemma_fix_block(func.body, f, bad);
            assert(map_func(func, f) == func);
        },
        _ => {},
    }
}

// ── Rewrites that remove a feature ───────────────────────────────────────────

/// `f` removes the feature that `bad` detects: `bad` looks at one flag other
/// than `close_attribute`, and `f` yields a feature-free node whenever the
/// node's children are feature-free.
pub open spec fn removes(f: spec_fn(ExprV) -> ExprV, bad: spec_fn(FeatureSet) -> bool) -> bool {
    &&& forall|a: FeatureSet, b: FeatureSet| #[trigger] bad(or_fs(a, b)) == (bad(a) || bad(b))
    &&& !bad(no_fs())
    &&& forall|c: bool| !#[trigger] bad(close_only(c))
    &&& forall|x: ExprV| !bad(children_features(x)) ==> !bad(#[trigger] expr_features(f(x)))
}

pub proof fn lemma_map_expr_clean(
    e: ExprV,
    f: spec_fn(ExprV) -> ExprV,
    bad: spec_fn(FeatureSet) -> bool,
)
    requires
        removes(f, bad),
    ensures
        !bad(expr_features(map_expr(e, f))),
    decreases e,
{
    match e {
        ExprV::Index { base, field, span } => {
            lemma_map_expr_clean(*base, f, bad);
            let x = ExprV::Index { base: Box::new(map_expr(*base, f)), field, span };
            assert(!bad(children_features(x)));
            assert(!bad(expr_features(f(x))));
        },
        ExprV::IndexExpr { base, key, span } => {
            lemma_map_expr_clean(*base, f, bad);
            lemma_map_expr_clean(*key, f, bad);
            let x = ExprV::IndexExpr {
                base: Box::new(map_expr(*base, f)),
                key: Box::new(map_expr(*key, f)),
                span,
            };
            assert(!bad(children_features(x)));
            assert(!bad(expr_features(f(x))));
        },
        ExprV::BinOp { lhs, op, rhs, span } => {
            lemma_map_expr_clean(*lhs, f, bad);
            lemma_map_expr_clean(*rhs, f, bad);
            let x = ExprV::BinOp {
                lhs: Box::new(map_expr(*lhs, f)),
                op,
                rhs: Box::new(map_expr(*rhs, f)),
                span,
            };
            assert(!bad(children_features(x)));
            assert(!bad(expr_features(f(x))));
        },
        ExprV::UnOp { op, operand, span } => {
            lemma_map_expr_clean(*operand, f, bad);
            let x = ExprV::UnOp { op, operand: Box::new(map_expr(*operand, f)), span };
            assert(!bad(children_features(x)));
            assert(!bad(expr_features(f(x))));
        },
        ExprV::Call { func, args, span } => {
            lemma_map_expr_clean(*func, f, bad);
            lemma_map_exprs_clean(args, f, bad);
            let x = ExprV::Call {
                func: Box::new(map_expr(*func, f)),
                args: map_exprs(args, f),
                span,
            };
            assert(!bad(children_features(x)));
            assert(!bad(expr_features(f(x))));
        },
        ExprV::MethodCall { obj, method, args, span } => {
            lemma_map_expr_clean(*obj, f, bad);
            lemma_map_exprs_clean(args, f, bad);
            let x = ExprV::MethodCall {
                obj: Box::new(map_expr(*obj, f)),
                method,
                args: map_exprs(args, f),
                span,
            };
            assert(!bad(children_features(x)));
            assert(!bad(expr_features(f(x))));
        },
        ExprV::Function { func } => {
            lemma_map_block_clean(func.body, f, bad);
            let x = ExprV::Function { func: map_func(func, f) };
            assert(!bad(children_features(x)));
            assert(!bad(expr_features(f(x))));
        },
        ExprV::Table { fields, span } => {
            lemma_map_fields_clean(fields, f, bad);
            let x = ExprV::Table { fields: map_fields(fields, f), span };
            assert(!bad(children_features(x)));
            assert(!bad(expr_features(f(x))));
        },
        _ => {
            assert(!bad(children_features(e)));
            assert(!bad(expr_features(f(e))));
        },
    }
}

pub proof fn lemma_map_exprs_clean(
    s: Seq<ExprV>,
    f: spec_fn(ExprV) -> ExprV,
    bad: spec_fn(FeatureSet) -> bool,
)
    requires
        removes(f, bad),
    ensures
        !bad(exprs_features(map_exprs(s, f))),
    decreases s,
{
    if s.len() > 0 {
        lemma_map_exprs_clean(s.drop_last(), f, bad);
        lemma_map_expr_clean(s.last(), f, bad);
        let m = map_exprs(s, f);
        assert(m.drop_last() =~= map_exprs(s.drop_last(), f));
    }
}

pub proof fn lemma_map_fields_clean(
    s: Seq<FieldV>,
    f: spec_fn(ExprV) -> ExprV,
    bad: spec_fn(FeatureSet) -> bool,
)
    requires
        removes(f, bad),
    ensures
        !bad(fields_features(map_fields(s, f))),
    decreases s,
{
    if s.len() > 0 {
        lemma_map_fields_clean(s.drop_last(), f, bad);
        let x = s.last();
        match x {
            FieldV::ExprKey { key, value, .. } => {
                lemma_map_expr_clean(key, f, bad);
                lemma_map_expr_clean(value, f, bad);
            },
            FieldV::NameKey { value, .. } => {
                lemma_map_expr_clean(value, f, bad);
            },
            FieldV::Positional { value } => {
                lemma_map_expr_clean(value, f, bad);
            },
        }
        assert(!bad(field_features(map_field(x, f))));
        let m = map_fields(s, f);
        assert(m.drop_last() =~= map_fields(s.drop_last(), f));
        assert(m.last() == map_field(x, f));
    }
}

pub proof fn lemma_map_block_clean(
    b: BlockV,
    f: spec_fn(ExprV) -> ExprV,
    bad: spec_fn(FeatureSet) -> bool,
)
    requires
        removes(f, bad),
    ensures
        !bad(block_features(map_block(b, f))),
    decreases b,
{
    lemma_map_stmts_clean(b.stmts, f, bad);
}

pub proof fn lemma_map_stmts_clean(
    s: Seq<StmtV>,
    f: spec_fn(ExprV) -> ExprV,
    bad: spec_fn(FeatureSet) -> bool,
)
    requires
        removes(f, bad),
    ensures
        !bad(stmts_features(map_stmts(s, f))),
    decreases s,
{
    if s.len() > 0 {
        lemma_map_stmts_clean(s.drop_last(), f, bad);
        lemma_map_stmt_clean(s.last(), f, bad);
        let m = map_stmts(s, f);
        assert(m.drop_last() =~= map_stmts(s.drop_last(), f));
    }
}

pub proof fn lemma_map_elseifs_clean(
    s: Seq<ElseIfV>,
    f: spec_fn(ExprV) -> ExprV,
    bad: spec_fn(FeatureSet) -> bool,
)
    requires
        removes(f, bad),
    ensures
        !bad(elseifs_features(map_elseifs(s, f))),
    decreases s,
{
    if s.len() > 0 {
        lemma_map_elseifs_clean(s.drop_last(), f, bad);
        lemma_map_expr_clean(s.last().condition, f, bad);
        lemma_map_block_clean(s.last().body, f, bad);
        assert(!bad(elseif_features(map_elseif(s.last(), f))));
        let m = map_elseifs(s, f);
        assert(m.drop_last() =~= map_elseifs(s.drop_last(), f));
        assert(m.last() == map_elseif(s.last(), f));
    }
}

pub proof fn lemma_map_stmt_clean(
    st: StmtV,
    f: spec_fn(ExprV) -> ExprV,
    bad: spec_fn(FeatureSet) -> bool,
)
    requires
        removes(f, bad),
    ensures
        !bad(stmt_features(map_stmt(st, f))),
    decreases st,
{
    match st {
        StmtV::LocalDecl { names, values, .. } => {
            lemma_map_exprs_clean(values, f, bad);
            assert(!bad(close_only(has_close_name(names))));
        },
        StmtV::Assign { targets, values, .. } => {
            lemma_map_exprs_clean(targets, f, bad);
            lemma_map_exprs_clean(values, f, bad);
        },
        StmtV::Return { values, .. } => {
            lemma_map_exprs_clean(values, f, bad);
        },
        StmtV::ExprStmt { expr } => {
            lemma_map_expr_clean(expr, f, bad);
        },
        StmtV::Do { body, .. } => {
            lemma_map_block_clean(body, f, bad);
        },
        StmtV::While { condition, body, .. } => {
            lemma_map_expr_clean(condition, f, bad);
            lemma_map_block_clean(body, f, bad);
        },
        StmtV::Repeat { body, condition, .. } => {
            lemma_map_block_clean(body, f, bad);
            lemma_map_expr_clean(condition, f, bad);
        },
        StmtV::If { condition, then_block, elseifs, else_block, .. } => {
            lemma_map_expr_clean(condition, f, bad);
            lemma_map_block_clean(then_block, f, bad);
            lemma_map_elseifs_clean(elseifs, f, bad);
            match else_block {
                Some(b) => lemma_map_block_clean(b, f, bad),
                None => {},
            }
        },
        StmtV::NumericFor { start, limit, step, body, .. } => {
            lemma_map_expr_clean(start, f, bad);
            lemma_map_expr_clean(limit, f, bad);
            match step {
                Some(x) => lemma_map_expr_clean(x, f, bad),
                None => {},
            }
            lemma_map_block_clean(body, f, bad);
        },
        StmtV::GenericFor { iterators, body, .. } => {
            lemma_map_exprs_clean(iterators, f, bad);
            lemma_map_block_clean(body, f, bad);
        },
        StmtV::FunctionDecl { func, .. } => {
            lemma_map_block_clean(func.body, f, bad);
        },
        StmtV::LocalFunctionDecl { func, .. } => {
            lemma_map_block_clean(func.body, f, bad);
        },
        _ => {},
    }
}

// ── Census of expression nodes ───────────────────────────────────────────────

/// How many expression nodes of `e`, itself and every node below it
/// (function bodies included), satisfy `p`.
pub open spec fn count_expr(e: ExprV, p: spec_fn(ExprV) -> bool) -> nat
    decreases e,
{
    (if p(e) {
        1nat
    } else {
        0nat
    }) + match e {
        ExprV::Index { base, .. } => count_expr(*base, p),
        ExprV::IndexExpr { base, key, .. } => count_expr(*base, p) + count_expr(*key, p),
        ExprV::BinOp { lhs, rhs, .. } => count_expr(*lhs, p) + count_expr(*rhs, p),
        ExprV::UnOp { operand, .. } => count_expr(*operand, p),
        ExprV::Call { func, args, .. } => count_expr(*func, p) + count_exprs(args, p),
        ExprV::MethodCall { obj, args, .. } => count_expr(*obj, p) + count_exprs(args, p),
        ExprV::Function { func } => count_block(func.body, p),
        ExprV::Table { fields, .. } => count_fields(fields, p),
        _ => 0nat,
    }
}

pub open spec fn count_exprs(s: Seq<ExprV>, p: spec_fn(ExprV) -> bool) -> nat
    decreases s,
{
    if s.len() == 0 {
        0
    } else {
        count_exprs(s.drop_last(), p) + count_expr(s.last(), p)
    }
}

pub open spec fn count_opt_expr(e: Option<ExprV>, p: spec_fn(ExprV) -> bool) -> nat
    decreases e,
{
    match e {
        Some(x) => count_expr(x, p),
        None => 0,
    }
}

pub open spec fn count_field(x: FieldV, p: spec_fn(ExprV) -> bool) -> nat
    decreases x,
{
    match x {
        FieldV::ExprKey { key, value, .. } => count_expr(key, p) + count_expr(value, p),
        FieldV::NameKey { value, .. } => count_expr(value, p),
        FieldV::Positional { value } => count_expr(value, p),
    }
}

pub open spec fn count_fields(s: Seq<FieldV>, p: spec_fn(ExprV) -> bool) -> nat
    decreases s,
{
    if s.len() == 0 {
        0
    } else {
        count_fields(s.drop_last(), p) + count_field(s.last(), p)
    }
}

/// How many expression nodes anywhere in `b` satisfy `p`: in every
/// statement, every position that holds an expression, nested blocks and
/// function bodies included.
pub open spec fn count_block(b: BlockV, p: spec_fn(ExprV) -> bool) -> nat
    decreases b,
{
    count_stmts(b.stmts, p)
}

pub open spec fn count_stmts(s: Seq<StmtV>, p: spec_fn(ExprV) -> bool) -> nat
    decreases s,
{
    if s.len() == 0 {
        0
    } else {
        count_stmts(s.drop_last(), p) + count_stmt(s.last(), p)
    }
}

pub open spec fn count_opt_block(b: Option<BlockV>, p: spec_fn(ExprV) -> bool) -> nat
    decreases b,
{
    match b {
        Some(x) => count_block(x, p),
        None => 0,
    }
}

pub open spec fn count_elseifs(s: Seq<ElseIfV>, p: spec_fn(ExprV) -> bool) -> nat
    decreases s,
{
    if s.len() == 0 {
        0
    } else {
        count_elseifs(s.drop_last(), p) + count_expr(s.last().condition, p) + count_block(
            s.last().body,
            p,
        )
    }
}

pub open spec fn count_stmt(s: StmtV, p: spec_fn(ExprV) -> bool) -> nat
    decreases s,
{
    match s {
        StmtV::LocalDecl { values, .. } => count_exprs(values, p),
        StmtV::Assign { targets, values, .. } => count_exprs(targets, p) + count_exprs(values, p),
        StmtV::Return { values, .. } => count_exprs(values, p),
        StmtV::ExprStmt { expr } => count_expr(expr, p),
        StmtV::Do { body, .. } => count_block(body, p),
        StmtV::While { condition, body, .. } => count_expr(condition, p) + count_block(body, p),
        StmtV::Repeat { body, condition, .. } => count_block(body, p) + count_expr(condition, p),
        StmtV::If { condition, then_block, elseifs, else_block, .. } => count_expr(condition, p)
            + count_block(then_block, p) + count_elseifs(elseifs, p) + count_opt_block(
            else_block,
            p,
        ),
        StmtV::NumericFor { start, limit, step, body, .. } => count_expr(start, p) + count_expr(
            limit,
            p,
        ) + count_opt_expr(step, p) + count_block(body, p),
        StmtV::GenericFor { iterators, body, .. } => count_exprs(iterators, p) + count_block(
            body,
            p,
        ),
        StmtV::FunctionDecl { func, .. } => count_block(func.body, p),
        StmtV::LocalFunctionDecl { func, .. } => count_block(func.body, p),
        _ => 0,
    }
}

} // verus!
