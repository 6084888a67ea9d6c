//! Lowering of `<close>` locals: the rest of the block after the first
//! `<close>` declaration runs under `pcall`, then the value is closed and any
//! error raised again.

use vstd::prelude::*;

use crate::ast::{
    lemma_view_elseifs, lemma_view_exprs, lemma_view_fields, lemma_view_stmts, view_block,
    view_elseif, view_elseifs, view_expr, view_exprs, view_field, view_fields, view_func,
    view_local_names, view_stmt, view_stmts, Attribute, BinaryOp, Block, BlockV, Call, ElseIf,
    ElseIfV, ExprV, Expression, FieldV, FuncV, FunctionBody, If, LocalDecl, LocalName,
    LocalFunctionDecl, LocalNameV, Return, Statement, StmtV, TableField, UnaryOp,
};
use crate::copy::copy_stmts;
use crate::walk::{
    block_features, elseif_features, elseifs_features, expr_features, exprs_features, field_features,
    fields_features, has_close_name, stmt_features, stmts_features,
};
use crate::diagnostics::{spec_dummy, Span};

verus! {

// ── Model ────────────────────────────────────────────────────────────────────

pub open spec fn has_close(names: Seq<LocalNameV>) -> bool {
    exists|k: int| 0 <= k < names.len() && names[k].attribute == Some(Attribute::Close)
}

/// A `local` declaration with at least one `<close>` name.
pub open spec fn is_close_decl(s: StmtV) -> bool {
    match s {
        StmtV::LocalDecl { names, .. } => has_close(names),
        _ => false,
    }
}

/// The first `<close>` declaration at or after index `j`.
pub open spec fn first_close_from(s: Seq<StmtV>, j: int) -> Option<int>
    decreases s.len() - j,
{
    if j < 0 || j >= s.len() {
        None
    } else if is_close_decl(s[j]) {
        Some(j)
    } else {
        first_close_from(s, j + 1)
    }
}

/// The first `<close>` name of a declaration, from index `k` on.
pub open spec fn close_name_from(names: Seq<LocalNameV>, k: int) -> Seq<char>
    decreases names.len() - k,
{
    if k < 0 || k >= names.len() {
        Seq::empty()
    } else if names[k].attribute == Some(Attribute::Close) {
        names[k].name
    } else {
        close_name_from(names, k + 1)
    }
}

/// The names with their `<close>` attributes removed.
pub open spec fn unclose(names: Seq<LocalNameV>) -> Seq<LocalNameV> {
    names.map_values(
        |n: LocalNameV|
            if n.attribute == Some(Attribute::Close) {
                LocalNameV { name: n.name, attribute: None, span: n.span }
            } else {
                n
            },
    )
}

pub open spec fn dname(name: Seq<char>) -> ExprV {
    ExprV::Name { name, span: spec_dummy() }
}

pub open spec fn dcall(f: Seq<char>, args: Seq<ExprV>) -> ExprV {
    ExprV::Call { func: Box::new(dname(f)), args, span: spec_dummy() }
}

/// `local __valua_ok, __valua_result = pcall(function() <tail> end)`
pub open spec fn pcall_stmt(tail: Seq<StmtV>) -> StmtV {
    let d = spec_dummy();
    StmtV::LocalDecl {
        names: seq![
            LocalNameV { name: "__valua_ok"@, attribute: None, span: d },
            LocalNameV { name: "__valua_result"@, attribute: None, span: d },
        ],
        values: seq![
            dcall(
                "pcall"@,
                seq![
                    ExprV::Function {
                        func: FuncV {
                            params: seq![],
                            is_vararg: false,
                            body: BlockV { stmts: tail, span: d },
                            span: d,
                        },
                    },
                ],
            ),
        ],
        span: d,
    }
}

/// `if not __valua_ok then error(__valua_result, 0) end`
pub open spec fn reraise_stmt() -> StmtV {
    let d = spec_dummy();
    StmtV::If {
        condition: ExprV::UnOp { op: UnaryOp::Not, operand: Box::new(dname("__valua_ok"@)), span: d },
        then_block: BlockV {
            stmts: seq![
                StmtV::ExprStmt {
                    expr: dcall(
                        "error"@,
                        seq![dname("__valua_result"@), ExprV::Integer { value: 0, span: d }],
                    ),
                },
            ],
            span: d,
        },
        elseifs: seq![],
        else_block: None,
        span: d,
    }
}

/// What replaces the statements after a `<close>` declaration of `var`:
///
/// ```text
/// local __valua_ok, __valua_result = pcall(function() <tail> end)
/// __valua_close(var)
/// if not __valua_ok then error(__valua_result, 0) end
/// return __valua_result        -- only when the tail ended in `return`
/// ```
pub open spec fn close_wrap(var: Seq<char>, tail: Seq<StmtV>, tail_returns: bool) -> Seq<StmtV> {
    let base = seq![
        pcall_stmt(tail),
        StmtV::ExprStmt { expr: dcall("__valua_close"@, seq![dname(var)]) },
        reraise_stmt(),
    ];
    if tail_returns {
        base.push(StmtV::Return { values: seq![dname("__valua_result"@)], span: spec_dummy() })
    } else {
        base
    }
}

/// A statement list after lowering, with `h` the helper statements inserted
/// in front of any list that holds a `<close>` declaration.
pub open spec fn close_seq(s: Seq<StmtV>, h: Seq<StmtV>) -> Seq<StmtV>
    decreases s,
{
    match first_close_from(s, 0) {
        None => if s.len() == 0 {
            s
        } else {
            close_seq(s.drop_last(), h).push(close_stmt(s.last(), h))
        },
        Some(i) => {
            if 0 <= i < s.len() {
                match s[i] {
                    StmtV::LocalDecl { names, values, span } => {
                        let tail = s.subrange(i + 1, s.len() as int);
                        h + close_stmts(s.subrange(0, i), h) + seq![
                            StmtV::LocalDecl {
                                names: unclose(names),
                                values: close_exprs(values, h),
                                span,
                            },
                        ] + close_wrap(
                            close_name_from(names, 0),
                            close_seq(tail, h),
                            tail.len() > 0 && tail.last() is Return,
                        )
                    },
                    _ => s,
                }
            } else {
                s
            }
        },
    }
}

pub open spec fn close_stmts(s: Seq<StmtV>, h: Seq<StmtV>) -> Seq<StmtV>
    decreases s,
{
    if s.len() == 0 {
        s
    } else {
        close_stmts(s.drop_last(), h).push(close_stmt(s.last(), h))
    }
}

pub open spec fn close_block(b: BlockV, h: Seq<StmtV>) -> BlockV
    decreases b,
{
    BlockV { stmts: close_seq(b.stmts, h), span: b.span }
}

pub open spec fn close_func(f: FuncV, h: Seq<StmtV>) -> FuncV
    decreases f,
{
    FuncV { body: close_block(f.body, h), ..f }
}

pub open spec fn close_elseifs(s: Seq<ElseIfV>, h: Seq<StmtV>) -> Seq<ElseIfV>
    decreases s,
{
    if s.len() == 0 {
        s
    } else {
        let e = s.last();
        close_elseifs(s.drop_last(), h).push(ElseIfV { body: close_block(e.body, h), ..e })
    }
}

/// Lowering inside a statement: the blocks it holds, and the function
/// literals in the values it declares, assigns, returns or calls.
pub open spec fn close_stmt(s: StmtV, h: Seq<StmtV>) -> StmtV
    decreases s,
{
    match s {
        StmtV::Do { body, span } => StmtV::Do { body: close_block(body, h), span },
        StmtV::While { condition, body, span } => StmtV::While {
            condition,
            body: close_block(body, h),
            span,
        },
        StmtV::Repeat { body, condition, span } => StmtV::Repeat {
            body: close_block(body, h),
            condition,
            span,
        },
        StmtV::If { condition, then_block, elseifs, else_block, span } => StmtV::If {
            condition,
            then_block: close_block(then_block, h),
            elseifs: close_elseifs(elseifs, h),
            else_block: match else_block {
                Some(b) => Some(close_block(b, h)),
                None => None,
            },
            span,
        },
        StmtV::NumericFor { var, start, limit, step, body, span } => StmtV::NumericFor {
            var,
            start,
            limit,
            step,
            body: close_block(body, h),
            span,
        },
        StmtV::GenericFor { vars, iterators, body, span } => StmtV::GenericFor {
            vars,
            iterators,
            body: close_block(body, h),
            span,
        },
        StmtV::FunctionDecl { parts, method, name_span, func, span } => StmtV::FunctionDecl {
            parts,
            method,
            name_span,
            func: close_func(func, h),
            span,
        },
        StmtV::LocalFunctionDecl { name, func, span } => StmtV::LocalFunctionDecl {
            name,
            func: close_func(func, h),
            span,
        },
        StmtV::LocalDecl { names, values, span } => StmtV::LocalDecl {
            names,
            values: close_exprs(values, h),
            span,
        },
        StmtV::ExprStmt { expr } => StmtV::ExprStmt { expr: close_expr(expr, h) },
        StmtV::Assign { targets, values, span } => StmtV::Assign {
            targets,
            values: close_exprs(values, h),
            span,
        },
        StmtV::Return { values, span } => StmtV::Return { values: close_exprs(values, h), span },
        _ => s,
    }
}

pub open spec fn close_exprs(s: Seq<ExprV>, h: Seq<StmtV>) -> Seq<ExprV>
    decreases s,
{
    if s.len() == 0 {
        s
    } else {
        close_exprs(s.drop_last(), h).push(close_expr(s.last(), h))
    }
}

pub open spec fn close_field(f: FieldV, h: Seq<StmtV>) -> FieldV
    decreases f,
{
    match f {
        FieldV::ExprKey { key, value, span } => FieldV::ExprKey {
            key: close_expr(key, h),
            value: close_expr(value, h),
            span,
        },
        FieldV::NameKey { key, value, span } => FieldV::NameKey {
            key,
            value: close_expr(value, h),
            span,
        },
        FieldV::Positional { value } => FieldV::Positional { value: close_expr(value, h) },
    }
}

pub open spec fn close_fields(s: Seq<FieldV>, h: Seq<StmtV>) -> Seq<FieldV>
    decreases s,
{
    if s.len() == 0 {
        s
    } else {
        close_fields(s.drop_last(), h).push(close_field(s.last(), h))
    }
}

pub open spec fn close_expr(e: ExprV, h: Seq<StmtV>) -> ExprV
    decreases e,
{
    match e {
        ExprV::Function { func } => ExprV::Function { func: close_func(func, h) },
        ExprV::Call { func, args, span } => ExprV::Call {
            func: Box::new(close_expr(*func, h)),
            args: close_exprs(args, h),
            span,
        },
        ExprV::MethodCall { obj, method, args, span } => ExprV::MethodCall {
            obj: Box::new(close_expr(*obj, h)),
            method,
            args: close_exprs(args, h),
            span,
        },
        ExprV::BinOp { lhs, op, rhs, span } => ExprV::BinOp {
            lhs: Box::new(close_expr(*lhs, h)),
            op,
            rhs: Box::new(close_expr(*rhs, h)),
            span,
        },
        ExprV::UnOp { op, operand, span } => ExprV::UnOp {
            op,
            operand: Box::new(close_expr(*operand, h)),
            span,
        },
        ExprV::Table { fields, span } => ExprV::Table { fields: close_fields(fields, h), span },
        ExprV::Index { base, field, span } => ExprV::Index {
            base: Box::new(close_expr(*base, h)),
            field,
            span,
        },
        ExprV::IndexExpr { base, key, span } => ExprV::IndexExpr {
            base: Box::new(close_expr(*base, h)),
            key: Box::new(close_expr(*key, h)),
            span,
        },
        _ => e,
    }
}


// ── Sequence lemmas ──────────────────────────────────────────────────────────

proof fn lemma_close_stmts(s: Seq<StmtV>, h: Seq<StmtV>)
    ensures
        close_stmts(s, h).len() == s.len(),
        forall|i: int| 0 <= i < s.len() ==> #[trigger] close_stmts(s, h)[i] == close_stmt(s[i], h),
    decreases s.len(),
{
    if s.len() > 0 {
        lemma_close_stmts(s.drop_last(), h);
    }
}

proof fn lemma_close_exprs(s: Seq<ExprV>, h: Seq<StmtV>)
    ensures
        close_exprs(s, h).len() == s.len(),
        forall|i: int| 0 <= i < s.len() ==> #[trigger] close_exprs(s, h)[i] == close_expr(s[i], h),
    decreases s.len(),
{
    if s.len() > 0 {
        lemma_close_exprs(s.drop_last(), h);
    }
}

proof fn lemma_close_fields(s: Seq<FieldV>, h: Seq<StmtV>)
    ensures
        close_fields(s, h).len() == s.len(),
        forall|i: int| 0 <= i < s.len() ==> #[trigger] close_fields(s, h)[i] == close_field(s[i], h),
    decreases s.len(),
{
    if s.len() > 0 {
        lemma_close_fields(s.drop_last(), h);
    }
}

proof fn lemma_close_elseifs(s: Seq<ElseIfV>, h: Seq<StmtV>)
    ensures
        close_elseifs(s, h).len() == s.len(),
        forall|i: int|
            0 <= i < s.len() ==> #[trigger] close_elseifs(s, h)[i] == (ElseIfV {
                body: close_block(s[i].body, h),
                ..s[i]
            }),
    decreases s.len(),
{
    if s.len() > 0 {
        lemma_close_elseifs(s.drop_last(), h);
    }
}

// ── Blocks without `<close>` ───────────────────────────────────────────────

proof fn lemma_cf_expr(e: ExprV, h: Seq<StmtV>)
    requires
        !expr_features(e).close_attribute,
    ensures
        close_expr(e, h) == e,
    decreases e,
{
    match e {
        ExprV::Function { func } => lemma_cf_func(func, h),
        ExprV::Call { func, args, .. } => {
            lemma_cf_expr(*func, h);
            lemma_cf_exprs(args, h);
        },
        ExprV::MethodCall { obj, args, .. } => {
            lemma_cf_expr(*obj, h);
            lemma_cf_exprs(args, h);
        },
        ExprV::BinOp { lhs, rhs, .. } => {
            lemma_cf_expr(*lhs, h);
            lemma_cf_expr(*rhs, h);
        },
        ExprV::UnOp { operand, .. } => lemma_cf_expr(*operand, h),
        ExprV::Table { fields, .. } => lemma_cf_fields(fields, h),
        ExprV::Index { base, .. } => lemma_cf_expr(*base, h),
        ExprV::IndexExpr { base, key, .. } => {
            lemma_cf_expr(*base, h);
            lemma_cf_expr(*key, h);
        },
        _ => {},
    }
}

proof fn lemma_cf_exprs(s: Seq<ExprV>, h: Seq<StmtV>)
    requires
        !exprs_features(s).close_attribute,
    ensures
        close_exprs(s, h) == s,
    decreases s,
{
    if s.len() > 0 {
        lemma_cf_exprs(s.drop_last(), h);
        lemma_cf_expr(s.last(), h);
        assert(s.drop_last().push(s.last()) =~= s);
    }
}

proof fn lemma_cf_field(x: FieldV, h: Seq<StmtV>)
    requires
        !field_features(x).close_attribute,
    ensures
        close_field(x, h) == x,
    decreases x,
{
    match x {
        FieldV::ExprKey { key, value, .. } => {
            lemma_cf_expr(key, h);
            lemma_cf_expr(value, h);
        },
        FieldV::NameKey { value, .. } => lemma_cf_expr(value, h),
        FieldV::Positional { value } => lemma_cf_expr(value, h),
    }
}

proof fn lemma_cf_fields(s: Seq<FieldV>, h: Seq<StmtV>)
    requires
        !fields_features(s).close_attribute,
    ensures
        close_fields(s, h) == s,
    decreases s,
{
    if s.len() > 0 {
        lemma_cf_fields(s.drop_last(), h);
        lemma_cf_field(s.last(), h);
        assert(s.drop_last().push(s.last()) =~= s);
    }
}

proof fn lemma_cf_func(f: FuncV, h: Seq<StmtV>)
    requires
        !block_features(f.body).close_attribute,
    ensures
        close_func(f, h) == f,
    decreases f,
{
    lemma_close_free_unchanged(f.body, h);
}

/// A block with no `<close>` declaration anywhere, nested functions
/// included, is left unchanged by the `<close>` lowering, whatever the helper.
pub proof fn lemma_close_free_unchanged(b: BlockV, h: Seq<StmtV>)
    requires
        !block_features(b).close_attribute,
    ensures
        close_block(b, h) == b,
    decreases b,
{
    lemma_cf_stmts(b.stmts, h);
    lemma_none_from_prefix(b.stmts, b.stmts, 0);
    lemma_close_seq_plain(b.stmts, h);
}

proof fn lemma_cf_stmts(s: Seq<StmtV>, h: Seq<StmtV>)
    requires
        !stmts_features(s).close_attribute,
    ensures
        close_stmts(s, h) == s,
        forall|k: int| 0 <= k < s.len() ==> !is_close_decl(#[trigger] s[k]),
    decreases s,
{
    if s.len() > 0 {
        lemma_cf_stmts(s.drop_last(), h);
        lemma_cf_stmt(s.last(), h);
        assert(s.drop_last().push(s.last()) =~= s);
        assert forall|k: int| 0 <= k < s.len() implies !is_close_decl(#[trigger] s[k]) by {
            if k < s.len() - 1 {
                assert(s[k] == s.drop_last()[k]);
            }
        }
    }
}

proof fn lemma_cf_elseifs(s: Seq<ElseIfV>, h: Seq<StmtV>)
    requires
        !elseifs_features(s).close_attribute,
    ensures
        close_elseifs(s, h) == s,
    decreases s,
{
    if s.len() > 0 {
        lemma_cf_elseifs(s.drop_last(), h);
        assert(!elseif_features(s.last()).close_attribute);
        assert(!block_features(s.last().body).close_attribute);
        lemma_close_free_unchanged(s.last().body, h);
        assert(s.drop_last().push(s.last()) =~= s);
    }
}

proof fn lemma_cf_stmt(s: StmtV, h: Seq<StmtV>)
    requires
        !stmt_features(s).close_attribute,
    ensures
        close_stmt(s, h) == s,
        !is_close_decl(s),
    decreases s,
{
    match s {
        StmtV::LocalDecl { names, values, .. } => {
            lemma_cf_exprs(values, h);
            if has_close(names) {
                let k = choose|k: int| 0 <= k < names.len() && names[k].attribute == Some(Attribute::Close);
                assert(has_close_name(names));
            }
        },
        StmtV::Assign { values, .. } => lemma_cf_exprs(values, h),
        StmtV::Return { values, .. } => lemma_cf_exprs(values, h),
        StmtV::ExprStmt { expr } => lemma_cf_expr(expr, h),
        StmtV::Do { body, .. } => lemma_close_free_unchanged(body, h),
        StmtV::While { body, .. } => lemma_close_free_unchanged(body, h),
        StmtV::Repeat { body, .. } => lemma_close_free_unchanged(body, h),
        StmtV::If { then_block, elseifs, else_block, .. } => {
            lemma_close_free_unchanged(then_block, h);
            lemma_cf_elseifs(elseifs, h);
            match else_block {
                Some(b) => lemma_close_free_unchanged(b, h),
                None => {},
            }
        },
        StmtV::NumericFor { body, .. } => lemma_close_free_unchanged(body, h),
        StmtV::GenericFor { body, .. } => lemma_close_free_unchanged(body, h),
        StmtV::FunctionDecl { func, .. } => lemma_cf_func(func, h),
        StmtV::LocalFunctionDecl { func, .. } => lemma_cf_func(func, h),
        _ => {},
    }
}

// ── The close helper ────────────────────────────────────────────────────────

pub open spec fn dindex(base: ExprV, field: Seq<char>) -> ExprV {
    ExprV::Index { base: Box::new(base), field, span: spec_dummy() }
}

pub open spec fn dbin(lhs: ExprV, op: BinaryOp, rhs: ExprV) -> ExprV {
    ExprV::BinOp { lhs: Box::new(lhs), op, rhs: Box::new(rhs), span: spec_dummy() }
}

pub open spec fn dstr(value: Seq<char>) -> ExprV {
    ExprV::Str { value, span: spec_dummy() }
}

pub open spec fn dreturn() -> StmtV {
    StmtV::Return { values: seq![], span: spec_dummy() }
}

/// `if cond then <body> end`
pub open spec fn dif(condition: ExprV, body: Seq<StmtV>) -> StmtV {
    StmtV::If {
        condition,
        then_block: BlockV { stmts: body, span: spec_dummy() },
        elseifs: seq![],
        else_block: None,
        span: spec_dummy(),
    }
}

/// The body of the close helper:
///
/// ```text
/// if obj == nil then return end
/// local mt = getmetatable(obj)
/// if mt and mt.__close then mt.__close(obj) return end
/// if type(obj) == "table" and type(obj.close) == "function" then obj:close() return end
/// ```
pub open spec fn close_helper_body() -> Seq<StmtV> {
    let d = spec_dummy();
    let obj = dname("obj"@);
    let mt = dname("mt"@);
    seq![
        dif(dbin(obj, BinaryOp::Eq, ExprV::Nil { span: d }), seq![dreturn()]),
        StmtV::LocalDecl {
            names: seq![LocalNameV { name: "mt"@, attribute: None, span: d }],
            values: seq![dcall("getmetatable"@, seq![obj])],
            span: d,
        },
        dif(
            dbin(mt, BinaryOp::And, dindex(mt, "__close"@)),
            seq![
                StmtV::ExprStmt {
                    expr: ExprV::Call {
                        func: Box::new(dindex(mt, "__close"@)),
                        args: seq![obj],
                        span: d,
                    },
                },
                dreturn(),
            ],
        ),
        dif(
            dbin(
                dbin(dcall("type"@, seq![obj]), BinaryOp::Eq, dstr("table"@)),
                BinaryOp::And,
                dbin(dcall("type"@, seq![dindex(obj, "close"@)]), BinaryOp::Eq, dstr("function"@)),
            ),
            seq![
                StmtV::ExprStmt {
                    expr: ExprV::MethodCall {
                        obj: Box::new(obj),
                        method: "close"@,
                        args: seq![],
                        span: d,
                    },
                },
                dreturn(),
            ],
        ),
    ]
}

/// The statements put in front of a list that holds a `<close>` declaration:
/// `local function __valua_close(obj) ... end`, which closes a value through
/// its `__close` metamethod, else its `close` method.
pub open spec fn close_helper() -> Seq<StmtV> {
    let d = spec_dummy();
    seq![
        StmtV::LocalFunctionDecl {
            name: "__valua_close"@,
            func: FuncV {
                params: seq![("obj"@, d)],
                is_vararg: false,
                body: BlockV { stmts: close_helper_body(), span: d },
                span: d,
            },
            span: d,
        },
    ]
}

// ── Executable lowering ──────────────────────────────────────────────────────

fn decl_has_close_exec(d: &LocalDecl) -> (r: bool)
    ensures
        r == has_close(view_local_names(d.names@)),
{
    let ghost names = view_local_names(d.names@);
    let mut k: usize = 0;
    while k < d.names.len()
        invariant
            k <= d.names.len(),
            names == view_local_names(d.names@),
            forall|m: int| 0 <= m < k ==> #[trigger] names[m].attribute != Some(Attribute::Close),
        decreases d.names.len() - k,
    {
        proof {
            assert(names[k as int].attribute == d.names@[k as int].attribute);
        }
        if d.names[k].attribute == Some(Attribute::Close) {
            return true;
        }
        k += 1;
    }
    false
}

fn first_close_exec(v: &Vec<Statement>) -> (r: Option<usize>)
    ensures
        match r {
            Some(i) => first_close_from(view_stmts(v@), 0) == Some(i as int) && i < v.len(),
            None => first_close_from(view_stmts(v@), 0) is None,
        },
{
    proof {
        lemma_view_stmts(v@);
    }
    let mut i: usize = 0;
    while i < v.len()
        invariant
            i <= v.len(),
            view_stmts(v@).len() == v@.len(),
            forall|j: int| 0 <= j < v@.len() ==> #[trigger] view_stmts(v@)[j] == view_stmt(v@[j]),
            first_close_from(view_stmts(v@), 0) == first_close_from(view_stmts(v@), i as int),
        decreases v.len() - i,
    {
        match &v[i] {
            Statement::LocalDecl(d) => {
                if decl_has_close_exec(d) {
                    return Some(i);
                }
            },
            _ => {},
        }
        i += 1;
    }
    None
}

fn close_name_exec(names: &Vec<LocalName>) -> (r: String)
    ensures
        r@ == close_name_from(view_local_names(names@), 0),
{
    let ghost vn = view_local_names(names@);
    let mut k: usize = 0;
    while k < names.len()
        invariant
            k <= names.len(),
            vn == view_local_names(names@),
            close_name_from(vn, 0) == close_name_from(vn, k as int),
        decreases names.len() - k,
    {
        proof {
            assert(vn[k as int].attribute == names@[k as int].attribute);
        }
        if names[k].attribute == Some(Attribute::Close) {
            return names[k].name.clone();
        }
        k += 1;
    }
    String::new()
}

fn unclose_exec(names: &Vec<LocalName>) -> (r: Vec<LocalName>)
    ensures
        view_local_names(r@) == unclose(view_local_names(names@)),
{
    let mut out: Vec<LocalName> = Vec::new();
    let mut k: usize = 0;
    while k < names.len()
        invariant
            k <= names.len(),
            view_local_names(out@) == unclose(view_local_names(names@.subrange(0, k as int))),
        decreases names.len() - k,
    {
        let attribute = if names[k].attribute == Some(Attribute::Close) {
            None
        } else {
            names[k].attribute
        };
        let item = LocalName { name: names[k].name.clone(), attribute, span: names[k].span };
        let ghost before = out@;
        out.push(item);
        proof {
            let a = names@.subrange(0, k as int);
            let b = names@.subrange(0, k + 1);
            assert(b =~= a.push(names@[k as int]));
            assert(out@ =~= before.push(item));
            assert(view_local_names(out@) =~= view_local_names(before).push(
                LocalNameV { name: item.name@, attribute, span: item.span },
            ));
            assert(view_local_names(b) =~= view_local_names(a).push(
                LocalNameV { name: names@[k as int].name@, attribute: names@[k as int].attribute, span: names@[k as int].span },
            ));
            assert(unclose(view_local_names(b)) =~= unclose(view_local_names(a)).push(
                LocalNameV { name: item.name@, attribute, span: item.span },
            ));
        }
        k += 1;
    }
    assert(names@.subrange(0, names.len() as int) =~= names@);
    out
}

fn dname_exec(name: &str) -> (r: Expression)
    ensures
        view_expr(r) == dname(name@),
{
    Expression::Name(name.to_owned(), Span::dummy())
}

fn dcall_exec(name: &str, args: Vec<Expression>) -> (r: Expression)
    ensures
        view_expr(r) == dcall(name@, view_exprs(args@)),
{
    Expression::Call(Call::Call { func: Box::new(dname_exec(name)), args, span: Span::dummy() })
}

#[verifier::rlimit(80)]
fn make_pcall(tail: Vec<Statement>) -> (r: Statement)
    ensures
        view_stmt(r) == pcall_stmt(view_stmts(tail@)),
{
    let d = Span::dummy();
    let ghost tv = view_stmts(tail@);
    let mut names: Vec<LocalName> = Vec::new();
    names.push(LocalName { name: "__valua_ok".to_owned(), attribute: None, span: d });
    names.push(LocalName { name: "__valua_result".to_owned(), attribute: None, span: d });
    let tail_block = Block { stmts: tail, span: d };
    let func = FunctionBody { params: Vec::new(), is_vararg: false, body: tail_block, span: d };
    proof {
        assert(view_func(func).body == view_block(func.body));
        assert(crate::ast::view_params(func.params@) =~= Seq::<(Seq<char>, Span)>::empty());
    }
    let mut pargs: Vec<Expression> = Vec::new();
    pargs.push(Expression::Function(func));
    let mut values: Vec<Expression> = Vec::new();
    values.push(dcall_exec("pcall", pargs));
    proof {
        assert(view_local_names(names@) =~= seq![
            LocalNameV { name: "__valua_ok"@, attribute: None, span: d },
            LocalNameV { name: "__valua_result"@, attribute: None, span: d },
        ]);
        lemma_view_exprs(pargs@);
        lemma_view_exprs(values@);
        let fv = FuncV {
            params: seq![],
            is_vararg: false,
            body: BlockV { stmts: tv, span: d },
            span: d,
        };
        assert(view_func(func) == fv);
        assert(view_exprs(pargs@) =~= seq![ExprV::Function { func: fv }]);
        assert(view_exprs(values@) =~= seq![dcall("pcall"@, seq![ExprV::Function { func: fv }])]);
    }
    Statement::LocalDecl(LocalDecl { names, values, span: d })
}

#[verifier::rlimit(80)]
fn make_reraise() -> (r: Statement)
    ensures
        view_stmt(r) == reraise_stmt(),
{
    let d = Span::dummy();
    let mut eargs: Vec<Expression> = Vec::new();
    eargs.push(dname_exec("__valua_result"));
    eargs.push(Expression::Integer(0, d));
    let mut then_stmts: Vec<Statement> = Vec::new();
    then_stmts.push(Statement::ExprStmt(dcall_exec("error", eargs)));
    proof {
        lemma_view_exprs(eargs@);
        lemma_view_stmts(then_stmts@);
        let args = seq![dname("__valua_result"@), ExprV::Integer { value: 0, span: d }];
        assert(view_exprs(eargs@) =~= args);
        assert(view_stmts(then_stmts@) =~= seq![StmtV::ExprStmt { expr: dcall("error"@, args) }]);
        assert(view_elseifs(Seq::<ElseIf>::empty()) =~= Seq::<ElseIfV>::empty());
    }
    Statement::If(
        If {
            condition: Box::new(Expression::UnOp(UnaryOp::Not, Box::new(dname_exec("__valua_ok")), d)),
            then_block: Block { stmts: then_stmts, span: d },
            elseif_clauses: Vec::new(),
            else_block: None,
            span: d,
        },
    )
}

fn eindex(base: Expression, field: &str) -> (r: Expression)
    ensures
        view_expr(r) == dindex(view_expr(base), field@),
{
    Expression::Index(Box::new(base), field.to_owned(), Span::dummy())
}

fn ebin(lhs: Expression, op: BinaryOp, rhs: Expression) -> (r: Expression)
    ensures
        view_expr(r) == dbin(view_expr(lhs), op, view_expr(rhs)),
{
    Expression::BinOp(Box::new(lhs), op, Box::new(rhs), Span::dummy())
}

fn sreturn() -> (r: Statement)
    ensures
        view_stmt(r) == dreturn(),
{
    let r = Statement::Return(Return { values: Vec::new(), span: Span::dummy() });
    assert(view_exprs(Seq::<Expression>::empty()) =~= Seq::<ExprV>::empty());
    r
}

fn sif(condition: Expression, body: Vec<Statement>) -> (r: Statement)
    ensures
        view_stmt(r) == dif(view_expr(condition), view_stmts(body@)),
{
    let d = Span::dummy();
    assert(view_elseifs(Seq::<ElseIf>::empty()) =~= Seq::<ElseIfV>::empty());
    Statement::If(
        If {
            condition: Box::new(condition),
            then_block: Block { stmts: body, span: d },
            elseif_clauses: Vec::new(),
            else_block: None,
            span: d,
        },
    )
}

fn one_expr(e: Expression) -> (r: Vec<Expression>)
    ensures
        view_exprs(r@) == seq![view_expr(e)],
{
    let mut v: Vec<Expression> = Vec::new();
    v.push(e);
    proof {
        lemma_view_exprs(v@);
        assert(view_exprs(v@) =~= seq![view_expr(v@[0])]);
    }
    v
}

fn two_stmts(a: Statement, b: Statement) -> (r: Vec<Statement>)
    ensures
        view_stmts(r@) == seq![view_stmt(a), view_stmt(b)],
{
    let mut v: Vec<Statement> = Vec::new();
    v.push(a);
    v.push(b);
    proof {
        lemma_view_stmts(v@);
        assert(view_stmts(v@) =~= seq![view_stmt(v@[0]), view_stmt(v@[1])]);
    }
    v
}

#[verifier::rlimit(100)]
fn close_helper_body_exec() -> (r: Vec<Statement>)
    ensures
        view_stmts(r@) == close_helper_body(),
{
    let d = Span::dummy();
    let first = {
        let mut body: Vec<Statement> = Vec::new();
        body.push(sreturn());
        proof {
            lemma_view_stmts(body@);
            assert(view_stmts(body@) =~= seq![dreturn()]);
        }
        sif(ebin(dname_exec("obj"), BinaryOp::Eq, Expression::Nil(d)), body)
    };
    let second = {
        let mut names: Vec<LocalName> = Vec::new();
        names.push(LocalName { name: "mt".to_owned(), attribute: None, span: d });
        let values = one_expr(dcall_exec("getmetatable", one_expr(dname_exec("obj"))));
        proof {
            assert(view_local_names(names@) =~= seq![
                LocalNameV { name: "mt"@, attribute: None, span: d },
            ]);
        }
        Statement::LocalDecl(LocalDecl { names, values, span: d })
    };
    let third = {
        let cond = ebin(dname_exec("mt"), BinaryOp::And, eindex(dname_exec("mt"), "__close"));
        let call = Expression::Call(
            Call::Call {
                func: Box::new(eindex(dname_exec("mt"), "__close")),
                args: one_expr(dname_exec("obj")),
                span: d,
            },
        );
        sif(cond, two_stmts(Statement::ExprStmt(call), sreturn()))
    };
    let fourth = {
        let is_table = ebin(
            dcall_exec("type", one_expr(dname_exec("obj"))),
            BinaryOp::Eq,
            Expression::String("table".to_owned(), d),
        );
        let has_close = ebin(
            dcall_exec("type", one_expr(eindex(dname_exec("obj"), "close"))),
            BinaryOp::Eq,
            Expression::String("function".to_owned(), d),
        );
        let cond = ebin(is_table, BinaryOp::And, has_close);
        let call = Expression::Call(
            Call::MethodCall {
                obj: Box::new(dname_exec("obj")),
                method: "close".to_owned(),
                args: Vec::new(),
                span: d,
            },
        );
        proof {
            assert(view_exprs(Seq::<Expression>::empty()) =~= Seq::<ExprV>::empty());
        }
        sif(cond, two_stmts(Statement::ExprStmt(call), sreturn()))
    };
    let ghost v1 = view_stmt(first);
    let ghost v2 = view_stmt(second);
    let ghost v3 = view_stmt(third);
    let ghost v4 = view_stmt(fourth);
    let mut out: Vec<Statement> = Vec::new();
    out.push(first);
    out.push(second);
    out.push(third);
    out.push(fourth);
    proof {
        lemma_view_stmts(out@);
        assert(view_stmts(out@) =~= seq![v1, v2, v3, v4]);
        assert(seq![v1, v2, v3, v4] =~= close_helper_body());
    }
    out
}

/// The statements of the close helper.
pub fn close_helper_exec() -> (r: Vec<Statement>)
    ensures
        view_stmts(r@) == close_helper(),
{
    let d = Span::dummy();
    let mut params: Vec<crate::ast::Param> = Vec::new();
    params.push(crate::ast::Param { name: "obj".to_owned(), span: d });
    let body = close_helper_body_exec();
    let func = FunctionBody { params, is_vararg: false, body: Block { stmts: body, span: d }, span: d };
    proof {
        assert(crate::ast::view_params(func.params@) =~= seq![("obj"@, d)]);
    }
    let mut out: Vec<Statement> = Vec::new();
    out.push(Statement::LocalFunctionDecl(LocalFunctionDecl { name: "__valua_close".to_owned(), func, span: d }));
    proof {
        lemma_view_stmts(out@);
        assert(view_stmts(out@) =~= close_helper());
    }
    out
}

/// The statements that run the tail under `pcall` and then close `var`.
#[verifier::rlimit(80)]
fn make_wrap(var: String, tail: Vec<Statement>, tail_returns: bool) -> (r: Vec<Statement>)
    ensures
        view_stmts(r@) == close_wrap(var@, view_stmts(tail@), tail_returns),
{
    let d = Span::dummy();
    let ghost tv = view_stmts(tail@);
    let pcall = make_pcall(tail);
    let ghost v0 = view_stmt(pcall);
    let ghost vv = var@;
    let mut cargs: Vec<Expression> = Vec::new();
    cargs.push(Expression::Name(var, d));
    proof {
        lemma_view_exprs(cargs@);
        assert(view_exprs(cargs@) =~= seq![dname(vv)]);
    }
    let cleanup = Statement::ExprStmt(dcall_exec("__valua_close", cargs));
    let ghost v1 = view_stmt(cleanup);
    proof {
        assert(v1 == StmtV::ExprStmt { expr: dcall("__valua_close"@, seq![dname(vv)]) });
    }
    let reraise = make_reraise();
    let mut out: Vec<Statement> = Vec::new();
    out.push(pcall);
    out.push(cleanup);
    out.push(reraise);
    if tail_returns {
        let mut rv: Vec<Expression> = Vec::new();
        rv.push(dname_exec("__valua_result"));
        proof {
            lemma_view_exprs(rv@);
        }
        out.push(Statement::Return(Return { values: rv, span: d }));
    }
    proof {
        lemma_view_stmts(out@);
        let w = close_wrap(vv, tv, tail_returns);
        assert(view_stmts(out@)[0] == w[0]);
        assert(view_stmts(out@)[1] == w[1]);
        assert(view_stmts(out@)[2] == w[2]);
        assert(view_stmts(out@) =~= w);
    }
    out
}


proof fn lemma_close_block_def(b: BlockV, h: Seq<StmtV>)
    ensures
        close_block(b, h) == (BlockV { stmts: close_seq(b.stmts, h), span: b.span }),
{
}

proof fn lemma_none_from(s: Seq<StmtV>, j: int, k: int)
    requires
        0 <= j <= k < s.len(),
        first_close_from(s, j) is None,
    ensures
        !is_close_decl(s[k]),
    decreases k - j,
{
    if j < k {
        lemma_none_from(s, j + 1, k);
    }
}

proof fn lemma_none_from_prefix(s: Seq<StmtV>, t: Seq<StmtV>, j: int)
    requires
        0 <= j,
        t.len() <= s.len(),
        forall|k: int| j <= k < t.len() ==> t[k] == s[k],
        forall|k: int| j <= k < s.len() ==> !is_close_decl(s[k]),
    ensures
        first_close_from(t, j) is None,
    decreases t.len() - j,
{
    if j < t.len() {
        lemma_none_from_prefix(s, t, j + 1);
    }
}

proof fn lemma_close_seq_plain(s: Seq<StmtV>, h: Seq<StmtV>)
    requires
        first_close_from(s, 0) is None,
    ensures
        close_seq(s, h) == close_stmts(s, h),
    decreases s.len(),
{
    if s.len() > 0 {
        assert forall|k: int| 0 <= k < s.len() implies !is_close_decl(s[k]) by {
            lemma_none_from(s, 0, k);
        }
        lemma_none_from_prefix(s, s.drop_last(), 0);
        lemma_close_seq_plain(s.drop_last(), h);
    }
}

proof fn lemma_first_close(s: Seq<StmtV>, j: int)
    requires
        0 <= j,
    ensures
        first_close_from(s, j) matches Some(i) ==> j <= i < s.len() && is_close_decl(s[i]),
    decreases s.len() - j,
{
    if j < s.len() && !is_close_decl(s[j]) {
        lemma_first_close(s, j + 1);
    }
}

fn split_at_decl(stmts: Vec<Statement>, i: usize) -> (r: (Vec<Statement>, Option<Statement>, Vec<Statement>))
    requires
        i < stmts.len(),
    ensures
        view_stmts(r.0@) == view_stmts(stmts@).subrange(0, i as int),
        r.1 == Some(stmts@[i as int]),
        view_stmts(r.2@) == view_stmts(stmts@).subrange(i + 1, stmts@.len() as int),
        r.0@ == stmts@.subrange(0, i as int),
        r.2@ == stmts@.subrange(i + 1, stmts@.len() as int),
{
    let ghost orig = stmts@;
    let mut stmts = stmts;
    let tail = stmts.split_off(i + 1);
    let decl = stmts.pop();
    proof {
        lemma_view_stmts(orig);
        lemma_view_stmts(stmts@);
        lemma_view_stmts(tail@);
        assert(stmts@ =~= orig.subrange(0, i as int));
        assert(tail@ =~= orig.subrange(i + 1, orig.len() as int));
        assert(view_stmts(stmts@) =~= view_stmts(orig).subrange(0, i as int));
        assert(view_stmts(tail@) =~= view_stmts(orig).subrange(i + 1, orig.len() as int));
    }
    (stmts, decl, tail)
}

fn assemble(h: &Vec<Statement>, prefix: Vec<Statement>, decl: Statement, wrap: Vec<Statement>) -> (r: Vec<Statement>)
    ensures
        view_stmts(r@) == view_stmts(h@) + view_stmts(prefix@) + seq![view_stmt(decl)] + view_stmts(wrap@),
{
    let mut out = copy_stmts(h);
    let mut prefix = prefix;
    let mut wrap = wrap;
    let ghost out0 = out@;
    let ghost pre = prefix@;
    let ghost wv = wrap@;
    out.append(&mut prefix);
    out.push(decl);
    out.append(&mut wrap);
    proof {
        assert(out@ =~= out0 + pre + seq![decl] + wv);
        lemma_view_stmts(out@);
        lemma_view_stmts(out0);
        lemma_view_stmts(pre);
        lemma_view_stmts(wv);
        assert(view_stmts(out@) =~= view_stmts(out0) + view_stmts(pre) + seq![view_stmt(decl)] + view_stmts(wv));
    }
    out
}

/// The lowered `<close>` declaration and the name it closes.
fn close_decl(d: LocalDecl, h: &Vec<Statement>) -> (r: (Statement, String))
    ensures
        view_stmt(r.0) == (StmtV::LocalDecl {
            names: unclose(view_local_names(d.names@)),
            values: close_exprs(view_exprs(d.values@), view_stmts(h@)),
            span: d.span,
        }),
        r.1@ == close_name_from(view_local_names(d.names@), 0),
    decreases d,
{
    proof {
        assert(decreases_to!(d => d.values));
        assert(decreases_to!(d.values => d.values@));
    }
    let LocalDecl { names, values, span } = d;
    let var = close_name_exec(&names);
    let names = unclose_exec(&names);
    let mut values = values;
    close_exprs_exec(&mut values, h);
    (Statement::LocalDecl(LocalDecl { names, values, span }), var)
}

/// A statement list after lowering, `h` being the helper statements.
#[verifier::rlimit(100)]
#[verifier::loop_isolation(false)]
fn close_seq_exec(stmts: Vec<Statement>, h: &Vec<Statement>) -> (r: Vec<Statement>)
    ensures
        view_stmts(r@) == close_seq(view_stmts(stmts@), view_stmts(h@)),
    decreases stmts@,
{
    let ghost sv = view_stmts(stmts@);
    let ghost orig = stmts@;
    match first_close_exec(&stmts) {
        None => {
            proof {
                lemma_close_seq_plain(sv, view_stmts(h@));
            }
            let ghost hv = view_stmts(h@);
            let mut stmts = stmts;
            let mut k: usize = 0;
            while k < stmts.len()
                invariant
                    k <= stmts.len(),
                    stmts.len() == orig.len(),
                    hv == view_stmts(h@),
                    forall|j: int| 0 <= j < k ==> view_stmt(#[trigger] stmts@[j]) == close_stmt(view_stmt(orig[j]), hv),
                    forall|j: int| k <= j < stmts.len() ==> #[trigger] stmts@[j] == orig[j],
                decreases stmts.len() - k,
            {
                proof {
                    assert(decreases_to!(orig => orig[k as int]));
                }
                close_stmt_exec(&mut stmts[k], h);
                k += 1;
            }
            proof {
                lemma_view_stmts(stmts@);
                lemma_view_stmts(orig);
                lemma_close_stmts(view_stmts(orig), hv);
                assert(view_stmts(stmts@) =~= close_stmts(view_stmts(orig), hv));
            }
            stmts
        },
        Some(i) => {
            let (mut prefix, decl, tail) = split_at_decl(stmts, i);
            proof {
                lemma_first_close(sv, 0);
                assert(is_close_decl(sv[i as int]));
                lemma_view_stmts(orig);
                assert(decreases_to!(orig => orig.subrange(0, i as int)));
                assert(decreases_to!(orig => orig.subrange(i + 1, orig.len() as int)));
            }
            let n = tail.len();
            let tail_returns = n > 0 && match &tail[n - 1] {
                Statement::Return(_) => true,
                _ => false,
            };
            proof {
                if n > 0 {
                    lemma_view_stmts(tail@);
                }
            }
            close_each(&mut prefix, h);
            match decl {
                Some(Statement::LocalDecl(d)) => {
                    proof {
                        assert(decreases_to!(orig => orig[i as int]));
                        assert(orig[i as int] == Statement::LocalDecl(d));
                        assert(decreases_to!(orig[i as int] => d));
                    }
                    let (new_decl, var) = close_decl(d, h);
                    let closed_tail = close_seq_exec(tail, h);
                    let wrap = make_wrap(var, closed_tail, tail_returns);
                    assemble(h, prefix, new_decl, wrap)
                },
                _ => {
                    proof {
                        assert(false);
                    }
                    Vec::new()
                },
            }
        },
    }
}

/// Lowers each statement of a list in place.
#[verifier::rlimit(100)]
fn close_each(v: &mut Vec<Statement>, h: &Vec<Statement>)
    ensures
        view_stmts(final(v)@) == close_stmts(view_stmts(old(v)@), view_stmts(h@)),
    decreases old(v)@,
{
    let ghost old_v = v@;
    let ghost hv = view_stmts(h@);
    let mut i: usize = 0;
    while i < v.len()
        invariant
            i <= v.len(),
            v.len() == old_v.len(),
            old(v)@ == old_v,
            hv == view_stmts(h@),
            forall|j: int| 0 <= j < i ==> view_stmt(#[trigger] v@[j]) == close_stmt(view_stmt(old_v[j]), hv),
            forall|j: int| i <= j < v.len() ==> #[trigger] v@[j] == old_v[j],
        decreases v.len() - i,
    {
        proof {
            assert(decreases_to!(old_v => old_v[i as int]));
        }
        close_stmt_exec(&mut v[i], h);
        i += 1;
    }
    proof {
        lemma_view_stmts(v@);
        lemma_view_stmts(old_v);
        lemma_close_stmts(view_stmts(old_v), hv);
        assert(view_stmts(v@) =~= close_stmts(view_stmts(old_v), hv));
    }
}

/// Lowers a block in place.
pub fn close_block_exec(block: &mut Block, h: &Vec<Statement>)
    ensures
        view_block(*final(block)) == close_block(view_block(*old(block)), view_stmts(h@)),
    decreases *old(block),
{
    let mut stmts: Vec<Statement> = Vec::new();
    std::mem::swap(&mut stmts, &mut block.stmts);
    proof {
        assert(decreases_to!(*old(block) => old(block).stmts));
        assert(decreases_to!(old(block).stmts => stmts@));
    }
    let ghost ob = view_block(*old(block));
    let ghost hv = view_stmts(h@);
    let out = close_seq_exec(stmts, h);
    block.stmts = out;
    proof {
        assert(ob.stmts == view_stmts(old(block).stmts@));
        lemma_close_block_def(ob, hv);
        assert(close_block(ob, hv) == (BlockV { stmts: close_seq(ob.stmts, hv), span: ob.span }));
        assert(view_block(*block) == (BlockV { stmts: view_stmts(block.stmts@), span: block.span }));
    }
}

fn close_func_exec(f: &mut FunctionBody, h: &Vec<Statement>)
    ensures
        view_func(*final(f)) == close_func(view_func(*old(f)), view_stmts(h@)),
    decreases *old(f),
{
    let ghost old_f = *f;
    close_block_exec(&mut f.body, h);
    proof {
        assert(view_func(*f).body == view_block(f.body));
        assert(view_func(old_f).body == view_block(old_f.body));
    }
}

#[verifier::rlimit(100)]
fn close_exprs_exec(v: &mut Vec<Expression>, h: &Vec<Statement>)
    ensures
        view_exprs(final(v)@) == close_exprs(view_exprs(old(v)@), view_stmts(h@)),
    decreases old(v)@,
{
    let ghost old_v = v@;
    let ghost hv = view_stmts(h@);
    let mut i: usize = 0;
    while i < v.len()
        invariant
            i <= v.len(),
            v.len() == old_v.len(),
            old(v)@ == old_v,
            hv == view_stmts(h@),
            forall|j: int| 0 <= j < i ==> view_expr(#[trigger] v@[j]) == close_expr(view_expr(old_v[j]), hv),
            forall|j: int| i <= j < v.len() ==> #[trigger] v@[j] == old_v[j],
        decreases v.len() - i,
    {
        proof {
            assert(decreases_to!(old_v => old_v[i as int]));
        }
        close_expr_exec(&mut v[i], h);
        i += 1;
    }
    proof {
        lemma_view_exprs(v@);
        lemma_view_exprs(old_v);
        lemma_close_exprs(view_exprs(old_v), hv);
        assert(view_exprs(v@) =~= close_exprs(view_exprs(old_v), hv));
    }
}

#[verifier::rlimit(100)]
fn close_fields_exec(v: &mut Vec<TableField>, h: &Vec<Statement>)
    ensures
        view_fields(final(v)@) == close_fields(view_fields(old(v)@), view_stmts(h@)),
    decreases old(v)@,
{
    let ghost old_v = v@;
    let ghost hv = view_stmts(h@);
    let mut i: usize = 0;
    while i < v.len()
        invariant
            i <= v.len(),
            v.len() == old_v.len(),
            old(v)@ == old_v,
            hv == view_stmts(h@),
            forall|j: int| 0 <= j < i ==> view_field(#[trigger] v@[j]) == close_field(view_field(old_v[j]), hv),
            forall|j: int| i <= j < v.len() ==> #[trigger] v@[j] == old_v[j],
        decreases v.len() - i,
    {
        proof {
            assert(decreases_to!(old_v => old_v[i as int]));
        }
        close_field_exec(&mut v[i], h);
        i += 1;
    }
    proof {
        lemma_view_fields(v@);
        lemma_view_fields(old_v);
        lemma_close_fields(view_fields(old_v), hv);
        assert(view_fields(v@) =~= close_fields(view_fields(old_v), hv));
    }
}

fn close_field_exec(f: &mut TableField, h: &Vec<Statement>)
    ensures
        view_field(*final(f)) == close_field(view_field(*old(f)), view_stmts(h@)),
    decreases *old(f),
{
    match f {
        TableField::ExprKey { key, value, .. } => {
            close_expr_exec(key, h);
            close_expr_exec(value, h);
        },
        TableField::NameKey { value, .. } => close_expr_exec(value, h),
        TableField::Positional(value) => close_expr_exec(value, h),
    }
}

#[verifier::rlimit(100)]
fn close_elseifs_exec(v: &mut Vec<ElseIf>, h: &Vec<Statement>)
    ensures
        view_elseifs(final(v)@) == close_elseifs(view_elseifs(old(v)@), view_stmts(h@)),
    decreases old(v)@,
{
    let ghost old_v = v@;
    let ghost hv = view_stmts(h@);
    let mut i: usize = 0;
    while i < v.len()
        invariant
            i <= v.len(),
            v.len() == old_v.len(),
            old(v)@ == old_v,
            hv == view_stmts(h@),
            forall|j: int|
                0 <= j < i ==> view_elseif(#[trigger] v@[j]) == (ElseIfV {
                    body: close_block(view_elseif(old_v[j]).body, hv),
                    ..view_elseif(old_v[j])
                }),
            forall|j: int| i <= j < v.len() ==> #[trigger] v@[j] == old_v[j],
        decreases v.len() - i,
    {
        proof {
            assert(decreases_to!(old_v => old_v[i as int]));
        }
        let item = &mut v[i];
        close_block_exec(&mut item.body, h);
        i += 1;
    }
    proof {
        lemma_view_elseifs(v@);
        lemma_view_elseifs(old_v);
        lemma_close_elseifs(view_elseifs(old_v), hv);
        assert(view_elseifs(v@) =~= close_elseifs(view_elseifs(old_v), hv));
    }
}

#[verifier::rlimit(60)]
fn close_stmt_exec(stmt: &mut Statement, h: &Vec<Statement>)
    ensures
        view_stmt(*final(stmt)) == close_stmt(view_stmt(*old(stmt)), view_stmts(h@)),
    decreases *old(stmt),
{
    match stmt {
        Statement::Do(b) => close_block_exec(&mut b.body, h),
        Statement::While(w) => close_block_exec(&mut w.body, h),
        Statement::Repeat(r) => close_block_exec(&mut r.body, h),
        Statement::If(i) => {
            close_block_exec(&mut i.then_block, h);
            proof {
                assert(decreases_to!(*old(stmt) => old(stmt)->If_0));
                assert(decreases_to!(old(stmt)->If_0 => old(stmt)->If_0.elseif_clauses));
            }
            close_elseifs_exec(&mut i.elseif_clauses, h);
            match &mut i.else_block {
                Some(b) => close_block_exec(b, h),
                None => {},
            }
        },
        Statement::NumericFor(f) => close_block_exec(&mut f.body, h),
        Statement::GenericFor(f) => close_block_exec(&mut f.body, h),
        Statement::FunctionDecl(f) => close_func_exec(&mut f.func, h),
        Statement::LocalFunctionDecl(f) => close_func_exec(&mut f.func, h),
        Statement::LocalDecl(d) => close_exprs_exec(&mut d.values, h),
        Statement::ExprStmt(e) => close_expr_exec(e, h),
        Statement::Assign(a) => close_exprs_exec(&mut a.values, h),
        Statement::Return(r) => close_exprs_exec(&mut r.values, h),
        _ => {},
    }
}

#[verifier::rlimit(60)]
fn close_expr_exec(expr: &mut Expression, h: &Vec<Statement>)
    ensures
        view_expr(*final(expr)) == close_expr(view_expr(*old(expr)), view_stmts(h@)),
    decreases *old(expr),
{
    let mut node = Expression::Nil(Span::dummy());
    std::mem::swap(&mut node, expr);
    let rebuilt = match node {
        Expression::Function(f) => {
            let mut f = f;
            close_func_exec(&mut f, h);
            Expression::Function(f)
        },
        Expression::Call(Call::Call { func, args, span }) => {
            let mut f = *func;
            let mut a = args;
            close_expr_exec(&mut f, h);
            close_exprs_exec(&mut a, h);
            Expression::Call(Call::Call { func: Box::new(f), args: a, span })
        },
        Expression::Call(Call::MethodCall { obj, method, args, span }) => {
            let mut o = *obj;
            let mut a = args;
            close_expr_exec(&mut o, h);
            close_exprs_exec(&mut a, h);
            Expression::Call(Call::MethodCall { obj: Box::new(o), method, args: a, span })
        },
        Expression::BinOp(lhs, op, rhs, span) => {
            let mut l = *lhs;
            let mut r = *rhs;
            close_expr_exec(&mut l, h);
            close_expr_exec(&mut r, h);
            Expression::BinOp(Box::new(l), op, Box::new(r), span)
        },
        Expression::UnOp(op, operand, span) => {
            let mut x = *operand;
            close_expr_exec(&mut x, h);
            Expression::UnOp(op, Box::new(x), span)
        },
        Expression::Table(t) => {
            let mut t = t;
            close_fields_exec(&mut t.fields, h);
            Expression::Table(t)
        },
        Expression::Index(base, field, span) => {
            let mut b = *base;
            close_expr_exec(&mut b, h);
            Expression::Index(Box::new(b), field, span)
        },
        Expression::IndexExpr(base, key, span) => {
            let mut b = *base;
            let mut k = *key;
            close_expr_exec(&mut b, h);
            close_expr_exec(&mut k, h);
            Expression::IndexExpr(Box::new(b), Box::new(k), span)
        },
        other => other,
    };
    *expr = rebuilt;
}

// ── No `<close>` survives the lowering ─────────────────────────────────────

/// Every `<close>` declaration of `e` stands where the lowering reaches it:
/// in a function literal's body, through calls, operators, tables and
/// indexing.
pub open spec fn close_reached_expr(e: ExprV) -> bool
    decreases e,
{
    match e {
        ExprV::Function { func } => close_reached_block(func.body),
        ExprV::Call { func, args, .. } => close_reached_expr(*func) && close_reached_exprs(args),
        ExprV::MethodCall { obj, args, .. } => close_reached_expr(*obj) && close_reached_exprs(args),
        ExprV::BinOp { lhs, rhs, .. } => close_reached_expr(*lhs) && close_reached_expr(*rhs),
        ExprV::UnOp { operand, .. } => close_reached_expr(*operand),
        ExprV::Table { fields, .. } => close_reached_fields(fields),
        ExprV::Index { base, .. } => close_reached_expr(*base),
        ExprV::IndexExpr { base, key, .. } => close_reached_expr(*base) && close_reached_expr(*key),
        _ => true,
    }
}

pub open spec fn close_reached_exprs(s: Seq<ExprV>) -> bool
    decreases s,
{
    s.len() == 0 || (close_reached_exprs(s.drop_last()) && close_reached_expr(s.last()))
}

pub open spec fn close_reached_field(x: FieldV) -> bool
    decreases x,
{
    match x {
        FieldV::ExprKey { key, value, .. } => close_reached_expr(key) && close_reached_expr(value),
        FieldV::NameKey { value, .. } => close_reached_expr(value),
        FieldV::Positional { value } => close_reached_expr(value),
    }
}

pub open spec fn close_reached_fields(s: Seq<FieldV>) -> bool
    decreases s,
{
    s.len() == 0 || (close_reached_fields(s.drop_last()) && close_reached_field(s.last()))
}

/// Every `<close>` declaration of `b` stands where the lowering reaches it:
/// not inside a loop or `if` condition, a `for` header or an assignment
/// target, which the lowering leaves as they are.
pub open spec fn close_reached_block(b: BlockV) -> bool
    decreases b,
{
    close_reached_stmts(b.stmts)
}

pub open spec fn close_reached_stmts(s: Seq<StmtV>) -> bool
    decreases s,
{
    s.len() == 0 || (close_reached_stmts(s.drop_last()) && close_reached_stmt(s.last()))
}

pub open spec fn close_reached_elseifs(s: Seq<ElseIfV>) -> bool
    decreases s,
{
    s.len() == 0 || (close_reached_elseifs(s.drop_last()) && !expr_features(
        s.last().condition,
    ).close_attribute && close_reached_block(s.last().body))
}

pub open spec fn close_reached_stmt(s: StmtV) -> bool
    decreases s,
{
    match s {
        StmtV::LocalDecl { values, .. } => close_reached_exprs(values),
        StmtV::Assign { targets, values, .. } => !exprs_features(targets).close_attribute
            && close_reached_exprs(values),
        StmtV::Return { values, .. } => close_reached_exprs(values),
        StmtV::ExprStmt { expr } => close_reached_expr(expr),
        StmtV::Do { body, .. } => close_reached_block(body),
        StmtV::While { condition, body, .. } => !expr_features(condition).close_attribute
            && close_reached_block(body),
        StmtV::Repeat { body, condition, .. } => !expr_features(condition).close_attribute
            && close_reached_block(body),
        StmtV::If { condition, then_block, elseifs, else_block, .. } => !expr_features(
            condition,
        ).close_attribute && close_reached_block(then_block) && close_reached_elseifs(elseifs)
            && match else_block {
            Some(b) => close_reached_block(b),
            None => true,
        },
        StmtV::NumericFor { start, limit, step, body, .. } => !expr_features(start).close_attribute
            && !expr_features(limit).close_attribute && match step {
            Some(x) => !expr_features(x).close_attribute,
            None => true,
        } && close_reached_block(body),
        StmtV::GenericFor { iterators, body, .. } => !exprs_features(iterators).close_attribute
            && close_reached_block(body),
        StmtV::FunctionDecl { func, .. } => close_reached_block(func.body),
        StmtV::LocalFunctionDecl { func, .. } => close_reached_block(func.body),
        _ => true,
    }
}

proof fn lemma_stmts_close_iff(s: Seq<StmtV>)
    ensures
        !stmts_features(s).close_attribute <==> forall|k: int|
            0 <= k < s.len() ==> !(#[trigger] stmt_features(s[k])).close_attribute,
    decreases s.len(),
{
    if s.len() > 0 {
        let p = s.drop_last();
        lemma_stmts_close_iff(p);
        assert(s.last() == s[s.len() - 1]);
        if forall|k: int| 0 <= k < s.len() ==> !(#[trigger] stmt_features(s[k])).close_attribute {
            assert forall|k: int| 0 <= k < p.len() implies !(#[trigger] stmt_features(p[k])).close_attribute by {
                assert(p[k] == s[k]);
                assert(!stmt_features(s[k]).close_attribute);
            }
            assert(!stmt_features(s[s.len() - 1]).close_attribute);
        }
        if !stmts_features(s).close_attribute {
            assert forall|k: int| 0 <= k < s.len() implies !(#[trigger] stmt_features(s[k])).close_attribute by {
                if k < s.len() - 1 {
                    assert(p[k] == s[k]);
                    assert(!stmt_features(p[k]).close_attribute);
                }
            }
        }
    }
}

proof fn lemma_exprs_close_iff(s: Seq<ExprV>)
    ensures
        !exprs_features(s).close_attribute <==> forall|k: int|
            0 <= k < s.len() ==> !(#[trigger] expr_features(s[k])).close_attribute,
    decreases s.len(),
{
    if s.len() > 0 {
        let p = s.drop_last();
        lemma_exprs_close_iff(p);
        assert(s.last() == s[s.len() - 1]);
        if forall|k: int| 0 <= k < s.len() ==> !(#[trigger] expr_features(s[k])).close_attribute {
            assert forall|k: int| 0 <= k < p.len() implies !(#[trigger] expr_features(p[k])).close_attribute by {
                assert(p[k] == s[k]);
                assert(!expr_features(s[k]).close_attribute);
            }
            assert(!expr_features(s[s.len() - 1]).close_attribute);
        }
        if !exprs_features(s).close_attribute {
            assert forall|k: int| 0 <= k < s.len() implies !(#[trigger] expr_features(s[k])).close_attribute by {
                if k < s.len() - 1 {
                    assert(p[k] == s[k]);
                    assert(!expr_features(p[k]).close_attribute);
                }
            }
        }
    }
}

proof fn lemma_reached_stmts_iff(s: Seq<StmtV>)
    ensures
        close_reached_stmts(s) <==> forall|k: int| 0 <= k < s.len() ==> #[trigger] close_reached_stmt(s[k]),
    decreases s.len(),
{
    if s.len() > 0 {
        let p = s.drop_last();
        lemma_reached_stmts_iff(p);
        assert(s.last() == s[s.len() - 1]);
        if forall|k: int| 0 <= k < s.len() ==> #[trigger] close_reached_stmt(s[k]) {
            assert forall|k: int| 0 <= k < p.len() implies #[trigger] close_reached_stmt(p[k]) by {
                assert(p[k] == s[k]);
                assert(close_reached_stmt(s[k]));
            }
            assert(close_reached_stmt(s[s.len() - 1]));
        }
        if close_reached_stmts(s) {
            assert forall|k: int| 0 <= k < s.len() implies #[trigger] close_reached_stmt(s[k]) by {
                if k < s.len() - 1 {
                    assert(p[k] == s[k]);
                    assert(close_reached_stmt(p[k]));
                }
            }
        }
    }
}

proof fn lemma_nc_expr(e: ExprV, h: Seq<StmtV>)
    requires
        close_reached_expr(e),
        !stmts_features(h).close_attribute,
    ensures
        !expr_features(close_expr(e, h)).close_attribute,
    decreases e,
{
    match e {
        ExprV::Function { func } => {
            lemma_nc_block(func.body, h);
            assert(close_func(func, h).body == close_block(func.body, h));
        },
        ExprV::Call { func, args, .. } => {
            lemma_nc_expr(*func, h);
            lemma_nc_exprs(args, h);
        },
        ExprV::MethodCall { obj, args, .. } => {
            lemma_nc_expr(*obj, h);
            lemma_nc_exprs(args, h);
        },
        ExprV::BinOp { lhs, rhs, .. } => {
            lemma_nc_expr(*lhs, h);
            lemma_nc_expr(*rhs, h);
        },
        ExprV::UnOp { operand, .. } => lemma_nc_expr(*operand, h),
        ExprV::Table { fields, .. } => lemma_nc_fields(fields, h),
        ExprV::Index { base, .. } => lemma_nc_expr(*base, h),
        ExprV::IndexExpr { base, key, .. } => {
            lemma_nc_expr(*base, h);
            lemma_nc_expr(*key, h);
        },
        _ => {},
    }
}

proof fn lemma_nc_exprs(s: Seq<ExprV>, h: Seq<StmtV>)
    requires
        close_reached_exprs(s),
        !stmts_features(h).close_attribute,
    ensures
        !exprs_features(close_exprs(s, h)).close_attribute,
    decreases s,
{
    if s.len() > 0 {
        lemma_nc_exprs(s.drop_last(), h);
        lemma_nc_expr(s.last(), h);
        let c = close_exprs(s.drop_last(), h);
        assert(c.push(close_expr(s.last(), h)).drop_last() =~= c);
    }
}

proof fn lemma_nc_field(x: FieldV, h: Seq<StmtV>)
    requires
        close_reached_field(x),
        !stmts_features(h).close_attribute,
    ensures
        !field_features(close_field(x, h)).close_attribute,
    decreases x,
{
    match x {
        FieldV::ExprKey { key, value, .. } => {
            lemma_nc_expr(key, h);
            lemma_nc_expr(value, h);
        },
        FieldV::NameKey { value, .. } => lemma_nc_expr(value, h),
        FieldV::Positional { value } => lemma_nc_expr(value, h),
    }
}

proof fn lemma_nc_fields(s: Seq<FieldV>, h: Seq<StmtV>)
    requires
        close_reached_fields(s),
        !stmts_features(h).close_attribute,
    ensures
        !fields_features(close_fields(s, h)).close_attribute,
    decreases s,
{
    if s.len() > 0 {
        lemma_nc_fields(s.drop_last(), h);
        lemma_nc_field(s.last(), h);
        let c = close_fields(s.drop_last(), h);
        assert(c.push(close_field(s.last(), h)).drop_last() =~= c);
    }
}

proof fn lemma_nc_block(b: BlockV, h: Seq<StmtV>)
    requires
        close_reached_block(b),
        !stmts_features(h).close_attribute,
    ensures
        !block_features(close_block(b, h)).close_attribute,
    decreases b,
{
    lemma_nc_seq(b.stmts, h);
}

proof fn lemma_nc_elseifs(s: Seq<ElseIfV>, h: Seq<StmtV>)
    requires
        close_reached_elseifs(s),
        !stmts_features(h).close_attribute,
    ensures
        !elseifs_features(close_elseifs(s, h)).close_attribute,
    decreases s,
{
    if s.len() > 0 {
        lemma_nc_elseifs(s.drop_last(), h);
        lemma_nc_block(s.last().body, h);
        let c = close_elseifs(s.drop_last(), h);
        let e = s.last();
        let e2 = ElseIfV { body: close_block(e.body, h), ..e };
        assert(c.push(e2).drop_last() =~= c);
        assert(c.push(e2).last() == e2);
        assert(close_elseifs(s, h) == c.push(e2));
        assert(!expr_features(e2.condition).close_attribute);
        assert(!elseif_features(e2).close_attribute);
    }
}

proof fn lemma_nc_stmt(s: StmtV, h: Seq<StmtV>)
    requires
        close_reached_stmt(s),
        !is_close_decl(s),
        !stmts_features(h).close_attribute,
    ensures
        !stmt_features(close_stmt(s, h)).close_attribute,
    decreases s,
{
    match s {
        StmtV::LocalDecl { names, values, .. } => {
            lemma_nc_exprs(values, h);
            if has_close_name(names) {
                let k = choose|k: int| 0 <= k < names.len() && names[k].attribute == Some(Attribute::Close);
                assert(has_close(names));
            }
        },
        StmtV::Assign { values, .. } => lemma_nc_exprs(values, h),
        StmtV::Return { values, .. } => lemma_nc_exprs(values, h),
        StmtV::ExprStmt { expr } => lemma_nc_expr(expr, h),
        StmtV::Do { body, .. } => lemma_nc_block(body, h),
        StmtV::While { body, .. } => lemma_nc_block(body, h),
        StmtV::Repeat { body, .. } => lemma_nc_block(body, h),
        StmtV::If { then_block, elseifs, else_block, .. } => {
            lemma_nc_block(then_block, h);
            lemma_nc_elseifs(elseifs, h);
            match else_block {
                Some(b) => lemma_nc_block(b, h),
                None => {},
            }
        },
        StmtV::NumericFor { body, .. } => lemma_nc_block(body, h),
        StmtV::GenericFor { body, .. } => lemma_nc_block(body, h),
        StmtV::FunctionDecl { func, .. } => lemma_nc_block(func.body, h),
        StmtV::LocalFunctionDecl { func, .. } => lemma_nc_block(func.body, h),
        _ => {},
    }
}

proof fn lemma_nc_stmts(s: Seq<StmtV>, h: Seq<StmtV>)
    requires
        close_reached_stmts(s),
        forall|k: int| 0 <= k < s.len() ==> !is_close_decl(#[trigger] s[k]),
        !stmts_features(h).close_attribute,
    ensures
        !stmts_features(close_stmts(s, h)).close_attribute,
    decreases s,
{
    if s.len() > 0 {
        assert forall|k: int| 0 <= k < s.drop_last().len() implies !is_close_decl(#[trigger] s.drop_last()[k]) by {
            assert(s.drop_last()[k] == s[k]);
        }
        lemma_nc_stmts(s.drop_last(), h);
        assert(s.last() == s[s.len() - 1]);
        lemma_nc_stmt(s.last(), h);
        let c = close_stmts(s.drop_last(), h);
        assert(c.push(close_stmt(s.last(), h)).drop_last() =~= c);
    }
}

proof fn lemma_before_first_close(s: Seq<StmtV>, j: int, i: int, k: int)
    requires
        0 <= j <= k < i,
        first_close_from(s, j) == Some(i),
    ensures
        !is_close_decl(s[k]),
    decreases k - j,
{
    if j < k {
        lemma_before_first_close(s, j + 1, i, k);
    }
}

proof fn lemma_unclose_plain(names: Seq<LocalNameV>)
    ensures
        !has_close_name(unclose(names)),
{
    if has_close_name(unclose(names)) {
        let k = choose|k: int| 0 <= k < unclose(names).len() && unclose(names)[k].attribute == Some(Attribute::Close);
        assert(unclose(names)[k] == (if names[k].attribute == Some(Attribute::Close) {
            LocalNameV { name: names[k].name, attribute: None, span: names[k].span }
        } else {
            names[k]
        }));
    }
}

proof fn lemma_name_close_free(n: Seq<char>)
    ensures
        !expr_features(dname(n)).close_attribute,
{
}

proof fn lemma_pcall_close_free(tail: Seq<StmtV>)
    requires
        !stmts_features(tail).close_attribute,
    ensures
        !stmt_features(pcall_stmt(tail)).close_attribute,
{
    let d = spec_dummy();
    let f = ExprV::Function {
        func: FuncV { params: seq![], is_vararg: false, body: BlockV { stmts: tail, span: d }, span: d },
    };
    assert(block_features(BlockV { stmts: tail, span: d }) == stmts_features(tail));
    assert(crate::walk::children_features(f) == block_features(BlockV { stmts: tail, span: d }));
    assert(!expr_features(f).close_attribute);
    lemma_exprs_close_iff(seq![f]);
    assert(seq![f][0] == f);
    let call = dcall("pcall"@, seq![f]);
    lemma_name_close_free("pcall"@);
    assert(!exprs_features(seq![f]).close_attribute);
    assert(!expr_features(call).close_attribute);
    lemma_exprs_close_iff(seq![call]);
    assert(seq![call][0] == call);
    assert(!exprs_features(seq![call]).close_attribute);
    let pnames = seq![
        LocalNameV { name: "__valua_ok"@, attribute: None, span: d },
        LocalNameV { name: "__valua_result"@, attribute: None, span: d },
    ];
    if has_close_name(pnames) {
        let k = choose|k: int| 0 <= k < pnames.len() && pnames[k].attribute == Some(Attribute::Close);
        assert(k == 0 || k == 1);
    }
}

proof fn lemma_cleanup_close_free(var: Seq<char>)
    ensures
        !stmt_features(StmtV::ExprStmt { expr: dcall("__valua_close"@, seq![dname(var)]) }).close_attribute,
{
    lemma_name_close_free(var);
    lemma_name_close_free("__valua_close"@);
    lemma_exprs_close_iff(seq![dname(var)]);
    assert(seq![dname(var)][0] == dname(var));
    assert(!exprs_features(seq![dname(var)]).close_attribute);
}

proof fn lemma_reraise_close_free()
    ensures
        !stmt_features(reraise_stmt()).close_attribute,
{
    let d = spec_dummy();
    let eargs = seq![dname("__valua_result"@), ExprV::Integer { value: 0, span: d }];
    lemma_name_close_free("__valua_result"@);
    lemma_name_close_free("error"@);
    lemma_name_close_free("__valua_ok"@);
    lemma_exprs_close_iff(eargs);
    assert(eargs[0] == dname("__valua_result"@));
    assert(eargs[1] == (ExprV::Integer { value: 0, span: d }));
    assert(!expr_features(eargs[1]).close_attribute);
    assert(!exprs_features(eargs).close_attribute);
    let errcall = dcall("error"@, eargs);
    assert(!expr_features(errcall).close_attribute);
    let rb = seq![StmtV::ExprStmt { expr: errcall }];
    lemma_stmts_close_iff(rb);
    assert(rb[0] == (StmtV::ExprStmt { expr: errcall }));
    assert(!stmts_features(rb).close_attribute);
    let cond = ExprV::UnOp { op: UnaryOp::Not, operand: Box::new(dname("__valua_ok"@)), span: d };
    assert(!expr_features(cond).close_attribute);
    assert(elseifs_features(Seq::<ElseIfV>::empty()) == crate::walk::no_fs());
}

proof fn lemma_wrap_close_free(var: Seq<char>, tail: Seq<StmtV>, tail_returns: bool)
    requires
        !stmts_features(tail).close_attribute,
    ensures
        !stmts_features(close_wrap(var, tail, tail_returns)).close_attribute,
{
    let d = spec_dummy();
    lemma_pcall_close_free(tail);
    lemma_cleanup_close_free(var);
    lemma_reraise_close_free();
    let rv = seq![dname("__valua_result"@)];
    lemma_name_close_free("__valua_result"@);
    lemma_exprs_close_iff(rv);
    assert(rv[0] == dname("__valua_result"@));
    assert(!exprs_features(rv).close_attribute);
    let base = seq![
        pcall_stmt(tail),
        StmtV::ExprStmt { expr: dcall("__valua_close"@, seq![dname(var)]) },
        reraise_stmt(),
    ];
    let full = close_wrap(var, tail, tail_returns);
    lemma_stmts_close_iff(full);
    assert forall|k: int| 0 <= k < full.len() implies !(#[trigger] stmt_features(full[k])).close_attribute by {
        if tail_returns {
            assert(full == base.push(StmtV::Return { values: rv, span: d }));
        } else {
            assert(full == base);
        }
    }
}

proof fn lemma_concat_close_free(a: Seq<StmtV>, b: Seq<StmtV>)
    requires
        !stmts_features(a).close_attribute,
        !stmts_features(b).close_attribute,
    ensures
        !stmts_features(a + b).close_attribute,
{
    lemma_stmts_close_iff(a);
    lemma_stmts_close_iff(b);
    lemma_stmts_close_iff(a + b);
    assert forall|k: int| 0 <= k < (a + b).len() implies !(#[trigger] stmt_features((a + b)[k])).close_attribute by {
        if k < a.len() {
            assert((a + b)[k] == a[k]);
        } else {
            assert((a + b)[k] == b[k - a.len()]);
        }
    }
}

#[verifier::rlimit(40)]
proof fn lemma_nc_seq(s: Seq<StmtV>, h: Seq<StmtV>)
    requires
        close_reached_stmts(s),
        !stmts_features(h).close_attribute,
    ensures
        !stmts_features(close_seq(s, h)).close_attribute,
    decreases s,
{
    lemma_first_close(s, 0);
    lemma_reached_stmts_iff(s);
    match first_close_from(s, 0) {
        None => {
            if s.len() > 0 {
                lemma_none_from(s, 0, s.len() - 1);
                assert(close_reached_stmts(s.drop_last()));
                lemma_nc_seq(s.drop_last(), h);
                assert(s.last() == s[s.len() - 1]);
                lemma_nc_stmt(s.last(), h);
                let c = close_seq(s.drop_last(), h);
                assert(c.push(close_stmt(s.last(), h)).drop_last() =~= c);
            }
        },
        Some(i) => {
            match s[i] {
                StmtV::LocalDecl { names, values, span } => {
                    let pre = s.subrange(0, i);
                    let tail = s.subrange(i + 1, s.len() as int);
                    assert forall|k: int| 0 <= k < pre.len() implies !is_close_decl(#[trigger] pre[k]) by {
                        lemma_before_first_close(s, 0, i, k);
                    }
                    lemma_reached_stmts_iff(pre);
                    lemma_reached_stmts_iff(tail);
                    assert forall|k: int| 0 <= k < pre.len() implies #[trigger] close_reached_stmt(pre[k]) by {
                        assert(pre[k] == s[k]);
                    }
                    assert forall|k: int| 0 <= k < tail.len() implies #[trigger] close_reached_stmt(tail[k]) by {
                        assert(tail[k] == s[i + 1 + k]);
                    }
                    lemma_nc_stmts(pre, h);
                    lemma_nc_seq(tail, h);
                    assert(close_reached_stmt(s[i]));
                    lemma_nc_exprs(values, h);
                    lemma_unclose_plain(names);
                    let decl = StmtV::LocalDecl { names: unclose(names), values: close_exprs(values, h), span };
                    assert(!stmt_features(decl).close_attribute);
                    lemma_stmts_close_iff(seq![decl]);
                    lemma_wrap_close_free(
                        close_name_from(names, 0),
                        close_seq(tail, h),
                        tail.len() > 0 && tail.last() is Return,
                    );
                    let w = close_wrap(
                        close_name_from(names, 0),
                        close_seq(tail, h),
                        tail.len() > 0 && tail.last() is Return,
                    );
                    lemma_concat_close_free(h, close_stmts(pre, h));
                    lemma_concat_close_free(h + close_stmts(pre, h), seq![decl]);
                    lemma_concat_close_free(h + close_stmts(pre, h) + seq![decl], w);
                },
                _ => {},
            }
        },
    }
}

/// No `<close>` survives the lowering: when every `<close>` declaration of
/// `b` stands where the lowering reaches it (anywhere but a loop or `if`
/// condition, a `for` header or an assignment target), the lowered block,
/// with the helper `h` put in front of each list that had one, holds no
/// `<close>` declaration at any depth, the generated `pcall` closures
/// included.
pub proof fn lemma_close_lowering_leaves_no_close(b: BlockV, h: Seq<StmtV>)
    requires
        close_reached_block(b),
        !stmts_features(h).close_attribute,
    ensures
        !block_features(close_block(b, h)).close_attribute,
{
    lemma_nc_block(b, h);
}

proof fn lemma_dbin_close_free(a: ExprV, op: BinaryOp, b: ExprV)
    requires
        !expr_features(a).close_attribute,
        !expr_features(b).close_attribute,
    ensures
        !expr_features(dbin(a, op, b)).close_attribute,
{
}

proof fn lemma_dindex_close_free(a: ExprV, f: Seq<char>)
    requires
        !expr_features(a).close_attribute,
    ensures
        !expr_features(dindex(a, f)).close_attribute,
{
}

proof fn lemma_one_expr_close_free(a: ExprV)
    requires
        !expr_features(a).close_attribute,
    ensures
        !exprs_features(seq![a]).close_attribute,
{
    lemma_exprs_close_iff(seq![a]);
    assert(seq![a][0] == a);
}

proof fn lemma_dcall1_close_free(f: Seq<char>, a: ExprV)
    requires
        !expr_features(a).close_attribute,
    ensures
        !expr_features(dcall(f, seq![a])).close_attribute,
{
    lemma_name_close_free(f);
    lemma_one_expr_close_free(a);
}

proof fn lemma_dif_close_free(cond: ExprV, body: Seq<StmtV>)
    requires
        !expr_features(cond).close_attribute,
        !stmts_features(body).close_attribute,
    ensures
        !stmt_features(dif(cond, body)).close_attribute,
{
    assert(elseifs_features(Seq::<ElseIfV>::empty()) == crate::walk::no_fs());
    assert(block_features(BlockV { stmts: body, span: spec_dummy() }) == stmts_features(body));
}

proof fn lemma_return_close_free()
    ensures
        !stmt_features(dreturn()).close_attribute,
        !stmts_features(seq![dreturn()]).close_attribute,
{
    assert(exprs_features(Seq::<ExprV>::empty()) == crate::walk::no_fs());
    lemma_stmts_close_iff(seq![dreturn()]);
    assert(seq![dreturn()][0] == dreturn());
}

proof fn lemma_two_stmts_close_free(a: StmtV, b: StmtV)
    requires
        !stmt_features(a).close_attribute,
        !stmt_features(b).close_attribute,
    ensures
        !stmts_features(seq![a, b]).close_attribute,
{
    lemma_stmts_close_iff(seq![a, b]);
    assert(seq![a, b][0] == a);
    assert(seq![a, b][1] == b);
}

/// The close helper declares no `<close>` local.
pub proof fn lemma_close_helper_close_free()
    ensures
        !stmts_features(close_helper()).close_attribute,
{
    let d = spec_dummy();
    let obj = dname("obj"@);
    let mt = dname("mt"@);
    lemma_name_close_free("obj"@);
    lemma_name_close_free("mt"@);
    lemma_return_close_free();
    let nil = ExprV::Nil { span: d };
    assert(!expr_features(nil).close_attribute);
    lemma_dbin_close_free(obj, BinaryOp::Eq, nil);
    let s1 = dif(dbin(obj, BinaryOp::Eq, nil), seq![dreturn()]);
    lemma_dif_close_free(dbin(obj, BinaryOp::Eq, nil), seq![dreturn()]);
    lemma_dcall1_close_free("getmetatable"@, obj);
    lemma_one_expr_close_free(dcall("getmetatable"@, seq![obj]));
    let mtnames = seq![LocalNameV { name: "mt"@, attribute: None, span: d }];
    if has_close_name(mtnames) {
        let k = choose|k: int| 0 <= k < mtnames.len() && mtnames[k].attribute == Some(Attribute::Close);
        assert(k == 0);
    }
    let s2 = StmtV::LocalDecl { names: mtnames, values: seq![dcall("getmetatable"@, seq![obj])], span: d };
    assert(!stmt_features(s2).close_attribute);
    lemma_dindex_close_free(mt, "__close"@);
    lemma_dbin_close_free(mt, BinaryOp::And, dindex(mt, "__close"@));
    lemma_one_expr_close_free(obj);
    let call3 = ExprV::Call { func: Box::new(dindex(mt, "__close"@)), args: seq![obj], span: d };
    assert(!expr_features(call3).close_attribute);
    let e3 = StmtV::ExprStmt { expr: call3 };
    lemma_two_stmts_close_free(e3, dreturn());
    lemma_dif_close_free(dbin(mt, BinaryOp::And, dindex(mt, "__close"@)), seq![e3, dreturn()]);
    let s3 = dif(dbin(mt, BinaryOp::And, dindex(mt, "__close"@)), seq![e3, dreturn()]);
    lemma_dcall1_close_free("type"@, obj);
    let tstr = dstr("table"@);
    let fstr = dstr("function"@);
    assert(!expr_features(tstr).close_attribute);
    assert(!expr_features(fstr).close_attribute);
    lemma_dbin_close_free(dcall("type"@, seq![obj]), BinaryOp::Eq, tstr);
    lemma_dindex_close_free(obj, "close"@);
    lemma_dcall1_close_free("type"@, dindex(obj, "close"@));
    lemma_dbin_close_free(dcall("type"@, seq![dindex(obj, "close"@)]), BinaryOp::Eq, fstr);
    let c4 = dbin(
        dbin(dcall("type"@, seq![obj]), BinaryOp::Eq, tstr),
        BinaryOp::And,
        dbin(dcall("type"@, seq![dindex(obj, "close"@)]), BinaryOp::Eq, fstr),
    );
    lemma_dbin_close_free(
        dbin(dcall("type"@, seq![obj]), BinaryOp::Eq, tstr),
        BinaryOp::And,
        dbin(dcall("type"@, seq![dindex(obj, "close"@)]), BinaryOp::Eq, fstr),
    );
    let m4 = ExprV::MethodCall { obj: Box::new(obj), method: "close"@, args: seq![], span: d };
    assert(exprs_features(Seq::<ExprV>::empty()) == crate::walk::no_fs());
    assert(!expr_features(m4).close_attribute);
    let e4 = StmtV::ExprStmt { expr: m4 };
    lemma_two_stmts_close_free(e4, dreturn());
    lemma_dif_close_free(c4, seq![e4, dreturn()]);
    let s4 = dif(c4, seq![e4, dreturn()]);
    let body = close_helper_body();
    assert(body == seq![s1, s2, s3, s4]);
    lemma_stmts_close_iff(body);
    assert(body[0] == s1 && body[1] == s2 && body[2] == s3 && body[3] == s4);
    assert(!stmts_features(body).close_attribute);
    let h = close_helper();
    assert(block_features(BlockV { stmts: body, span: d }) == stmts_features(body));
    lemma_stmts_close_iff(h);
    assert(!stmt_features(h[0]).close_attribute);
}

/// What the `<close>` lowering pass makes of a block in which every
/// `<close>` declaration stands where the lowering reaches it holds no
/// `<close>` declaration at any depth.
pub proof fn lemma_close_transform_leaves_no_close(b: BlockV)
    requires
        close_reached_block(b),
    ensures
        !block_features(close_block(b, close_helper())).close_attribute,
{
    lemma_close_helper_close_free();
    lemma_close_lowering_leaves_no_close(b, close_helper());
}

} // verus!
