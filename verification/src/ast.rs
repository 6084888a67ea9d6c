//! Typed AST for Lua 5.5, shared by the parser, the transform passes, the
//! lint passes and the code generator, together with its abstract model.
//!
//! Every node type has a ghost counterpart (suffix `V`) in which vectors are
//! sequences and strings are sequences of characters; `node@` is the model.

use vstd::prelude::*;

use crate::diagnostics::Span;

verus! {

// ── Executable nodes ─────────────────────────────────────────────────────────

/// Root node: a sequence of statements.
#[derive(Debug)]
pub struct Block {
    pub stmts: Vec<Statement>,
    pub span: Span,
}

/// Every kind of statement in Lua 5.5.
#[derive(Debug)]
pub enum Statement {
    /// `local x [<attr>] = expr`
    LocalDecl(LocalDecl),
    /// `var = expr` or multi-assign
    Assign(Assign),
    /// `do … end`
    Do(Do),
    /// `while expr do … end`
    While(While),
    /// `repeat … until expr`
    Repeat(Repeat),
    /// `if … then … [elseif …] [else …] end`
    If(If),
    /// `for i = start, limit [, step] do … end`
    NumericFor(NumericFor),
    /// `for k, v in iter do … end`
    GenericFor(GenericFor),
    /// `function name(…) … end`
    FunctionDecl(FunctionDecl),
    /// `local function name(…) … end`
    LocalFunctionDecl(LocalFunctionDecl),
    /// `return [exprlist]`
    Return(Return),
    /// `break`
    Break(Span),
    /// `goto label`
    Goto(Goto),
    /// `::label::`
    Label(Label),
    /// A function call used as a statement.
    ExprStmt(Expression),
}

/// `local varlist [<attr>] [= exprlist]`
#[derive(Debug)]
pub struct LocalDecl {
    pub names: Vec<LocalName>,
    pub values: Vec<Expression>,
    pub span: Span,
}

/// One name in a local declaration, with its optional attribute.
#[derive(Debug)]
pub struct LocalName {
    pub name: String,
    pub attribute: Option<Attribute>,
    pub span: Span,
}

/// Lua 5.4/5.5 variable attributes.
#[derive(Debug, Clone, Copy, PartialEq, Eq, Structural)]
pub enum Attribute {
    /// `<const>`
    Const,
    /// `<close>`
    Close,
}

/// Simple or multi-target assignment: `targets = values`.
#[derive(Debug)]
pub struct Assign {
    pub targets: Vec<Expression>,
    pub values: Vec<Expression>,
    pub span: Span,
}

/// `do … end` block.
#[derive(Debug)]
pub struct Do {
    pub body: Block,
    pub span: Span,
}

/// `while cond do body end`
#[derive(Debug)]
pub struct While {
    pub condition: Box<Expression>,
    pub body: Block,
    pub span: Span,
}

/// `repeat body until cond`
#[derive(Debug)]
pub struct Repeat {
    pub body: Block,
    pub condition: Box<Expression>,
    pub span: Span,
}

/// `if cond then body [elseif …]* [else …] end`
#[derive(Debug)]
pub struct If {
    pub condition: Box<Expression>,
    pub then_block: Block,
    pub elseif_clauses: Vec<ElseIf>,
    pub else_block: Option<Block>,
    pub span: Span,
}

/// One `elseif cond then body` branch.
#[derive(Debug)]
pub struct ElseIf {
    pub condition: Box<Expression>,
    pub body: Block,
    pub span: Span,
}

/// `for i = start, limit [, step] do body end`
#[derive(Debug)]
pub struct NumericFor {
    pub var: String,
    pub start: Box<Expression>,
    pub limit: Box<Expression>,
    pub step: Option<Box<Expression>>,
    pub body: Block,
    pub span: Span,
}

/// `for namelist in exprlist do body end`
#[derive(Debug)]
pub struct GenericFor {
    pub vars: Vec<String>,
    pub iterators: Vec<Expression>,
    pub body: Block,
    pub span: Span,
}

/// `function name.path:method (params) body end`
#[derive(Debug)]
pub struct FunctionDecl {
    pub name: FunctionName,
    pub func: FunctionBody,
    pub span: Span,
}

/// `local function name (params) body end`
#[derive(Debug)]
pub struct LocalFunctionDecl {
    pub name: String,
    pub func: FunctionBody,
    pub span: Span,
}

/// Dotted function name with optional method receiver: `a.b.c:method`.
#[derive(Debug)]
pub struct FunctionName {
    pub parts: Vec<String>,
    pub method: Option<String>,
    pub span: Span,
}

/// `return [exprlist]`
#[derive(Debug)]
pub struct Return {
    pub values: Vec<Expression>,
    pub span: Span,
}

/// `goto label`
#[derive(Debug)]
pub struct Goto {
    pub label: String,
    pub span: Span,
}

/// `::label::`
#[derive(Debug)]
pub struct Label {
    pub name: String,
    pub span: Span,
}

/// Shared representation for anonymous and named function bodies.
#[derive(Debug)]
pub struct FunctionBody {
    pub params: Vec<Param>,
    pub is_vararg: bool,
    pub body: Block,
    pub span: Span,
}

/// One parameter in a function signature.
#[derive(Debug)]
pub struct Param {
    pub name: String,
    pub span: Span,
}

/// All expression forms in Lua 5.5.
///
/// A float literal keeps the text it was written with, so that no value is
/// lost or rounded on the way through the transpiler.
#[derive(Debug)]
pub enum Expression {
    Nil(Span),
    True(Span),
    False(Span),
    Integer(i64, Span),
    Float(String, Span),
    String(String, Span),
    Vararg(Span),
    Name(String, Span),
    /// `expr.field`
    Index(Box<Expression>, String, Span),
    /// `expr[key]`
    IndexExpr(Box<Expression>, Box<Expression>, Span),
    /// Binary operation: `lhs op rhs`.
    BinOp(Box<Expression>, BinaryOp, Box<Expression>, Span),
    /// Unary operation: `op expr`.
    UnOp(UnaryOp, Box<Expression>, Span),
    /// Function call: `func(args)` or `obj:method(args)`.
    Call(Call),
    /// `function (params) body end`
    Function(FunctionBody),
    /// Table constructor: `{ [field,]* }`.
    Table(TableConstructor),
}

/// Binary operators in Lua 5.5 (includes bitwise and integer division).
#[derive(Debug, Clone, Copy, PartialEq, Eq, Structural)]
pub enum BinaryOp {
    Add,
    Sub,
    Mul,
    Div,
    Mod,
    Pow,
    /// `//` integer division.
    IDiv,
    Lt,
    Le,
    Gt,
    Ge,
    Eq,
    Ne,
    And,
    Or,
    /// `&`
    BitwiseAnd,
    /// `|`
    BitwiseOr,
    /// `~` (binary)
    BitwiseXor,
    /// `<<`
    Shl,
    /// `>>`
    Shr,
    /// `..`
    Concat,
}

/// Unary operators in Lua 5.5.
#[derive(Debug, Clone, Copy, PartialEq, Eq, Structural)]
pub enum UnaryOp {
    /// `-`
    Neg,
    /// `not`
    Not,
    /// `#`
    Len,
    /// `~` (unary bitwise NOT)
    BitwiseNot,
}

/// A function-call expression or method-call expression.
#[derive(Debug)]
pub enum Call {
    /// `func(args)`
    Call { func: Box<Expression>, args: Vec<Expression>, span: Span },
    /// `obj:method(args)`
    MethodCall { obj: Box<Expression>, method: String, args: Vec<Expression>, span: Span },
}

/// `{ field, field, … }`
#[derive(Debug)]
pub struct TableConstructor {
    pub fields: Vec<TableField>,
    pub span: Span,
}

/// One field in a table constructor.
#[derive(Debug)]
pub enum TableField {
    /// `[expr] = expr`
    ExprKey { key: Box<Expression>, value: Box<Expression>, span: Span },
    /// `name = expr`
    NameKey { key: String, value: Box<Expression>, span: Span },
    /// `expr` (positional)
    Positional(Expression),
}

/// Target Lua runtime: controls which built-ins and polyfills are assumed available.
#[derive(Debug, Clone, Copy, PartialEq, Eq, Structural)]
pub enum LuaTarget {
    /// Plain Lua 5.1 (PUC reference implementation).
    Lua51,
    /// LuaJIT 2.x, which has the `bit` library.
    LuaJIT,
}

impl Default for LuaTarget {
    fn default() -> (r: Self)
        ensures
            r == LuaTarget::Lua51,
    {
        LuaTarget::Lua51
    }
}

// ── Model ────────────────────────────────────────────────────────────────────

/// Model of a block.
pub ghost struct BlockV {
    pub stmts: Seq<StmtV>,
    pub span: Span,
}

/// Model of a name in a local declaration.
pub ghost struct LocalNameV {
    pub name: Seq<char>,
    pub attribute: Option<Attribute>,
    pub span: Span,
}

/// Model of a function body.
pub ghost struct FuncV {
    pub params: Seq<(Seq<char>, Span)>,
    pub is_vararg: bool,
    pub body: BlockV,
    pub span: Span,
}

/// Model of one `elseif` branch.
pub ghost struct ElseIfV {
    pub condition: ExprV,
    pub body: BlockV,
    pub span: Span,
}

/// Model of a statement.
pub ghost enum StmtV {
    LocalDecl { names: Seq<LocalNameV>, values: Seq<ExprV>, span: Span },
    Assign { targets: Seq<ExprV>, values: Seq<ExprV>, span: Span },
    Do { body: BlockV, span: Span },
    While { condition: ExprV, body: BlockV, span: Span },
    Repeat { body: BlockV, condition: ExprV, span: Span },
    If {
        condition: ExprV,
        then_block: BlockV,
        elseifs: Seq<ElseIfV>,
        else_block: Option<BlockV>,
        span: Span,
    },
    NumericFor {
        var: Seq<char>,
        start: ExprV,
        limit: ExprV,
        step: Option<ExprV>,
        body: BlockV,
        span: Span,
    },
    GenericFor { vars: Seq<Seq<char>>, iterators: Seq<ExprV>, body: BlockV, span: Span },
    FunctionDecl {
        parts: Seq<Seq<char>>,
        method: Option<Seq<char>>,
        name_span: Span,
        func: FuncV,
        span: Span,
    },
    LocalFunctionDecl { name: Seq<char>, func: FuncV, span: Span },
    Return { values: Seq<ExprV>, span: Span },
    Break { span: Span },
    Goto { label: Seq<char>, span: Span },
    Label { name: Seq<char>, span: Span },
    ExprStmt { expr: ExprV },
}

/// Model of a table field.
pub ghost enum FieldV {
    ExprKey { key: ExprV, value: ExprV, span: Span },
    NameKey { key: Seq<char>, value: ExprV, span: Span },
    Positional { value: ExprV },
}

/// Model of an expression.
pub ghost enum ExprV {
    Nil { span: Span },
    True { span: Span },
    False { span: Span },
    Integer { value: i64, span: Span },
    Float { text: Seq<char>, span: Span },
    Str { value: Seq<char>, span: Span },
    Vararg { span: Span },
    Name { name: Seq<char>, span: Span },
    Index { base: Box<ExprV>, field: Seq<char>, span: Span },
    IndexExpr { base: Box<ExprV>, key: Box<ExprV>, span: Span },
    BinOp { lhs: Box<ExprV>, op: BinaryOp, rhs: Box<ExprV>, span: Span },
    UnOp { op: UnaryOp, operand: Box<ExprV>, span: Span },
    Call { func: Box<ExprV>, args: Seq<ExprV>, span: Span },
    MethodCall { obj: Box<ExprV>, method: Seq<char>, args: Seq<ExprV>, span: Span },
    Function { func: FuncV },
    Table { fields: Seq<FieldV>, span: Span },
}

// ── Views ────────────────────────────────────────────────────────────────────

pub open spec fn view_names(s: Seq<String>) -> Seq<Seq<char>> {
    s.map_values(|x: String| x@)
}

pub open spec fn view_local_names(s: Seq<LocalName>) -> Seq<LocalNameV> {
    s.map_values(|n: LocalName| LocalNameV { name: n.name@, attribute: n.attribute, span: n.span })
}

pub open spec fn view_params(s: Seq<Param>) -> Seq<(Seq<char>, Span)> {
    s.map_values(|p: Param| (p.name@, p.span))
}

pub open spec fn view_opt_string(o: Option<String>) -> Option<Seq<char>> {
    match o {
        Some(s) => Some(s@),
        None => None,
    }
}

pub open spec fn view_expr(e: Expression) -> ExprV
    decreases e,
{
    match e {
        Expression::Nil(span) => ExprV::Nil { span },
        Expression::True(span) => ExprV::True { span },
        Expression::False(span) => ExprV::False { span },
        Expression::Integer(value, span) => ExprV::Integer { value, span },
        Expression::Float(text, span) => ExprV::Float { text: text@, span },
        Expression::String(value, span) => ExprV::Str { value: value@, span },
        Expression::Vararg(span) => ExprV::Vararg { span },
        Expression::Name(name, span) => ExprV::Name { name: name@, span },
        Expression::Index(base, field, span) => ExprV::Index {
            base: Box::new(view_expr(*base)),
            field: field@,
            span,
        },
        Expression::IndexExpr(base, key, span) => ExprV::IndexExpr {
            base: Box::new(view_expr(*base)),
            key: Box::new(view_expr(*key)),
            span,
        },
        Expression::BinOp(lhs, op, rhs, span) => ExprV::BinOp {
            lhs: Box::new(view_expr(*lhs)),
            op,
            rhs: Box::new(view_expr(*rhs)),
            span,
        },
        Expression::UnOp(op, operand, span) => ExprV::UnOp {
            op,
            operand: Box::new(view_expr(*operand)),
            span,
        },
        Expression::Call(Call::Call { func, args, span }) => ExprV::Call {
            func: Box::new(view_expr(*func)),
            args: view_exprs(args@),
            span,
        },
        Expression::Call(Call::MethodCall { obj, method, args, span }) => ExprV::MethodCall {
            obj: Box::new(view_expr(*obj)),
            method: method@,
            args: view_exprs(args@),
            span,
        },
        Expression::Function(f) => ExprV::Function { func: view_func(f) },
        Expression::Table(t) => ExprV::Table { fields: view_fields(t.fields@), span: t.span },
    }
}

pub open spec fn view_exprs(s: Seq<Expression>) -> Seq<ExprV>
    decreases s,
{
    if s.len() == 0 {
        Seq::empty()
    } else {
        view_exprs(s.drop_last()).push(view_expr(s.last()))
    }
}

pub open spec fn view_field(f: TableField) -> FieldV
    decreases f,
{
    match f {
        TableField::ExprKey { key, value, span } => FieldV::ExprKey {
            key: view_expr(*key),
            value: view_expr(*value),
            span,
        },
        TableField::NameKey { key, value, span } => FieldV::NameKey {
            key: key@,
            value: view_expr(*value),
            span,
        },
        TableField::Positional(value) => FieldV::Positional { value: view_expr(value) },
    }
}

pub open spec fn view_fields(s: Seq<TableField>) -> Seq<FieldV>
    decreases s,
{
    if s.len() == 0 {
        Seq::empty()
    } else {
        view_fields(s.drop_last()).push(view_field(s.last()))
    }
}

pub open spec fn view_func(f: FunctionBody) -> FuncV
    decreases f,
{
    FuncV {
        params: view_params(f.params@),
        is_vararg: f.is_vararg,
        body: view_block(f.body),
        span: f.span,
    }
}

pub open spec fn view_block(b: Block) -> BlockV
    decreases b,
{
    BlockV { stmts: view_stmts(b.stmts@), span: b.span }
}

pub open spec fn view_stmts(s: Seq<Statement>) -> Seq<StmtV>
    decreases s,
{
    if s.len() == 0 {
        Seq::empty()
    } else {
        view_stmts(s.drop_last()).push(view_stmt(s.last()))
    }
}

pub open spec fn view_elseif(e: ElseIf) -> ElseIfV
    decreases e,
{
    ElseIfV { condition: view_expr(*e.condition), body: view_block(e.body), span: e.span }
}

pub open spec fn view_elseifs(s: Seq<ElseIf>) -> Seq<ElseIfV>
    decreases s,
{
    if s.len() == 0 {
        Seq::empty()
    } else {
        view_elseifs(s.drop_last()).push(view_elseif(s.last()))
    }
}

pub open spec fn view_stmt(s: Statement) -> StmtV
    decreases s,
{
    match s {
        Statement::LocalDecl(d) => StmtV::LocalDecl {
            names: view_local_names(d.names@),
            values: view_exprs(d.values@),
            span: d.span,
        },
        Statement::Assign(a) => StmtV::Assign {
            targets: view_exprs(a.targets@),
            values: view_exprs(a.values@),
            span: a.span,
        },
        Statement::Do(d) => StmtV::Do { body: view_block(d.body), span: d.span },
        Statement::While(w) => StmtV::While {
            condition: view_expr(*w.condition),
            body: view_block(w.body),
            span: w.span,
        },
        Statement::Repeat(r) => StmtV::Repeat {
            body: view_block(r.body),
            condition: view_expr(*r.condition),
            span: r.span,
        },
        Statement::If(i) => StmtV::If {
            condition: view_expr(*i.condition),
            then_block: view_block(i.then_block),
            elseifs: view_elseifs(i.elseif_clauses@),
            else_block: match i.else_block {
                Some(b) => Some(view_block(b)),
                None => None,
            },
            span: i.span,
        },
        Statement::NumericFor(f) => StmtV::NumericFor {
            var: f.var@,
            start: view_expr(*f.start),
            limit: view_expr(*f.limit),
            step: match f.step {
                Some(st) => Some(view_expr(*st)),
                None => None,
            },
            body: view_block(f.body),
            span: f.span,
        },
        Statement::GenericFor(f) => StmtV::GenericFor {
            vars: view_names(f.vars@),
            iterators: view_exprs(f.iterators@),
            body: view_block(f.body),
            span: f.span,
        },
        Statement::FunctionDecl(f) => StmtV::FunctionDecl {
            parts: view_names(f.name.parts@),
            method: view_opt_string(f.name.method),
            name_span: f.name.span,
            func: view_func(f.func),
            span: f.span,
        },
        Statement::LocalFunctionDecl(f) => StmtV::LocalFunctionDecl {
            name: f.name@,
            func: view_func(f.func),
            span: f.span,
        },
        Statement::Return(r) => StmtV::Return { values: view_exprs(r.values@), span: r.span },
        Statement::Break(span) => StmtV::Break { span },
        Statement::Goto(g) => StmtV::Goto { label: g.label@, span: g.span },
        Statement::Label(l) => StmtV::Label { name: l.name@, span: l.span },
        Statement::ExprStmt(e) => StmtV::ExprStmt { expr: view_expr(e) },
    }
}

impl View for Expression {
    type V = ExprV;

    open spec fn view(&self) -> ExprV {
        view_expr(*self)
    }
}

impl View for Statement {
    type V = StmtV;

    open spec fn view(&self) -> StmtV {
        view_stmt(*self)
    }
}

impl View for Block {
    type V = BlockV;

    open spec fn view(&self) -> BlockV {
        view_block(*self)
    }
}

impl View for FunctionBody {
    type V = FuncV;

    open spec fn view(&self) -> FuncV {
        view_func(*self)
    }
}

impl View for TableField {
    type V = FieldV;

    open spec fn view(&self) -> FieldV {
        view_field(*self)
    }
}

impl View for ElseIf {
    type V = ElseIfV;

    open spec fn view(&self) -> ElseIfV {
        view_elseif(*self)
    }
}

// ── Sequence-view lemmas ─────────────────────────────────────────────────────

pub proof fn lemma_view_exprs(s: Seq<Expression>)
    ensures
        view_exprs(s).len() == s.len(),
        forall|i: int| 0 <= i < s.len() ==> #[trigger] view_exprs(s)[i] == view_expr(s[i]),
    decreases s.len(),
{
    if s.len() > 0 {
        lemma_view_exprs(s.drop_last());
    }
}

pub proof fn lemma_view_stmts(s: Seq<Statement>)
    ensures
        view_stmts(s).len() == s.len(),
        forall|i: int| 0 <= i < s.len() ==> #[trigger] view_stmts(s)[i] == view_stmt(s[i]),
    decreases s.len(),
{
    if s.len() > 0 {
        lemma_view_stmts(s.drop_last());
    }
}

pub proof fn lemma_view_fields(s: Seq<TableField>)
    ensures
        view_fields(s).len() == s.len(),
        forall|i: int| 0 <= i < s.len() ==> #[trigger] view_fields(s)[i] == view_field(s[i]),
    decreases s.len(),
{
    if s.len() > 0 {
        lemma_view_fields(s.drop_last());
    }
}

pub proof fn lemma_view_elseifs(s: Seq<ElseIf>)
    ensures
        view_elseifs(s).len() == s.len(),
        forall|i: int| 0 <= i < s.len() ==> #[trigger] view_elseifs(s)[i] == view_elseif(s[i]),
    decreases s.len(),
{
    if s.len() > 0 {
        lemma_view_elseifs(s.drop_last());
    }
}

// ── Spans ────────────────────────────────────────────────────────────────────

/// The span recorded on an expression node.
pub open spec fn expr_span(e: ExprV) -> Span {
    match e {
        ExprV::Nil { span } => span,
        ExprV::True { span } => span,
        ExprV::False { span } => span,
        ExprV::Integer { span, .. } => span,
        ExprV::Float { span, .. } => span,
        ExprV::Str { span, .. } => span,
        ExprV::Vararg { span } => span,
        ExprV::Name { span, .. } => span,
        ExprV::Index { span, .. } => span,
        ExprV::IndexExpr { span, .. } => span,
        ExprV::BinOp { span, .. } => span,
        ExprV::UnOp { span, .. } => span,
        ExprV::Call { span, .. } => span,
        ExprV::MethodCall { span, .. } => span,
        ExprV::Function { func } => func.span,
        ExprV::Table { span, .. } => span,
    }
}

impl Expression {
    /// Returns the span of this expression.
    pub fn span(&self) -> (r: Span)
        ensures
            r == expr_span(self@),
    {
        let r = match self {
            Expression::Nil(s) => *s,
            Expression::True(s) => *s,
            Expression::False(s) => *s,
            Expression::Vararg(s) => *s,
            Expression::Integer(_, s) => *s,
            Expression::Float(_, s) => *s,
            Expression::String(_, s) => *s,
            Expression::Name(_, s) => *s,
            Expression::Index(_, _, s) => *s,
            Expression::IndexExpr(_, _, s) => *s,
            Expression::BinOp(_, _, _, s) => *s,
            Expression::UnOp(_, _, s) => *s,
            Expression::Call(c) => c.span(),
            Expression::Function(f) => {
                assert(view_func(*f).span == f.span);
                f.span
            },
            Expression::Table(t) => t.span,
        };
        r
    }
}

impl Call {
    /// Returns the span of this call.
    pub fn span(&self) -> (r: Span)
        ensures
            r == expr_span(view_expr(Expression::Call(*self))),
    {
        match self {
            Call::Call { span, .. } | Call::MethodCall { span, .. } => *span,
        }
    }
}

} // verus!
