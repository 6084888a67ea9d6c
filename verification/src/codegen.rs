//! The Lua 5.1 emitter: formatted source text from a syntax tree.

use vstd::prelude::*;
use vstd::string::StringExecFns;

use crate::ast::{
    lemma_view_elseifs, lemma_view_exprs, lemma_view_fields, lemma_view_stmts, view_block,
    view_elseif, view_elseifs, view_expr, view_exprs, view_field, view_fields, view_func,
    view_local_names, view_names, view_params, view_stmt, view_stmts, BinaryOp, Block, BlockV,
    Call, ElseIf, ElseIfV, ExprV, Expression, FieldV, FuncV, FunctionBody, LocalName, LocalNameV,
    LuaTarget, Param, Statement, StmtV, TableField, UnaryOp,
};
use crate::diagnostics::Span;
use crate::fmt::{i64_text, int_text, push_radix, radix_digits};
use crate::text::push_char;

verus! {

// ── Layout ───────────────────────────────────────────────────────────────────

/// `unit` repeated `depth` times.
pub open spec fn indent_of(unit: Seq<char>, depth: nat) -> Seq<char>
    decreases depth,
{
    if depth == 0 {
        Seq::empty()
    } else {
        indent_of(unit, (depth - 1) as nat) + unit
    }
}

/// How tightly an operator binds: `or` 1, `and` 2, comparisons 3, `|` 4,
/// `~` 5, `&` 6, shifts 7, `..` 8, `+ -` 9, `* / // %` 10, `^` 12.
pub open spec fn op_level(op: BinaryOp) -> nat {
    match op {
        BinaryOp::Or => 1,
        BinaryOp::And => 2,
        BinaryOp::Lt | BinaryOp::Le | BinaryOp::Gt | BinaryOp::Ge | BinaryOp::Eq | BinaryOp::Ne => 3,
        BinaryOp::BitwiseOr => 4,
        BinaryOp::BitwiseXor => 5,
        BinaryOp::BitwiseAnd => 6,
        BinaryOp::Shl | BinaryOp::Shr => 7,
        BinaryOp::Concat => 8,
        BinaryOp::Add | BinaryOp::Sub => 9,
        BinaryOp::Mul | BinaryOp::Div | BinaryOp::IDiv | BinaryOp::Mod => 10,
        BinaryOp::Pow => 12,
    }
}

/// The level of unary operators: between `*` and `^`.
pub open spec fn unary_level() -> nat {
    11
}

pub open spec fn right_assoc(op: BinaryOp) -> bool {
    op == BinaryOp::Concat || op == BinaryOp::Pow
}

/// How tightly an expression holds together when printed bare.
pub open spec fn expr_level(e: ExprV) -> nat {
    match e {
        ExprV::BinOp { op, .. } => op_level(op),
        ExprV::UnOp { .. } => unary_level(),
        _ => 13,
    }
}

/// The printed expression starts with `-`.
pub open spec fn starts_minus(e: ExprV) -> bool {
    match e {
        ExprV::UnOp { op, .. } => op == UnaryOp::Neg,
        ExprV::Integer { value, .. } => value < 0,
        _ => false,
    }
}

/// Expressions that can be called or indexed without parentheses.
pub open spec fn is_prefix(e: ExprV) -> bool {
    match e {
        ExprV::Name { .. } | ExprV::Index { .. } | ExprV::IndexExpr { .. } | ExprV::Call { .. }
        | ExprV::MethodCall { .. } => true,
        _ => false,
    }
}

pub open spec fn binop_text(op: BinaryOp) -> Seq<char> {
    match op {
        BinaryOp::Add => " + "@,
        BinaryOp::Sub => " - "@,
        BinaryOp::Mul => " * "@,
        BinaryOp::Div => " / "@,
        BinaryOp::Mod => " % "@,
        BinaryOp::Pow => " ^ "@,
        BinaryOp::IDiv => " // "@,
        BinaryOp::Lt => " < "@,
        BinaryOp::Le => " <= "@,
        BinaryOp::Gt => " > "@,
        BinaryOp::Ge => " >= "@,
        BinaryOp::Eq => " == "@,
        BinaryOp::Ne => " ~= "@,
        BinaryOp::And => " and "@,
        BinaryOp::Or => " or "@,
        BinaryOp::BitwiseAnd => " & "@,
        BinaryOp::BitwiseOr => " | "@,
        BinaryOp::BitwiseXor => " ~ "@,
        BinaryOp::Shl => " << "@,
        BinaryOp::Shr => " >> "@,
        BinaryOp::Concat => " .. "@,
    }
}

pub open spec fn unop_text(op: UnaryOp) -> Seq<char> {
    match op {
        UnaryOp::Neg => "-"@,
        UnaryOp::Not => "not "@,
        UnaryOp::Len => "#"@,
        UnaryOp::BitwiseNot => "~"@,
    }
}

/// One character of a string literal as written between double quotes:
/// backslash, quote and line breaks escaped, other control characters as
/// three-digit decimal escapes.
pub open spec fn escape_char(c: char) -> Seq<char> {
    if c == '\\' {
        "\\\\"@
    } else if c == '"' {
        "\\\""@
    } else if c == '\n' {
        "\\n"@
    } else if c == '\r' {
        "\\r"@
    } else if c == '\t' {
        "\\t"@
    } else if (c as u32) < 32 || (c as u32) == 127 {
        seq!['\\', digit3(c as u32 / 100), digit3((c as u32 / 10) % 10), digit3(c as u32 % 10)]
    } else {
        seq![c]
    }
}

pub open spec fn digit3(d: u32) -> char {
    (('0' as u32) + d) as char
}

pub open spec fn escape_text(s: Seq<char>) -> Seq<char>
    decreases s.len(),
{
    if s.len() == 0 {
        Seq::empty()
    } else {
        escape_text(s.drop_last()) + escape_char(s.last())
    }
}

/// Names separated by `sep`.
pub open spec fn joined(s: Seq<Seq<char>>, sep: Seq<char>) -> Seq<char>
    decreases s.len(),
{
    if s.len() == 0 {
        Seq::empty()
    } else if s.len() == 1 {
        s[0]
    } else {
        joined(s.drop_last(), sep) + sep + s.last()
    }
}

pub open spec fn param_names(params: Seq<(Seq<char>, Span)>) -> Seq<Seq<char>> {
    params.map_values(|p: (Seq<char>, Span)| p.0)
}

pub open spec fn local_names(names: Seq<LocalNameV>) -> Seq<Seq<char>> {
    names.map_values(|n: LocalNameV| n.name)
}

/// A parameter list without its parentheses.
pub open spec fn p_params(f: FuncV) -> Seq<char> {
    let names = param_names(f.params);
    if f.is_vararg {
        if names.len() == 0 {
            "..."@
        } else {
            joined(names, ", "@) + ", ..."@
        }
    } else {
        joined(names, ", "@)
    }
}

// ── Printing ─────────────────────────────────────────────────────────────────

/// An expression as Lua source; `depth` is the indentation of the line it
/// starts on, for the bodies of function literals.
pub open spec fn p_expr(e: ExprV, unit: Seq<char>, depth: nat) -> Seq<char>
    decreases e, 0int,
{
    match e {
        ExprV::Nil { .. } => "nil"@,
        ExprV::True { .. } => "true"@,
        ExprV::False { .. } => "false"@,
        ExprV::Integer { value, .. } => int_text(value as int),
        ExprV::Float { text, .. } => text,
        ExprV::Str { value, .. } => "\""@ + escape_text(value) + "\""@,
        ExprV::Vararg { .. } => "..."@,
        ExprV::Name { name, .. } => name,
        ExprV::Index { base, field, .. } => p_prefix(*base, unit, depth) + "."@ + field,
        ExprV::IndexExpr { base, key, .. } => p_prefix(*base, unit, depth) + "["@ + p_expr(
            *key,
            unit,
            depth,
        ) + "]"@,
        ExprV::BinOp { lhs, op, rhs, .. } => {
            let lp = expr_level(*lhs) < op_level(op) || (expr_level(*lhs) == op_level(op)
                && right_assoc(op));
            let rp = expr_level(*rhs) < op_level(op) || (expr_level(*rhs) == op_level(op)
                && !right_assoc(op));
            p_wrap(*lhs, unit, depth, lp) + binop_text(op) + p_wrap(*rhs, unit, depth, rp)
        },
        ExprV::UnOp { op, operand, .. } => {
            let paren = expr_level(*operand) < unary_level() || (op == UnaryOp::Neg
                && starts_minus(*operand));
            unop_text(op) + p_wrap(*operand, unit, depth, paren)
        },
        ExprV::Call { func, args, .. } => p_prefix(*func, unit, depth) + "("@ + p_exprs(
            args,
            unit,
            depth,
        ) + ")"@,
        ExprV::MethodCall { obj, method, args, .. } => p_prefix(*obj, unit, depth) + ":"@ + method
            + "("@ + p_exprs(args, unit, depth) + ")"@,
        ExprV::Function { func } => "function("@ + p_params(func) + ")\n"@ + p_block(
            func.body,
            unit,
            depth + 1,
        ) + indent_of(unit, depth) + "end"@,
        ExprV::Table { fields, .. } => "{"@ + p_fields(fields, unit, depth) + "}"@,
    }
}

/// `e` in parentheses when `paren` holds.
pub open spec fn p_wrap(e: ExprV, unit: Seq<char>, depth: nat, paren: bool) -> Seq<char>
    decreases e, 1int,
{
    if paren {
        "("@ + p_expr(e, unit, depth) + ")"@
    } else {
        p_expr(e, unit, depth)
    }
}

/// An expression that is called or indexed.
pub open spec fn p_prefix(e: ExprV, unit: Seq<char>, depth: nat) -> Seq<char>
    decreases e, 2int,
{
    p_wrap(e, unit, depth, !is_prefix(e))
}

/// Expressions separated by `, `.
pub open spec fn p_exprs(s: Seq<ExprV>, unit: Seq<char>, depth: nat) -> Seq<char>
    decreases s, 0int,
{
    if s.len() == 0 {
        Seq::empty()
    } else if s.len() == 1 {
        p_expr(s[0], unit, depth)
    } else {
        p_exprs(s.drop_last(), unit, depth) + ", "@ + p_expr(s.last(), unit, depth)
    }
}

pub open spec fn p_field(f: FieldV, unit: Seq<char>, depth: nat) -> Seq<char>
    decreases f, 0int,
{
    match f {
        FieldV::ExprKey { key, value, .. } => "["@ + p_expr(key, unit, depth) + "] = "@ + p_expr(
            value,
            unit,
            depth,
        ),
        FieldV::NameKey { key, value, .. } => key + " = "@ + p_expr(value, unit, depth),
        FieldV::Positional { value } => p_expr(value, unit, depth),
    }
}

pub open spec fn p_fields(s: Seq<FieldV>, unit: Seq<char>, depth: nat) -> Seq<char>
    decreases s, 0int,
{
    if s.len() == 0 {
        Seq::empty()
    } else if s.len() == 1 {
        p_field(s[0], unit, depth)
    } else {
        p_fields(s.drop_last(), unit, depth) + ", "@ + p_field(s.last(), unit, depth)
    }
}

/// The statements of a block, one per line, indented by `depth`.
pub open spec fn p_block(b: BlockV, unit: Seq<char>, depth: nat) -> Seq<char>
    decreases b, 1int,
{
    p_stmts(b.stmts, unit, depth)
}

pub open spec fn p_stmts(s: Seq<StmtV>, unit: Seq<char>, depth: nat) -> Seq<char>
    decreases s, 0int,
{
    if s.len() == 0 {
        Seq::empty()
    } else {
        p_stmts(s.drop_last(), unit, depth) + p_stmt(s.last(), unit, depth)
    }
}

pub open spec fn p_elseifs(s: Seq<ElseIfV>, unit: Seq<char>, depth: nat) -> Seq<char>
    decreases s, 0int,
{
    if s.len() == 0 {
        Seq::empty()
    } else {
        let e = s.last();
        p_elseifs(s.drop_last(), unit, depth) + indent_of(unit, depth) + "elseif "@ + p_expr(
            e.condition,
            unit,
            depth,
        ) + " then\n"@ + p_block(e.body, unit, depth + 1)
    }
}

/// One statement: its lines, each indented and ending in a line feed.
pub open spec fn p_stmt(s: StmtV, unit: Seq<char>, depth: nat) -> Seq<char>
    decreases s, 0int,
{
    let ind = indent_of(unit, depth);
    let end_line = ind + "end\n"@;
    match s {
        StmtV::LocalDecl { names, values, .. } => ind + "local "@ + joined(local_names(names), ", "@)
            + if values.len() == 0 {
            Seq::empty()
        } else {
            " = "@ + p_exprs(values, unit, depth)
        } + "\n"@,
        StmtV::Assign { targets, values, .. } => ind + p_exprs(targets, unit, depth) + " = "@
            + p_exprs(values, unit, depth) + "\n"@,
        StmtV::Do { body, .. } => ind + "do\n"@ + p_block(body, unit, depth + 1) + end_line,
        StmtV::While { condition, body, .. } => ind + "while "@ + p_expr(condition, unit, depth)
            + " do\n"@ + p_block(body, unit, depth + 1) + end_line,
        StmtV::Repeat { body, condition, .. } => ind + "repeat\n"@ + p_block(body, unit, depth + 1)
            + ind + "until "@ + p_expr(condition, unit, depth) + "\n"@,
        StmtV::If { condition, then_block, elseifs, else_block, .. } => ind + "if "@ + p_expr(
            condition,
            unit,
            depth,
        ) + " then\n"@ + p_block(then_block, unit, depth + 1) + p_elseifs(elseifs, unit, depth)
            + match else_block {
            Some(b) => ind + "else\n"@ + p_block(b, unit, depth + 1),
            None => Seq::empty(),
        } + end_line,
        StmtV::NumericFor { var, start, limit, step, body, .. } => ind + "for "@ + var + " = "@
            + p_expr(start, unit, depth) + ", "@ + p_expr(limit, unit, depth) + match step {
            Some(x) => ", "@ + p_expr(x, unit, depth),
            None => Seq::empty(),
        } + " do\n"@ + p_block(body, unit, depth + 1) + end_line,
        StmtV::GenericFor { vars, iterators, body, .. } => ind + "for "@ + joined(vars, ", "@)
            + " in "@ + p_exprs(iterators, unit, depth) + " do\n"@ + p_block(body, unit, depth + 1)
            + end_line,
        StmtV::FunctionDecl { parts, method, func, .. } => ind + "function "@ + joined(parts, "."@)
            + match method {
            Some(m) => ":"@ + m,
            None => Seq::empty(),
        } + "("@ + p_params(func) + ")\n"@ + p_block(func.body, unit, depth + 1) + end_line,
        StmtV::LocalFunctionDecl { name, func, .. } => ind + "local function "@ + name + "("@
            + p_params(func) + ")\n"@ + p_block(func.body, unit, depth + 1) + end_line,
        StmtV::Return { values, .. } => ind + "return"@ + if values.len() == 0 {
            Seq::empty()
        } else {
            " "@ + p_exprs(values, unit, depth)
        } + "\n"@,
        StmtV::Break { .. } => ind + "break\n"@,
        StmtV::Goto { label, .. } => ind + "goto "@ + label + "\n"@,
        StmtV::Label { name, .. } => ind + "::"@ + name + "::\n"@,
        StmtV::ExprStmt { expr } => ind + p_expr(expr, unit, depth) + "\n"@,
    }
}


// ── Executable emitter ───────────────────────────────────────────────────────

fn escape_char_exec(out: &mut String, c: char)
    ensures
        final(out)@ == old(out)@ + escape_char(c),
{
    let v = c as u32;
    if c == '\\' {
        out.append("\\\\");
    } else if c == '"' {
        out.append("\\\"");
    } else if c == '\n' {
        out.append("\\n");
    } else if c == '\r' {
        out.append("\\r");
    } else if c == '\t' {
        out.append("\\t");
    } else if v < 32 || v == 127 {
        push_char(out, '\\');
        push_char(out, ((('0' as u32) + v / 100) as u8) as char);
        push_char(out, ((('0' as u32) + (v / 10) % 10) as u8) as char);
        push_char(out, ((('0' as u32) + v % 10) as u8) as char);
        assert(final(out)@ =~= old(out)@ + escape_char(c));
    } else {
        push_char(out, c);
        assert(final(out)@ =~= old(out)@ + escape_char(c));
    }
}

fn emit_string_literal(out: &mut String, s: &String)
    ensures
        final(out)@ == old(out)@ + "\""@ + escape_text(s@) + "\""@,
{
    let cs = crate::text::chars_of(s.as_str());
    out.append("\"");
    let ghost base = out@;
    let mut k: usize = 0;
    while k < cs.len()
        invariant
            k <= cs.len(),
            cs@ == s@,
            out@ == base + escape_text(cs@.subrange(0, k as int)),
        decreases cs.len() - k,
    {
        escape_char_exec(out, cs[k]);
        proof {
            assert(cs@.subrange(0, k + 1).drop_last() =~= cs@.subrange(0, k as int));
            assert(out@ =~= base + escape_text(cs@.subrange(0, k + 1)));
        }
        k += 1;
    }
    assert(cs@.subrange(0, cs.len() as int) =~= s@);
    out.append("\"");
}

fn emit_joined(out: &mut String, v: &Vec<String>, sep: &str)
    ensures
        final(out)@ == old(out)@ + joined(crate::ast::view_names(v@), sep@),
{
    let ghost names = crate::ast::view_names(v@);
    let mut k: usize = 0;
    while k < v.len()
        invariant
            k <= v.len(),
            names == crate::ast::view_names(v@),
            out@ == old(out)@ + joined(names.subrange(0, k as int), sep@),
        decreases v.len() - k,
    {
        if k > 0 {
            out.append(sep);
        }
        out.append(v[k].as_str());
        proof {
            let a = names.subrange(0, k + 1);
            assert(a.drop_last() =~= names.subrange(0, k as int));
            assert(a.last() == v@[k as int]@);
            if k == 0 {
                assert(names.subrange(0, 0) =~= Seq::<Seq<char>>::empty());
            }
            assert(out@ =~= old(out)@ + joined(a, sep@));
        }
        k += 1;
    }
    assert(names.subrange(0, v.len() as int) =~= names);
}

fn emit_local_names(out: &mut String, v: &Vec<LocalName>)
    ensures
        final(out)@ == old(out)@ + joined(local_names(view_local_names(v@)), ", "@),
{
    let ghost names = local_names(view_local_names(v@));
    let mut k: usize = 0;
    while k < v.len()
        invariant
            k <= v.len(),
            names == local_names(view_local_names(v@)),
            out@ == old(out)@ + joined(names.subrange(0, k as int), ", "@),
        decreases v.len() - k,
    {
        if k > 0 {
            out.append(", ");
        }
        out.append(v[k].name.as_str());
        proof {
            let a = names.subrange(0, k + 1);
            assert(a.drop_last() =~= names.subrange(0, k as int));
            assert(a.last() == v@[k as int].name@);
            if k == 0 {
                assert(names.subrange(0, 0) =~= Seq::<Seq<char>>::empty());
            }
            assert(out@ =~= old(out)@ + joined(a, ", "@));
        }
        k += 1;
    }
    assert(names.subrange(0, v.len() as int) =~= names);
}

fn emit_params(out: &mut String, f: &FunctionBody)
    ensures
        final(out)@ == old(out)@ + p_params(view_func(*f)),
{
    let ghost names = param_names(view_params(f.params@));
    let v = &f.params;
    let mut k: usize = 0;
    while k < v.len()
        invariant
            k <= v.len(),
            v == &f.params,
            names == param_names(view_params(v@)),
            out@ == old(out)@ + joined(names.subrange(0, k as int), ", "@),
        decreases v.len() - k,
    {
        if k > 0 {
            out.append(", ");
        }
        out.append(v[k].name.as_str());
        proof {
            let a = names.subrange(0, k + 1);
            assert(a.drop_last() =~= names.subrange(0, k as int));
            assert(a.last() == v@[k as int].name@);
            if k == 0 {
                assert(names.subrange(0, 0) =~= Seq::<Seq<char>>::empty());
            }
            assert(out@ =~= old(out)@ + joined(a, ", "@));
        }
        k += 1;
    }
    assert(names.subrange(0, v.len() as int) =~= names);
    if f.is_vararg {
        if v.len() == 0 {
            out.append("...");
        } else {
            out.append(", ...");
        }
    }
    proof {
        assert(view_func(*f).params == view_params(f.params@));
        assert(view_func(*f).is_vararg == f.is_vararg);
    }
}

fn binop_text_exec(op: BinaryOp) -> (r: &'static str)
    ensures
        r@ == binop_text(op),
{
    match op {
        BinaryOp::Add => " + ",
        BinaryOp::Sub => " - ",
        BinaryOp::Mul => " * ",
        BinaryOp::Div => " / ",
        BinaryOp::Mod => " % ",
        BinaryOp::Pow => " ^ ",
        BinaryOp::IDiv => " // ",
        BinaryOp::Lt => " < ",
        BinaryOp::Le => " <= ",
        BinaryOp::Gt => " > ",
        BinaryOp::Ge => " >= ",
        BinaryOp::Eq => " == ",
        BinaryOp::Ne => " ~= ",
        BinaryOp::And => " and ",
        BinaryOp::Or => " or ",
        BinaryOp::BitwiseAnd => " & ",
        BinaryOp::BitwiseOr => " | ",
        BinaryOp::BitwiseXor => " ~ ",
        BinaryOp::Shl => " << ",
        BinaryOp::Shr => " >> ",
        BinaryOp::Concat => " .. ",
    }
}

fn unop_text_exec(op: UnaryOp) -> (r: &'static str)
    ensures
        r@ == unop_text(op),
{
    match op {
        UnaryOp::Neg => "-",
        UnaryOp::Not => "not ",
        UnaryOp::Len => "#",
        UnaryOp::BitwiseNot => "~",
    }
}

fn op_level_exec(op: BinaryOp) -> (r: u8)
    ensures
        r == op_level(op),
{
    match op {
        BinaryOp::Or => 1,
        BinaryOp::And => 2,
        BinaryOp::Lt | BinaryOp::Le | BinaryOp::Gt | BinaryOp::Ge | BinaryOp::Eq | BinaryOp::Ne => 3,
        BinaryOp::BitwiseOr => 4,
        BinaryOp::BitwiseXor => 5,
        BinaryOp::BitwiseAnd => 6,
        BinaryOp::Shl | BinaryOp::Shr => 7,
        BinaryOp::Concat => 8,
        BinaryOp::Add | BinaryOp::Sub => 9,
        BinaryOp::Mul | BinaryOp::Div | BinaryOp::IDiv | BinaryOp::Mod => 10,
        BinaryOp::Pow => 12,
    }
}

fn expr_level_exec(e: &Expression) -> (r: u8)
    ensures
        r == expr_level(view_expr(*e)),
{
    match e {
        Expression::BinOp(_, op, _, _) => op_level_exec(*op),
        Expression::UnOp(_, _, _) => 11,
        _ => 13,
    }
}

fn starts_minus_exec(e: &Expression) -> (r: bool)
    ensures
        r == starts_minus(view_expr(*e)),
{
    match e {
        Expression::UnOp(op, _, _) => *op == UnaryOp::Neg,
        Expression::Integer(v, _) => *v < 0,
        _ => false,
    }
}

fn is_prefix_exec(e: &Expression) -> (r: bool)
    ensures
        r == is_prefix(view_expr(*e)),
{
    match e {
        Expression::Name(_, _) | Expression::Index(_, _, _) | Expression::IndexExpr(_, _, _)
        | Expression::Call(_) => true,
        _ => false,
    }
}


fn deeper_indent(ind: &String, unit: &String, Ghost(depth): Ghost<nat>) -> (r: String)
    requires
        ind@ == indent_of(unit@, depth),
    ensures
        r@ == indent_of(unit@, depth + 1),
{
    let mut r = ind.clone();
    r.append(unit.as_str());
    r
}

#[verifier::rlimit(60)]
fn emit_expr(out: &mut String, e: &Expression, unit: &String, ind: &String, Ghost(depth): Ghost<nat>)
    requires
        ind@ == indent_of(unit@, depth),
    ensures
        final(out)@ == old(out)@ + p_expr(view_expr(*e), unit@, depth),
    decreases e, 0int,
{
    match e {
        Expression::Nil(_) => out.append("nil"),
        Expression::True(_) => out.append("true"),
        Expression::False(_) => out.append("false"),
        Expression::Integer(v, _) => out.append(i64_text(*v).as_str()),
        Expression::Float(t, _) => out.append(t.as_str()),
        Expression::String(v, _) => emit_string_literal(out, v),
        Expression::Vararg(_) => out.append("..."),
        Expression::Name(n, _) => out.append(n.as_str()),
        Expression::Index(base, field, _) => {
            emit_prefix(out, base, unit, ind, Ghost(depth));
            out.append(".");
            out.append(field.as_str());
        },
        Expression::IndexExpr(base, key, _) => {
            emit_prefix(out, base, unit, ind, Ghost(depth));
            out.append("[");
            emit_expr(out, key, unit, ind, Ghost(depth));
            out.append("]");
        },
        Expression::BinOp(lhs, op, rhs, _) => {
            let lvl = op_level_exec(*op);
            let ra = *op == BinaryOp::Concat || *op == BinaryOp::Pow;
            let ll = expr_level_exec(lhs);
            let rl = expr_level_exec(rhs);
            emit_wrap(out, lhs, unit, ind, Ghost(depth), ll < lvl || (ll == lvl && ra));
            out.append(binop_text_exec(*op));
            emit_wrap(out, rhs, unit, ind, Ghost(depth), rl < lvl || (rl == lvl && !ra));
        },
        Expression::UnOp(op, operand, _) => {
            let paren = expr_level_exec(operand) < 11 || (*op == UnaryOp::Neg && starts_minus_exec(
                operand,
            ));
            out.append(unop_text_exec(*op));
            emit_wrap(out, operand, unit, ind, Ghost(depth), paren);
        },
        Expression::Call(Call::Call { func, args, .. }) => {
            emit_prefix(out, func, unit, ind, Ghost(depth));
            out.append("(");
            emit_exprs(out, args, unit, ind, Ghost(depth));
            out.append(")");
        },
        Expression::Call(Call::MethodCall { obj, method, args, .. }) => {
            emit_prefix(out, obj, unit, ind, Ghost(depth));
            out.append(":");
            out.append(method.as_str());
            out.append("(");
            emit_exprs(out, args, unit, ind, Ghost(depth));
            out.append(")");
        },
        Expression::Function(f) => {
            proof {
                assert(view_func(*f).body == view_block(f.body));
            }
            let deeper = deeper_indent(ind, unit, Ghost(depth));
            out.append("function(");
            emit_params(out, f);
            out.append(")\n");
            emit_block(out, &f.body, unit, &deeper, Ghost(depth + 1));
            out.append(ind.as_str());
            out.append("end");
        },
        Expression::Table(t) => {
            out.append("{");
            emit_fields(out, &t.fields, unit, ind, Ghost(depth));
            out.append("}");
        },
    }
    assert(final(out)@ =~= old(out)@ + p_expr(view_expr(*e), unit@, depth));
}

fn emit_wrap(out: &mut String, e: &Expression, unit: &String, ind: &String, Ghost(depth): Ghost<nat>, paren: bool)
    requires
        ind@ == indent_of(unit@, depth),
    ensures
        final(out)@ == old(out)@ + p_wrap(view_expr(*e), unit@, depth, paren),
    decreases e, 1int,
{
    if paren {
        out.append("(");
        emit_expr(out, e, unit, ind, Ghost(depth));
        out.append(")");
    } else {
        emit_expr(out, e, unit, ind, Ghost(depth));
    }
    assert(final(out)@ =~= old(out)@ + p_wrap(view_expr(*e), unit@, depth, paren));
}

fn emit_prefix(out: &mut String, e: &Expression, unit: &String, ind: &String, Ghost(depth): Ghost<nat>)
    requires
        ind@ == indent_of(unit@, depth),
    ensures
        final(out)@ == old(out)@ + p_prefix(view_expr(*e), unit@, depth),
    decreases e, 2int,
{
    let paren = !is_prefix_exec(e);
    emit_wrap(out, e, unit, ind, Ghost(depth), paren);
}

fn emit_exprs(out: &mut String, v: &Vec<Expression>, unit: &String, ind: &String, Ghost(depth): Ghost<nat>)
    requires
        ind@ == indent_of(unit@, depth),
    ensures
        final(out)@ == old(out)@ + p_exprs(view_exprs(v@), unit@, depth),
    decreases v, 0int,
{
    let mut k: usize = 0;
    while k < v.len()
        invariant
            k <= v.len(),
            ind@ == indent_of(unit@, depth),
            out@ == old(out)@ + p_exprs(view_exprs(v@.subrange(0, k as int)), unit@, depth),
        decreases v.len() - k,
    {
        proof {
            crate::transformer::lemma_exprs_prefix(v@, k as int);
            assert(decreases_to!(*v => v@));
            assert(decreases_to!(v@ => v@[k as int]));
        }
        if k > 0 {
            out.append(", ");
        }
        emit_expr(out, &v[k], unit, ind, Ghost(depth));
        proof {
            let a = view_exprs(v@.subrange(0, k + 1));
            if k == 0 {
                assert(v@.subrange(0, 0) =~= Seq::<Expression>::empty());
            }
            assert(a.drop_last() =~= view_exprs(v@.subrange(0, k as int)));
            assert(out@ =~= old(out)@ + p_exprs(a, unit@, depth));
        }
        k += 1;
    }
    assert(v@.subrange(0, v.len() as int) =~= v@);
}

fn emit_field(out: &mut String, f: &TableField, unit: &String, ind: &String, Ghost(depth): Ghost<nat>)
    requires
        ind@ == indent_of(unit@, depth),
    ensures
        final(out)@ == old(out)@ + p_field(view_field(*f), unit@, depth),
    decreases f, 0int,
{
    match f {
        TableField::ExprKey { key, value, .. } => {
            out.append("[");
            emit_expr(out, key, unit, ind, Ghost(depth));
            out.append("] = ");
            emit_expr(out, value, unit, ind, Ghost(depth));
        },
        TableField::NameKey { key, value, .. } => {
            out.append(key.as_str());
            out.append(" = ");
            emit_expr(out, value, unit, ind, Ghost(depth));
        },
        TableField::Positional(value) => emit_expr(out, value, unit, ind, Ghost(depth)),
    }
    assert(final(out)@ =~= old(out)@ + p_field(view_field(*f), unit@, depth));
}

fn emit_fields(out: &mut String, v: &Vec<TableField>, unit: &String, ind: &String, Ghost(depth): Ghost<nat>)
    requires
        ind@ == indent_of(unit@, depth),
    ensures
        final(out)@ == old(out)@ + p_fields(view_fields(v@), unit@, depth),
    decreases v, 0int,
{
    let mut k: usize = 0;
    while k < v.len()
        invariant
            k <= v.len(),
            ind@ == indent_of(unit@, depth),
            out@ == old(out)@ + p_fields(view_fields(v@.subrange(0, k as int)), unit@, depth),
        decreases v.len() - k,
    {
        proof {
            crate::transformer::lemma_fields_prefix(v@, k as int);
            assert(decreases_to!(*v => v@));
            assert(decreases_to!(v@ => v@[k as int]));
        }
        if k > 0 {
            out.append(", ");
        }
        emit_field(out, &v[k], unit, ind, Ghost(depth));
        proof {
            let a = view_fields(v@.subrange(0, k + 1));
            if k == 0 {
                assert(v@.subrange(0, 0) =~= Seq::<TableField>::empty());
            }
            assert(a.drop_last() =~= view_fields(v@.subrange(0, k as int)));
            assert(out@ =~= old(out)@ + p_fields(a, unit@, depth));
        }
        k += 1;
    }
    assert(v@.subrange(0, v.len() as int) =~= v@);
}

fn emit_block(out: &mut String, b: &Block, unit: &String, ind: &String, Ghost(depth): Ghost<nat>)
    requires
        ind@ == indent_of(unit@, depth),
    ensures
        final(out)@ == old(out)@ + p_block(view_block(*b), unit@, depth),
    decreases b, 1int,
{
    proof {
        assert(decreases_to!(*b => b.stmts));
    }
    emit_stmts(out, &b.stmts, unit, ind, Ghost(depth));
}

fn emit_stmts(out: &mut String, v: &Vec<Statement>, unit: &String, ind: &String, Ghost(depth): Ghost<nat>)
    requires
        ind@ == indent_of(unit@, depth),
    ensures
        final(out)@ == old(out)@ + p_stmts(view_stmts(v@), unit@, depth),
    decreases v, 0int,
{
    let mut k: usize = 0;
    while k < v.len()
        invariant
            k <= v.len(),
            ind@ == indent_of(unit@, depth),
            out@ == old(out)@ + p_stmts(view_stmts(v@.subrange(0, k as int)), unit@, depth),
        decreases v.len() - k,
    {
        proof {
            crate::transformer::lemma_stmts_prefix(v@, k as int);
            assert(decreases_to!(*v => v@));
            assert(decreases_to!(v@ => v@[k as int]));
        }
        emit_stmt(out, &v[k], unit, ind, Ghost(depth));
        proof {
            let a = view_stmts(v@.subrange(0, k + 1));
            assert(a.drop_last() =~= view_stmts(v@.subrange(0, k as int)));
            assert(out@ =~= old(out)@ + p_stmts(a, unit@, depth));
        }
        k += 1;
    }
    assert(v@.subrange(0, v.len() as int) =~= v@);
}

fn emit_elseifs(out: &mut String, v: &Vec<ElseIf>, unit: &String, ind: &String, Ghost(depth): Ghost<nat>)
    requires
        ind@ == indent_of(unit@, depth),
    ensures
        final(out)@ == old(out)@ + p_elseifs(view_elseifs(v@), unit@, depth),
    decreases v, 0int,
{
    let deeper = deeper_indent(ind, unit, Ghost(depth));
    let mut k: usize = 0;
    while k < v.len()
        invariant
            k <= v.len(),
            ind@ == indent_of(unit@, depth),
            deeper@ == indent_of(unit@, depth + 1),
            out@ == old(out)@ + p_elseifs(view_elseifs(v@.subrange(0, k as int)), unit@, depth),
        decreases v.len() - k,
    {
        proof {
            crate::transformer::lemma_elseifs_prefix(v@, k as int);
            assert(decreases_to!(*v => v@));
            assert(decreases_to!(v@ => v@[k as int]));
        }
        let e = &v[k];
        out.append(ind.as_str());
        out.append("elseif ");
        emit_expr(out, &e.condition, unit, ind, Ghost(depth));
        out.append(" then\n");
        emit_block(out, &e.body, unit, &deeper, Ghost(depth + 1));
        proof {
            let a = view_elseifs(v@.subrange(0, k + 1));
            assert(a.drop_last() =~= view_elseifs(v@.subrange(0, k as int)));
            assert(out@ =~= old(out)@ + p_elseifs(a, unit@, depth));
        }
        k += 1;
    }
    assert(v@.subrange(0, v.len() as int) =~= v@);
}

fn emit_stmt(out: &mut String, s: &Statement, unit: &String, ind: &String, Ghost(depth): Ghost<nat>)
    requires
        ind@ == indent_of(unit@, depth),
    ensures
        final(out)@ == old(out)@ + p_stmt(view_stmt(*s), unit@, depth),
    decreases s, 1int,
{
    match s {
        Statement::If(_) => emit_if_stmt(out, s, unit, ind, Ghost(depth)),
        Statement::NumericFor(_) | Statement::GenericFor(_) => emit_for_stmt(out, s, unit, ind, Ghost(depth)),
        Statement::FunctionDecl(_) => emit_fn_stmt(out, s, unit, ind, Ghost(depth)),
        Statement::LocalFunctionDecl(_) => emit_local_fn_stmt(out, s, unit, ind, Ghost(depth)),
        _ => emit_plain_stmt(out, s, unit, ind, Ghost(depth)),
    }
}

#[verifier::rlimit(60)]
fn emit_if_stmt(out: &mut String, s: &Statement, unit: &String, ind: &String, Ghost(depth): Ghost<nat>)
    requires
        ind@ == indent_of(unit@, depth),
        s is If,
    ensures
        final(out)@ == old(out)@ + p_stmt(view_stmt(*s), unit@, depth),
    decreases s, 0int,
{
    let deeper = deeper_indent(ind, unit, Ghost(depth));
    out.append(ind.as_str());
    match s {
        Statement::If(i) => {
            out.append("if ");
            emit_expr(out, &i.condition, unit, ind, Ghost(depth));
            out.append(" then\n");
            emit_block(out, &i.then_block, unit, &deeper, Ghost(depth + 1));
            proof {
                assert(decreases_to!(*s => s->If_0));
                assert(decreases_to!(s->If_0 => i.elseif_clauses));
            }
            emit_elseifs(out, &i.elseif_clauses, unit, ind, Ghost(depth));
            match &i.else_block {
                Some(b) => {
                    out.append(ind.as_str());
                    out.append("else\n");
                    emit_block(out, b, unit, &deeper, Ghost(depth + 1));
                },
                None => {},
            }
            out.append(ind.as_str());
            out.append("end\n");
        },
        _ => {},
    }
    assert(final(out)@ =~= old(out)@ + p_stmt(view_stmt(*s), unit@, depth));
}

#[verifier::rlimit(60)]
fn emit_for_stmt(out: &mut String, s: &Statement, unit: &String, ind: &String, Ghost(depth): Ghost<nat>)
    requires
        ind@ == indent_of(unit@, depth),
        s is NumericFor || s is GenericFor,
    ensures
        final(out)@ == old(out)@ + p_stmt(view_stmt(*s), unit@, depth),
    decreases s, 0int,
{
    let deeper = deeper_indent(ind, unit, Ghost(depth));
    out.append(ind.as_str());
    match s {
        Statement::NumericFor(f) => {
            out.append("for ");
            out.append(f.var.as_str());
            out.append(" = ");
            emit_expr(out, &f.start, unit, ind, Ghost(depth));
            out.append(", ");
            emit_expr(out, &f.limit, unit, ind, Ghost(depth));
            match &f.step {
                Some(x) => {
                    out.append(", ");
                    emit_expr(out, x, unit, ind, Ghost(depth));
                },
                None => {},
            }
            out.append(" do\n");
            emit_block(out, &f.body, unit, &deeper, Ghost(depth + 1));
            out.append(ind.as_str());
            out.append("end\n");
        },
        Statement::GenericFor(f) => {
            out.append("for ");
            emit_joined(out, &f.vars, ", ");
            out.append(" in ");
            emit_exprs(out, &f.iterators, unit, ind, Ghost(depth));
            out.append(" do\n");
            emit_block(out, &f.body, unit, &deeper, Ghost(depth + 1));
            out.append(ind.as_str());
            out.append("end\n");
        },
        _ => {},
    }
    assert(final(out)@ =~= old(out)@ + p_stmt(view_stmt(*s), unit@, depth));
}

#[verifier::rlimit(60)]
fn emit_fn_stmt(out: &mut String, s: &Statement, unit: &String, ind: &String, Ghost(depth): Ghost<nat>)
    requires
        ind@ == indent_of(unit@, depth),
        s is FunctionDecl,
    ensures
        final(out)@ == old(out)@ + p_stmt(view_stmt(*s), unit@, depth),
    decreases s, 0int,
{
    let deeper = deeper_indent(ind, unit, Ghost(depth));
    out.append(ind.as_str());
    match s {
        Statement::FunctionDecl(f) => {
            proof {
                assert(view_func(f.func).body == view_block(f.func.body));
            }
            out.append("function ");
            emit_joined(out, &f.name.parts, ".");
            match &f.name.method {
                Some(m) => {
                    out.append(":");
                    out.append(m.as_str());
                },
                None => {},
            }
            out.append("(");
            emit_params(out, &f.func);
            out.append(")\n");
            emit_block(out, &f.func.body, unit, &deeper, Ghost(depth + 1));
            out.append(ind.as_str());
            out.append("end\n");
        },
        _ => {},
    }
    assert(final(out)@ =~= old(out)@ + p_stmt(view_stmt(*s), unit@, depth));
}

#[verifier::rlimit(60)]
fn emit_local_fn_stmt(out: &mut String, s: &Statement, unit: &String, ind: &String, Ghost(depth): Ghost<nat>)
    requires
        ind@ == indent_of(unit@, depth),
        s is LocalFunctionDecl,
    ensures
        final(out)@ == old(out)@ + p_stmt(view_stmt(*s), unit@, depth),
    decreases s, 0int,
{
    let deeper = deeper_indent(ind, unit, Ghost(depth));
    out.append(ind.as_str());
    match s {
        Statement::LocalFunctionDecl(f) => {
            proof {
                assert(view_func(f.func).body == view_block(f.func.body));
            }
            out.append("local function ");
            out.append(f.name.as_str());
            out.append("(");
            emit_params(out, &f.func);
            out.append(")\n");
            emit_block(out, &f.func.body, unit, &deeper, Ghost(depth + 1));
            out.append(ind.as_str());
            out.append("end\n");
        },
        _ => {},
    }
    assert(final(out)@ =~= old(out)@ + p_stmt(view_stmt(*s), unit@, depth));
}

#[verifier::rlimit(60)]
fn emit_plain_stmt(out: &mut String, s: &Statement, unit: &String, ind: &String, Ghost(depth): Ghost<nat>)
    requires
        ind@ == indent_of(unit@, depth),
        !(s is If || s is NumericFor || s is GenericFor || s is FunctionDecl || s is LocalFunctionDecl),
    ensures
        final(out)@ == old(out)@ + p_stmt(view_stmt(*s), unit@, depth),
    decreases s, 0int,
{
    let deeper = deeper_indent(ind, unit, Ghost(depth));
    out.append(ind.as_str());
    match s {
        Statement::LocalDecl(d) => {
            out.append("local ");
            emit_local_names(out, &d.names);
            if d.values.len() > 0 {
                out.append(" = ");
                emit_exprs(out, &d.values, unit, ind, Ghost(depth));
            }
            out.append("\n");
        },
        Statement::Assign(a) => {
            emit_exprs(out, &a.targets, unit, ind, Ghost(depth));
            out.append(" = ");
            emit_exprs(out, &a.values, unit, ind, Ghost(depth));
            out.append("\n");
        },
        Statement::Do(d) => {
            out.append("do\n");
            emit_block(out, &d.body, unit, &deeper, Ghost(depth + 1));
            out.append(ind.as_str());
            out.append("end\n");
        },
        Statement::While(w) => {
            out.append("while ");
            emit_expr(out, &w.condition, unit, ind, Ghost(depth));
            out.append(" do\n");
            emit_block(out, &w.body, unit, &deeper, Ghost(depth + 1));
            out.append(ind.as_str());
            out.append("end\n");
        },
        Statement::Repeat(r) => {
            out.append("repeat\n");
            emit_block(out, &r.body, unit, &deeper, Ghost(depth + 1));
            out.append(ind.as_str());
            out.append("until ");
            emit_expr(out, &r.condition, unit, ind, Ghost(depth));
            out.append("\n");
        },
        Statement::Return(r) => {
            out.append("return");
            if r.values.len() > 0 {
                out.append(" ");
                emit_exprs(out, &r.values, unit, ind, Ghost(depth));
            }
            out.append("\n");
        },
        Statement::Break(_) => out.append("break\n"),
        Statement::Goto(g) => {
            out.append("goto ");
            out.append(g.label.as_str());
            out.append("\n");
        },
        Statement::Label(l) => {
            out.append("::");
            out.append(l.name.as_str());
            out.append("::\n");
        },
        Statement::ExprStmt(e) => {
            emit_expr(out, e, unit, ind, Ghost(depth));
            out.append("\n");
        },
        _ => {},
    }
    assert(final(out)@ =~= old(out)@ + p_stmt(view_stmt(*s), unit@, depth));
}

// ── Public interface ─────────────────────────────────────────────────────────

/// Options that control how the emitted Lua source is formatted.
#[derive(Debug)]
pub struct EmitOptions {
    /// String used for each indentation level (default: four spaces).
    pub indent: String,
    /// Target runtime.
    pub target: LuaTarget,
    /// Whether a header comment was asked for; the emitter writes none, so
    /// that empty input gives empty output.
    pub emit_header_comment: bool,
}

impl Default for EmitOptions {
    fn default() -> (r: Self)
        ensures
            r.indent@ == "    "@,
            r.target == LuaTarget::Lua51,
            r.emit_header_comment,
    {
        EmitOptions { indent: "    ".to_owned(), target: LuaTarget::Lua51, emit_header_comment: true }
    }
}

/// Errors produced by the Lua 5.1 code emitter.
#[derive(Debug)]
pub enum CodeGenError {
    UnsupportedNode { target: &'static str, detail: String, span: Span },
    Internal { detail: String },
}

impl CodeGenError {
    /// The human-readable description of the error.
    pub fn message(&self) -> (r: String)
        ensures
            r@ == match self {
                CodeGenError::UnsupportedNode { target, detail, .. } =>
                    "AST node cannot be represented in Lua "@ + target@ + ": "@ + detail@,
                CodeGenError::Internal { detail } => "internal emitter error: "@ + detail@,
            },
    {
        match self {
            CodeGenError::UnsupportedNode { target, detail, .. } => {
                let mut m = "AST node cannot be represented in Lua ".to_owned();
                m.append(target);
                m.append(": ");
                m.append(detail.as_str());
                m
            },
            CodeGenError::Internal { detail } => {
                let mut m = "internal emitter error: ".to_owned();
                m.append(detail.as_str());
                m
            },
        }
    }
}

/// A code-generation backend that can emit a block to a string.
pub trait CodeGen {
    fn emit(&self, block: &Block) -> Result<String, CodeGenError>;
}

/// Concrete Lua 5.1 emitter.
pub struct LuaEmitter {
    pub options: EmitOptions,
}

/// The source text of a block: one statement per line, nested blocks
/// indented by one more `unit` per level.
pub open spec fn emitted(b: BlockV, unit: Seq<char>) -> Seq<char> {
    p_block(b, unit, 0)
}

impl LuaEmitter {
    /// An emitter with the given options.
    pub fn new(options: EmitOptions) -> (r: Self)
        ensures
            r.options == options,
    {
        LuaEmitter { options }
    }

    /// An emitter with default options targeting Lua 5.1.
    pub fn lua51() -> (r: Self)
        ensures
            r.options.indent@ == "    "@,
            r.options.target == LuaTarget::Lua51,
            r.options.emit_header_comment,
    {
        LuaEmitter::new(EmitOptions::default())
    }

    /// An emitter with default options targeting LuaJIT.
    pub fn luajit() -> (r: Self)
        ensures
            r.options.indent@ == "    "@,
            r.options.target == LuaTarget::LuaJIT,
            r.options.emit_header_comment,
    {
        let d = EmitOptions::default();
        LuaEmitter::new(EmitOptions { indent: d.indent, target: LuaTarget::LuaJIT, emit_header_comment: d.emit_header_comment })
    }
}

impl CodeGen for LuaEmitter {
    /// The Lua source of `block`.
    fn emit(&self, block: &Block) -> (r: Result<String, CodeGenError>)
        ensures
            r matches Ok(text) && text@ == emitted(view_block(*block), self.options.indent@),
    {
        let mut out = String::new();
        let ind = String::new();
        proof {
            assert(ind@ == indent_of(self.options.indent@, 0));
        }
        emit_block(&mut out, block, &self.options.indent, &ind, Ghost(0nat));
        assert(out@ =~= emitted(view_block(*block), self.options.indent@));
        Ok(out)
    }
}

} // verus!
