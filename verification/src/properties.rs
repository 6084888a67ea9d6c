//! What the lowering passes guarantee about the trees they produce.

use vstd::prelude::*;

use crate::ast::{BinaryOp, BlockV, ExprV, StmtV, UnaryOp};
use crate::polyfills::FeatureSet;
use crate::transformer::{
    bit_call, bit_method, lower_bitwise_node, lower_idiv_node, lowering_of, BitwiseLowering,
    IdivLowering,
};
use crate::walk::{
    block_features, children_features, expr_features, exprs_features, is_bitwise_binop,
    close_only, fixes, lemma_fix_block, lemma_map_block_clean, map_block, no_fs, node_features,
    or_fs, removes, stmt_features, stmts_features,
};

verus! {

pub open spec fn bitwise_flag() -> spec_fn(FeatureSet) -> bool {
    |fs: FeatureSet| fs.bitwise_ops
}

pub open spec fn idiv_flag() -> spec_fn(FeatureSet) -> bool {
    |fs: FeatureSet| fs.integer_div
}

proof fn lemma_two_features(a: ExprV, b: ExprV)
    ensures
        exprs_features(seq![a, b]) == or_fs(or_fs(no_fs(), expr_features(a)), expr_features(b)),
{
    let s1 = seq![a];
    let s2 = seq![a, b];
    assert(s2.drop_last() =~= s1);
    assert(s2.last() == b);
    assert(exprs_features(s2) == or_fs(exprs_features(s1), expr_features(b)));
    lemma_one_feature(a);
}

proof fn lemma_one_feature(a: ExprV)
    ensures
        exprs_features(seq![a]) == or_fs(no_fs(), expr_features(a)),
{
    let s1 = seq![a];
    assert(s1.drop_last() =~= Seq::<ExprV>::empty());
    assert(s1.last() == a);
    assert(exprs_features(s1) == or_fs(exprs_features(Seq::<ExprV>::empty()), expr_features(a)));
}

proof fn lemma_lib_name_features(lib: Seq<char>, method: Seq<char>, span: crate::diagnostics::Span)
    ensures
        expr_features(
            ExprV::Index {
                base: Box::new(ExprV::Name { name: lib, span }),
                field: method,
                span,
            },
        ) == no_fs(),
{
    assert(expr_features(ExprV::Name { name: lib, span }) == no_fs());
}

proof fn lemma_bitwise_removes()
    ensures
        removes(lowering_of::<BitwiseLowering>(), bitwise_flag()),
{
    let f = lowering_of::<BitwiseLowering>();
    let bad = bitwise_flag();
    assert forall|x: ExprV| !bad(children_features(x)) implies !bad(
        #[trigger] expr_features(f(x)),
    ) by {
        assert(f(x) == lower_bitwise_node(x));
        match x {
            ExprV::BinOp { lhs, op, rhs, span } => {
                if is_bitwise_binop(op) {
                    lemma_two_features(*lhs, *rhs);
                    lemma_lib_name_features("bit"@, bit_method(op), span);
                    assert(!bad(expr_features(bit_call(bit_method(op), seq![*lhs, *rhs], span))));
                } else {
                    assert(!bad(node_features(x)));
                }
            },
            ExprV::UnOp { op, operand, span } => {
                if op == UnaryOp::BitwiseNot {
                    lemma_one_feature(*operand);
                    lemma_lib_name_features("bit"@, "bnot"@, span);
                    assert(!bad(expr_features(bit_call("bnot"@, seq![*operand], span))));
                } else {
                    assert(!bad(node_features(x)));
                }
            },
            _ => {
                assert(!bad(node_features(x)));
            },
        }
    }
}

proof fn lemma_idiv_removes()
    ensures
        removes(lowering_of::<IdivLowering>(), idiv_flag()),
{
    let f = lowering_of::<IdivLowering>();
    let bad = idiv_flag();
    assert forall|x: ExprV| !bad(children_features(x)) implies !bad(
        #[trigger] expr_features(f(x)),
    ) by {
        assert(f(x) == lower_idiv_node(x));
        match x {
            ExprV::BinOp { lhs, op, rhs, span } => {
                if op == BinaryOp::IDiv {
                    let div = ExprV::BinOp { lhs, op: BinaryOp::Div, rhs, span };
                    assert(!bad(expr_features(div)));
                    lemma_one_feature(div);
                    lemma_lib_name_features("math"@, "floor"@, span);
                } else {
                    assert(!bad(node_features(x)));
                }
            },
            _ => {
                assert(!bad(node_features(x)));
            },
        }
    }
}

/// After bitwise lowering no bitwise operator is left anywhere in a block,
/// nested function bodies included.
pub proof fn lemma_bitwise_lowering_leaves_no_bitwise(b: BlockV)
    ensures
        !block_features(map_block(b, lowering_of::<BitwiseLowering>())).bitwise_ops,
{
    lemma_bitwise_removes();
    lemma_map_block_clean(b, lowering_of::<BitwiseLowering>(), bitwise_flag());
}

/// After integer-division lowering no `//` is left anywhere in a block.
pub proof fn lemma_idiv_lowering_leaves_no_idiv(b: BlockV)
    ensures
        !block_features(map_block(b, lowering_of::<IdivLowering>())).integer_div,
{
    lemma_idiv_removes();
    lemma_map_block_clean(b, lowering_of::<IdivLowering>(), idiv_flag());
}

proof fn lemma_bitwise_fixes()
    ensures
        fixes(lowering_of::<BitwiseLowering>(), bitwise_flag()),
{
    assert forall|x: ExprV| !bitwise_flag()(node_features(x)) implies #[trigger] lowering_of::<
        BitwiseLowering,
    >()(x) == x by {
        match x {
            ExprV::BinOp { op, .. } => assert(!is_bitwise_binop(op)),
            _ => {},
        }
    }
    assert forall|c: bool| !#[trigger] bitwise_flag()(close_only(c)) by {}
}

proof fn lemma_idiv_fixes()
    ensures
        fixes(lowering_of::<IdivLowering>(), idiv_flag()),
{
    assert forall|x: ExprV| !idiv_flag()(node_features(x)) implies #[trigger] lowering_of::<
        IdivLowering,
    >()(x) == x by {
        match x {
            ExprV::BinOp { op, .. } => assert(op != BinaryOp::IDiv),
            _ => {},
        }
    }
    assert forall|c: bool| !#[trigger] idiv_flag()(close_only(c)) by {}
}

/// Bitwise lowering touches only bitwise operators: a block that uses none
/// comes out unchanged.
pub proof fn lemma_bitwise_lowering_keeps_other_code(b: BlockV)
    requires
        !block_features(b).bitwise_ops,
    ensures
        map_block(b, lowering_of::<BitwiseLowering>()) == b,
{
    lemma_bitwise_fixes();
    lemma_fix_block(b, lowering_of::<BitwiseLowering>(), bitwise_flag());
}

/// `//` lowering touches only integer divisions: a block that uses none
/// comes out unchanged.
pub proof fn lemma_idiv_lowering_keeps_other_code(b: BlockV)
    requires
        !block_features(b).integer_div,
    ensures
        map_block(b, lowering_of::<IdivLowering>()) == b,
{
    lemma_idiv_fixes();
    lemma_fix_block(b, lowering_of::<IdivLowering>(), idiv_flag());
}

/// Every flag raised in `a` is raised in `b`.
pub open spec fn fs_within(a: FeatureSet, b: FeatureSet) -> bool {
    &&& a.bitwise_ops ==> b.bitwise_ops
    &&& a.close_attribute ==> b.close_attribute
    &&& a.integer_div ==> b.integer_div
    &&& a.string_extensions ==> b.string_extensions
    &&& a.math_extensions ==> b.math_extensions
}

/// Detection sees every statement of a list: a feature any statement uses,
/// at whatever depth inside it, is a feature of the list; and a feature of
/// the list is used by one of its statements.
pub proof fn lemma_stmts_features_exact(s: Seq<StmtV>)
    ensures
        forall|i: int| 0 <= i < s.len() ==> fs_within(#[trigger] stmt_features(s[i]), stmts_features(s)),
        stmts_features(s).bitwise_ops ==> exists|i: int| 0 <= i < s.len() && #[trigger] stmt_features(s[i]).bitwise_ops,
        stmts_features(s).close_attribute ==> exists|i: int| 0 <= i < s.len() && #[trigger] stmt_features(s[i]).close_attribute,
        stmts_features(s).integer_div ==> exists|i: int| 0 <= i < s.len() && #[trigger] stmt_features(s[i]).integer_div,
        stmts_features(s).string_extensions ==> exists|i: int| 0 <= i < s.len() && #[trigger] stmt_features(s[i]).string_extensions,
        stmts_features(s).math_extensions ==> exists|i: int| 0 <= i < s.len() && #[trigger] stmt_features(s[i]).math_extensions,
    decreases s.len(),
{
    if s.len() > 0 {
        let p = s.drop_last();
        lemma_stmts_features_exact(p);
        assert forall|i: int| 0 <= i < s.len() implies fs_within(#[trigger] stmt_features(s[i]), stmts_features(s)) by {
            if i < p.len() {
                assert(s[i] == p[i]);
            }
        }
        let n = s.len() - 1;
        if stmts_features(s).bitwise_ops && !stmt_features(s[n]).bitwise_ops {
            let i = choose|i: int| 0 <= i < p.len() && #[trigger] stmt_features(p[i]).bitwise_ops;
            assert(s[i] == p[i]);
        }
        if stmts_features(s).close_attribute && !stmt_features(s[n]).close_attribute {
            let i = choose|i: int| 0 <= i < p.len() && #[trigger] stmt_features(p[i]).close_attribute;
            assert(s[i] == p[i]);
        }
        if stmts_features(s).integer_div && !stmt_features(s[n]).integer_div {
            let i = choose|i: int| 0 <= i < p.len() && #[trigger] stmt_features(p[i]).integer_div;
            assert(s[i] == p[i]);
        }
        if stmts_features(s).string_extensions && !stmt_features(s[n]).string_extensions {
            let i = choose|i: int| 0 <= i < p.len() && #[trigger] stmt_features(p[i]).string_extensions;
            assert(s[i] == p[i]);
        }
        if stmts_features(s).math_extensions && !stmt_features(s[n]).math_extensions {
            let i = choose|i: int| 0 <= i < p.len() && #[trigger] stmt_features(p[i]).math_extensions;
            assert(s[i] == p[i]);
        }
    }
}

} // verus!
