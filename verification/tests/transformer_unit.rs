use valua::ast::{BinaryOp, Block, Call, Expression, LuaTarget, Statement};
use valua::passes::{
    BitwiseOpTransform, CloseAttributeTransform, ConstAttributeValidator, IntegerDivisionTransform,
    PolyfillInjector, Transform, TransformPass, TransformPipeline,
};
use valua::polyfills::FeatureSet;
use valua::transformer::FeatureDetector;

fn parse_tr_src(src: &str) -> Block {
    valua::parser::parse(src).expect("parse failed")
}

// ── FeatureDetector::detect — no false positives ──────────────────────────

#[test]
fn detect_empty_for_pure_arithmetic() {
    assert!(
        FeatureDetector::detect(&parse_tr_src("local x = 1 + 2")).is_empty(),
        "pure arithmetic must not trigger any feature flag"
    );
}

#[test]
fn detect_empty_for_string_concat() {
    assert!(FeatureDetector::detect(&parse_tr_src("local x = 'a' .. 'b'")).is_empty());
}

#[test]
fn detect_empty_for_const_attribute() {
    assert!(
        FeatureDetector::detect(&parse_tr_src("local x <const> = 42")).is_empty(),
        "<const> must not set any feature flag"
    );
}

#[test]
fn detect_empty_for_comparison_ops() {
    assert!(FeatureDetector::detect(&parse_tr_src("return a == b and c ~= d")).is_empty());
}

#[test]
fn detect_empty_for_regular_div() {
    // `/` is float division — present in all targets, no flag needed
    assert!(FeatureDetector::detect(&parse_tr_src("local x = a / b")).is_empty());
}

// ── FeatureDetector::detect — bitwise ops ────────────────────────────────

#[test]
fn detect_bitwise_and() {
    let fs = FeatureDetector::detect(&parse_tr_src("local x = a & b"));
    assert!(fs.bitwise_ops);
    assert!(!fs.integer_div);
}

#[test]
fn detect_bitwise_or() {
    assert!(FeatureDetector::detect(&parse_tr_src("local x = a | b")).bitwise_ops);
}

#[test]
fn detect_bitwise_xor_binary() {
    assert!(FeatureDetector::detect(&parse_tr_src("local x = a ~ b")).bitwise_ops);
}

#[test]
fn detect_bitwise_shl() {
    assert!(FeatureDetector::detect(&parse_tr_src("local x = a << 2")).bitwise_ops);
}

#[test]
fn detect_bitwise_shr() {
    assert!(FeatureDetector::detect(&parse_tr_src("local x = a >> 2")).bitwise_ops);
}

#[test]
fn detect_unary_bitwise_not() {
    assert!(FeatureDetector::detect(&parse_tr_src("local x = ~a")).bitwise_ops);
}

// ── FeatureDetector::detect — other flags ────────────────────────────────

#[test]
fn detect_integer_div() {
    let fs = FeatureDetector::detect(&parse_tr_src("local x = a // b"));
    assert!(fs.integer_div);
    assert!(!fs.bitwise_ops, "IDiv must not set bitwise_ops");
}

#[test]
fn detect_close_attribute() {
    let fs = FeatureDetector::detect(&parse_tr_src("local f <close> = io.open('x')"));
    assert!(fs.close_attribute);
    assert!(!fs.bitwise_ops);
    assert!(!fs.integer_div);
}

// ── FeatureDetector::detect — nested contexts ────────────────────────────

#[test]
fn detect_bitwise_in_nested_function_body() {
    assert!(FeatureDetector::detect(&parse_tr_src("function foo() return a & b end")).bitwise_ops);
}

#[test]
fn detect_bitwise_in_do_block() {
    assert!(FeatureDetector::detect(&parse_tr_src("do\n  local x = a | b\nend")).bitwise_ops);
}

#[test]
fn detect_bitwise_in_while_condition() {
    // `(flags & mask) ~= 0`: `&` has higher precedence than `~=` → BinOp(BitwiseAnd) found
    assert!(FeatureDetector::detect(&parse_tr_src("while (flags & mask) ~= 0 do end")).bitwise_ops);
}

#[test]
fn detect_bitwise_in_if_condition() {
    assert!(FeatureDetector::detect(&parse_tr_src("if a & 1 == 1 then end")).bitwise_ops);
}

#[test]
fn detect_bitwise_in_call_argument() {
    assert!(FeatureDetector::detect(&parse_tr_src("foo(a & b)")).bitwise_ops);
}

#[test]
fn detect_bitwise_in_table_field_value() {
    assert!(FeatureDetector::detect(&parse_tr_src("local t = { flags = a | b }")).bitwise_ops);
}

#[test]
fn detect_bitwise_in_anonymous_closure_value() {
    // Closure is an expression; its body must be traversed
    assert!(
        FeatureDetector::detect(&parse_tr_src("local f = function() return a & b end")).bitwise_ops
    );
}

#[test]
fn detect_bitwise_in_deeply_nested_block() {
    let src = "do\n  do\n    do\n      local x = a >> 1\n    end\n  end\nend";
    assert!(FeatureDetector::detect(&parse_tr_src(src)).bitwise_ops);
}

// ── FeatureDetector as Transform ─────────────────────────────────────────

#[test]
fn feature_detector_transform_populates_feature_set() {
    let mut block = parse_tr_src("local x = a & b");
    let mut detector = FeatureDetector::new();
    detector.transform(&mut block).expect("must not fail");
    assert!(detector.feature_set.bitwise_ops);
}

#[test]
fn feature_detector_transform_does_not_mutate_block() {
    let mut block = parse_tr_src("local x = a & b");
    let original_len = block.stmts.len();
    let mut detector = FeatureDetector::new();
    detector.transform(&mut block).expect("must not fail");
    assert_eq!(
        block.stmts.len(),
        original_len,
        "FeatureDetector must not modify the AST"
    );
}

#[test]
fn feature_detector_transform_clean_code_empty_feature_set() {
    let mut block = parse_tr_src("local x = 1 + 2");
    let mut detector = FeatureDetector::new();
    detector.transform(&mut block).expect("must not fail");
    assert!(
        detector.feature_set.is_empty(),
        "pure arithmetic block must produce empty FeatureSet"
    );
}

// ── PolyfillInjector — surgical early return ──────────────────────────────

#[test]
fn polyfill_injector_no_op_for_pure_arithmetic() {
    let mut block = parse_tr_src("local x = 1 + 2\nreturn x");
    let original_len = block.stmts.len();
    PolyfillInjector::new().transform(&mut block).unwrap();
    assert_eq!(
        block.stmts.len(),
        original_len,
        "pure arithmetic: no polyfill statements must be prepended"
    );
}

#[test]
fn polyfill_injector_no_op_for_string_ops() {
    let mut block = parse_tr_src("local x = 'hello' .. ' world'\nreturn x");
    let original_len = block.stmts.len();
    PolyfillInjector::new().transform(&mut block).unwrap();
    assert_eq!(block.stmts.len(), original_len);
}

#[test]
fn polyfill_injector_no_op_for_comparison_only() {
    let mut block = parse_tr_src("return a == b or c ~= d");
    let original_len = block.stmts.len();
    PolyfillInjector::new().transform(&mut block).unwrap();
    assert_eq!(block.stmts.len(), original_len);
}

#[test]
fn polyfill_injector_with_empty_feature_set_suppresses_injection() {
    // Even when block has bitwise ops, a forced empty FeatureSet skips injection.
    let mut block = parse_tr_src("local x = a & b");
    let original_len = block.stmts.len();
    PolyfillInjector::with_features(FeatureSet::default())
        .transform(&mut block)
        .unwrap();
    assert_eq!(
        block.stmts.len(),
        original_len,
        "forced-empty FeatureSet must suppress injection"
    );
}

#[test]
fn polyfill_injector_does_not_panic_for_bitwise_block() {
    // Injection path is reachable; must not panic even with empty BITWISE_FALLBACK.
    let mut block = parse_tr_src("local x = a & b");
    PolyfillInjector::new().transform(&mut block).unwrap();
}

// ── PolyfillInjector — early-return for stubbed/missing polyfill strings ──

#[test]
fn polyfill_injector_stubbed_close_runtime_no_mutation() {
    // CLOSE_RUNTIME = "" — second early-return fires even when feature is set.
    let mut block = parse_tr_src("local f <close> = io.open('x')");
    let original_len = block.stmts.len();
    PolyfillInjector::with_features(FeatureSet {
        close_attribute: true,
        ..Default::default()
    })
    .transform(&mut block)
    .unwrap();
    assert_eq!(
        block.stmts.len(),
        original_len,
        "CLOSE_RUNTIME stub must leave block unchanged"
    );
}

#[test]
fn polyfill_injector_stubbed_string_extensions_no_mutation() {
    let mut block = parse_tr_src("local x = 'hello'");
    let original_len = block.stmts.len();
    PolyfillInjector::with_features(FeatureSet {
        string_extensions: true,
        ..Default::default()
    })
    .transform(&mut block)
    .unwrap();
    assert_eq!(
        block.stmts.len(),
        original_len,
        "STRING_EXTENSIONS stub must leave block unchanged"
    );
}

#[test]
fn polyfill_injector_stubbed_math_extensions_no_mutation() {
    let mut block = parse_tr_src("local x = 1");
    let original_len = block.stmts.len();
    PolyfillInjector::with_features(FeatureSet {
        math_extensions: true,
        ..Default::default()
    })
    .transform(&mut block)
    .unwrap();
    assert_eq!(
        block.stmts.len(),
        original_len,
        "MATH_EXTENSIONS stub must leave block unchanged"
    );
}

#[test]
fn polyfill_injector_integer_div_no_polyfill_string() {
    // integer_div is lowered by IntegerDivisionTransform, not a preamble string.
    let mut block = parse_tr_src("local x = a // b");
    let original_len = block.stmts.len();
    PolyfillInjector::new().transform(&mut block).unwrap();
    assert_eq!(
        block.stmts.len(),
        original_len,
        "integer_div has no polyfill string — block must be unchanged"
    );
}

// ── PolyfillInjector — statement count and position ───────────────────────

#[test]
fn polyfill_injector_bitwise_grows_stmt_count_by_polyfill_len() {
    let polyfill_stmts = parse_tr_src(valua::polyfills::BITWISE_FALLBACK).stmts.len();
    let mut block = parse_tr_src("local x = a & b");
    let user_stmts = block.stmts.len();
    PolyfillInjector::new().transform(&mut block).unwrap();
    assert_eq!(
        block.stmts.len(),
        polyfill_stmts + user_stmts,
        "block must grow by exactly the polyfill statement count"
    );
}

#[test]
fn polyfill_injector_original_stmts_preserved_at_tail() {
    let polyfill_len = parse_tr_src(valua::polyfills::BITWISE_FALLBACK).stmts.len();
    let mut block = parse_tr_src("local x = a & b");
    PolyfillInjector::new().transform(&mut block).unwrap();
    let last = block.stmts.last().expect("block must not be empty");
    assert!(
        matches!(last, Statement::LocalDecl(d) if d.names[0].name == "x"),
        "user's `local x` must survive at the tail; polyfill_len={polyfill_len}"
    );
}

#[test]
fn polyfill_injector_prepend_at_index_zero_is_bu_decl() {
    let mut block = parse_tr_src("local x = a & b");
    PolyfillInjector::new().transform(&mut block).unwrap();
    let Statement::LocalDecl(ref d) = block.stmts[0] else {
        panic!("expected LocalDecl at index 0");
    };
    assert_eq!(
        d.names[0].name, "_bU",
        "first injected statement must be `local _bU = ...`"
    );
}

// ── PolyfillInjector — with_features pre-supply ───────────────────────────

#[test]
fn polyfill_injector_with_features_forces_injection_on_clean_ast() {
    // Pre-supplied FeatureSet bypasses auto-detect; clean AST still gets polyfill.
    let polyfill_len = parse_tr_src(valua::polyfills::BITWISE_FALLBACK).stmts.len();
    let mut block = parse_tr_src("local x = 1 + 2");
    let user_len = block.stmts.len();
    PolyfillInjector::with_features(FeatureSet {
        bitwise_ops: true,
        ..Default::default()
    })
    .transform(&mut block)
    .unwrap();
    assert_eq!(
        block.stmts.len(),
        polyfill_len + user_len,
        "with_features(bitwise) must inject polyfill even on a clean AST"
    );
}

// ── PolyfillInjector — non-idempotency documentation ─────────────────────

#[test]
fn polyfill_injector_double_call_documents_non_idempotency() {
    // Two auto-detect calls inject twice: the original BinOp node at the tail
    // is still detected on the second pass. Callers must invoke exactly once.
    let polyfill_len = parse_tr_src(valua::polyfills::BITWISE_FALLBACK).stmts.len();
    let mut block = parse_tr_src("local x = a & b");
    let user_len = block.stmts.len();
    PolyfillInjector::new().transform(&mut block).unwrap();
    PolyfillInjector::new().transform(&mut block).unwrap();
    assert_eq!(
        block.stmts.len(),
        2 * polyfill_len + user_len,
        "double injection yields 2× polyfill prefix — single invocation per unit required"
    );
}

// ── PolyfillInjector — multi-flag combinations ────────────────────────────

#[test]
fn polyfill_injector_all_stubs_plus_bitwise_equals_bitwise_alone() {
    // Stub polyfills contribute empty strings; combined output == bitwise-only.
    let polyfill_len = parse_tr_src(valua::polyfills::BITWISE_FALLBACK).stmts.len();

    let mut block_combined = parse_tr_src("local x = 1");
    PolyfillInjector::with_features(FeatureSet {
        bitwise_ops: true,
        close_attribute: true,
        string_extensions: true,
        math_extensions: true,
        ..Default::default()
    })
    .transform(&mut block_combined)
    .unwrap();

    let mut block_bitwise = parse_tr_src("local x = 1");
    PolyfillInjector::with_features(FeatureSet {
        bitwise_ops: true,
        ..Default::default()
    })
    .transform(&mut block_bitwise)
    .unwrap();

    assert_eq!(
        block_combined.stmts.len(),
        block_bitwise.stmts.len(),
        "stub polyfills must not inflate stmt count; expected polyfill_len={polyfill_len}"
    );
}

// ── Polyfill string validity ──────────────────────────────────────────────

#[test]
fn bitwise_fallback_is_valid_lua_that_parses() {
    let block = parse_tr_src(valua::polyfills::BITWISE_FALLBACK);
    assert!(
        !block.stmts.is_empty(),
        "BITWISE_FALLBACK must produce at least one statement when parsed"
    );
}

#[test]
fn bitwise_fallback_declares_local_bit_table() {
    let block = parse_tr_src(valua::polyfills::BITWISE_FALLBACK);
    let has_bit = block.stmts.iter().any(
        |s| matches!(s, Statement::LocalDecl(d) if d.names.iter().any(|n| n.name == "bit")),
    );
    assert!(
        has_bit,
        "BITWISE_FALLBACK must contain `local bit = {{}}` to avoid global scope pollution"
    );
}

#[test]
fn bitwise_fallback_no_duplicate_local_identifier_names() {
    let block = parse_tr_src(valua::polyfills::BITWISE_FALLBACK);
    let mut locals: Vec<String> = Vec::new();
    for stmt in &block.stmts {
        match stmt {
            Statement::LocalDecl(d) => {
                for n in &d.names {
                    locals.push(n.name.clone());
                }
            }
            Statement::LocalFunctionDecl(f) => {
                locals.push(f.name.clone());
            }
            _ => {}
        }
    }
    let mut seen = std::collections::HashSet::new();
    for name in &locals {
        assert!(
            seen.insert(name.as_str()),
            "duplicate local `{name}` in BITWISE_FALLBACK — identifier collision risk"
        );
    }
}

// ── Two-pass mini-pipeline ────────────────────────────────────────────────

#[test]
fn pipeline_feature_detector_then_injector_clean_code() {
    let mut block = parse_tr_src("local x = 1 + 2");
    let original_len = block.stmts.len();
    let mut pipeline = TransformPipeline::new();
    pipeline.add_pass(TransformPass::FeatureDetector(FeatureDetector::new()));
    pipeline.add_pass(TransformPass::PolyfillInjector(PolyfillInjector::new()));
    pipeline.run(&mut block).expect("pipeline must succeed");
    assert_eq!(
        block.stmts.len(),
        original_len,
        "clean block must be unchanged after feature-detect + inject pipeline"
    );
}

#[test]
fn pipeline_feature_detector_then_injector_bitwise_block() {
    // Both passes must complete without panic when bitwise ops are present.
    let mut block = parse_tr_src("local x = a & b");
    let mut pipeline = TransformPipeline::new();
    pipeline.add_pass(TransformPass::FeatureDetector(FeatureDetector::new()));
    pipeline.add_pass(TransformPass::PolyfillInjector(PolyfillInjector::new()));
    pipeline.run(&mut block).expect("pipeline must succeed");
}

// ── BitwiseOpTransform ────────────────────────────────────────────────────

fn no_bitwise(src: &str) {
    let mut block = parse_tr_src(src);
    BitwiseOpTransform.transform(&mut block).unwrap();
    assert!(
        !FeatureDetector::detect(&block).bitwise_ops,
        "bitwise ops must be gone after transform: {src}"
    );
}

#[test]
fn bitwise_transform_band() {
    no_bitwise("local x = a & b");
}

#[test]
fn bitwise_transform_bor() {
    no_bitwise("local x = a | b");
}

#[test]
fn bitwise_transform_bxor() {
    no_bitwise("local x = a ~ b");
}

#[test]
fn bitwise_transform_lshift() {
    no_bitwise("local x = a << 2");
}

#[test]
fn bitwise_transform_rshift() {
    no_bitwise("local x = a >> 2");
}

#[test]
fn bitwise_transform_bnot() {
    no_bitwise("local x = ~a");
}

#[test]
fn bitwise_transform_nested() {
    // (a & b) | c  →  bit.bor(bit.band(a, b), c)
    no_bitwise("local x = (a & b) | c");
}

#[test]
fn bitwise_transform_in_function_body() {
    no_bitwise("function foo() return a & b end");
}

#[test]
fn bitwise_transform_in_while_condition() {
    no_bitwise("while (flags & mask) ~= 0 do end");
}

#[test]
fn bitwise_transform_in_table_field() {
    no_bitwise("local t = { flags = a | b }");
}

#[test]
fn bitwise_transform_in_closure() {
    no_bitwise("local f = function() return a & b end");
}

#[test]
fn bitwise_transform_leaves_arithmetic_intact() {
    let mut block = parse_tr_src("local x = a + b * c - d");
    BitwiseOpTransform.transform(&mut block).unwrap();
    // No bitwise ops to detect, and arithmetic structure is untouched.
    assert!(FeatureDetector::detect(&block).is_empty());
}

#[test]
fn bitwise_transform_call_site_is_bit_dot_band() {
    let mut block = parse_tr_src("local x = a & b");
    BitwiseOpTransform.transform(&mut block).unwrap();
    // Verify AST structure: LocalDecl → first value is Call(Index(Name("bit"), "band"))
    let Statement::LocalDecl(ref d) = block.stmts[0] else {
        panic!("expected LocalDecl");
    };
    let Expression::Call(Call::Call {
        ref func, ref args, ..
    }) = d.values[0]
    else {
        panic!("expected Call");
    };
    let Expression::Index(ref base, ref field, _) = **func else {
        panic!("expected Index");
    };
    let Expression::Name(ref name, _) = **base else {
        panic!("expected Name");
    };
    assert_eq!(name, "bit");
    assert_eq!(field, "band");
    assert_eq!(args.len(), 2);
}







// ── PolyfillInjector — target-aware native feature suppression ───────

#[test]
fn polyfill_injector_luajit_suppresses_bitwise_polyfill() {
    // LuaJIT ships `bit` natively — BITWISE_FALLBACK must NOT be injected.
    let mut block = parse_tr_src("local x = 1 + 2");
    let original_len = block.stmts.len();
    PolyfillInjector::with_features_for_target(
        FeatureSet {
            bitwise_ops: true,
            ..Default::default()
        },
        LuaTarget::LuaJIT,
    )
    .transform(&mut block)
    .unwrap();
    assert_eq!(
        block.stmts.len(),
        original_len,
        "LuaJIT target must not inject BITWISE_FALLBACK — bit library is native"
    );
}

#[test]
fn polyfill_injector_lua51_injects_bitwise_polyfill() {
    // Lua 5.1 has no native bit library — BITWISE_FALLBACK must be injected.
    let polyfill_len = parse_tr_src(valua::polyfills::BITWISE_FALLBACK).stmts.len();
    let mut block = parse_tr_src("local x = 1 + 2");
    let user_len = block.stmts.len();
    PolyfillInjector::with_features_for_target(
        FeatureSet {
            bitwise_ops: true,
            ..Default::default()
        },
        LuaTarget::Lua51,
    )
    .transform(&mut block)
    .unwrap();
    assert_eq!(
        block.stmts.len(),
        polyfill_len + user_len,
        "Lua51 target must inject BITWISE_FALLBACK when bitwise_ops is set"
    );
}

#[test]
fn polyfill_injector_luajit_leaves_non_bitwise_features_unaffected() {
    // suppress_native_features only zeroes bitwise_ops for LuaJIT.
    // close_attribute, integer_div, etc. are unaffected (their polyfills are empty strings
    // today, so injection still early-returns — but the suppression must not touch them).
    let mut block = parse_tr_src("local x = 1");
    let original_len = block.stmts.len();
    PolyfillInjector::with_features_for_target(
        FeatureSet {
            bitwise_ops: true,
            close_attribute: true,
            integer_div: true,
            ..Default::default()
        },
        LuaTarget::LuaJIT,
    )
    .transform(&mut block)
    .unwrap();
    assert_eq!(
        block.stmts.len(),
        original_len,
        "LuaJIT: bitwise suppressed + all other polyfills are empty stubs = no injection"
    );
}

// ── The standard pipeline ─────────────────────────────────────────────────

#[test]
fn default_pipeline_prepends_bit_polyfill_from_detected_features() {
    let mut block = parse_tr_src("local x = a & b");
    let mut pipeline = valua::passes::default_pipeline();
    pipeline.run(&mut block).expect("pipeline must succeed");
    let polyfill = parse_tr_src(valua::polyfills::BITWISE_FALLBACK);
    assert_eq!(block.stmts.len(), polyfill.stmts.len() + 1);
    match block.stmts.last() {
        Some(Statement::LocalDecl(d)) => {
            assert!(matches!(d.values[0], Expression::Call(Call::Call { .. })));
        }
        other => panic!("expected the lowered declaration last, got {other:?}"),
    }
}

#[test]
fn default_pipeline_leaves_clean_code_alone() {
    let mut block = parse_tr_src("local x = 1 + 2");
    let before = block.stmts.len();
    valua::passes::default_pipeline().run(&mut block).expect("pipeline must succeed");
    assert_eq!(block.stmts.len(), before);
}
