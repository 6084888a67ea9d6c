//! The whole pipeline: parse, lint, transform, emit.

use vstd::prelude::*;
use vstd::string::StringExecFns;

use crate::ast::{Block, BlockV, LuaTarget};
use crate::codegen::{emitted, CodeGen, CodeGenError, EmitOptions, LuaEmitter};
use crate::diagnostics::{Diagnostic, DiagnosticView, Severity};
use crate::lexer::{byte_len, tokens_of};
use crate::const_mutation::{all_e0301, cm_block, e0301_shaped, lemma_cm_block};
use crate::lint::{default_passes, lemma_default_pipeline_order, run_passes, LintPipeline};
use crate::grammar::parsed;
use crate::parser::{parse, parse_diagnostic, perr, ParseError};
use crate::passes::{
    BitwiseOpTransform, CloseAttributeTransform, ConstAttributeValidator,
    IntegerDivisionTransform, PolyfillInjector, TransformError, TransformPass, TransformPipeline,
    first_const_violation, lemma_for_target_needed, pass_may_fail, pipeline_chain, pipeline_rel,
    in_pipeline, detected_before, lemma_no_detector,
    spec_suppress,
};
use crate::transformer::FeatureDetector;
use crate::unsupported::{uf_block, view_diags};
use crate::walk::block_features;

verus! {

/// Options controlling a full compilation run.
#[derive(Debug)]
pub struct CompileOptions {
    /// Target Lua runtime.
    pub target: LuaTarget,
    /// Whether to inject polyfill preambles for detected features.
    pub inject_polyfills: bool,
    /// Code formatting options passed to the emitter.
    pub emit: EmitOptions,
}

impl Default for CompileOptions {
    fn default() -> (r: Self)
        ensures
            r.target == LuaTarget::Lua51,
            r.inject_polyfills,
            r.emit.indent@ == "    "@,
            r.emit.target == LuaTarget::Lua51,
            r.emit.emit_header_comment,
    {
        CompileOptions { target: LuaTarget::Lua51, inject_polyfills: true, emit: EmitOptions::default() }
    }
}

impl CompileOptions {
    /// Options targeting Lua 5.1.
    pub fn lua51() -> (r: Self)
        ensures
            r.target == LuaTarget::Lua51,
            r.inject_polyfills,
            r.emit.indent@ == "    "@,
            r.emit.target == LuaTarget::Lua51,
            r.emit.emit_header_comment,
    {
        CompileOptions::default()
    }

    /// Options targeting LuaJIT, without a header comment.
    pub fn luajit() -> (r: Self)
        ensures
            r.target == LuaTarget::LuaJIT,
            r.inject_polyfills,
            r.emit.indent@ == "    "@,
            r.emit.target == LuaTarget::LuaJIT,
            !r.emit.emit_header_comment,
    {
        let d = EmitOptions::default();
        CompileOptions {
            target: LuaTarget::LuaJIT,
            inject_polyfills: true,
            emit: EmitOptions { indent: d.indent, target: LuaTarget::LuaJIT, emit_header_comment: false },
        }
    }
}

/// A compile error from any stage of the pipeline.
#[derive(Debug)]
pub enum CompileError {
    Parse(ParseError),
    Lint(Vec<Diagnostic>),
    Transform(TransformError),
    CodeGen(CodeGenError),
}

impl CompileError {
    /// The diagnostic of a parse error; `None` for the other stages.
    pub fn into_parse_diagnostic(self) -> (r: Option<Diagnostic>)
        ensures
            match self {
                CompileError::Parse(e) => r matches Some(d) && d@ == parse_diagnostic(e),
                _ => r is None,
            },
    {
        match self {
            CompileError::Parse(e) => Some(e.into_diagnostic()),
            _ => None,
        }
    }
}

/// The error-severity diagnostics among `ds`, in order.
pub open spec fn errors_only(ds: Seq<DiagnosticView>) -> Seq<DiagnosticView>
    decreases ds.len(),
{
    if ds.len() == 0 {
        ds
    } else if ds.last().severity == Severity::Error {
        errors_only(ds.drop_last()).push(ds.last())
    } else {
        errors_only(ds.drop_last())
    }
}

fn keep_errors(ds: &Vec<Diagnostic>) -> (r: Vec<Diagnostic>)
    ensures
        view_diags(r@) == errors_only(view_diags(ds@)),
        forall|k: int| 0 <= k < r@.len() ==> #[trigger] r@[k].severity == Severity::Error,
{
    let mut out: Vec<Diagnostic> = Vec::new();
    let mut i: usize = 0;
    while i < ds.len()
        invariant
            i <= ds.len(),
            view_diags(out@) == errors_only(view_diags(ds@.subrange(0, i as int))),
            forall|k: int| 0 <= k < out@.len() ==> #[trigger] out@[k].severity == Severity::Error,
        decreases ds.len() - i,
    {
        let ghost before = out@;
        proof {
            let a = ds@.subrange(0, i + 1);
            assert(a.drop_last() =~= ds@.subrange(0, i as int));
            assert(view_diags(a).drop_last() =~= view_diags(ds@.subrange(0, i as int)));
            assert(view_diags(a).last() == ds@[i as int]@);
        }
        if ds[i].is_error() {
            out.push(ds[i].duplicate());
            proof {
                assert(view_diags(out@) =~= view_diags(before).push(ds@[i as int]@));
            }
        }
        i += 1;
    }
    assert(ds@.subrange(0, ds.len() as int) =~= ds@);
    out
}

/// The passes a compilation runs after linting: `<const>` removal, bitwise
/// lowering, `//` lowering, `<close>` lowering, and, when asked for, the
/// injection of the polyfills for the features found in the parsed block.
pub open spec fn compile_passes(opts: CompileOptions, b: BlockV) -> Seq<TransformPass> {
    let base = seq![
        TransformPass::ConstAttributeValidator(ConstAttributeValidator),
        TransformPass::BitwiseOpTransform(BitwiseOpTransform),
        TransformPass::IntegerDivisionTransform(IntegerDivisionTransform),
        TransformPass::CloseAttributeTransform(CloseAttributeTransform),
    ];
    if opts.inject_polyfills {
        base.push(
            TransformPass::PolyfillInjector(
                PolyfillInjector::for_target(block_features(b), opts.target),
            ),
        )
    } else {
        base
    }
}

proof fn lemma_errors_only_all(a: Seq<DiagnosticView>)
    requires
        forall|i: int| 0 <= i < a.len() ==> #[trigger] a[i].severity == Severity::Error,
    ensures
        errors_only(a) == a,
    decreases a.len(),
{
    if a.len() > 0 {
        lemma_errors_only_all(a.drop_last());
        assert(a.drop_last().push(a.last()) =~= a);
    }
}

proof fn lemma_errors_only_append(a: Seq<DiagnosticView>, b: Seq<DiagnosticView>)
    ensures
        errors_only(a + b).len() >= errors_only(a).len(),
    decreases b.len(),
{
    if b.len() == 0 {
        assert(a + b =~= a);
    } else {
        lemma_errors_only_append(a, b.drop_last());
        assert((a + b).drop_last() =~= a + b.drop_last());
    }
}

/// The compile passes fail only in the polyfill injector, and only when a
/// polyfill is needed.
proof fn lemma_compile_pass_failure(opts: CompileOptions, b0: BlockV, fb: BlockV, e: TransformError)
    requires
        errors_only(run_passes(default_passes(opts.target), b0)).len() == 0,
        exists|k: int, bs: Seq<BlockV>|
            0 <= k < compile_passes(opts, b0).len() && #[trigger] pipeline_chain(
                compile_passes(opts, b0).take(k),
                bs,
                b0,
                fb,
            ) && pass_may_fail(
                in_pipeline(
                    compile_passes(opts, b0)[k],
                    detected_before(compile_passes(opts, b0), bs, k),
                ),
                fb,
            ),
    ensures
        opts.inject_polyfills && !spec_suppress(block_features(b0), opts.target).spec_is_empty(),
{
    let ps = compile_passes(opts, b0);
    let (k, bs) = choose|k: int, bs: Seq<BlockV>|
        0 <= k < ps.len() && #[trigger] pipeline_chain(ps.take(k), bs, b0, fb) && pass_may_fail(
            in_pipeline(ps[k], detected_before(ps, bs, k)),
            fb,
        );
    assert forall|i: int| 0 <= i < k implies !(#[trigger] ps[i] is FeatureDetector) by {}
    lemma_no_detector(ps, bs, k);
    if k == 0 {
        assert(fb == b0);
        lemma_clean_lints_no_violation(opts.target, b0);
    } else if k == 4 {
        lemma_for_target_needed(block_features(b0), opts.target, fb);
    }
}

/// A block on which the default lints report no error assigns to no
/// `<const>` local.
proof fn lemma_clean_lints_no_violation(target: LuaTarget, b: BlockV)
    requires
        errors_only(run_passes(default_passes(target), b)).len() == 0,
    ensures
        first_const_violation(b) is None,
{
    let cm = cm_block(b, seq![], seq![]).0;
    lemma_default_pipeline_order(target, b);
    assert(all_e0301(Seq::<DiagnosticView>::empty()));
    lemma_cm_block(b, seq![], seq![]);
    assert forall|i: int| 0 <= i < cm.len() implies #[trigger] cm[i].severity == Severity::Error by {
        assert(e0301_shaped(cm[i]));
    }
    lemma_errors_only_all(cm);
    lemma_errors_only_append(cm, uf_block(b, seq![]));
}

/// What compiling the parsed block `b` with `opts` may give: refused with
/// exactly the lint errors when there are any; otherwise the emitted text of
/// the block the passes lead to, or a pass failure, which only the polyfill
/// injector can cause and only when a polyfill is needed.
pub open spec fn block_outcome(b: BlockV, opts: CompileOptions, r: Result<String, CompileError>) -> bool {
    let errs = errors_only(run_passes(default_passes(opts.target), b));
    &&& (r matches Err(CompileError::Lint(_))) <==> errs.len() > 0
    &&& (r matches Err(CompileError::Lint(ds)) ==> view_diags(ds@) == errs)
    &&& !(r matches Err(CompileError::CodeGen(_)))
    &&& !(r matches Err(CompileError::Parse(_)))
    &&& (r matches Ok(text) ==> exists|fb: BlockV|
        #[trigger] pipeline_rel(compile_passes(opts, b), b, fb) && text@ == emitted(
            fb,
            opts.emit.indent@,
        ))
    &&& (r matches Err(CompileError::Transform(_)) ==> opts.inject_polyfills && !spec_suppress(
        block_features(b),
        opts.target,
    ).spec_is_empty())
}

/// The main entry point: runs the complete pipeline.
pub struct Compiler;

impl Compiler {
    /// Transpiles `source` (Lua 5.5) to Lua 5.1: parse; lint, stopping on
    /// any error-severity diagnostic; remove `<const>`, lower bitwise
    /// operators, `//` and `<close>`; inject the polyfills the target needs;
    /// emit.
    pub fn compile(source: &str, opts: CompileOptions) -> (r: Result<String, CompileError>)
        requires
            byte_len(source@) < u32::MAX,
        ensures
            tokens_of(source@) is Err ==> (r matches Err(CompileError::Parse(ParseError::Lex(e)))
                && e == tokens_of(source@)->Err_0),
            r matches Err(CompileError::Lint(ds)) ==> ds@.len() > 0 && forall|k: int|
                0 <= k < ds@.len() ==> #[trigger] ds@[k].severity == Severity::Error,
            !(r matches Err(CompileError::CodeGen(_))),
            parsed(source@) matches Ok(b) ==> block_outcome(b, opts, r),
            parsed(source@) matches Err(pe) ==> (r matches Err(CompileError::Parse(e)) && perr(e)
                == pe),
    {
        match parse(source) {
            Ok(block) => {
                let ghost b = block@;
                let r = Compiler::compile_block(block, opts);
                assert(block_outcome(b, opts, r));
                r
            },
            Err(e) => Err(CompileError::Parse(e)),
        }
    }

    /// Lints, lowers and emits a parsed block. The block is refused exactly
    /// when the default lints for the target report an error, and the
    /// refusal carries those errors in the order the lints report them.
    pub fn compile_block(block: Block, opts: CompileOptions) -> (r: Result<String, CompileError>)
        ensures
            (r matches Err(CompileError::Lint(_))) <==> errors_only(
                run_passes(default_passes(opts.target), block@),
            ).len() > 0,
            r matches Err(CompileError::Lint(ds)) ==> view_diags(ds@) == errors_only(
                run_passes(default_passes(opts.target), block@),
            ) && forall|k: int| 0 <= k < ds@.len() ==> #[trigger] ds@[k].severity
                == Severity::Error,
            !(r matches Err(CompileError::CodeGen(_))),
            !(r matches Err(CompileError::Parse(_))),
            r matches Ok(text) ==> exists|fb: BlockV|
                #[trigger] pipeline_rel(compile_passes(opts, block@), block@, fb) && text@
                    == emitted(fb, opts.emit.indent@),
            r matches Err(CompileError::Transform(_)) ==> opts.inject_polyfills && !spec_suppress(
                block_features(block@),
                opts.target,
            ).spec_is_empty(),
            block_outcome(block@, opts, r),
    {
        let ghost b0 = block@;
        let ghost gopts = opts;
        let mut block = block;
        let lint = LintPipeline::default_for(opts.target);
        let diags = lint.run(&block);
        let errors = keep_errors(&diags);
        if errors.len() > 0 {
            return Err(CompileError::Lint(errors));
        }
        let features = FeatureDetector::detect(&block);
        let mut pipeline = TransformPipeline::new();
        pipeline.add_pass(TransformPass::ConstAttributeValidator(ConstAttributeValidator));
        pipeline.add_pass(TransformPass::BitwiseOpTransform(BitwiseOpTransform));
        pipeline.add_pass(TransformPass::IntegerDivisionTransform(IntegerDivisionTransform));
        pipeline.add_pass(TransformPass::CloseAttributeTransform(CloseAttributeTransform));
        if opts.inject_polyfills {
            pipeline.add_pass(
                TransformPass::PolyfillInjector(
                    PolyfillInjector::with_features_for_target(features, opts.target),
                ),
            );
        }
        proof {
            assert(pipeline.passes() =~= compile_passes(gopts, b0));
        }
        match pipeline.run(&mut block) {
            Ok(()) => {},
            Err(e) => {
                proof {
                    lemma_compile_pass_failure(gopts, b0, block@, e);
                }
                return Err(CompileError::Transform(e));
            },
        }
        let ghost fb = block@;
        let emitter = LuaEmitter::new(opts.emit);
        match emitter.emit(&block) {
            Ok(text) => {
                proof {
                    assert(pipeline_rel(compile_passes(gopts, b0), b0, fb));
                }
                Ok(text)
            },
            Err(e) => Err(CompileError::CodeGen(e)),
        }
    }

    /// Parses `source` without analysis or transformation.
    pub fn parse_only(source: &str) -> (r: Result<Block, CompileError>)
        requires
            byte_len(source@) < u32::MAX,
        ensures
            tokens_of(source@) is Err ==> (r matches Err(CompileError::Parse(ParseError::Lex(e)))
                && e == tokens_of(source@)->Err_0),
            r matches Err(e) ==> e is Parse,
            parsed(source@) matches Ok(b) ==> (r matches Ok(x) && x@ == b),
            parsed(source@) matches Err(pe) ==> (r matches Err(CompileError::Parse(e)) && perr(e)
                == pe),
    {
        match parse(source) {
            Ok(b) => Ok(b),
            Err(e) => Err(CompileError::Parse(e)),
        }
    }
}

} // verus!
