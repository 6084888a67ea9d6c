//! Transformation passes over the syntax tree and the pipeline that runs them.

use vstd::prelude::*;
use vstd::string::StringExecFns;

use crate::ast::{Block, BlockV, LuaTarget, Statement, StmtV};
use crate::close::{close_block, close_block_exec, close_helper, close_helper_exec};
use crate::const_mutation::{
    all_e0301, cm_block, e0301_name, e0301_shaped, lemma_cm_block, ConstMutation,
};
use crate::diagnostics::{DiagnosticView, Span};
use crate::lint::Lint;
use crate::text::{chars_of, string_of};
use crate::lexer::{byte_len, source_fits};
use crate::grammar::parsed;
use crate::parser::parse;
use crate::polyfills::{polyfills_for, spec_no_features, spec_polyfills_for, FeatureSet};
use crate::strip::strip_const_block;
use crate::transformer::{
    lowering_of, rewrite_block, BitwiseLowering, FeatureDetector, IdivLowering,
};
use crate::walk::{block_features, map_block, strip_block};

verus! {

/// Errors produced by transformation passes.
#[derive(Debug)]
pub enum TransformError {
    ConstViolation { name: String, span: Span },
    UnsupportedFeature { pass: &'static str, detail: String, span: Span },
    Internal { pass: &'static str, detail: String },
}

impl TransformError {
    /// The human-readable description of the error.
    pub fn message(&self) -> (r: String)
        ensures
            self matches TransformError::Internal { pass, detail } ==> r@ == "internal transform error in pass '"@ + pass@ + "': "@ + detail@,
            self matches TransformError::ConstViolation { name, .. } ==> r@ == "assignment to <const> local '"@ + name@ + "'"@,
            self matches TransformError::UnsupportedFeature { pass, detail, .. } ==> r@ == "unsupported Lua 5.5 feature in pass '"@ + pass@ + "': "@ + detail@,
    {
        match self {
            TransformError::ConstViolation { name, .. } => {
                let mut m = "assignment to <const> local '".to_owned();
                m.append(name.as_str());
                m.append("'");
                m
            },
            TransformError::UnsupportedFeature { pass, detail, .. } => {
                let mut m = "unsupported Lua 5.5 feature in pass '".to_owned();
                m.append(pass);
                m.append("': ");
                m.append(detail.as_str());
                m
            },
            TransformError::Internal { pass, detail } => {
                let mut m = "internal transform error in pass '".to_owned();
                m.append(pass);
                m.append("': ");
                m.append(detail.as_str());
                m
            },
        }
    }
}

/// A single, composable transformation pass over the AST.
pub trait Transform {
    /// Rewrites `block` in place.
    fn transform(&mut self, block: &mut Block) -> Result<(), TransformError>;

    /// The name of the pass, used in error messages.
    fn name(&self) -> &'static str;
}

impl Transform for FeatureDetector {
    /// Records the features of `block`; the block is left as it is.
    fn transform(&mut self, block: &mut Block) -> (r: Result<(), TransformError>)
        ensures
            r is Ok,
            final(self).feature_set == block_features(old(block)@),
            final(block)@ == old(block)@,
    {
        self.feature_set = FeatureDetector::detect(block);
        Ok(())
    }

    fn name(&self) -> &'static str {
        "FeatureDetector"
    }
}

/// Rewrites `&`, `|`, `~`, `<<`, `>>` and unary `~` into `bit.*` calls.
#[derive(Debug)]
pub struct BitwiseOpTransform;

impl Transform for BitwiseOpTransform {
    fn transform(&mut self, block: &mut Block) -> (r: Result<(), TransformError>)
        ensures
            r is Ok,
            final(block)@ == map_block(old(block)@, lowering_of::<BitwiseLowering>()),
    {
        rewrite_block::<BitwiseLowering>(block);
        Ok(())
    }

    fn name(&self) -> &'static str {
        "BitwiseOpTransform"
    }
}

/// Rewrites `a // b` into `math.floor(a / b)`.
#[derive(Debug)]
pub struct IntegerDivisionTransform;

impl Transform for IntegerDivisionTransform {
    fn transform(&mut self, block: &mut Block) -> (r: Result<(), TransformError>)
        ensures
            r is Ok,
            final(block)@ == map_block(old(block)@, lowering_of::<IdivLowering>()),
    {
        rewrite_block::<IdivLowering>(block);
        Ok(())
    }

    fn name(&self) -> &'static str {
        "IntegerDivisionTransform"
    }
}

/// The first assignment to a `<const>` local in `b`, if any: the variable's
/// name and the span of the assigned name.
pub open spec fn first_const_violation(b: BlockV) -> Option<(Seq<char>, Span)> {
    let ds = cm_block(b, seq![], seq![]).0;
    if ds.len() == 0 {
        None
    } else {
        Some((e0301_name(ds[0]), ds[0].span))
    }
}

/// Validates that no `<const>` local is assigned to, then removes the
/// `<const>` attributes, which Lua 5.1 does not have.
#[derive(Debug)]
pub struct ConstAttributeValidator;

impl Transform for ConstAttributeValidator {
    /// Refuses the first assignment to a `<const>` local, leaving the block
    /// as it is; otherwise strips every `<const>` attribute.
    fn transform(&mut self, block: &mut Block) -> (r: Result<(), TransformError>)
        ensures
            first_const_violation(old(block)@) is None ==> r is Ok && final(block)@ == strip_block(
                old(block)@,
            ),
            first_const_violation(old(block)@) matches Some(v) ==> (final(block)@ == old(block)@
                && (r matches Err(TransformError::ConstViolation { name, span }) && name@ == v.0
                && span == v.1)),
    {
        let diags = ConstMutation.check(block);
        if diags.len() > 0 {
            proof {
                assert(all_e0301(Seq::<DiagnosticView>::empty()));
                lemma_cm_block(block@, seq![], seq![]);
                assert(e0301_shaped(diags@[0]@));
            }
            let d = &diags[0];
            let cs = chars_of(d.message.as_str());
            let name = string_of(&cs, 30, cs.len() - 1);
            return Err(TransformError::ConstViolation { name, span: d.span });
        }
        strip_const_block(block);
        Ok(())
    }

    fn name(&self) -> &'static str {
        "ConstAttributeValidator"
    }
}


/// Lowers `<close>` locals to `pcall` wrappers.
#[derive(Debug)]
pub struct CloseAttributeTransform;

impl Transform for CloseAttributeTransform {
    /// Lowers every `<close>` declaration, putting the close helper in
    /// front of each statement list that holds one.
    fn transform(&mut self, block: &mut Block) -> (r: Result<(), TransformError>)
        ensures
            r is Ok,
            final(block)@ == close_block(old(block)@, close_helper()),
    {
        let helper = close_helper_exec();
        close_block_exec(block, &helper);
        Ok(())
    }

    fn name(&self) -> &'static str {
        "CloseAttributeTransform"
    }
}

/// The features that still need a polyfill on `target`: LuaJIT ships the
/// `bit` library, so bitwise operations need none there.
pub open spec fn spec_suppress(fs: FeatureSet, target: LuaTarget) -> FeatureSet {
    match target {
        LuaTarget::LuaJIT => FeatureSet { bitwise_ops: false, ..fs },
        LuaTarget::Lua51 => fs,
    }
}

/// Zeroes the flags of features the target runtime provides natively.
pub fn suppress_native_features(fs: FeatureSet, target: LuaTarget) -> (r: FeatureSet)
    ensures
        r == spec_suppress(fs, target),
{
    let mut fs = fs;
    match target {
        LuaTarget::LuaJIT => {
            fs.bitwise_ops = false;
        },
        LuaTarget::Lua51 => {},
    }
    fs
}

/// Prepends the polyfills that the detected features need.
#[derive(Debug)]
pub struct PolyfillInjector {
    feature_set: Option<FeatureSet>,
    target: LuaTarget,
}

impl PolyfillInjector {
    pub closed spec fn features(&self) -> Option<FeatureSet> {
        self.feature_set
    }

    pub closed spec fn target(&self) -> LuaTarget {
        self.target
    }

    /// The injector that detects the features itself, for Lua 5.1.
    pub closed spec fn detecting() -> PolyfillInjector {
        PolyfillInjector { feature_set: None, target: LuaTarget::Lua51 }
    }

    /// An injector that detects the features itself, for Lua 5.1.
    pub fn new() -> (r: Self)
        ensures
            r.features() is None,
            r.target() == LuaTarget::Lua51,
            r == PolyfillInjector::detecting(),
    {
        PolyfillInjector { feature_set: None, target: LuaTarget::Lua51 }
    }

    /// An injector for features found by an earlier detection, for Lua 5.1.
    pub fn with_features(fs: FeatureSet) -> (r: Self)
        ensures
            r.features() == Some(fs),
            r.target() == LuaTarget::Lua51,
    {
        PolyfillInjector { feature_set: Some(fs), target: LuaTarget::Lua51 }
    }

    /// The injector for features `fs` found by an earlier detection, for `target`.
    pub closed spec fn for_target(fs: FeatureSet, target: LuaTarget) -> PolyfillInjector {
        PolyfillInjector { feature_set: Some(fs), target }
    }

    /// An injector for features found by an earlier detection, for `target`.
    pub fn with_features_for_target(fs: FeatureSet, target: LuaTarget) -> (r: Self)
        ensures
            r.features() == Some(fs),
            r.target() == target,
            r == PolyfillInjector::for_target(fs, target),
    {
        PolyfillInjector { feature_set: Some(fs), target }
    }

    /// The features this injector provides polyfills for on `b`.
    pub closed spec fn needed(&self, b: BlockV) -> FeatureSet {
        spec_suppress(
            match self.feature_set {
                Some(fs) => fs,
                None => block_features(b),
            },
            self.target,
        )
    }
}

/// On LuaJIT no block ever needs the bitwise polyfill: the `bit` library is
/// part of the runtime.
pub proof fn lemma_luajit_needs_no_bitwise_polyfill(p: PolyfillInjector, b: BlockV)
    requires
        p.target() == LuaTarget::LuaJIT,
    ensures
        !p.needed(b).bitwise_ops,
{
}

/// What an injector needs on `b`: its given features, or those of `b` when it
/// detects them itself, less the ones its target provides natively.
pub proof fn lemma_needed(p: PolyfillInjector, b: BlockV)
    ensures
        p.needed(b) == spec_suppress(
            match p.features() {
                Some(fs) => fs,
                None => block_features(b),
            },
            p.target(),
        ),
        PolyfillInjector::detecting().features() is None,
        PolyfillInjector::detecting().target() == LuaTarget::Lua51,
{
}

/// What an injector built for detected features needs: those features, less
/// the ones the target provides natively.
pub proof fn lemma_for_target_needed(fs: FeatureSet, target: LuaTarget, b: BlockV)
    ensures
        PolyfillInjector::for_target(fs, target).features() == Some(fs),
        PolyfillInjector::for_target(fs, target).target() == target,
        PolyfillInjector::for_target(fs, target).needed(b) == spec_suppress(fs, target),
{
}

/// What the injector makes of block `a`: `a` itself when no polyfill is
/// needed or the needed polyfills have no text; otherwise the statements of
/// the parsed polyfill text followed by those of `a`. `None` when the text is
/// too long to lex or does not parse, which is when the injector fails.
pub open spec fn polyfill_result(inj: PolyfillInjector, a: BlockV) -> Option<BlockV> {
    let text = spec_polyfills_for(inj.needed(a));
    if inj.needed(a).spec_is_empty() || text.len() == 0 {
        Some(a)
    } else if text.len() >= 0x3fff_ffff {
        None
    } else {
        match parsed(text) {
            Ok(pb) => Some(BlockV { stmts: pb.stmts + a.stmts, span: a.span }),
            Err(_) => None,
        }
    }
}

impl Transform for PolyfillInjector {
    /// Leaves `block` untouched when no polyfill is needed; otherwise puts
    /// the statements of the parsed polyfill text in front of it.
    fn transform(&mut self, block: &mut Block) -> (r: Result<(), TransformError>)
        ensures
            old(self).needed(old(block)@).spec_is_empty() ==> r is Ok && final(block)@ == old(block)@,
            spec_polyfills_for(old(self).needed(old(block)@)).len() == 0 ==> r is Ok && final(block)@
                == old(block)@,
            r is Ok ==> final(block)@.span == old(block)@.span && final(block)@.stmts.len()
                >= old(block)@.stmts.len() && final(block)@.stmts.subrange(
                final(block)@.stmts.len() - old(block)@.stmts.len(),
                final(block)@.stmts.len() as int,
            ) == old(block)@.stmts,
            r is Err ==> final(block)@ == old(block)@,
            polyfill_result(*old(self), old(block)@) matches Some(b) ==> (r is Ok && final(block)@
                == b),
            polyfill_result(*old(self), old(block)@) is None ==> (final(block)@ == old(block)@ && (
            r matches Err(TransformError::Internal { pass, .. }) && pass@ == "PolyfillInjector"@)),
    {
        let raw = match self.feature_set {
            Some(fs) => fs,
            None => FeatureDetector::detect(block),
        };
        let features = suppress_native_features(raw, self.target);
        if features.is_empty() {
            proof {
                assert(block@.stmts.subrange(0, block@.stmts.len() as int) =~= block@.stmts);
            }
            return Ok(());
        }
        let src = polyfills_for(&features);
        if src.as_str().is_empty() {
            proof {
                assert(block@.stmts.subrange(0, block@.stmts.len() as int) =~= block@.stmts);
            }
            return Ok(());
        }
        if !source_fits(src.as_str()) {
            return Err(TransformError::Internal { pass: "PolyfillInjector", detail: "polyfill source too long".to_owned() });
        }
        match parse(src.as_str()) {
            Ok(polyfill) => {
                let ghost pbv = polyfill@;
                let mut stmts = polyfill.stmts;
                let ghost pv = crate::ast::view_stmts(stmts@);
                let ghost ov = block.stmts@;
                let mut tail: Vec<Statement> = Vec::new();
                std::mem::swap(&mut tail, &mut block.stmts);
                stmts.append(&mut tail);
                block.stmts = stmts;
                proof {
                    crate::ast::lemma_view_stmts(block.stmts@);
                    crate::ast::lemma_view_stmts(ov);
                    crate::ast::lemma_view_stmts(polyfill.stmts@);
                    assert(crate::ast::view_stmts(block.stmts@) =~= pv + crate::ast::view_stmts(ov));
                    let fv = crate::ast::view_stmts(block.stmts@);
                    assert(fv.subrange(fv.len() - crate::ast::view_stmts(ov).len(), fv.len() as int) =~= crate::ast::view_stmts(ov));
                    assert(pv == pbv.stmts);
                }
                Ok(())
            },
            Err(e) => Err(TransformError::Internal { pass: "PolyfillInjector", detail: e.message() }),
        }
    }

    fn name(&self) -> &'static str {
        "PolyfillInjector"
    }
}

/// The passes a pipeline can hold.
#[derive(Debug)]
pub enum TransformPass {
    ConstAttributeValidator(ConstAttributeValidator),
    FeatureDetector(FeatureDetector),
    BitwiseOpTransform(BitwiseOpTransform),
    IntegerDivisionTransform(IntegerDivisionTransform),
    CloseAttributeTransform(CloseAttributeTransform),
    PolyfillInjector(PolyfillInjector),
}

/// What one pass does to a block when it succeeds.
pub open spec fn pass_rel(p: TransformPass, a: BlockV, b: BlockV) -> bool {
    match p {
        TransformPass::ConstAttributeValidator(_) => first_const_violation(a) is None && b
            == strip_block(a),
        TransformPass::FeatureDetector(_) => b == a,
        TransformPass::BitwiseOpTransform(_) => b == map_block(a, lowering_of::<BitwiseLowering>()),
        TransformPass::IntegerDivisionTransform(_) => b == map_block(
            a,
            lowering_of::<IdivLowering>(),
        ),
        TransformPass::CloseAttributeTransform(_) => b == close_block(a, close_helper()),
        TransformPass::PolyfillInjector(inj) => polyfill_result(inj, a) == Some(b),
    }
}

/// The error a failing pass reports on block `a`.
pub open spec fn pass_error(p: TransformPass, a: BlockV, e: TransformError) -> bool {
    match p {
        TransformPass::ConstAttributeValidator(_) => match first_const_violation(a) {
            Some(v) => e matches TransformError::ConstViolation { name, span } && name@ == v.0
                && span == v.1,
            None => false,
        },
        TransformPass::PolyfillInjector(_) => e matches TransformError::Internal { pass, .. }
            && pass@ == "PolyfillInjector"@,
        _ => false,
    }
}

/// Whether a pass fails on block `a`: the `<const>` validator when `a`
/// assigns to a `<const>` local, the polyfill injector when the text of the
/// polyfills `a` needs is too long or does not parse. No other pass fails.
pub open spec fn pass_may_fail(p: TransformPass, a: BlockV) -> bool {
    match p {
        TransformPass::ConstAttributeValidator(_) => first_const_violation(a) is Some,
        TransformPass::PolyfillInjector(inj) => polyfill_result(inj, a) is None,
        _ => false,
    }
}

/// The features that the last feature detector among the first `j` passes
/// found, on the block it saw (`bs[i]` is the block pass `i` runs on).
pub open spec fn detected_before(ps: Seq<TransformPass>, bs: Seq<BlockV>, j: int) -> Option<FeatureSet>
    decreases j,
{
    if j <= 0 {
        None
    } else if ps[j - 1] is FeatureDetector {
        Some(block_features(bs[j - 1]))
    } else {
        detected_before(ps, bs, j - 1)
    }
}

/// How a pass acts inside a pipeline, given what an earlier detector found:
/// an injector without features of its own takes the detected ones.
pub open spec fn in_pipeline(p: TransformPass, det: Option<FeatureSet>) -> TransformPass {
    match p {
        TransformPass::PolyfillInjector(inj) => if inj.features() is None && det is Some {
            TransformPass::PolyfillInjector(PolyfillInjector::for_target(det->0, inj.target()))
        } else {
            p
        },
        _ => p,
    }
}

/// `bs` lists the blocks a run of `ps` goes through, from `a` to `c`: each
/// pass, as it acts inside the pipeline, takes one block to the next.
pub open spec fn pipeline_chain(ps: Seq<TransformPass>, bs: Seq<BlockV>, a: BlockV, c: BlockV) -> bool {
    &&& bs.len() == ps.len() + 1
    &&& bs[0] == a
    &&& bs[ps.len() as int] == c
    &&& forall|j: int|
        0 <= j < ps.len() ==> #[trigger] pass_rel(
            in_pipeline(ps[j], detected_before(ps, bs, j)),
            bs[j],
            bs[j + 1],
        )
}

/// What the detectors found before pass `j` depends only on the passes and
/// blocks before it.
pub(crate) proof fn lemma_detected_before_prefix(
    ps1: Seq<TransformPass>,
    bs1: Seq<BlockV>,
    ps2: Seq<TransformPass>,
    bs2: Seq<BlockV>,
    j: int,
)
    requires
        forall|i: int| 0 <= i < j ==> ps1[i] == ps2[i] && bs1[i] == bs2[i],
    ensures
        detected_before(ps1, bs1, j) == detected_before(ps2, bs2, j),
    decreases j,
{
    if j > 0 {
        lemma_detected_before_prefix(ps1, bs1, ps2, bs2, j - 1);
    }
}

/// With no detector among the first `j` passes, nothing was detected.
pub(crate) proof fn lemma_no_detector(ps: Seq<TransformPass>, bs: Seq<BlockV>, j: int)
    requires
        forall|i: int| 0 <= i < j ==> !(#[trigger] ps[i] is FeatureDetector),
    ensures
        detected_before(ps, bs, j) is None,
    decreases j,
{
    if j > 0 {
        lemma_no_detector(ps, bs, j - 1);
    }
}

/// What a sequence of passes, run in order, does to a block when all succeed.
pub open spec fn pipeline_rel(ps: Seq<TransformPass>, a: BlockV, c: BlockV) -> bool {
    exists|bs: Seq<BlockV>| #[trigger] pipeline_chain(ps, bs, a, c)
}

/// Runs one pass of a pipeline, given what an earlier detector found, and
/// gives back what has been detected after it.
fn run_pass(pass: &mut TransformPass, detected: Option<FeatureSet>, block: &mut Block) -> (r: (
    Result<(), TransformError>,
    Option<FeatureSet>,
))
    ensures
        r.1 == (if *old(pass) is FeatureDetector {
            Some(block_features(old(block)@))
        } else {
            detected
        }),
        r.0 is Ok ==> pass_rel(in_pipeline(*old(pass), detected), old(block)@, final(block)@),
        r.0 matches Err(e) ==> final(block)@ == old(block)@ && pass_may_fail(
            in_pipeline(*old(pass), detected),
            old(block)@,
        ) && pass_error(*old(pass), old(block)@, e),
{
    match pass {
        TransformPass::ConstAttributeValidator(q) => (q.transform(block), detected),
        TransformPass::FeatureDetector(q) => {
            let res = q.transform(block);
            (res, Some(q.feature_set))
        },
        TransformPass::BitwiseOpTransform(q) => (q.transform(block), detected),
        TransformPass::IntegerDivisionTransform(q) => (q.transform(block), detected),
        TransformPass::CloseAttributeTransform(q) => (q.transform(block), detected),
        TransformPass::PolyfillInjector(q) => match (&q.feature_set, &detected) {
            (None, Some(fs)) => {
                let mut given = PolyfillInjector::with_features_for_target(*fs, q.target);
                (given.transform(block), detected)
            },
            _ => (q.transform(block), detected),
        },
    }
}

/// Runs a sequence of passes in order over a block.
pub struct TransformPipeline {
    passes: Vec<TransformPass>,
}

impl TransformPipeline {
    pub closed spec fn passes(&self) -> Seq<TransformPass> {
        self.passes@
    }

    pub open spec fn len(&self) -> nat {
        self.passes().len()
    }

    /// An empty pipeline.
    pub fn new() -> (r: Self)
        ensures
            r.passes() == Seq::<TransformPass>::empty(),
    {
        TransformPipeline { passes: Vec::new() }
    }

    /// Appends a pass.
    pub fn add_pass(&mut self, pass: TransformPass)
        ensures
            final(self).passes() == old(self).passes().push(pass),
    {
        self.passes.push(pass);
    }

    /// Runs all passes in insertion order; stops at the first error, and
    /// runs no pass after it. A feature detector's findings go to the
    /// polyfill injectors after it that were given no features. When every
    /// pass succeeds the block is the result of each pass in turn.
    pub fn run(&mut self, block: &mut Block) -> (r: Result<(), TransformError>)
        ensures
            r is Ok ==> pipeline_rel(old(self).passes(), old(block)@, final(block)@),
            r matches Err(e) ==> exists|k: int, bs: Seq<BlockV>|
                0 <= k < old(self).passes().len() && #[trigger] pipeline_chain(
                    old(self).passes().take(k),
                    bs,
                    old(block)@,
                    final(block)@,
                ) && pass_may_fail(
                    in_pipeline(old(self).passes()[k], detected_before(old(self).passes(), bs, k)),
                    final(block)@,
                ) && pass_error(old(self).passes()[k], final(block)@, e),
            final(self).len() == old(self).len(),
    {
        let ghost ps = self.passes@;
        let ghost start = block@;
        let ghost mut bs: Seq<BlockV> = seq![start];
        let mut detected: Option<FeatureSet> = None;
        let mut i: usize = 0;
        let n = self.passes.len();
        while i < n
            invariant
                n == self.passes@.len(),
                ps == old(self).passes@,
                n == ps.len(),
                start == old(block)@,
                i <= n,
                forall|j: int| i <= j < n ==> #[trigger] self.passes@[j] == ps[j],
                bs.len() == i + 1,
                bs[0] == start,
                bs[i as int] == block@,
                detected == detected_before(ps, bs, i as int),
                forall|j: int|
                    0 <= j < i ==> #[trigger] pass_rel(
                        in_pipeline(ps[j], detected_before(ps, bs, j)),
                        bs[j],
                        bs[j + 1],
                    ),
            decreases n - i,
        {
            let ghost before = block@;
            let ghost p = ps[i as int];
            let ghost det = detected;
            let (res, found) = run_pass(&mut self.passes[i], detected, block);
            detected = found;
            match res {
                Ok(()) => {},
                Err(e) => {
                    proof {
                        assert(block@ == before);
                        let pre = ps.take(i as int);
                        assert forall|j: int| 0 <= j < pre.len() implies #[trigger] pass_rel(
                            in_pipeline(pre[j], detected_before(pre, bs, j)),
                            bs[j],
                            bs[j + 1],
                        ) by {
                            assert(pre[j] == ps[j]);
                            lemma_detected_before_prefix(pre, bs, ps, bs, j);
                        }
                        assert(pipeline_chain(pre, bs, start, before));
                        assert(old(self).passes() == ps);
                    }
                    return Err(e);
                },
            }
            proof {
                let old_bs = bs;
                bs = bs.push(block@);
                assert forall|j: int| 0 <= j < i + 1 implies #[trigger] pass_rel(
                    in_pipeline(ps[j], detected_before(ps, bs, j)),
                    bs[j],
                    bs[j + 1],
                ) by {
                    lemma_detected_before_prefix(ps, bs, ps, old_bs, j);
                    if j < i {
                        assert(bs[j] == old_bs[j]);
                        assert(bs[j + 1] == old_bs[j + 1]);
                    }
                }
                lemma_detected_before_prefix(ps, bs, ps, old_bs, i as int);
                assert(detected == detected_before(ps, bs, i + 1));
            }
            i += 1;
        }
        proof {
            assert(pipeline_chain(ps, bs, start, block@));
        }
        Ok(())
    }
}

proof fn lemma_chain_step(ps: Seq<TransformPass>, bs: Seq<BlockV>, a: BlockV, c: BlockV, j: int)
    requires
        pipeline_chain(ps, bs, a, c),
        0 <= j < ps.len(),
    ensures
        pass_rel(in_pipeline(ps[j], detected_before(ps, bs, j)), bs[j], bs[j + 1]),
{
}

/// The passes of the standard pipeline, in order.
pub open spec fn standard_passes() -> Seq<TransformPass> {
    seq![
        TransformPass::ConstAttributeValidator(ConstAttributeValidator),
        TransformPass::FeatureDetector(FeatureDetector { feature_set: spec_no_features() }),
        TransformPass::BitwiseOpTransform(BitwiseOpTransform),
        TransformPass::IntegerDivisionTransform(IntegerDivisionTransform),
        TransformPass::CloseAttributeTransform(CloseAttributeTransform),
        TransformPass::PolyfillInjector(PolyfillInjector::detecting()),
    ]
}

/// The standard Lua 5.5 to 5.1 pipeline: `<const>` removal, feature
/// detection, bitwise lowering, `//` lowering, `<close>` lowering, and
/// polyfill injection last, for the features the detector found before the
/// lowerings.
pub fn default_pipeline() -> (r: TransformPipeline)
    ensures
        r.passes() == standard_passes(),
{
    let mut pipeline = TransformPipeline::new();
    pipeline.add_pass(TransformPass::ConstAttributeValidator(ConstAttributeValidator));
    pipeline.add_pass(TransformPass::FeatureDetector(FeatureDetector::new()));
    pipeline.add_pass(TransformPass::BitwiseOpTransform(BitwiseOpTransform));
    pipeline.add_pass(TransformPass::IntegerDivisionTransform(IntegerDivisionTransform));
    pipeline.add_pass(TransformPass::CloseAttributeTransform(CloseAttributeTransform));
    pipeline.add_pass(TransformPass::PolyfillInjector(PolyfillInjector::new()));
    proof {
        assert(pipeline.passes() =~= standard_passes());
    }
    pipeline
}

/// The standard pipeline, when it succeeds, strips `<const>`, lowers
/// bitwise operators, `//` and `<close>`, and then prepends the polyfills
/// for the features of the block as it was before the lowerings, so a
/// block with bitwise operators gets the `bit` polyfill.
#[verifier::rlimit(40)]
pub proof fn lemma_standard_pipeline_result(b: BlockV, fb: BlockV)
    requires
        pipeline_rel(standard_passes(), b, fb),
    ensures
        first_const_violation(b) is None,
        polyfill_result(
            PolyfillInjector::for_target(block_features(strip_block(b)), LuaTarget::Lua51),
            close_block(
                map_block(
                    map_block(strip_block(b), lowering_of::<BitwiseLowering>()),
                    lowering_of::<IdivLowering>(),
                ),
                close_helper(),
            ),
        ) == Some(fb),
{
    let ps = standard_passes();
    let bs = choose|bs: Seq<BlockV>| #[trigger] pipeline_chain(ps, bs, b, fb);
    assert(detected_before(ps, bs, 0) is None);
    assert(detected_before(ps, bs, 1) is None);
    assert(detected_before(ps, bs, 2) == Some(block_features(bs[1])));
    assert(detected_before(ps, bs, 3) == Some(block_features(bs[1])));
    assert(detected_before(ps, bs, 4) == Some(block_features(bs[1])));
    assert(detected_before(ps, bs, 5) == Some(block_features(bs[1])));
    let inj = PolyfillInjector::for_target(block_features(bs[1]), LuaTarget::Lua51);
    assert(in_pipeline(ps[5], detected_before(ps, bs, 5)) == TransformPass::PolyfillInjector(inj));
    let r0 = in_pipeline(ps[0], detected_before(ps, bs, 0));
    let r1 = in_pipeline(ps[1], detected_before(ps, bs, 1));
    let r2 = in_pipeline(ps[2], detected_before(ps, bs, 2));
    let r3 = in_pipeline(ps[3], detected_before(ps, bs, 3));
    let r4 = in_pipeline(ps[4], detected_before(ps, bs, 4));
    assert(r0 == ps[0] && r1 == ps[1] && r2 == ps[2] && r3 == ps[3] && r4 == ps[4]);
    lemma_chain_step(ps, bs, b, fb, 0);
    assert(pass_rel(r0, bs[0], bs[1]));
    lemma_chain_step(ps, bs, b, fb, 1);
    assert(pass_rel(r1, bs[1], bs[2]));
    lemma_chain_step(ps, bs, b, fb, 2);
    assert(pass_rel(r2, bs[2], bs[3]));
    lemma_chain_step(ps, bs, b, fb, 3);
    assert(pass_rel(r3, bs[3], bs[4]));
    lemma_chain_step(ps, bs, b, fb, 4);
    assert(pass_rel(r4, bs[4], bs[5]));
    lemma_chain_step(ps, bs, b, fb, 5);
    assert(pass_rel(TransformPass::PolyfillInjector(inj), bs[5], bs[6]));
}

} // verus!
