//! Static analysis passes and the pipeline that runs them.

use vstd::prelude::*;

use crate::ast::{Block, BlockV, LuaTarget};
use crate::const_mutation::{cm_block, ConstMutation};
use crate::diagnostics::{Diagnostic, DiagnosticView};
use crate::unsupported::{uf_block, view_diags, UnsupportedFeatureGuard};

verus! {

/// A single static-analysis pass over a parsed AST.
pub trait Lint {
    fn check(&self, block: &Block) -> Vec<Diagnostic>;
}

/// The built-in passes a pipeline can hold.
#[derive(Debug, Clone, Copy, PartialEq, Eq, Structural)]
pub enum LintPass {
    /// E0301.
    ConstMutation,
    /// E0101 and E0102.
    UnsupportedFeatureGuard,
}

/// What one pass reports on a block.
pub open spec fn pass_diags(p: LintPass, b: BlockV) -> Seq<DiagnosticView> {
    match p {
        LintPass::ConstMutation => cm_block(b, seq![], seq![]).0,
        LintPass::UnsupportedFeatureGuard => uf_block(b, seq![]),
    }
}

/// What a sequence of passes reports, pass after pass.
pub open spec fn run_passes(ps: Seq<LintPass>, b: BlockV) -> Seq<DiagnosticView>
    decreases ps.len(),
{
    if ps.len() == 0 {
        seq![]
    } else {
        run_passes(ps.drop_last(), b) + pass_diags(ps.last(), b)
    }
}

/// The passes of the default pipeline: both targets lack `math.type` and
/// differ in integer overflow, so both run every pass.
pub open spec fn default_passes(target: LuaTarget) -> Seq<LintPass> {
    match target {
        LuaTarget::Lua51 | LuaTarget::LuaJIT => seq![
            LintPass::ConstMutation,
            LintPass::UnsupportedFeatureGuard,
        ],
    }
}

/// Ordered sequence of lint passes applied to a parsed block.
pub struct LintPipeline {
    passes: Vec<LintPass>,
}

impl LintPipeline {
    pub closed spec fn passes(&self) -> Seq<LintPass> {
        self.passes@
    }

    /// Default lint pipeline for `target`: `ConstMutation` (E0301) for all
    /// targets, then `UnsupportedFeatureGuard` (E0101, E0102) for Lua 5.1 and LuaJIT.
    pub fn default_for(target: LuaTarget) -> (r: Self)
        ensures
            r.passes() == default_passes(target),
    {
        let mut passes: Vec<LintPass> = vec![LintPass::ConstMutation];
        match target {
            LuaTarget::Lua51 | LuaTarget::LuaJIT => {
                passes.push(LintPass::UnsupportedFeatureGuard);
            },
        }
        let r = LintPipeline { passes };
        assert(r.passes() =~= default_passes(target));
        r
    }

    /// Runs all passes and returns all diagnostics in pass order.
    pub fn run(&self, block: &Block) -> (r: Vec<Diagnostic>)
        ensures
            view_diags(r@) == run_passes(self.passes(), block@),
    {
        let mut out: Vec<Diagnostic> = Vec::new();
        let mut i: usize = 0;
        assert(view_diags(out@) =~= run_passes(self.passes@.subrange(0, 0), block@));
        while i < self.passes.len()
            invariant
                i <= self.passes.len(),
                view_diags(out@) == run_passes(self.passes@.subrange(0, i as int), block@),
            decreases self.passes.len() - i,
        {
            let mut diags = match self.passes[i] {
                LintPass::ConstMutation => ConstMutation.check(block),
                LintPass::UnsupportedFeatureGuard => UnsupportedFeatureGuard.check(block),
            };
            let ghost before = out@;
            let ghost got = diags@;
            out.append(&mut diags);
            proof {
                let ps = self.passes@.subrange(0, i + 1);
                assert(ps.drop_last() =~= self.passes@.subrange(0, i as int));
                assert(view_diags(out@) =~= view_diags(before) + view_diags(got));
            }
            i += 1;
        }
        assert(self.passes@.subrange(0, self.passes.len() as int) =~= self.passes@);
        out
    }
}

/// The default pipeline reports every E0301 first, in source order, and
/// then every E0101 and E0102, in source order.
pub proof fn lemma_default_pipeline_order(target: LuaTarget, b: BlockV)
    ensures
        run_passes(default_passes(target), b) == cm_block(b, seq![], seq![]).0 + uf_block(
            b,
            seq![],
        ),
{
    let ps = default_passes(target);
    let first = ps.drop_last();
    assert(first.drop_last() =~= Seq::<LintPass>::empty());
    assert(first.last() == LintPass::ConstMutation);
    assert(ps.last() == LintPass::UnsupportedFeatureGuard);
    assert(run_passes(first.drop_last(), b) =~= Seq::<DiagnosticView>::empty());
    assert(run_passes(first, b) =~= cm_block(b, seq![], seq![]).0);
}

} // verus!
