//! The usage text.
use vstd::prelude::*;

verus! {

/// Shown for `-h`, `--help` and after an unknown argument.
pub const HELP_TEXT: &'static str = "recomposition-orchestrator-app\nUsage:\n  recomposition-orchestrator-app \\\n    --input-s3-bucket nangman-crypto-dev-intel-candidate-<account-suffix> \\\n    --input-s3-prefix hypothesis-state/schema=intel_candidate_hypothesis_state_v1/ \\\n    --changed-trigger market_feature_delta_updated \\\n    --output-s3-bucket nangman-crypto-dev-research-<account-suffix> \\\n    --output-s3-prefix recomposition/\n\nSelects dirty hypothesis_state records and emits hypothesis-harness-job plus an\norchestrator report. This app does not mutate raw events and does not run\nresearch directly.";

pub fn help_text() -> (r: &'static str)
    ensures
        r@ == HELP_TEXT@,
{
    HELP_TEXT
}

} // verus!
