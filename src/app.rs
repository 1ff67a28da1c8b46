use crate::credit_scoring::{ScoringConfig, ScoringModel};
use crate::openbank::Config as OpenBankConfig;
use vstd::prelude::*;

verus! {

/// The settings that the application's commands share.
#[derive(Clone, Copy, Debug)]
pub struct AppState {
    pub scoring_config: ScoringConfig,
    pub openbank_config: OpenBankConfig,
}

impl AppState {
    /// The state the application starts with: the default scoring model.
    pub fn new() -> (r: AppState)
        ensures
            r.scoring_config == (ScoringConfig {
                model: ScoringModel::HeuristicWeighted { target_balance: 1_000_000 },
            }),
    {
        AppState { scoring_config: ScoringConfig::default(), openbank_config: OpenBankConfig {} }
    }
}

} // verus!
