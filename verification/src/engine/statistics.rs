//! How often matched trials depart from the controls, and what follows.
use vstd::prelude::*;

use crate::model::{
    StochasticEffectClassification, StochasticEffectEvidence, StochasticFigures,
};

verus! {

/// What matched trials support.
///
/// A baseline that departs from the controls itself supports nothing. Otherwise the effect is
/// supported if some variant departs and the probability of that under equal propensity is within
/// the significance level.
pub open spec fn classification_of(
    baseline_changed: int,
    variant_changed: int,
    variant_trials: int,
    within_alpha: bool,
) -> StochasticEffectClassification {
    if baseline_changed > 0 {
        StochasticEffectClassification::BaselineUnstable
    } else if variant_changed > 0 && variant_trials > 0 && within_alpha {
        StochasticEffectClassification::Supported
    } else {
        StochasticEffectClassification::NotSupported
    }
}

/// Compares the rate at which matched baseline and variant trials depart from the controls.
/// `within_alpha` says whether the one-sided Fisher exact probability of the four counts is at
/// most the significance level, and `figures` are the numbers that were found for them.
pub fn assess_stochastic_effect(
    baseline_changed: usize,
    baseline_trials: usize,
    variant_changed: usize,
    variant_trials: usize,
    within_alpha: bool,
    figures: StochasticFigures,
) -> (r: StochasticEffectEvidence)
    ensures
        r.baseline_trials == baseline_trials,
        r.variant_trials == variant_trials,
        r.baseline_changed_trials == baseline_changed,
        r.variant_changed_trials == variant_changed,
        r.figures == figures,
        r.classification == classification_of(
            baseline_changed as int,
            variant_changed as int,
            variant_trials as int,
            within_alpha,
        ),
{
    let classification = if baseline_changed > 0 {
        StochasticEffectClassification::BaselineUnstable
    } else if variant_changed > 0 && variant_trials > 0 && within_alpha {
        StochasticEffectClassification::Supported
    } else {
        StochasticEffectClassification::NotSupported
    };
    StochasticEffectEvidence {
        baseline_trials,
        variant_trials,
        baseline_changed_trials: baseline_changed,
        variant_changed_trials: variant_changed,
        figures,
        classification,
    }
}

/// However much more often the variant departs, an unstable baseline keeps an effect from being
/// supported.
pub proof fn law_an_unstable_baseline_supports_nothing(
    baseline_changed: int,
    variant_changed: int,
    variant_trials: int,
    within_alpha: bool,
)
    requires
        baseline_changed > 0,
    ensures
        !(classification_of(baseline_changed, variant_changed, variant_trials, within_alpha)
            is Supported),
{
}

} // verus!
