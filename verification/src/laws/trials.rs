//! What the trials of one intervention come to, build by build.
use vstd::prelude::*;

use crate::engine::control::{
    after_event, answers, fresh_trials, is_sound, CheckOptions, InterventionTrials, TrialEvent,
    TrialStep, TrialsView,
};
use crate::engine::interventions::PlannedIntervention;
use crate::engine::outcomes::outcome_count;
use crate::engine::statistics::classification_of;
use crate::laws::builds::{
    holdings, law_agreeing_builds_all_do_the_same, law_departures_are_the_runs_with_other_files,
    law_equal_hashes_mean_equal_files, law_one_outcome_means_equal_holdings, same_files,
};
use crate::model::{BuildRun, InterventionKind, InterventionResult, StochasticFigures};

verus! {

/// Trials after the first `n` events.
pub open spec fn course(
    planned: PlannedIntervention,
    options: CheckOptions,
    ordinal: int,
    baseline: BuildRun,
    events: Seq<TrialEvent>,
    n: int,
) -> TrialsView
    decreases n,
{
    if n <= 0 {
        fresh_trials(planned, options, ordinal)
    } else {
        after_event(
            course(planned, options, ordinal, baseline, events, n - 1),
            baseline,
            events[n - 1],
        )
    }
}

/// Whether every event answers the build that was asked for.
pub open spec fn is_course(
    planned: PlannedIntervention,
    options: CheckOptions,
    ordinal: int,
    baseline: BuildRun,
    events: Seq<TrialEvent>,
) -> bool {
    forall|k: int|
        0 <= k < events.len() ==> answers(
            (#[trigger] course(planned, options, ordinal, baseline, events, k)).step,
            events[k],
        )
}

/// Whether a varied build made other files than the baseline, or failed.
pub open spec fn has_effect_on_files(t: TrialsView, baseline: BuildRun) -> bool {
    t.failures.len() > 0 || exists|i: int|
        0 <= i < t.runs.len() && !same_files(
            baseline.artifacts@,
            (#[trigger] t.runs[i]).artifacts@,
        )
}

pub open spec fn has_broken(events: Seq<TrialEvent>, n: int) -> bool {
    exists|k: int| 0 <= k < n && (#[trigger] events[k]) is Broke
}

/// Whether a run is one that was completed among the first `n` events.
pub open spec fn was_completed(events: Seq<TrialEvent>, n: int, run: BuildRun) -> bool {
    exists|k: int| 0 <= k < n && (#[trigger] events[k]) == TrialEvent::Completed(run)
}

/// The trials of one step later, seen from the outside: nothing that was recorded is lost, and one
/// build is added to what the step was for. A completed reversion is confirmed exactly if it made the
/// files of the baseline.
pub proof fn law_a_build_is_recorded_as_what_it_was_for(
    t: TrialsView,
    baseline: BuildRun,
    event: TrialEvent,
)
    requires
        is_sound(t),
        answers(t.step, event),
    ensures
        ({
            let u = after_event(t, baseline, event);
            let varied = t.step is RunVariant || t.step is AttemptVariant;
            &&& u.planned == t.planned && u.run_count == t.run_count && u.confirm == t.confirm
            &&& u.ordinal == t.ordinal + 1
            &&& match event {
                TrialEvent::Completed(run) => {
                    &&& u.runs == if varied {
                        t.runs.push(run)
                    } else {
                        t.runs
                    }
                    &&& u.references == if t.step is RunReference {
                        t.references.push(run)
                    } else {
                        t.references
                    }
                    &&& u.confirmation == if t.step is RunReversion {
                        Some(run)
                    } else {
                        t.confirmation
                    }
                    &&& t.step is RunReversion ==> u.reverted is Some && (u.reverted == Some(true)
                        <==> same_files(baseline.artifacts@, run.artifacts@))
                    &&& !(t.step is RunReversion) ==> u.reverted == t.reverted
                    &&& u.failures == t.failures
                    &&& u.error == t.error
                },
                TrialEvent::BuildFailed(failure) => {
                    &&& u.failures == t.failures.push(failure)
                    &&& u.runs == t.runs && u.references == t.references
                    &&& u.confirmation == t.confirmation && u.reverted == t.reverted
                    &&& u.error == t.error
                },
                TrialEvent::Broke(_) => {
                    &&& u.runs == t.runs && u.references == t.references && u.failures
                        == t.failures
                    &&& u.confirmation == t.confirmation && u.reverted == t.reverted
                    &&& u.error is Some
                },
            }
        }),
{
    if let TrialEvent::Completed(run) = event {
        law_equal_hashes_mean_equal_files(baseline.artifacts@, run.artifacts@);
    }
}

/// What is built next. Varied builds go on until there are as many as were asked for, unless one broke;
/// matched trials build a reference before each. The baseline is built again at the end exactly if that
/// is wanted and there was an effect, and nothing follows that.
pub proof fn law_trials_vary_repeat_and_revert(
    t: TrialsView,
    baseline: BuildRun,
    event: TrialEvent,
)
    requires
        is_sound(t),
        answers(t.step, event),
    ensures
        ({
            let u = after_event(t, baseline, event);
            let kind = t.planned.intervention.kind;
            let done = u.runs.len() + u.failures.len() >= u.run_count || event is Broke;
            &&& t.step is RunReversion ==> u.step is Finish
            &&& t.step is RunReference && !(event is Broke) ==> u.step is RunVariant
            &&& !(t.step is RunReversion) && !(t.step is RunReference && !(event is Broke)) ==> {
                &&& done ==> (u.step is RunReversion <==> t.confirm && has_effect_on_files(
                    u,
                    baseline,
                ))
                &&& done ==> u.step is RunReversion || u.step is Finish
                &&& !done ==> u.step == if kind == InterventionKind::CpuCount {
                    TrialStep::RunReference
                } else if kind == InterventionKind::NetworkAccess || kind
                    == InterventionKind::ToolchainExecutable || kind
                    == InterventionKind::DependencyFile {
                    TrialStep::AttemptVariant
                } else {
                    TrialStep::RunVariant
                }
            }
        }),
{
    let u = after_event(t, baseline, event);
    law_departures_are_the_runs_with_other_files(baseline, u.runs);
}

/// Trials begin with nothing recorded. They are repeated as often as the options say: a build that may
/// fail at least twice, and the number of processors as often as the larger of the two numbers.
pub proof fn law_trials_are_repeated_as_the_options_say(
    planned: PlannedIntervention,
    options: CheckOptions,
    ordinal: int,
)
    ensures
        ({
            let t = fresh_trials(planned, options, ordinal);
            let kind = planned.intervention.kind;
            let may_fail = kind == InterventionKind::NetworkAccess || kind
                == InterventionKind::ToolchainExecutable || kind
                == InterventionKind::DependencyFile;
            &&& is_sound(t)
            &&& t.planned == planned && t.ordinal == ordinal
            &&& t.confirm <==> options.confirmation_runs == 1
            &&& t.runs.len() == 0 && t.references.len() == 0 && t.failures.len() == 0
            &&& t.reverted is None && t.confirmation is None && t.error is None
            &&& t.run_count >= options.intervention_runs
            &&& may_fail ==> t.run_count >= 2 && (t.run_count == 2 || t.run_count
                == options.intervention_runs)
            &&& kind == InterventionKind::CpuCount ==> t.run_count >= options.stochastic_runs && (
            t.run_count == options.stochastic_runs || t.run_count == options.intervention_runs)
            &&& !may_fail && kind != InterventionKind::CpuCount ==> t.run_count
                == options.intervention_runs
            &&& t.step is Finish <==> t.run_count == 0
            &&& t.run_count > 0 ==> (t.step is RunReference <==> kind == InterventionKind::CpuCount)
                && (t.step is AttemptVariant <==> may_fail)
        }),
{
}

/// Over a whole course of trials: an error means that a build broke, every run was completed, and the
/// baseline counts as restored exactly if it was built again, after an effect, with the files of the
/// baseline.
pub proof fn law_restored_means_built_again_with_the_same_files(
    planned: PlannedIntervention,
    options: CheckOptions,
    ordinal: int,
    baseline: BuildRun,
    events: Seq<TrialEvent>,
    n: int,
)
    requires
        is_course(planned, options, ordinal, baseline, events),
        0 <= n <= events.len(),
    ensures
        ({
            let t = course(planned, options, ordinal, baseline, events, n);
            &&& is_sound(t)
            &&& t.planned == planned
            &&& t.ordinal == ordinal + n
            &&& t.confirm == (options.confirmation_runs == 1)
            &&& t.reverted is Some <==> t.confirmation is Some
            &&& t.confirmation matches Some(run) ==> {
                &&& t.reverted == Some(true) <==> same_files(baseline.artifacts@, run.artifacts@)
                &&& options.confirmation_runs == 1
                &&& has_effect_on_files(t, baseline)
                &&& was_completed(events, n, run)
            }
            &&& t.step is RunReversion ==> options.confirmation_runs == 1 && has_effect_on_files(
                t,
                baseline,
            )
            &&& t.error is Some <==> has_broken(events, n)
            &&& forall|i: int| 0 <= i < t.runs.len() ==> was_completed(events, n, #[trigger] t.runs[i])
        }),
    decreases n,
{
    let t = course(planned, options, ordinal, baseline, events, n);
    if n == 0 {
        law_trials_are_repeated_as_the_options_say(planned, options, ordinal);
    } else {
        let s = course(planned, options, ordinal, baseline, events, n - 1);
        let event = events[n - 1];
        law_restored_means_built_again_with_the_same_files(
            planned,
            options,
            ordinal,
            baseline,
            events,
            n - 1,
        );
        assert(answers(s.step, event));
        law_a_build_is_recorded_as_what_it_was_for(s, baseline, event);
        law_trials_vary_repeat_and_revert(s, baseline, event);
        crate::engine::control::law_every_build_brings_the_end_nearer(s, baseline, event);
        if has_broken(events, n - 1) {
            let k = choose|k: int| 0 <= k < n - 1 && (#[trigger] events[k]) is Broke;
            assert(events[k] is Broke);
        }
        if event is Broke {
            assert(events[n - 1] is Broke);
        }
        assert forall|run: BuildRun| was_completed(events, n - 1, run) implies #[trigger] was_completed(
            events,
            n,
            run,
        ) by {
            let k = choose|k: int|
                0 <= k < n - 1 && (#[trigger] events[k]) == TrialEvent::Completed(run);
            assert(events[k] == TrialEvent::Completed(run));
        }
        if let TrialEvent::Completed(run) = event {
            assert(events[n - 1] == TrialEvent::Completed(run));
            assert(was_completed(events, n, run));
        }
        assert forall|i: int| 0 <= i < t.runs.len() implies was_completed(
            events,
            n,
            #[trigger] t.runs[i],
        ) by {
            if i < s.runs.len() {
                assert(t.runs[i] == s.runs[i]);
                assert(was_completed(events, n - 1, s.runs[i]));
            }
        }
        if s.step is RunReversion && t.confirmation is Some {
            assert(t.runs == s.runs && t.failures == s.failures);
        }
    }
}

/// The result of trials: what was built, whether some varied build made other files than the baseline,
/// and whether the varied builds agree with each other.
pub proof fn law_results_say_what_the_builds_made(
    trials: InterventionTrials,
    baseline: &BuildRun,
    within_alpha: bool,
    figures: StochasticFigures,
    r: InterventionResult,
)
    requires
        call_ensures(
            InterventionTrials::finish,
            (trials, baseline, within_alpha, figures),
            r,
        ),
    ensures
        ({
            let kind = trials.planned.intervention.kind;
            let may_fail = kind == InterventionKind::NetworkAccess || kind
                == InterventionKind::ToolchainExecutable || kind
                == InterventionKind::DependencyFile;
            let runs = trials.runs@;
            let failures = trials.build_failures@;
            let alike = forall|i: int|
                0 <= i < runs.len() ==> holdings(#[trigger] runs[i]) == holdings(runs[0]);
            &&& r.intervention == trials.planned.intervention
            &&& r.runs@ == runs && r.build_failures@ == failures && r.reference_runs@
                == trials.reference_runs@
            &&& r.reverted_to_baseline == trials.reverted_to_baseline && r.confirmation_run
                == trials.confirmation_run
            &&& r.error == trials.error
            &&& r.changed <==> exists|i: int|
                0 <= i < runs.len() && !same_files(
                    baseline.artifacts@,
                    (#[trigger] runs[i]).artifacts@,
                )
            &&& !may_fail ==> (r.variant_stable is None <==> runs.len() == 0)
            &&& may_fail ==> (r.variant_stable is None <==> runs.len() == 0 && failures.len() == 0)
            &&& !may_fail ==> (r.variant_stable == Some(true) <==> runs.len() > 0 && alike)
            &&& may_fail ==> (r.variant_stable == Some(true) <==> (runs.len() > 0
                && failures.len() == 0 && alike) || (runs.len() == 0 && failures.len() > 0
                && forall|i: int, j: int|
                0 <= i < failures.len() && 0 <= j < failures.len() ==> (
                #[trigger] failures[i]).exit_code == (#[trigger] failures[j]).exit_code))
            &&& !may_fail ==> r.distinct_variant_outcomes == outcome_count(runs)
            &&& runs.len() == 0 ==> r.artifact_deltas@.len() == 0
            &&& r.stochastic_effect is Some <==> kind == InterventionKind::CpuCount && runs.len()
                == trials.run_count && trials.reference_runs@.len() == trials.run_count
        }),
{
    let runs = trials.runs@;
    let failures = trials.build_failures@;
    law_departures_are_the_runs_with_other_files(*baseline, runs);
    law_one_outcome_means_equal_holdings(runs);
    law_agreeing_builds_all_do_the_same(runs, failures);
    assert(r.artifact_deltas.deep_view().len() == r.artifact_deltas@.len());
}

/// The statistics of matched trials count the builds with other files on each side. The baseline is
/// unstable exactly if one of its references has other files; an effect is supported only if some
/// varied build has other files and the test is within its level.
pub proof fn law_matched_trials_count_builds_with_other_files(
    trials: InterventionTrials,
    baseline: &BuildRun,
    within_alpha: bool,
    figures: StochasticFigures,
    r: InterventionResult,
)
    requires
        call_ensures(
            InterventionTrials::finish,
            (trials, baseline, within_alpha, figures),
            r,
        ),
        r.stochastic_effect is Some,
    ensures
        ({
            let e = r.stochastic_effect->0;
            let differs = |run: BuildRun| !same_files(baseline.artifacts@, run.artifacts@);
            &&& e.baseline_trials == trials.reference_runs@.len()
            &&& e.variant_trials == trials.runs@.len()
            &&& e.baseline_changed_trials == trials.reference_runs@.filter(differs).len()
            &&& e.variant_changed_trials == trials.runs@.filter(differs).len()
            &&& e.figures == figures
            &&& e.classification is BaselineUnstable <==> e.baseline_changed_trials > 0
            &&& e.classification is Supported <==> e.baseline_changed_trials == 0
                && e.variant_changed_trials > 0 && within_alpha
        }),
{
    let differs = |run: BuildRun| !same_files(baseline.artifacts@, run.artifacts@);
    law_departures_are_the_runs_with_other_files(*baseline, trials.runs@);
    law_departures_are_the_runs_with_other_files(*baseline, trials.reference_runs@);
    lemma_filter_shortens(trials.runs@, differs);
}

proof fn lemma_filter_shortens(runs: Seq<BuildRun>, p: spec_fn(BuildRun) -> bool)
    ensures
        runs.filter(p).len() <= runs.len(),
{
    runs.lemma_filter_len(p);
}

/// What matched trials support, by the counts alone: one more departure of the baseline never makes an
/// effect supported, and one more departure of the variant never takes the support away.
pub proof fn law_support_needs_departures_of_the_variant_alone(
    baseline_changed: int,
    variant_changed: int,
    trials: int,
    within_alpha: bool,
)
    requires
        0 <= baseline_changed,
        0 <= variant_changed <= trials,
    ensures
        ({
            let c = classification_of(baseline_changed, variant_changed, trials, within_alpha);
            &&& c is BaselineUnstable <==> baseline_changed != 0
            &&& c is Supported <==> baseline_changed == 0 && variant_changed != 0 && within_alpha
            &&& c is Supported && variant_changed < trials ==> classification_of(
                baseline_changed,
                variant_changed + 1,
                trials,
                within_alpha,
            ) is Supported
        }),
{
}

} // verus!
