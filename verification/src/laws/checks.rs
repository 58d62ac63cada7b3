//! What a check of a project concludes from its experiments.
use vstd::prelude::*;

use crate::cli::{
    check_exit_code, check_options, compare_exit_code, compare_options, doctor_exit_code,
    fix_exit_code, fix_options, CheckArgs, CompareArgs, FixArgs,
};
use crate::config::Config;
use crate::doctor::DoctorReport;
use crate::engine::compare::CompareOptions;
use crate::engine::control::{
    build_spec, candidates_of, check_status, conclude_check, conclude_unstable, failed_count,
    interaction_decision, leading_notes, minimized_search, search_step, unminimized_search,
    CheckOptions, CheckSubject, InteractionDecision, InteractionOutcome, SearchStep,
};
use crate::engine::ddmin::DdminOutcome;
use crate::engine::fix::{FixOptions, FixReport};
use crate::engine::interventions::{PlannedIntervention, PlannedInterventionView};
use crate::laws::builds::{
    holdings, law_departures_are_the_runs_with_other_files, law_equal_hashes_mean_equal_files,
    same_files,
};
use crate::model::{
    BuildRun, BuildSpec, CheckReport, CheckStatus, EnvironmentComparisonStatus,
    InteractionSearchResult, InterventionKind, InterventionResult,
    StochasticEffectClassification,
};

verus! {

/// Whether matched trials found that the baseline itself departs.
pub open spec fn baseline_departs(results: Seq<InterventionResult>) -> bool {
    exists|i: int|
        0 <= i < results.len() && (#[trigger] results[i]).stochastic_effect is Some
            && results[i].stochastic_effect->0.classification
            == StochasticEffectClassification::BaselineUnstable
}

/// Whether bytes changed under one intervention or under several at once.
pub open spec fn bytes_changed(
    results: Seq<InterventionResult>,
    outcome: InteractionOutcome,
) -> bool {
    (exists|i: int| 0 <= i < results.len() && (#[trigger] results[i]).changed) || (match outcome {
        InteractionOutcome::Searched(search) => search.changed,
        _ => false,
    })
}

/// Whether something was left open: a build failed where that is telling, an experiment was not
/// completed or the search for interactions failed.
pub open spec fn something_is_open(
    results: Seq<InterventionResult>,
    outcome: InteractionOutcome,
) -> bool {
    ||| outcome is Failed
    ||| exists|i: int| 0 <= i < results.len() && (#[trigger] results[i]).error is Some
    ||| exists|i: int|
        0 <= i < results.len() && (#[trigger] results[i]).build_failures@.len() > 0 && (
        results[i].intervention.kind == InterventionKind::NetworkAccess
            || results[i].intervention.kind == InterventionKind::ToolchainExecutable
            || results[i].intervention.kind == InterventionKind::DependencyFile)
}

proof fn lemma_failed(results: Seq<InterventionResult>, n: int)
    requires
        0 <= n <= results.len(),
    ensures
        0 <= failed_count(results, n) <= n,
        failed_count(results, n) > 0 <==> exists|i: int|
            0 <= i < n && (#[trigger] results[i]).error is Some,
    decreases n,
{
    if n > 0 {
        lemma_failed(results, n - 1);
        if results[n - 1].error is Some {
            assert(results[n - 1].error is Some);
        }
        if failed_count(results, n - 1) > 0 {
            let i = choose|i: int| 0 <= i < n - 1 && (#[trigger] results[i]).error is Some;
            assert(results[i].error is Some);
        }
    }
}

/// What a check concludes. A baseline that departs from itself settles nothing else. Changed bytes are
/// non-reproducible, whatever else is open. Without them, anything open is inconclusive, and only a
/// check with nothing open is reproducible.
pub proof fn law_a_check_concludes_from_its_experiments(
    results: Seq<InterventionResult>,
    outcome: InteractionOutcome,
)
    ensures
        ({
            let status = check_status(results, outcome);
            let unstable = baseline_departs(results);
            let changed = bytes_changed(results, outcome);
            let open = something_is_open(results, outcome);
            &&& status == CheckStatus::UncontrolledNondeterminism <==> unstable
            &&& status == CheckStatus::NonReproducible <==> !unstable && changed
            &&& status == CheckStatus::Inconclusive <==> !unstable && !changed && open
            &&& status == CheckStatus::Reproducible <==> !unstable && !changed && !open
        }),
{
    lemma_failed(results, results.len() as int);
    if crate::engine::control::late_instability(results) {
        let i = choose|i: int|
            0 <= i < results.len() && crate::engine::control::found_unstable(
                #[trigger] results[i],
            );
        assert(results[i].stochastic_effect is Some);
    }
    if baseline_departs(results) {
        let i = choose|i: int|
            0 <= i < results.len() && (#[trigger] results[i]).stochastic_effect is Some
                && results[i].stochastic_effect->0.classification
                == StochasticEffectClassification::BaselineUnstable;
        assert(crate::engine::control::found_unstable(results[i]));
    }
    if crate::engine::control::any_outcome_dependency(results) {
        let i = choose|i: int|
            0 <= i < results.len() && crate::engine::control::fails_tellingly(
                #[trigger] results[i],
            );
        assert(results[i].build_failures@.len() > 0);
    }
    if exists|i: int|
        0 <= i < results.len() && (#[trigger] results[i]).build_failures@.len() > 0 && (
        results[i].intervention.kind == InterventionKind::NetworkAccess
            || results[i].intervention.kind == InterventionKind::ToolchainExecutable
            || results[i].intervention.kind == InterventionKind::DependencyFile) {
        let i = choose|i: int|
            0 <= i < results.len() && (#[trigger] results[i]).build_failures@.len() > 0 && (
            results[i].intervention.kind == InterventionKind::NetworkAccess
                || results[i].intervention.kind == InterventionKind::ToolchainExecutable
                || results[i].intervention.kind == InterventionKind::DependencyFile);
        assert(crate::engine::control::fails_tellingly(results[i]));
    }
}

/// The report of a check keeps the controls, the experiments and the search, and concludes from them.
/// It diagnoses nothing on a baseline that departs from itself.
pub proof fn law_check_reports_keep_their_experiments(
    subject: CheckSubject,
    runs: Vec<BuildRun>,
    results: Vec<InterventionResult>,
    outcome: InteractionOutcome,
    report: CheckReport,
)
    requires
        call_ensures(conclude_check, (subject, runs, results, outcome), report),
    ensures
        report.experiment_id@ == subject.experiment_id@,
        report.source_digest@ == subject.source_digest@,
        report.source_provenance == subject.source_provenance,
        report.baseline_environment == subject.baseline_environment,
        report.runs@ == runs@,
        report.interventions@ == results@,
        report.interaction_search == match outcome {
            InteractionOutcome::Searched(search) => Some(search),
            _ => None,
        },
        report.status == CheckStatus::Reproducible <==> !baseline_departs(results@)
            && !bytes_changed(results@, outcome) && !something_is_open(results@, outcome),
        report.status == CheckStatus::NonReproducible <==> !baseline_departs(results@)
            && bytes_changed(results@, outcome),
        baseline_departs(results@) ==> report.status == CheckStatus::UncontrolledNondeterminism
            && report.diagnoses@.len() == 0,
{
    law_a_check_concludes_from_its_experiments(results@, outcome);
    if baseline_departs(results@) {
        let i = choose|i: int|
            0 <= i < results@.len() && (#[trigger] results@[i]).stochastic_effect is Some
                && results@[i].stochastic_effect->0.classification
                == StochasticEffectClassification::BaselineUnstable;
        assert(crate::engine::control::found_unstable(results@[i]));
        assert(report.diagnoses.deep_view().len() == 0);
    }
}

/// The report of controls that disagree claims nothing but that.
pub proof fn law_unstable_controls_are_not_diagnosed(
    subject: CheckSubject,
    runs: Vec<BuildRun>,
    control_runs: usize,
    report: CheckReport,
)
    requires
        call_ensures(conclude_unstable, (subject, runs, control_runs), report),
    ensures
        report.status == CheckStatus::UncontrolledNondeterminism,
        report.runs@ == runs@,
        report.experiment_id@ == subject.experiment_id@,
        report.source_digest@ == subject.source_digest@,
        report.interventions@.len() == 0,
        report.diagnoses@.len() == 0,
        report.interaction_search is None,
        report.notes@.len() == 3,
{
    assert(report.notes.deep_view().len() == 3);
}

/// The first note of a report tells the reader what was concluded.
pub proof fn law_the_first_note_tells_the_conclusion(
    results: Seq<InterventionResult>,
    outcome: InteractionOutcome,
)
    ensures
        ({
            let first = leading_notes(results, outcome)[0];
            let unstable =
                "matched baseline trials performed for a stochastic intervention contradicted the initial control-stability gate"@;
            let changed =
                "the controlled baseline was stable, but at least one tested environmental perturbation changed declared artifact bytes"@;
            &&& leading_notes(results, outcome).len() >= 1
            &&& baseline_departs(results) ==> first == unstable
            &&& !baseline_departs(results) && bytes_changed(results, outcome) ==> first == changed
        }),
{
    law_a_check_concludes_from_its_experiments(results, outcome);
}

/// Interactions are looked for among the deterministic interventions that were completed and changed
/// nothing alone, all of them and in order.
pub proof fn law_interaction_candidates_are_the_inert_ones(
    planned: Seq<PlannedInterventionView>,
    results: Seq<InterventionResult>,
    n: int,
)
    requires
        0 <= n <= planned.len(),
        n <= results.len(),
    ensures
        candidates_of(planned, results, n) == Seq::new(
            n as nat,
            |i: int| (planned[i], results[i]),
        ).filter(
            |p: (PlannedInterventionView, InterventionResult)| is_inert_candidate(p.0, p.1),
        ).map_values(|p: (PlannedInterventionView, InterventionResult)| p.0),
    decreases n,
{
    reveal(Seq::filter);
    let p = |p: (PlannedInterventionView, InterventionResult)| is_inert_candidate(p.0, p.1);
    let f = |p: (PlannedInterventionView, InterventionResult)| p.0;
    let pairs = Seq::new(n as nat, |i: int| (planned[i], results[i]));
    if n > 0 {
        law_interaction_candidates_are_the_inert_ones(planned, results, n - 1);
        let rest = Seq::new((n - 1) as nat, |i: int| (planned[i], results[i]));
        assert(pairs.drop_last() =~= rest);
        assert(pairs.last() == (planned[n - 1], results[n - 1]));
        assert(candidates_of(planned, results, n) =~= pairs.filter(p).map_values(f));
    } else {
        assert(candidates_of(planned, results, n) =~= pairs.filter(p).map_values(f));
    }
}

/// Whether an intervention may be part of an interaction: deterministic, completed and without effect.
pub open spec fn is_inert_candidate(
    planned: PlannedInterventionView,
    result: InterventionResult,
) -> bool {
    &&& planned.intervention.kind != InterventionKind::CpuCount
    &&& planned.intervention.kind != InterventionKind::BuildImage
    &&& planned.intervention.kind != InterventionKind::ToolchainExecutable
    &&& planned.intervention.kind != InterventionKind::DependencyFile
    &&& planned.intervention.kind != InterventionKind::NetworkAccess
    &&& !result.changed
    &&& result.error is None
}

/// Interactions are searched exactly if that is wanted, the baseline is stable, and there are at least
/// two candidates and no more than allowed. Only too many candidates are skipped.
pub proof fn law_interactions_are_searched_among_enough_candidates(
    unstable: bool,
    wanted: bool,
    candidates: int,
    most: int,
)
    ensures
        ({
            let d = interaction_decision(unstable, wanted, candidates, most);
            &&& d == InteractionDecision::Search <==> wanted && !unstable && 2 <= candidates <= most
            &&& d == InteractionDecision::Skip <==> wanted && !unstable && 2 <= candidates && most
                < candidates
        }),
{
}

/// A combination is minimised exactly if all its builds make the same other files; the minimal one is
/// reverted exactly if that still holds of it and one confirmation is asked for.
pub proof fn law_a_search_goes_on_while_there_is_one_effect(
    first: BuildRun,
    runs: Seq<BuildRun>,
    confirmations: int,
)
    ensures
        ({
            let one_effect = runs.len() > 0 && (forall|i: int|
                0 <= i < runs.len() ==> !same_files(
                    first.artifacts@,
                    (#[trigger] runs[i]).artifacts@,
                )) && (forall|i: int|
                0 <= i < runs.len() ==> holdings(#[trigger] runs[i]) == holdings(runs[0]));
            &&& search_step(first, runs, false, confirmations) == SearchStep::Minimize <==> one_effect
            &&& search_step(first, runs, true, confirmations) == SearchStep::Revert <==> one_effect
                && confirmations == 1
            &&& search_step(first, runs, false, confirmations) != SearchStep::Revert
            &&& search_step(first, runs, true, confirmations) != SearchStep::Minimize
        }),
{
    law_departures_are_the_runs_with_other_files(first, runs);
}

/// A search that minimised reports the minimal variables, how many subsets were built and whether all
/// its builds made other files than the baseline. It reverted exactly if the build that went back made
/// the files of the baseline.
pub proof fn law_a_minimized_search_reports_what_was_built(
    candidates: &Vec<PlannedIntervention>,
    outcome: &DdminOutcome<PlannedIntervention>,
    first: &BuildRun,
    runs: Vec<BuildRun>,
    confirmation: Option<BuildRun>,
    r: InteractionSearchResult,
)
    requires
        call_ensures(minimized_search, (candidates, outcome, first, runs, confirmation), r),
    ensures
        r.candidate_variables@.len() == candidates@.len(),
        forall|i: int|
            0 <= i < candidates@.len() ==> (#[trigger] r.candidate_variables@[i])@
                == candidates@[i].intervention.variable@,
        r.minimal_variables@.len() == outcome.minimal@.len(),
        forall|i: int|
            0 <= i < outcome.minimal@.len() ==> (#[trigger] r.minimal_variables@[i])@
                == outcome.minimal@[i].intervention.variable@,
        r.tested_subsets == outcome.tests + 2,
        r.runs@ == runs@,
        r.changed <==> forall|i: int|
            0 <= i < runs@.len() ==> !same_files(
                first.artifacts@,
                (#[trigger] runs@[i]).artifacts@,
            ),
        r.stable_effect <==> r.changed && runs@.len() > 0 && forall|i: int|
            0 <= i < runs@.len() ==> holdings(#[trigger] runs@[i]) == holdings(runs@[0]),
        r.confirmation_run == confirmation,
        r.reverted_to_baseline is Some <==> confirmation is Some,
        confirmation matches Some(run) ==> (r.reverted_to_baseline == Some(true) <==> same_files(
            first.artifacts@,
            run.artifacts@,
        )),
        r.error is None,
{
    law_departures_are_the_runs_with_other_files(*first, runs@);
    assert forall|i: int| 0 <= i < runs@.len() implies (same_files(
        first.artifacts@,
        (#[trigger] runs@[i]).artifacts@,
    ) <==> crate::engine::outcomes::same_hashes(first.artifacts@, runs@[i].artifacts@)) by {
        law_equal_hashes_mean_equal_files(first.artifacts@, runs@[i].artifacts@);
    }
    if let Some(run) = confirmation {
        law_equal_hashes_mean_equal_files(first.artifacts@, run.artifacts@);
    }
    lemma_variables(candidates, r.candidate_variables);
    lemma_variables(&outcome.minimal, r.minimal_variables);
}

proof fn lemma_variables(plans: &Vec<PlannedIntervention>, names: Vec<String>)
    requires
        names.deep_view() == crate::engine::control::variables_of(plans.deep_view()),
    ensures
        names@.len() == plans@.len(),
        forall|i: int|
            0 <= i < plans@.len() ==> (#[trigger] names@[i])@ == plans@[i].intervention.variable@,
{
    assert(names.deep_view().len() == plans.deep_view().len());
    assert forall|i: int| 0 <= i < plans@.len() implies (#[trigger] names@[i])@
        == plans@[i].intervention.variable@ by {
        assert(names.deep_view()[i] == plans.deep_view()[i].intervention.variable);
    }
}

/// A search that did not minimise names no variables and says whether some build made other files.
pub proof fn law_an_unminimized_search_blames_nothing(
    candidates: &Vec<PlannedIntervention>,
    first: &BuildRun,
    runs: Vec<BuildRun>,
    r: InteractionSearchResult,
)
    requires
        call_ensures(unminimized_search, (candidates, first, runs), r),
    ensures
        r.candidate_variables@.len() == candidates@.len(),
        r.minimal_variables@.len() == 0,
        r.tested_subsets == 1,
        r.runs@ == runs@,
        r.changed <==> exists|i: int|
            0 <= i < runs@.len() && !same_files(
                first.artifacts@,
                (#[trigger] runs@[i]).artifacts@,
            ),
        r.reverted_to_baseline is None,
        r.confirmation_run is None,
        r.error is None,
{
    law_departures_are_the_runs_with_other_files(*first, runs@);
    lemma_variables(candidates, r.candidate_variables);
}

/// A build follows the configuration.
pub proof fn law_builds_follow_the_configuration(config: &Config, r: BuildSpec)
    requires
        call_ensures(build_spec, (config,), r),
    ensures
        r.image@ == config.build.image@,
        r.command.deep_view() == config.build.command.deep_view(),
        r.outputs.deep_view() == config.build.outputs.deep_view(),
        r.environment.deep_view() == config.build.env.deep_view(),
        r.working_directory@ == config.build.working_directory@,
        r.timeout_seconds == config.build.timeout_seconds,
        r.log_capture_max_bytes == config.build.log_capture_max_bytes,
{
}

/// A number given on the command line outweighs the configured one, and nothing else does.
pub open spec fn outweighs(asked: Option<usize>, configured: usize, used: usize) -> bool {
    match asked {
        Some(n) => used == n,
        None => used == configured,
    }
}

/// Whether the numbers of a check are within their bounds.
pub open spec fn is_bounded(o: CheckOptions) -> bool {
    &&& 2 <= o.control_runs <= 32
    &&& 1 <= o.intervention_runs <= 32
    &&& o.confirmation_runs <= 1
    &&& 3 <= o.stochastic_runs <= 1024
    &&& 0 < o.stochastic_alpha_bits < 0x3ff0_0000_0000_0000
    &&& 2 <= o.interaction_runs <= 32
    &&& 2 <= o.max_interaction_variables <= 32
}

/// The options of a check come from the command line or else from the configuration, and are accepted
/// exactly within their bounds.
pub proof fn law_check_options_come_from_the_command_line_first(
    args: &CheckArgs,
    config: &Config,
    r: Result<CheckOptions, String>,
)
    requires
        call_ensures(check_options, (args, config), r),
    ensures
        match r {
            Ok(o) => {
                let e = config.experiments;
                &&& outweighs(args.control_runs, e.control_runs, o.control_runs)
                &&& outweighs(args.intervention_runs, e.intervention_runs, o.intervention_runs)
                &&& outweighs(args.confirmation_runs, e.confirmation_runs, o.confirmation_runs)
                &&& o.stochastic_runs == e.stochastic_runs
                &&& o.stochastic_alpha_bits == e.stochastic_alpha_bits
                &&& o.interaction_runs == e.interaction_runs
                &&& o.max_interaction_variables == e.max_interaction_variables
                &&& is_bounded(o)
            },
            Err(_) => forall|o: CheckOptions|
                #![trigger is_bounded(o)]
                outweighs(
                    args.control_runs,
                    config.experiments.control_runs,
                    o.control_runs,
                ) && outweighs(
                    args.intervention_runs,
                    config.experiments.intervention_runs,
                    o.intervention_runs,
                ) && outweighs(
                    args.confirmation_runs,
                    config.experiments.confirmation_runs,
                    o.confirmation_runs,
                ) && o.stochastic_runs == config.experiments.stochastic_runs
                    && o.stochastic_alpha_bits == config.experiments.stochastic_alpha_bits
                    && o.interaction_runs == config.experiments.interaction_runs
                    && o.max_interaction_variables == config.experiments.max_interaction_variables
                    ==> !is_bounded(o),
        },
{
}

/// A fix checks with the options of a check, and verifies exactly if asked to.
pub proof fn law_fix_options_are_those_of_a_check(
    args: &FixArgs,
    config: &Config,
    r: Result<FixOptions, String>,
)
    requires
        call_ensures(fix_options, (args, config), r),
        r is Ok,
    ensures
        r->Ok_0.verify == args.verify,
        outweighs(
            args.control_runs,
            config.experiments.control_runs,
            r->Ok_0.check.control_runs,
        ),
        outweighs(
            args.intervention_runs,
            config.experiments.intervention_runs,
            r->Ok_0.check.intervention_runs,
        ),
        outweighs(
            args.confirmation_runs,
            config.experiments.confirmation_runs,
            r->Ok_0.check.confirmation_runs,
        ),
        is_bounded(r->Ok_0.check),
{
}

/// The options of a comparison come from the command line or else from the configuration.
pub proof fn law_compare_options_come_from_the_command_line_first(
    args: &CompareArgs,
    config: &Config,
    r: CompareOptions,
)
    requires
        call_ensures(compare_options, (args, config), r),
    ensures
        outweighs(args.runs, config.experiments.comparison_runs, r.endpoint_runs),
        outweighs(args.subset_runs, config.experiments.comparison_subset_runs, r.subset_runs),
        outweighs(args.confirmation_runs, config.experiments.confirmation_runs, r.confirmation_runs),
{
}

/// A command ends with zero exactly if it found nothing to act on: a reproducible project, equivalent
/// environments, a project that is ready, or a fix that is not needed or was found.
pub proof fn law_exit_codes_are_zero_on_success_alone(
    check: CheckStatus,
    check_code: i32,
    compare: EnvironmentComparisonStatus,
    compare_code: i32,
    doctor: &DoctorReport,
    doctor_code: i32,
    fix: &FixReport,
    verify: bool,
    fix_code: i32,
)
    requires
        call_ensures(check_exit_code, (check,), check_code),
        call_ensures(compare_exit_code, (compare,), compare_code),
        call_ensures(doctor_exit_code, (doctor,), doctor_code),
        call_ensures(fix_exit_code, (fix, verify), fix_code),
    ensures
        check_code == 0 <==> check == CheckStatus::Reproducible,
        check_code == 0 || check_code == 1,
        compare_code == 0 <==> compare == EnvironmentComparisonStatus::Equivalent,
        compare_code == 0 || compare_code == 1,
        doctor_code == 0 <==> doctor.ready,
        doctor_code == 0 || doctor_code == 1,
        fix_code == 0 <==> fix.diagnosis.status == CheckStatus::Reproducible || (if verify {
            exists|i: int|
                0 <= i < fix.verifications@.len() && (#[trigger] fix.verifications@[i]).verified
        } else {
            fix.candidates@.len() > 0
        }),
        fix_code == 0 || fix_code == 1,
{
}

} // verus!
