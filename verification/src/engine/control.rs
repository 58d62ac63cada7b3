//! The decisions of a check: which builds to run under an intervention, what their outcomes mean
//! and what the report says.
use vstd::prelude::*;

use crate::artifact::generic::{compare_runs, comparisons_of};
use crate::config::Config;
use crate::engine::ddmin::{clones_look_equal, DdminOutcome};
use crate::engine::deltas::{artifact_deltas, build_artifact_deltas};
use crate::engine::diagnosis::{all_diagnoses, classification_text, show_classification};
use crate::engine::diagnosis::synthesize_diagnoses;
use crate::engine::interventions::{
    eligible_for_interaction_search, is_eligible, PlannedIntervention, PlannedInterventionView,
};
use crate::engine::outcomes::{
    all_depart, all_outcomes, build_failure_is_observable, build_outcome_count,
    build_outcomes_stable, count_departures, departures, distinct_artifact_outcomes,
    every_run_departs, failure_shows, one_effect, outcome_count, outcomes_agree,
    same_artifact_hashes, same_hashes, shows_one_effect, some_departs,
};
use crate::engine::statistics::{assess_stochastic_effect, classification_of};
use crate::model::{
    ArtifactComparison, ArtifactComparisonView, ArtifactDelta, ArtifactDeltaView, BuildFailure,
    BuildRun, BuildSpec, BuildSpecView, CheckReport, CheckStatus, ControlledEnvironment, Diagnosis,
    DiagnosisView,
    InteractionSearchResult, InterventionKind, InterventionResult, SourceProvenance,
    StochasticEffectClassification, StochasticEffectEvidence, StochasticFigures,
};
use crate::numbers::{decimal, decimal_of};
use crate::schema::CHECK_REPORT_SCHEMA_CURRENT;
use crate::text::{concat, concat3, concat5, push_line};

verus! {

/// How many builds each part of a check runs.
#[derive(Debug, Clone, Copy, PartialEq)]
pub struct CheckOptions {
    pub control_runs: usize,
    pub intervention_runs: usize,
    pub confirmation_runs: usize,
    pub stochastic_runs: usize,
    /// The significance level, as the bits of a double-precision number.
    pub stochastic_alpha_bits: u64,
    pub interaction_runs: usize,
    pub max_interaction_variables: usize,
}

/// What a configuration says of the build.
pub open spec fn config_spec(config: Config) -> BuildSpecView {
    BuildSpecView {
        image: config.build.image@,
        command: config.build.command.deep_view(),
        outputs: config.build.outputs.deep_view(),
        environment: config.build.env.deep_view(),
        working_directory: config.build.working_directory@,
        timeout_seconds: config.build.timeout_seconds,
        log_capture_max_bytes: config.build.log_capture_max_bytes,
    }
}

pub fn build_spec(config: &Config) -> (r: BuildSpec)
    ensures
        r.deep_view() == config_spec(*config),
{
    let command = config.build.command.clone();
    let outputs = config.build.outputs.clone();
    assert(command.deep_view() =~= config.build.command.deep_view());
    assert(outputs.deep_view() =~= config.build.outputs.deep_view());
    BuildSpec {
        image: config.build.image.clone(),
        command,
        outputs,
        environment: config.build.env.clone(),
        working_directory: config.build.working_directory.clone(),
        timeout_seconds: config.build.timeout_seconds,
        log_capture_max_bytes: config.build.log_capture_max_bytes,
    }
}

pub open spec fn larger(a: usize, b: usize) -> usize {
    if a < b {
        b
    } else {
        a
    }
}

/// How many varied builds an intervention of this kind gets. A build that may fail is tried at
/// least twice.
pub open spec fn trial_count(kind: InterventionKind, options: CheckOptions) -> usize {
    match kind {
        InterventionKind::CpuCount => larger(options.stochastic_runs, options.intervention_runs),
        InterventionKind::NetworkAccess
        | InterventionKind::ToolchainExecutable
        | InterventionKind::DependencyFile => larger(options.intervention_runs, 2),
        _ => options.intervention_runs,
    }
}

pub fn count_trials(kind: InterventionKind, options: &CheckOptions) -> (r: usize)
    ensures
        r == trial_count(kind, *options),
{
    match kind {
        InterventionKind::CpuCount => if options.stochastic_runs < options.intervention_runs {
            options.intervention_runs
        } else {
            options.stochastic_runs
        },
        InterventionKind::NetworkAccess
        | InterventionKind::ToolchainExecutable
        | InterventionKind::DependencyFile => if options.intervention_runs < 2 {
            2
        } else {
            options.intervention_runs
        },
        _ => options.intervention_runs,
    }
}

/// The build that the trials of an intervention need next.
#[derive(Debug, Clone, Copy, PartialEq, Eq, Structural)]
pub enum TrialStep {
    /// A build of the baseline, matched to the variant that follows.
    RunReference,
    /// A varied build that must succeed.
    RunVariant,
    /// A varied build whose failure is an outcome too.
    AttemptVariant,
    /// A build of the baseline after an effect.
    RunReversion,
    Finish,
}

/// What became of a build.
pub enum TrialEvent {
    Completed(BuildRun),
    /// The build command failed.
    BuildFailed(BuildFailure),
    /// There was no build to speak of, for this reason.
    Broke(String),
}

/// The trials of one intervention.
pub struct InterventionTrials {
    pub planned: PlannedIntervention,
    pub run_count: usize,
    pub confirm: bool,
    /// The number of the next build.
    pub ordinal: usize,
    pub step: TrialStep,
    pub runs: Vec<BuildRun>,
    pub reference_runs: Vec<BuildRun>,
    pub build_failures: Vec<BuildFailure>,
    pub reverted_to_baseline: Option<bool>,
    pub confirmation_run: Option<BuildRun>,
    pub error: Option<String>,
}

#[verifier::ext_equal]
pub struct TrialsView {
    pub planned: PlannedIntervention,
    pub run_count: nat,
    pub confirm: bool,
    pub ordinal: int,
    pub step: TrialStep,
    pub runs: Seq<BuildRun>,
    pub references: Seq<BuildRun>,
    pub failures: Seq<BuildFailure>,
    pub reverted: Option<bool>,
    pub confirmation: Option<BuildRun>,
    pub error: Option<Seq<char>>,
}

impl View for InterventionTrials {
    type V = TrialsView;

    open spec fn view(&self) -> TrialsView {
        TrialsView {
            planned: self.planned,
            run_count: self.run_count as nat,
            confirm: self.confirm,
            ordinal: self.ordinal as int,
            step: self.step,
            runs: self.runs@,
            references: self.reference_runs@,
            failures: self.build_failures@,
            reverted: self.reverted_to_baseline,
            confirmation: self.confirmation_run,
            error: self.error.deep_view(),
        }
    }
}

impl TrialsView {
    /// The kind of the intervention that is tried.
    pub open spec fn kind(self) -> InterventionKind {
        self.planned.intervention.kind
    }
}

/// The first build of a trial.
pub open spec fn first_step(kind: InterventionKind) -> TrialStep {
    if kind is CpuCount {
        TrialStep::RunReference
    } else if failure_shows(kind) {
        TrialStep::AttemptVariant
    } else {
        TrialStep::RunVariant
    }
}

/// Whether the trials had an effect: changed bytes or a telling failure.
pub open spec fn has_effect(t: TrialsView, baseline: BuildRun) -> bool {
    some_departs(baseline, t.runs) || (failure_shows(t.kind()) && t.failures.len() > 0)
}

/// What follows the last trial: the way back to the baseline, if there was an effect and it is
/// wanted.
pub open spec fn closing_step(t: TrialsView, baseline: BuildRun) -> TrialStep {
    if t.confirm && has_effect(t, baseline) {
        TrialStep::RunReversion
    } else {
        TrialStep::Finish
    }
}

/// What follows a trial that was completed.
pub open spec fn following_step(t: TrialsView, baseline: BuildRun) -> TrialStep {
    if t.runs.len() + t.failures.len() < t.run_count {
        first_step(t.kind())
    } else {
        closing_step(t, baseline)
    }
}

/// What a broken build is reported as.
pub open spec fn broken_text(t: TrialsView, message: Seq<char>) -> Seq<char> {
    match t.step {
        TrialStep::RunReference => "matched stochastic baseline build failed: "@ + message,
        TrialStep::AttemptVariant => "intervention infrastructure failed: "@ + message,
        TrialStep::RunReversion => match t.error {
            Some(existing) => existing + "; "@ + ("baseline reversion build failed: "@ + message),
            None => "baseline reversion build failed: "@ + message,
        },
        _ => if t.kind() is CpuCount {
            "stochastic intervention build failed: "@ + message
        } else {
            "intervention build failed: "@ + message
        },
    }
}

/// The trials after the build that they asked for.
pub open spec fn after_event(t: TrialsView, baseline: BuildRun, event: TrialEvent) -> TrialsView {
    let next = TrialsView { ordinal: t.ordinal + 1, ..t };
    match event {
        TrialEvent::Broke(message) => {
            let broken = TrialsView { error: Some(broken_text(t, message@)), ..next };
            if t.step is RunReversion {
                TrialsView { step: TrialStep::Finish, ..broken }
            } else {
                TrialsView { step: closing_step(broken, baseline), ..broken }
            }
        },
        TrialEvent::BuildFailed(failure) => {
            let done = TrialsView { failures: t.failures.push(failure), ..next };
            TrialsView { step: following_step(done, baseline), ..done }
        },
        TrialEvent::Completed(run) => match t.step {
            TrialStep::RunReference => TrialsView {
                references: t.references.push(run),
                step: TrialStep::RunVariant,
                ..next
            },
            TrialStep::RunReversion => TrialsView {
                reverted: Some(same_hashes(baseline.artifacts@, run.artifacts@)),
                confirmation: Some(run),
                step: TrialStep::Finish,
                ..next
            },
            _ => {
                let done = TrialsView { runs: t.runs.push(run), ..next };
                TrialsView { step: following_step(done, baseline), ..done }
            },
        },
    }
}

/// What holds of trials at every step.
pub open spec fn is_sound(t: TrialsView) -> bool {
    &&& t.runs.len() + t.failures.len() <= t.run_count
    &&& t.references.len() <= t.run_count
    &&& t.failures.len() > 0 ==> failure_shows(t.kind())
    &&& t.references.len() > 0 ==> t.kind() is CpuCount
    &&& t.kind() is CpuCount ==> t.runs.len() <= t.references.len() <= t.runs.len() + 1
    &&& match t.step {
        TrialStep::RunReference => t.kind() is CpuCount && t.runs.len() == t.references.len()
            && t.runs.len() < t.run_count && t.error is None,
        TrialStep::RunVariant => t.runs.len() < t.run_count && t.error is None && !failure_shows(
            t.kind(),
        ) && (t.kind() is CpuCount ==> t.references.len() == t.runs.len() + 1),
        TrialStep::AttemptVariant => failure_shows(t.kind()) && t.runs.len() + t.failures.len()
            < t.run_count && t.error is None,
        TrialStep::RunReversion => true,
        TrialStep::Finish => true,
    }
    &&& !(t.step is Finish) ==> t.reverted is None && t.confirmation is None
    &&& (t.step is RunReversion || t.step is Finish) && t.error is None ==> t.runs.len()
        + t.failures.len() == t.run_count && (t.kind() is CpuCount ==> t.references.len()
        == t.run_count)
}

/// Whether what became of a build is an answer to the step that asked for it: only an attempt can
/// end in a failed build.
pub open spec fn answers(step: TrialStep, event: TrialEvent) -> bool {
    !(step is Finish) && (event is BuildFailed ==> step is AttemptVariant)
}

/// The trials of an intervention before the first build.
pub open spec fn fresh_trials(
    planned: PlannedIntervention,
    options: CheckOptions,
    ordinal: int,
) -> TrialsView {
    let kind = planned.intervention.kind;
    TrialsView {
        planned,
        run_count: trial_count(kind, options) as nat,
        confirm: options.confirmation_runs == 1,
        ordinal,
        step: if trial_count(kind, options) > 0 {
            first_step(kind)
        } else {
            TrialStep::Finish
        },
        runs: Seq::empty(),
        references: Seq::empty(),
        failures: Seq::empty(),
        reverted: None,
        confirmation: None,
        error: None,
    }
}

pub fn start_trials(planned: PlannedIntervention, options: &CheckOptions, ordinal: usize) -> (r:
    InterventionTrials)
    ensures
        r@ == fresh_trials(planned, *options, ordinal as int),
        is_sound(r@),
{
    let kind = planned.intervention.kind;
    let run_count: usize = count_trials(kind, options);
    let step = if run_count == 0 {
        TrialStep::Finish
    } else if kind == InterventionKind::CpuCount {
        TrialStep::RunReference
    } else if build_failure_is_observable(kind) {
        TrialStep::AttemptVariant
    } else {
        TrialStep::RunVariant
    };
    InterventionTrials {
        planned,
        run_count,
        confirm: options.confirmation_runs == 1,
        ordinal,
        step,
        runs: Vec::new(),
        reference_runs: Vec::new(),
        build_failures: Vec::new(),
        reverted_to_baseline: None,
        confirmation_run: None,
        error: None,
    }
}

impl InterventionTrials {
    fn choose_closing_step(&self, baseline: &BuildRun) -> (r: TrialStep)
        ensures
            r == closing_step(self@, *baseline),
    {
        if self.confirm && (count_departures(baseline, &self.runs) > 0 || (
        build_failure_is_observable(self.planned.intervention.kind) && self.build_failures.len()
            > 0)) {
            TrialStep::RunReversion
        } else {
            TrialStep::Finish
        }
    }

    fn choose_following_step(&self, baseline: &BuildRun) -> (r: TrialStep)
        requires
            self.runs@.len() + self.build_failures@.len() <= self.run_count,
        ensures
            r == following_step(self@, *baseline),
    {
        let kind = self.planned.intervention.kind;
        if self.runs.len() + self.build_failures.len() < self.run_count {
            if kind == InterventionKind::CpuCount {
                TrialStep::RunReference
            } else if build_failure_is_observable(kind) {
                TrialStep::AttemptVariant
            } else {
                TrialStep::RunVariant
            }
        } else {
            self.choose_closing_step(baseline)
        }
    }

    fn describe_break(&self, message: &str) -> (r: String)
        ensures
            r@ == broken_text(self@, message@),
    {
        match self.step {
            TrialStep::RunReference => concat(
                "matched stochastic baseline build failed: ",
                message,
            ),
            TrialStep::AttemptVariant => concat("intervention infrastructure failed: ", message),
            TrialStep::RunReversion => {
                let own = concat("baseline reversion build failed: ", message);
                match &self.error {
                    Some(existing) => concat3(existing.as_str(), "; ", own.as_str()),
                    None => own,
                }
            },
            _ => if self.planned.intervention.kind == InterventionKind::CpuCount {
                concat("stochastic intervention build failed: ", message)
            } else {
                concat("intervention build failed: ", message)
            },
        }
    }

    /// Takes in what became of the build that was asked for.
    pub fn record(&mut self, baseline: &BuildRun, event: TrialEvent)
        requires
            is_sound(old(self)@),
            answers(old(self).step, event),
            old(self).ordinal < usize::MAX,
        ensures
            final(self)@ == after_event(old(self)@, *baseline, event),
            is_sound(final(self)@),
    {
        let ghost before = self@;
        match event {
            TrialEvent::Broke(message) => {
                let text = self.describe_break(message.as_str());
                self.error = Some(text);
                self.ordinal = self.ordinal + 1;
                self.step = if self.step == TrialStep::RunReversion {
                    TrialStep::Finish
                } else {
                    self.choose_closing_step(baseline)
                };
            },
            TrialEvent::BuildFailed(failure) => {
                self.build_failures.push(failure);
                self.ordinal = self.ordinal + 1;
                self.step = self.choose_following_step(baseline);
            },
            TrialEvent::Completed(run) => {
                self.ordinal = self.ordinal + 1;
                match self.step {
                    TrialStep::RunReference => {
                        self.reference_runs.push(run);
                        self.step = TrialStep::RunVariant;
                    },
                    TrialStep::RunReversion => {
                        self.reverted_to_baseline = Some(same_artifact_hashes(baseline, &run));
                        self.confirmation_run = Some(run);
                        self.step = TrialStep::Finish;
                    },
                    _ => {
                        self.runs.push(run);
                        self.step = self.choose_following_step(baseline);
                    },
                }
            },
        }
        proof {
            lemma_sound_after(before, *baseline, event);
        }
    }

    /// How many references and how many variants depart from the baseline, where all matched
    /// trials were run: what a statistical test of the effect needs.
    pub fn matched_departures(&self, baseline: &BuildRun) -> (r: Option<(usize, usize)>)
        ensures
            match r {
                Some(counts) => is_matched(self@) && counts.0 == departures(
                    *baseline,
                    self.reference_runs@,
                    self.reference_runs@.len() as int,
                ) && counts.1 == departures(*baseline, self.runs@, self.runs@.len() as int),
                None => !is_matched(self@),
            },
    {
        if self.planned.intervention.kind == InterventionKind::CpuCount && self.runs.len()
            == self.run_count && self.reference_runs.len() == self.run_count {
            Some(
                (
                    count_departures(baseline, &self.reference_runs),
                    count_departures(baseline, &self.runs),
                ),
            )
        } else {
            None
        }
    }

    /// The result of the trials. `within_alpha` and `figures` are what a statistical test said of
    /// the matched departures, where there are any.
    pub fn finish(self, baseline: &BuildRun, within_alpha: bool, figures: StochasticFigures) -> (r:
        InterventionResult)
        requires
            is_sound(self@),
            self.step is Finish,
        ensures
            is_result(r, self, *baseline, within_alpha, figures),
    {
        let kind = self.planned.intervention.kind;
        let artifact_deltas = if self.runs.len() == 0 {
            let none: Vec<ArtifactDelta> = Vec::new();
            assert(none.deep_view() =~= Seq::<ArtifactDeltaView>::empty());
            none
        } else {
            build_artifact_deltas(baseline, &self.runs, Some(&self.planned.intervention))
        };
        let changed = count_departures(baseline, &self.runs) > 0;
        let observable = build_failure_is_observable(kind);
        let distinct_variant_outcomes: usize = if observable {
            build_outcome_count(&self.runs, &self.build_failures)
        } else {
            distinct_artifact_outcomes(&self.runs)
        };
        let variant_stable = if observable {
            if self.runs.len() == 0 && self.build_failures.len() == 0 {
                None
            } else {
                Some(build_outcomes_stable(&self.runs, &self.build_failures))
            }
        } else if self.runs.len() == 0 {
            None
        } else {
            Some(distinct_variant_outcomes == 1)
        };
        let stochastic_effect = match self.matched_departures(baseline) {
            Some(counts) => Some(
                assess_stochastic_effect(
                    counts.0,
                    self.reference_runs.len(),
                    counts.1,
                    self.runs.len(),
                    within_alpha,
                    figures,
                ),
            ),
            None => None,
        };
        InterventionResult {
            intervention: self.planned.intervention,
            runs: self.runs,
            reference_runs: self.reference_runs,
            build_failures: self.build_failures,
            artifact_deltas,
            changed,
            variant_stable,
            distinct_variant_outcomes,
            stochastic_effect,
            reverted_to_baseline: self.reverted_to_baseline,
            confirmation_run: self.confirmation_run,
            error: self.error,
        }
    }
}

/// Whether all matched trials of the number of processors were run.
pub open spec fn is_matched(t: TrialsView) -> bool {
    t.kind() is CpuCount && t.runs.len() == t.run_count && t.references.len() == t.run_count
}

/// What the variants of an experiment say of each other, if there are any.
pub open spec fn stability_of(t: TrialsView) -> Option<bool> {
    if failure_shows(t.kind()) {
        if t.runs.len() == 0 && t.failures.len() == 0 {
            None
        } else {
            Some(outcomes_agree(t.runs, t.failures))
        }
    } else if t.runs.len() == 0 {
        None
    } else {
        Some(outcome_count(t.runs) == 1)
    }
}

/// Whether `r` is the result of finished trials.
pub open spec fn is_result(
    r: InterventionResult,
    trials: InterventionTrials,
    baseline: BuildRun,
    within_alpha: bool,
    figures: StochasticFigures,
) -> bool {
    let t = trials@;
    &&& r.intervention == trials.planned.intervention
    &&& r.runs == trials.runs
    &&& r.reference_runs == trials.reference_runs
    &&& r.build_failures == trials.build_failures
    &&& r.reverted_to_baseline == trials.reverted_to_baseline
    &&& r.confirmation_run == trials.confirmation_run
    &&& r.error == trials.error
    &&& r.artifact_deltas.deep_view() == if t.runs.len() == 0 {
        Seq::empty()
    } else {
        artifact_deltas(baseline, t.runs, Some(trials.planned.intervention.deep_view()))
    }
    &&& r.changed == some_departs(baseline, t.runs)
    &&& r.distinct_variant_outcomes == if failure_shows(t.kind()) {
        all_outcomes(t.runs, t.failures)
    } else {
        outcome_count(t.runs)
    }
    &&& r.variant_stable == stability_of(t)
    &&& match r.stochastic_effect {
        Some(e) => is_matched(t) && is_assessment(e, t, baseline, within_alpha, figures),
        None => !is_matched(t),
    }
}

pub open spec fn is_assessment(
    e: StochasticEffectEvidence,
    t: TrialsView,
    baseline: BuildRun,
    within_alpha: bool,
    figures: StochasticFigures,
) -> bool {
    &&& e.baseline_trials == t.references.len()
    &&& e.variant_trials == t.runs.len()
    &&& e.baseline_changed_trials == departures(
        baseline,
        t.references,
        t.references.len() as int,
    )
    &&& e.variant_changed_trials == departures(baseline, t.runs, t.runs.len() as int)
    &&& e.figures == figures
    &&& e.classification == classification_of(
        departures(baseline, t.references, t.references.len() as int),
        departures(baseline, t.runs, t.runs.len() as int),
        t.runs.len() as int,
        within_alpha,
    )
}

proof fn lemma_sound_after(t: TrialsView, baseline: BuildRun, event: TrialEvent)
    requires
        is_sound(t),
        answers(t.step, event),
    ensures
        is_sound(after_event(t, baseline, event)),
{
}

/// How many builds trials can still ask for.
pub open spec fn builds_left(t: TrialsView) -> int {
    let trials = t.run_count - t.runs.len() - t.failures.len();
    match t.step {
        TrialStep::RunReference => 2 * trials + 1,
        TrialStep::RunVariant => if t.kind() is CpuCount {
            2 * trials
        } else {
            trials + 1
        },
        TrialStep::AttemptVariant => trials + 1,
        TrialStep::RunReversion => 1,
        TrialStep::Finish => 0,
    }
}

/// Every build brings the trials of an intervention nearer to their end and takes one number.
pub proof fn law_every_build_brings_the_end_nearer(
    t: TrialsView,
    baseline: BuildRun,
    event: TrialEvent,
)
    requires
        is_sound(t),
        answers(t.step, event),
    ensures
        0 <= builds_left(after_event(t, baseline, event)) < builds_left(t),
        after_event(t, baseline, event).ordinal == t.ordinal + 1,
        is_sound(after_event(t, baseline, event)),
{
}

/// Trials that end without an error were all run: as many as the options ask for, with a matched
/// reference for each where the number of processors is tested.
pub proof fn law_finished_trials_are_complete(t: TrialsView)
    requires
        is_sound(t),
        t.step is Finish,
        t.error is None,
    ensures
        t.runs.len() + t.failures.len() == t.run_count,
        t.kind() is CpuCount ==> t.references.len() == t.run_count,
{
}

/// What a check concludes. Changed bytes outweigh everything else, and nothing that could not be
/// completed counts as reproducible.
pub open spec fn status_of(
    effect: bool,
    outcome_dependency: bool,
    failed: int,
    search_failed: bool,
) -> CheckStatus {
    if effect {
        CheckStatus::NonReproducible
    } else if outcome_dependency || failed > 0 || search_failed {
        CheckStatus::Inconclusive
    } else {
        CheckStatus::Reproducible
    }
}

pub fn classify_status(
    artifact_effect_observed: bool,
    build_outcome_dependency: bool,
    failed_interventions: usize,
    interaction_failed: bool,
) -> (r: CheckStatus)
    ensures
        r == status_of(
            artifact_effect_observed,
            build_outcome_dependency,
            failed_interventions as int,
            interaction_failed,
        ),
{
    if artifact_effect_observed {
        CheckStatus::NonReproducible
    } else if build_outcome_dependency || failed_interventions > 0 || interaction_failed {
        CheckStatus::Inconclusive
    } else {
        CheckStatus::Reproducible
    }
}

/// Whether all controls agree in all artifacts.
pub open spec fn is_stable(comparisons: Seq<ArtifactComparisonView>) -> bool {
    forall|i: int| 0 <= i < comparisons.len() ==> (#[trigger] comparisons[i]).equal_across_runs
}

pub fn controls_stable(comparisons: &Vec<ArtifactComparison>) -> (r: bool)
    ensures
        r == is_stable(comparisons.deep_view()),
{
    let ghost view = comparisons.deep_view();
    let mut i: usize = 0;
    while i < comparisons.len()
        invariant
            view == comparisons.deep_view(),
            i <= comparisons@.len(),
            forall|k: int| 0 <= k < i ==> (#[trigger] view[k]).equal_across_runs,
        decreases comparisons.len() - i,
    {
        assert(view[i as int] == comparisons@[i as int].deep_view());
        if !comparisons[i].equal_across_runs {
            assert(!view[i as int].equal_across_runs);
            return false;
        }
        i += 1;
    }
    true
}

/// Whether some experiment changed bytes.
pub open spec fn any_changed(results: Seq<InterventionResult>) -> bool {
    exists|i: int| 0 <= i < results.len() && (#[trigger] results[i]).changed
}

pub open spec fn fails_tellingly(result: InterventionResult) -> bool {
    failure_shows(result.intervention.kind) && result.build_failures@.len() > 0
}

/// Whether the success of the build depends on some intervention.
pub open spec fn any_outcome_dependency(results: Seq<InterventionResult>) -> bool {
    exists|i: int| 0 <= i < results.len() && fails_tellingly(#[trigger] results[i])
}

pub open spec fn found_unstable(result: InterventionResult) -> bool {
    match result.stochastic_effect {
        Some(e) => e.classification is BaselineUnstable,
        None => false,
    }
}

/// Whether matched trials found the baseline unstable after all.
pub open spec fn late_instability(results: Seq<InterventionResult>) -> bool {
    exists|i: int| 0 <= i < results.len() && found_unstable(#[trigger] results[i])
}

/// How many of the first `n` experiments could not be completed.
pub open spec fn failed_count(results: Seq<InterventionResult>, n: int) -> int
    decreases n,
{
    if n <= 0 {
        0
    } else {
        failed_count(results, n - 1) + if results[n - 1].error is Some {
            1int
        } else {
            0
        }
    }
}

fn find_changed(results: &Vec<InterventionResult>) -> (r: bool)
    ensures
        r == any_changed(results@),
{
    let mut i: usize = 0;
    while i < results.len()
        invariant
            i <= results@.len(),
            forall|k: int| 0 <= k < i ==> !(#[trigger] results@[k]).changed,
        decreases results.len() - i,
    {
        if results[i].changed {
            assert(results@[i as int].changed);
            return true;
        }
        i += 1;
    }
    false
}

fn find_outcome_dependency(results: &Vec<InterventionResult>) -> (r: bool)
    ensures
        r == any_outcome_dependency(results@),
{
    let mut i: usize = 0;
    while i < results.len()
        invariant
            i <= results@.len(),
            forall|k: int| 0 <= k < i ==> !fails_tellingly(#[trigger] results@[k]),
        decreases results.len() - i,
    {
        if build_failure_is_observable(results[i].intervention.kind)
            && results[i].build_failures.len() > 0 {
            assert(fails_tellingly(results@[i as int]));
            return true;
        }
        i += 1;
    }
    false
}

pub fn late_baseline_instability(results: &Vec<InterventionResult>) -> (r: bool)
    ensures
        r == late_instability(results@),
{
    let mut i: usize = 0;
    while i < results.len()
        invariant
            i <= results@.len(),
            forall|k: int| 0 <= k < i ==> !found_unstable(#[trigger] results@[k]),
        decreases results.len() - i,
    {
        if let Some(e) = &results[i].stochastic_effect {
            if e.classification == StochasticEffectClassification::BaselineUnstable {
                assert(found_unstable(results@[i as int]));
                return true;
            }
        }
        i += 1;
    }
    false
}

fn count_failed(results: &Vec<InterventionResult>) -> (r: usize)
    ensures
        r == failed_count(results@, results@.len() as int),
        r <= results@.len(),
{
    let mut count: usize = 0;
    let mut n: usize = 0;
    while n < results.len()
        invariant
            n <= results@.len(),
            count <= n,
            count == failed_count(results@, n as int),
        decreases results.len() - n,
    {
        if results[n].error.is_some() {
            count += 1;
        }
        n += 1;
    }
    count
}

/// Those of the first `n` interventions that may be combined: deterministic, completed and without
/// an effect of their own.
pub open spec fn candidates_of(
    planned: Seq<PlannedInterventionView>,
    results: Seq<InterventionResult>,
    n: int,
) -> Seq<PlannedInterventionView>
    decreases n,
{
    if n <= 0 {
        Seq::empty()
    } else if is_eligible(planned[n - 1].intervention.kind) && !results[n - 1].changed
        && results[n - 1].error is None {
        candidates_of(planned, results, n - 1).push(planned[n - 1])
    } else {
        candidates_of(planned, results, n - 1)
    }
}

pub open spec fn shorter(a: nat, b: nat) -> int {
    if a <= b {
        a as int
    } else {
        b as int
    }
}

pub fn eligible_candidates(
    planned: &Vec<PlannedIntervention>,
    results: &Vec<InterventionResult>,
) -> (r: Vec<PlannedIntervention>)
    ensures
        r.deep_view() == candidates_of(
            planned.deep_view(),
            results@,
            shorter(planned@.len(), results@.len()),
        ),
{
    let mut candidates: Vec<PlannedIntervention> = Vec::new();
    let mut n: usize = 0;
    assert(candidates.deep_view() =~= Seq::<PlannedInterventionView>::empty());
    while n < planned.len() && n < results.len()
        invariant
            n <= planned@.len(),
            n <= results@.len(),
            candidates.deep_view() == candidates_of(planned.deep_view(), results@, n as int),
        decreases planned.len() - n,
    {
        assert(planned.deep_view()[n as int] == planned@[n as int].deep_view());
        if eligible_for_interaction_search(&planned[n]) && !results[n].changed
            && results[n].error.is_none() {
            let ghost had = candidates.deep_view();
            let candidate = planned[n].clone();
            let ghost view = candidate.deep_view();
            candidates.push(candidate);
            assert(candidates.deep_view() =~= had.push(view));
        }
        n += 1;
    }
    candidates
}

/// Interactions are searched among interventions that were completed and had no effect of their own.
pub proof fn law_interaction_candidates_were_inert(
    planned: Seq<PlannedInterventionView>,
    results: Seq<InterventionResult>,
    n: int,
    i: int,
)
    requires
        0 <= n <= planned.len(),
        n <= results.len(),
        0 <= i < candidates_of(planned, results, n).len(),
    ensures
        exists|k: int|
            0 <= k < n && #[trigger] planned[k] == candidates_of(planned, results, n)[i]
                && !results[k].changed && results[k].error is None && is_eligible(
                planned[k].intervention.kind,
            ),
    decreases n,
{
    let rest = candidates_of(planned, results, n - 1);
    if i < rest.len() {
        law_interaction_candidates_were_inert(planned, results, n - 1, i);
    } else {
        assert(planned[n - 1] == candidates_of(planned, results, n)[i]);
    }
}

/// What to do about interactions.
#[derive(Debug, Clone, Copy, PartialEq, Eq, Structural)]
pub enum InteractionDecision {
    Omit,
    /// There are more candidates than may be searched.
    Skip,
    Search,
}

pub open spec fn interaction_decision(
    unstable: bool,
    wanted: bool,
    candidates: int,
    most: int,
) -> InteractionDecision {
    if unstable || !wanted || candidates < 2 {
        InteractionDecision::Omit
    } else if candidates <= most {
        InteractionDecision::Search
    } else {
        InteractionDecision::Skip
    }
}

pub fn decide_interaction_search(
    results: &Vec<InterventionResult>,
    interaction_search: bool,
    candidates: usize,
    max_interaction_variables: usize,
) -> (r: InteractionDecision)
    ensures
        r == interaction_decision(
            late_instability(results@),
            interaction_search,
            candidates as int,
            max_interaction_variables as int,
        ),
{
    if late_baseline_instability(results) || !interaction_search || candidates < 2 {
        InteractionDecision::Omit
    } else if candidates <= max_interaction_variables {
        InteractionDecision::Search
    } else {
        InteractionDecision::Skip
    }
}

/// What came of the search for interactions.
pub enum InteractionOutcome {
    Omitted,
    /// Skipped, there being so many candidates and so many allowed.
    Skipped(usize, usize),
    Searched(InteractionSearchResult),
    Failed(String),
}

pub open spec fn search_of(outcome: InteractionOutcome) -> Option<InteractionSearchResult> {
    match outcome {
        InteractionOutcome::Searched(result) => Some(result),
        _ => None,
    }
}

/// Whether bytes changed under one intervention or under a combination of them.
pub open spec fn effect_found(
    results: Seq<InterventionResult>,
    search: Option<InteractionSearchResult>,
) -> bool {
    any_changed(results) || match search {
        Some(result) => result.changed,
        None => false,
    }
}

/// The status of a check whose controls were stable.
pub open spec fn check_status(
    results: Seq<InterventionResult>,
    outcome: InteractionOutcome,
) -> CheckStatus {
    if late_instability(results) {
        CheckStatus::UncontrolledNondeterminism
    } else {
        status_of(
            effect_found(results, search_of(outcome)),
            any_outcome_dependency(results),
            failed_count(results, results.len() as int),
            outcome is Failed,
        )
    }
}

pub open spec fn stable_space_text(n: usize) -> Seq<char> {
    "all declared artifacts and build-success outcomes were stable across controls and all "@
        + decimal_of(n as int)
        + " successful configured one-variable interventions"@
}

pub fn show_stable_space(n: usize) -> (r: String)
    ensures
        r@ == stable_space_text(n),
{
    concat3(
        "all declared artifacts and build-success outcomes were stable across controls and all ",
        decimal(n as u128).as_str(),
        " successful configured one-variable interventions",
    )
}

/// What the notes of a report begin with.
pub open spec fn leading_notes(
    results: Seq<InterventionResult>,
    outcome: InteractionOutcome,
) -> Seq<Seq<char>> {
    if late_instability(results) {
        seq![
            "matched baseline trials performed for a stochastic intervention contradicted the initial control-stability gate"@,
            "causal diagnoses and interaction minimization were suppressed because uncontrolled baseline nondeterminism was observed with additional repetition"@,
        ]
    } else if effect_found(results, search_of(outcome)) {
        seq![
            "the controlled baseline was stable, but at least one tested environmental perturbation changed declared artifact bytes"@,
            "diagnoses describe observed causal factors under the tested interventions, not universal root causes"@,
        ]
    } else if any_outcome_dependency(results) {
        seq![
            "the controlled baseline was stable, but at least one controlled input variant caused the build command to exit non-zero; this establishes build-outcome sensitivity under the tested intervention but does not by itself prove byte-level non-reproducibility"@,
            "reproducibility is inconclusive because no comparable variant artifact was produced for at least one causal trial"@,
        ]
    } else if check_status(results, outcome) is Inconclusive {
        seq![
            "the controlled baseline was stable, but at least one requested experiment could not be completed; reproducibility is therefore inconclusive"@,
        ]
    } else {
        seq![
            stable_space_text(
                (results.len() - failed_count(results, results.len() as int)) as usize,
            ),
        ]
    }
}

pub open spec fn failed_note_text(n: usize) -> Seq<char> {
    decimal_of(n as int)
        + " intervention(s) could not be completed and were excluded from positive reproducibility claims"@
}

pub fn show_failed_note(n: usize) -> (r: String)
    ensures
        r@ == failed_note_text(n),
{
    concat(
        decimal(n as u128).as_str(),
        " intervention(s) could not be completed and were excluded from positive reproducibility claims",
    )
}

pub open spec fn skipped_note_text(candidates: usize, most: usize) -> Seq<char> {
    "interaction search skipped: "@
        + decimal_of(candidates as int)
        + " eligible variables exceed experiments.max_interaction_variables="@
        + decimal_of(most as int)
}

pub fn show_skipped_note(candidates: usize, most: usize) -> (r: String)
    ensures
        r@ == skipped_note_text(candidates, most),
{
    let mut text = "interaction search skipped: ".to_owned();
    text.push_str(decimal(candidates as u128).as_str());
    text.push_str(" eligible variables exceed experiments.max_interaction_variables=");
    text.push_str(decimal(most as u128).as_str());
    text
}

pub open spec fn search_failed_note_text(message: Seq<char>) -> Seq<char> {
    "interaction search could not be completed and was excluded from positive reproducibility claims: "@
        + message
}

pub fn show_search_failed_note(message: &str) -> (r: String)
    ensures
        r@ == search_failed_note_text(message@),
{
    concat(
        "interaction search could not be completed and was excluded from positive reproducibility claims: ",
        message,
    )
}

pub open spec fn stochastic_note_text(
    variable: Seq<char>,
    e: StochasticEffectEvidence,
) -> Seq<char> {
    "stochastic "@
        + variable
        + " probe: baseline "@
        + decimal_of(e.baseline_changed_trials as int)
        + "/"@
        + decimal_of(e.baseline_trials as int)
        + " changed, variant "@
        + decimal_of(e.variant_changed_trials as int)
        + "/"@
        + decimal_of(e.variant_trials as int)
        + " changed, Fisher p="@
        + e.figures.fisher_exact_p_value@
        + " at alpha="@
        + e.figures.alpha@
        + " ("@
        + classification_text(e.classification)
        + ")"@
}

pub fn show_stochastic_note(variable: &str, e: &StochasticEffectEvidence) -> (r: String)
    ensures
        r@ == stochastic_note_text(variable@, *e),
{
    let mut text = "stochastic ".to_owned();
    text.push_str(variable);
    text.push_str(" probe: baseline ");
    text.push_str(decimal(e.baseline_changed_trials as u128).as_str());
    text.push_str("/");
    text.push_str(decimal(e.baseline_trials as u128).as_str());
    text.push_str(" changed, variant ");
    text.push_str(decimal(e.variant_changed_trials as u128).as_str());
    text.push_str("/");
    text.push_str(decimal(e.variant_trials as u128).as_str());
    text.push_str(" changed, Fisher p=");
    text.push_str(e.figures.fisher_exact_p_value.as_str());
    text.push_str(" at alpha=");
    text.push_str(e.figures.alpha.as_str());
    text.push_str(" (");
    text.push_str(show_classification(e.classification));
    text.push_str(")");
    text
}

pub open spec fn with_stochastic_note(lines: Seq<Seq<char>>, result: InterventionResult) -> Seq<Seq<char>> {
    match result.stochastic_effect {
        Some(e) => lines.push(stochastic_note_text(result.intervention.variable@, e)),
        None => lines,
    }
}

fn push_stochastic_note(lines: &mut Vec<String>, result: &InterventionResult)
    ensures
        final(lines).deep_view() == with_stochastic_note(old(lines).deep_view(), *result),
{
    if let Some(e) = &result.stochastic_effect {
        push_line(lines, show_stochastic_note(result.intervention.variable.as_str(), e));
    }
}

pub open spec fn with_stochastic_notes(
    lines: Seq<Seq<char>>,
    items: Seq<InterventionResult>,
    n: int,
) -> Seq<Seq<char>>
    decreases n,
{
    if n <= 0 {
        lines
    } else {
        with_stochastic_note(with_stochastic_notes(lines, items, n - 1), items[n - 1])
    }
}

pub fn push_stochastic_notes(lines: &mut Vec<String>, items: &Vec<InterventionResult>)
    ensures
        final(lines).deep_view() == with_stochastic_notes(
            old(lines).deep_view(),
            items@,
            items@.len() as int,
        ),
{
    let ghost start = lines.deep_view();
    let mut n: usize = 0;
    while n < items.len()
        invariant
            n <= items@.len(),
            lines.deep_view() == with_stochastic_notes(start, items@, n as int),
        decreases items.len() - n,
    {
        push_stochastic_note(lines, &items[n]);
        n += 1;
    }
}

pub open spec fn minimal_note_text(variables: usize, tests: usize) -> Seq<char> {
    "ddmin found a "@
        + decimal_of(variables as int)
        + "-variable minimal observed interaction after "@
        + decimal_of(tests as int)
        + " subset test(s)"@
}

pub fn show_minimal_note(variables: usize, tests: usize) -> (r: String)
    ensures
        r@ == minimal_note_text(variables, tests),
{
    concat5(
        "ddmin found a ",
        decimal(variables as u128).as_str(),
        "-variable minimal observed interaction after ",
        decimal(tests as u128).as_str(),
        " subset test(s)",
    )
}

pub open spec fn no_interaction_note_text(candidates: usize) -> Seq<char> {
    "the combined deterministic intervention set did not change artifact bytes; no interaction was minimized across "@
        + decimal_of(candidates as int)
        + " eligible variables"@
}

pub fn show_no_interaction_note(candidates: usize) -> (r: String)
    ensures
        r@ == no_interaction_note_text(candidates),
{
    concat3(
        "the combined deterministic intervention set did not change artifact bytes; no interaction was minimized across ",
        decimal(candidates as u128).as_str(),
        " eligible variables",
    )
}

/// What a search for interactions adds to the notes.
pub open spec fn with_search_note(lines: Seq<Seq<char>>, result: InteractionSearchResult) -> Seq<Seq<char>> {
    if !result.changed {
        lines.push(no_interaction_note_text(result.candidate_variables@.len() as usize))
    } else if result.stable_effect {
        lines.push(
            minimal_note_text(result.minimal_variables@.len() as usize, result.tested_subsets),
        )
    } else {
        lines.push(
            "the combined intervention produced inconsistent outcomes and was not promoted to a causal interaction diagnosis"@,
        )
    }
}

/// The notes of a report on a check whose controls were stable.
pub open spec fn check_notes(
    results: Seq<InterventionResult>,
    outcome: InteractionOutcome,
) -> Seq<Seq<char>> {
    let failed = failed_count(results, results.len() as int);
    let a = leading_notes(results, outcome);
    let b = if failed > 0 {
        a.push(failed_note_text(failed as usize))
    } else {
        a
    };
    let c = match outcome {
        InteractionOutcome::Skipped(candidates, most) => b.push(
            skipped_note_text(candidates, most),
        ),
        InteractionOutcome::Failed(message) => b.push(search_failed_note_text(message@)),
        _ => b,
    };
    let d = with_stochastic_notes(c, results, results.len() as int);
    match search_of(outcome) {
        Some(result) => with_search_note(d, result),
        None => d,
    }
}

fn write_leading_notes(
    unstable: bool,
    effect: bool,
    outcome_dependency: bool,
    inconclusive: bool,
    completed: usize,
) -> (r: Vec<String>)
    ensures
        r.deep_view() == if unstable {
            seq![
                "matched baseline trials performed for a stochastic intervention contradicted the initial control-stability gate"@,
                "causal diagnoses and interaction minimization were suppressed because uncontrolled baseline nondeterminism was observed with additional repetition"@,
            ]
        } else if effect {
            seq![
                "the controlled baseline was stable, but at least one tested environmental perturbation changed declared artifact bytes"@,
                "diagnoses describe observed causal factors under the tested interventions, not universal root causes"@,
            ]
        } else if outcome_dependency {
            seq![
                "the controlled baseline was stable, but at least one controlled input variant caused the build command to exit non-zero; this establishes build-outcome sensitivity under the tested intervention but does not by itself prove byte-level non-reproducibility"@,
                "reproducibility is inconclusive because no comparable variant artifact was produced for at least one causal trial"@,
            ]
        } else if inconclusive {
            seq![
                "the controlled baseline was stable, but at least one requested experiment could not be completed; reproducibility is therefore inconclusive"@,
            ]
        } else {
            seq![stable_space_text(completed)]
        },
{
    let mut notes: Vec<String> = Vec::new();
    if unstable {
        notes.push(
            "matched baseline trials performed for a stochastic intervention contradicted the initial control-stability gate".to_owned(),
        );
        notes.push(
            "causal diagnoses and interaction minimization were suppressed because uncontrolled baseline nondeterminism was observed with additional repetition".to_owned(),
        );
    } else if effect {
        notes.push(
            "the controlled baseline was stable, but at least one tested environmental perturbation changed declared artifact bytes".to_owned(),
        );
        notes.push(
            "diagnoses describe observed causal factors under the tested interventions, not universal root causes".to_owned(),
        );
    } else if outcome_dependency {
        notes.push(
            "the controlled baseline was stable, but at least one controlled input variant caused the build command to exit non-zero; this establishes build-outcome sensitivity under the tested intervention but does not by itself prove byte-level non-reproducibility".to_owned(),
        );
        notes.push(
            "reproducibility is inconclusive because no comparable variant artifact was produced for at least one causal trial".to_owned(),
        );
    } else if inconclusive {
        notes.push(
            "the controlled baseline was stable, but at least one requested experiment could not be completed; reproducibility is therefore inconclusive".to_owned(),
        );
    } else {
        notes.push(show_stable_space(completed));
    }
    notes
}

fn push_search_note(lines: &mut Vec<String>, result: &InteractionSearchResult)
    ensures
        final(lines).deep_view() == with_search_note(old(lines).deep_view(), *result),
{
    if !result.changed {
        push_line(lines, show_no_interaction_note(result.candidate_variables.len()));
    } else if result.stable_effect {
        push_line(
            lines,
            show_minimal_note(result.minimal_variables.len(), result.tested_subsets),
        );
    } else {
        push_line(
            lines,
            "the combined intervention produced inconsistent outcomes and was not promoted to a causal interaction diagnosis".to_owned(),
        );
    }
}

/// What a check was made on.
pub struct CheckSubject {
    pub experiment_id: String,
    pub source_digest: String,
    pub source_provenance: SourceProvenance,
    pub baseline_environment: ControlledEnvironment,
}

/// Whether `report` is about `subject` and these controls.
pub open spec fn reports_on(
    report: CheckReport,
    subject: CheckSubject,
    runs: Vec<BuildRun>,
) -> bool {
    &&& report.schema_version == CHECK_REPORT_SCHEMA_CURRENT
    &&& report.experiment_id == subject.experiment_id
    &&& report.source_digest == subject.source_digest
    &&& report.source_provenance == subject.source_provenance
    &&& report.baseline_environment == subject.baseline_environment
    &&& report.runs == runs
    &&& report.artifact_comparisons.deep_view() == comparisons_of(runs@)
}

pub open spec fn unstable_note_text(n: usize) -> Seq<char> {
    "declared artifacts differed across "@
        + decimal_of(n as int)
        + " repetitions of the same controlled baseline"@
}

pub fn show_unstable_note(n: usize) -> (r: String)
    ensures
        r@ == unstable_note_text(n),
{
    concat3(
        "declared artifacts differed across ",
        decimal(n as u128).as_str(),
        " repetitions of the same controlled baseline",
    )
}

pub open spec fn unstable_notes(control_runs: usize) -> Seq<Seq<char>> {
    seq![
        unstable_note_text(control_runs),
        "deterministic intervention attribution and ddmin interaction search were not attempted because the baseline is unstable"@,
        "this establishes uncontrolled nondeterminism under the tested baseline, not a universal intrinsic-nondeterminism claim"@,
    ]
}

/// The report on controls that do not agree: no experiment was made on them.
pub fn conclude_unstable(subject: CheckSubject, runs: Vec<BuildRun>, control_runs: usize) -> (r:
    CheckReport)
    ensures
        reports_on(r, subject, runs),
        r.status is UncontrolledNondeterminism,
        r.interventions@.len() == 0,
        r.interaction_search is None,
        r.diagnoses@.len() == 0,
        r.notes.deep_view() == unstable_notes(control_runs),
{
    let mut notes: Vec<String> = Vec::new();
    notes.push(show_unstable_note(control_runs));
    notes.push(
        "deterministic intervention attribution and ddmin interaction search were not attempted because the baseline is unstable".to_owned(),
    );
    notes.push(
        "this establishes uncontrolled nondeterminism under the tested baseline, not a universal intrinsic-nondeterminism claim".to_owned(),
    );
    assert(notes.deep_view() =~= unstable_notes(control_runs));
    CheckReport {
        schema_version: CHECK_REPORT_SCHEMA_CURRENT,
        experiment_id: subject.experiment_id,
        status: CheckStatus::UncontrolledNondeterminism,
        source_digest: subject.source_digest,
        source_provenance: subject.source_provenance,
        baseline_environment: subject.baseline_environment,
        artifact_comparisons: compare_runs(&runs),
        runs,
        interventions: Vec::new(),
        interaction_search: None,
        diagnoses: Vec::new(),
        notes,
    }
}

/// The diagnoses of a check: none on a baseline that proved unstable.
pub open spec fn check_diagnoses(
    results: Seq<InterventionResult>,
    search: Option<InteractionSearchResult>,
) -> Seq<DiagnosisView> {
    if late_instability(results) {
        Seq::empty()
    } else {
        all_diagnoses(results, search)
    }
}

fn write_notes(
    results: &Vec<InterventionResult>,
    outcome: &InteractionOutcome,
    unstable: bool,
    status: CheckStatus,
) -> (r: Vec<String>)
    requires
        unstable == late_instability(results@),
        status == check_status(results@, *outcome),
    ensures
        r.deep_view() == check_notes(results@, *outcome),
{
    let failed: usize = count_failed(results);
    let effect = find_changed(results) || match outcome {
        InteractionOutcome::Searched(result) => result.changed,
        _ => false,
    };
    let mut notes = write_leading_notes(
        unstable,
        effect,
        find_outcome_dependency(results),
        status == CheckStatus::Inconclusive,
        results.len() - failed,
    );
    assert(notes.deep_view() == leading_notes(results@, *outcome));
    if failed > 0 {
        push_line(&mut notes, show_failed_note(failed));
    }
    match outcome {
        InteractionOutcome::Skipped(candidates, most) => push_line(
            &mut notes,
            show_skipped_note(*candidates, *most),
        ),
        InteractionOutcome::Failed(message) => push_line(
            &mut notes,
            show_search_failed_note(message.as_str()),
        ),
        _ => {},
    }
    push_stochastic_notes(&mut notes, results);
    if let InteractionOutcome::Searched(result) = outcome {
        push_search_note(&mut notes, result);
    }
    notes
}

/// The report on a check whose controls agree.
pub fn conclude_check(
    subject: CheckSubject,
    runs: Vec<BuildRun>,
    results: Vec<InterventionResult>,
    outcome: InteractionOutcome,
) -> (r: CheckReport)
    ensures
        reports_on(r, subject, runs),
        r.status == check_status(results@, outcome),
        r.interventions == results,
        r.interaction_search == search_of(outcome),
        r.diagnoses.deep_view() == check_diagnoses(results@, search_of(outcome)),
        r.notes.deep_view() == check_notes(results@, outcome),
{
    let unstable = late_baseline_instability(&results);
    let effect = find_changed(&results) || match &outcome {
        InteractionOutcome::Searched(result) => result.changed,
        _ => false,
    };
    let search_failed = match &outcome {
        InteractionOutcome::Failed(_) => true,
        _ => false,
    };
    let status = if unstable {
        CheckStatus::UncontrolledNondeterminism
    } else {
        classify_status(
            effect,
            find_outcome_dependency(&results),
            count_failed(&results),
            search_failed,
        )
    };
    let notes = write_notes(&results, &outcome, unstable, status);
    let interaction_search = match outcome {
        InteractionOutcome::Searched(result) => Some(result),
        _ => None,
    };
    let diagnoses = if unstable {
        let none: Vec<Diagnosis> = Vec::new();
        assert(none.deep_view() =~= Seq::<DiagnosisView>::empty());
        none
    } else {
        synthesize_diagnoses(&results, &interaction_search)
    };
    CheckReport {
        schema_version: CHECK_REPORT_SCHEMA_CURRENT,
        experiment_id: subject.experiment_id,
        status,
        source_digest: subject.source_digest,
        source_provenance: subject.source_provenance,
        baseline_environment: subject.baseline_environment,
        artifact_comparisons: compare_runs(&runs),
        runs,
        interventions: results,
        interaction_search,
        diagnoses,
        notes,
    }
}

/// The variables of some interventions.
pub open spec fn variables_of(candidates: Seq<PlannedInterventionView>) -> Seq<Seq<char>> {
    candidates.map_values(|c: PlannedInterventionView| c.intervention.variable)
}

pub fn collect_variables(candidates: &Vec<PlannedIntervention>) -> (r: Vec<String>)
    ensures
        r.deep_view() == variables_of(candidates.deep_view()),
{
    let ghost wanted = variables_of(candidates.deep_view());
    let mut variables: Vec<String> = Vec::new();
    let mut i: usize = 0;
    while i < candidates.len()
        invariant
            wanted == variables_of(candidates.deep_view()),
            i <= candidates@.len(),
            variables@.len() == i,
            forall|k: int| 0 <= k < i ==> (#[trigger] variables@[k])@ == wanted[k],
        decreases candidates.len() - i,
    {
        assert(candidates.deep_view()[i as int] == candidates@[i as int].deep_view());
        variables.push(candidates[i].intervention.variable.clone());
        i += 1;
    }
    assert(variables.deep_view() =~= wanted);
    variables
}

/// What a search for interactions does next.
#[derive(Debug, Clone, Copy, PartialEq, Eq, Structural)]
pub enum SearchStep {
    /// Look for the smallest combination that still has the effect.
    Minimize,
    /// Build once more in the baseline environment.
    Revert,
    Conclude,
}

/// What comes after `runs` of a combination: of all candidates, or of the minimal ones once
/// `minimized`. Only a combination with one stable effect is minimised, and only a minimal one that
/// still has it is reverted, where one confirmation is asked for.
pub open spec fn search_step(
    first: BuildRun,
    runs: Seq<BuildRun>,
    minimized: bool,
    confirmation_runs: int,
) -> SearchStep {
    if !one_effect(first, runs) {
        SearchStep::Conclude
    } else if !minimized {
        SearchStep::Minimize
    } else if confirmation_runs == 1 {
        SearchStep::Revert
    } else {
        SearchStep::Conclude
    }
}

pub fn next_search_step(
    first: &BuildRun,
    runs: &Vec<BuildRun>,
    minimized: bool,
    confirmation_runs: usize,
) -> (r: SearchStep)
    ensures
        r == search_step(*first, runs@, minimized, confirmation_runs as int),
{
    if !shows_one_effect(first, runs) {
        SearchStep::Conclude
    } else if !minimized {
        SearchStep::Minimize
    } else if confirmation_runs == 1 {
        SearchStep::Revert
    } else {
        SearchStep::Conclude
    }
}

/// The end of a search in which the combination of all candidates has no single effect: nothing is
/// minimised.
pub fn unminimized_search(
    candidates: &Vec<PlannedIntervention>,
    baseline: &BuildRun,
    full_runs: Vec<BuildRun>,
) -> (r: InteractionSearchResult)
    ensures
        r.candidate_variables.deep_view() == variables_of(candidates.deep_view()),
        r.minimal_variables@.len() == 0,
        r.tested_subsets == 1,
        r.runs == full_runs,
        r.artifact_deltas.deep_view() == artifact_deltas(*baseline, full_runs@, None),
        r.changed == some_departs(*baseline, full_runs@),
        r.stable_effect == one_effect(*baseline, full_runs@),
        r.reverted_to_baseline is None,
        r.confirmation_run is None,
        r.error is None,
{
    InteractionSearchResult {
        candidate_variables: collect_variables(candidates),
        minimal_variables: Vec::new(),
        tested_subsets: 1,
        artifact_deltas: build_artifact_deltas(baseline, &full_runs, None),
        changed: count_departures(baseline, &full_runs) > 0,
        stable_effect: every_run_departs(baseline, &full_runs) && distinct_artifact_outcomes(
            &full_runs,
        ) == 1,
        runs: full_runs,
        reverted_to_baseline: None,
        confirmation_run: None,
        error: None,
    }
}

/// The end of a search that minimised: `runs` repeat the minimal combination, and `confirmation`
/// went back to the baseline.
pub fn minimized_search(
    candidates: &Vec<PlannedIntervention>,
    outcome: &DdminOutcome<PlannedIntervention>,
    baseline: &BuildRun,
    runs: Vec<BuildRun>,
    confirmation: Option<BuildRun>,
) -> (r: InteractionSearchResult)
    requires
        outcome.tests + 2 <= usize::MAX,
    ensures
        r.candidate_variables.deep_view() == variables_of(candidates.deep_view()),
        r.minimal_variables.deep_view() == variables_of(outcome.minimal.deep_view()),
        r.tested_subsets == outcome.tests + 2,
        r.runs == runs,
        r.artifact_deltas.deep_view() == artifact_deltas(*baseline, runs@, None),
        r.changed == all_depart(*baseline, runs@),
        r.stable_effect == one_effect(*baseline, runs@),
        r.reverted_to_baseline == match confirmation {
            Some(run) => Some(same_hashes(baseline.artifacts@, run.artifacts@)),
            None => None,
        },
        r.confirmation_run == confirmation,
        r.error is None,
{
    let changed = every_run_departs(baseline, &runs);
    let reverted_to_baseline = match &confirmation {
        Some(run) => Some(same_artifact_hashes(baseline, run)),
        None => None,
    };
    InteractionSearchResult {
        candidate_variables: collect_variables(candidates),
        minimal_variables: collect_variables(&outcome.minimal),
        tested_subsets: outcome.tests + 2,
        artifact_deltas: build_artifact_deltas(baseline, &runs, None),
        changed,
        stable_effect: changed && distinct_artifact_outcomes(&runs) == 1,
        runs,
        reverted_to_baseline,
        confirmation_run: confirmation,
        error: None,
    }
}

/// Combinations of interventions can be minimised: a copy of one looks like it.
pub proof fn law_copied_interventions_look_equal()
    ensures
        clones_look_equal::<PlannedIntervention>(),
{
}

/// A check calls a project reproducible only if nothing changed under any intervention, no build
/// failed tellingly, and everything that was asked for was completed on a stable baseline.
pub proof fn law_reproducible_means_everything_was_stable(
    results: Seq<InterventionResult>,
    outcome: InteractionOutcome,
    k: int,
)
    requires
        check_status(results, outcome) is Reproducible,
        0 <= k < results.len(),
    ensures
        !results[k].changed,
        results[k].error is None,
        !fails_tellingly(results[k]),
        !found_unstable(results[k]),
        !(outcome is Failed),
        search_of(outcome) matches Some(search) ==> !search.changed,
{
    lemma_failed_counts(results, results.len() as int, k);
}

proof fn lemma_failed_counts(results: Seq<InterventionResult>, n: int, k: int)
    requires
        0 <= k < n <= results.len(),
    ensures
        failed_count(results, n) >= 0,
        results[k].error is Some ==> failed_count(results, n) > 0,
    decreases n,
{
    if k < n - 1 {
        lemma_failed_counts(results, n - 1, k);
    } else {
        lemma_failed_nonnegative(results, n - 1);
    }
}

proof fn lemma_failed_nonnegative(results: Seq<InterventionResult>, n: int)
    ensures
        failed_count(results, n) >= 0,
    decreases n,
{
    if n > 0 {
        lemma_failed_nonnegative(results, n - 1);
    }
}

/// A change of bytes that was observed is never called reproducible or inconclusive, whatever else
/// failed, unless the baseline itself proved unstable.
pub proof fn law_an_observed_change_decides(
    results: Seq<InterventionResult>,
    outcome: InteractionOutcome,
)
    requires
        any_changed(results),
    ensures
        check_status(results, outcome) == if late_instability(results) {
            CheckStatus::UncontrolledNondeterminism
        } else {
            CheckStatus::NonReproducible
        },
{
}

/// A baseline that proves unstable after the controls leaves no diagnosis standing.
pub proof fn law_an_unstable_baseline_is_not_diagnosed(
    results: Seq<InterventionResult>,
    outcome: InteractionOutcome,
)
    requires
        late_instability(results),
    ensures
        check_status(results, outcome) is UncontrolledNondeterminism,
        check_diagnoses(results, search_of(outcome)).len() == 0,
        forall|wanted: bool, candidates: int, most: int|
            #[trigger] interaction_decision(true, wanted, candidates, most) is Omit,
{
}

} // verus!
