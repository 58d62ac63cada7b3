use std::cell::{Cell, RefCell};

use reprobisect::config::{
    default_log_capture_max_bytes, default_timeout_seconds, default_working_directory, BuildConfig,
    Config, ExperimentsConfig,
};
use reprobisect::digest::sha256_bytes;
use reprobisect::engine::compare::{
    attempts_reproduce_reference, classify_endpoints, conclude_endpoints, conclude_minimized,
    endpoint_outcome_kind, failure_signature, next_comparison_step, runs_reproduce_reference,
    stable_endpoint_reference, validate_options, CompareOptions, ComparisonStep, ComparisonSubject,
    EndpointAttempts, EndpointFinding, Reversion, StableEndpointReference,
};
use reprobisect::engine::control::{
    classify_status, conclude_check, conclude_unstable, count_trials, decide_interaction_search,
    next_search_step, start_trials, CheckOptions, CheckSubject, InteractionDecision,
    InteractionOutcome, SearchStep, TrialEvent, TrialStep,
};
use reprobisect::engine::ddmin::{minimize, partition, DdminOutcome};
use reprobisect::engine::deltas::build_artifact_deltas;
use reprobisect::engine::diagnosis::{
    assess_confidence, diagnosis_from_interaction, diagnosis_from_result, remediation_for,
    synthesize_diagnoses,
};
use reprobisect::engine::interventions::{baseline_environment, plan_interventions, PlannedIntervention};
use reprobisect::engine::outcomes::{
    build_failure_is_observable, build_outcome_count, build_outcomes_stable,
    distinct_artifact_outcomes, shows_one_effect,
};
use reprobisect::engine::statistics::assess_stochastic_effect;
use reprobisect::environment::diff_environments;
use reprobisect::evidence::{comparison_file, failure_file, report_file, run_file};
use reprobisect::model::{
    ArtifactDelta, ArtifactRecord, ArtifactType, BuildFailure, BuildRun, CheckReport, CheckStatus,
    Confidence, ControlledEnvironment, EnvironmentComparisonOutcomeKind,
    EnvironmentComparisonReport, EnvironmentComparisonStatus, InteractionSearchResult, Intervention,
    InterventionKind, InterventionResult, RunnerBackend, StochasticEffectClassification,
    StochasticFigures,
};
use reprobisect::report::{compare_text_lines, text_lines};
use reprobisect::schema::{BUILD_EVIDENCE_SCHEMA_CURRENT, CHECK_REPORT_SCHEMA_CURRENT};
use reprobisect::string_map::StringMap;

fn run_with_hash(hash: &str) -> BuildRun {
    BuildRun {
        schema_version: BUILD_EVIDENCE_SCHEMA_CURRENT,
        experiment_id: "00000000-0000-0000-0000-000000000000".to_string(),
        run_id: "00000000-0000-4000-8000-000000000001".to_string(),
        ordinal: 1,
        runner_backend: RunnerBackend::Docker,
        source_digest: "source".to_string(),
        image: "demo".to_string(),
        resolved_image_id: "sha256:demo".to_string(),
        command: vec!["true".to_string()],
        working_directory: ".".to_string(),
        effective_environment: StringMap::new(),
        controlled_environment: ControlledEnvironment::default(),
        toolchain_provenance: Default::default(),
        source_overrides: Vec::new(),
        network_trace: Default::default(),
        process_trace: Default::default(),
        runtime_dependency_provenance: Default::default(),
        exit_code: 0,
        duration_ms: 1,
        log_capture_max_bytes: 1024 * 1024,
        stdout: String::new(),
        stderr: String::new(),
        stdout_sha256: sha256_bytes(b""),
        stderr_sha256: sha256_bytes(b""),
        stdout_bytes: 0,
        stderr_bytes: 0,
        stdout_truncated: false,
        stderr_truncated: false,
        artifacts: vec![ArtifactRecord {
            logical_path: "out".to_string(),
            sha256: hash.to_string(),
            size_bytes: 1,
            detected_type: ArtifactType::Generic,
            embedded_markers: Vec::new(),
            elf_debug_markers: Vec::new(),
            elf_marker_locations: Vec::new(),
            elf_metadata: None,
            archive_metadata: None,
            semantic_metadata: None,
        }],
    }
}

fn failure(exit_code: i32, stdout: &str, stderr: &str) -> BuildFailure {
    BuildFailure {
        schema_version: BUILD_EVIDENCE_SCHEMA_CURRENT,
        experiment_id: "00000000-0000-0000-0000-000000000000".to_string(),
        run_id: "00000000-0000-4000-8000-000000000002".to_string(),
        ordinal: 1,
        runner_backend: RunnerBackend::Docker,
        source_digest: "source".to_string(),
        image: "demo".to_string(),
        resolved_image_id: "sha256:demo".to_string(),
        command: vec!["false".to_string()],
        working_directory: ".".to_string(),
        effective_environment: StringMap::new(),
        controlled_environment: ControlledEnvironment::default(),
        toolchain_provenance: Default::default(),
        source_overrides: Vec::new(),
        network_trace: Default::default(),
        process_trace: Default::default(),
        runtime_dependency_provenance: Default::default(),
        exit_code,
        duration_ms: 1,
        log_capture_max_bytes: 1024 * 1024,
        stdout: stdout.to_string(),
        stderr: stderr.to_string(),
        stdout_sha256: sha256_bytes(stdout.as_bytes()),
        stderr_sha256: sha256_bytes(stderr.as_bytes()),
        stdout_bytes: stdout.len() as u64,
        stderr_bytes: stderr.len() as u64,
        stdout_truncated: false,
        stderr_truncated: false,
    }
}

fn delta() -> ArtifactDelta {
    ArtifactDelta {
        logical_path: "out".into(),
        baseline_sha256: "a".into(),
        variant_sha256: "b".into(),
        changed: true,
        marker_evidence: vec![],
        elf_debug_marker_evidence: vec![],
        elf_marker_location_evidence: vec![],
        archive_metadata_evidence: vec![],
        semantic_evidence: vec![],
        baseline_direct_marker: false,
        variant_direct_marker: false,
        direct_structural_evidence: false,
    }
}

fn source_path_result() -> InterventionResult {
    InterventionResult {
        intervention: Intervention {
            id: "source-path".into(),
            kind: InterventionKind::SourcePath,
            variable: "source_path".into(),
            baseline_value: "/src".into(),
            variant_value: "/alt".into(),
            description: String::new(),
        },
        runs: vec![],
        reference_runs: vec![],
        build_failures: vec![],
        artifact_deltas: vec![],
        changed: true,
        variant_stable: Some(true),
        distinct_variant_outcomes: 1,
        stochastic_effect: None,
        reverted_to_baseline: Some(true),
        confirmation_run: None,
        error: None,
    }
}

#[test]
fn reproduction_requires_exact_bad_signature_and_stability() {
    let bad = run_with_hash("bad");
    assert!(runs_reproduce_reference(
        &vec![run_with_hash("bad"), run_with_hash("bad")],
        &bad
    ));
    assert!(!runs_reproduce_reference(
        &vec![run_with_hash("other"), run_with_hash("other")],
        &bad
    ));
    assert!(!runs_reproduce_reference(
        &vec![run_with_hash("bad"), run_with_hash("other")],
        &bad
    ));
}

#[test]
fn failure_reproduction_requires_exact_exit_and_output_fingerprints() {
    let bad = failure(37, "", "known bad\n");
    let reference = StableEndpointReference::Failure(failure_signature(&bad));
    let exact = EndpointAttempts {
        runs: vec![],
        failures: vec![failure(37, "", "known bad\n"), failure(37, "", "known bad\n")],
    };
    assert!(attempts_reproduce_reference(&exact, &reference));

    let wrong_diagnostic = EndpointAttempts {
        runs: vec![],
        failures: vec![failure(37, "", "different\n"), failure(37, "", "different\n")],
    };
    assert!(!attempts_reproduce_reference(&wrong_diagnostic, &reference));

    let wrong_exit = EndpointAttempts {
        runs: vec![],
        failures: vec![failure(2, "", "known bad\n"), failure(2, "", "known bad\n")],
    };
    assert!(!attempts_reproduce_reference(&wrong_exit, &reference));
}

#[test]
fn failure_signature_uses_full_stream_digest_when_retained_text_is_truncated() {
    let mut failure = failure(37, "prefix", "diagnostic-prefix");
    let full_stdout = b"prefix-and-unretained-tail";
    let full_stderr = b"diagnostic-prefix-and-unretained-tail";
    failure.stdout_sha256 = sha256_bytes(full_stdout);
    failure.stderr_sha256 = sha256_bytes(full_stderr);
    failure.stdout_truncated = true;
    failure.stderr_truncated = true;
    failure.stdout_bytes = full_stdout.len() as u64;
    failure.stderr_bytes = full_stderr.len() as u64;
    let signature = failure_signature(&failure);
    assert_eq!(signature.stdout_sha256, sha256_bytes(full_stdout));
    assert_eq!(signature.stderr_sha256, sha256_bytes(full_stderr));
}

#[test]
fn mixed_success_and_failure_is_not_a_stable_endpoint() {
    let attempts = EndpointAttempts {
        runs: vec![run_with_hash("good")],
        failures: vec![failure(37, "", "known bad\n")],
    };
    assert!(stable_endpoint_reference(&attempts, 2).is_none());
    assert_eq!(
        endpoint_outcome_kind(&attempts),
        EnvironmentComparisonOutcomeKind::Mixed
    );
}

fn endpoint(hash: &str) -> EndpointAttempts {
    EndpointAttempts {
        runs: vec![run_with_hash(hash), run_with_hash(hash)],
        failures: vec![],
    }
}

#[test]
fn endpoints_are_told_apart() {
    assert_eq!(
        classify_endpoints(&endpoint("a"), &endpoint("a"), 2, 3),
        EndpointFinding::Equivalent
    );
    assert_eq!(
        classify_endpoints(&endpoint("a"), &endpoint("b"), 2, 0),
        EndpointFinding::NoDelta
    );
    assert_eq!(
        classify_endpoints(&endpoint("a"), &endpoint("b"), 2, 3),
        EndpointFinding::Minimize
    );
    let failing = EndpointAttempts {
        runs: vec![],
        failures: vec![failure(1, "", ""), failure(1, "", "")],
    };
    assert_eq!(
        classify_endpoints(&failing, &endpoint("b"), 2, 3),
        EndpointFinding::GoodFails
    );
    let unstable = EndpointAttempts {
        runs: vec![run_with_hash("a"), run_with_hash("b")],
        failures: vec![],
    };
    assert_eq!(
        classify_endpoints(&unstable, &endpoint("b"), 2, 3),
        EndpointFinding::Unstable
    );
}

#[test]
fn comparison_options_out_of_range_are_named() {
    let good = CompareOptions {
        endpoint_runs: 2,
        subset_runs: 2,
        confirmation_runs: 1,
    };
    assert!(validate_options(&good).is_ok());
    let mut options = good;
    options.endpoint_runs = 1;
    assert!(validate_options(&options).unwrap_err().contains("endpoint_runs"));
    options = good;
    options.subset_runs = 33;
    assert!(validate_options(&options).unwrap_err().contains("subset_runs"));
    options = good;
    options.confirmation_runs = 2;
    assert!(validate_options(&options).unwrap_err().contains("confirmation_runs"));
}

fn comparison_subject() -> ComparisonSubject {
    ComparisonSubject {
        experiment_id: "e".to_string(),
        source_digest: "d".to_string(),
        source_provenance: Default::default(),
        good_manifest_sha256: "g".to_string(),
        bad_manifest_sha256: "b".to_string(),
    }
}

#[test]
fn equal_endpoints_conclude_equivalence() {
    let report: EnvironmentComparisonReport =
        conclude_endpoints(comparison_subject(), endpoint("a"), endpoint("a"), 2, &vec![]);
    assert_eq!(report.status, EnvironmentComparisonStatus::Equivalent);
    assert_eq!(comparison_file(&report), ".reprobisect/comparisons/e.json");
    assert!(!compare_text_lines(&report, false).is_empty());
}

#[test]
fn a_minimized_delta_names_the_difference() {
    let good = ControlledEnvironment::default();
    let mut bad = good.clone();
    bad.container_work_path = "/elsewhere".to_string();
    bad.hostname = Some("other".to_string());
    let deltas = diff_environments(&good, &bad);
    let outcome = DdminOutcome {
        minimal: vec![deltas[0].clone()],
        tests: 3,
    };
    let report = conclude_minimized(
        comparison_subject(),
        endpoint("a"),
        endpoint("b"),
        2,
        &deltas,
        &outcome,
        endpoint("b"),
        Reversion::Completed(run_with_hash("a")),
    );
    assert_eq!(report.status, EnvironmentComparisonStatus::Minimized);
    assert_eq!(report.minimal_delta.len(), 1);
    assert_eq!(report.delta.len(), 2);
    assert_eq!(report.tested_subsets, 4);
    assert_eq!(report.reverted_to_good, Some(true));
}

#[test]
fn network_failure_without_variant_artifact_is_inconclusive() {
    assert_eq!(
        classify_status(false, true, 0, false),
        CheckStatus::Inconclusive
    );
}

#[test]
fn narrow_input_build_failure_is_an_observable_but_not_a_byte_delta() {
    assert!(build_failure_is_observable(InterventionKind::ToolchainExecutable));
    assert!(build_failure_is_observable(InterventionKind::DependencyFile));
    assert_eq!(classify_status(false, true, 0, false), CheckStatus::Inconclusive);
}

#[test]
fn observed_artifact_delta_is_non_reproducible_even_with_other_failures() {
    assert_eq!(
        classify_status(true, true, 1, true),
        CheckStatus::NonReproducible
    );
}

#[test]
fn completed_stable_space_is_reproducible() {
    assert_eq!(
        classify_status(false, false, 0, false),
        CheckStatus::Reproducible
    );
}

#[test]
fn finds_single_failure_inducing_item() {
    let items = vec!["a", "b", "c", "d"];
    let result = minimize(&items, |subset: &[&str]| Ok::<bool, String>(subset.contains(&"c"))).unwrap();
    assert_eq!(result.minimal, vec!["c"]);
}

#[test]
fn preserves_interacting_pair_when_neither_item_fails_alone() {
    let items = vec!["path", "locale", "timezone", "hostname"];
    let result = minimize(&items, |subset: &[&str]| {
        Ok::<bool, String>(subset.contains(&"locale") && subset.contains(&"timezone"))
    })
    .unwrap();

    assert_eq!(result.minimal.len(), 2);
    assert!(result.minimal.contains(&"locale"));
    assert!(result.minimal.contains(&"timezone"));
}

#[test]
fn partition_covers_every_item_once() {
    let partitions = partition(&[1, 2, 3, 4, 5], 3);
    assert_eq!(partitions, vec![vec![1, 2], vec![3, 4], vec![5]]);
}

#[test]
fn a_failing_predicate_ends_the_search() {
    let items = vec![1, 2, 3, 4];
    let result = minimize(&items, |_: &[i32]| Err::<bool, String>("broken".to_string()));
    assert_eq!(result.err().as_deref(), Some("broken"));
}

#[test]
fn a_single_item_is_minimal_without_a_test() {
    let never = |_: &[i32]| Err::<bool, String>("asked".to_string());
    let result = minimize(&[7], never).unwrap();
    assert_eq!(result.minimal, vec![7]);
    assert_eq!(result.tests, 0);
    let result = minimize(&[], never).unwrap();
    assert!(result.minimal.is_empty());
    assert_eq!(result.tests, 0);
}

#[test]
fn questions_follow_the_strategy_and_are_all_counted() {
    let asked = RefCell::new(Vec::new());
    let result = minimize(&[1, 2, 3, 4], |subset: &[i32]| {
        asked.borrow_mut().push(subset.to_vec());
        Ok::<bool, String>(subset.contains(&1) && subset.contains(&4))
    })
    .unwrap();
    let asked = asked.into_inner();
    assert_eq!(result.minimal, vec![1, 4]);
    assert_eq!(result.tests, asked.len());
    assert_eq!(asked[0], vec![1, 2]);
    assert_eq!(asked[1], vec![3, 4]);
    assert_eq!(asked[4], vec![1]);
    assert!(asked.iter().all(|subset| !subset.is_empty() && subset.len() < 4));
}

#[test]
fn contradictory_answers_still_give_a_sublist() {
    let turn = Cell::new(0);
    let result = minimize(&[1, 2, 3, 4, 5], |_: &[i32]| {
        turn.set(turn.get() + 1);
        Ok::<bool, String>(turn.get() % 3 == 0)
    })
    .unwrap();
    let mut rest = vec![1, 2, 3, 4, 5].into_iter();
    assert!(result.minimal.iter().all(|item| rest.any(|other| other == *item)));
    assert!(!result.minimal.is_empty());
}

#[test]
fn a_search_minimizes_one_effect_and_reverts_on_request() {
    let first = run_with_hash("a");
    let changed = vec![run_with_hash("b"), run_with_hash("b")];
    let mixed = vec![run_with_hash("b"), run_with_hash("a")];
    assert_eq!(next_search_step(&first, &changed, false, 1), SearchStep::Minimize);
    assert_eq!(next_search_step(&first, &changed, false, 0), SearchStep::Minimize);
    assert_eq!(next_search_step(&first, &changed, true, 1), SearchStep::Revert);
    assert_eq!(next_search_step(&first, &changed, true, 0), SearchStep::Conclude);
    assert_eq!(next_search_step(&first, &mixed, false, 1), SearchStep::Conclude);
    assert_eq!(next_search_step(&first, &mixed, true, 1), SearchStep::Conclude);
}

#[test]
fn a_comparison_minimizes_differing_endpoints_and_reverts_on_request() {
    let mut options = CompareOptions {
        endpoint_runs: 2,
        subset_runs: 2,
        confirmation_runs: 1,
    };
    let good = endpoint("a");
    let bad = endpoint("b");
    assert_eq!(
        next_comparison_step(&good, &bad, 3, false, &options),
        ComparisonStep::Minimize
    );
    assert_eq!(
        next_comparison_step(&good, &bad, 3, true, &options),
        ComparisonStep::Revert
    );
    assert_eq!(
        next_comparison_step(&good, &bad, 0, false, &options),
        ComparisonStep::Conclude
    );
    assert_eq!(
        next_comparison_step(&good, &endpoint("a"), 3, false, &options),
        ComparisonStep::Conclude
    );
    options.confirmation_runs = 0;
    assert_eq!(
        next_comparison_step(&good, &bad, 3, true, &options),
        ComparisonStep::Conclude
    );
}

#[test]
fn interaction_diagnosis_is_medium_only_after_reversion() {
    let mut result = InteractionSearchResult {
        candidate_variables: vec!["A".into(), "B".into()],
        minimal_variables: vec!["A".into(), "B".into()],
        tested_subsets: 4,
        runs: vec![],
        artifact_deltas: vec![delta()],
        changed: true,
        stable_effect: true,
        reverted_to_baseline: Some(true),
        confirmation_run: None,
        error: None,
    };
    let diagnosis = diagnosis_from_interaction(&result);
    assert_eq!(diagnosis.confidence, Confidence::Medium);
    result.reverted_to_baseline = None;
    assert_eq!(diagnosis_from_interaction(&result).confidence, Confidence::Low);
}

#[test]
fn remediation_covers_source_path() {
    let (title, _) = remediation_for(&source_path_result());
    assert!(title.contains("source path"));
}

#[test]
fn every_effect_gets_a_diagnosis() {
    let result = source_path_result();
    let diagnosis = diagnosis_from_result(&result);
    assert_eq!(diagnosis.causal_variables, vec!["source_path".to_string()]);
    let mut quiet = source_path_result();
    quiet.changed = false;
    let diagnoses = synthesize_diagnoses(&vec![result, quiet], &None);
    assert_eq!(diagnoses.len(), 1);
    let mut broken = source_path_result();
    broken.error = Some("boom".to_string());
    assert_eq!(assess_confidence(&broken), Confidence::Low);
}

fn figures() -> StochasticFigures {
    StochasticFigures {
        baseline_change_rate: "0.000".to_string(),
        variant_change_rate: "0.200".to_string(),
        fisher_exact_p_value: "0.500000".to_string(),
        alpha: "0.050".to_string(),
        alpha_bits: 0.05_f64.to_bits(),
    }
}

#[test]
fn fisher_does_not_promote_one_change_in_five() {
    let p = 0.5_f64;
    let evidence = assess_stochastic_effect(0, 5, 1, 5, p <= 0.05, figures());
    assert_eq!(
        evidence.classification,
        StochasticEffectClassification::NotSupported
    );
}

#[test]
fn matched_baseline_instability_blocks_causal_promotion() {
    let p = 0.0007_f64;
    let evidence = assess_stochastic_effect(1, 8, 8, 8, p <= 0.05, figures());
    assert_eq!(
        evidence.classification,
        StochasticEffectClassification::BaselineUnstable
    );
}

#[test]
fn complete_separation_supports_an_effect() {
    let p = 1.0_f64 / 252.0;
    let evidence = assess_stochastic_effect(0, 5, 5, 5, p <= 0.05, figures());
    assert_eq!(
        evidence.classification,
        StochasticEffectClassification::Supported
    );
}

#[test]
fn runs_are_compared_by_their_artifacts() {
    let runs = vec![run_with_hash("a"), run_with_hash("b"), run_with_hash("a")];
    assert_eq!(distinct_artifact_outcomes(&runs), 2);
    assert!(!build_outcomes_stable(&runs, &vec![]));
    assert!(build_outcomes_stable(&vec![run_with_hash("a")], &vec![]));
    assert_eq!(build_outcome_count(&runs, &vec![failure(1, "", "")]), 3);
    let baseline = run_with_hash("a");
    assert!(shows_one_effect(&baseline, &vec![run_with_hash("b"), run_with_hash("b")]));
    assert!(!shows_one_effect(&baseline, &vec![run_with_hash("b"), run_with_hash("c")]));
    let deltas = build_artifact_deltas(&baseline, &vec![run_with_hash("b")], None);
    assert_eq!(deltas.len(), 1);
    assert!(deltas[0].changed);
    let same = build_artifact_deltas(&baseline, &vec![run_with_hash("a")], None);
    assert!(!same[0].changed);
    assert!(!same[0].direct_structural_evidence);
}

fn options() -> CheckOptions {
    CheckOptions {
        control_runs: 2,
        intervention_runs: 2,
        confirmation_runs: 1,
        stochastic_runs: 4,
        stochastic_alpha_bits: 0.05_f64.to_bits(),
        interaction_runs: 2,
        max_interaction_variables: 8,
    }
}

fn planned(kind: InterventionKind) -> PlannedIntervention {
    let config = Config {
        build: BuildConfig {
            runner: RunnerBackend::Docker,
            image: "gcc:14".to_string(),
            command: vec!["true".to_string()],
            outputs: vec!["out".to_string()],
            env: StringMap::new(),
            working_directory: default_working_directory(),
            timeout_seconds: default_timeout_seconds(),
            log_capture_max_bytes: default_log_capture_max_bytes(),
        },
        experiments: ExperimentsConfig::default(),
    };
    let baseline = baseline_environment(&config);
    plan_interventions(&config, &baseline)
        .into_iter()
        .find(|planned| planned.intervention.kind == kind)
        .unwrap()
}

#[test]
fn trials_of_a_stable_effect_end_with_a_reversion() {
    let baseline = run_with_hash("a");
    let mut trials = start_trials(planned(InterventionKind::Timezone), &options(), 3);
    assert_eq!(count_trials(InterventionKind::Timezone, &options()), 2);
    let mut builds = 0;
    while trials.step != TrialStep::Finish {
        let hash = if trials.step == TrialStep::RunReversion { "a" } else { "b" };
        trials.record(&baseline, TrialEvent::Completed(run_with_hash(hash)));
        builds += 1;
        assert!(builds < 10);
    }
    assert_eq!(builds, 3);
    let result = trials.finish(&baseline, false, figures());
    assert!(result.changed);
    assert_eq!(result.variant_stable, Some(true));
    assert_eq!(result.reverted_to_baseline, Some(true));
    assert_eq!(result.error, None);
    assert_eq!(assess_confidence(&result), Confidence::Medium);
}

#[test]
fn trials_without_an_effect_need_no_reversion() {
    let baseline = run_with_hash("a");
    let mut trials = start_trials(planned(InterventionKind::Timezone), &options(), 3);
    while trials.step != TrialStep::Finish {
        trials.record(&baseline, TrialEvent::Completed(run_with_hash("a")));
    }
    let result = trials.finish(&baseline, false, figures());
    assert!(!result.changed);
    assert_eq!(result.reverted_to_baseline, None);
}

#[test]
fn a_broken_build_ends_the_trials() {
    let baseline = run_with_hash("a");
    let mut trials = start_trials(planned(InterventionKind::Timezone), &options(), 3);
    trials.record(&baseline, TrialEvent::Broke("no runtime".to_string()));
    assert_eq!(trials.step, TrialStep::Finish);
    let result = trials.finish(&baseline, false, figures());
    assert!(result.error.unwrap().contains("no runtime"));
}

#[test]
fn interactions_are_searched_only_where_nothing_else_was_found() {
    let quiet = || {
        let mut result = source_path_result();
        result.changed = false;
        vec![result]
    };
    assert_eq!(
        decide_interaction_search(&quiet(), true, 3, 8),
        InteractionDecision::Search
    );
    assert_eq!(
        decide_interaction_search(&quiet(), true, 9, 8),
        InteractionDecision::Skip
    );
    assert_eq!(
        decide_interaction_search(&quiet(), false, 3, 8),
        InteractionDecision::Omit
    );
    assert_eq!(
        decide_interaction_search(&quiet(), true, 1, 8),
        InteractionDecision::Omit
    );
}

fn check_subject() -> CheckSubject {
    CheckSubject {
        experiment_id: "e".to_string(),
        source_digest: "d".to_string(),
        source_provenance: Default::default(),
        baseline_environment: ControlledEnvironment::default(),
    }
}

#[test]
fn an_unstable_baseline_is_not_diagnosed() {
    let report: CheckReport = conclude_unstable(
        check_subject(),
        vec![run_with_hash("a"), run_with_hash("b")],
        2,
    );
    assert_eq!(report.status, CheckStatus::UncontrolledNondeterminism);
    assert!(report.diagnoses.is_empty());
    assert!(report.interventions.is_empty());
    assert_eq!(report.schema_version, CHECK_REPORT_SCHEMA_CURRENT);
    assert_eq!(report_file(&report), ".reprobisect/experiments/e.json");
}

#[test]
fn an_effect_makes_a_project_non_reproducible() {
    let mut result = source_path_result();
    result.artifact_deltas = vec![delta()];
    let report = conclude_check(
        check_subject(),
        vec![run_with_hash("a"), run_with_hash("a")],
        vec![result],
        InteractionOutcome::Omitted,
    );
    assert_eq!(report.status, CheckStatus::NonReproducible);
    assert_eq!(report.diagnoses.len(), 1);
    let lines = text_lines(&report, false);
    assert!(lines.iter().any(|line| line.contains("NON_REPRODUCIBLE")));
    assert!(text_lines(&report, true).len() > lines.len());

    let calm = conclude_check(
        check_subject(),
        vec![run_with_hash("a"), run_with_hash("a")],
        vec![],
        InteractionOutcome::Omitted,
    );
    assert_eq!(calm.status, CheckStatus::Reproducible);
}

#[test]
fn manifests_have_their_places() {
    let mut run = run_with_hash("a");
    run.ordinal = 7;
    assert_eq!(
        run_file(&run),
        ".reprobisect/runs/00000000-0000-0000-0000-000000000000/run-0007-00000000-0000-4000-8000-000000000001.json"
    );
    assert_eq!(
        failure_file(&failure(1, "", "")),
        ".reprobisect/runs/00000000-0000-0000-0000-000000000000/run-0001-00000000-0000-4000-8000-000000000002-failed.json"
    );
}
