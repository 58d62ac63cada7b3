use reprobisect::cli::{evidence_lines, EvidenceArgs, OutputFormat};
use reprobisect::compat::{
    destination_problem, detect_kind, file_problem, load_evidence, migrate_build_failure,
    migrate_build_run, migrate_check_report, migrate_environment_comparison, migrate_fix_report,
    misfit, normalize, read_problem, validate_schema_version, EvidenceDocument, LoadedEvidence,
    MigrationStats, MAX_EVIDENCE_BYTES,
};
use reprobisect::digest::sha256_bytes;
use reprobisect::json::{insert_field, list_of_json, parse_json, text_of_json, whole_of_json, Json};
use reprobisect::model::{BuildFailure, ControlledEnvironment, RunnerBackend};
use reprobisect::schema::{
    EvidenceKind, BUILD_EVIDENCE_SCHEMA_CURRENT, CHECK_REPORT_SCHEMA_CURRENT,
    ENVIRONMENT_COMPARISON_SCHEMA_CURRENT, FIX_REPORT_SCHEMA_CURRENT,
};
use reprobisect::string_map::StringMap;

const EXPERIMENT: &str = "00000000-0000-4000-8000-000000000001";
const RUN: &str = "00000000-0000-4000-8000-000000000002";

const PHASE6_ENVIRONMENT: &str = r#"{
    "image_override": null,
    "container_source_path": "/src",
    "container_work_path": "/workspace",
    "source_copy_order": "sorted",
    "environment": {},
    "hostname": "reprobisect-control",
    "cpu_count": null,
    "source_mtime_epoch": null,
    "umask": null,
    "network_mode": "default"
}"#;

fn phase6_run_text() -> String {
    format!(
        r#"{{
            "schema_version": 1,
            "experiment_id": "{EXPERIMENT}",
            "run_id": "{RUN}",
            "ordinal": 1,
            "source_digest": "abc",
            "image": "example:latest",
            "resolved_image_id": "sha256:example",
            "command": ["true"],
            "working_directory": ".",
            "effective_environment": {{}},
            "controlled_environment": {PHASE6_ENVIRONMENT},
            "toolchain_provenance": {{"probes": [], "error": null}},
            "exit_code": 0,
            "duration_ms": 1,
            "stdout": "legacy stdout\n",
            "stderr": "legacy stderr\n",
            "artifacts": [{{
                "logical_path": "out",
                "sha256": "deadbeef",
                "size_bytes": 1,
                "detected_type": "generic",
                "embedded_markers": [],
                "elf_debug_markers": [],
                "elf_marker_locations": [],
                "elf_metadata": null,
                "archive_metadata": null
            }}]
        }}"#
    )
}

fn phase6_check_text() -> String {
    let run = phase6_run_text();
    format!(
        r#"{{
            "schema_version": 5,
            "experiment_id": "{EXPERIMENT}",
            "status": "reproducible",
            "source_digest": "abc",
            "source_provenance": {{"git_commit": null, "git_dirty": null, "dependency_files": []}},
            "baseline_environment": {PHASE6_ENVIRONMENT},
            "runs": [{run}],
            "artifact_comparisons": [],
            "interventions": [],
            "interaction_search": null,
            "diagnoses": [],
            "notes": []
        }}"#
    )
}

fn parse(text: &str) -> Json {
    parse_json(text.as_bytes()).unwrap()
}

fn set(value: &mut Json, name: &str, field: &str) {
    match value {
        Json::Object(fields) => insert_field(fields, name, parse(field)),
        _ => panic!("expected an object"),
    }
}

fn first_run(report: &Json) -> &Json {
    &list_of_json(report.get("runs")).unwrap()[0]
}

#[test]
fn phase6_check_normalizes_to_current_and_derives_full_log_identity() {
    let mut stats = MigrationStats::default();
    let report = migrate_check_report(parse(&phase6_check_text()), &mut stats).unwrap();
    assert_eq!(
        whole_of_json(report.get("schema_version")),
        Some(CHECK_REPORT_SCHEMA_CURRENT as u64)
    );
    let run = first_run(&report);
    assert_eq!(
        whole_of_json(run.get("schema_version")),
        Some(BUILD_EVIDENCE_SCHEMA_CURRENT as u64)
    );
    assert_eq!(whole_of_json(run.get("stdout_bytes")), Some(14));
    assert_eq!(
        text_of_json(run.get("stdout_sha256")),
        Some(&sha256_bytes(b"legacy stdout\n"))
    );
    assert_eq!(run.get("stdout_truncated"), Some(&Json::Bool(false)));
    assert_eq!(stats.derived_legacy_log_digests, 1);
}

#[test]
fn phase8_unbounded_cache_summary_gets_explicit_legacy_sentinels() {
    let mut run = parse(&phase6_run_text());
    set(&mut run, "schema_version", "3");
    set(&mut run, "source_overrides", "[]");
    set(
        &mut run,
        "network_trace",
        r#"{"attempted": false, "tracer_available": false, "connect_calls": 0, "sendto_calls": 0}"#,
    );
    set(
        &mut run,
        "runtime_dependency_provenance",
        r#"{
            "attempted": true,
            "dependency_files": [],
            "dependency_resolutions": [],
            "cache_summaries": [{
                "ecosystem": "cargo",
                "before_file_count": 1,
                "before_total_bytes": 10,
                "before_aggregate_sha256": "a",
                "after_file_count": 2,
                "after_total_bytes": 20,
                "after_aggregate_sha256": "b",
                "changed_during_build": true
            }],
            "error": null
        }"#,
    );
    let mut stats = MigrationStats::default();
    let run = migrate_build_run(run, &mut stats).unwrap();
    let provenance = run.get("runtime_dependency_provenance").unwrap();
    let cache = &list_of_json(provenance.get("cache_summaries")).unwrap()[0];
    assert_eq!(whole_of_json(cache.get("max_files")), Some(0));
    assert_eq!(whole_of_json(cache.get("max_bytes")), Some(0));
    assert_eq!(cache.get("observed_change"), Some(&Json::Bool(true)));
    assert_eq!(cache.get("comparison_complete"), Some(&Json::Bool(true)));
    assert_eq!(stats.legacy_cache_summaries_migrated, 1);
}

#[test]
fn rejects_pre_phase6_and_future_schema_versions() {
    assert!(validate_schema_version(EvidenceKind::CheckReport, 4).is_err());
    assert!(validate_schema_version(EvidenceKind::CheckReport, 15).is_err());
    assert!(validate_schema_version(EvidenceKind::BuildRun, 0).is_err());
    assert!(validate_schema_version(EvidenceKind::BuildRun, 11).is_err());
    assert!(validate_schema_version(EvidenceKind::FixReport, 1).is_err());
    assert!(validate_schema_version(EvidenceKind::FixReport, 13).is_err());
    assert!(validate_schema_version(EvidenceKind::EnvironmentComparisonReport, 0).is_err());
    assert!(validate_schema_version(EvidenceKind::EnvironmentComparisonReport, 5).is_err());
}

#[test]
fn supported_versions_are_accepted_and_others_named() {
    assert!(validate_schema_version(EvidenceKind::CheckReport, 5).is_ok());
    assert!(validate_schema_version(EvidenceKind::CheckReport, 14).is_ok());
    assert_eq!(
        validate_schema_version(EvidenceKind::BuildFailure, 0).unwrap_err(),
        "unsupported legacy build failure schema 0; oldest supported schema is 1 (Phase 6 compatibility boundary)"
    );
    assert!(validate_schema_version(EvidenceKind::FixReport, 13)
        .unwrap_err()
        .starts_with("unsupported future fix report schema 13;"));
}

#[test]
fn kind_detection_is_structural_and_refuses_unknown_json() {
    assert_eq!(
        detect_kind(&parse(&phase6_check_text())).unwrap(),
        EvidenceKind::CheckReport
    );
    assert_eq!(
        detect_kind(&parse(&phase6_run_text())).unwrap(),
        EvidenceKind::BuildRun
    );
    assert!(detect_kind(&parse(r#"{"schema_version": 1, "hello": "world"}"#)).is_err());
}

#[test]
fn other_kinds_are_detected_by_their_fields() {
    assert_eq!(
        detect_kind(&parse(r#"{"run_id": "x", "exit_code": 1}"#)),
        Ok(EvidenceKind::BuildFailure)
    );
    assert_eq!(
        detect_kind(&parse(
            r#"{"good_manifest_sha256": "a", "bad_manifest_sha256": "b"}"#
        )),
        Ok(EvidenceKind::EnvironmentComparisonReport)
    );
    assert_eq!(
        detect_kind(&parse(
            r#"{"diagnosis": {}, "candidates": [], "verifications": []}"#
        )),
        Ok(EvidenceKind::FixReport)
    );
    assert_eq!(
        detect_kind(&parse("[]")).unwrap_err(),
        "evidence JSON must have a top-level object"
    );
}

#[test]
fn loads_frozen_phase6_check_fixture_end_to_end() {
    let loaded = load_evidence("phase6-check-v5.json", phase6_check_text().as_bytes()).unwrap();
    assert_eq!(loaded.summary.kind, EvidenceKind::CheckReport);
    assert_eq!(loaded.summary.source_schema_version, 5);
    assert_eq!(
        loaded.summary.normalized_schema_version,
        CHECK_REPORT_SCHEMA_CURRENT
    );
    assert!(loaded.summary.migrated);
    assert_eq!(loaded.summary.build_documents_migrated, 1);
    assert_eq!(loaded.summary.derived_legacy_log_digests, 1);
    let run = first_run(&loaded.value);
    assert_eq!(
        whole_of_json(run.get("schema_version")),
        Some(BUILD_EVIDENCE_SCHEMA_CURRENT as u64)
    );
    assert_eq!(
        text_of_json(run.get("stdout_sha256")),
        Some(&sha256_bytes(b"legacy stdout\n"))
    );
}

#[test]
fn loads_frozen_phase6_build_failure_fixture_end_to_end() {
    let text = format!(
        r#"{{
            "schema_version": 1,
            "experiment_id": "{EXPERIMENT}",
            "run_id": "{RUN}",
            "ordinal": 1,
            "source_digest": "abc",
            "image": "example:latest",
            "resolved_image_id": "sha256:example",
            "command": ["false"],
            "working_directory": ".",
            "effective_environment": {{}},
            "controlled_environment": {PHASE6_ENVIRONMENT},
            "toolchain_provenance": {{"probes": [], "error": null}},
            "exit_code": 1,
            "duration_ms": 1,
            "stdout": "legacy failure stdout\n",
            "stderr": "legacy failure stderr\n"
        }}"#
    );
    let loaded = load_evidence("phase6-build-failure-v1.json", text.as_bytes()).unwrap();
    assert_eq!(loaded.summary.kind, EvidenceKind::BuildFailure);
    assert_eq!(loaded.summary.source_schema_version, 1);
    assert_eq!(loaded.summary.derived_legacy_log_digests, 1);
    assert_eq!(
        whole_of_json(loaded.value.get("schema_version")),
        Some(BUILD_EVIDENCE_SCHEMA_CURRENT as u64)
    );
    assert_eq!(
        text_of_json(loaded.value.get("stdout_sha256")),
        Some(&sha256_bytes(b"legacy failure stdout\n"))
    );
}

#[test]
fn loads_frozen_phase7_fix_fixture_end_to_end() {
    let check = phase6_check_text();
    let text = format!(
        r#"{{
            "schema_version": 3,
            "status": "no_safe_plan",
            "diagnosis": {check},
            "candidates": [],
            "verifications": [],
            "notes": []
        }}"#
    );
    let loaded = load_evidence("phase7-fix-v3.json", text.as_bytes()).unwrap();
    assert_eq!(loaded.summary.kind, EvidenceKind::FixReport);
    assert_eq!(loaded.summary.source_schema_version, 3);
    assert_eq!(
        whole_of_json(loaded.value.get("schema_version")),
        Some(FIX_REPORT_SCHEMA_CURRENT as u64)
    );
    assert_eq!(
        whole_of_json(loaded.value.get("diagnosis").unwrap().get("schema_version")),
        Some(CHECK_REPORT_SCHEMA_CURRENT as u64)
    );
}

#[test]
fn loads_frozen_phase8_cache_fixture_end_to_end() {
    let text = format!(
        r#"{{
            "schema_version": 3,
            "experiment_id": "{EXPERIMENT}",
            "run_id": "{RUN}",
            "ordinal": 1,
            "source_digest": "abc",
            "image": "example:latest",
            "resolved_image_id": "sha256:example",
            "command": ["true"],
            "working_directory": ".",
            "effective_environment": {{}},
            "controlled_environment": {PHASE6_ENVIRONMENT},
            "toolchain_provenance": {{"probes": [], "error": null}},
            "source_overrides": [],
            "network_trace": {{
                "attempted": false, "tracer_available": false, "connect_calls": 0, "sendto_calls": 0
            }},
            "runtime_dependency_provenance": {{
                "attempted": true,
                "dependency_files": [],
                "dependency_resolutions": [],
                "cache_summaries": [{{
                    "ecosystem": "cargo",
                    "before_file_count": 1,
                    "before_total_bytes": 10,
                    "before_aggregate_sha256": "a",
                    "after_file_count": 2,
                    "after_total_bytes": 20,
                    "after_aggregate_sha256": "b",
                    "changed_during_build": true
                }}],
                "error": null
            }},
            "exit_code": 0,
            "duration_ms": 1,
            "stdout": "",
            "stderr": "",
            "artifacts": []
        }}"#
    );
    let loaded = load_evidence("phase8-build-run-v3.json", text.as_bytes()).unwrap();
    assert_eq!(loaded.summary.kind, EvidenceKind::BuildRun);
    assert_eq!(loaded.summary.source_schema_version, 3);
    assert_eq!(loaded.summary.legacy_cache_summaries_migrated, 1);
    let provenance = loaded.value.get("runtime_dependency_provenance").unwrap();
    let cache = &list_of_json(provenance.get("cache_summaries")).unwrap()[0];
    assert_eq!(whole_of_json(cache.get("max_files")), Some(0));
    assert_eq!(whole_of_json(cache.get("max_bytes")), Some(0));
    assert_eq!(cache.get("comparison_complete"), Some(&Json::Bool(true)));
    assert_eq!(cache.get("observed_change"), Some(&Json::Bool(true)));
}

#[test]
fn loads_phase14_comparison_fixture_and_defaults_failure_fields() {
    let run = phase6_run_text();
    let text = format!(
        r#"{{
            "schema_version": 1,
            "experiment_id": "{EXPERIMENT}",
            "status": "equivalent",
            "source_digest": "abc",
            "source_provenance": {{"git_commit": null, "git_dirty": null, "dependency_files": []}},
            "good_manifest_sha256": "a",
            "bad_manifest_sha256": "b",
            "good_runs": [{run}],
            "bad_runs": [{run}],
            "artifact_deltas": [],
            "environment_delta": [],
            "minimal_delta": [],
            "tested_subsets": 0,
            "reproduction_runs": [],
            "reverted_to_good": null,
            "confirmation_run": null,
            "notes": []
        }}"#
    );
    let loaded = load_evidence("phase14-comparison-v1.json", text.as_bytes()).unwrap();
    assert_eq!(
        loaded.summary.kind,
        EvidenceKind::EnvironmentComparisonReport
    );
    assert_eq!(loaded.summary.source_schema_version, 1);
    assert_eq!(
        whole_of_json(loaded.value.get("schema_version")),
        Some(ENVIRONMENT_COMPARISON_SCHEMA_CURRENT as u64)
    );
    for field in ["good_failures", "bad_failures", "reproduction_failures"] {
        match loaded.value.get(field) {
            None => {}
            failures => assert!(list_of_json(failures).unwrap().is_empty()),
        }
    }
    assert!(matches!(
        loaded.value.get("bad_failure_signature"),
        None | Some(Json::Null)
    ));
}

#[test]
fn check_reports_of_the_oldest_version_get_notes() {
    let loaded = load_evidence("check.json", phase6_check_text().as_bytes()).unwrap();
    assert_eq!(loaded.summary.kind, EvidenceKind::CheckReport);
    assert_eq!(loaded.summary.source_schema_version, 5);
    assert_eq!(
        loaded.summary.normalized_schema_version,
        CHECK_REPORT_SCHEMA_CURRENT
    );
    assert!(loaded.summary.migrated);
    assert_eq!(loaded.summary.build_documents_migrated, 1);
    assert_eq!(loaded.summary.derived_legacy_log_digests, 1);
    assert_eq!(loaded.summary.notes.len(), 2);
    assert_eq!(
        loaded.summary.notes[0],
        "normalized check report schema 5 to current schema 14"
    );
    assert_eq!(
        load_evidence("x.json", b"{").unwrap_err(),
        "cannot parse evidence JSON x.json: EOF while parsing an object at line 1 column 1"
    );
}

#[test]
fn current_build_schema_refuses_missing_phase18_log_identity_fields() {
    let mut run = parse(&phase6_run_text());
    set(&mut run, "schema_version", "10");
    set(&mut run, "source_overrides", "[]");
    set(&mut run, "network_trace", "{}");
    set(&mut run, "runtime_dependency_provenance", "{}");
    set(&mut run, "process_trace", "{}");
    set(&mut run, "runner_backend", "\"docker\"");

    let mut stats = MigrationStats::default();
    let error = migrate_build_run(run, &mut stats).unwrap_err();
    assert!(error.contains("log_capture_max_bytes"));
}

#[test]
fn schema8_build_evidence_refuses_missing_runner_backend() {
    let mut run = parse(&phase6_run_text());
    set(&mut run, "schema_version", "8");
    set(&mut run, "source_overrides", "[]");
    set(&mut run, "network_trace", "{}");
    set(&mut run, "runtime_dependency_provenance", "{}");
    set(&mut run, "process_trace", "{}");

    let mut stats = MigrationStats::default();
    let error = migrate_build_run(run, &mut stats).unwrap_err();
    assert!(error.contains("runner_backend"));
}

#[test]
fn schema4_cache_summary_refuses_missing_bounded_fields() {
    let mut run = parse(&phase6_run_text());
    set(&mut run, "schema_version", "4");
    set(&mut run, "source_overrides", "[]");
    set(&mut run, "network_trace", "{}");
    set(
        &mut run,
        "runtime_dependency_provenance",
        r#"{
            "attempted": true,
            "cache_summaries": [{
                "ecosystem": "cargo",
                "before_file_count": 1,
                "before_total_bytes": 10,
                "after_file_count": 2,
                "after_total_bytes": 20,
                "changed_during_build": true
            }]
        }"#,
    );

    let mut stats = MigrationStats::default();
    let error = migrate_build_run(run, &mut stats).unwrap_err();
    assert!(error.contains("malformed bounded dependency-cache summary"));
    assert!(error.ends_with(
        "before_truncated, after_truncated, max_files, max_bytes, observed_change, comparison_complete"
    ));
}

fn current_run() -> Json {
    let mut run = parse(&phase6_run_text());
    set(&mut run, "schema_version", "10");
    set(&mut run, "source_overrides", "[]");
    set(&mut run, "network_trace", "{}");
    set(&mut run, "runtime_dependency_provenance", "{}");
    set(&mut run, "process_trace", "{}");
    set(&mut run, "runner_backend", "\"docker\"");
    set(&mut run, "log_capture_max_bytes", "1048576");
    set(&mut run, "stdout_sha256", "\"a\"");
    set(&mut run, "stderr_sha256", "\"b\"");
    set(&mut run, "stdout_bytes", "1");
    set(&mut run, "stderr_bytes", "1");
    set(&mut run, "stdout_truncated", "false");
    set(&mut run, "stderr_truncated", "true");
    run
}

#[test]
fn current_phase18_build_fixture_requires_no_migration() {
    let loaded = normalize(current_run()).unwrap();
    assert_eq!(loaded.summary.kind, EvidenceKind::BuildRun);
    assert_eq!(
        loaded.summary.source_schema_version,
        BUILD_EVIDENCE_SCHEMA_CURRENT
    );
    assert!(!loaded.summary.migrated);
    assert_eq!(loaded.summary.build_documents_migrated, 0);
    assert_eq!(loaded.summary.derived_legacy_log_digests, 0);
    assert!(loaded.summary.notes.is_empty());
    assert_eq!(loaded.value, current_run());
}

#[test]
fn malformed_documents_are_refused() {
    let mut stats = MigrationStats::default();
    let mut run = parse(&phase6_run_text());
    set(&mut run, "schema_version", "\"1\"");
    assert_eq!(
        migrate_build_run(run, &mut stats).unwrap_err(),
        "build run is missing an integer schema_version"
    );
    let mut run = parse(&phase6_run_text());
    set(&mut run, "stdout", "7");
    assert_eq!(
        migrate_build_run(run, &mut stats).unwrap_err(),
        "legacy build evidence is missing stdout text"
    );
    let mut run = parse(&phase6_run_text());
    set(&mut run, "runtime_dependency_provenance", "[]");
    assert_eq!(
        migrate_build_run(run, &mut stats).unwrap_err(),
        "runtime_dependency_provenance must be an object"
    );
    let failure = parse(r#"{"schema_version": 1, "stdout": "", "stderr": ""}"#);
    assert!(migrate_build_failure(failure, &mut stats).is_ok());
    let run = parse(r#"{"schema_version": 1, "stdout": "", "stderr": ""}"#);
    assert_eq!(
        migrate_build_run(run, &mut stats).unwrap_err(),
        "build run is missing artifacts"
    );
    let mut check = parse(&phase6_check_text());
    set(&mut check, "runs", "{}");
    assert_eq!(
        migrate_check_report(check, &mut stats).unwrap_err(),
        "check report runs must be an array"
    );
    let mut check = parse(&phase6_check_text());
    set(&mut check, "interventions", "[1]");
    assert_eq!(
        migrate_check_report(check, &mut stats).unwrap_err(),
        "intervention result must be a JSON object"
    );
}

#[test]
fn nested_builds_are_migrated_everywhere() {
    let run = phase6_run_text();
    let mut stats = MigrationStats::default();
    let mut check = parse(&phase6_check_text());
    set(
        &mut check,
        "interventions",
        &format!(
            r#"[{{"runs": [{run}], "reference_runs": [{run}], "build_failures": [{run}], "confirmation_run": {run}}}]"#
        ),
    );
    set(
        &mut check,
        "interaction_search",
        &format!(r#"{{"runs": [{run}], "confirmation_run": null}}"#),
    );
    migrate_check_report(check, &mut stats).unwrap();
    assert_eq!(stats.build_documents_migrated, 6);

    let mut stats = MigrationStats::default();
    let check = phase6_check_text();
    let fix = parse(&format!(
        r#"{{"schema_version": 3, "diagnosis": {check}, "candidates": [],
            "verifications": [{{"baseline_runs": [{run}], "intervention_runs": [{run}]}}]}}"#
    ));
    let fix = migrate_fix_report(fix, &mut stats).unwrap();
    assert_eq!(stats.build_documents_migrated, 3);
    assert_eq!(
        whole_of_json(fix.get("schema_version")),
        Some(FIX_REPORT_SCHEMA_CURRENT as u64)
    );
    assert_eq!(
        whole_of_json(fix.get("diagnosis").unwrap().get("schema_version")),
        Some(CHECK_REPORT_SCHEMA_CURRENT as u64)
    );

    let mut stats = MigrationStats::default();
    let comparison = parse(&format!(
        r#"{{"schema_version": 1, "good_manifest_sha256": "a", "bad_manifest_sha256": "b",
            "good_runs": [{run}], "bad_failures": [{run}], "confirmation_failure": {run}}}"#
    ));
    let comparison = migrate_environment_comparison(comparison, &mut stats).unwrap();
    assert_eq!(stats.build_documents_migrated, 3);
    assert_eq!(
        whole_of_json(comparison.get("schema_version")),
        Some(ENVIRONMENT_COMPARISON_SCHEMA_CURRENT as u64)
    );
}

#[test]
fn files_and_destinations_are_checked() {
    assert_eq!(
        file_problem("e", false, 1).as_deref(),
        Some("evidence path is not a regular file: e")
    );
    assert!(file_problem("e", true, MAX_EVIDENCE_BYTES + 1).is_some());
    assert_eq!(file_problem("e", true, MAX_EVIDENCE_BYTES), None);
    assert!(read_problem("e", MAX_EVIDENCE_BYTES + 1).is_some());
    assert_eq!(read_problem("e", 5), None);
    assert_eq!(
        destination_problem("s", "/a/s", "o", "/a/s", false).as_deref(),
        Some("normalized evidence output must differ from the source evidence file: s")
    );
    assert!(destination_problem("s", "/a/s", "o", "/a/o", true)
        .unwrap()
        .contains("symlink"));
    assert_eq!(destination_problem("s", "/a/s", "o", "/a/o", false), None);
    assert_eq!(
        misfit(EvidenceKind::BuildRun),
        "legacy build run could not be normalized to the current schema"
    );
}

#[test]
fn evidence_is_summarized_in_lines() {
    let loaded = load_evidence("run.json", phase6_run_text().as_bytes()).unwrap();
    let document = EvidenceDocument::BuildFailure(BuildFailure {
        schema_version: BUILD_EVIDENCE_SCHEMA_CURRENT,
        experiment_id: EXPERIMENT.to_string(),
        run_id: RUN.to_string(),
        ordinal: 1,
        runner_backend: RunnerBackend::Docker,
        source_digest: String::new(),
        image: String::new(),
        resolved_image_id: String::new(),
        command: vec![],
        working_directory: ".".to_string(),
        effective_environment: StringMap::new(),
        controlled_environment: ControlledEnvironment::default(),
        toolchain_provenance: Default::default(),
        source_overrides: vec![],
        network_trace: Default::default(),
        process_trace: Default::default(),
        runtime_dependency_provenance: Default::default(),
        exit_code: 1,
        duration_ms: 1,
        log_capture_max_bytes: 0,
        stdout: String::new(),
        stderr: String::new(),
        stdout_sha256: String::new(),
        stderr_sha256: String::new(),
        stdout_bytes: 0,
        stderr_bytes: 0,
        stdout_truncated: false,
        stderr_truncated: false,
    });
    assert_eq!(document.kind(), EvidenceKind::BuildFailure);
    let loaded = LoadedEvidence {
        source_path: "run.json".to_string(),
        summary: loaded.summary,
        document,
    };
    let args = EvidenceArgs {
        input: "run.json".to_string(),
        format: OutputFormat::Text,
        normalized_output: Some("new.json".to_string()),
        force: false,
    };
    let lines = evidence_lines(&loaded, &args);
    assert_eq!(lines[2], "kind: build run");
    assert_eq!(lines[5], "migration: APPLIED");
    assert_eq!(lines[lines.len() - 1], "normalized evidence: new.json");
}
