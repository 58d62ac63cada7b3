use reprobisect::cli::fix_exit_code;
use reprobisect::config::{
    default_log_capture_max_bytes, default_timeout_seconds, default_working_directory, BuildConfig,
    Config, ExperimentsConfig,
};
use reprobisect::digest::sha256_bytes;
use reprobisect::engine::control::{conclude_check, CheckSubject, InteractionOutcome};
use reprobisect::engine::fix::{
    append_flags, apply_plan_to_environments, check_source, conclude_fix, generate_fix_plans,
    has_path_elf_pair, judge_verification, recover_intervention, unverified, FixPlan,
};
use reprobisect::engine::patch::{
    apply_project_patch, archive_mode_project_patch, archive_mtime_project_patch,
    makefile_append_patch, path_project_patch, unique_literal_replacement, PatchFiles, PatchTarget,
    PathState, ProjectPatchOperation,
};
use reprobisect::evidence::fix_file;
use reprobisect::model::{
    ArtifactDelta, ArtifactRecord, ArtifactType, BuildRun, CheckReport, CheckStatus,
    ControlledEnvironment, ElfMarkerLocation, Intervention, InterventionKind, InterventionResult,
    RunnerBackend,
};
use reprobisect::report::fix_text_lines;
use reprobisect::schema::{BUILD_EVIDENCE_SCHEMA_CURRENT, FIX_REPORT_SCHEMA_CURRENT};
use reprobisect::string_map::StringMap;

fn run_with_hash(hash: &str) -> BuildRun {
    BuildRun {
        schema_version: BUILD_EVIDENCE_SCHEMA_CURRENT,
        experiment_id: "00000000-0000-0000-0000-000000000000".to_string(),
        run_id: "00000000-0000-4000-8000-000000000001".to_string(),
        ordinal: 1,
        runner_backend: RunnerBackend::Docker,
        source_digest: "source".to_string(),
        image: "demo".to_string(),
        resolved_image_id: "sha256:demo".to_string(),
        command: vec!["true".to_string()],
        working_directory: ".".to_string(),
        effective_environment: StringMap::new(),
        controlled_environment: ControlledEnvironment::default(),
        toolchain_provenance: Default::default(),
        source_overrides: Vec::new(),
        network_trace: Default::default(),
        process_trace: Default::default(),
        runtime_dependency_provenance: Default::default(),
        exit_code: 0,
        duration_ms: 1,
        log_capture_max_bytes: 1024 * 1024,
        stdout: String::new(),
        stderr: String::new(),
        stdout_sha256: sha256_bytes(b""),
        stderr_sha256: sha256_bytes(b""),
        stdout_bytes: 0,
        stderr_bytes: 0,
        stdout_truncated: false,
        stderr_truncated: false,
        artifacts: vec![ArtifactRecord {
            logical_path: "out".to_string(),
            sha256: hash.to_string(),
            size_bytes: 1,
            detected_type: ArtifactType::Generic,
            embedded_markers: Vec::new(),
            elf_debug_markers: Vec::new(),
            elf_marker_locations: Vec::new(),
            elf_metadata: None,
            archive_metadata: None,
            semantic_metadata: None,
        }],
    }
}

fn config(image: &str, command: &[&str], outputs: &[&str]) -> Config {
    Config {
        build: BuildConfig {
            runner: RunnerBackend::Docker,
            image: image.to_string(),
            command: command.iter().map(|part| part.to_string()).collect(),
            outputs: outputs.iter().map(|path| path.to_string()).collect(),
            env: StringMap::new(),
            working_directory: default_working_directory(),
            timeout_seconds: default_timeout_seconds(),
            log_capture_max_bytes: default_log_capture_max_bytes(),
        },
        experiments: ExperimentsConfig::default(),
    }
}

fn no_files() -> PatchFiles {
    PatchFiles {
        makefile: absent(),
        cmake: absent(),
        meson: absent(),
        cargo_manifest: false,
        cargo_config: false,
        cargo_config_toml: PathState::Absent,
        scripts: vec![],
    }
}

fn absent() -> PatchTarget {
    PatchTarget::Absent {
        cause: "No such file or directory (os error 2)".to_string(),
    }
}

fn file(text: &str) -> PatchTarget {
    PatchTarget::File(text.as_bytes().to_vec())
}

fn build_path_result() -> InterventionResult {
    InterventionResult {
        intervention: Intervention {
            id: "build-path".into(),
            kind: InterventionKind::BuildPath,
            variable: "build_path".into(),
            baseline_value: "/workspace".into(),
            variant_value: "/opt/reprobisect/build".into(),
            description: String::new(),
        },
        runs: vec![],
        reference_runs: vec![],
        build_failures: vec![],
        artifact_deltas: vec![ArtifactDelta {
            logical_path: "build/app".into(),
            baseline_sha256: "a".into(),
            variant_sha256: "b".into(),
            changed: true,
            marker_evidence: vec![],
            elf_debug_marker_evidence: vec![],
            elf_marker_location_evidence: vec![ElfMarkerLocation {
                variable: "build_path".into(),
                value: "/workspace".into(),
                section: ".debug_line_str".into(),
            }],
            archive_metadata_evidence: vec![],
            semantic_evidence: vec![],
            baseline_direct_marker: true,
            variant_direct_marker: false,
            direct_structural_evidence: false,
        }],
        changed: true,
        variant_stable: Some(true),
        distinct_variant_outcomes: 1,
        stochastic_effect: None,
        reverted_to_baseline: Some(true),
        confirmation_run: None,
        error: None,
    }
}

fn other_path() -> ElfMarkerLocation {
    ElfMarkerLocation {
        variable: "build_path".into(),
        value: "/opt/reprobisect/build".into(),
        section: ".debug_line_str".into(),
    }
}

#[test]
fn append_flags_preserves_existing_flags() {
    assert_eq!(
        append_flags("-O2", "-fdebug-prefix-map=/a=."),
        "-O2 -fdebug-prefix-map=/a=."
    );
}

#[test]
fn path_fix_requires_baseline_and_variant_elf_evidence() {
    let mut result = build_path_result();
    assert!(!has_path_elf_pair(&result));
    result.artifact_deltas[0]
        .elf_marker_location_evidence
        .push(other_path());
    assert!(has_path_elf_pair(&result));
}

#[test]
fn a_literal_is_replaced_only_at_a_single_site() {
    let pair = |a: &str, b: &str| (a.to_string(), b.to_string());
    let candidates = vec![pair("tar ", "x tar "), pair("zip ", "x zip ")];
    assert_eq!(
        unique_literal_replacement("run tar now", &candidates),
        Some(pair("tar ", "x tar "))
    );
    assert_eq!(unique_literal_replacement("tar tar ", &candidates), None);
    assert_eq!(unique_literal_replacement("tar zip ", &candidates), None);
    assert_eq!(unique_literal_replacement("nothing", &candidates), None);
    assert_eq!(unique_literal_replacement("ab", &vec![pair("", "x")]), None);
    assert_eq!(
        unique_literal_replacement("", &vec![pair("", "x")]),
        Some(pair("", "x"))
    );
}

#[test]
fn makefile_patch_is_append_only_and_rejects_stale_target() {
    let before = "all:\n\t@echo ok\n";
    let files = PatchFiles {
        makefile: file(before),
        ..no_files()
    };
    let patch = makefile_append_patch(
        &files,
        "test-plan",
        "# ReproBisect candidate: test-plan\nEXTRA_FLAGS := -ffile-prefix-map=/a=.\n",
    )
    .expect("expected root Makefile patch");
    let after = String::from_utf8(apply_project_patch("/w", &patch, &file(before)).unwrap()).unwrap();
    assert!(after.starts_with(before));
    assert!(after.contains("# ReproBisect candidate: test-plan"));
    assert!(patch.unified_diff.contains("+++ b/Makefile"));

    let error = apply_project_patch("/w", &patch, &file("changed by user\n")).unwrap_err();
    assert!(error.contains("refusing to apply stale patch"));
}

#[test]
fn targets_that_cannot_be_patched_are_named() {
    let files = PatchFiles {
        makefile: file("all:\n"),
        ..no_files()
    };
    let mut patch = makefile_append_patch(&files, "id", "# block\n").unwrap();
    assert_eq!(
        apply_project_patch("/w", &patch, &absent()).unwrap_err(),
        "cannot stat project patch target /w/Makefile: No such file or directory (os error 2)"
    );
    assert_eq!(
        apply_project_patch("/w", &patch, &PatchTarget::NotAFile).unwrap_err(),
        "project patch target Makefile is not a regular file"
    );
    let closed = PatchTarget::Unreadable {
        problem: "cannot open /w/Makefile: Permission denied (os error 13)".to_string(),
    };
    assert_eq!(
        apply_project_patch("/w", &patch, &closed).unwrap_err(),
        "cannot open /w/Makefile: Permission denied (os error 13)"
    );
    patch.operation = ProjectPatchOperation::ReplaceText {
        expected: "a".to_string(),
        replacement: "b".to_string(),
    };
    patch.expected_sha256 = Some(sha256_bytes(&[0xff, 0xfe]));
    assert_eq!(
        apply_project_patch("/w", &patch, &PatchTarget::File(vec![0xff, 0xfe])).unwrap_err(),
        "cannot read project patch target /w/Makefile: stream did not contain valid UTF-8"
    );
    patch.expected_sha256 = None;
    assert_eq!(
        apply_project_patch("/w", &patch, &file("a")).unwrap_err(),
        "existing-file patch is missing expected_sha256"
    );
}

#[test]
fn build_system_specific_path_patches_are_minimal_and_applicable() {
    let gcc = "-ffile-prefix-map=/workspace=. -fdebug-prefix-map=/workspace=.";
    let rust = "--remap-path-prefix=/workspace=.";

    let cmake = "cmake_minimum_required(VERSION 3.20)\nproject(demo C)\nadd_executable(demo main.c)\n";
    let files = PatchFiles {
        cmake: file(cmake),
        ..no_files()
    };
    let cmake_config = config("gcc:14", &["cmake", "-S", ".", "-B", "build"], &["build/demo"]);
    let patch = path_project_patch(&files, &cmake_config, "cmake-test", "build", gcc, rust)
        .expect("expected CMake patch");
    assert_eq!(patch.path, "CMakeLists.txt");
    assert!(matches!(&patch.operation, ProjectPatchOperation::Append { .. }));
    let updated = String::from_utf8(apply_project_patch("/w", &patch, &file(cmake)).unwrap()).unwrap();
    assert!(updated.contains("CMAKE_C_FLAGS"));
    assert!(updated.contains("# ReproBisect candidate: cmake-test"));

    let meson = "project(\n  'demo',\n  'c',\n)\nexecutable('demo', 'main.c')\n";
    let files = PatchFiles {
        meson: file(meson),
        ..no_files()
    };
    let meson_config = config("gcc:14", &["meson", "setup", "build"], &["build/demo"]);
    let patch = path_project_patch(&files, &meson_config, "meson-test", "build", gcc, rust)
        .expect("expected Meson patch");
    assert_eq!(patch.path, "meson.build");
    assert!(matches!(
        &patch.operation,
        ProjectPatchOperation::InsertAfterLine { .. }
    ));
    let updated = String::from_utf8(apply_project_patch("/w", &patch, &file(meson)).unwrap()).unwrap();
    assert!(updated.find("add_project_arguments").unwrap() < updated.find("executable(").unwrap());

    let files = PatchFiles {
        cargo_manifest: true,
        ..no_files()
    };
    let cargo_config = config("rust:1.85-bookworm", &["cargo", "build"], &["target/debug/demo"]);
    let patch = path_project_patch(&files, &cargo_config, "cargo-test", "build", gcc, rust)
        .expect("expected Cargo patch");
    assert_eq!(patch.path, ".cargo/config.toml");
    assert!(matches!(&patch.operation, ProjectPatchOperation::Create { .. }));
    let updated =
        String::from_utf8(apply_project_patch("/w", &patch, &absent()).unwrap()).unwrap();
    assert!(updated.contains("--remap-path-prefix=/workspace=."));
    assert!(apply_project_patch("/w", &patch, &file("")).is_err());
}

#[test]
fn make_archive_patches_use_tar_options_without_touching_recipe_lines() {
    let original = ".PHONY: all\nall:\n\ttar -cf build/out.tar payload.txt\n";
    let files = PatchFiles {
        makefile: file(original),
        ..no_files()
    };
    let config = config("debian:bookworm", &["make"], &["build/out.tar"]);

    let mtime = archive_mtime_project_patch(&files, &config, "mtime-test", "946684800")
        .expect("expected archive mtime patch");
    assert_eq!(mtime.path, "Makefile");
    let updated = String::from_utf8(apply_project_patch("/w", &mtime, &file(original)).unwrap()).unwrap();
    assert!(updated.starts_with(original));
    assert!(updated.contains("--mtime=@$(REPROBISECT_ARCHIVE_EPOCH)"));
    assert!(updated.contains("--clamp-mtime"));

    let mode =
        archive_mode_project_patch(&files, &config, "mode-test").expect("expected archive mode patch");
    let updated = String::from_utf8(apply_project_patch("/w", &mode, &file(original)).unwrap()).unwrap();
    assert!(updated.starts_with(original));
    assert!(updated.contains("--mode=u+rwX,go+rX,go-w"));
}

#[test]
fn cmake_meson_and_shell_archive_patches_are_single_site_and_applicable() {
    let cmake = "cmake_minimum_required(VERSION 3.20)\nproject(pkg NONE)\nadd_custom_target(package ALL COMMAND tar -cf ${CMAKE_BINARY_DIR}/out.tar payload.txt)\n";
    let files = PatchFiles {
        cmake: file(cmake),
        ..no_files()
    };
    let cmake_config = config(
        "debian:bookworm",
        &["cmake", "-S", ".", "-B", "build"],
        &["build/out.tar"],
    );
    let patch = archive_mtime_project_patch(&files, &cmake_config, "cmake-mtime", "946684800")
        .expect("expected one-site CMake archive patch");
    assert!(matches!(
        &patch.operation,
        ProjectPatchOperation::ReplaceText { .. }
    ));
    let updated = String::from_utf8(apply_project_patch("/w", &patch, &file(cmake)).unwrap()).unwrap();
    assert!(updated.contains("${CMAKE_COMMAND} -E env"));
    assert!(updated.contains("TAR_OPTIONS=--mtime=@946684800 --clamp-mtime"));

    let meson = "project('pkg')\nrun_command('tar', '-cf', 'out.tar', 'payload.txt')\n";
    let files = PatchFiles {
        meson: file(meson),
        ..no_files()
    };
    let meson_config = config("debian:bookworm", &["meson", "setup", "build"], &["build/out.tar"]);
    let patch = archive_mode_project_patch(&files, &meson_config, "meson-mode")
        .expect("expected one-site Meson archive patch");
    assert!(matches!(
        &patch.operation,
        ProjectPatchOperation::ReplaceText { .. }
    ));
    let updated = String::from_utf8(apply_project_patch("/w", &patch, &file(meson)).unwrap()).unwrap();
    assert!(updated.contains("run_command('env', 'TAR_OPTIONS=--mode=u+rwX,go+rX,go-w', 'tar',"));

    let script = "#!/bin/sh\nset -eu\ntar -cf build/out.tar payload.txt\n";
    let files = PatchFiles {
        scripts: vec![file(script)],
        ..no_files()
    };
    let shell_config = config(
        "debian:bookworm",
        &["sh", "-lc", "./package.sh"],
        &["build/out.tar"],
    );
    let patch = archive_mtime_project_patch(&files, &shell_config, "shell-mtime", "946684800")
        .expect("expected one-site shell archive patch");
    assert_eq!(patch.path, "package.sh");
    let updated = String::from_utf8(apply_project_patch("/w", &patch, &file(script)).unwrap()).unwrap();
    assert!(updated.contains("TAR_OPTIONS='--mtime=@946684800 --clamp-mtime' tar -cf"));
}

#[test]
fn archive_patch_refuses_ambiguous_cmake_and_meson_sites() {
    let files = PatchFiles {
        cmake: file("project(pkg NONE)\nadd_custom_target(a COMMAND tar -cf a.tar a)\nadd_custom_target(b COMMAND /usr/bin/tar -cf b.tar b)\n"),
        ..no_files()
    };
    let cmake_config = config(
        "debian:bookworm",
        &["cmake", "-S", ".", "-B", "build"],
        &["build/a.tar"],
    );
    assert!(archive_mtime_project_patch(&files, &cmake_config, "ambiguous", "1").is_none());

    let files = PatchFiles {
        meson: file("project('pkg')\nrun_command('tar', '-cf', 'a.tar', 'a')\nrun_command(\"tar\", '-cf', 'b.tar', 'b')\n"),
        ..no_files()
    };
    let meson_config = config("debian:bookworm", &["meson", "setup", "build"], &["build/a.tar"]);
    assert!(archive_mode_project_patch(&files, &meson_config, "ambiguous").is_none());
}

fn plan(id: &str, variable: &str, strategy: &str) -> FixPlan {
    FixPlan {
        id: id.into(),
        title: String::new(),
        causal_variable: variable.into(),
        strategy: strategy.into(),
        suggested_environment_appends: StringMap::new(),
        suggested_environment_overrides: StringMap::new(),
        suggested_runner_controls: StringMap::new(),
        suggested_shell_commands: vec![],
        project_patch: None,
        automatic_verification_supported: true,
        evidence: vec![],
        limitations: vec![],
    }
}

#[test]
fn operational_fix_transforms_neutralize_the_original_dimension() {
    let mut baseline = ControlledEnvironment::default();
    baseline
        .environment
        .insert("SOURCE_DATE_EPOCH".into(), "1".into());
    baseline.source_mtime_epoch = Some(1);
    baseline.umask = Some(0o022);
    let mut variant = baseline.clone();
    variant
        .environment
        .insert("SOURCE_DATE_EPOCH".into(), "2".into());
    variant.source_mtime_epoch = Some(2);
    variant.umask = Some(0o077);

    let mut timestamp = plan("timestamp", "SOURCE_DATE_EPOCH", "pin-source-date-epoch");
    timestamp
        .suggested_environment_overrides
        .insert("SOURCE_DATE_EPOCH".into(), "1".into());
    apply_plan_to_environments(&timestamp, &mut baseline, &mut variant).unwrap();
    assert_eq!(
        baseline.environment.get("SOURCE_DATE_EPOCH"),
        variant.environment.get("SOURCE_DATE_EPOCH")
    );

    let mut mtime = plan("mtime", "source_mtime", "normalize-source-mtime");
    mtime
        .suggested_runner_controls
        .insert("source_mtime_epoch".into(), "1".into());
    apply_plan_to_environments(&mtime, &mut baseline, &mut variant).unwrap();
    assert_eq!(baseline.source_mtime_epoch, Some(1));
    assert_eq!(variant.source_mtime_epoch, Some(1));

    let mut umask = plan("umask", "umask", "pin-umask");
    umask
        .suggested_runner_controls
        .insert("umask".into(), "022".into());
    apply_plan_to_environments(&umask, &mut baseline, &mut variant).unwrap();
    assert_eq!(baseline.umask, Some(0o022));
    assert_eq!(variant.umask, Some(0o022));
}

#[test]
fn numbers_in_a_plan_that_cannot_be_read_are_explained() {
    let mut baseline = ControlledEnvironment::default();
    let mut variant = ControlledEnvironment::default();
    for text in [
        "", "+", "-", "x", "1x", "-1x", "99999999999999999999", "-99999999999999999999",
        "99999999999999999999x", "9x9999999999999999999", "9223372036854775808",
        "-9223372036854775809", "+-1", "\u{661}",
    ] {
        let mut mtime = plan("mtime", "source_mtime", "normalize-source-mtime");
        mtime
            .suggested_runner_controls
            .insert("source_mtime_epoch".into(), text.into());
        assert_eq!(
            apply_plan_to_environments(&mtime, &mut baseline, &mut variant).unwrap_err(),
            format!(
                "invalid source_mtime_epoch in fix plan: {}",
                text.parse::<i64>().unwrap_err()
            )
        );
    }
    for text in ["", "+", "-1", "8", "77777777777", "777777777778", "40000000000", "7 7"] {
        let mut umask = plan("umask", "umask", "pin-umask");
        umask.suggested_runner_controls.insert("umask".into(), text.into());
        assert_eq!(
            apply_plan_to_environments(&umask, &mut baseline, &mut variant).unwrap_err(),
            format!(
                "invalid octal umask in fix plan: {}",
                u32::from_str_radix(text, 8).unwrap_err()
            )
        );
    }
    assert_eq!(baseline, ControlledEnvironment::default());
}

fn diagnosed() -> CheckReport {
    let mut result = build_path_result();
    result.artifact_deltas[0]
        .elf_marker_location_evidence
        .push(other_path());
    conclude_check(
        CheckSubject {
            experiment_id: "e".to_string(),
            source_digest: "d".to_string(),
            source_provenance: Default::default(),
            baseline_environment: ControlledEnvironment::default(),
        },
        vec![run_with_hash("a"), run_with_hash("a")],
        vec![result],
        InteractionOutcome::Omitted,
    )
}

#[test]
fn a_supported_path_diagnosis_gives_a_candidate() {
    let config = config("gcc:14", &["make"], &["build/app"]);
    let plans = generate_fix_plans(&no_files(), &config, &diagnosed());
    assert_eq!(plans.len(), 1);
    assert_eq!(plans[0].causal_variable, "build_path");
    assert_eq!(check_source(&plans[0], "d", "d"), None);
    assert!(recover_intervention(&vec![], "build_path").is_err());
}

#[test]
fn a_fix_is_verified_only_by_equal_artifacts() {
    let plan = plan("p", "build_path", "remap");
    let same = judge_verification(
        &plan,
        "v".to_string(),
        vec![run_with_hash("a"), run_with_hash("a")],
        vec![run_with_hash("a"), run_with_hash("a")],
    );
    assert!(same.verified);
    let other = judge_verification(
        &plan,
        "v".to_string(),
        vec![run_with_hash("a"), run_with_hash("a")],
        vec![run_with_hash("b"), run_with_hash("b")],
    );
    assert!(!other.verified);
    let unstable = judge_verification(
        &plan,
        "v".to_string(),
        vec![run_with_hash("a"), run_with_hash("b")],
        vec![run_with_hash("a"), run_with_hash("a")],
    );
    assert!(!unstable.verified);

    let report = conclude_fix(diagnosed(), vec![plan], vec![other], true);
    assert_eq!(report.diagnosis.status, CheckStatus::NonReproducible);
    assert_eq!(report.schema_version, FIX_REPORT_SCHEMA_CURRENT);
    assert_eq!(fix_exit_code(&report, true), 1);
    assert_eq!(fix_exit_code(&report, false), 0);
    assert_eq!(fix_file(&report), ".reprobisect/fixes/e.json");
    assert!(!fix_text_lines(&report, false).is_empty());
}

#[test]
fn what_could_not_be_verified_is_not_verified() {
    let verification = unverified(&plan("p", "x", "y"), Some("boom".to_string()));
    assert!(!verification.verified);
    assert_eq!(verification.error.as_deref(), Some("boom"));
}

#[test]
fn a_file_that_is_not_text_is_not_patched() {
    let files = PatchFiles {
        makefile: PatchTarget::File(vec![0xff, 0xfe]),
        ..no_files()
    };
    assert!(makefile_append_patch(&files, "p", "# block\n").is_none());
}
