use reprobisect::cli::{
    check_exit_code, check_options, compare_exit_code, compare_options, fix_options, manifest_path,
    validate_check_options, CheckArgs, CompareArgs, FixArgs, OutputFormat, EXIT_DIAGNOSTIC,
};
use reprobisect::config::{
    default_log_capture_max_bytes, default_timeout_seconds, default_working_directory,
    valid_environment_variable_name, valid_toolchain_executable, validate_relative_path, BuildConfig,
    Config, DependencyVariantConfig, ExperimentsConfig, FileState, ProjectFacts, VariantFiles,
};
use reprobisect::model::{CheckStatus, EnvironmentComparisonStatus, RunnerBackend};
use reprobisect::string_map::StringMap;

fn config(image: &str, command: &[&str], outputs: &[&str]) -> Config {
    Config {
        build: BuildConfig {
            runner: RunnerBackend::default(),
            image: image.to_string(),
            command: command.iter().map(|part| part.to_string()).collect(),
            outputs: outputs.iter().map(|path| path.to_string()).collect(),
            env: StringMap::new(),
            working_directory: default_working_directory(),
            timeout_seconds: default_timeout_seconds(),
            log_capture_max_bytes: default_log_capture_max_bytes(),
        },
        experiments: ExperimentsConfig::default(),
    }
}

fn facts() -> ProjectFacts {
    ProjectFacts {
        root: "/project".to_string(),
        root_is_directory: true,
        dependency_files: vec![],
    }
}

#[test]
fn defaults_are_the_documented_ones() {
    let config = config("gcc:14", &["sh", "-lc", "make"], &["build/app"]);
    assert_eq!(config.build.runner, RunnerBackend::Docker);
    assert_eq!(config.build.log_capture_max_bytes, 1024 * 1024);
    assert_eq!(config.experiments.control_runs, 2);
    assert_eq!(config.experiments.intervention_runs, 1);
    assert_eq!(config.experiments.confirmation_runs, 1);
    assert_eq!(config.experiments.stochastic_runs, 4);
    assert_eq!(f64::from_bits(config.experiments.stochastic_alpha_bits), 0.05);
    assert_eq!(config.experiments.interaction_runs, 2);
    assert_eq!(config.experiments.comparison_runs, 2);
    assert_eq!(config.experiments.comparison_subset_runs, 2);
    assert_eq!(config.experiments.max_interaction_variables, 8);
    assert!(!config.experiments.interaction_search);
    assert!(!config.experiments.dimensions.network_access);
    assert!(!config.experiments.dimensions.source_path);
    assert!(config.experiments.dimensions.build_path);
    assert!(config.experiments.dimensions.source_date_epoch);
    assert!(!config.experiments.dimensions.source_mtime);
    assert!(!config.experiments.dimensions.cpu_count);
    assert!(!config.experiments.dimensions.umask);
    assert!(!config.experiments.dimensions.directory_order);
    assert!(config.experiments.image_variants.is_empty());
    assert!(config.experiments.dependency_variants.is_empty());
    assert!(!config.experiments.network_trace);
    assert!(!config.experiments.file_input_trace);
    assert_eq!(config.experiments.syscall_trace_max_bytes, 32 * 1024 * 1024);
    assert!(!config.experiments.runtime_dependency_provenance);
    assert_eq!(config.build.timeout_seconds, 600);
    assert_eq!(config.build.working_directory, ".");
    assert_eq!(config.validate(&facts()), Ok(()));
}

#[test]
fn rejects_excessive_run_budgets_and_log_capture() {
    let mut control = config("debian:bookworm", &["true"], &["out"]);
    control.experiments.control_runs = 33;
    assert!(control.validate(&facts()).unwrap_err().contains("control_runs"));

    let mut intervention = config("debian:bookworm", &["true"], &["out"]);
    intervention.experiments.intervention_runs = 33;
    assert!(intervention
        .validate(&facts())
        .unwrap_err()
        .contains("intervention_runs"));

    let mut capture = config("debian:bookworm", &["true"], &["out"]);
    capture.build.log_capture_max_bytes = 16 * 1024 * 1024 + 1;
    assert!(capture
        .validate(&facts())
        .unwrap_err()
        .contains("log_capture_max_bytes"));
}

#[test]
fn parses_narrow_toolchain_and_dependency_variants() {
    let mut config = config("gcc:14", &["true"], &["out"]);
    config.experiments.network_trace = true;
    config.experiments.file_input_trace = true;
    config.experiments.syscall_trace_max_bytes = 16777216;
    config.experiments.runtime_dependency_provenance = true;
    config.experiments.dependency_cache_paths.insert(
        "demo".to_string(),
        "/tmp/reprobisect-demo-cache".to_string(),
    );
    config.experiments.toolchain_variables.insert(
        "CC".to_string(),
        vec!["gcc".to_string(), "{source}/toolchains/cc-alt".to_string()],
    );
    config.experiments.dependency_variants.push(DependencyVariantConfig {
        id: "requirements-demo".to_string(),
        target: "requirements.txt".to_string(),
        variant_file: "requirements.variant.txt".to_string(),
    });
    let regular = ProjectFacts {
        dependency_files: vec![VariantFiles {
            target: FileState::Regular,
            variant_file: FileState::Regular,
        }],
        ..facts()
    };
    config.validate(&regular).unwrap();

    let missing = ProjectFacts {
        dependency_files: vec![VariantFiles {
            target: FileState::Regular,
            variant_file: FileState::Unreadable {
                path: "/project/requirements.variant.txt".to_string(),
                cause: "No such file or directory".to_string(),
            },
        }],
        ..facts()
    };
    assert!(config.validate(&missing).is_err());
}

#[test]
fn rejects_duplicate_toolchain_and_environment_dimension() {
    let mut config = config("gcc:14", &["true"], &["out"]);
    let pair = || vec!["gcc".to_string(), "clang".to_string()];
    config.experiments.toolchain_variables.insert("CC".to_string(), pair());
    config.experiments.environment_variables.insert("CC".to_string(), pair());
    let error = config.validate(&facts()).unwrap_err();
    assert!(error.contains("conflicts with experiments.environment_variables.CC"));
}

#[test]
fn rejects_toolchain_shell_fragments() {
    assert!(!valid_toolchain_executable("gcc;curl bad"));
    assert!(!valid_toolchain_executable("$(evil)"));
    assert!(valid_toolchain_executable("{source}/toolchains/cc-alt"));
}

#[test]
fn rejects_parent_output_path() {
    let config = config("gcc:14", &["make"], &["../escape"]);
    assert!(config.validate(&facts()).is_err());
}

#[test]
fn relative_paths_stay_in_the_project() {
    assert!(validate_relative_path("build.outputs", "build/app").is_ok());
    assert!(validate_relative_path("build.outputs", "/etc/passwd").is_err());
    assert!(validate_relative_path("build.outputs", "a/../../b").is_err());
    assert!(valid_environment_variable_name("BUILD_FLAVOR"));
    assert!(!valid_environment_variable_name("1A"));
}

fn check_args(control_runs: Option<usize>) -> CheckArgs {
    CheckArgs {
        project: ".".to_string(),
        format: OutputFormat::Text,
        control_runs,
        intervention_runs: None,
        confirmation_runs: None,
        verbose: false,
    }
}

#[test]
fn arguments_come_before_the_configuration() {
    let config = config("gcc:14", &["make"], &["out"]);
    let options = check_options(&check_args(Some(5)), &config).unwrap();
    assert_eq!(options.control_runs, 5);
    assert_eq!(options.intervention_runs, 1);
    assert_eq!(
        check_options(&check_args(Some(1)), &config).unwrap_err(),
        "control_runs must be between 2 and 32"
    );
    let compare = compare_options(
        &CompareArgs {
            project: ".".to_string(),
            good: "good.toml".to_string(),
            bad: "bad.toml".to_string(),
            format: OutputFormat::Json,
            runs: Some(7),
            subset_runs: None,
            confirmation_runs: Some(0),
            verbose: false,
        },
        &config,
    );
    assert_eq!(compare.endpoint_runs, 7);
    assert_eq!(compare.subset_runs, 2);
    assert_eq!(compare.confirmation_runs, 0);
    let fix = fix_options(
        &FixArgs {
            project: ".".to_string(),
            format: OutputFormat::Text,
            verify: true,
            control_runs: None,
            intervention_runs: None,
            confirmation_runs: None,
            verbose: false,
        },
        &config,
    )
    .unwrap();
    assert!(fix.verify);
    assert_eq!(fix.check.control_runs, 2);
}

#[test]
fn options_out_of_range_are_named() {
    let config = config("gcc:14", &["make"], &["out"]);
    let good = check_options(&check_args(None), &config).unwrap();
    let mut options = good;
    options.intervention_runs = 0;
    assert!(validate_check_options(&options).unwrap_err().contains("intervention_runs"));
    options = good;
    options.confirmation_runs = 2;
    assert!(validate_check_options(&options).unwrap_err().contains("confirmation_runs"));
    options = good;
    options.stochastic_runs = 2;
    assert!(validate_check_options(&options).unwrap_err().contains("stochastic_runs"));
    for alpha in [0.0_f64, 1.0, -0.5, f64::NAN] {
        options = good;
        options.stochastic_alpha_bits = alpha.to_bits();
        assert!(validate_check_options(&options).unwrap_err().contains("stochastic_alpha"));
    }
    options = good;
    options.stochastic_alpha_bits = 0.999_f64.to_bits();
    assert!(validate_check_options(&options).is_ok());
    options = good;
    options.interaction_runs = 33;
    assert!(validate_check_options(&options).unwrap_err().contains("interaction_runs"));
    options = good;
    options.max_interaction_variables = 1;
    assert!(validate_check_options(&options)
        .unwrap_err()
        .contains("max_interaction_variables"));
}

#[test]
fn manifests_are_seen_from_the_project() {
    assert_eq!(manifest_path("/project", "good.toml"), "/project/good.toml");
    assert_eq!(manifest_path("/", "good.toml"), "/good.toml");
    assert_eq!(manifest_path("/project", "/etc/good.toml"), "/etc/good.toml");
}

#[test]
fn exit_codes_tell_findings_from_success() {
    assert_eq!(check_exit_code(CheckStatus::Reproducible), 0);
    assert_eq!(check_exit_code(CheckStatus::Inconclusive), EXIT_DIAGNOSTIC);
    assert_eq!(check_exit_code(CheckStatus::NonReproducible), 1);
    assert_eq!(compare_exit_code(EnvironmentComparisonStatus::Equivalent), 0);
    assert_eq!(compare_exit_code(EnvironmentComparisonStatus::Minimized), 1);
}
