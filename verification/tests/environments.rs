use reprobisect::config::{
    default_log_capture_max_bytes, default_timeout_seconds, default_working_directory, BuildConfig,
    Config, DependencyVariantConfig, ExperimentDimensionsConfig, ExperimentsConfig,
};
use reprobisect::engine::interventions::{
    baseline_environment, combine_interventions, eligible_for_interaction_search, plan_interventions,
    BASELINE_SOURCE_DATE_EPOCH, BASELINE_SOURCE_MTIME_EPOCH, BASELINE_UMASK,
};
use reprobisect::environment::{
    apply_delta_subset, diff_environments, parse_umask, EnvironmentManifest,
};
use reprobisect::model::{InterventionKind, RunnerBackend, SourceCopyOrder};
use reprobisect::string_map::{PathMap, StringMap};

fn config() -> Config {
    Config {
        build: BuildConfig {
            runner: RunnerBackend::Docker,
            image: "gcc:14".to_string(),
            command: vec!["true".to_string()],
            outputs: vec!["out".to_string()],
            env: StringMap::new(),
            working_directory: default_working_directory(),
            timeout_seconds: default_timeout_seconds(),
            log_capture_max_bytes: default_log_capture_max_bytes(),
        },
        experiments: ExperimentsConfig::default(),
    }
}

fn manifest() -> EnvironmentManifest {
    EnvironmentManifest {
        image: None,
        source_path: None,
        build_path: None,
        source_copy_order: None,
        source_date_epoch: None,
        source_mtime_epoch: None,
        timezone: None,
        locale: None,
        hostname: None,
        cpu_count: None,
        umask: None,
        network_mode: None,
        variables: StringMap::new(),
        unset_variables: vec![],
        toolchain: StringMap::new(),
        unset_toolchain: vec![],
        dependency_overrides: PathMap::new(),
    }
}

fn text(value: &str) -> Option<String> {
    Some(value.to_string())
}

#[test]
fn baseline_pins_core_environment() {
    let baseline = baseline_environment(&config());
    assert_eq!(baseline.environment.get("TZ"), text("UTC").as_ref());
    assert_eq!(baseline.environment.get("LC_ALL"), text("C").as_ref());
    assert_eq!(
        baseline.environment.get("SOURCE_DATE_EPOCH"),
        text(BASELINE_SOURCE_DATE_EPOCH).as_ref()
    );
    assert_eq!(baseline.image_override, None);
    assert_eq!(baseline.container_source_path, "/src");
    assert_eq!(baseline.container_work_path, "/workspace");
    assert_eq!(baseline.source_copy_order, SourceCopyOrder::Sorted);
    assert_eq!(baseline.toolchain_bindings.len(), 0);
    assert_eq!(baseline.source_file_overrides.len(), 0);
    assert!(!baseline.network_trace);
    assert_eq!(baseline.hostname.as_deref(), Some("reprobisect-control"));
    assert_eq!(baseline.source_mtime_epoch, None);
    assert_eq!(baseline.umask, None);
}

#[test]
fn plans_image_and_network_interventions() {
    let mut config = config();
    config.experiments.image_variants.push("gcc:15".to_string());
    config.experiments.dimensions = ExperimentDimensionsConfig {
        network_access: true,
        build_path: false,
        source_date_epoch: false,
        timezone: false,
        locale: false,
        hostname: false,
        ..ExperimentDimensionsConfig::default()
    };
    let baseline = baseline_environment(&config);
    let planned = plan_interventions(&config, &baseline);
    let image = planned
        .iter()
        .find(|p| p.intervention.kind == InterventionKind::BuildImage)
        .unwrap();
    assert_eq!(image.environment.image_override.as_deref(), Some("gcc:15"));
    let network = planned
        .iter()
        .find(|p| p.intervention.kind == InterventionKind::NetworkAccess)
        .unwrap();
    assert_eq!(network.environment.network_mode, "none");
    assert!(!eligible_for_interaction_search(image));
    assert!(!eligible_for_interaction_search(network));
}

#[test]
fn plans_narrow_toolchain_and_dependency_file_interventions() {
    let mut config = config();
    config
        .experiments
        .toolchain_variables
        .insert("CC".to_string(), vec!["gcc".to_string(), "clang".to_string()]);
    config.experiments.dependency_variants.push(DependencyVariantConfig {
        id: "requirements".to_string(),
        target: "requirements.txt".to_string(),
        variant_file: "requirements.variant.txt".to_string(),
    });
    let baseline = baseline_environment(&config);
    assert_eq!(baseline.toolchain_bindings.get("CC"), text("gcc").as_ref());
    let planned = plan_interventions(&config, &baseline);
    let toolchain = planned
        .iter()
        .find(|item| item.intervention.kind == InterventionKind::ToolchainExecutable)
        .unwrap();
    assert_eq!(
        toolchain.environment.toolchain_bindings.get("CC"),
        text("clang").as_ref()
    );
    assert!(!eligible_for_interaction_search(toolchain));

    let dependency = planned
        .iter()
        .find(|item| item.intervention.kind == InterventionKind::DependencyFile)
        .unwrap();
    assert_eq!(
        dependency.environment.source_file_overrides.get("requirements.txt"),
        text("requirements.variant.txt").as_ref()
    );
    assert!(!eligible_for_interaction_search(dependency));
}

#[test]
fn source_and_build_path_interventions_are_independent() {
    let mut config = config();
    config.experiments.dimensions = ExperimentDimensionsConfig {
        source_path: true,
        build_path: true,
        source_date_epoch: false,
        timezone: false,
        locale: false,
        hostname: false,
        ..ExperimentDimensionsConfig::default()
    };
    let baseline = baseline_environment(&config);
    let planned = plan_interventions(&config, &baseline);

    let source_path = planned
        .iter()
        .find(|planned| planned.intervention.kind == InterventionKind::SourcePath)
        .unwrap();
    assert_ne!(
        source_path.environment.container_source_path,
        baseline.container_source_path
    );
    assert_eq!(
        source_path.environment.container_work_path,
        baseline.container_work_path
    );

    let build_path = planned
        .iter()
        .find(|planned| planned.intervention.kind == InterventionKind::BuildPath)
        .unwrap();
    assert_eq!(
        build_path.environment.container_source_path,
        baseline.container_source_path
    );
    assert_ne!(
        build_path.environment.container_work_path,
        baseline.container_work_path
    );

    let combined = combine_interventions(&baseline, &[source_path.clone(), build_path.clone()]);
    assert_eq!(
        combined.container_source_path,
        source_path.environment.container_source_path
    );
    assert_eq!(
        combined.container_work_path,
        build_path.environment.container_work_path
    );
}

#[test]
fn source_mtime_and_umask_baselines_are_opt_in() {
    let mut config = config();
    config.experiments.dimensions.source_mtime = true;
    config.experiments.dimensions.umask = true;
    let baseline = baseline_environment(&config);
    assert_eq!(baseline.source_mtime_epoch, Some(BASELINE_SOURCE_MTIME_EPOCH));
    assert_eq!(baseline.umask, Some(BASELINE_UMASK));
}

#[test]
fn combines_independent_interventions_without_reverting_each_other() {
    let mut config = config();
    config.experiments.dimensions = ExperimentDimensionsConfig {
        build_path: false,
        source_date_epoch: false,
        timezone: true,
        locale: false,
        hostname: true,
        source_mtime: false,
        cpu_count: false,
        umask: false,
        ..ExperimentDimensionsConfig::default()
    };
    let baseline = baseline_environment(&config);
    let planned = plan_interventions(&config, &baseline);
    let combined = combine_interventions(&baseline, &planned);
    assert_eq!(combined.environment.get("TZ"), text("HST10").as_ref());
    assert_eq!(combined.hostname.as_deref(), Some("reprobisect-variant"));
}

#[test]
fn applies_manifest_on_top_of_canonical_baseline() {
    let config = config();
    let baseline = baseline_environment(&config);
    let mut manifest = EnvironmentManifest {
        build_path: text("/opt/build"),
        source_date_epoch: Some(1234),
        timezone: text("HST10"),
        locale: text("C.UTF-8"),
        hostname: text("known-good"),
        cpu_count: Some(2),
        umask: text("077"),
        network_mode: text("none"),
        ..manifest()
    };
    manifest
        .variables
        .insert("BUILD_FLAVOR".to_string(), "good".to_string());
    manifest.toolchain.insert("CC".to_string(), "gcc".to_string());
    let applied = manifest.apply(&baseline, &config).unwrap();
    assert_eq!(applied.container_work_path, "/opt/build");
    assert_eq!(
        applied.environment.get("SOURCE_DATE_EPOCH"),
        text("1234").as_ref()
    );
    assert_eq!(applied.environment.get("TZ"), text("HST10").as_ref());
    assert_eq!(applied.environment.get("LC_ALL"), text("C.UTF-8").as_ref());
    assert_eq!(applied.environment.get("BUILD_FLAVOR"), text("good").as_ref());
    assert_eq!(applied.hostname.as_deref(), Some("known-good"));
    assert_eq!(applied.cpu_count, Some(2));
    assert_eq!(applied.umask, Some(0o077));
    assert_eq!(applied.network_mode, "none");
    assert_eq!(applied.toolchain_bindings.get("CC"), text("gcc").as_ref());
}

#[test]
fn delta_subset_changes_only_selected_bad_dimensions() {
    let config = config();
    let good = baseline_environment(&config);
    let mut bad = good.clone();
    bad.container_work_path = "/opt/bad-build".to_string();
    bad.environment.insert("A".to_string(), "bad".to_string());
    bad.environment.insert("B".to_string(), "irrelevant".to_string());

    let delta = diff_environments(&good, &bad);
    assert_eq!(delta.len(), 3);
    let only_a = delta
        .iter()
        .find(|item| item.record.variable == "environment:A")
        .unwrap()
        .clone();
    let candidate = apply_delta_subset(&good, &[only_a]);
    assert_eq!(
        candidate.environment.get("A").map(String::as_str),
        Some("bad")
    );
    assert_eq!(candidate.environment.get("B"), None);
    assert_eq!(candidate.container_work_path, good.container_work_path);
}

#[test]
fn the_whole_delta_leads_to_the_other_environment() {
    let config = config();
    let good = baseline_environment(&config);
    let mut bad = good.clone();
    bad.hostname = None;
    bad.umask = Some(0o77);
    bad.environment.remove("TZ");
    bad.toolchain_bindings.insert("CC".to_string(), "clang".to_string());
    let delta = diff_environments(&good, &bad);
    assert_eq!(delta.len(), 4);
    assert_eq!(apply_delta_subset(&good, &delta), bad);
    assert!(diff_environments(&good, &good.clone()).is_empty());
}

#[test]
fn the_delta_the_other_way_round_exchanges_the_values() {
    let good = baseline_environment(&config());
    let mut bad = good.clone();
    bad.hostname = None;
    bad.environment.insert("ZED".to_string(), "1".to_string());
    bad.environment.remove("TZ");
    bad.toolchain_bindings.insert("CC".to_string(), "clang".to_string());
    bad.source_file_overrides.insert("a/b".to_string(), "c".to_string());
    let there = diff_environments(&good, &bad);
    let back = diff_environments(&bad, &good);
    assert_eq!(there.len(), 5);
    assert_eq!(back.len(), 5);
    for (one, other) in there.iter().zip(&back) {
        assert_eq!(one.record.variable, other.record.variable);
        assert_eq!(one.record.baseline_value, other.record.variant_value);
        assert_eq!(one.record.variant_value, other.record.baseline_value);
    }
    let mut spelled = good.clone();
    spelled.source_file_overrides.insert("a//b".to_string(), "d".to_string());
    let there = diff_environments(&bad, &spelled);
    let back = diff_environments(&spelled, &bad);
    let last = there.iter().position(|d| d.record.variable == "dependency:a/b").unwrap();
    assert_eq!(back[last].record.variable, "dependency:a//b");
    assert_eq!(back[last].record.baseline_value, "d");
}

#[test]
fn one_value_is_enough_for_a_baseline() {
    let mut config = config();
    config
        .experiments
        .environment_variables
        .insert("ONLY".to_string(), vec!["one".to_string()]);
    let baseline = baseline_environment(&config);
    assert_eq!(baseline.environment.get("ONLY"), text("one").as_ref());
}

#[test]
fn plans_vary_the_named_variable_alone() {
    let mut config = config();
    config
        .experiments
        .environment_variables
        .insert("MODE".to_string(), vec!["a".to_string(), "b".to_string()]);
    config
        .experiments
        .toolchain_variables
        .insert("CC".to_string(), vec!["gcc".to_string(), "clang".to_string()]);
    let baseline = baseline_environment(&config);
    let plans = plan_interventions(&config, &baseline);
    for (n, plan) in plans.iter().enumerate() {
        assert!(plans[..n].iter().all(|p| p.intervention.id != plan.intervention.id));
        let changed: Vec<&str> = plan
            .environment
            .environment
            .entries()
            .iter()
            .filter(|(name, value)| baseline.environment.get(name) != Some(value))
            .map(|(name, _)| name.as_str())
            .collect();
        let expected: Vec<&str> = match plan.intervention.kind {
            InterventionKind::Locale => vec!["LANG", "LC_ALL"],
            InterventionKind::EnvironmentVariable
            | InterventionKind::Timezone
            | InterventionKind::SourceDateEpoch => vec![plan.intervention.variable.as_str()],
            _ => vec![],
        };
        assert_eq!(changed, expected);
    }
    assert!(plans.iter().any(|p| p.intervention.id == "env-MODE"));
    assert!(plans.iter().any(|p| p.intervention.id == "toolchain-CC"));
}

#[test]
fn combinations_keep_bindings_and_replaced_files() {
    let mut config = config();
    config
        .experiments
        .toolchain_variables
        .insert("CC".to_string(), vec!["gcc".to_string(), "clang".to_string()]);
    config.experiments.dependency_variants = vec![DependencyVariantConfig {
        id: "lock".to_string(),
        target: "Cargo.lock".to_string(),
        variant_file: "other.lock".to_string(),
    }];
    let baseline = baseline_environment(&config);
    let plans = plan_interventions(&config, &baseline);
    let combined = combine_interventions(&baseline, &plans);
    assert_eq!(combined.toolchain_bindings.get("CC"), text("clang").as_ref());
    assert_eq!(
        combined.source_file_overrides.get("Cargo.lock"),
        text("other.lock").as_ref()
    );
}

#[test]
fn rejects_arbitrary_network_and_parent_dependency_paths() {
    let network = EnvironmentManifest {
        network_mode: text("host"),
        ..manifest()
    };
    assert!(network.validate(&vec![]).is_err());

    let mut dependency = manifest();
    dependency
        .dependency_overrides
        .insert("../Cargo.lock".to_string(), "variant.lock".to_string());
    let files = vec![reprobisect::config::VariantFiles {
        target: reprobisect::config::FileState::Regular,
        variant_file: reprobisect::config::FileState::Regular,
    }];
    assert!(dependency.validate(&files).is_err());
}

#[test]
fn masks_are_octal() {
    assert_eq!(parse_umask("022"), Ok(0o22));
    assert_eq!(parse_umask("0o077"), Ok(0o77));
    assert!(parse_umask("099").is_err());
    assert!(parse_umask("1000").is_err());
}
