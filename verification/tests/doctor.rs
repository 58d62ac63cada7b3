use reprobisect::cli::{doctor_exit_code, EXIT_DIAGNOSTIC};
use reprobisect::doctor::{
    first_nonempty_line, inspect_project, next_probe, text_lines, ConfigState, DoctorReport,
    DoctorStatus, Probe, ProbeOutcome, DOCTOR_REPORT_VERSION,
};
use reprobisect::model::RunnerBackend;

fn loaded() -> ConfigState {
    ConfigState::Loaded {
        runner: RunnerBackend::Docker,
        image: "gcc:14".to_string(),
        outputs: vec!["build/app".to_string()],
    }
}

fn finished(success: bool, stdout: &[u8], stderr: &[u8]) -> ProbeOutcome {
    ProbeOutcome::Finished {
        success,
        status: "exit status: 1".to_string(),
        stdout: stdout.to_vec(),
        stderr: stderr.to_vec(),
    }
}

#[test]
fn missing_config_is_reported_as_not_ready() {
    let report = inspect_project(
        "/project",
        &ConfigState::Missing("/project/.reprobisect.toml".to_string()),
        &vec![],
    );

    assert!(!report.ready);
    assert_eq!(report.checks.len(), 1);
    assert_eq!(report.checks[0].status, DoctorStatus::Fail);
    assert_eq!(report.checks[0].name, "configuration");
    assert_eq!(report.checks[0].detail, "/project/.reprobisect.toml does not exist");
}

#[test]
fn invalid_config_is_reported_without_invoking_a_runtime() {
    let config = ConfigState::Invalid("build.image must not be empty".to_string());
    assert_eq!(next_probe(&config, &vec![]), None);
    let report = inspect_project("/project", &config, &vec![]);

    assert!(!report.ready);
    assert_eq!(report.checks.len(), 1);
    assert_eq!(report.checks[0].status, DoctorStatus::Fail);
}

#[test]
fn warnings_do_not_make_a_report_unready() {
    let mut report = DoctorReport::new(".");
    report.push(
        "image",
        DoctorStatus::Warn,
        "not cached".to_string(),
        Some("it can be pulled".to_string()),
    );
    report.finish();

    assert!(report.ready);
}

#[test]
fn first_nonempty_line_ignores_blank_lines() {
    assert_eq!(
        first_nonempty_line(b"\n  \nDocker version 28.0\nmore\n"),
        "Docker version 28.0"
    );
}

#[test]
fn a_failure_makes_a_report_unready() {
    let mut report = DoctorReport::new(".");
    report.push("runtime", DoctorStatus::Fail, "down".to_string(), None);
    report.push("image", DoctorStatus::Pass, "there".to_string(), None);
    report.finish();
    assert!(!report.ready);
    assert_eq!(report.report_version, DOCTOR_REPORT_VERSION);
}

#[test]
fn probes_follow_each_other_while_they_succeed() {
    let config = loaded();
    let mut outcomes = vec![];
    assert_eq!(next_probe(&config, &outcomes), Some(Probe::Version));
    outcomes.push(finished(true, b"Docker version 28.0\n", b""));
    assert_eq!(next_probe(&config, &outcomes), Some(Probe::Runtime));
    outcomes.push(finished(true, b"", b""));
    assert_eq!(next_probe(&config, &outcomes), Some(Probe::Image));
    outcomes.push(finished(false, b"", b"No such image"));
    assert_eq!(next_probe(&config, &outcomes), None);

    let report = inspect_project("/project", &config, &outcomes);
    assert!(report.ready);
    assert_eq!(report.runner, Some(RunnerBackend::Docker));
    assert_eq!(report.checks.len(), 5);
    assert_eq!(
        report.checks[0].detail,
        "valid config: Docker runner, image gcc:14, 1 declared output(s)"
    );
    assert_eq!(report.checks[1].detail, "declared artifact path(s): build/app");
    assert_eq!(report.checks[2].detail, "Docker version 28.0");
    assert_eq!(report.checks[4].status, DoctorStatus::Warn);
    assert_eq!(
        report.checks[4].hint.as_deref(),
        Some("ReproBisect can use the runtime's normal pull behavior; optionally prefetch with `docker pull gcc:14`")
    );
    let lines = text_lines(&report);
    assert_eq!(lines[0], "ReproBisect doctor");
    assert_eq!(lines[2], "runner: Docker");
    assert_eq!(lines[lines.len() - 1], "ready: YES");
}

#[test]
fn a_runtime_that_does_not_answer_is_a_failure() {
    let config = loaded();
    let outcomes = vec![
        finished(true, b"", b""),
        finished(false, b"", b"Cannot connect to the Docker daemon\n"),
    ];
    assert_eq!(next_probe(&config, &outcomes), None);
    let report = inspect_project("/project", &config, &outcomes);
    assert!(!report.ready);
    assert_eq!(report.checks[2].detail, "Docker is available");
    assert_eq!(
        report.checks[3].detail,
        "Docker runtime is not ready: Cannot connect to the Docker daemon"
    );
    assert_eq!(report.checks[4].status, DoctorStatus::Skip);
}

#[test]
fn an_executable_that_is_not_there_ends_the_probes() {
    let config = loaded();
    let outcomes = vec![ProbeOutcome::NotRun("No such file or directory".to_string())];
    assert_eq!(next_probe(&config, &outcomes), None);
    let report = inspect_project("/project", &config, &outcomes);
    assert!(!report.ready);
    assert_eq!(
        report.checks[2].detail,
        "cannot execute docker: No such file or directory"
    );
    assert_eq!(report.checks[3].status, DoctorStatus::Skip);
    assert_eq!(report.checks[4].status, DoctorStatus::Skip);
    let failed = inspect_project("/project", &config, &vec![finished(false, b"", b"")]);
    assert_eq!(
        failed.checks[2].detail,
        "Docker executable returned a failure (exit status exit status: 1)"
    );
}

#[test]
fn output_that_is_not_text_is_shown_with_replacements() {
    assert_eq!(first_nonempty_line(b"\n\xc2\xa0\n\xff ok\n"), "\u{fffd} ok");
}

#[test]
fn only_a_ready_project_exits_with_success() {
    let mut report = DoctorReport::new(".");
    report.ready = true;
    assert_eq!(doctor_exit_code(&report), 0);
    report.ready = false;
    assert_eq!(doctor_exit_code(&report), EXIT_DIAGNOSTIC);
}
