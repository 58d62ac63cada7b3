//! Whether a project is ready to be checked.
use vstd::prelude::*;

use crate::model::{runner_name, RunnerBackend};
use crate::numbers::{decimal, decimal_of};
use crate::text::{concat, concat3, concat5, decode, decoded_text, join, joined, lines, lines_of};
use crate::text::{push_line, trim, trimmed, CharClass};

verus! {

pub const DOCTOR_REPORT_VERSION: u32 = 1;

#[derive(Debug, Clone, Copy, PartialEq, Eq, Structural)]
pub enum DoctorStatus {
    Pass,
    Warn,
    Fail,
    Skip,
}

pub open spec fn status_label(status: DoctorStatus) -> Seq<char> {
    match status {
        DoctorStatus::Pass => "PASS"@,
        DoctorStatus::Warn => "WARN"@,
        DoctorStatus::Fail => "FAIL"@,
        DoctorStatus::Skip => "SKIP"@,
    }
}

impl DoctorStatus {
    pub fn label(self) -> (r: &'static str)
        ensures
            r@ == status_label(self),
    {
        match self {
            DoctorStatus::Pass => "PASS",
            DoctorStatus::Warn => "WARN",
            DoctorStatus::Fail => "FAIL",
            DoctorStatus::Skip => "SKIP",
        }
    }
}

/// One finding on a project.
#[derive(Debug, PartialEq)]
pub struct DoctorCheck {
    pub name: String,
    pub status: DoctorStatus,
    pub detail: String,
    pub hint: Option<String>,
}

#[verifier::ext_equal]
pub struct DoctorCheckView {
    pub name: Seq<char>,
    pub status: DoctorStatus,
    pub detail: Seq<char>,
    pub hint: Option<Seq<char>>,
}

impl DeepView for DoctorCheck {
    type V = DoctorCheckView;

    open spec fn deep_view(&self) -> DoctorCheckView {
        DoctorCheckView {
            name: self.name@,
            status: self.status,
            detail: self.detail@,
            hint: self.hint.deep_view(),
        }
    }
}

impl Clone for DoctorCheck {
    fn clone(&self) -> (r: DoctorCheck)
        ensures
            r.deep_view() == self.deep_view(),
    {
        DoctorCheck {
            name: self.name.clone(),
            status: self.status,
            detail: self.detail.clone(),
            hint: self.hint.clone(),
        }
    }
}

#[derive(Debug, PartialEq)]
pub struct DoctorReport {
    pub report_version: u32,
    pub project: String,
    pub ready: bool,
    pub runner: Option<RunnerBackend>,
    pub checks: Vec<DoctorCheck>,
}

/// A list with one more finding.
pub open spec fn with_check(
    checks: Seq<DoctorCheckView>,
    name: Seq<char>,
    status: DoctorStatus,
    detail: Seq<char>,
    hint: Option<Seq<char>>,
) -> Seq<DoctorCheckView> {
    checks.push(DoctorCheckView { name, status, detail, hint })
}

/// Whether no finding is a failure.
pub open spec fn is_ready(checks: Seq<DoctorCheckView>) -> bool {
    forall|i: int| 0 <= i < checks.len() ==> !((#[trigger] checks[i]).status is Fail)
}

impl DoctorReport {
    pub fn new(project: &str) -> (r: DoctorReport)
        ensures
            r.report_version == DOCTOR_REPORT_VERSION,
            r.project@ == project@,
            r.ready,
            r.runner is None,
            r.checks.deep_view() == Seq::<DoctorCheckView>::empty(),
    {
        let checks: Vec<DoctorCheck> = Vec::new();
        assert(checks.deep_view() =~= Seq::<DoctorCheckView>::empty());
        DoctorReport {
            report_version: DOCTOR_REPORT_VERSION,
            project: project.to_owned(),
            ready: true,
            runner: None,
            checks,
        }
    }

    pub fn push(&mut self, name: &str, status: DoctorStatus, detail: String, hint: Option<String>)
        ensures
            final(self).checks.deep_view() == with_check(
                old(self).checks.deep_view(),
                name@,
                status,
                detail@,
                hint.deep_view(),
            ),
            final(self).report_version == old(self).report_version,
            final(self).project == old(self).project,
            final(self).ready == old(self).ready,
            final(self).runner == old(self).runner,
    {
        let ghost had = self.checks.deep_view();
        let check = DoctorCheck { name: name.to_owned(), status, detail, hint };
        let ghost view = check.deep_view();
        self.checks.push(check);
        assert(self.checks.deep_view() =~= had.push(view));
    }

    /// Settles whether the project is ready: it is unless a finding is a failure.
    pub fn finish(&mut self)
        ensures
            final(self).ready == is_ready(old(self).checks.deep_view()),
            final(self).checks == old(self).checks,
            final(self).report_version == old(self).report_version,
            final(self).project == old(self).project,
            final(self).runner == old(self).runner,
    {
        let ghost view = self.checks.deep_view();
        let mut ready = true;
        let mut i: usize = 0;
        while i < self.checks.len()
            invariant
                *self == *old(self),
                view == self.checks.deep_view(),
                i <= self.checks@.len(),
                ready == forall|k: int| 0 <= k < i ==> !((#[trigger] view[k]).status is Fail),
            decreases self.checks.len() - i,
        {
            assert(view[i as int] == self.checks@[i as int].deep_view());
            if self.checks[i].status == DoctorStatus::Fail {
                ready = false;
            }
            i += 1;
        }
        self.ready = ready;
    }
}

/// What is known of a project's configuration.
#[derive(Debug, PartialEq)]
pub enum ConfigState {
    /// There is no file at this path.
    Missing(String),
    /// It is not valid, for this reason.
    Invalid(String),
    Loaded { runner: RunnerBackend, image: String, outputs: Vec<String> },
}

/// A command of the container runtime that shows how ready it is.
#[derive(Debug, Clone, Copy, PartialEq, Eq, Structural)]
pub enum Probe {
    Version,
    Runtime,
    Image,
}

/// The arguments of the runtime for a probe.
pub open spec fn probe_command(probe: Probe, image: Seq<char>) -> Seq<Seq<char>> {
    match probe {
        Probe::Version => seq!["--version"@],
        Probe::Runtime => seq!["info"@],
        Probe::Image => seq!["image"@, "inspect"@, image],
    }
}

pub fn probe_arguments(probe: Probe, image: &str) -> (r: Vec<String>)
    ensures
        r.deep_view() == probe_command(probe, image@),
{
    let mut arguments: Vec<String> = Vec::new();
    match probe {
        Probe::Version => {
            arguments.push("--version".to_owned());
        },
        Probe::Runtime => {
            arguments.push("info".to_owned());
        },
        Probe::Image => {
            arguments.push("image".to_owned());
            arguments.push("inspect".to_owned());
            arguments.push(image.to_owned());
        },
    }
    assert(arguments.deep_view() =~= probe_command(probe, image@));
    arguments
}

/// What came of a probe.
#[derive(Debug, PartialEq)]
pub enum ProbeOutcome {
    /// The command ran to its end, with this exit status.
    Finished { success: bool, status: String, stdout: Vec<u8>, stderr: Vec<u8> },
    /// It could not be run, for this reason.
    NotRun(String),
}

pub open spec fn succeeded(outcome: ProbeOutcome) -> bool {
    match outcome {
        ProbeOutcome::Finished { success, .. } => success,
        ProbeOutcome::NotRun(_) => false,
    }
}

fn has_succeeded(outcome: &ProbeOutcome) -> (r: bool)
    ensures
        r == succeeded(*outcome),
{
    match outcome {
        ProbeOutcome::Finished { success, .. } => *success,
        ProbeOutcome::NotRun(_) => false,
    }
}

/// The probe that is needed after some outcomes: each builds on the success of the one before.
pub open spec fn probe_after(config: ConfigState, outcomes: Seq<ProbeOutcome>) -> Option<Probe> {
    if !(config is Loaded) {
        None
    } else if outcomes.len() == 0 {
        Some(Probe::Version)
    } else if outcomes.len() == 1 && succeeded(outcomes[0]) {
        Some(Probe::Runtime)
    } else if outcomes.len() == 2 && succeeded(outcomes[0]) && succeeded(outcomes[1]) {
        Some(Probe::Image)
    } else {
        None
    }
}

pub fn next_probe(config: &ConfigState, outcomes: &Vec<ProbeOutcome>) -> (r: Option<Probe>)
    ensures
        r == probe_after(*config, outcomes@),
{
    match config {
        ConfigState::Loaded { .. } => {},
        _ => {
            return None;
        },
    }
    if outcomes.len() == 0 {
        Some(Probe::Version)
    } else if outcomes.len() == 1 && has_succeeded(&outcomes[0]) {
        Some(Probe::Runtime)
    } else if outcomes.len() == 2 && has_succeeded(&outcomes[0]) && has_succeeded(&outcomes[1]) {
        Some(Probe::Image)
    } else {
        None
    }
}

/// The first of some lines, from `from` on, that is not blank, without surrounding white space.
pub open spec fn first_filled(list: Seq<Seq<char>>, from: int) -> Seq<char>
    decreases list.len() - from,
{
    if from >= list.len() {
        Seq::empty()
    } else {
        let line = trimmed(list[from], CharClass::White);
        if line.len() > 0 {
            line
        } else {
            first_filled(list, from + 1)
        }
    }
}

/// The first line of an output that is not blank.
pub open spec fn first_line(bytes: Seq<u8>) -> Seq<char> {
    first_filled(lines_of(decoded_text(bytes)), 0)
}

pub fn first_nonempty_line(bytes: &[u8]) -> (r: String)
    ensures
        r@ == first_line(bytes@),
{
    let list = lines(decode(bytes).as_str());
    let ghost all = list.deep_view();
    let mut i: usize = 0;
    while i < list.len()
        invariant
            all == list.deep_view(),
            all == lines_of(decoded_text(bytes@)),
            i <= list@.len(),
            first_filled(all, 0) == first_filled(all, i as int),
        decreases list.len() - i,
    {
        assert(all[i as int] == list@[i as int]@);
        let line = trim(list[i].as_str(), CharClass::White);
        if crate::text::chars_of(line.as_str()).len() > 0 {
            return line;
        }
        i += 1;
    }
    assert(""@.len() == 0) by {
        reveal_strlit("");
    }
    assert(""@ =~= Seq::<char>::empty());
    "".to_owned()
}

/// The first line that a command printed, on the first stream that has one.
pub open spec fn summary_of(stdout: Seq<u8>, stderr: Seq<u8>) -> Seq<char> {
    if first_line(stdout).len() > 0 {
        first_line(stdout)
    } else {
        first_line(stderr)
    }
}

fn output_summary(stdout: &Vec<u8>, stderr: &Vec<u8>) -> (r: String)
    ensures
        r@ == summary_of(stdout@, stderr@),
{
    let line = first_nonempty_line(stdout.as_slice());
    if crate::text::chars_of(line.as_str()).len() > 0 {
        return line;
    }
    first_nonempty_line(stderr.as_slice())
}

/// What is said of a command that failed.
pub open spec fn failure_detail(
    prefix: Seq<char>,
    status: Seq<char>,
    stdout: Seq<u8>,
    stderr: Seq<u8>,
) -> Seq<char> {
    let summary = summary_of(stdout, stderr);
    if summary.len() == 0 {
        prefix + " (exit status "@ + status + ")"@
    } else {
        prefix + ": "@ + summary
    }
}

fn command_failure_detail(prefix: &str, status: &str, stdout: &Vec<u8>, stderr: &Vec<u8>) -> (r: String)
    ensures
        r@ == failure_detail(prefix@, status@, stdout@, stderr@),
{
    let summary = output_summary(stdout, stderr);
    if crate::text::chars_of(summary.as_str()).len() == 0 {
        let mut text = prefix.to_owned();
        text.push_str(" (exit status ");
        text.push_str(status);
        text.push_str(")");
        text
    } else {
        concat3(prefix, ": ", summary.as_str())
    }
}

pub open spec fn command_name(runner: RunnerBackend) -> Seq<char> {
    match runner {
        RunnerBackend::Docker => "docker"@,
        RunnerBackend::Podman => "podman"@,
    }
}

pub open spec fn hint_for(runner: RunnerBackend) -> Seq<char> {
    match runner {
        RunnerBackend::Docker =>
            "start Docker and verify `docker info` succeeds for the current user"@,
        RunnerBackend::Podman => "verify `podman info` succeeds for the current user"@,
    }
}

pub fn runtime_hint(runner: RunnerBackend) -> (r: String)
    ensures
        r@ == hint_for(runner),
{
    match runner {
        RunnerBackend::Docker =>
            "start Docker and verify `docker info` succeeds for the current user".to_owned(),
        RunnerBackend::Podman => "verify `podman info` succeeds for the current user".to_owned(),
    }
}

pub open spec fn missing_config_text(path: Seq<char>) -> Seq<char> {
    path + " does not exist"@
}

pub fn show_missing_config(path: &str) -> (r: String)
    ensures
        r@ == missing_config_text(path@),
{
    concat(path, " does not exist")
}

pub open spec fn valid_config_text(
    runner: Seq<char>,
    image: Seq<char>,
    outputs: usize,
) -> Seq<char> {
    "valid config: "@
        + runner
        + " runner, image "@
        + image
        + ", "@
        + decimal_of(outputs as int)
        + " declared output(s)"@
}

pub fn show_valid_config(runner: &str, image: &str, outputs: usize) -> (r: String)
    ensures
        r@ == valid_config_text(runner@, image@, outputs),
{
    let mut text = "valid config: ".to_owned();
    text.push_str(runner);
    text.push_str(" runner, image ");
    text.push_str(image);
    text.push_str(", ");
    text.push_str(decimal(outputs as u128).as_str());
    text.push_str(" declared output(s)");
    text
}

pub open spec fn declared_outputs_text(outputs: Seq<Seq<char>>) -> Seq<char> {
    "declared artifact path(s): "@ + joined(outputs, ", "@, outputs.len() as int)
}

pub fn show_declared_outputs(outputs: &Vec<String>) -> (r: String)
    ensures
        r@ == declared_outputs_text(outputs.deep_view()),
{
    concat("declared artifact path(s): ", join(outputs, ", ").as_str())
}

pub open spec fn is_available_text(name: Seq<char>) -> Seq<char> {
    name + " is available"@
}

pub fn show_is_available(name: &str) -> (r: String)
    ensures
        r@ == is_available_text(name@),
{
    concat(name, " is available")
}

pub open spec fn executable_failed_text(name: Seq<char>) -> Seq<char> {
    name + " executable returned a failure"@
}

pub fn show_executable_failed(name: &str) -> (r: String)
    ensures
        r@ == executable_failed_text(name@),
{
    concat(name, " executable returned a failure")
}

pub open spec fn version_hint_text(executable: Seq<char>) -> Seq<char> {
    "verify `"@ + executable + " --version` works in this shell"@
}

pub fn show_version_hint(executable: &str) -> (r: String)
    ensures
        r@ == version_hint_text(executable@),
{
    concat3("verify `", executable, " --version` works in this shell")
}

pub open spec fn not_executable_text(executable: Seq<char>, error: Seq<char>) -> Seq<char> {
    "cannot execute "@ + executable + ": "@ + error
}

pub fn show_not_executable(executable: &str, error: &str) -> (r: String)
    ensures
        r@ == not_executable_text(executable@, error@),
{
    let mut text = "cannot execute ".to_owned();
    text.push_str(executable);
    text.push_str(": ");
    text.push_str(error);
    text
}

pub open spec fn install_hint_text(name: Seq<char>) -> Seq<char> {
    "install "@ + name + " or configure a different runner"@
}

pub fn show_install_hint(name: &str) -> (r: String)
    ensures
        r@ == install_hint_text(name@),
{
    concat3("install ", name, " or configure a different runner")
}

/// The finding on the executable of the runtime.
pub open spec fn with_version(
    checks: Seq<DoctorCheckView>,
    runner: RunnerBackend,
    outcome: ProbeOutcome,
) -> Seq<DoctorCheckView> {
    let name = runner_name(runner);
    match outcome {
        ProbeOutcome::Finished { success, status, stdout, stderr } => if success {
            let version = summary_of(stdout@, stderr@);
            with_check(
                checks,
                "runner executable"@,
                DoctorStatus::Pass,
                if version.len() == 0 {
                    is_available_text(name)
                } else {
                    version
                },
                None,
            )
        } else {
            with_check(
                checks,
                "runner executable"@,
                DoctorStatus::Fail,
                failure_detail(executable_failed_text(name), status@, stdout@, stderr@),
                Some(version_hint_text(command_name(runner))),
            )
        },
        ProbeOutcome::NotRun(error) => with_check(
            checks,
            "runner executable"@,
            DoctorStatus::Fail,
            not_executable_text(command_name(runner), error@),
            Some(install_hint_text(name)),
        ),
    }
}

fn push_version(report: &mut DoctorReport, runner: RunnerBackend, outcome: &ProbeOutcome)
    ensures
        final(report).checks.deep_view() == with_version(
            old(report).checks.deep_view(),
            runner,
            *outcome,
        ),
        same_head(*final(report), *old(report)),
{
    let name = runner.display_name();
    match outcome {
        ProbeOutcome::Finished { success, status, stdout, stderr } => if *success {
            let version = output_summary(stdout, stderr);
            let detail = if crate::text::chars_of(version.as_str()).len() == 0 {
                show_is_available(name)
            } else {
                version
            };
            report.push("runner executable", DoctorStatus::Pass, detail, None);
        } else {
            let detail = command_failure_detail(
                show_executable_failed(name).as_str(),
                status.as_str(),
                stdout,
                stderr,
            );
            report.push(
                "runner executable",
                DoctorStatus::Fail,
                detail,
                Some(show_version_hint(runner.executable())),
            );
        },
        ProbeOutcome::NotRun(error) => {
            report.push(
                "runner executable",
                DoctorStatus::Fail,
                show_not_executable(runner.executable(), error.as_str()),
                Some(show_install_hint(name)),
            );
        },
    }
}

/// Whether two reports differ in their findings at most.
pub open spec fn same_head(a: DoctorReport, b: DoctorReport) -> bool {
    a.report_version == b.report_version && a.project == b.project && a.ready == b.ready && a.runner
        == b.runner
}

pub open spec fn reachable_text(name: Seq<char>) -> Seq<char> {
    name + " runtime is reachable"@
}

pub fn show_reachable(name: &str) -> (r: String)
    ensures
        r@ == reachable_text(name@),
{
    concat(name, " runtime is reachable")
}

pub open spec fn not_ready_text(name: Seq<char>) -> Seq<char> {
    name + " runtime is not ready"@
}

pub fn show_not_ready(name: &str) -> (r: String)
    ensures
        r@ == not_ready_text(name@),
{
    concat(name, " runtime is not ready")
}

pub open spec fn cannot_query_text(name: Seq<char>, error: Seq<char>) -> Seq<char> {
    "cannot query "@ + name + " runtime: "@ + error
}

pub fn show_cannot_query(name: &str, error: &str) -> (r: String)
    ensures
        r@ == cannot_query_text(name@, error@),
{
    let mut text = "cannot query ".to_owned();
    text.push_str(name);
    text.push_str(" runtime: ");
    text.push_str(error);
    text
}

/// The finding on the runtime.
pub open spec fn with_runtime(
    checks: Seq<DoctorCheckView>,
    runner: RunnerBackend,
    outcome: ProbeOutcome,
) -> Seq<DoctorCheckView> {
    let name = runner_name(runner);
    match outcome {
        ProbeOutcome::Finished { success, status, stdout, stderr } => if success {
            with_check(checks, "runtime"@, DoctorStatus::Pass, reachable_text(name), None)
        } else {
            with_check(
                checks,
                "runtime"@,
                DoctorStatus::Fail,
                failure_detail(not_ready_text(name), status@, stdout@, stderr@),
                Some(hint_for(runner)),
            )
        },
        ProbeOutcome::NotRun(error) => with_check(
            checks,
            "runtime"@,
            DoctorStatus::Fail,
            cannot_query_text(name, error@),
            Some(hint_for(runner)),
        ),
    }
}

fn push_runtime(report: &mut DoctorReport, runner: RunnerBackend, outcome: &ProbeOutcome)
    ensures
        final(report).checks.deep_view() == with_runtime(
            old(report).checks.deep_view(),
            runner,
            *outcome,
        ),
        same_head(*final(report), *old(report)),
{
    let name = runner.display_name();
    match outcome {
        ProbeOutcome::Finished { success, status, stdout, stderr } => if *success {
            report.push("runtime", DoctorStatus::Pass, show_reachable(name), None);
        } else {
            let detail = command_failure_detail(
                show_not_ready(name).as_str(),
                status.as_str(),
                stdout,
                stderr,
            );
            report.push("runtime", DoctorStatus::Fail, detail, Some(runtime_hint(runner)));
        },
        ProbeOutcome::NotRun(error) => {
            report.push(
                "runtime",
                DoctorStatus::Fail,
                show_cannot_query(name, error.as_str()),
                Some(runtime_hint(runner)),
            );
        },
    }
}

pub open spec fn local_image_text(image: Seq<char>) -> Seq<char> {
    image + " is available locally"@
}

pub fn show_local_image(image: &str) -> (r: String)
    ensures
        r@ == local_image_text(image@),
{
    concat(image, " is available locally")
}

pub open spec fn no_local_image_text(image: Seq<char>) -> Seq<char> {
    image + " is not available locally"@
}

pub fn show_no_local_image(image: &str) -> (r: String)
    ensures
        r@ == no_local_image_text(image@),
{
    concat(image, " is not available locally")
}

pub open spec fn pull_hint_text(executable: Seq<char>, image: Seq<char>) -> Seq<char> {
    "ReproBisect can use the runtime's normal pull behavior; optionally prefetch with `"@
        + executable
        + " pull "@
        + image
        + "`"@
}

pub fn show_pull_hint(executable: &str, image: &str) -> (r: String)
    ensures
        r@ == pull_hint_text(executable@, image@),
{
    concat5(
        "ReproBisect can use the runtime's normal pull behavior; optionally prefetch with `",
        executable,
        " pull ",
        image,
        "`",
    )
}

pub open spec fn no_inspection_text(image: Seq<char>, error: Seq<char>) -> Seq<char> {
    "could not inspect image "@ + image + ": "@ + error
}

pub fn show_no_inspection(image: &str, error: &str) -> (r: String)
    ensures
        r@ == no_inspection_text(image@, error@),
{
    let mut text = "could not inspect image ".to_owned();
    text.push_str(image);
    text.push_str(": ");
    text.push_str(error);
    text
}

pub open spec fn inspect_hint_text(executable: Seq<char>, image: Seq<char>) -> Seq<char> {
    "try `"@ + executable + " image inspect "@ + image + "` manually"@
}

pub fn show_inspect_hint(executable: &str, image: &str) -> (r: String)
    ensures
        r@ == inspect_hint_text(executable@, image@),
{
    concat5("try `", executable, " image inspect ", image, "` manually")
}

/// The finding on the image: one that is not there can still be pulled.
pub open spec fn with_image(
    checks: Seq<DoctorCheckView>,
    runner: RunnerBackend,
    image: Seq<char>,
    outcome: ProbeOutcome,
) -> Seq<DoctorCheckView> {
    match outcome {
        ProbeOutcome::Finished { success, .. } => if success {
            with_check(
                checks,
                "build image"@,
                DoctorStatus::Pass,
                local_image_text(image),
                None,
            )
        } else {
            with_check(
                checks,
                "build image"@,
                DoctorStatus::Warn,
                no_local_image_text(image),
                Some(pull_hint_text(command_name(runner), image)),
            )
        },
        ProbeOutcome::NotRun(error) => with_check(
            checks,
            "build image"@,
            DoctorStatus::Warn,
            no_inspection_text(image, error@),
            Some(inspect_hint_text(command_name(runner), image)),
        ),
    }
}

fn push_image(report: &mut DoctorReport, runner: RunnerBackend, image: &str, outcome: &ProbeOutcome)
    ensures
        final(report).checks.deep_view() == with_image(
            old(report).checks.deep_view(),
            runner,
            image@,
            *outcome,
        ),
        same_head(*final(report), *old(report)),
{
    match outcome {
        ProbeOutcome::Finished { success, .. } => if *success {
            report.push("build image", DoctorStatus::Pass, show_local_image(image), None);
        } else {
            report.push(
                "build image",
                DoctorStatus::Warn,
                show_no_local_image(image),
                Some(show_pull_hint(runner.executable(), image)),
            );
        },
        ProbeOutcome::NotRun(error) => {
            report.push(
                "build image",
                DoctorStatus::Warn,
                show_no_inspection(image, error.as_str()),
                Some(show_inspect_hint(runner.executable(), image)),
            );
        },
    }
}

/// What the runtime's probes show, after what was found before.
pub open spec fn with_probes(
    checks: Seq<DoctorCheckView>,
    runner: RunnerBackend,
    image: Seq<char>,
    outcomes: Seq<ProbeOutcome>,
) -> Seq<DoctorCheckView> {
    let a = with_version(checks, runner, outcomes[0]);
    if !succeeded(outcomes[0]) {
        with_check(
            with_check(
                a,
                "runtime"@,
                DoctorStatus::Skip,
                "runner executable is unavailable"@,
                None,
            ),
            "build image"@,
            DoctorStatus::Skip,
            "runtime check did not pass"@,
            None,
        )
    } else {
        let b = with_runtime(a, runner, outcomes[1]);
        if !succeeded(outcomes[1]) {
            with_check(
                b,
                "build image"@,
                DoctorStatus::Skip,
                "runtime check did not pass"@,
                None,
            )
        } else {
            with_image(b, runner, image, outcomes[2])
        }
    }
}

/// All findings on a project.
pub open spec fn findings(config: ConfigState, outcomes: Seq<ProbeOutcome>) -> Seq<DoctorCheckView> {
    match config {
        ConfigState::Missing(path) => with_check(
            Seq::empty(),
            "configuration"@,
            DoctorStatus::Fail,
            missing_config_text(path@),
            Some("run `reprobisect init .` or create .reprobisect.toml"@),
        ),
        ConfigState::Invalid(message) => with_check(
            Seq::empty(),
            "configuration"@,
            DoctorStatus::Fail,
            message@,
            Some("fix .reprobisect.toml before running a build"@),
        ),
        ConfigState::Loaded { runner, image, outputs } => with_probes(
            with_check(
                with_check(
                    Seq::empty(),
                    "configuration"@,
                    DoctorStatus::Pass,
                    valid_config_text(runner_name(runner), image@, outputs@.len() as usize),
                    None,
                ),
                "outputs"@,
                DoctorStatus::Pass,
                declared_outputs_text(outputs.deep_view()),
                None,
            ),
            runner,
            image@,
            outcomes,
        ),
    }
}

fn push_probes(
    report: &mut DoctorReport,
    runner: RunnerBackend,
    image: &str,
    outcomes: &Vec<ProbeOutcome>,
)
    requires
        outcomes@.len() >= 1,
        succeeded(outcomes@[0]) ==> outcomes@.len() >= 2,
        succeeded(outcomes@[0]) && succeeded(outcomes@[1]) ==> outcomes@.len() >= 3,
    ensures
        final(report).checks.deep_view() == with_probes(
            old(report).checks.deep_view(),
            runner,
            image@,
            outcomes@,
        ),
        same_head(*final(report), *old(report)),
{
    push_version(report, runner, &outcomes[0]);
    if !has_succeeded(&outcomes[0]) {
        report.push(
            "runtime",
            DoctorStatus::Skip,
            "runner executable is unavailable".to_owned(),
            None,
        );
        report.push(
            "build image",
            DoctorStatus::Skip,
            "runtime check did not pass".to_owned(),
            None,
        );
        return ;
    }
    push_runtime(report, runner, &outcomes[1]);
    if !has_succeeded(&outcomes[1]) {
        report.push(
            "build image",
            DoctorStatus::Skip,
            "runtime check did not pass".to_owned(),
            None,
        );
        return ;
    }
    push_image(report, runner, image, &outcomes[2]);
}

/// The report on a project, once no probe is needed any more.
pub fn inspect_project(project: &str, config: &ConfigState, outcomes: &Vec<ProbeOutcome>) -> (r:
    DoctorReport)
    requires
        probe_after(*config, outcomes@) is None,
    ensures
        r.report_version == DOCTOR_REPORT_VERSION,
        r.project@ == project@,
        r.runner == match *config {
            ConfigState::Loaded { runner, .. } => Some(runner),
            _ => None,
        },
        r.checks.deep_view() == findings(*config, outcomes@),
        r.ready == is_ready(findings(*config, outcomes@)),
{
    let mut report = DoctorReport::new(project);
    match config {
        ConfigState::Missing(path) => {
            report.push(
                "configuration",
                DoctorStatus::Fail,
                show_missing_config(path.as_str()),
                Some("run `reprobisect init .` or create .reprobisect.toml".to_owned()),
            );
        },
        ConfigState::Invalid(message) => {
            report.push(
                "configuration",
                DoctorStatus::Fail,
                message.clone(),
                Some("fix .reprobisect.toml before running a build".to_owned()),
            );
        },
        ConfigState::Loaded { runner, image, outputs } => {
            report.runner = Some(*runner);
            report.push(
                "configuration",
                DoctorStatus::Pass,
                show_valid_config(runner.display_name(), image.as_str(), outputs.len()),
                None,
            );
            report.push("outputs", DoctorStatus::Pass, show_declared_outputs(outputs), None);
            push_probes(&mut report, *runner, image.as_str(), outcomes);
        },
    }
    report.finish();
    report
}

pub open spec fn with_check_lines(lines: Seq<Seq<char>>, check: DoctorCheck) -> Seq<Seq<char>> {
    let lines = lines.push(
        "["@ + status_label(check.status) + "] "@ + check.name@ + ": "@ + check.detail@,
    );
    let lines = match check.hint {
        Some(hint) => {
            let lines = lines.push("       hint: "@ + hint@);
            lines
        },
        None => {
            lines
        },
    };
    lines
}

pub fn push_check_lines(lines: &mut Vec<String>, check: &DoctorCheck)
    ensures
        final(lines).deep_view() == with_check_lines(old(lines).deep_view(), *check),
{
    let mut text = "[".to_owned();
    text.push_str(check.status.label());
    text.push_str("] ");
    text.push_str(check.name.as_str());
    text.push_str(": ");
    text.push_str(check.detail.as_str());
    push_line(lines, text);
    if let Some(hint) = &check.hint {
        push_line(lines, concat("       hint: ", hint.as_str()));
    }
}

pub open spec fn with_checks(
    lines: Seq<Seq<char>>,
    items: Seq<DoctorCheck>,
    n: int,
) -> Seq<Seq<char>>
    decreases n,
{
    if n <= 0 {
        lines
    } else {
        with_check_lines(with_checks(lines, items, n - 1), items[n - 1])
    }
}

pub fn push_checks(lines: &mut Vec<String>, items: &Vec<DoctorCheck>)
    ensures
        final(lines).deep_view() == with_checks(
            old(lines).deep_view(),
            items@,
            items@.len() as int,
        ),
{
    let ghost start = lines.deep_view();
    let mut n: usize = 0;
    while n < items.len()
        invariant
            n <= items@.len(),
            lines.deep_view() == with_checks(start, items@, n as int),
        decreases items.len() - n,
    {
        push_check_lines(lines, &items[n]);
        n += 1;
    }
}

pub open spec fn with_doctor_text(lines: Seq<Seq<char>>, report: DoctorReport) -> Seq<Seq<char>> {
    let lines = lines.push("ReproBisect doctor"@);
    let lines = lines.push("project: "@ + report.project@);
    let lines = match report.runner {
        Some(runner) => {
            let lines = lines.push("runner: "@ + runner_name(runner));
            lines
        },
        None => {
            lines
        },
    };
    let lines = lines.push(""@);
    let lines = with_checks(lines, report.checks@, report.checks@.len() as int);
    let lines = lines.push(""@);
    let lines = lines.push("ready: "@ + ready_text(report.ready));
    lines
}

pub fn push_doctor_text(lines: &mut Vec<String>, report: &DoctorReport)
    ensures
        final(lines).deep_view() == with_doctor_text(old(lines).deep_view(), *report),
{
    push_line(lines, "ReproBisect doctor".to_owned());
    push_line(lines, concat("project: ", report.project.as_str()));
    if let Some(runner) = report.runner {
        push_line(lines, concat("runner: ", runner.display_name()));
    }
    push_line(lines, "".to_owned());
    push_checks(lines, &report.checks);
    push_line(lines, "".to_owned());
    push_line(lines, concat("ready: ", show_ready(report.ready)));
}

pub open spec fn ready_text(ready: bool) -> Seq<char> {
    if ready {
        "YES"@
    } else {
        "NO"@
    }
}

fn show_ready(ready: bool) -> (r: &'static str)
    ensures
        r@ == ready_text(ready),
{
    if ready {
        "YES"
    } else {
        "NO"
    }
}

/// The lines of a report.
pub fn text_lines(report: &DoctorReport) -> (r: Vec<String>)
    ensures
        r.deep_view() == with_doctor_text(Seq::empty(), *report),
{
    let mut lines: Vec<String> = Vec::new();
    assert(lines.deep_view() =~= Seq::<Seq<char>>::empty());
    push_doctor_text(&mut lines, report);
    lines
}

/// One more finding leaves a project as ready as it was, unless it is a failure.
pub proof fn law_only_failures_make_a_project_unready(
    checks: Seq<DoctorCheckView>,
    name: Seq<char>,
    status: DoctorStatus,
    detail: Seq<char>,
    hint: Option<Seq<char>>,
)
    ensures
        is_ready(with_check(checks, name, status, detail, hint)) <==> is_ready(checks) && !(
        status is Fail),
        is_ready(Seq::empty()),
{
    let more = with_check(checks, name, status, detail, hint);
    assert(more[checks.len() as int].status == status);
    if is_ready(more) {
        assert forall|i: int| 0 <= i < checks.len() implies !((#[trigger] checks[i]).status is Fail) by {
            assert(more[i] == checks[i]);
        }
    }
    if is_ready(checks) && !(status is Fail) {
        assert forall|i: int| 0 <= i < more.len() implies !((#[trigger] more[i]).status is Fail) by {
            if i < checks.len() {
                assert(more[i] == checks[i]);
            }
        }
    }
}

/// A project without a valid configuration is not ready, and no probe is run on it.
pub proof fn law_without_a_configuration_nothing_is_probed(
    config: ConfigState,
    outcomes: Seq<ProbeOutcome>,
)
    requires
        !(config is Loaded),
    ensures
        probe_after(config, outcomes) is None,
        findings(config, outcomes).len() == 1,
        !is_ready(findings(config, outcomes)),
{
    assert(findings(config, outcomes)[0].status is Fail);
}

/// An image that is not there does not make a project unready, and everything else that fails
/// does.
pub proof fn law_ready_means_the_runtime_answered(
    config: ConfigState,
    outcomes: Seq<ProbeOutcome>,
)
    requires
        config is Loaded,
        probe_after(config, outcomes) is None,
    ensures
        is_ready(findings(config, outcomes)) <==> succeeded(outcomes[0]) && succeeded(outcomes[1]),
{
    let all = findings(config, outcomes);
    if succeeded(outcomes[0]) && succeeded(outcomes[1]) {
        assert(all.len() == 5);
        assert forall|i: int| 0 <= i < all.len() implies !((#[trigger] all[i]).status is Fail) by {
            if i == 0 {
            } else if i == 1 {
            } else if i == 2 {
            } else if i == 3 {
            } else {
                assert(i == 4);
            }
        }
    } else if !succeeded(outcomes[0]) {
        assert(all[2].status is Fail);
    } else {
        assert(all[3].status is Fail);
    }
}

} // verus!
