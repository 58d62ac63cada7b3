//! What the check of a project's readiness tells.
use vstd::prelude::*;

use crate::doctor::{
    command_name, failure_detail, findings, first_filled, first_line, probe_after,
    probe_command, status_label, summary_of, ConfigState, DoctorStatus, Probe, ProbeOutcome,
};
use crate::laws::wording::lemma_holds;
use crate::model::RunnerBackend;
use crate::text::{occurs, trimmed, CharClass};

verus! {

/// Whether a command ran to its end and succeeded.
pub open spec fn answered(outcome: ProbeOutcome) -> bool {
    outcome matches ProbeOutcome::Finished { success, .. } && success
}

/// A usable configuration is followed by one check of the runner, one of its runtime and one of the
/// image. A check that could not be made is skipped, a missing image is only warned of, and every other
/// failure is told as one.
pub proof fn law_every_stage_is_told(config: ConfigState, outcomes: Seq<ProbeOutcome>)
    requires
        config is Loaded,
    ensures
        ({
            let told = findings(config, outcomes);
            let first = answered(outcomes[0]);
            let second = first && answered(outcomes[1]);
            &&& told.len() == 5
            &&& told[0].status is Pass && told[0].hint is None
            &&& told[1].status is Pass && told[1].hint is None
            &&& told[2].status is Pass <==> first
            &&& told[2].status is Fail <==> !first
            &&& told[2].hint is Some <==> !first
            &&& told[3].status is Pass <==> second
            &&& told[3].status is Fail <==> first && !second
            &&& told[3].status is Skip <==> !first
            &&& told[3].hint is Some <==> first && !second
            &&& told[4].status is Pass <==> second && answered(outcomes[2])
            &&& told[4].status is Warn <==> second && !answered(outcomes[2])
            &&& told[4].status is Skip <==> !second
            &&& told[4].hint is Some <==> second && !answered(outcomes[2])
        }),
{
}

/// The commands are run one after the other, each only if the one before it succeeded: first for the
/// version, next for the runtime, last for the image of the build.
pub proof fn law_commands_follow_on_success(config: ConfigState, outcomes: Seq<ProbeOutcome>)
    requires
        config is Loaded,
    ensures
        probe_after(config, Seq::empty()) == Some(Probe::Version),
        outcomes.len() == 1 ==> probe_after(config, outcomes) == if answered(outcomes[0]) {
            Some(Probe::Runtime)
        } else {
            None
        },
        outcomes.len() == 2 && answered(outcomes[0]) ==> probe_after(config, outcomes)
            == if answered(outcomes[1]) {
            Some(Probe::Image)
        } else {
            None
        },
        outcomes.len() >= 3 ==> probe_after(config, outcomes) is None,
{
}

/// The command for the image names the image.
pub proof fn law_the_image_is_inspected(image: Seq<char>)
    ensures
        probe_command(Probe::Image, image).last() == image,
        probe_command(Probe::Image, image).len() == 3,
        probe_command(Probe::Version, image) == seq!["--version"@],
        probe_command(Probe::Runtime, image) == seq!["info"@],
{
}

proof fn lemma_first_filled(list: Seq<Seq<char>>, from: int)
    requires
        0 <= from <= list.len(),
    ensures
        first_filled(list, from).len() > 0 ==> exists|i: int|
            from <= i < list.len() && trimmed(#[trigger] list[i], CharClass::White) == first_filled(
                list,
                from,
            ) && forall|j: int|
                from <= j < i ==> trimmed(#[trigger] list[j], CharClass::White).len() == 0,
        first_filled(list, from).len() == 0 ==> forall|j: int|
            from <= j < list.len() ==> trimmed(#[trigger] list[j], CharClass::White).len() == 0,
    decreases list.len() - from,
{
    if from < list.len() && trimmed(list[from], CharClass::White).len() == 0 {
        lemma_first_filled(list, from + 1);
        if first_filled(list, from).len() > 0 {
            let i = choose|i: int|
                from < i < list.len() && trimmed(#[trigger] list[i], CharClass::White)
                    == first_filled(list, from) && forall|j: int|
                    from < j < i ==> trimmed(#[trigger] list[j], CharClass::White).len() == 0;
            assert(trimmed(list[i], CharClass::White) == first_filled(list, from));
            assert forall|j: int| from <= j < i implies trimmed(
                #[trigger] list[j],
                CharClass::White,
            ).len() == 0 by {
                if j == from {
                }
            }
        }
        assert forall|j: int|
            first_filled(list, from).len() == 0 && from <= j < list.len() implies trimmed(
            #[trigger] list[j],
            CharClass::White,
        ).len() == 0 by {
            if j == from {
            }
        }
    }
}

/// What a command printed is summed up by its first line that is not blank, and nothing only if all
/// its lines are blank.
pub proof fn law_the_first_line_that_is_not_blank_counts(list: Seq<Seq<char>>)
    ensures
        first_filled(list, 0).len() > 0 ==> exists|i: int|
            0 <= i < list.len() && trimmed(#[trigger] list[i], CharClass::White) == first_filled(
                list,
                0,
            ) && forall|j: int|
                0 <= j < i ==> trimmed(#[trigger] list[j], CharClass::White).len() == 0,
        first_filled(list, 0).len() == 0 ==> forall|j: int|
            0 <= j < list.len() ==> trimmed(#[trigger] list[j], CharClass::White).len() == 0,
{
    lemma_first_filled(list, 0);
}

/// The output of a command counts before its errors, and these count where there is no output.
pub proof fn law_output_counts_before_errors(stdout: Seq<u8>, stderr: Seq<u8>)
    ensures
        summary_of(stdout, stderr) == first_line(stdout) || (first_line(stdout).len() == 0
            && summary_of(stdout, stderr) == first_line(stderr)),
        first_line(stdout).len() > 0 ==> summary_of(stdout, stderr) == first_line(stdout),
{
}

/// A failure is told with what the command printed, or with its exit status where it printed nothing.
pub proof fn law_failures_are_told_with_their_cause(
    prefix: Seq<char>,
    status: Seq<char>,
    stdout: Seq<u8>,
    stderr: Seq<u8>,
)
    ensures
        occurs(failure_detail(prefix, status, stdout, stderr), prefix),
        summary_of(stdout, stderr).len() > 0 ==> occurs(
            failure_detail(prefix, status, stdout, stderr),
            summary_of(stdout, stderr),
        ),
        summary_of(stdout, stderr).len() == 0 ==> occurs(
            failure_detail(prefix, status, stdout, stderr),
            status,
        ),
{
    let all = failure_detail(prefix, status, stdout, stderr);
    let summary = summary_of(stdout, stderr);
    if summary.len() == 0 {
        lemma_holds(all, Seq::empty(), prefix, " (exit status "@ + status + ")"@);
        lemma_holds(all, prefix + " (exit status "@, status, ")"@);
    } else {
        lemma_holds(all, Seq::empty(), prefix, ": "@ + summary);
        lemma_holds(all, prefix + ": "@, summary, Seq::empty());
    }
}

/// The runner's command has the runner's name, and different results have different labels.
pub proof fn law_runners_and_results_are_told_apart(a: DoctorStatus, b: DoctorStatus)
    ensures
        command_name(RunnerBackend::Docker) == "docker"@,
        command_name(RunnerBackend::Podman) == "podman"@,
        status_label(a) == status_label(b) <==> a == b,
        status_label(DoctorStatus::Fail) == "FAIL"@,
        status_label(DoctorStatus::Warn) == "WARN"@,
{
    reveal_strlit("PASS");
    reveal_strlit("WARN");
    reveal_strlit("FAIL");
    reveal_strlit("SKIP");
    assert("PASS"@[0] == 'P' && "WARN"@[0] == 'W' && "FAIL"@[0] == 'F' && "SKIP"@[0] == 'S');
}

} // verus!
