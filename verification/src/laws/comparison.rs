//! What a comparison of a known-good and a known-bad environment finds and reports.
use vstd::prelude::*;
use vstd::utf8::encode_utf8;

use crate::digest::digest_text;
use crate::engine::compare::{
    came_back, comparison_step, conclude_endpoints, conclude_minimized, endpoint_notes,
    failure_mark, finding_of, minimized_notes, minimized_status, options_problem, outcome_kind,
    records_of, reference_of, reports_endpoints, reproduces_bad, CompareOptions,
    ComparisonSubject, EndpointAttempts, EndpointFinding, ReferenceView, Reversion,
};
use crate::engine::ddmin::DdminOutcome;
use crate::environment::{EnvironmentDelta, EnvironmentDeltaView};
use crate::laws::builds::{
    holdings, law_equal_hashes_mean_equal_files, law_one_outcome_means_equal_holdings,
    same_files,
};
use crate::model::{BuildFailure, BuildRun, EnvironmentComparisonReport};

verus! {

/// Whether an environment builds: as many builds as expected, all successful and with the same files.
pub open spec fn always_builds(a: EndpointAttempts, expected: int) -> bool {
    &&& a.failures@.len() == 0
    &&& a.runs@.len() == expected
    &&& expected > 0
    &&& forall|i: int|
        0 <= i < a.runs@.len() ==> holdings(#[trigger] a.runs@[i]) == holdings(a.runs@[0])
}

/// What identifies a printed stream: the digest that was kept of it, or that of the text.
pub open spec fn stream_identity(kept: Seq<char>, text: Seq<char>) -> Seq<char> {
    if kept.len() > 0 {
        kept
    } else {
        digest_text(encode_utf8(text))
    }
}

/// Whether two builds failed in the same way: with one exit code, and having printed the same.
pub open spec fn failed_alike(a: BuildFailure, b: BuildFailure) -> bool {
    &&& a.exit_code == b.exit_code
    &&& stream_identity(a.stdout_sha256@, a.stdout@) == stream_identity(
        b.stdout_sha256@,
        b.stdout@,
    )
    &&& stream_identity(a.stderr_sha256@, a.stderr@) == stream_identity(
        b.stderr_sha256@,
        b.stderr@,
    )
}

/// Whether an environment fails: as many builds as expected, all failed in the same way.
pub open spec fn always_fails(a: EndpointAttempts, expected: int) -> bool {
    &&& a.runs@.len() == 0
    &&& a.failures@.len() == expected
    &&& expected > 0
    &&& forall|i: int|
        0 <= i < a.failures@.len() ==> failed_alike(#[trigger] a.failures@[i], a.failures@[0])
}

/// Two failures have one signature exactly if they failed alike, and a signature names the exit code
/// and the identity of both streams.
pub proof fn law_failure_signatures_tell_failures_apart(a: BuildFailure, b: BuildFailure)
    ensures
        failure_mark(a) == failure_mark(b) <==> failed_alike(a, b),
        failure_mark(a).exit_code == a.exit_code,
        failure_mark(a).stdout_sha256 == stream_identity(a.stdout_sha256@, a.stdout@),
        failure_mark(a).stderr_sha256 == stream_identity(a.stderr_sha256@, a.stderr@),
{
}

/// An endpoint is a reference exactly if it always builds or always fails: the reference is then its
/// first build, or the signature of its failures.
pub proof fn law_only_repeated_outcomes_are_references(a: EndpointAttempts, expected: int)
    ensures
        reference_of(a, expected) is Some <==> always_builds(a, expected) || always_fails(
            a,
            expected,
        ),
        always_builds(a, expected) ==> reference_of(a, expected) == Some(
            ReferenceView::Artifacts(a.runs@[0]),
        ),
        always_fails(a, expected) ==> reference_of(a, expected) == Some(
            ReferenceView::Failure(failure_mark(a.failures@[0])),
        ),
{
    law_one_outcome_means_equal_holdings(a.runs@);
    assert forall|i: int| 0 <= i < a.failures@.len() implies (failure_mark(
        #[trigger] a.failures@[i],
    ) == failure_mark(a.failures@[0]) <==> failed_alike(a.failures@[i], a.failures@[0])) by {
        law_failure_signatures_tell_failures_apart(a.failures@[i], a.failures@[0]);
    }
}

/// What endpoints show. They are equivalent exactly if both always build and the first builds have
/// the same files. A good endpoint that fails is no reference. A good endpoint that builds against a
/// bad one that fails, or makes other files, is minimised exactly if there is a difference in a
/// setting. Everything else is unstable.
pub proof fn law_findings_say_what_the_endpoints_did(
    good: EndpointAttempts,
    bad: EndpointAttempts,
    runs: int,
    deltas: int,
)
    ensures
        ({
            let finding = finding_of(good, bad, runs, deltas);
            let alike = same_files(good.runs@[0].artifacts@, bad.runs@[0].artifacts@);
            let settled = (always_builds(good, runs) || always_fails(good, runs)) && (always_builds(
                bad,
                runs,
            ) || always_fails(bad, runs));
            &&& finding is Unstable <==> !settled
            &&& finding is GoodFails <==> settled && always_fails(good, runs)
            &&& finding is Equivalent <==> always_builds(good, runs) && always_builds(bad, runs)
                && alike
            &&& finding is Minimize <==> always_builds(good, runs) && deltas != 0 && (always_fails(
                bad,
                runs,
            ) || (always_builds(bad, runs) && !alike))
            &&& finding is NoDelta <==> always_builds(good, runs) && deltas == 0 && (always_fails(
                bad,
                runs,
            ) || (always_builds(bad, runs) && !alike))
        }),
{
    law_only_repeated_outcomes_are_references(good, runs);
    law_only_repeated_outcomes_are_references(bad, runs);
    law_equal_hashes_mean_equal_files(good.runs@[0].artifacts@, bad.runs@[0].artifacts@);
}

/// A difference is looked for while there is one to find and it was not found yet; the way back is
/// gone once, after it was found and where one confirmation is asked for.
pub proof fn law_comparisons_minimize_first_and_revert_last(
    finding: EndpointFinding,
    confirmations: int,
)
    ensures
        comparison_step(finding, false, confirmations) is Minimize <==> finding is Minimize,
        !(comparison_step(finding, false, confirmations) is Revert),
        comparison_step(finding, true, confirmations) is Revert <==> finding is Minimize
            && confirmations == 1,
        !(comparison_step(finding, true, confirmations) is Minimize),
{
}

/// Builds reproduce the bad endpoint exactly if all of them do what it always does: succeed with its
/// files, or fail as it fails.
pub proof fn law_reproduction_repeats_the_bad_outcome(
    bad: EndpointAttempts,
    runs: int,
    again: EndpointAttempts,
)
    ensures
        reproduces_bad(bad, runs, again) <==> {
            ||| always_builds(bad, runs) && always_builds(again, again.runs@.len() as int) && (
            forall|i: int|
                0 <= i < again.runs@.len() ==> same_files(
                    bad.runs@[0].artifacts@,
                    (#[trigger] again.runs@[i]).artifacts@,
                ))
            ||| always_fails(bad, runs) && again.runs@.len() == 0 && again.failures@.len() > 0 && (
            forall|i: int|
                0 <= i < again.failures@.len() ==> failed_alike(
                    #[trigger] again.failures@[i],
                    bad.failures@[0],
                ))
        },
{
    law_only_repeated_outcomes_are_references(bad, runs);
    law_one_outcome_means_equal_holdings(again.runs@);
    assert forall|i: int| 0 <= i < again.runs@.len() implies (same_files(
        bad.runs@[0].artifacts@,
        (#[trigger] again.runs@[i]).artifacts@,
    ) <==> crate::engine::outcomes::same_hashes(
        bad.runs@[0].artifacts@,
        again.runs@[i].artifacts@,
    )) by {
        law_equal_hashes_mean_equal_files(bad.runs@[0].artifacts@, again.runs@[i].artifacts@);
    }
    assert forall|i: int| 0 <= i < again.failures@.len() implies (failed_alike(
        #[trigger] again.failures@[i],
        bad.failures@[0],
    ) <==> failure_mark(again.failures@[i]) == failure_mark(bad.failures@[0])) by {
        law_failure_signatures_tell_failures_apart(again.failures@[i], bad.failures@[0]);
    }
}

/// The way back is confirmed exactly if it was built and made the files of the good endpoint. A failed
/// build on the way back confirms nothing, and no build says nothing.
pub proof fn law_the_way_back_is_confirmed_by_equal_files(good: BuildRun, reversion: Reversion)
    ensures
        came_back(good, reversion) == Some(true) <==> exists|run: BuildRun|
            reversion == Reversion::Completed(run) && #[trigger] same_files(
                good.artifacts@,
                run.artifacts@,
            ),
        came_back(good, reversion) is None <==> reversion is NotRun,
        reversion is BuildFailed ==> came_back(good, reversion) == Some(false),
{
    if let Reversion::Completed(run) = reversion {
        law_equal_hashes_mean_equal_files(good.artifacts@, run.artifacts@);
        if same_files(good.artifacts@, run.artifacts@) {
            assert(reversion == Reversion::Completed(run));
        }
    }
}

/// A difference counts as minimised exactly if it reproduces the bad outcome and the way back, where
/// it was gone, led back. It is never called equivalent.
pub proof fn law_a_minimized_difference_reproduces_and_reverts(
    good: BuildRun,
    bad: EndpointAttempts,
    runs: int,
    again: EndpointAttempts,
    reversion: Reversion,
)
    ensures
        ({
            let status = minimized_status(
                reproduces_bad(bad, runs, again),
                came_back(good, reversion),
            );
            &&& status is Minimized <==> reproduces_bad(bad, runs, again) && (reversion is NotRun
                || exists|run: BuildRun|
                reversion == Reversion::Completed(run) && #[trigger] same_files(
                    good.artifacts@,
                    run.artifacts@,
                ))
            &&& !(status is Minimized) ==> status is Inconclusive
        }),
{
    law_the_way_back_is_confirmed_by_equal_files(good, reversion);
}

/// An endpoint is called successful, failed or mixed by what its builds did.
pub proof fn law_outcome_kinds_name_what_happened(a: EndpointAttempts)
    ensures
        outcome_kind(a) is ArtifactSuccess <==> a.runs@.len() > 0 && a.failures@.len() == 0,
        outcome_kind(a) is BuildFailure <==> a.failures@.len() > 0 && a.runs@.len() == 0,
        outcome_kind(a) is Mixed <==> (a.runs@.len() == 0) == (a.failures@.len() == 0),
{
}

/// A report keeps the endpoints and the difference that it is about, and names the failure of the bad
/// endpoint exactly if that always fails.
pub proof fn law_comparison_reports_keep_what_was_built(
    report: EnvironmentComparisonReport,
    subject: ComparisonSubject,
    good: EndpointAttempts,
    bad: EndpointAttempts,
    runs: int,
    deltas: Seq<EnvironmentDeltaView>,
)
    requires
        reports_endpoints(report, subject, good, bad, runs, deltas),
    ensures
        report.experiment_id@ == subject.experiment_id@,
        report.source_digest@ == subject.source_digest@,
        report.good_manifest_sha256@ == subject.good_manifest_sha256@,
        report.bad_manifest_sha256@ == subject.bad_manifest_sha256@,
        report.good_runs@ == good.runs@,
        report.bad_runs@ == bad.runs@,
        report.good_failures@ == good.failures@,
        report.bad_failures@ == bad.failures@,
        report.good_outcome_kind is ArtifactSuccess <==> good.runs@.len() > 0
            && good.failures@.len() == 0,
        report.bad_outcome_kind is BuildFailure <==> bad.failures@.len() > 0 && bad.runs@.len() == 0,
        report.bad_failure_signature is Some <==> always_fails(bad, runs),
        report.bad_failure_signature matches Some(mark) ==> mark.exit_code
            == bad.failures@[0].exit_code,
        report.delta@.len() == deltas.len(),
        forall|i: int|
            0 <= i < deltas.len() ==> (#[trigger] report.delta@[i]).deep_view() == deltas[i].record,
{
    law_only_repeated_outcomes_are_references(bad, runs);
    assert(report.delta.deep_view().len() == deltas.len());
    assert forall|i: int| 0 <= i < deltas.len() implies (#[trigger] report.delta@[i]).deep_view()
        == deltas[i].record by {
        assert(report.delta.deep_view()[i] == records_of(deltas)[i]);
    }
}

/// The notes say what the endpoints did: an unstable endpoint is named, and no other.
pub proof fn law_endpoint_notes_name_the_unstable_endpoint(
    good: EndpointAttempts,
    bad: EndpointAttempts,
    runs: int,
    deltas: int,
)
    ensures
        ({
            let notes = endpoint_notes(good, bad, runs, deltas);
            let good_settled = always_builds(good, runs) || always_fails(good, runs);
            let bad_settled = always_builds(bad, runs) || always_fails(bad, runs);
            let good_note =
                "known-good endpoint did not produce one stable repeated outcome; successes/failures or artifact/failure signatures varied"@;
            let bad_note =
                "known-bad endpoint did not produce one stable repeated outcome; successes/failures or artifact/failure signatures varied"@;
            let reason =
                "delta minimization was not attempted because ddmin requires a stable reproduction predicate"@;
            &&& !good_settled && !bad_settled ==> notes =~= seq![good_note, bad_note, reason]
            &&& !good_settled && bad_settled ==> notes =~= seq![good_note, reason]
            &&& good_settled && !bad_settled ==> notes =~= seq![bad_note, reason]
            &&& always_builds(good, runs) && always_builds(bad, runs) && same_files(
                good.runs@[0].artifacts@,
                bad.runs@[0].artifacts@,
            ) ==> notes =~= seq![
                "known-good and known-bad manifests produced the same stable declared artifacts"@,
            ]
            &&& always_fails(good, runs) && bad_settled ==> notes =~= seq![
                "known-good endpoint stably exits non-zero; Phase 16 requires known-good to produce the declared artifacts successfully"@,
            ]
        }),
{
    law_only_repeated_outcomes_are_references(good, runs);
    law_only_repeated_outcomes_are_references(bad, runs);
    law_findings_say_what_the_endpoints_did(good, bad, runs, deltas);
}

/// The notes of a minimised difference warn exactly of what went wrong.
pub proof fn law_minimized_notes_warn_of_what_went_wrong(
    bad_fails: bool,
    reproduced: bool,
    reverted: Option<bool>,
)
    ensures
        ({
            let notes = minimized_notes(bad_fails, reproduced, reverted);
            let base = if bad_fails {
                3int
            } else {
                2
            };
            &&& notes.len() == base + (if reproduced {
                0int
            } else {
                1
            }) + (if reverted == Some(false) {
                1int
            } else {
                0
            })
            &&& !reproduced ==> notes[base]
                == "the final minimized subset did not stably reproduce the known-bad outcome on confirmation"@
            &&& reverted == Some(false) ==> notes.last()
                == "known-good reversion did not recover the original successful good artifact signature; temporal drift or an uncontrolled input may be present"@
        }),
{
}

/// The report on endpoints that need no minimising: it is equivalence exactly if both always build and
/// have the same files, and nothing else is claimed.
pub proof fn law_unminimized_reports_claim_only_equivalence(
    subject: ComparisonSubject,
    good: EndpointAttempts,
    bad: EndpointAttempts,
    runs: usize,
    deltas: &Vec<EnvironmentDelta>,
    report: EnvironmentComparisonReport,
)
    requires
        call_ensures(conclude_endpoints, (subject, good, bad, runs, deltas), report),
    ensures
        report.status is Equivalent <==> always_builds(good, runs as int) && always_builds(
            bad,
            runs as int,
        ) && same_files(good.runs@[0].artifacts@, bad.runs@[0].artifacts@),
        !(report.status is Equivalent) ==> report.status is Inconclusive,
        report.good_runs@ == good.runs@ && report.bad_runs@ == bad.runs@,
        report.minimal_delta@.len() == 0,
        report.tested_subsets == 0,
        report.reproduction_runs@.len() == 0,
        report.confirmation_run is None,
        report.reverted_to_good is None,
{
    law_findings_say_what_the_endpoints_did(good, bad, runs as int, deltas@.len() as int);
}

/// The report on a difference that was minimised: it holds the minimal difference, the builds that were
/// to reproduce the bad outcome and the way back. It says minimised exactly if they reproduced it and
/// the way back, where it was gone, led to the good files.
pub proof fn law_minimized_reports_say_what_was_reproduced(
    subject: ComparisonSubject,
    good: EndpointAttempts,
    bad: EndpointAttempts,
    runs: usize,
    deltas: &Vec<EnvironmentDelta>,
    outcome: &DdminOutcome<EnvironmentDelta>,
    again: EndpointAttempts,
    reversion: Reversion,
    report: EnvironmentComparisonReport,
)
    requires
        call_ensures(
            conclude_minimized,
            (subject, good, bad, runs, deltas, outcome, again, reversion),
            report,
        ),
    ensures
        report.status is Minimized <==> reproduces_bad(bad, runs as int, again) && (
        reversion is NotRun || exists|run: BuildRun|
            reversion == Reversion::Completed(run) && #[trigger] same_files(
                good.runs@[0].artifacts@,
                run.artifacts@,
            )),
        !(report.status is Minimized) ==> report.status is Inconclusive,
        report.tested_subsets == outcome.tests + 1,
        report.minimal_delta@.len() == outcome.minimal@.len(),
        forall|i: int|
            0 <= i < outcome.minimal@.len() ==> (#[trigger] report.minimal_delta@[i]).deep_view()
                == outcome.minimal@[i].record.deep_view(),
        report.reproduction_runs@ == again.runs@,
        report.reproduction_failures@ == again.failures@,
        report.reverted_to_good == Some(true) <==> exists|run: BuildRun|
            report.confirmation_run == Some(run) && #[trigger] same_files(
                good.runs@[0].artifacts@,
                run.artifacts@,
            ),
        report.reverted_to_good is None <==> reversion is NotRun,
        report.confirmation_failure is Some <==> reversion is BuildFailed,
{
    let first = good.runs@[0];
    law_a_minimized_difference_reproduces_and_reverts(first, bad, runs as int, again, reversion);
    law_the_way_back_is_confirmed_by_equal_files(first, reversion);
    if let Reversion::Completed(run) = reversion {
        law_equal_hashes_mean_equal_files(first.artifacts@, run.artifacts@);
        if same_files(first.artifacts@, run.artifacts@) {
            assert(report.confirmation_run == Some(run));
        }
    }
    assert(report.minimal_delta.deep_view().len() == outcome.minimal.deep_view().len());
    assert forall|i: int| 0 <= i < outcome.minimal@.len() implies (
    #[trigger] report.minimal_delta@[i]).deep_view() == outcome.minimal@[i].record.deep_view() by {
        assert(report.minimal_delta.deep_view()[i] == records_of(outcome.minimal.deep_view())[i]);
    }
}

/// Comparisons repeat endpoints and subsets from 2 to 32 times and confirm at most once.
pub proof fn law_comparison_options_are_bounded(o: CompareOptions)
    ensures
        options_problem(o) is None <==> 2 <= o.endpoint_runs <= 32 && 2 <= o.subset_runs <= 32
            && o.confirmation_runs <= 1,
{
}

} // verus!
