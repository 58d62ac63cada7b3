//! Where evidence is kept, and how it is named.
use vstd::prelude::*;

use crate::evidence::{
    comparison_path_text, failure_path_text, fix_path_text, ordinal_text, report_path_text,
    run_path_text,
};
use crate::laws::artifacts::{begins_so, ends_so};
use crate::laws::wording::lemma_holds;
use crate::model::{runner_executable, runner_name, RunnerBackend};
use crate::numbers::{digits_of, zero_padded};
use crate::schema::{kind_label, EvidenceKind};
use crate::text::occurs;

verus! {

/// Reports, comparisons and fixes are kept apart, each under the name of its experiment.
pub proof fn law_reports_are_kept_by_kind_and_experiment(a: Seq<char>, b: Seq<char>)
    ensures
        report_path_text(a) == report_path_text(b) <==> a == b,
        comparison_path_text(a) == comparison_path_text(b) <==> a == b,
        fix_path_text(a) == fix_path_text(b) <==> a == b,
        begins_so(report_path_text(a), ".reprobisect/experiments/"@),
        begins_so(comparison_path_text(a), ".reprobisect/comparisons/"@),
        begins_so(fix_path_text(a), ".reprobisect/fixes/"@),
        ends_so(report_path_text(a), ".json"@),
        ends_so(comparison_path_text(a), ".json"@),
        ends_so(fix_path_text(a), ".json"@),
{
    lemma_framed(".reprobisect/experiments/"@, a, b, ".json"@);
    lemma_framed(".reprobisect/comparisons/"@, a, b, ".json"@);
    lemma_framed(".reprobisect/fixes/"@, a, b, ".json"@);
}

proof fn lemma_framed(head: Seq<char>, a: Seq<char>, b: Seq<char>, tail: Seq<char>)
    ensures
        head + a + tail == head + b + tail <==> a == b,
        begins_so(head + a + tail, head),
        ends_so(head + a + tail, tail),
{
    let x = head + a + tail;
    let y = head + b + tail;
    if x == y {
        assert(x.len() == head.len() + a.len() + tail.len());
        assert(y.len() == head.len() + b.len() + tail.len());
        assert(x.subrange(head.len() as int, (head.len() + a.len()) as int) =~= a);
        assert(y.subrange(head.len() as int, (head.len() + b.len()) as int) =~= b);
    }
    assert(x.take(head.len() as int) =~= head);
    assert(x.skip(x.len() - tail.len()) =~= tail);
}

/// A run is kept with its experiment, under its number and its name; a failed one is marked as such, so
/// that the two never share a file.
pub proof fn law_runs_are_kept_with_their_experiment(
    experiment: Seq<char>,
    ordinal: usize,
    run: Seq<char>,
    other: Seq<char>,
)
    ensures
        begins_so(run_path_text(experiment, ordinal, run), ".reprobisect/runs/"@ + experiment),
        begins_so(failure_path_text(experiment, ordinal, run), ".reprobisect/runs/"@ + experiment),
        occurs(
            run_path_text(experiment, ordinal, run),
            "/run-"@ + ordinal_text(ordinal as nat) + "-"@ + run,
        ),
        occurs(
            failure_path_text(experiment, ordinal, run),
            "/run-"@ + ordinal_text(ordinal as nat) + "-"@ + run,
        ),
        ends_so(run_path_text(experiment, ordinal, run), ".json"@),
        ends_so(failure_path_text(experiment, ordinal, run), "-failed.json"@),
        run_path_text(experiment, ordinal, run) == run_path_text(experiment, ordinal, other) <==> run
            == other,
        run_path_text(experiment, ordinal, run) != failure_path_text(experiment, ordinal, run),
{
    let head = ".reprobisect/runs/"@ + experiment;
    let mark = "/run-"@ + ordinal_text(ordinal as nat) + "-"@;
    let own = mark + run;
    let path = run_path_text(experiment, ordinal, run);
    let failed = failure_path_text(experiment, ordinal, run);
    assert(path =~= head + own + ".json"@);
    assert(failed =~= head + own + "-failed.json"@);
    assert(run_path_text(experiment, ordinal, other) =~= head + mark + other + ".json"@);
    assert(path =~= head + mark + run + ".json"@);
    lemma_framed(head, own, own, ".json"@);
    lemma_framed(head, own, own, "-failed.json"@);
    lemma_framed(head + mark, run, other, ".json"@);
    lemma_holds(path, head, own, ".json"@);
    lemma_holds(failed, head, own, "-failed.json"@);
    reveal_strlit(".json");
    reveal_strlit("-failed.json");
    assert(path.len() != failed.len());
}

/// A number in a name has at least four digits, filled up with zeros in front.
pub proof fn law_numbers_in_names_have_four_digits(n: nat, i: int)
    ensures
        ordinal_text(n).len() >= 4,
        digits_of(n, 10).len() <= 4 ==> ordinal_text(n).len() == 4,
        ends_so(ordinal_text(n), digits_of(n, 10)),
        0 <= i < ordinal_text(n).len() - digits_of(n, 10).len() ==> ordinal_text(n)[i] == '0',
{
    let digits = digits_of(n, 10);
    let all = zero_padded(digits, 4);
    assert(all.skip(all.len() - digits.len()) =~= digits);
}

/// Runners and documents are called by their names.
pub proof fn law_runners_and_documents_have_their_names(a: EvidenceKind, b: EvidenceKind)
    ensures
        runner_executable(RunnerBackend::Docker) == "docker"@,
        runner_executable(RunnerBackend::Podman) == "podman"@,
        runner_name(RunnerBackend::Docker) == "Docker"@,
        runner_name(RunnerBackend::Podman) == "Podman"@,
        kind_label(EvidenceKind::BuildRun) == "build run"@,
        kind_label(EvidenceKind::BuildFailure) == "build failure"@,
        kind_label(EvidenceKind::CheckReport) == "check report"@,
        kind_label(a) == kind_label(b) <==> a == b,
{
    reveal_strlit("check report");
    reveal_strlit("build run");
    reveal_strlit("build failure");
    reveal_strlit("fix report");
    reveal_strlit("environment comparison report");
    assert("check report"@.len() == 12 && "build run"@.len() == 9 && "build failure"@.len() == 13
        && "fix report"@.len() == 10 && "environment comparison report"@.len() == 29);
}

} // verus!
