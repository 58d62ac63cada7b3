//! What it means that builds made the same or something else, in terms of their artifacts.
use vstd::multiset::Multiset;
use vstd::prelude::*;

use crate::artifact::generic::{all_equal, artifact_at, comparison_of, comparisons_of, hashes_at};
use crate::engine::control::is_stable;
use crate::engine::outcomes::{
    all_outcomes, departures, exit_codes, failure_shows, has_twin,
    law_one_outcome_means_equal_artifacts, one_effect, outcome_count, outcomes_agree,
    path_digests, same_hashes, signature_of, signatures_of, some_departs,
};
use crate::model::{ArtifactRecord, BuildFailure, BuildRun, InterventionKind};
use crate::ordering::{is_same_path, lemma_before_irreflexive, lemma_before_total};
use crate::ordering::{before, lemma_before_transitive};
use crate::sorting::{
    law_sorted_is_an_ordered_rearrangement, lemma_text_piece_splits, sorted, text_piece, Keyed,
};

verus! {

/// Whether `j` is the first artifact at a path.
pub open spec fn is_first_at(artifacts: Seq<ArtifactRecord>, path: Seq<char>, j: int) -> bool {
    &&& 0 <= j < artifacts.len()
    &&& is_same_path(artifacts[j].logical_path@, path)
    &&& forall|k: int| 0 <= k < j ==> !is_same_path((#[trigger] artifacts[k]).logical_path@, path)
}

/// Whether two lists of artifacts are equally long, and every artifact of the first finds its bytes
/// at its path in the second.
pub open spec fn same_files(left: Seq<ArtifactRecord>, right: Seq<ArtifactRecord>) -> bool {
    &&& left.len() == right.len()
    &&& forall|i: int|
        0 <= i < left.len() ==> exists|j: int| #[trigger]
            is_first_at(right, left[i].logical_path@, j) && right[j].sha256@ == (
            #[trigger] left[i]).sha256@
}

/// The paths and digests that a run made, whatever their order.
pub open spec fn holdings(run: BuildRun) -> Multiset<(Seq<char>, Seq<char>)> {
    run.artifacts@.map_values(|a: ArtifactRecord| (a.logical_path@, a.sha256@)).to_multiset()
}

proof fn lemma_artifact_at(artifacts: Seq<ArtifactRecord>, path: Seq<char>, from: int)
    requires
        0 <= from <= artifacts.len(),
    ensures
        match artifact_at(artifacts, path, from) {
            Some(j) => from <= j < artifacts.len() && is_same_path(
                artifacts[j].logical_path@,
                path,
            ) && forall|k: int|
                from <= k < j ==> !is_same_path((#[trigger] artifacts[k]).logical_path@, path),
            None => forall|k: int|
                from <= k < artifacts.len() ==> !is_same_path(
                    (#[trigger] artifacts[k]).logical_path@,
                    path,
                ),
        },
    decreases artifacts.len() - from,
{
    if from < artifacts.len() && !is_same_path(artifacts[from].logical_path@, path) {
        lemma_artifact_at(artifacts, path, from + 1);
    }
}

/// An artifact is found at a path exactly if it is the first there.
pub proof fn law_the_first_artifact_at_a_path_is_found(
    artifacts: Seq<ArtifactRecord>,
    path: Seq<char>,
    j: int,
)
    ensures
        artifact_at(artifacts, path, 0) == Some(j) <==> is_first_at(artifacts, path, j),
{
    lemma_artifact_at(artifacts, path, 0);
    if is_first_at(artifacts, path, j) && artifact_at(artifacts, path, 0) is Some {
        let k = artifact_at(artifacts, path, 0)->0;
        assert(!(k < j));
        assert(!(j < k));
    }
}

/// Two builds have the same hashes exactly if they made equally many artifacts and every artifact of
/// one has the digest of the first one at its path in the other.
pub proof fn law_equal_hashes_mean_equal_files(
    left: Seq<ArtifactRecord>,
    right: Seq<ArtifactRecord>,
)
    ensures
        same_hashes(left, right) <==> same_files(left, right),
{
    if same_hashes(left, right) {
        assert forall|i: int| 0 <= i < left.len() implies exists|j: int| #[trigger]
            is_first_at(right, left[i].logical_path@, j) && right[j].sha256@ == (
            #[trigger] left[i]).sha256@ by {
            assert(has_twin(left[i], right));
            let j = artifact_at(right, left[i].logical_path@, 0)->0;
            law_the_first_artifact_at_a_path_is_found(right, left[i].logical_path@, j);
        }
    }
    if same_files(left, right) {
        assert forall|i: int| 0 <= i < left.len() implies #[trigger] has_twin(left[i], right) by {
            let j = choose|j: int| #[trigger]
                is_first_at(right, left[i].logical_path@, j) && right[j].sha256@ == left[i].sha256@;
            law_the_first_artifact_at_a_path_is_found(right, left[i].logical_path@, j);
        }
    }
}

proof fn lemma_pair_order()
    ensures
        vstd::relations::total_ordering(
            |a: (Seq<char>, Seq<char>), b: (Seq<char>, Seq<char>)| !before(pair_key(b), pair_key(a)),
        ),
{
    let leq = |a: (Seq<char>, Seq<char>), b: (Seq<char>, Seq<char>)|
        !before(pair_key(b), pair_key(a));
    assert forall|a: (Seq<char>, Seq<char>)| #[trigger] leq(a, a) by {
        lemma_before_irreflexive(pair_key(a));
    }
    assert forall|a: (Seq<char>, Seq<char>), b: (Seq<char>, Seq<char>)|
        #[trigger] leq(a, b) && #[trigger] leq(b, a) implies a == b by {
        lemma_before_total(pair_key(a), pair_key(b));
        lemma_text_piece_splits(a.0, b.0, text_piece(a.1), text_piece(b.1));
        let none = Seq::<int>::empty();
        assert(text_piece(a.1) + none =~= text_piece(b.1) + none);
        lemma_text_piece_splits(a.1, b.1, none, none);
    }
    assert forall|
        a: (Seq<char>, Seq<char>),
        b: (Seq<char>, Seq<char>),
        c: (Seq<char>, Seq<char>),
    | #[trigger] leq(a, b) && #[trigger] leq(b, c) implies leq(a, c) by {
        if before(pair_key(c), pair_key(a)) {
            lemma_before_total(pair_key(a), pair_key(b));
            if before(pair_key(a), pair_key(b)) {
                lemma_before_transitive(pair_key(c), pair_key(a), pair_key(b));
            }
        }
    }
    assert forall|a: (Seq<char>, Seq<char>), b: (Seq<char>, Seq<char>)| #[trigger] leq(a, b)
        || #[trigger] leq(b, a) by {
        if before(pair_key(b), pair_key(a)) && before(pair_key(a), pair_key(b)) {
            lemma_before_transitive(pair_key(a), pair_key(b), pair_key(a));
            lemma_before_irreflexive(pair_key(a));
        }
    }
}

pub open spec fn pair_key(v: (Seq<char>, Seq<char>)) -> Seq<int> {
    <(String, String)>::sort_key(v)
}

proof fn lemma_same_signature_means_same_holdings(a: BuildRun, b: BuildRun)
    ensures
        signature_of(a) == signature_of(b) <==> holdings(a) == holdings(b),
{
    let left = a.artifacts@.map_values(|x: ArtifactRecord| (x.logical_path@, x.sha256@));
    let right = b.artifacts@.map_values(|x: ArtifactRecord| (x.logical_path@, x.sha256@));
    assert(left =~= path_digests(a.artifacts@));
    assert(right =~= path_digests(b.artifacts@));
    law_sorted_is_an_ordered_rearrangement::<(String, String)>(left);
    law_sorted_is_an_ordered_rearrangement::<(String, String)>(right);
    if holdings(a) == holdings(b) {
        let leq = |x: (Seq<char>, Seq<char>), y: (Seq<char>, Seq<char>)|
            !before(pair_key(y), pair_key(x));
        lemma_pair_order();
        let s = sorted::<(String, String)>(left);
        let t = sorted::<(String, String)>(right);
        assert(vstd::relations::sorted_by(s, leq));
        assert(vstd::relations::sorted_by(t, leq));
        vstd::seq_lib::lemma_sorted_unique(s, t, leq);
    }
}

/// Runs had one outcome exactly if there are some and all made the same paths with the same digests.
pub proof fn law_one_outcome_means_equal_holdings(runs: Seq<BuildRun>)
    ensures
        outcome_count(runs) == 1 <==> runs.len() > 0 && forall|i: int|
            0 <= i < runs.len() ==> holdings(#[trigger] runs[i]) == holdings(runs[0]),
{
    law_one_outcome_means_equal_artifacts(runs);
    assert forall|i: int| 0 <= i < runs.len() implies (signature_of(#[trigger] runs[i])
        == signature_of(runs[0]) <==> holdings(runs[i]) == holdings(runs[0])) by {
        lemma_same_signature_means_same_holdings(runs[i], runs[0]);
    }
}

proof fn lemma_one_more<T>(s: Seq<T>, v: T)
    ensures
        s.push(v).to_set().len() == s.to_set().len() + if s.contains(v) {
            0nat
        } else {
            1nat
        },
{
    broadcast use vstd::seq_lib::group_seq_properties;

    vstd::seq_lib::seq_to_set_is_finite(s);
    assert(s.push(v).to_set() =~= s.to_set().insert(v)) by {
        assert forall|x: T| s.push(v).contains(x) <==> s.contains(x) || x == v by {
            if s.contains(x) {
                let k = s.index_of(x);
                assert(s.push(v)[k] == x);
            }
            assert(s.push(v)[s.len() as int] == v);
        }
    }
}

/// One more run is one more outcome exactly if no run before it made the same.
pub proof fn law_outcomes_are_counted_once(runs: Seq<BuildRun>, run: BuildRun)
    ensures
        outcome_count(Seq::<BuildRun>::empty()) == 0,
        outcome_count(runs.push(run)) == outcome_count(runs) + if exists|i: int|
            0 <= i < runs.len() && holdings(#[trigger] runs[i]) == holdings(run) {
            0nat
        } else {
            1nat
        },
{
    assert(signatures_of(Seq::<BuildRun>::empty()).to_set() =~= Set::empty());
    let all = signatures_of(runs);
    assert(signatures_of(runs.push(run)) =~= all.push(signature_of(run)));
    lemma_one_more(all, signature_of(run));
    if all.contains(signature_of(run)) {
        let k = all.index_of(signature_of(run));
        assert(all[k] == signature_of(runs[k]));
        lemma_same_signature_means_same_holdings(runs[k], run);
    }
    if exists|i: int| 0 <= i < runs.len() && holdings(#[trigger] runs[i]) == holdings(run) {
        let i = choose|i: int| 0 <= i < runs.len() && holdings(#[trigger] runs[i]) == holdings(run);
        lemma_same_signature_means_same_holdings(runs[i], run);
        assert(all[i] == signature_of(run));
    }
}

/// One more failure is one more outcome exactly if no failure before it had its exit code.
pub proof fn law_failures_are_told_apart_by_their_exit_codes(
    runs: Seq<BuildRun>,
    failures: Seq<BuildFailure>,
    failure: BuildFailure,
)
    ensures
        all_outcomes(runs, Seq::empty()) == outcome_count(runs),
        all_outcomes(runs, failures.push(failure)) == all_outcomes(runs, failures) + if exists|
            i: int,
        |
            0 <= i < failures.len() && (#[trigger] failures[i]).exit_code == failure.exit_code {
            0nat
        } else {
            1nat
        },
{
    assert(exit_codes(Seq::empty()).to_set() =~= Set::empty());
    let all = exit_codes(failures);
    assert(exit_codes(failures.push(failure)) =~= all.push(failure.exit_code));
    lemma_one_more(all, failure.exit_code);
    if all.contains(failure.exit_code) {
        let k = all.index_of(failure.exit_code);
        assert(failures[k].exit_code == failure.exit_code);
    }
    if exists|i: int| 0 <= i < failures.len() && (#[trigger] failures[i]).exit_code
        == failure.exit_code {
        let i = choose|i: int|
            0 <= i < failures.len() && (#[trigger] failures[i]).exit_code == failure.exit_code;
        assert(all[i] == failure.exit_code);
    }
}

/// Builds agree exactly if all of them succeeded and made the same, or all of them failed with one
/// exit code.
pub proof fn law_agreeing_builds_all_do_the_same(
    runs: Seq<BuildRun>,
    failures: Seq<BuildFailure>,
)
    ensures
        outcomes_agree(runs, failures) <==> {
            ||| runs.len() > 0 && failures.len() == 0 && forall|i: int|
                0 <= i < runs.len() ==> holdings(#[trigger] runs[i]) == holdings(runs[0])
            ||| runs.len() == 0 && failures.len() > 0 && forall|i: int, j: int|
                0 <= i < failures.len() && 0 <= j < failures.len() ==> (
                #[trigger] failures[i]).exit_code == (#[trigger] failures[j]).exit_code
        },
{
    law_one_outcome_means_equal_holdings(runs);
}

/// The departures from a baseline are the runs with other files.
pub proof fn law_departures_are_the_runs_with_other_files(baseline: BuildRun, runs: Seq<BuildRun>)
    ensures
        departures(baseline, runs, runs.len() as int) == runs.filter(
            |run: BuildRun| !same_files(baseline.artifacts@, run.artifacts@),
        ).len(),
        some_departs(baseline, runs) <==> exists|i: int|
            0 <= i < runs.len() && !same_files(
                baseline.artifacts@,
                (#[trigger] runs[i]).artifacts@,
            ),
        one_effect(baseline, runs) <==> runs.len() > 0 && (forall|i: int|
            0 <= i < runs.len() ==> !same_files(
                baseline.artifacts@,
                (#[trigger] runs[i]).artifacts@,
            )) && (forall|i: int|
            0 <= i < runs.len() ==> holdings(#[trigger] runs[i]) == holdings(runs[0])),
    decreases runs.len(),
{
    let differs = |run: BuildRun| !same_files(baseline.artifacts@, run.artifacts@);
    assert forall|i: int| 0 <= i < runs.len() implies (same_files(
        baseline.artifacts@,
        (#[trigger] runs[i]).artifacts@,
    ) <==> same_hashes(baseline.artifacts@, runs[i].artifacts@)) by {
        law_equal_hashes_mean_equal_files(baseline.artifacts@, runs[i].artifacts@);
    }
    law_one_outcome_means_equal_holdings(runs);
    if runs.len() > 0 {
        let rest = runs.drop_last();
        law_departures_are_the_runs_with_other_files(baseline, rest);
        lemma_departures_of_a_beginning(baseline, runs, rest.len() as int);
        assert(runs =~= rest.push(runs.last()));
        rest.lemma_filter_len_push(differs, runs.last());
        assert(runs[runs.len() - 1] == runs.last());
        if exists|i: int|
            0 <= i < rest.len() && !same_files(baseline.artifacts@, (#[trigger] rest[i]).artifacts@) {
            let i = choose|i: int|
                0 <= i < rest.len() && !same_files(
                    baseline.artifacts@,
                    (#[trigger] rest[i]).artifacts@,
                );
            assert(runs[i] == rest[i]);
        }
        if exists|i: int|
            0 <= i < runs.len() && !same_files(baseline.artifacts@, (#[trigger] runs[i]).artifacts@) {
            let i = choose|i: int|
                0 <= i < runs.len() && !same_files(
                    baseline.artifacts@,
                    (#[trigger] runs[i]).artifacts@,
                );
            if i < rest.len() {
                assert(rest[i] == runs[i]);
            }
        }
    }
}

proof fn lemma_departures_of_a_beginning(baseline: BuildRun, runs: Seq<BuildRun>, n: int)
    requires
        0 <= n < runs.len(),
    ensures
        departures(baseline, runs, n) == departures(baseline, runs.drop_last(), n),
    decreases n,
{
    if n > 0 {
        lemma_departures_of_a_beginning(baseline, runs, n - 1);
    }
}

/// Whether all runs have, first at a path, the bytes that the first run has there.
pub open spec fn agree_at(runs: Seq<BuildRun>, path: Seq<char>) -> bool {
    forall|k: int|
        0 <= k < runs.len() ==> exists|j: int, m: int|
            #![trigger is_first_at(runs[k].artifacts@, path, j), is_first_at(runs[0].artifacts@, path, m)]
            is_first_at((#[trigger] runs[k]).artifacts@, path, j) && is_first_at(
                runs[0].artifacts@,
                path,
                m,
            ) && runs[k].artifacts@[j].sha256@ == runs[0].artifacts@[m].sha256@
}

proof fn lemma_hashes_at(runs: Seq<BuildRun>, path: Seq<char>, n: int)
    requires
        0 <= n <= runs.len(),
    ensures
        hashes_at(runs, path, n).len() <= n,
        hashes_at(runs, path, n).len() == n <==> forall|k: int|
            0 <= k < n ==> artifact_at((#[trigger] runs[k]).artifacts@, path, 0) is Some,
        hashes_at(runs, path, n).len() == n ==> forall|k: int|
            0 <= k < n ==> #[trigger] hashes_at(runs, path, n)[k]
                == runs[k].artifacts@[artifact_at(runs[k].artifacts@, path, 0)->0].sha256@,
    decreases n,
{
    if n > 0 {
        lemma_hashes_at(runs, path, n - 1);
        if hashes_at(runs, path, n).len() == n {
            assert(artifact_at(runs[n - 1].artifacts@, path, 0) is Some);
        }
    }
}

/// Controls are stable exactly if, for every artifact of the first run, every run has the same bytes
/// at its path. The comparisons name the artifacts of the first run in order.
pub proof fn law_stable_controls_made_the_same(runs: Seq<BuildRun>)
    ensures
        is_stable(comparisons_of(runs)) <==> (runs.len() > 0 ==> forall|i: int|
            0 <= i < runs[0].artifacts@.len() ==> agree_at(
                runs,
                (#[trigger] runs[0].artifacts@[i]).logical_path@,
            )),
        runs.len() > 0 ==> comparisons_of(runs).len() == runs[0].artifacts@.len() && forall|i: int|
            0 <= i < comparisons_of(runs).len() ==> (
            #[trigger] comparisons_of(runs)[i]).logical_path
                == runs[0].artifacts@[i].logical_path@,
{
    if runs.len() > 0 {
        let all = comparisons_of(runs);
        assert forall|i: int| 0 <= i < all.len() implies ((#[trigger] all[i]).equal_across_runs
            <==> agree_at(runs, runs[0].artifacts@[i].logical_path@)) by {
            lemma_one_comparison(runs, runs[0].artifacts@[i].logical_path@);
        }
        if is_stable(all) {
            assert forall|i: int| 0 <= i < runs[0].artifacts@.len() implies agree_at(
                runs,
                (#[trigger] runs[0].artifacts@[i]).logical_path@,
            ) by {
                assert(all[i].equal_across_runs);
            }
        }
        if forall|i: int|
            0 <= i < runs[0].artifacts@.len() ==> agree_at(
                runs,
                (#[trigger] runs[0].artifacts@[i]).logical_path@,
            ) {
            assert forall|i: int| 0 <= i < all.len() implies (
            #[trigger] all[i]).equal_across_runs by {
                assert(agree_at(runs, runs[0].artifacts@[i].logical_path@));
            }
        }
    }
}

proof fn lemma_one_comparison(runs: Seq<BuildRun>, path: Seq<char>)
    requires
        runs.len() > 0,
    ensures
        comparison_of(runs, path).equal_across_runs <==> agree_at(runs, path),
{
    let n = runs.len() as int;
    let hashes = hashes_at(runs, path, n);
    lemma_hashes_at(runs, path, n);
    if comparison_of(runs, path).equal_across_runs {
        assert forall|k: int| 0 <= k < runs.len() implies exists|j: int, m: int|
            #![trigger is_first_at(runs[k].artifacts@, path, j), is_first_at(runs[0].artifacts@, path, m)]
            is_first_at((#[trigger] runs[k]).artifacts@, path, j) && is_first_at(
                runs[0].artifacts@,
                path,
                m,
            ) && runs[k].artifacts@[j].sha256@ == runs[0].artifacts@[m].sha256@ by {
            assert(artifact_at(runs[k].artifacts@, path, 0) is Some);
            assert(artifact_at(runs[0].artifacts@, path, 0) is Some);
            let j = artifact_at(runs[k].artifacts@, path, 0)->0;
            let m = artifact_at(runs[0].artifacts@, path, 0)->0;
            law_the_first_artifact_at_a_path_is_found(runs[k].artifacts@, path, j);
            law_the_first_artifact_at_a_path_is_found(runs[0].artifacts@, path, m);
            assert(hashes[k] == hashes[0]);
            assert(is_first_at(runs[k].artifacts@, path, j));
            assert(is_first_at(runs[0].artifacts@, path, m));
        }
    }
    if agree_at(runs, path) {
        assert forall|k: int| 0 <= k < n implies artifact_at(
            (#[trigger] runs[k]).artifacts@,
            path,
            0,
        ) is Some && runs[k].artifacts@[artifact_at(runs[k].artifacts@, path, 0)->0].sha256@
            == runs[0].artifacts@[artifact_at(runs[0].artifacts@, path, 0)->0].sha256@ by {
            let (j, m) = choose|j: int, m: int|
                #![trigger is_first_at(runs[k].artifacts@, path, j), is_first_at(runs[0].artifacts@, path, m)]
                is_first_at(runs[k].artifacts@, path, j) && is_first_at(
                    runs[0].artifacts@,
                    path,
                    m,
                ) && runs[k].artifacts@[j].sha256@ == runs[0].artifacts@[m].sha256@;
            law_the_first_artifact_at_a_path_is_found(runs[k].artifacts@, path, j);
            law_the_first_artifact_at_a_path_is_found(runs[0].artifacts@, path, m);
        }
        assert forall|i: int, j: int|
            0 <= i < hashes.len() && 0 <= j < hashes.len() implies #[trigger] hashes[i]
            == #[trigger] hashes[j] by {
            assert(hashes[i] == runs[i].artifacts@[artifact_at(
                runs[i].artifacts@,
                path,
                0,
            )->0].sha256@);
            assert(hashes[j] == runs[j].artifacts@[artifact_at(
                runs[j].artifacts@,
                path,
                0,
            )->0].sha256@);
        }
        assert(all_equal(hashes));
    }
}

/// A failed build is an outcome of its own exactly where the network is cut, a tool exchanged or a
/// dependency replaced. Under every other change it is a broken experiment.
pub proof fn law_failures_show_where_inputs_are_taken_away(kind: InterventionKind)
    ensures
        failure_shows(kind) <==> kind == InterventionKind::NetworkAccess || kind
            == InterventionKind::ToolchainExecutable || kind == InterventionKind::DependencyFile,
{
}

} // verus!
