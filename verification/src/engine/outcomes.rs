//! What the artifacts of builds say of each other.
use vstd::prelude::*;

use crate::artifact::generic::{artifact_at, find_artifact};
use crate::model::{ArtifactRecord, BuildFailure, BuildRun, InterventionKind};
use crate::ordering::{is_same_path, key_view};
use crate::sorting::{push_text_piece, sort, sorted, text_piece, Keyed};
use crate::text::same;

verus! {

/// Whether two lists of artifacts are equally long and each artifact of the first has the same
/// bytes as the first one at its path in the second.
pub open spec fn same_hashes(left: Seq<ArtifactRecord>, right: Seq<ArtifactRecord>) -> bool {
    &&& left.len() == right.len()
    &&& forall|i: int| 0 <= i < left.len() ==> #[trigger] has_twin(left[i], right)
}

/// Whether the first artifact at this artifact's path has the same bytes.
pub open spec fn has_twin(artifact: ArtifactRecord, others: Seq<ArtifactRecord>) -> bool {
    match artifact_at(others, artifact.logical_path@, 0) {
        Some(i) => others[i].sha256@ == artifact.sha256@,
        None => false,
    }
}

pub fn same_artifact_hashes(left: &BuildRun, right: &BuildRun) -> (r: bool)
    ensures
        r == same_hashes(left.artifacts@, right.artifacts@),
{
    if left.artifacts.len() != right.artifacts.len() {
        return false;
    }
    let mut i: usize = 0;
    while i < left.artifacts.len()
        invariant
            i <= left.artifacts@.len(),
            left.artifacts@.len() == right.artifacts@.len(),
            forall|k: int| 0 <= k < i ==> #[trigger] has_twin(left.artifacts@[k], right.artifacts@),
        decreases left.artifacts.len() - i,
    {
        let artifact = &left.artifacts[i];
        let twin = match find_artifact(&right.artifacts, artifact.logical_path.as_str()) {
            Some(k) => same(right.artifacts[k].sha256.as_str(), artifact.sha256.as_str()),
            None => false,
        };
        assert(twin == has_twin(left.artifacts@[i as int], right.artifacts@));
        if !twin {
            return false;
        }
        i += 1;
    }
    true
}

impl Keyed for (String, String) {
    open spec fn sort_key(v: (Seq<char>, Seq<char>)) -> Seq<int> {
        text_piece(v.0) + text_piece(v.1)
    }

    fn key_numbers(&self) -> (r: Vec<u32>) {
        let mut key: Vec<u32> = Vec::new();
        push_text_piece(&mut key, self.0.as_str());
        assert(key_view(key@) =~= text_piece(self.0@));
        push_text_piece(&mut key, self.1.as_str());
        key
    }
}

/// The path and the digest of each artifact.
pub open spec fn path_digests(artifacts: Seq<ArtifactRecord>) -> Seq<(Seq<char>, Seq<char>)> {
    artifacts.map_values(|a: ArtifactRecord| (a.logical_path@, a.sha256@))
}

/// The paths and digests of a run's artifacts, in order.
pub open spec fn signature_of(run: BuildRun) -> Seq<(Seq<char>, Seq<char>)> {
    sorted::<(String, String)>(path_digests(run.artifacts@))
}

pub fn artifact_signature(run: &BuildRun) -> (r: Vec<(String, String)>)
    ensures
        r.deep_view() == signature_of(*run),
{
    let mut pairs: Vec<(String, String)> = Vec::new();
    let mut i: usize = 0;
    while i < run.artifacts.len()
        invariant
            i <= run.artifacts@.len(),
            pairs@.len() == i,
            forall|k: int|
                0 <= k < i ==> (#[trigger] pairs@[k]).deep_view() == path_digests(run.artifacts@)[k],
        decreases run.artifacts.len() - i,
    {
        pairs.push(
            (run.artifacts[i].logical_path.clone(), run.artifacts[i].sha256.clone()),
        );
        i += 1;
    }
    assert(pairs.deep_view() =~= path_digests(run.artifacts@));
    sort(pairs)
}

fn same_pairs(a: &Vec<(String, String)>, b: &Vec<(String, String)>) -> (r: bool)
    ensures
        r == (a.deep_view() == b.deep_view()),
{
    let ghost left = a.deep_view();
    let ghost right = b.deep_view();
    if a.len() != b.len() {
        assert(left.len() != right.len());
        return false;
    }
    let mut i: usize = 0;
    while i < a.len()
        invariant
            left == a.deep_view(),
            right == b.deep_view(),
            a@.len() == b@.len(),
            i <= a@.len(),
            forall|k: int| 0 <= k < i ==> #[trigger] left[k] == right[k],
        decreases a.len() - i,
    {
        assert(left[i as int] == (a@[i as int].0@, a@[i as int].1@));
        assert(right[i as int] == (b@[i as int].0@, b@[i as int].1@));
        if !same(a[i].0.as_str(), b[i].0.as_str()) || !same(a[i].1.as_str(), b[i].1.as_str()) {
            return false;
        }
        i += 1;
    }
    assert(left =~= right);
    true
}

/// The signatures of some runs.
pub open spec fn signatures_of(runs: Seq<BuildRun>) -> Seq<Seq<(Seq<char>, Seq<char>)>> {
    runs.map_values(|run: BuildRun| signature_of(run))
}

/// How many different outcomes some runs had.
pub open spec fn outcome_count(runs: Seq<BuildRun>) -> nat {
    signatures_of(runs).to_set().len()
}

/// Adding what is there already changes no set; adding what is new makes a list of distinct
/// values one longer.
proof fn lemma_distinct_step<T>(seen: Seq<T>, all: Seq<T>, n: int)
    requires
        0 <= n < all.len(),
        seen.to_set() == all.take(n).to_set(),
    ensures
        seen.contains(all[n]) ==> seen.to_set() == all.take(n + 1).to_set(),
        seen.push(all[n]).to_set() == all.take(n + 1).to_set(),
{
    assert(all.take(n + 1) =~= all.take(n).push(all[n]));
    broadcast use vstd::seq_lib::group_seq_properties;

    assert(all.take(n + 1).to_set() =~= all.take(n).to_set().insert(all[n])) by {
        assert forall|v: T| all.take(n + 1).contains(v) <==> (all.take(n).contains(v) || v == all[n]) by {
            if all.take(n).contains(v) {
                let k = all.take(n).index_of(v);
                assert(all.take(n + 1)[k] == v);
            }
            if v == all[n] {
                assert(all.take(n + 1)[n] == v);
            }
            if all.take(n + 1).contains(v) {
                let k = all.take(n + 1).index_of(v);
                if k < n {
                    assert(all.take(n)[k] == v);
                }
            }
        }
    }
    assert(seen.push(all[n]).to_set() =~= seen.to_set().insert(all[n])) by {
        assert forall|v: T| seen.push(all[n]).contains(v) <==> (seen.contains(v) || v == all[n]) by {
            if seen.contains(v) {
                let k = seen.index_of(v);
                assert(seen.push(all[n])[k] == v);
            }
            if v == all[n] {
                assert(seen.push(all[n])[seen.len() as int] == v);
            }
            if seen.push(all[n]).contains(v) {
                let k = seen.push(all[n]).index_of(v);
                if k < seen.len() {
                    assert(seen[k] == v);
                }
            }
        }
    }
    if seen.contains(all[n]) {
        assert(seen.to_set().insert(all[n]) =~= seen.to_set());
    }
}

fn lists_pairs(
    signatures: &Vec<Vec<(String, String)>>,
    signature: &Vec<(String, String)>,
) -> (r: bool)
    ensures
        r == signatures.deep_view().contains(signature.deep_view()),
{
    let ghost all = signatures.deep_view();
    let mut i: usize = 0;
    while i < signatures.len()
        invariant
            all == signatures.deep_view(),
            i <= signatures@.len(),
            forall|k: int| 0 <= k < i ==> #[trigger] all[k] != signature.deep_view(),
        decreases signatures.len() - i,
    {
        assert(all[i as int] == signatures@[i as int].deep_view());
        if same_pairs(&signatures[i], signature) {
            assert(all[i as int] == signature.deep_view());
            return true;
        }
        i += 1;
    }
    false
}

pub fn distinct_artifact_outcomes(runs: &Vec<BuildRun>) -> (r: usize)
    ensures
        r == outcome_count(runs@),
        r <= runs@.len(),
{
    let ghost all = signatures_of(runs@);
    let mut seen: Vec<Vec<(String, String)>> = Vec::new();
    let mut n: usize = 0;
    assert(seen.deep_view().to_set() =~= all.take(0).to_set());
    while n < runs.len()
        invariant
            n <= runs@.len(),
            all == signatures_of(runs@),
            seen@.len() <= n,
            seen.deep_view().no_duplicates(),
            seen.deep_view().to_set() == all.take(n as int).to_set(),
        decreases runs.len() - n,
    {
        let signature = artifact_signature(&runs[n]);
        let ghost view = signature.deep_view();
        let ghost had = seen.deep_view();
        proof {
            lemma_distinct_step(had, all, n as int);
        }
        if !lists_pairs(&seen, &signature) {
            seen.push(signature);
            assert(seen.deep_view() =~= had.push(view));
        }
        n += 1;
    }
    proof {
        seen.deep_view().unique_seq_to_set();
        assert(all.take(all.len() as int) =~= all);
        assert(seen.deep_view().len() == seen@.len());
    }
    seen.len()
}

/// Whether a build that fails under this kind of intervention shows something.
pub open spec fn failure_shows(kind: InterventionKind) -> bool {
    kind is NetworkAccess || kind is ToolchainExecutable || kind is DependencyFile
}

pub fn build_failure_is_observable(kind: InterventionKind) -> (r: bool)
    ensures
        r == failure_shows(kind),
{
    matches!(
        kind,
        InterventionKind::NetworkAccess
            | InterventionKind::ToolchainExecutable
            | InterventionKind::DependencyFile
    )
}

/// The exit codes of some failures.
pub open spec fn exit_codes(failures: Seq<BuildFailure>) -> Seq<i32> {
    failures.map_values(|f: BuildFailure| f.exit_code)
}

/// Whether builds all succeeded with one outcome, or all failed with one exit code.
pub open spec fn outcomes_agree(runs: Seq<BuildRun>, failures: Seq<BuildFailure>) -> bool {
    if runs.len() > 0 {
        failures.len() == 0 && outcome_count(runs) == 1
    } else {
        failures.len() > 0 && forall|i: int|
            0 <= i < failures.len() ==> (#[trigger] failures[i]).exit_code == failures[0].exit_code
    }
}

pub fn build_outcomes_stable(runs: &Vec<BuildRun>, failures: &Vec<BuildFailure>) -> (r: bool)
    ensures
        r == outcomes_agree(runs@, failures@),
{
    if runs.len() > 0 && failures.len() > 0 {
        return false;
    }
    if runs.len() > 0 {
        return distinct_artifact_outcomes(runs) == 1;
    }
    if failures.len() == 0 {
        return false;
    }
    let mut i: usize = 1;
    while i < failures.len()
        invariant
            1 <= i <= failures@.len(),
            forall|k: int|
                0 <= k < i ==> (#[trigger] failures@[k]).exit_code == failures@[0].exit_code,
        decreases failures.len() - i,
    {
        if failures[i].exit_code != failures[0].exit_code {
            return false;
        }
        i += 1;
    }
    true
}

/// How many different outcomes builds had: those of the successful ones, and the exit codes.
pub open spec fn all_outcomes(runs: Seq<BuildRun>, failures: Seq<BuildFailure>) -> nat {
    outcome_count(runs) + exit_codes(failures).to_set().len()
}

fn lists_code(codes: &Vec<i32>, code: i32) -> (r: bool)
    ensures
        r == codes@.contains(code),
{
    let mut i: usize = 0;
    while i < codes.len()
        invariant
            i <= codes@.len(),
            forall|k: int| 0 <= k < i ==> #[trigger] codes@[k] != code,
        decreases codes.len() - i,
    {
        if codes[i] == code {
            return true;
        }
        i += 1;
    }
    false
}

pub fn build_outcome_count(runs: &Vec<BuildRun>, failures: &Vec<BuildFailure>) -> (r: usize)
    requires
        runs@.len() + failures@.len() <= usize::MAX,
    ensures
        r == all_outcomes(runs@, failures@),
{
    let ghost all = exit_codes(failures@);
    let mut seen: Vec<i32> = Vec::new();
    let mut n: usize = 0;
    assert(seen@.to_set() =~= all.take(0).to_set());
    while n < failures.len()
        invariant
            n <= failures@.len(),
            all == exit_codes(failures@),
            seen@.len() <= n,
            seen@.no_duplicates(),
            seen@.to_set() == all.take(n as int).to_set(),
        decreases failures.len() - n,
    {
        proof {
            lemma_distinct_step(seen@, all, n as int);
        }
        if !lists_code(&seen, failures[n].exit_code) {
            seen.push(failures[n].exit_code);
        }
        n += 1;
    }
    proof {
        seen@.unique_seq_to_set();
        assert(all.take(all.len() as int) =~= all);
    }
    distinct_artifact_outcomes(runs) + seen.len()
}

/// Whether every run departs from the baseline.
pub open spec fn all_depart(baseline: BuildRun, runs: Seq<BuildRun>) -> bool {
    forall|i: int|
        0 <= i < runs.len() ==> !same_hashes(
            baseline.artifacts@,
            (#[trigger] runs[i]).artifacts@,
        )
}

/// How many of the first `n` runs depart from the baseline.
pub open spec fn departures(baseline: BuildRun, runs: Seq<BuildRun>, n: int) -> int
    decreases n,
{
    if n <= 0 {
        0
    } else {
        departures(baseline, runs, n - 1) + if same_hashes(
            baseline.artifacts@,
            runs[n - 1].artifacts@,
        ) {
            0int
        } else {
            1
        }
    }
}

/// Whether some run departs from the baseline.
pub open spec fn some_departs(baseline: BuildRun, runs: Seq<BuildRun>) -> bool {
    departures(baseline, runs, runs.len() as int) > 0
}

/// How many runs depart from the baseline.
pub fn count_departures(baseline: &BuildRun, runs: &Vec<BuildRun>) -> (r: usize)
    ensures
        r == departures(*baseline, runs@, runs@.len() as int),
        r <= runs@.len(),
{
    let mut count: usize = 0;
    let mut n: usize = 0;
    while n < runs.len()
        invariant
            n <= runs@.len(),
            count <= n,
            count == departures(*baseline, runs@, n as int),
        decreases runs.len() - n,
    {
        if !same_artifact_hashes(baseline, &runs[n]) {
            count += 1;
        }
        n += 1;
    }
    count
}

proof fn lemma_departures(baseline: BuildRun, runs: Seq<BuildRun>, n: int)
    requires
        0 <= n <= runs.len(),
    ensures
        0 <= departures(baseline, runs, n) <= n,
        departures(baseline, runs, n) == n <==> forall|i: int|
            0 <= i < n ==> !same_hashes(baseline.artifacts@, (#[trigger] runs[i]).artifacts@),
    decreases n,
{
    if n > 0 {
        lemma_departures(baseline, runs, n - 1);
        if departures(baseline, runs, n) != n {
            if same_hashes(baseline.artifacts@, runs[n - 1].artifacts@) {
                assert(runs[n - 1].artifacts@ == runs[n - 1].artifacts@);
            }
        }
    }
}

/// Whether every run departs from the baseline, and all have one outcome.
pub open spec fn one_effect(baseline: BuildRun, runs: Seq<BuildRun>) -> bool {
    all_depart(baseline, runs) && outcome_count(runs) == 1
}

/// Whether all of some runs depart from the baseline.
pub fn every_run_departs(baseline: &BuildRun, runs: &Vec<BuildRun>) -> (r: bool)
    ensures
        r == all_depart(*baseline, runs@),
{
    proof {
        lemma_departures(*baseline, runs@, runs@.len() as int);
    }
    count_departures(baseline, runs) == runs.len()
}

pub fn shows_one_effect(baseline: &BuildRun, runs: &Vec<BuildRun>) -> (r: bool)
    ensures
        r == one_effect(*baseline, runs@),
{
    every_run_departs(baseline, runs) && distinct_artifact_outcomes(runs) == 1
}


/// Whether no two artifacts share a path.
pub open spec fn paths_differ(artifacts: Seq<ArtifactRecord>) -> bool {
    forall|i: int, j: int|
        0 <= i < j < artifacts.len() ==> !is_same_path(
            (#[trigger] artifacts[i]).logical_path@,
            (#[trigger] artifacts[j]).logical_path@,
        )
}

proof fn lemma_own_place(artifacts: Seq<ArtifactRecord>, i: int, from: int)
    requires
        paths_differ(artifacts),
        0 <= from <= i < artifacts.len(),
    ensures
        artifact_at(artifacts, artifacts[i].logical_path@, from) == Some(i),
    decreases i - from,
{
    if from < i {
        assert(!is_same_path(artifacts[from].logical_path@, artifacts[i].logical_path@));
        lemma_own_place(artifacts, i, from + 1);
    }
}

/// A run whose artifacts have different paths has the same artifacts as itself: repeating a build
/// with the same result never counts as a departure.
pub proof fn law_a_run_does_not_depart_from_itself(run: BuildRun)
    requires
        paths_differ(run.artifacts@),
    ensures
        same_hashes(run.artifacts@, run.artifacts@),
{
    assert forall|i: int| 0 <= i < run.artifacts@.len() implies #[trigger] has_twin(
        run.artifacts@[i],
        run.artifacts@,
    ) by {
        lemma_own_place(run.artifacts@, i, 0);
    }
}

/// Runs had one outcome exactly if there are some and their artifacts have the same paths and
/// digests in every one of them.
pub proof fn law_one_outcome_means_equal_artifacts(runs: Seq<BuildRun>)
    ensures
        outcome_count(runs) == 1 <==> (runs.len() > 0 && forall|i: int|
            0 <= i < runs.len() ==> signature_of(#[trigger] runs[i]) == signature_of(runs[0])),
{
    let all = signatures_of(runs);
    let distinct = all.to_set();
    vstd::seq_lib::seq_to_set_is_finite(all);
    if outcome_count(runs) == 1 {
        assert(runs.len() > 0) by {
            if runs.len() == 0 {
                assert(distinct =~= Set::empty());
            }
        }
        assert forall|i: int| 0 <= i < runs.len() implies signature_of(#[trigger] runs[i])
            == signature_of(runs[0]) by {
            assert(all[i] == signature_of(runs[i]) && all[0] == signature_of(runs[0]));
            assert(distinct.contains(all[i]) && distinct.contains(all[0]));
            Set::lemma_is_singleton(distinct);
        }
    }
    if runs.len() > 0 && forall|i: int|
        0 <= i < runs.len() ==> signature_of(#[trigger] runs[i]) == signature_of(runs[0]) {
        assert(distinct =~= Set::empty().insert(all[0])) by {
            assert(all[0] == signature_of(runs[0]));
            assert forall|v| distinct.contains(v) <==> v == all[0] by {
                if distinct.contains(v) {
                    let k = all.index_of(v);
                    assert(all[k] == signature_of(runs[k]));
                }
            }
        }
    }
}

} // verus!
