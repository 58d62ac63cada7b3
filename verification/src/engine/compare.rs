//! The decisions of a comparison of two environments: what each endpoint does, and what is made of
//! their difference.
use vstd::prelude::*;
use vstd::utf8::encode_utf8;

use crate::artifact::generic::artifact_at;
use crate::digest::{digest_text, sha256_bytes};
use crate::engine::ddmin::{clones_look_equal, DdminOutcome};
use crate::engine::deltas::{artifact_deltas, build_artifact_deltas};
use crate::engine::outcomes::{
    distinct_artifact_outcomes, has_twin, law_one_outcome_means_equal_artifacts, outcome_count,
    path_digests, paths_differ, same_artifact_hashes, same_hashes, signature_of,
};
use crate::environment::{EnvironmentDelta, EnvironmentDeltaView};
use crate::model::{
    ArtifactDelta, ArtifactDeltaView, ArtifactRecord, BuildFailure, BuildFailureSignature,
    BuildFailureSignatureView, BuildRun, EnvironmentComparisonOutcomeKind,
    EnvironmentComparisonReport, EnvironmentComparisonStatus, EnvironmentDeltaRecord,
    EnvironmentDeltaRecordView, SourceProvenance,
};
use crate::ordering::is_same_path;
use crate::schema::ENVIRONMENT_COMPARISON_SCHEMA_CURRENT;
use crate::sorting::law_sorted_is_an_ordered_rearrangement;
use crate::text::{concat, outcome, push_line, same};

verus! {

/// How many builds each part of a comparison runs.
#[derive(Debug, Clone, Copy, PartialEq)]
pub struct CompareOptions {
    pub endpoint_runs: usize,
    pub subset_runs: usize,
    pub confirmation_runs: usize,
}

pub open spec fn options_problem(options: CompareOptions) -> Option<Seq<char>> {
    if !(2 <= options.endpoint_runs <= 32) {
        Some("compare endpoint_runs must be between 2 and 32"@)
    } else if !(2 <= options.subset_runs <= 32) {
        Some("compare subset_runs must be between 2 and 32"@)
    } else if options.confirmation_runs > 1 {
        Some("compare confirmation_runs currently supports only 0 or 1"@)
    } else {
        None
    }
}

pub fn validate_options(options: &CompareOptions) -> (r: Result<(), String>)
    ensures
        outcome(r) == match options_problem(*options) {
            Some(message) => Err(message),
            None => Ok(()),
        },
{
    if options.endpoint_runs < 2 || options.endpoint_runs > 32 {
        return Err("compare endpoint_runs must be between 2 and 32".to_owned());
    }
    if options.subset_runs < 2 || options.subset_runs > 32 {
        return Err("compare subset_runs must be between 2 and 32".to_owned());
    }
    if options.confirmation_runs > 1 {
        return Err("compare confirmation_runs currently supports only 0 or 1".to_owned());
    }
    Ok(())
}

/// The repeated builds of one environment.
#[derive(Debug, Default, PartialEq)]
pub struct EndpointAttempts {
    pub runs: Vec<BuildRun>,
    pub failures: Vec<BuildFailure>,
}

/// What an environment always does: build the artifacts of a run, or fail in one way.
#[derive(Debug)]
pub enum StableEndpointReference<'a> {
    Artifacts(&'a BuildRun),
    Failure(BuildFailureSignature),
}

#[verifier::ext_equal]
pub enum ReferenceView {
    Artifacts(BuildRun),
    Failure(BuildFailureSignatureView),
}

impl<'a> View for StableEndpointReference<'a> {
    type V = ReferenceView;

    open spec fn view(&self) -> ReferenceView {
        match self {
            StableEndpointReference::Artifacts(run) => ReferenceView::Artifacts(**run),
            StableEndpointReference::Failure(signature) => ReferenceView::Failure(
                signature.deep_view(),
            ),
        }
    }
}

pub open spec fn view_reference(reference: Option<StableEndpointReference>) -> Option<
    ReferenceView,
> {
    match reference {
        Some(found) => Some(found@),
        None => None,
    }
}

/// A digest that was kept, or that of the text itself.
pub open spec fn stream_digest(kept: Seq<char>, text: Seq<char>) -> Seq<char> {
    if kept.len() == 0 {
        digest_text(encode_utf8(text))
    } else {
        kept
    }
}

/// The exit code of a failure and the digests of what it printed.
pub open spec fn failure_mark(failure: BuildFailure) -> BuildFailureSignatureView {
    BuildFailureSignatureView {
        exit_code: failure.exit_code,
        stdout_sha256: stream_digest(failure.stdout_sha256@, failure.stdout@),
        stderr_sha256: stream_digest(failure.stderr_sha256@, failure.stderr@),
    }
}

fn digest_of_stream(kept: &String, text: &str) -> (r: String)
    ensures
        r@ == stream_digest(kept@, text@),
{
    if crate::text::chars_of(kept.as_str()).len() == 0 {
        sha256_bytes(text.as_bytes())
    } else {
        kept.clone()
    }
}

pub fn failure_signature(failure: &BuildFailure) -> (r: BuildFailureSignature)
    ensures
        r.deep_view() == failure_mark(*failure),
{
    BuildFailureSignature {
        exit_code: failure.exit_code,
        stdout_sha256: digest_of_stream(&failure.stdout_sha256, failure.stdout.as_str()),
        stderr_sha256: digest_of_stream(&failure.stderr_sha256, failure.stderr.as_str()),
    }
}

fn same_signature(a: &BuildFailureSignature, b: &BuildFailureSignature) -> (r: bool)
    ensures
        r == (a.deep_view() == b.deep_view()),
{
    a.exit_code == b.exit_code && same(a.stdout_sha256.as_str(), b.stdout_sha256.as_str()) && same(
        a.stderr_sha256.as_str(),
        b.stderr_sha256.as_str(),
    )
}

pub open spec fn outcome_kind(attempts: EndpointAttempts) -> EnvironmentComparisonOutcomeKind {
    if attempts.runs@.len() > 0 && attempts.failures@.len() == 0 {
        EnvironmentComparisonOutcomeKind::ArtifactSuccess
    } else if attempts.runs@.len() == 0 && attempts.failures@.len() > 0 {
        EnvironmentComparisonOutcomeKind::BuildFailure
    } else {
        EnvironmentComparisonOutcomeKind::Mixed
    }
}

pub fn endpoint_outcome_kind(attempts: &EndpointAttempts) -> (r: EnvironmentComparisonOutcomeKind)
    ensures
        r == outcome_kind(*attempts),
{
    if attempts.runs.len() > 0 && attempts.failures.len() == 0 {
        EnvironmentComparisonOutcomeKind::ArtifactSuccess
    } else if attempts.runs.len() == 0 && attempts.failures.len() > 0 {
        EnvironmentComparisonOutcomeKind::BuildFailure
    } else {
        EnvironmentComparisonOutcomeKind::Mixed
    }
}

/// Whether all failures bear this mark.
pub open spec fn all_marked(failures: Seq<BuildFailure>, mark: BuildFailureSignatureView) -> bool {
    forall|i: int| 0 <= i < failures.len() ==> failure_mark(#[trigger] failures[i]) == mark
}

fn check_marks(failures: &Vec<BuildFailure>, signature: &BuildFailureSignature) -> (r: bool)
    ensures
        r == all_marked(failures@, signature.deep_view()),
{
    let mut i: usize = 0;
    while i < failures.len()
        invariant
            i <= failures@.len(),
            forall|k: int|
                0 <= k < i ==> failure_mark(#[trigger] failures@[k]) == signature.deep_view(),
        decreases failures.len() - i,
    {
        if !same_signature(&failure_signature(&failures[i]), signature) {
            assert(failure_mark(failures@[i as int]) != signature.deep_view());
            return false;
        }
        i += 1;
    }
    true
}

/// What all of an endpoint's builds agree on, if they do and there are as many as expected.
pub open spec fn reference_of(attempts: EndpointAttempts, expected: int) -> Option<ReferenceView> {
    let runs = attempts.runs@;
    let failures = attempts.failures@;
    if failures.len() == 0 && runs.len() == expected && outcome_count(runs) == 1 {
        if runs.len() == 0 {
            None
        } else {
            Some(ReferenceView::Artifacts(runs[0]))
        }
    } else if runs.len() == 0 && failures.len() == expected && failures.len() > 0 && all_marked(
        failures,
        failure_mark(failures[0]),
    ) {
        Some(ReferenceView::Failure(failure_mark(failures[0])))
    } else {
        None
    }
}

pub fn stable_endpoint_reference<'a>(attempts: &'a EndpointAttempts, expected_runs: usize) -> (r:
    Option<StableEndpointReference<'a>>)
    ensures
        view_reference(r) == reference_of(*attempts, expected_runs as int),
{
    if attempts.failures.len() == 0 && attempts.runs.len() == expected_runs
        && distinct_artifact_outcomes(&attempts.runs) == 1 {
        if attempts.runs.len() == 0 {
            return None;
        }
        return Some(StableEndpointReference::Artifacts(&attempts.runs[0]));
    }
    if attempts.runs.len() == 0 && attempts.failures.len() == expected_runs
        && attempts.failures.len() > 0 {
        let first = failure_signature(&attempts.failures[0]);
        if check_marks(&attempts.failures, &first) {
            return Some(StableEndpointReference::Failure(first));
        }
    }
    None
}

/// Whether runs have one outcome, and it is that of `reference`.
pub open spec fn reproduces_artifacts(runs: Seq<BuildRun>, reference: BuildRun) -> bool {
    runs.len() > 0 && outcome_count(runs) == 1 && forall|i: int|
        0 <= i < runs.len() ==> same_hashes(
            reference.artifacts@,
            (#[trigger] runs[i]).artifacts@,
        )
}

pub fn runs_reproduce_reference(runs: &Vec<BuildRun>, reference: &BuildRun) -> (r: bool)
    ensures
        r == reproduces_artifacts(runs@, *reference),
{
    if runs.len() == 0 || distinct_artifact_outcomes(runs) != 1 {
        return false;
    }
    let mut i: usize = 0;
    while i < runs.len()
        invariant
            runs@.len() > 0,
            outcome_count(runs@) == 1,
            i <= runs@.len(),
            forall|k: int|
                0 <= k < i ==> same_hashes(
                    reference.artifacts@,
                    (#[trigger] runs@[k]).artifacts@,
                ),
        decreases runs.len() - i,
    {
        if !same_artifact_hashes(reference, &runs[i]) {
            assert(!same_hashes(reference.artifacts@, runs@[i as int].artifacts@));
            return false;
        }
        i += 1;
    }
    true
}

/// Whether builds do exactly what `reference` does.
pub open spec fn reproduces(attempts: EndpointAttempts, reference: ReferenceView) -> bool {
    match reference {
        ReferenceView::Artifacts(run) => attempts.failures@.len() == 0 && reproduces_artifacts(
            attempts.runs@,
            run,
        ),
        ReferenceView::Failure(mark) => attempts.runs@.len() == 0 && attempts.failures@.len() > 0
            && all_marked(attempts.failures@, mark),
    }
}

pub fn attempts_reproduce_reference(
    attempts: &EndpointAttempts,
    reference: &StableEndpointReference,
) -> (r: bool)
    ensures
        r == reproduces(*attempts, reference@),
{
    match reference {
        StableEndpointReference::Artifacts(run) => attempts.failures.len() == 0
            && runs_reproduce_reference(&attempts.runs, run),
        StableEndpointReference::Failure(signature) => attempts.runs.len() == 0
            && attempts.failures.len() > 0 && check_marks(&attempts.failures, signature),
    }
}

/// What the endpoints of a comparison say.
#[derive(Debug, Clone, Copy, PartialEq, Eq, Structural)]
pub enum EndpointFinding {
    /// One of them does not always do the same.
    Unstable,
    /// The known-good environment fails.
    GoodFails,
    /// Both build the same.
    Equivalent,
    /// They differ, but not in a setting that is modelled.
    NoDelta,
    /// They differ, and their difference can be minimised.
    Minimize,
}

pub open spec fn finding_of(
    good: EndpointAttempts,
    bad: EndpointAttempts,
    endpoint_runs: int,
    deltas: int,
) -> EndpointFinding {
    match (reference_of(good, endpoint_runs), reference_of(bad, endpoint_runs)) {
        (Some(ReferenceView::Artifacts(good_run)), Some(ReferenceView::Artifacts(bad_run))) => if same_hashes(
            good_run.artifacts@,
            bad_run.artifacts@,
        ) {
            EndpointFinding::Equivalent
        } else if deltas == 0 {
            EndpointFinding::NoDelta
        } else {
            EndpointFinding::Minimize
        },
        (Some(ReferenceView::Artifacts(_)), Some(ReferenceView::Failure(_))) => if deltas == 0 {
            EndpointFinding::NoDelta
        } else {
            EndpointFinding::Minimize
        },
        (Some(ReferenceView::Failure(_)), Some(_)) => EndpointFinding::GoodFails,
        _ => EndpointFinding::Unstable,
    }
}

pub fn classify_endpoints(
    good: &EndpointAttempts,
    bad: &EndpointAttempts,
    endpoint_runs: usize,
    deltas: usize,
) -> (r: EndpointFinding)
    ensures
        r == finding_of(*good, *bad, endpoint_runs as int, deltas as int),
{
    match (
        stable_endpoint_reference(good, endpoint_runs),
        stable_endpoint_reference(bad, endpoint_runs),
    ) {
        (Some(good_reference), Some(bad_reference)) => match good_reference {
            StableEndpointReference::Failure(_) => EndpointFinding::GoodFails,
            StableEndpointReference::Artifacts(good_run) => {
                if let StableEndpointReference::Artifacts(bad_run) = bad_reference {
                    if same_artifact_hashes(good_run, bad_run) {
                        return EndpointFinding::Equivalent;
                    }
                }
                if deltas == 0 {
                    EndpointFinding::NoDelta
                } else {
                    EndpointFinding::Minimize
                }
            },
        },
        _ => EndpointFinding::Unstable,
    }
}

/// What a comparison does next.
#[derive(Debug, Clone, Copy, PartialEq, Eq, Structural)]
pub enum ComparisonStep {
    /// Look for the smallest difference that does what the known-bad environment does.
    Minimize,
    /// Build once more in the known-good environment.
    Revert,
    Conclude,
}

/// What comes after the endpoints were built, or once `minimized`: endpoints that differ in a
/// modelled setting are minimised, and the way back is gone where one confirmation is asked for.
pub open spec fn comparison_step(
    finding: EndpointFinding,
    minimized: bool,
    confirmation_runs: int,
) -> ComparisonStep {
    if !(finding is Minimize) {
        ComparisonStep::Conclude
    } else if !minimized {
        ComparisonStep::Minimize
    } else if confirmation_runs == 1 {
        ComparisonStep::Revert
    } else {
        ComparisonStep::Conclude
    }
}

pub fn next_comparison_step(
    good: &EndpointAttempts,
    bad: &EndpointAttempts,
    deltas: usize,
    minimized: bool,
    options: &CompareOptions,
) -> (r: ComparisonStep)
    ensures
        r == comparison_step(
            finding_of(*good, *bad, options.endpoint_runs as int, deltas as int),
            minimized,
            options.confirmation_runs as int,
        ),
{
    match classify_endpoints(good, bad, options.endpoint_runs, deltas) {
        EndpointFinding::Minimize => if !minimized {
            ComparisonStep::Minimize
        } else if options.confirmation_runs == 1 {
            ComparisonStep::Revert
        } else {
            ComparisonStep::Conclude
        },
        _ => ComparisonStep::Conclude,
    }
}

/// What a comparison was made on.
pub struct ComparisonSubject {
    pub experiment_id: String,
    pub source_digest: String,
    pub source_provenance: SourceProvenance,
    pub good_manifest_sha256: String,
    pub bad_manifest_sha256: String,
}

/// The records of some differences.
pub open spec fn records_of(deltas: Seq<EnvironmentDeltaView>) -> Seq<EnvironmentDeltaRecordView> {
    deltas.map_values(|d: EnvironmentDeltaView| d.record)
}

pub fn collect_records(deltas: &Vec<EnvironmentDelta>) -> (r: Vec<EnvironmentDeltaRecord>)
    ensures
        r.deep_view() == records_of(deltas.deep_view()),
{
    let ghost wanted = records_of(deltas.deep_view());
    let mut records: Vec<EnvironmentDeltaRecord> = Vec::new();
    let mut i: usize = 0;
    while i < deltas.len()
        invariant
            wanted == records_of(deltas.deep_view()),
            i <= deltas@.len(),
            records@.len() == i,
            forall|k: int| 0 <= k < i ==> (#[trigger] records@[k]).deep_view() == wanted[k],
        decreases deltas.len() - i,
    {
        assert(deltas.deep_view()[i as int] == deltas@[i as int].deep_view());
        records.push(deltas[i].record.clone());
        i += 1;
    }
    assert(records.deep_view() =~= wanted);
    records
}

/// How the artifacts of the bad endpoint depart from the first ones of the good endpoint.
pub open spec fn endpoint_deltas(good: EndpointAttempts, bad: EndpointAttempts) -> Seq<
    ArtifactDeltaView,
> {
    if good.runs@.len() > 0 && bad.runs@.len() > 0 {
        artifact_deltas(good.runs@[0], bad.runs@, None)
    } else {
        Seq::empty()
    }
}

fn compare_endpoint_artifacts(good: &EndpointAttempts, bad: &EndpointAttempts) -> (r: Vec<
    ArtifactDelta,
>)
    ensures
        r.deep_view() == endpoint_deltas(*good, *bad),
{
    if good.runs.len() > 0 && bad.runs.len() > 0 {
        build_artifact_deltas(&good.runs[0], &bad.runs, None)
    } else {
        let none: Vec<ArtifactDelta> = Vec::new();
        assert(none.deep_view() =~= Seq::<ArtifactDeltaView>::empty());
        none
    }
}

/// The mark of the failure that the bad endpoint always ends in, if it does.
pub open spec fn bad_mark(bad: EndpointAttempts, endpoint_runs: int) -> Option<
    BuildFailureSignatureView,
> {
    match reference_of(bad, endpoint_runs) {
        Some(ReferenceView::Failure(mark)) => Some(mark),
        _ => None,
    }
}

fn find_bad_mark(bad: &EndpointAttempts, endpoint_runs: usize) -> (r: Option<
    BuildFailureSignature,
>)
    ensures
        r.deep_view() == bad_mark(*bad, endpoint_runs as int),
{
    match stable_endpoint_reference(bad, endpoint_runs) {
        Some(reference) => match reference {
            StableEndpointReference::Failure(signature) => Some(signature),
            StableEndpointReference::Artifacts(_) => None,
        },
        None => None,
    }
}

/// Whether a report is about `subject` and these endpoints.
pub open spec fn reports_endpoints(
    report: EnvironmentComparisonReport,
    subject: ComparisonSubject,
    good: EndpointAttempts,
    bad: EndpointAttempts,
    endpoint_runs: int,
    deltas: Seq<EnvironmentDeltaView>,
) -> bool {
    &&& report.schema_version == ENVIRONMENT_COMPARISON_SCHEMA_CURRENT
    &&& report.experiment_id == subject.experiment_id
    &&& report.source_digest == subject.source_digest
    &&& report.source_provenance == subject.source_provenance
    &&& report.good_manifest_sha256 == subject.good_manifest_sha256
    &&& report.bad_manifest_sha256 == subject.bad_manifest_sha256
    &&& report.good_outcome_kind == outcome_kind(good)
    &&& report.bad_outcome_kind == outcome_kind(bad)
    &&& report.good_runs == good.runs
    &&& report.good_failures == good.failures
    &&& report.bad_runs == bad.runs
    &&& report.bad_failures == bad.failures
    &&& report.bad_failure_signature.deep_view() == bad_mark(bad, endpoint_runs)
    &&& report.artifact_deltas.deep_view() == endpoint_deltas(good, bad)
    &&& report.delta.deep_view() == records_of(deltas)
}

/// Whether a report says that nothing was minimised.
pub open spec fn nothing_minimized(report: EnvironmentComparisonReport) -> bool {
    &&& report.minimal_delta@.len() == 0
    &&& report.tested_subsets == 0
    &&& report.reproduction_runs@.len() == 0
    &&& report.reproduction_failures@.len() == 0
    &&& report.reverted_to_good is None
    &&& report.confirmation_run is None
    &&& report.confirmation_failure is None
}

pub open spec fn unmodelled_text(difference: Seq<char>) -> Seq<char> {
    difference + ", but the supported controlled environment delta is empty"@
}

pub fn show_unmodelled(difference: &str) -> (r: String)
    ensures
        r@ == unmodelled_text(difference@),
{
    concat(difference, ", but the supported controlled environment delta is empty")
}

/// The notes of a comparison that ends with its endpoints.
pub open spec fn endpoint_notes(
    good: EndpointAttempts,
    bad: EndpointAttempts,
    endpoint_runs: int,
    deltas: int,
) -> Seq<Seq<char>> {
    match finding_of(good, bad, endpoint_runs, deltas) {
        EndpointFinding::Unstable => {
            let a = if reference_of(good, endpoint_runs) is None {
                Seq::<Seq<char>>::empty().push(
                    "known-good endpoint did not produce one stable repeated outcome; successes/failures or artifact/failure signatures varied"@,
                )
            } else {
                Seq::empty()
            };
            let b = if reference_of(bad, endpoint_runs) is None {
                a.push(
                    "known-bad endpoint did not produce one stable repeated outcome; successes/failures or artifact/failure signatures varied"@,
                )
            } else {
                a
            };
            b.push(
                "delta minimization was not attempted because ddmin requires a stable reproduction predicate"@,
            )
        },
        EndpointFinding::GoodFails => Seq::<Seq<char>>::empty().push(
            "known-good endpoint stably exits non-zero; Phase 16 requires known-good to produce the declared artifacts successfully"@,
        ),
        EndpointFinding::Equivalent => Seq::<Seq<char>>::empty().push(
            "known-good and known-bad manifests produced the same stable declared artifacts"@,
        ),
        _ => Seq::<Seq<char>>::empty().push(
            unmodelled_text(
                if bad_mark(bad, endpoint_runs) is Some {
                    "known-good succeeds while known-bad has a stable build-failure signature"@
                } else {
                    "stable endpoint artifacts differ"@
                },
            ),
        ).push(
            "the difference is outside the environment-manifest dimensions modeled by this command"@,
        ),
    }
}

fn write_endpoint_notes(
    good: &EndpointAttempts,
    bad: &EndpointAttempts,
    endpoint_runs: usize,
    deltas: usize,
) -> (r: Vec<String>)
    ensures
        r.deep_view() == endpoint_notes(*good, *bad, endpoint_runs as int, deltas as int),
{
    let mut notes: Vec<String> = Vec::new();
    assert(notes.deep_view() =~= Seq::<Seq<char>>::empty());
    match classify_endpoints(good, bad, endpoint_runs, deltas) {
        EndpointFinding::Unstable => {
            if stable_endpoint_reference(good, endpoint_runs).is_none() {
                push_line(
                    &mut notes,
                    "known-good endpoint did not produce one stable repeated outcome; successes/failures or artifact/failure signatures varied".to_owned(),
                );
            }
            if stable_endpoint_reference(bad, endpoint_runs).is_none() {
                push_line(
                    &mut notes,
                    "known-bad endpoint did not produce one stable repeated outcome; successes/failures or artifact/failure signatures varied".to_owned(),
                );
            }
            push_line(
                &mut notes,
                "delta minimization was not attempted because ddmin requires a stable reproduction predicate".to_owned(),
            );
        },
        EndpointFinding::GoodFails => push_line(
            &mut notes,
            "known-good endpoint stably exits non-zero; Phase 16 requires known-good to produce the declared artifacts successfully".to_owned(),
        ),
        EndpointFinding::Equivalent => push_line(
            &mut notes,
            "known-good and known-bad manifests produced the same stable declared artifacts".to_owned(),
        ),
        _ => {
            let difference = if find_bad_mark(bad, endpoint_runs).is_some() {
                "known-good succeeds while known-bad has a stable build-failure signature"
            } else {
                "stable endpoint artifacts differ"
            };
            push_line(&mut notes, show_unmodelled(difference));
            push_line(
                &mut notes,
                "the difference is outside the environment-manifest dimensions modeled by this command".to_owned(),
            );
        },
    }
    notes
}

/// The report of a comparison that ends with its endpoints.
pub fn conclude_endpoints(
    subject: ComparisonSubject,
    good: EndpointAttempts,
    bad: EndpointAttempts,
    endpoint_runs: usize,
    deltas: &Vec<EnvironmentDelta>,
) -> (r: EnvironmentComparisonReport)
    requires
        !(finding_of(good, bad, endpoint_runs as int, deltas@.len() as int) is Minimize),
    ensures
        reports_endpoints(r, subject, good, bad, endpoint_runs as int, deltas.deep_view()),
        nothing_minimized(r),
        r.status == if finding_of(good, bad, endpoint_runs as int, deltas@.len() as int)
            is Equivalent {
            EnvironmentComparisonStatus::Equivalent
        } else {
            EnvironmentComparisonStatus::Inconclusive
        },
        r.notes.deep_view() == endpoint_notes(
            good,
            bad,
            endpoint_runs as int,
            deltas@.len() as int,
        ),
{
    let status = if classify_endpoints(&good, &bad, endpoint_runs, deltas.len())
        == EndpointFinding::Equivalent {
        EnvironmentComparisonStatus::Equivalent
    } else {
        EnvironmentComparisonStatus::Inconclusive
    };
    let notes = write_endpoint_notes(&good, &bad, endpoint_runs, deltas.len());
    let artifact_deltas = compare_endpoint_artifacts(&good, &bad);
    let bad_failure_signature = find_bad_mark(&bad, endpoint_runs);
    EnvironmentComparisonReport {
        schema_version: ENVIRONMENT_COMPARISON_SCHEMA_CURRENT,
        experiment_id: subject.experiment_id,
        status,
        source_digest: subject.source_digest,
        source_provenance: subject.source_provenance,
        good_manifest_sha256: subject.good_manifest_sha256,
        bad_manifest_sha256: subject.bad_manifest_sha256,
        good_outcome_kind: endpoint_outcome_kind(&good),
        bad_outcome_kind: endpoint_outcome_kind(&bad),
        good_runs: good.runs,
        good_failures: good.failures,
        bad_runs: bad.runs,
        bad_failures: bad.failures,
        bad_failure_signature,
        artifact_deltas,
        delta: collect_records(deltas),
        minimal_delta: Vec::new(),
        tested_subsets: 0,
        reproduction_runs: Vec::new(),
        reproduction_failures: Vec::new(),
        reverted_to_good: None,
        confirmation_run: None,
        confirmation_failure: None,
        notes,
    }
}

/// What became of the way back to the known-good environment.
pub enum Reversion {
    NotRun,
    Completed(BuildRun),
    BuildFailed(BuildFailure),
}

/// Whether the way back led to the good artifacts, if it was gone.
pub open spec fn came_back(good_run: BuildRun, reversion: Reversion) -> Option<bool> {
    match reversion {
        Reversion::NotRun => None,
        Reversion::Completed(run) => Some(same_hashes(good_run.artifacts@, run.artifacts@)),
        Reversion::BuildFailed(_) => Some(false),
    }
}

/// The difference counts as minimised if its minimum does exactly what the bad endpoint does and
/// the way back, if it was gone, led back.
pub open spec fn minimized_status(reproduced: bool, reverted: Option<bool>) -> EnvironmentComparisonStatus {
    if reproduced && reverted != Some(false) {
        EnvironmentComparisonStatus::Minimized
    } else {
        EnvironmentComparisonStatus::Inconclusive
    }
}

/// The notes of a comparison whose difference was minimised.
pub open spec fn minimized_notes(
    bad_fails: bool,
    reproduced: bool,
    reverted: Option<bool>,
) -> Seq<Seq<char>> {
    let a = Seq::<Seq<char>>::empty().push(
        "minimal_delta is 1-minimal under the tested ddmin search path, values, and repetition policy; it is not a proof of global real-world minimality"@,
    );
    let b = if bad_fails {
        a.push(
            "subset reproduction requires the exact stable known-bad build-failure signature: exit code plus SHA-256 of stdout and stderr"@,
        ).push(
            "matching a build-failure signature establishes reproduction of the observed process outcome, not semantic identity of the underlying defect"@,
        )
    } else {
        a.push(
            "subset reproduction requires the exact stable known-bad declared-artifact signature, not merely any difference from known-good"@,
        )
    };
    let c = if reproduced {
        b
    } else {
        b.push(
            "the final minimized subset did not stably reproduce the known-bad outcome on confirmation"@,
        )
    };
    if reverted == Some(false) {
        c.push(
            "known-good reversion did not recover the original successful good artifact signature; temporal drift or an uncontrolled input may be present"@,
        )
    } else {
        c
    }
}

fn write_minimized_notes(bad_fails: bool, reproduced: bool, reverted: Option<bool>) -> (r: Vec<
    String,
>)
    ensures
        r.deep_view() == minimized_notes(bad_fails, reproduced, reverted),
{
    let mut notes: Vec<String> = Vec::new();
    assert(notes.deep_view() =~= Seq::<Seq<char>>::empty());
    push_line(
        &mut notes,
        "minimal_delta is 1-minimal under the tested ddmin search path, values, and repetition policy; it is not a proof of global real-world minimality".to_owned(),
    );
    if bad_fails {
        push_line(
            &mut notes,
            "subset reproduction requires the exact stable known-bad build-failure signature: exit code plus SHA-256 of stdout and stderr".to_owned(),
        );
        push_line(
            &mut notes,
            "matching a build-failure signature establishes reproduction of the observed process outcome, not semantic identity of the underlying defect".to_owned(),
        );
    } else {
        push_line(
            &mut notes,
            "subset reproduction requires the exact stable known-bad declared-artifact signature, not merely any difference from known-good".to_owned(),
        );
    }
    if !reproduced {
        push_line(
            &mut notes,
            "the final minimized subset did not stably reproduce the known-bad outcome on confirmation".to_owned(),
        );
    }
    if crate::engine::diagnosis::is_false(reverted) {
        push_line(
            &mut notes,
            "known-good reversion did not recover the original successful good artifact signature; temporal drift or an uncontrolled input may be present".to_owned(),
        );
    }
    notes
}

/// Whether the builds of the minimal difference do what the bad endpoint always does.
pub open spec fn reproduces_bad(
    bad: EndpointAttempts,
    endpoint_runs: int,
    reproduction: EndpointAttempts,
) -> bool {
    match reference_of(bad, endpoint_runs) {
        Some(reference) => reproduces(reproduction, reference),
        None => false,
    }
}

fn check_reproduction(bad: &EndpointAttempts, endpoint_runs: usize, reproduction: &EndpointAttempts) -> (r:
    bool)
    ensures
        r == reproduces_bad(*bad, endpoint_runs as int, *reproduction),
{
    match stable_endpoint_reference(bad, endpoint_runs) {
        Some(reference) => attempts_reproduce_reference(reproduction, &reference),
        None => false,
    }
}

/// The report of a comparison whose difference was minimised.
pub fn conclude_minimized(
    subject: ComparisonSubject,
    good: EndpointAttempts,
    bad: EndpointAttempts,
    endpoint_runs: usize,
    deltas: &Vec<EnvironmentDelta>,
    outcome: &DdminOutcome<EnvironmentDelta>,
    reproduction: EndpointAttempts,
    reversion: Reversion,
) -> (r: EnvironmentComparisonReport)
    requires
        finding_of(good, bad, endpoint_runs as int, deltas@.len() as int) is Minimize,
        outcome.tests < usize::MAX,
    ensures
        reports_endpoints(r, subject, good, bad, endpoint_runs as int, deltas.deep_view()),
        r.minimal_delta.deep_view() == records_of(outcome.minimal.deep_view()),
        r.tested_subsets == outcome.tests + 1,
        r.reproduction_runs == reproduction.runs,
        r.reproduction_failures == reproduction.failures,
        r.reverted_to_good == came_back(good.runs@[0], reversion),
        r.confirmation_run == match reversion {
            Reversion::Completed(run) => Some(run),
            _ => None,
        },
        r.confirmation_failure == match reversion {
            Reversion::BuildFailed(failure) => Some(failure),
            _ => None,
        },
        r.status == minimized_status(
            reproduces_bad(bad, endpoint_runs as int, reproduction),
            came_back(good.runs@[0], reversion),
        ),
        r.notes.deep_view() == minimized_notes(
            bad_mark(bad, endpoint_runs as int) is Some,
            reproduces_bad(bad, endpoint_runs as int, reproduction),
            came_back(good.runs@[0], reversion),
        ),
{
    let reproduced = check_reproduction(&bad, endpoint_runs, &reproduction);
    let reverted_to_good = match &reversion {
        Reversion::NotRun => None,
        Reversion::Completed(run) => Some(same_artifact_hashes(&good.runs[0], run)),
        Reversion::BuildFailed(_) => Some(false),
    };
    let bad_failure_signature = find_bad_mark(&bad, endpoint_runs);
    let notes = write_minimized_notes(
        bad_failure_signature.is_some(),
        reproduced,
        reverted_to_good,
    );
    let status = if reproduced && !crate::engine::diagnosis::is_false(reverted_to_good) {
        EnvironmentComparisonStatus::Minimized
    } else {
        EnvironmentComparisonStatus::Inconclusive
    };
    let artifact_deltas = compare_endpoint_artifacts(&good, &bad);
    let (confirmation_run, confirmation_failure) = match reversion {
        Reversion::NotRun => (None, None),
        Reversion::Completed(run) => (Some(run), None),
        Reversion::BuildFailed(failure) => (None, Some(failure)),
    };
    EnvironmentComparisonReport {
        schema_version: ENVIRONMENT_COMPARISON_SCHEMA_CURRENT,
        experiment_id: subject.experiment_id,
        status,
        source_digest: subject.source_digest,
        source_provenance: subject.source_provenance,
        good_manifest_sha256: subject.good_manifest_sha256,
        bad_manifest_sha256: subject.bad_manifest_sha256,
        good_outcome_kind: endpoint_outcome_kind(&good),
        bad_outcome_kind: endpoint_outcome_kind(&bad),
        good_runs: good.runs,
        good_failures: good.failures,
        bad_runs: bad.runs,
        bad_failures: bad.failures,
        bad_failure_signature,
        artifact_deltas,
        delta: collect_records(deltas),
        minimal_delta: collect_records(&outcome.minimal),
        tested_subsets: outcome.tests + 1,
        reproduction_runs: reproduction.runs,
        reproduction_failures: reproduction.failures,
        reverted_to_good,
        confirmation_run,
        confirmation_failure,
        notes,
    }
}

/// Differences can be minimised: a copy of one looks like it.
pub proof fn law_copied_differences_look_equal()
    ensures
        clones_look_equal::<EnvironmentDelta>(),
{
}

/// An endpoint that both builds and fails is not stable, and neither is one that ran more or fewer
/// builds than were asked for.
pub proof fn law_mixed_endpoints_are_not_stable(attempts: EndpointAttempts, expected: int)
    requires
        outcome_kind(attempts) is Mixed || attempts.runs@.len() + attempts.failures@.len()
            != expected,
    ensures
        reference_of(attempts, expected) is None,
{
    law_one_outcome_means_equal_artifacts(attempts.runs@);
}

proof fn lemma_path_is_found(artifacts: Seq<ArtifactRecord>, i: int, path: Seq<char>, from: int)
    requires
        paths_differ(artifacts),
        0 <= from <= i < artifacts.len(),
        artifacts[i].logical_path@ == path,
    ensures
        artifact_at(artifacts, path, from) == Some(i),
    decreases i - from,
{
    if from < i {
        assert(!is_same_path(artifacts[from].logical_path@, artifacts[i].logical_path@));
        lemma_path_is_found(artifacts, i, path, from + 1);
    }
}

/// Runs with the same signature have the same artifacts, as long as paths are not repeated.
proof fn lemma_same_signature(a: BuildRun, b: BuildRun)
    requires
        paths_differ(b.artifacts@),
        signature_of(a) == signature_of(b),
    ensures
        same_hashes(a.artifacts@, b.artifacts@),
{
    let left = path_digests(a.artifacts@);
    let right = path_digests(b.artifacts@);
    law_sorted_is_an_ordered_rearrangement::<(String, String)>(left);
    law_sorted_is_an_ordered_rearrangement::<(String, String)>(right);
    broadcast use vstd::seq_lib::group_to_multiset_ensures;

    assert(left.to_multiset() == right.to_multiset());
    assert(left.len() == left.to_multiset().len() && right.len() == right.to_multiset().len());
    assert forall|i: int| 0 <= i < a.artifacts@.len() implies #[trigger] has_twin(
        a.artifacts@[i],
        b.artifacts@,
    ) by {
        assert(left.contains(left[i]));
        assert(left.to_multiset().count(left[i]) > 0);
        assert(right.contains(left[i]));
        let k = right.index_of(left[i]);
        assert(right[k] == left[i]);
        lemma_path_is_found(b.artifacts@, k, a.artifacts@[i].logical_path@, 0);
    }
}

/// A stable endpoint does what it is the reference for: the search for a minimal difference starts
/// from a difference that reproduces.
pub proof fn law_stable_endpoints_reproduce_themselves(attempts: EndpointAttempts, expected: int)
    requires
        reference_of(attempts, expected) is Some,
        forall|i: int|
            0 <= i < attempts.runs@.len() ==> paths_differ(
                (#[trigger] attempts.runs@[i]).artifacts@,
            ),
    ensures
        reproduces(attempts, reference_of(attempts, expected)->0),
{
    let runs = attempts.runs@;
    if reference_of(attempts, expected)->0 is Artifacts {
        law_one_outcome_means_equal_artifacts(runs);
        assert forall|i: int| 0 <= i < runs.len() implies same_hashes(
            runs[0].artifacts@,
            (#[trigger] runs[i]).artifacts@,
        ) by {
            assert(signature_of(runs[i]) == signature_of(runs[0]));
            lemma_same_signature(runs[0], runs[i]);
        }
    }
}

/// A difference is reported as minimised only if its minimum does exactly what the bad endpoint
/// always does.
pub proof fn law_minimized_means_reproduced(reproduced: bool, reverted: Option<bool>)
    requires
        minimized_status(reproduced, reverted) is Minimized,
    ensures
        reproduced,
        reverted != Some(false),
{
}

} // verus!
