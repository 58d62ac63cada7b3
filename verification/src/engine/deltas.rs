//! How the artifacts of varied builds depart from those of the baseline, and what points to why.
use vstd::prelude::*;

use crate::artifact::archive::{self, found_differences};
use crate::artifact::generic::{artifact_at, find_artifact};
use crate::artifact::semantic::{self, semantic_differences};
use crate::model::{
    ArchiveMetadataDifference, ArchiveMetadataDifferenceView, ArchiveMetadataField, ArtifactDelta,
    ArtifactDeltaView, ArtifactRecord, ArtifactRecordView, ArtifactSemanticDifference,
    ArtifactSemanticDifferenceView, BuildRun, ElfMarkerLocation, ElfMarkerLocationView,
    EmbeddedMarker, EmbeddedMarkerView, Intervention, InterventionKind, InterventionView,
};
use crate::sorting::{sort_unique, sorted_set};
use crate::text::same;

verus! {

/// Whether a marker of this variable points to the intervention.
pub open spec fn points_to(i: InterventionView, variable: Seq<char>) -> bool {
    match i.kind {
        InterventionKind::SourcePath => variable == "source_path"@,
        InterventionKind::BuildPath => variable == "build_path"@,
        InterventionKind::SourceDateEpoch => variable == "SOURCE_DATE_EPOCH"@,
        InterventionKind::Timezone => variable == "TZ"@,
        InterventionKind::Locale => variable == "LANG"@ || variable == "LC_ALL"@,
        InterventionKind::Hostname => variable == "hostname"@,
        InterventionKind::EnvironmentVariable => variable == i.variable,
        InterventionKind::CpuCount => variable == "cpu_count"@ || variable
            == "REPROBISECT_CPU_COUNT"@,
        _ => false,
    }
}

pub fn marker_variable_matches(intervention: &Intervention, variable: &str) -> (r: bool)
    ensures
        r == points_to(intervention.deep_view(), variable@),
{
    match intervention.kind {
        InterventionKind::SourcePath => same(variable, "source_path"),
        InterventionKind::BuildPath => same(variable, "build_path"),
        InterventionKind::SourceDateEpoch => same(variable, "SOURCE_DATE_EPOCH"),
        InterventionKind::SourceMtime => false,
        InterventionKind::Timezone => same(variable, "TZ"),
        InterventionKind::Locale => same(variable, "LANG") || same(variable, "LC_ALL"),
        InterventionKind::Hostname => same(variable, "hostname"),
        InterventionKind::EnvironmentVariable => same(variable, intervention.variable.as_str()),
        InterventionKind::CpuCount => same(variable, "cpu_count") || same(
            variable,
            "REPROBISECT_CPU_COUNT",
        ),
        InterventionKind::BuildImage
        | InterventionKind::ToolchainExecutable
        | InterventionKind::DependencyFile
        | InterventionKind::NetworkAccess
        | InterventionKind::Umask
        | InterventionKind::DirectoryOrder => false,
    }
}

/// Those of the first `n` markers that point to the intervention.
pub open spec fn pointing_markers(
    i: InterventionView,
    markers: Seq<EmbeddedMarkerView>,
    n: int,
) -> Seq<EmbeddedMarkerView>
    decreases n,
{
    if n <= 0 {
        Seq::empty()
    } else if points_to(i, markers[n - 1].variable) {
        pointing_markers(i, markers, n - 1).push(markers[n - 1])
    } else {
        pointing_markers(i, markers, n - 1)
    }
}

/// Those of the first `n` locations whose marker points to the intervention.
pub open spec fn pointing_locations(
    i: InterventionView,
    locations: Seq<ElfMarkerLocationView>,
    n: int,
) -> Seq<ElfMarkerLocationView>
    decreases n,
{
    if n <= 0 {
        Seq::empty()
    } else if points_to(i, locations[n - 1].variable) {
        pointing_locations(i, locations, n - 1).push(locations[n - 1])
    } else {
        pointing_locations(i, locations, n - 1)
    }
}

pub open spec fn all_pointing_markers(
    i: InterventionView,
    markers: Seq<EmbeddedMarkerView>,
) -> Seq<EmbeddedMarkerView> {
    pointing_markers(i, markers, markers.len() as int)
}

pub open spec fn all_pointing_locations(
    i: InterventionView,
    locations: Seq<ElfMarkerLocationView>,
) -> Seq<ElfMarkerLocationView> {
    pointing_locations(i, locations, locations.len() as int)
}

fn take_markers(
    into: &mut Vec<EmbeddedMarker>,
    intervention: &Intervention,
    markers: &Vec<EmbeddedMarker>,
) -> (r: bool)
    ensures
        final(into).deep_view() == old(into).deep_view() + all_pointing_markers(
            intervention.deep_view(),
            markers.deep_view(),
        ),
        r == (all_pointing_markers(intervention.deep_view(), markers.deep_view()).len() > 0),
{
    let ghost i = intervention.deep_view();
    let ghost all = markers.deep_view();
    let ghost start = into.deep_view();
    let mut some = false;
    let mut n: usize = 0;
    assert(into.deep_view() =~= start + pointing_markers(i, all, 0));
    while n < markers.len()
        invariant
            i == intervention.deep_view(),
            all == markers.deep_view(),
            n <= markers@.len(),
            into.deep_view() == start + pointing_markers(i, all, n as int),
            some == (pointing_markers(i, all, n as int).len() > 0),
        decreases markers.len() - n,
    {
        assert(all[n as int] == markers@[n as int].deep_view());
        if marker_variable_matches(intervention, markers[n].variable.as_str()) {
            let ghost had = into.deep_view();
            let marker = markers[n].clone();
            let ghost view = marker.deep_view();
            into.push(marker);
            assert(into.deep_view() =~= had.push(view));
            assert((start + pointing_markers(i, all, n as int)).push(view) =~= start
                + pointing_markers(i, all, n as int).push(view));
            some = true;
        }
        n += 1;
    }
    some
}

fn take_locations(
    into: &mut Vec<ElfMarkerLocation>,
    intervention: &Intervention,
    locations: &Vec<ElfMarkerLocation>,
) -> (r: bool)
    ensures
        final(into).deep_view() == old(into).deep_view() + all_pointing_locations(
            intervention.deep_view(),
            locations.deep_view(),
        ),
        r == (all_pointing_locations(intervention.deep_view(), locations.deep_view()).len() > 0),
{
    let ghost i = intervention.deep_view();
    let ghost all = locations.deep_view();
    let ghost start = into.deep_view();
    let mut some = false;
    let mut n: usize = 0;
    assert(into.deep_view() =~= start + pointing_locations(i, all, 0));
    while n < locations.len()
        invariant
            i == intervention.deep_view(),
            all == locations.deep_view(),
            n <= locations@.len(),
            into.deep_view() == start + pointing_locations(i, all, n as int),
            some == (pointing_locations(i, all, n as int).len() > 0),
        decreases locations.len() - n,
    {
        assert(all[n as int] == locations@[n as int].deep_view());
        if marker_variable_matches(intervention, locations[n].variable.as_str()) {
            let ghost had = into.deep_view();
            let location = locations[n].clone();
            let ghost view = location.deep_view();
            into.push(location);
            assert(into.deep_view() =~= had.push(view));
            assert((start + pointing_locations(i, all, n as int)).push(view) =~= start
                + pointing_locations(i, all, n as int).push(view));
            some = true;
        }
        n += 1;
    }
    some
}

/// Evidence that points to an intervention, in the order in which it was found.
#[verifier::ext_equal]
pub struct PointersView {
    pub markers: Seq<EmbeddedMarkerView>,
    pub elf_markers: Seq<EmbeddedMarkerView>,
    pub elf_locations: Seq<ElfMarkerLocationView>,
}

/// What one artifact holds that points to the intervention.
pub open spec fn pointers_in(i: InterventionView, a: ArtifactRecordView) -> PointersView {
    PointersView {
        markers: all_pointing_markers(i, a.embedded_markers),
        elf_markers: all_pointing_markers(i, a.elf_debug_markers),
        elf_locations: all_pointing_locations(i, a.elf_marker_locations),
    }
}

pub open spec fn pointers_joined(a: PointersView, b: PointersView) -> PointersView {
    PointersView {
        markers: a.markers + b.markers,
        elf_markers: a.elf_markers + b.elf_markers,
        elf_locations: a.elf_locations + b.elf_locations,
    }
}

pub open spec fn any_pointer(p: PointersView) -> bool {
    p.markers.len() > 0 || p.elf_markers.len() > 0 || p.elf_locations.len() > 0
}

/// What an artifact and the first `n` of its variants hold that points to the intervention.
pub open spec fn pointers_upto(
    i: InterventionView,
    a: ArtifactRecordView,
    variants: Seq<ArtifactRecordView>,
    n: int,
) -> PointersView
    decreases n,
{
    if n <= 0 {
        pointers_in(i, a)
    } else {
        pointers_joined(pointers_upto(i, a, variants, n - 1), pointers_in(i, variants[n - 1]))
    }
}

pub open spec fn some_variant_points(
    i: InterventionView,
    variants: Seq<ArtifactRecordView>,
    n: int,
) -> bool
    decreases n,
{
    n > 0 && (some_variant_points(i, variants, n - 1) || any_pointer(
        pointers_in(i, variants[n - 1]),
    ))
}

struct Pointers {
    markers: Vec<EmbeddedMarker>,
    elf_markers: Vec<EmbeddedMarker>,
    elf_locations: Vec<ElfMarkerLocation>,
}

spec fn view_pointers(p: Pointers) -> PointersView {
    PointersView {
        markers: p.markers.deep_view(),
        elf_markers: p.elf_markers.deep_view(),
        elf_locations: p.elf_locations.deep_view(),
    }
}

fn take_pointers(into: &mut Pointers, intervention: &Intervention, artifact: &ArtifactRecord) -> (r:
    bool)
    ensures
        view_pointers(*final(into)) == pointers_joined(
            view_pointers(*old(into)),
            pointers_in(intervention.deep_view(), artifact.deep_view()),
        ),
        r == any_pointer(pointers_in(intervention.deep_view(), artifact.deep_view())),
{
    let a = take_markers(&mut into.markers, intervention, &artifact.embedded_markers);
    let b = take_markers(&mut into.elf_markers, intervention, &artifact.elf_debug_markers);
    let c = take_locations(&mut into.elf_locations, intervention, &artifact.elf_marker_locations);
    a || b || c
}

/// The artifact at `path` in each of the first `n` runs that has one.
pub open spec fn variants_at(runs: Seq<BuildRun>, path: Seq<char>, n: int) -> Seq<
    ArtifactRecordView,
>
    decreases n,
{
    if n <= 0 {
        Seq::empty()
    } else {
        match artifact_at(runs[n - 1].artifacts@, path, 0) {
            Some(k) => variants_at(runs, path, n - 1).push(
                runs[n - 1].artifacts@[k].deep_view(),
            ),
            None => variants_at(runs, path, n - 1),
        }
    }
}

/// The first variant, at or after `from`, with other bytes than `digest` stands for.
pub open spec fn first_other(
    variants: Seq<ArtifactRecordView>,
    digest: Seq<char>,
    from: int,
) -> Option<int>
    decreases variants.len() - from,
{
    if from >= variants.len() {
        None
    } else if variants[from].sha256 != digest {
        Some(from)
    } else {
        first_other(variants, digest, from + 1)
    }
}

/// Whether some run lacks the artifact or has other bytes in it.
pub open spec fn is_changed(
    a: ArtifactRecordView,
    variants: Seq<ArtifactRecordView>,
    run_count: nat,
) -> bool {
    variants.len() != run_count || first_other(variants, a.sha256, 0) is Some
}

/// The variant that an artifact is compared with: the first with other bytes, or the first.
pub open spec fn representative(
    a: ArtifactRecordView,
    variants: Seq<ArtifactRecordView>,
) -> Option<ArtifactRecordView> {
    match first_other(variants, a.sha256, 0) {
        Some(k) => Some(variants[k]),
        None => if variants.len() > 0 {
            Some(variants[0])
        } else {
            None
        },
    }
}

pub open spec fn archive_differences(
    a: ArtifactRecordView,
    other: Option<ArtifactRecordView>,
) -> Seq<ArchiveMetadataDifferenceView> {
    match other {
        Some(v) => match (a.archive_metadata, v.archive_metadata) {
            (Some(x), Some(y)) => sorted_set::<ArchiveMetadataDifference>(found_differences(x, y)),
            _ => Seq::empty(),
        },
        None => Seq::empty(),
    }
}

pub open spec fn meaning_differences(
    a: ArtifactRecordView,
    other: Option<ArtifactRecordView>,
) -> Seq<ArtifactSemanticDifferenceView> {
    match other {
        Some(v) => match (a.semantic_metadata, v.semantic_metadata) {
            (Some(x), Some(y)) => semantic_differences(x, y),
            _ => Seq::empty(),
        },
        None => Seq::empty(),
    }
}

/// Whether a difference in this field of an archive points to the kind of intervention.
pub open spec fn field_points_to(kind: InterventionKind, field: ArchiveMetadataField) -> bool {
    match kind {
        InterventionKind::SourceMtime | InterventionKind::SourceDateEpoch => field is Mtime
            || field is ContainerMtime,
        InterventionKind::Umask => field is Mode,
        InterventionKind::CpuCount | InterventionKind::DirectoryOrder => field is MemberOrder,
        _ => false,
    }
}

pub open spec fn archive_points_to(
    kind: InterventionKind,
    evidence: Seq<ArchiveMetadataDifferenceView>,
) -> bool {
    exists|k: int| 0 <= k < evidence.len() && field_points_to(kind, (#[trigger] evidence[k]).field)
}

pub open spec fn meaning_points_to(
    kind: InterventionKind,
    evidence: Seq<ArtifactSemanticDifferenceView>,
) -> bool {
    exists|k: int|
        0 <= k < evidence.len() && kind is SourceDateEpoch && (#[trigger] evidence[k]).field
            == "coff_timestamp"@
}

pub fn archive_evidence_matches_intervention(
    intervention: &Intervention,
    evidence: &Vec<ArchiveMetadataDifference>,
) -> (r: bool)
    ensures
        r == archive_points_to(intervention.kind, evidence.deep_view()),
{
    let ghost view = evidence.deep_view();
    let mut k: usize = 0;
    while k < evidence.len()
        invariant
            view == evidence.deep_view(),
            k <= evidence@.len(),
            forall|j: int|
                0 <= j < k ==> !field_points_to(intervention.kind, (#[trigger] view[j]).field),
        decreases evidence.len() - k,
    {
        assert(view[k as int] == evidence@[k as int].deep_view());
        let field = evidence[k].field;
        let found = match intervention.kind {
            InterventionKind::SourceMtime | InterventionKind::SourceDateEpoch => field
                == ArchiveMetadataField::Mtime || field == ArchiveMetadataField::ContainerMtime,
            InterventionKind::Umask => field == ArchiveMetadataField::Mode,
            InterventionKind::CpuCount | InterventionKind::DirectoryOrder => field
                == ArchiveMetadataField::MemberOrder,
            _ => false,
        };
        if found {
            assert(field_points_to(intervention.kind, view[k as int].field));
            return true;
        }
        k += 1;
    }
    false
}

pub fn semantic_evidence_matches_intervention(
    intervention: &Intervention,
    evidence: &Vec<ArtifactSemanticDifference>,
) -> (r: bool)
    ensures
        r == meaning_points_to(intervention.kind, evidence.deep_view()),
{
    let ghost view = evidence.deep_view();
    if intervention.kind != InterventionKind::SourceDateEpoch {
        return false;
    }
    let mut k: usize = 0;
    while k < evidence.len()
        invariant
            intervention.kind is SourceDateEpoch,
            view == evidence.deep_view(),
            k <= evidence@.len(),
            forall|j: int| 0 <= j < k ==> (#[trigger] view[j]).field != "coff_timestamp"@,
        decreases evidence.len() - k,
    {
        assert(view[k as int] == evidence@[k as int].deep_view());
        if same(evidence[k].field.as_str(), "coff_timestamp") {
            assert(view[k as int].field == "coff_timestamp"@);
            return true;
        }
        k += 1;
    }
    false
}

pub open spec fn no_pointers() -> PointersView {
    PointersView {
        markers: Seq::empty(),
        elf_markers: Seq::empty(),
        elf_locations: Seq::empty(),
    }
}

/// All evidence for a changed artifact that points to the intervention.
pub open spec fn found_pointers(
    i: Option<InterventionView>,
    a: ArtifactRecordView,
    variants: Seq<ArtifactRecordView>,
) -> PointersView {
    match i {
        Some(i) => pointers_upto(i, a, variants, variants.len() as int),
        None => no_pointers(),
    }
}

/// How one artifact fared in `run_count` varied runs, `variants` being what those of them that
/// have it made of it.
pub open spec fn artifact_delta(
    a: ArtifactRecordView,
    variants: Seq<ArtifactRecordView>,
    run_count: nat,
    i: Option<InterventionView>,
) -> ArtifactDeltaView {
    let changed = is_changed(a, variants, run_count);
    let other = representative(a, variants);
    let pointers = if changed {
        found_pointers(i, a, variants)
    } else {
        no_pointers()
    };
    let archive_evidence = if changed {
        archive_differences(a, other)
    } else {
        Seq::empty()
    };
    let semantic_evidence = if changed {
        meaning_differences(a, other)
    } else {
        Seq::empty()
    };
    ArtifactDeltaView {
        logical_path: a.logical_path,
        baseline_sha256: a.sha256,
        variant_sha256: match other {
            Some(v) => v.sha256,
            None => "<missing>"@,
        },
        changed,
        marker_evidence: sorted_set::<EmbeddedMarker>(pointers.markers),
        elf_debug_marker_evidence: sorted_set::<EmbeddedMarker>(pointers.elf_markers),
        elf_marker_location_evidence: sorted_set::<ElfMarkerLocation>(pointers.elf_locations),
        archive_metadata_evidence: archive_evidence,
        semantic_evidence,
        baseline_direct_marker: match i {
            Some(i) => changed && any_pointer(pointers_in(i, a)),
            None => false,
        },
        variant_direct_marker: match i {
            Some(i) => changed && some_variant_points(i, variants, variants.len() as int),
            None => false,
        },
        direct_structural_evidence: match i {
            Some(i) => archive_points_to(i.kind, archive_evidence) || meaning_points_to(
                i.kind,
                semantic_evidence,
            ),
            None => false,
        },
    }
}

/// One delta for each artifact of the baseline.
pub open spec fn artifact_deltas(
    baseline: BuildRun,
    runs: Seq<BuildRun>,
    i: Option<InterventionView>,
) -> Seq<ArtifactDeltaView> {
    Seq::new(
        baseline.artifacts@.len(),
        |k: int|
            artifact_delta(
                baseline.artifacts@[k].deep_view(),
                variants_at(runs, baseline.artifacts@[k].logical_path@, runs.len() as int),
                runs.len(),
                i,
            ),
    )
}

/// The positions of the variants: a run and the place of the artifact in it.
fn locate_variants(runs: &Vec<BuildRun>, path: &str) -> (r: Vec<(usize, usize)>)
    ensures
        located(runs@, r@),
        looked_up(runs@, r@) == variants_at(runs@, path@, runs@.len() as int),
        r@.len() <= runs@.len(),
{
    let mut places: Vec<(usize, usize)> = Vec::new();
    let mut n: usize = 0;
    assert(looked_up(runs@, places@) =~= Seq::<ArtifactRecordView>::empty());
    while n < runs.len()
        invariant
            n <= runs@.len(),
            places@.len() <= n,
            located(runs@, places@),
            looked_up(runs@, places@) == variants_at(runs@, path@, n as int),
        decreases runs.len() - n,
    {
        if let Some(k) = find_artifact(&runs[n].artifacts, path) {
            let ghost had = looked_up(runs@, places@);
            places.push((n, k));
            assert(looked_up(runs@, places@) =~= had.push(runs@[n as int].artifacts@[k as int].deep_view()));
        }
        n += 1;
    }
    places
}

spec fn located(runs: Seq<BuildRun>, places: Seq<(usize, usize)>) -> bool {
    forall|k: int|
        0 <= k < places.len() ==> (#[trigger] places[k]).0 < runs.len() && places[k].1
            < runs[places[k].0 as int].artifacts@.len()
}

spec fn looked_up(runs: Seq<BuildRun>, places: Seq<(usize, usize)>) -> Seq<ArtifactRecordView> {
    places.map_values(|p: (usize, usize)| runs[p.0 as int].artifacts@[p.1 as int].deep_view())
}

fn find_other(runs: &Vec<BuildRun>, places: &Vec<(usize, usize)>, digest: &str) -> (r: Option<usize>)
    requires
        located(runs@, places@),
    ensures
        match r {
            Some(k) => k < places@.len() && first_other(looked_up(runs@, places@), digest@, 0)
                == Some(k as int),
            None => first_other(looked_up(runs@, places@), digest@, 0) is None,
        },
{
    let ghost variants = looked_up(runs@, places@);
    let mut k: usize = 0;
    while k < places.len()
        invariant
            located(runs@, places@),
            variants == looked_up(runs@, places@),
            k <= places@.len(),
            first_other(variants, digest@, 0) == first_other(variants, digest@, k as int),
        decreases places.len() - k,
    {
        let place = places[k];
        assert(variants[k as int] == runs@[place.0 as int].artifacts@[place.1 as int].deep_view());
        if !same(runs[place.0].artifacts[place.1].sha256.as_str(), digest) {
            return Some(k);
        }
        k += 1;
    }
    None
}

fn gather_pointers(
    artifact: &ArtifactRecord,
    runs: &Vec<BuildRun>,
    places: &Vec<(usize, usize)>,
    intervention: &Intervention,
) -> (r: (Pointers, bool, bool))
    requires
        located(runs@, places@),
    ensures
        view_pointers(r.0) == pointers_upto(
            intervention.deep_view(),
            artifact.deep_view(),
            looked_up(runs@, places@),
            places@.len() as int,
        ),
        r.1 == any_pointer(pointers_in(intervention.deep_view(), artifact.deep_view())),
        r.2 == some_variant_points(
            intervention.deep_view(),
            looked_up(runs@, places@),
            places@.len() as int,
        ),
{
    let ghost variants = looked_up(runs@, places@);
    let ghost i = intervention.deep_view();
    let ghost a = artifact.deep_view();
    let mut pointers = Pointers {
        markers: Vec::new(),
        elf_markers: Vec::new(),
        elf_locations: Vec::new(),
    };
    let baseline_points = take_pointers(&mut pointers, intervention, artifact);
    assert(view_pointers(pointers) =~= pointers_in(i, a));
    let mut variant_points = false;
    let mut k: usize = 0;
    while k < places.len()
        invariant
            located(runs@, places@),
            variants == looked_up(runs@, places@),
            i == intervention.deep_view(),
            k <= places@.len(),
            view_pointers(pointers) == pointers_upto(i, a, variants, k as int),
            variant_points == some_variant_points(i, variants, k as int),
        decreases places.len() - k,
    {
        let place = places[k];
        assert(variants[k as int] == runs@[place.0 as int].artifacts@[place.1 as int].deep_view());
        let points = take_pointers(
            &mut pointers,
            intervention,
            &runs[place.0].artifacts[place.1],
        );
        variant_points = variant_points || points;
        k += 1;
    }
    (pointers, baseline_points, variant_points)
}

fn compare_structure(artifact: &ArtifactRecord, other: Option<&ArtifactRecord>) -> (r: Vec<
    ArchiveMetadataDifference,
>)
    ensures
        r.deep_view() == archive_differences(artifact.deep_view(), match other {
            Some(v) => Some(v.deep_view()),
            None => None,
        }),
{
    if let Some(other) = other {
        if let Some(x) = &artifact.archive_metadata {
            if let Some(y) = &other.archive_metadata {
                return archive::compare(x, y);
            }
        }
    }
    let none: Vec<ArchiveMetadataDifference> = Vec::new();
    assert(none.deep_view() =~= Seq::<ArchiveMetadataDifferenceView>::empty());
    none
}

fn compare_meaning(artifact: &ArtifactRecord, other: Option<&ArtifactRecord>) -> (r: Vec<
    ArtifactSemanticDifference,
>)
    ensures
        r.deep_view() == meaning_differences(artifact.deep_view(), match other {
            Some(v) => Some(v.deep_view()),
            None => None,
        }),
{
    if let Some(other) = other {
        if let Some(x) = &artifact.semantic_metadata {
            if let Some(y) = &other.semantic_metadata {
                return semantic::compare(x, y);
            }
        }
    }
    let none: Vec<ArtifactSemanticDifference> = Vec::new();
    assert(none.deep_view() =~= Seq::<ArtifactSemanticDifferenceView>::empty());
    none
}

pub open spec fn view_intervention(i: Option<&Intervention>) -> Option<InterventionView> {
    match i {
        Some(i) => Some(i.deep_view()),
        None => None,
    }
}

#[verifier::spinoff_prover]
#[verifier::rlimit(40)]
fn compare_artifact(
    artifact: &ArtifactRecord,
    runs: &Vec<BuildRun>,
    intervention: Option<&Intervention>,
) -> (r: ArtifactDelta)
    ensures
        r.deep_view() == artifact_delta(
            artifact.deep_view(),
            variants_at(runs@, artifact.logical_path@, runs@.len() as int),
            runs@.len(),
            view_intervention(intervention),
        ),
{
    let places = locate_variants(runs, artifact.logical_path.as_str());
    let ghost variants = looked_up(runs@, places@);
    let ghost a = artifact.deep_view();
    let other = find_other(runs, &places, artifact.sha256.as_str());
    let changed = places.len() != runs.len() || other.is_some();
    let chosen: Option<&ArtifactRecord> = match other {
        Some(k) => Some(&runs[places[k].0].artifacts[places[k].1]),
        None => if places.len() > 0 {
            Some(&runs[places[0].0].artifacts[places[0].1])
        } else {
            None
        },
    };
    assert(match chosen {
        Some(v) => Some(v.deep_view()),
        None => None,
    } == representative(a, variants));
    let variant_sha256 = match chosen {
        Some(v) => v.sha256.clone(),
        None => "<missing>".to_owned(),
    };
    let mut pointers = Pointers {
        markers: Vec::new(),
        elf_markers: Vec::new(),
        elf_locations: Vec::new(),
    };
    assert(view_pointers(pointers) =~= no_pointers());
    let mut baseline_direct_marker = false;
    let mut variant_direct_marker = false;
    let mut direct_structural_evidence = false;
    let mut archive_metadata_evidence: Vec<ArchiveMetadataDifference> = Vec::new();
    let mut semantic_evidence: Vec<ArtifactSemanticDifference> = Vec::new();
    assert(archive_metadata_evidence.deep_view() =~= Seq::<
        ArchiveMetadataDifferenceView,
    >::empty());
    assert(semantic_evidence.deep_view() =~= Seq::<ArtifactSemanticDifferenceView>::empty());
    if changed {
        archive_metadata_evidence = compare_structure(artifact, chosen);
        semantic_evidence = compare_meaning(artifact, chosen);
    }
    if let Some(intervention) = intervention {
        if changed {
            let gathered = gather_pointers(artifact, runs, &places, intervention);
            pointers = gathered.0;
            baseline_direct_marker = gathered.1;
            variant_direct_marker = gathered.2;
        }
        direct_structural_evidence = archive_evidence_matches_intervention(
            intervention,
            &archive_metadata_evidence,
        ) || semantic_evidence_matches_intervention(intervention, &semantic_evidence);
    }
    ArtifactDelta {
        logical_path: artifact.logical_path.clone(),
        baseline_sha256: artifact.sha256.clone(),
        variant_sha256,
        changed,
        marker_evidence: sort_unique(pointers.markers),
        elf_debug_marker_evidence: sort_unique(pointers.elf_markers),
        elf_marker_location_evidence: sort_unique(pointers.elf_locations),
        archive_metadata_evidence,
        semantic_evidence,
        baseline_direct_marker,
        variant_direct_marker,
        direct_structural_evidence,
    }
}

/// Compares each artifact of the baseline with what the varied runs made of it.
pub fn build_artifact_deltas(
    baseline: &BuildRun,
    all_variant_runs: &Vec<BuildRun>,
    intervention: Option<&Intervention>,
) -> (r: Vec<ArtifactDelta>)
    ensures
        r.deep_view() == artifact_deltas(
            *baseline,
            all_variant_runs@,
            view_intervention(intervention),
        ),
{
    let ghost wanted = artifact_deltas(
        *baseline,
        all_variant_runs@,
        view_intervention(intervention),
    );
    let mut deltas: Vec<ArtifactDelta> = Vec::new();
    let mut k: usize = 0;
    while k < baseline.artifacts.len()
        invariant
            wanted == artifact_deltas(
                *baseline,
                all_variant_runs@,
                view_intervention(intervention),
            ),
            k <= baseline.artifacts@.len(),
            deltas@.len() == k,
            forall|j: int| 0 <= j < k ==> (#[trigger] deltas@[j]).deep_view() == wanted[j],
        decreases baseline.artifacts.len() - k,
    {
        deltas.push(compare_artifact(&baseline.artifacts[k], all_variant_runs, intervention));
        k += 1;
    }
    assert(deltas.deep_view() =~= wanted);
    deltas
}

/// An artifact that did not change comes with no evidence of a cause.
pub proof fn law_unchanged_artifacts_have_no_evidence(
    a: ArtifactRecordView,
    variants: Seq<ArtifactRecordView>,
    run_count: nat,
    i: Option<InterventionView>,
)
    ensures
        ({
            let d = artifact_delta(a, variants, run_count, i);
            !d.changed ==> {
                &&& d.marker_evidence.len() == 0
                &&& d.elf_debug_marker_evidence.len() == 0
                &&& d.elf_marker_location_evidence.len() == 0
                &&& d.archive_metadata_evidence.len() == 0
                &&& d.semantic_evidence.len() == 0
                &&& !d.baseline_direct_marker
                &&& !d.variant_direct_marker
                &&& !d.direct_structural_evidence
            }
        }),
{
    let d = artifact_delta(a, variants, run_count, i);
    if !d.changed {
        assert(no_pointers().markers.len() == 0);
    }
}

} // verus!
