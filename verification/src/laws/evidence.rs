//! What a changed artifact says of the cause: markers of the varied setting on both sides, and
//! differences in the field that it governs.
use vstd::prelude::*;
use vstd::utf8::encode_utf8;

use crate::artifact::elf::has_bytes;
use crate::artifact::generic::{
    artifact_at, date_markers, found_markers, marker_if_long, markers_in, scanned_markers,
    variable_markers,
};
use crate::engine::deltas::{
    any_pointer, artifact_delta, artifact_deltas, field_points_to, first_other,
    meaning_points_to, pointers_in, pointing_locations, pointing_markers, points_to,
    some_variant_points, variants_at,
};
use crate::laws::builds::{is_first_at, law_the_first_artifact_at_a_path_is_found};
use crate::model::{
    ArchiveMetadataField, ArtifactRecordView, BuildRun, ControlledEnvironmentView,
    ElfMarkerLocationView, EmbeddedMarkerView, InterventionKind, InterventionView,
};
use crate::string_map::Entries;
use crate::text::occurs;

verus! {

/// Whether an artifact holds a marker of a variable: anywhere, in its debug sections or at a named
/// place in them.
pub open spec fn marks(a: ArtifactRecordView, i: InterventionView) -> bool {
    ||| exists|k: int|
        0 <= k < a.embedded_markers.len() && points_to(
            i,
            (#[trigger] a.embedded_markers[k]).variable,
        )
    ||| exists|k: int|
        0 <= k < a.elf_debug_markers.len() && points_to(
            i,
            (#[trigger] a.elf_debug_markers[k]).variable,
        )
    ||| exists|k: int|
        0 <= k < a.elf_marker_locations.len() && points_to(
            i,
            (#[trigger] a.elf_marker_locations[k]).variable,
        )
}

/// A marker points to an intervention exactly if it is of the setting that is varied.
pub proof fn law_markers_point_to_the_setting_they_are_of(i: InterventionView, variable: Seq<char>)
    ensures
        ({
            let p = points_to(i, variable);
            let kind = i.kind;
            &&& kind == InterventionKind::SourcePath ==> (p <==> variable == "source_path"@)
            &&& kind == InterventionKind::BuildPath ==> (p <==> variable == "build_path"@)
            &&& kind == InterventionKind::Hostname ==> (p <==> variable == "hostname"@)
            &&& kind == InterventionKind::Timezone ==> (p <==> variable == "TZ"@)
            &&& kind == InterventionKind::SourceDateEpoch ==> (p <==> variable
                == "SOURCE_DATE_EPOCH"@)
            &&& kind == InterventionKind::Locale ==> (p <==> variable == "LANG"@ || variable
                == "LC_ALL"@)
            &&& kind == InterventionKind::EnvironmentVariable ==> (p <==> variable == i.variable)
            &&& kind == InterventionKind::CpuCount ==> (p <==> variable == "cpu_count"@ || variable
                == "REPROBISECT_CPU_COUNT"@)
            &&& kind == InterventionKind::SourceMtime || kind == InterventionKind::BuildImage
                || kind == InterventionKind::ToolchainExecutable || kind
                == InterventionKind::DependencyFile || kind == InterventionKind::NetworkAccess
                || kind == InterventionKind::Umask || kind == InterventionKind::DirectoryOrder
                ==> !p
        }),
{
}

/// A difference in an archive points to an intervention exactly if it is in the field that the
/// intervention governs.
pub proof fn law_archive_fields_point_to_what_governs_them(
    kind: InterventionKind,
    field: ArchiveMetadataField,
)
    ensures
        field_points_to(kind, field) <==> match field {
            ArchiveMetadataField::Mtime | ArchiveMetadataField::ContainerMtime => kind
                == InterventionKind::SourceMtime || kind == InterventionKind::SourceDateEpoch,
            ArchiveMetadataField::Mode => kind == InterventionKind::Umask,
            ArchiveMetadataField::MemberOrder => kind == InterventionKind::CpuCount || kind
                == InterventionKind::DirectoryOrder,
            _ => false,
        },
{
}

proof fn lemma_pointing_markers(i: InterventionView, markers: Seq<EmbeddedMarkerView>, n: int)
    requires
        0 <= n <= markers.len(),
    ensures
        pointing_markers(i, markers, n).len() > 0 <==> exists|k: int|
            0 <= k < n && points_to(i, (#[trigger] markers[k]).variable),
    decreases n,
{
    if n > 0 {
        lemma_pointing_markers(i, markers, n - 1);
        if points_to(i, markers[n - 1].variable) {
            assert(points_to(i, markers[n - 1].variable));
        }
        if pointing_markers(i, markers, n - 1).len() > 0 {
            let k = choose|k: int| 0 <= k < n - 1 && points_to(i, (#[trigger] markers[k]).variable);
            assert(points_to(i, markers[k].variable));
        }
    }
}

proof fn lemma_pointing_locations(
    i: InterventionView,
    locations: Seq<ElfMarkerLocationView>,
    n: int,
)
    requires
        0 <= n <= locations.len(),
    ensures
        pointing_locations(i, locations, n).len() > 0 <==> exists|k: int|
            0 <= k < n && points_to(i, (#[trigger] locations[k]).variable),
    decreases n,
{
    if n > 0 {
        lemma_pointing_locations(i, locations, n - 1);
        if points_to(i, locations[n - 1].variable) {
            assert(points_to(i, locations[n - 1].variable));
        }
        if pointing_locations(i, locations, n - 1).len() > 0 {
            let k = choose|k: int|
                0 <= k < n - 1 && points_to(i, (#[trigger] locations[k]).variable);
            assert(points_to(i, locations[k].variable));
        }
    }
}

proof fn lemma_marks(a: ArtifactRecordView, i: InterventionView)
    ensures
        any_pointer(pointers_in(i, a)) <==> marks(a, i),
{
    lemma_pointing_markers(i, a.embedded_markers, a.embedded_markers.len() as int);
    lemma_pointing_markers(i, a.elf_debug_markers, a.elf_debug_markers.len() as int);
    lemma_pointing_locations(i, a.elf_marker_locations, a.elf_marker_locations.len() as int);
}

proof fn lemma_some_variant(i: InterventionView, variants: Seq<ArtifactRecordView>, n: int)
    requires
        0 <= n <= variants.len(),
    ensures
        some_variant_points(i, variants, n) <==> exists|k: int|
            0 <= k < n && marks(#[trigger] variants[k], i),
    decreases n,
{
    if n > 0 {
        lemma_some_variant(i, variants, n - 1);
        lemma_marks(variants[n - 1], i);
        if marks(variants[n - 1], i) {
            assert(marks(variants[n - 1], i));
        }
        if some_variant_points(i, variants, n - 1) {
            let k = choose|k: int| 0 <= k < n - 1 && marks(#[trigger] variants[k], i);
            assert(marks(variants[k], i));
        }
    }
}

/// Whether a run has an artifact with these bytes first at a path.
pub open spec fn has_at(run: BuildRun, path: Seq<char>, digest: Seq<char>) -> bool {
    exists|j: int| #[trigger]
        is_first_at(run.artifacts@, path, j) && run.artifacts@[j].sha256@ == digest
}

/// Whether `record` is what some run has first at a path.
pub open spec fn is_variant(runs: Seq<BuildRun>, path: Seq<char>, record: ArtifactRecordView) -> bool {
    exists|m: int, j: int|
        0 <= m < runs.len() && #[trigger] is_first_at(runs[m].artifacts@, path, j)
            && runs[m].artifacts@[j].deep_view() == record
}

proof fn lemma_variants(runs: Seq<BuildRun>, path: Seq<char>, n: int)
    requires
        0 <= n <= runs.len(),
    ensures
        variants_at(runs, path, n).len() <= n,
        variants_at(runs, path, n).len() == n <==> forall|m: int|
            0 <= m < n ==> artifact_at((#[trigger] runs[m]).artifacts@, path, 0) is Some,
        forall|k: int|
            0 <= k < variants_at(runs, path, n).len() ==> is_variant(
                runs,
                path,
                #[trigger] variants_at(runs, path, n)[k],
            ),
        forall|m: int, j: int|
            0 <= m < n && #[trigger] is_first_at(runs[m].artifacts@, path, j) ==> variants_at(
                runs,
                path,
                n,
            ).contains(runs[m].artifacts@[j].deep_view()),
    decreases n,
{
    if n > 0 {
        lemma_variants(runs, path, n - 1);
        let rest = variants_at(runs, path, n - 1);
        let all = variants_at(runs, path, n);
        let found = artifact_at(runs[n - 1].artifacts@, path, 0);
        if let Some(k) = found {
            law_the_first_artifact_at_a_path_is_found(runs[n - 1].artifacts@, path, k);
            assert(is_first_at(runs[n - 1].artifacts@, path, k));
            assert(is_variant(runs, path, runs[n - 1].artifacts@[k].deep_view()));
            assert(all[rest.len() as int] == runs[n - 1].artifacts@[k].deep_view());
        }
        if all.len() == n {
            assert(artifact_at(runs[n - 1].artifacts@, path, 0) is Some);
        }
        assert forall|k: int| 0 <= k < all.len() implies is_variant(
            runs,
            path,
            #[trigger] all[k],
        ) by {
            if k < rest.len() {
                assert(all[k] == rest[k]);
            }
        }
        assert forall|m: int, j: int|
            0 <= m < n && #[trigger] is_first_at(runs[m].artifacts@, path, j) implies all.contains(
            runs[m].artifacts@[j].deep_view(),
        ) by {
            law_the_first_artifact_at_a_path_is_found(runs[m].artifacts@, path, j);
            if m < n - 1 {
                assert(rest.contains(runs[m].artifacts@[j].deep_view()));
                let k = rest.index_of(runs[m].artifacts@[j].deep_view());
                assert(all[k] == rest[k]);
            }
        }
    }
}

proof fn lemma_first_other(variants: Seq<ArtifactRecordView>, digest: Seq<char>, from: int)
    requires
        0 <= from <= variants.len(),
    ensures
        match first_other(variants, digest, from) {
            Some(k) => from <= k < variants.len() && variants[k].sha256 != digest,
            None => forall|k: int|
                from <= k < variants.len() ==> (#[trigger] variants[k]).sha256 == digest,
        },
    decreases variants.len() - from,
{
    if from < variants.len() && variants[from].sha256 == digest {
        lemma_first_other(variants, digest, from + 1);
    }
}

/// Every artifact of the baseline is accounted for, in order. It changed exactly if some varied build
/// lacks it or has other bytes at its path, and where one has other bytes they are what it is compared
/// with.
pub proof fn law_artifacts_changed_where_some_build_differs(
    baseline: BuildRun,
    runs: Seq<BuildRun>,
    i: Option<InterventionView>,
    k: int,
)
    requires
        0 <= k < baseline.artifacts@.len(),
    ensures
        artifact_deltas(baseline, runs, i).len() == baseline.artifacts@.len(),
        ({
            let d = artifact_deltas(baseline, runs, i)[k];
            let own = baseline.artifacts@[k];
            let path = own.logical_path@;
            &&& d.logical_path == path
            &&& d.baseline_sha256 == own.sha256@
            &&& d.changed <==> exists|m: int|
                0 <= m < runs.len() && !has_at(#[trigger] runs[m], path, own.sha256@)
            &&& (exists|v: ArtifactRecordView| #[trigger]
                is_variant(runs, path, v) && v.sha256 != own.sha256@) ==> d.variant_sha256
                != own.sha256@ && exists|v: ArtifactRecordView| #[trigger]
                is_variant(runs, path, v) && v.sha256 == d.variant_sha256
            &&& (forall|v: ArtifactRecordView| !#[trigger] is_variant(runs, path, v))
                ==> d.variant_sha256 == "<missing>"@
            &&& runs.len() > 0 && !d.changed ==> d.variant_sha256 == own.sha256@
        }),
{
    let own = baseline.artifacts@[k];
    let path = own.logical_path@;
    let a = own.deep_view();
    let variants = variants_at(runs, path, runs.len() as int);
    lemma_variants(runs, path, runs.len() as int);
    lemma_first_other(variants, a.sha256, 0);
    let d = artifact_deltas(baseline, runs, i)[k];
    assert(d == artifact_delta(a, variants, runs.len(), i));
    if d.changed {
        if variants.len() != runs.len() {
            let m = choose|m: int|
                0 <= m < runs.len() && artifact_at((#[trigger] runs[m]).artifacts@, path, 0) is None;
            assert(!has_at(runs[m], path, own.sha256@)) by {
                if has_at(runs[m], path, own.sha256@) {
                    let j = choose|j: int| #[trigger]
                        is_first_at(runs[m].artifacts@, path, j) && runs[m].artifacts@[j].sha256@
                            == own.sha256@;
                    law_the_first_artifact_at_a_path_is_found(runs[m].artifacts@, path, j);
                }
            }
        } else {
            let o = first_other(variants, a.sha256, 0)->0;
            assert(is_variant(runs, path, variants[o]));
            let (m, j) = choose|m: int, j: int|
                0 <= m < runs.len() && #[trigger] is_first_at(runs[m].artifacts@, path, j)
                    && runs[m].artifacts@[j].deep_view() == variants[o];
            assert(!has_at(runs[m], path, own.sha256@)) by {
                if has_at(runs[m], path, own.sha256@) {
                    let j2 = choose|j2: int| #[trigger]
                        is_first_at(runs[m].artifacts@, path, j2) && runs[m].artifacts@[j2].sha256@
                            == own.sha256@;
                    law_the_first_artifact_at_a_path_is_found(runs[m].artifacts@, path, j);
                    law_the_first_artifact_at_a_path_is_found(runs[m].artifacts@, path, j2);
                }
            }
        }
    }
    if exists|m: int| 0 <= m < runs.len() && !has_at(#[trigger] runs[m], path, own.sha256@) {
        let m = choose|m: int| 0 <= m < runs.len() && !has_at(#[trigger] runs[m], path, own.sha256@);
        if variants.len() == runs.len() {
            assert(artifact_at(runs[m].artifacts@, path, 0) is Some);
            let j = artifact_at(runs[m].artifacts@, path, 0)->0;
            law_the_first_artifact_at_a_path_is_found(runs[m].artifacts@, path, j);
            assert(is_first_at(runs[m].artifacts@, path, j));
            let v = runs[m].artifacts@[j].deep_view();
            let q = variants.index_of(v);
            assert(variants[q].sha256 != a.sha256);
        }
    }
    if exists|v: ArtifactRecordView| #[trigger]
        is_variant(runs, path, v) && v.sha256 != own.sha256@ {
        let v = choose|v: ArtifactRecordView| #[trigger]
            is_variant(runs, path, v) && v.sha256 != own.sha256@;
        let (m, j) = choose|m: int, j: int|
            0 <= m < runs.len() && #[trigger] is_first_at(runs[m].artifacts@, path, j)
                && runs[m].artifacts@[j].deep_view() == v;
        let q = variants.index_of(v);
        assert(variants[q].sha256 != a.sha256);
        let o = first_other(variants, a.sha256, 0)->0;
        assert(is_variant(runs, path, variants[o]));
    }
    if forall|v: ArtifactRecordView| !#[trigger] is_variant(runs, path, v) {
        if variants.len() > 0 {
            assert(is_variant(runs, path, variants[0]));
        }
    }
}

/// A changed artifact is marked directly on a side exactly if a marker there is of the varied setting,
/// and without an intervention nothing points anywhere.
pub proof fn law_direct_markers_are_of_the_varied_setting(
    baseline: BuildRun,
    runs: Seq<BuildRun>,
    i: InterventionView,
    k: int,
)
    requires
        0 <= k < baseline.artifacts@.len(),
    ensures
        ({
            let d = artifact_deltas(baseline, runs, Some(i))[k];
            let own = baseline.artifacts@[k];
            &&& d.baseline_direct_marker <==> d.changed && marks(own.deep_view(), i)
            &&& d.variant_direct_marker <==> d.changed && exists|v: ArtifactRecordView| #[trigger]
                is_variant(runs, own.logical_path@, v) && marks(v, i)
            &&& d.direct_structural_evidence <==> (exists|m: int|
                0 <= m < d.archive_metadata_evidence.len() && field_points_to(
                    i.kind,
                    (#[trigger] d.archive_metadata_evidence[m]).field,
                )) || (i.kind == InterventionKind::SourceDateEpoch && exists|m: int|
                0 <= m < d.semantic_evidence.len() && (#[trigger] d.semantic_evidence[m]).field
                    == "coff_timestamp"@)
            &&& !d.changed ==> d.archive_metadata_evidence.len() == 0 && d.semantic_evidence.len()
                == 0 && !d.direct_structural_evidence
        }),
        ({
            let d = artifact_deltas(baseline, runs, None)[k];
            !d.baseline_direct_marker && !d.variant_direct_marker && !d.direct_structural_evidence
        }),
{
    let own = baseline.artifacts@[k];
    let path = own.logical_path@;
    let a = own.deep_view();
    let variants = variants_at(runs, path, runs.len() as int);
    lemma_variants(runs, path, runs.len() as int);
    let d = artifact_deltas(baseline, runs, Some(i))[k];
    assert(d == artifact_delta(a, variants, runs.len(), Some(i)));
    lemma_marks(a, i);
    lemma_some_variant(i, variants, variants.len() as int);
    if some_variant_points(i, variants, variants.len() as int) {
        let q = choose|q: int| 0 <= q < variants.len() && marks(#[trigger] variants[q], i);
        assert(is_variant(runs, path, variants[q]));
    }
    if exists|v: ArtifactRecordView| #[trigger] is_variant(runs, path, v) && marks(v, i) {
        let v = choose|v: ArtifactRecordView| #[trigger] is_variant(runs, path, v) && marks(v, i);
        let (m, j) = choose|m: int, j: int|
            0 <= m < runs.len() && #[trigger] is_first_at(runs[m].artifacts@, path, j)
                && runs[m].artifacts@[j].deep_view() == v;
        let q = variants.index_of(v);
        assert(marks(variants[q], i));
    }
    let e = d.semantic_evidence;
    if meaning_points_to(i.kind, e) {
        let m = choose|m: int|
            0 <= m < e.len() && i.kind is SourceDateEpoch && (#[trigger] e[m]).field
                == "coff_timestamp"@;
        assert(e[m].field == "coff_timestamp"@);
    }
}

/// A setting of at least four bytes leaves a marker under a name that points to an intervention on it.
pub proof fn law_settings_leave_markers_that_point_to_them(e: ControlledEnvironmentView)
    ensures
        encode_utf8(e.container_source_path).len() >= 4 ==> found_markers(e).contains(
            EmbeddedMarkerView { variable: "source_path"@, value: e.container_source_path },
        ),
        encode_utf8(e.container_work_path).len() >= 4 ==> found_markers(e).contains(
            EmbeddedMarkerView { variable: "build_path"@, value: e.container_work_path },
        ),
        e.hostname matches Some(name) ==> encode_utf8(name).len() >= 4 ==> found_markers(
            e,
        ).contains(EmbeddedMarkerView { variable: "hostname"@, value: name }),
        forall|k: int|
            0 <= k < e.environment.len() && encode_utf8((#[trigger] e.environment[k]).1).len() >= 4
                ==> found_markers(e).contains(
                EmbeddedMarkerView { variable: e.environment[k].0, value: e.environment[k].1 },
            ),
{
    let a = marker_if_long("source_path"@, e.container_source_path);
    let b = marker_if_long("build_path"@, e.container_work_path);
    let c = match e.hostname {
        Some(name) => marker_if_long("hostname"@, name),
        None => Seq::empty(),
    };
    let d = match e.cpu_count {
        Some(n) => marker_if_long("cpu_count"@, crate::numbers::decimal_of(n as int)),
        None => Seq::empty(),
    };
    let v = variable_markers(e.environment, e.environment.len() as int);
    let all = found_markers(e);
    assert(all =~= a + b + c + d + v);
    if a.len() > 0 {
        assert(all[0] == a[0]);
    }
    if b.len() > 0 {
        assert(all[a.len() as int] == b[0]);
    }
    if c.len() > 0 {
        assert(all[a.len() + b.len() as int] == c[0]);
    }
    assert forall|k: int|
        0 <= k < e.environment.len() && encode_utf8((#[trigger] e.environment[k]).1).len()
            >= 4 implies all.contains(
        EmbeddedMarkerView { variable: e.environment[k].0, value: e.environment[k].1 },
    ) by {
        let m = EmbeddedMarkerView { variable: e.environment[k].0, value: e.environment[k].1 };
        lemma_variable_marker(e.environment, e.environment.len() as int, k);
        let q = v.index_of(m);
        assert(all[a.len() + b.len() + c.len() + d.len() + q] == m);
    }
}

proof fn lemma_variable_marker(entries: Entries, n: int, k: int)
    requires
        0 <= k < n <= entries.len(),
        encode_utf8(entries[k].1).len() >= 4,
    ensures
        variable_markers(entries, n).contains(
            EmbeddedMarkerView { variable: entries[k].0, value: entries[k].1 },
        ),
    decreases n,
{
    let m = EmbeddedMarkerView { variable: entries[k].0, value: entries[k].1 };
    let rest = variable_markers(entries, n - 1);
    let own = marker_if_long(entries[n - 1].0, entries[n - 1].1);
    let all = variable_markers(entries, n);
    if k == n - 1 {
        assert(own[0] == m);
        assert(all[rest.len() as int] == m);
    } else {
        lemma_variable_marker(entries, n - 1, k);
        let q = rest.index_of(m);
        assert(all[q] == m);
    }
}

/// The markers found in a file are those whose bytes occur in it, in order; a file above the limit is
/// not searched.
pub proof fn law_markers_are_found_where_their_bytes_occur(
    b: Seq<u8>,
    markers: Seq<EmbeddedMarkerView>,
)
    ensures
        scanned_markers(b, markers) == if b.len() <= 67_108_864 {
            markers.filter(
                |m: EmbeddedMarkerView|
                    encode_utf8(m.value).len() > 0 && occurs(b, encode_utf8(m.value)),
            )
        } else {
            Seq::empty()
        },
{
    lemma_markers_in(b, markers);
}

proof fn lemma_markers_in(b: Seq<u8>, markers: Seq<EmbeddedMarkerView>)
    ensures
        markers_in(b, markers, markers.len() as int) == markers.filter(
            |m: EmbeddedMarkerView|
                encode_utf8(m.value).len() > 0 && occurs(b, encode_utf8(m.value)),
        ),
    decreases markers.len(),
{
    reveal(Seq::filter);
    let p = |m: EmbeddedMarkerView|
        encode_utf8(m.value).len() > 0 && occurs(b, encode_utf8(m.value));
    if markers.len() > 0 {
        let rest = markers.drop_last();
        lemma_markers_in(b, rest);
        lemma_markers_of_a_beginning(b, markers, rest.len() as int);
        assert(markers[markers.len() - 1] == markers.last());
        assert(has_bytes(b, encode_utf8(markers.last().value)) == p(markers.last()));
    } else {
        assert(markers_in(b, markers, 0) =~= markers.filter(p));
    }
}

proof fn lemma_markers_of_a_beginning(b: Seq<u8>, markers: Seq<EmbeddedMarkerView>, n: int)
    requires
        0 <= n < markers.len(),
    ensures
        markers_in(b, markers, n) == markers_in(b, markers.drop_last(), n),
    decreases n,
{
    if n > 0 {
        lemma_markers_of_a_beginning(b, markers, n - 1);
    }
}

/// A build timestamp leaves its date in three spellings: those of the first of January of the year 2000
/// for the baseline, and of 2020 for the variant.
pub proof fn law_timestamps_leave_their_dates(variable: Seq<char>)
    ensures
        forall|k: int|
            0 <= k < date_markers(variable, "946684800"@).len() ==> (
            #[trigger] date_markers(variable, "946684800"@)[k]).variable == variable && occurs(
                date_markers(variable, "946684800"@)[k].value,
                "2000"@,
            ),
        forall|k: int|
            0 <= k < date_markers(variable, "1577836800"@).len() ==> (
            #[trigger] date_markers(variable, "1577836800"@)[k]).variable == variable && occurs(
                date_markers(variable, "1577836800"@)[k].value,
                "2020"@,
            ),
{
    reveal_strlit("946684800");
    reveal_strlit("1577836800");
    reveal_strlit("2000");
    reveal_strlit("2020");
    reveal_strlit("Jan  1 2000");
    reveal_strlit("Jan 01 2000");
    reveal_strlit("2000-01-01");
    reveal_strlit("Jan  1 2020");
    reveal_strlit("Jan 01 2020");
    reveal_strlit("2020-01-01");
    crate::laws::wording::lemma_stands("Jan  1 2000"@, "2000"@, 7);
    crate::laws::wording::lemma_stands("Jan 01 2000"@, "2000"@, 7);
    crate::laws::wording::lemma_stands("2000-01-01"@, "2000"@, 0);
    crate::laws::wording::lemma_stands("Jan  1 2020"@, "2020"@, 7);
    crate::laws::wording::lemma_stands("Jan 01 2020"@, "2020"@, 7);
    crate::laws::wording::lemma_stands("2020-01-01"@, "2020"@, 0);
    assert("946684800"@.len() != "1577836800"@.len());
}

} // verus!
