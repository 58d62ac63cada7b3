//! What becomes of evidence documents of earlier versions.
use vstd::prelude::*;

use crate::compat::{
    accepted_version, bounded_cache, build_fields, build_migrated, builds_migrated,
    cache_migrated, check_fields, comparison_fields, comparison_parts, identified, kind_in,
    missing_bounds, migrated, needed_migration, normalized, no_stats, number_json, one_more,
    or_field, part, shape_migrated, shape_problem, with_interventions, with_log_identity,
    with_provenance, with_search, MigrationStats, PartShape, fix_fields, with_diagnosis,
    with_verifications,
};
use crate::json::{
    field_at, law_a_field_holds_what_it_was_given, whole_in, with_field, Fields, JsonView,
};
use crate::laws::archives::lemma_value_bound;
use crate::numbers::without_plus;
use crate::schema::{newest_version, oldest_version, EvidenceKind};

verus! {

/// Whether a document holds a field.
pub open spec fn holds(fields: Fields, name: Seq<char>) -> bool {
    field_at(fields, name) is Some
}

/// A document is what its fields make it: a fix report, a comparison, a check report, a run with
/// artifacts or a failure without, in this order; with other fields it is refused.
pub proof fn law_documents_are_told_by_their_fields(fields: Fields)
    ensures
        ({
            let kind = kind_in(JsonView::Object(fields));
            let fix = holds(fields, "diagnosis"@) && holds(fields, "candidates"@) && holds(
                fields,
                "verifications"@,
            );
            let comparison = holds(fields, "good_manifest_sha256"@) && holds(
                fields,
                "bad_manifest_sha256"@,
            );
            let check = holds(fields, "baseline_environment"@) && holds(
                fields,
                "artifact_comparisons"@,
            ) && holds(fields, "status"@);
            let report = fix || comparison || check;
            let run = holds(fields, "run_id"@) && holds(fields, "artifacts"@);
            let failure = holds(fields, "run_id"@) && holds(fields, "exit_code"@);
            &&& kind == Ok::<EvidenceKind, Seq<char>>(EvidenceKind::FixReport) <==> fix
            &&& kind == Ok::<EvidenceKind, Seq<char>>(EvidenceKind::EnvironmentComparisonReport)
                <==> comparison && !fix
            &&& kind == Ok::<EvidenceKind, Seq<char>>(EvidenceKind::CheckReport) <==> check && !fix
                && !comparison
            &&& kind == Ok::<EvidenceKind, Seq<char>>(EvidenceKind::BuildRun) <==> run && !report
            &&& kind == Ok::<EvidenceKind, Seq<char>>(EvidenceKind::BuildFailure) <==> failure
                && !run && !report
            &&& kind is Err <==> !report && !run && !failure
        }),
{
}

/// Only documents are told apart: what is no object is refused.
pub proof fn law_other_values_are_no_documents(value: JsonView)
    ensures
        !(value is Object) ==> kind_in(value) is Err && normalized(value) is Err,
{
}

/// A version is accepted exactly if it is a whole number that the kind of document has had: from five to
/// fourteen for check reports, from one to ten for builds, from two to twelve for fix reports, from one
/// to four for comparisons.
pub proof fn law_versions_of_each_kind(fields: Fields, kind: EvidenceKind)
    ensures
        accepted_version(fields, kind) is Ok <==> {
            let n = whole_in(field_at(fields, "schema_version"@));
            n is Some && match kind {
                EvidenceKind::CheckReport => 5 <= n->0 <= 14,
                EvidenceKind::BuildRun => 1 <= n->0 <= 10,
                EvidenceKind::BuildFailure => 1 <= n->0 <= 10,
                EvidenceKind::FixReport => 2 <= n->0 <= 12,
                EvidenceKind::EnvironmentComparisonReport => 1 <= n->0 <= 4,
            }
        },
        accepted_version(fields, kind) matches Ok(version) ==> whole_in(
            field_at(fields, "schema_version"@),
        ) == Some(version as int),
{
    lemma_whole(field_at(fields, "schema_version"@));
}

proof fn lemma_whole(value: Option<JsonView>)
    ensures
        whole_in(value) matches Some(n) ==> n >= 0,
{
    if let Some(JsonView::Number(text)) = value {
        lemma_value_bound(without_plus(text), 10);
    }
}

/// A build document has a usable shape exactly if it holds every field that its version brought or that
/// came before.
pub proof fn law_versions_need_their_fields(fields: Fields, kind: EvidenceKind, version: u32)
    ensures
        shape_problem(fields, kind, version, 0) is None <==> {
            &&& version >= 2 ==> holds(fields, "source_overrides"@) && holds(
                fields,
                "network_trace"@,
            )
            &&& version >= 3 ==> holds(fields, "runtime_dependency_provenance"@)
            &&& version >= 5 ==> holds(fields, "process_trace"@)
            &&& version >= 8 ==> holds(fields, "runner_backend"@)
            &&& version >= 10 ==> {
                &&& holds(fields, "log_capture_max_bytes"@)
                &&& holds(fields, "stdout_sha256"@) && holds(fields, "stderr_sha256"@)
                &&& holds(fields, "stdout_bytes"@) && holds(fields, "stderr_bytes"@)
                &&& holds(fields, "stdout_truncated"@) && holds(fields, "stderr_truncated"@)
            }
        },
{
    reveal_with_fuel(shape_problem, 13);
}

proof fn lemma_or_field(fields: Fields, name: Seq<char>, value: JsonView, other: Seq<char>)
    ensures
        field_at(or_field(fields, name, value), other) == if other == name && !holds(fields, name) {
            Some(value)
        } else {
            field_at(fields, other)
        },
{
    law_a_field_holds_what_it_was_given(fields, name, value, other);
}

/// What a bound of a cache summary is where an early version did not record it.
pub open spec fn unrecorded(fields: Fields, name: Seq<char>) -> Option<JsonView> {
    if name == "before_truncated"@ || name == "after_truncated"@ {
        Some(JsonView::Bool(false))
    } else if name == "max_files"@ || name == "max_bytes"@ {
        Some(number_json(0))
    } else if name == "observed_change"@ {
        Some(
            JsonView::Bool(
                field_at(fields, "changed_during_build"@) == Some(JsonView::Bool(true)),
            ),
        )
    } else if name == "comparison_complete"@ {
        Some(JsonView::Bool(true))
    } else {
        None
    }
}

/// A cache summary comes out with every bound: those that it has are kept, the others get the value that
/// stands for what was not recorded. No other field changes.
pub proof fn law_cache_summaries_get_their_bounds(fields: Fields, name: Seq<char>)
    ensures
        field_at(bounded_cache(fields), name) == if holds(fields, name) {
            field_at(fields, name)
        } else {
            unrecorded(fields, name)
        },
{
    reveal_strlit("before_truncated");
    reveal_strlit("after_truncated");
    reveal_strlit("max_files");
    reveal_strlit("max_bytes");
    reveal_strlit("observed_change");
    reveal_strlit("comparison_complete");
    reveal_strlit("changed_during_build");
    assert("before_truncated"@.len() == 16 && "after_truncated"@.len() == 15 && "max_files"@.len()
        == 9 && "max_bytes"@.len() == 9 && "observed_change"@.len() == 15
        && "comparison_complete"@.len() == 19 && "changed_during_build"@.len() == 20);
    assert("max_files"@[4] == 'f' && "max_bytes"@[4] == 'b' && "after_truncated"@[0] == 'a'
        && "observed_change"@[0] == 'o');
    let changed = "changed_during_build"@;
    let a = or_field(fields, "before_truncated"@, JsonView::Bool(false));
    let b = or_field(a, "after_truncated"@, JsonView::Bool(false));
    let c = or_field(b, "max_files"@, number_json(0));
    let d = or_field(c, "max_bytes"@, number_json(0));
    let seen = JsonView::Bool(crate::compat::says_changed(d));
    let e = or_field(d, "observed_change"@, seen);
    lemma_or_field(fields, "before_truncated"@, JsonView::Bool(false), name);
    lemma_or_field(a, "after_truncated"@, JsonView::Bool(false), name);
    lemma_or_field(b, "max_files"@, number_json(0), name);
    lemma_or_field(c, "max_bytes"@, number_json(0), name);
    lemma_or_field(d, "observed_change"@, seen, name);
    lemma_or_field(e, "comparison_complete"@, JsonView::Bool(true), name);
    lemma_or_field(fields, "before_truncated"@, JsonView::Bool(false), changed);
    lemma_or_field(a, "after_truncated"@, JsonView::Bool(false), changed);
    lemma_or_field(b, "max_files"@, number_json(0), changed);
    lemma_or_field(c, "max_bytes"@, number_json(0), changed);
    lemma_or_field(fields, "before_truncated"@, JsonView::Bool(false), "before_truncated"@);
    lemma_or_field(fields, "before_truncated"@, JsonView::Bool(false), "after_truncated"@);
    lemma_or_field(fields, "before_truncated"@, JsonView::Bool(false), "max_files"@);
    lemma_or_field(fields, "before_truncated"@, JsonView::Bool(false), "max_bytes"@);
    lemma_or_field(fields, "before_truncated"@, JsonView::Bool(false), "observed_change"@);
    lemma_or_field(fields, "before_truncated"@, JsonView::Bool(false), "comparison_complete"@);
    lemma_or_field(a, "after_truncated"@, JsonView::Bool(false), "max_files"@);
    lemma_or_field(a, "after_truncated"@, JsonView::Bool(false), "max_bytes"@);
    lemma_or_field(a, "after_truncated"@, JsonView::Bool(false), "observed_change"@);
    lemma_or_field(a, "after_truncated"@, JsonView::Bool(false), "comparison_complete"@);
    lemma_or_field(b, "max_files"@, number_json(0), "max_bytes"@);
    lemma_or_field(b, "max_files"@, number_json(0), "observed_change"@);
    lemma_or_field(b, "max_files"@, number_json(0), "comparison_complete"@);
    lemma_or_field(c, "max_bytes"@, number_json(0), "observed_change"@);
    lemma_or_field(c, "max_bytes"@, number_json(0), "comparison_complete"@);
    lemma_or_field(d, "observed_change"@, seen, "comparison_complete"@);
}

/// Whether a cache summary records all its bounds.
pub open spec fn is_bounded(fields: Fields) -> bool {
    &&& holds(fields, "before_truncated"@) && holds(fields, "after_truncated"@)
    &&& holds(fields, "max_files"@) && holds(fields, "max_bytes"@)
    &&& holds(fields, "observed_change"@) && holds(fields, "comparison_complete"@)
}

/// A cache summary with its bounds stays as it is. One without is completed and counted where its
/// version came before the bounds, and refused where it came with them.
pub proof fn law_only_early_summaries_may_lack_bounds(
    fields: Fields,
    stats: MigrationStats,
    version: u32,
)
    ensures
        ({
            let done = cache_migrated(JsonView::Object(fields), stats, version);
            &&& is_bounded(fields) ==> done == Ok::<(JsonView, MigrationStats), Seq<char>>(
                (JsonView::Object(fields), stats),
            )
            &&& !is_bounded(fields) && version >= 4 ==> done is Err
            &&& !is_bounded(fields) && version < 4 ==> (done matches Ok((value, counted)) && value
                == JsonView::Object(bounded_cache(fields))
                && counted.legacy_cache_summaries_migrated == one_more(
                stats.legacy_cache_summaries_migrated,
            ) && counted.build_documents_migrated == stats.build_documents_migrated
                && counted.derived_legacy_log_digests == stats.derived_legacy_log_digests)
        }),
{
    reveal_with_fuel(missing_bounds, 7);
}

/// Whether a name is one of the fields that tell the identity of the logs.
pub open spec fn is_log_field(name: Seq<char>) -> bool {
    ||| name == "log_capture_max_bytes"@
    ||| name == "stdout_sha256"@ || name == "stderr_sha256"@
    ||| name == "stdout_bytes"@ || name == "stderr_bytes"@
    ||| name == "stdout_truncated"@ || name == "stderr_truncated"@
}

proof fn lemma_identity_keeps(fields: Fields, stdout: Seq<char>, stderr: Seq<char>, name: Seq<char>)
    requires
        !is_log_field(name),
    ensures
        field_at(with_log_identity(fields, stdout, stderr), name) == field_at(fields, name),
{
    let out = vstd::utf8::encode_utf8(stdout);
    let err = vstd::utf8::encode_utf8(stderr);
    let a = with_field(fields, "log_capture_max_bytes"@, number_json(0));
    let x = JsonView::Text(crate::digest::digest_text(out));
    let y = JsonView::Text(crate::digest::digest_text(err));
    let b = with_field(a, "stdout_sha256"@, x);
    let c = with_field(b, "stderr_sha256"@, y);
    let d = with_field(c, "stdout_bytes"@, number_json(out.len() as int));
    let e = with_field(d, "stderr_bytes"@, number_json(err.len() as int));
    let f = with_field(e, "stdout_truncated"@, JsonView::Bool(false));
    law_a_field_holds_what_it_was_given(fields, "log_capture_max_bytes"@, number_json(0), name);
    law_a_field_holds_what_it_was_given(a, "stdout_sha256"@, x, name);
    law_a_field_holds_what_it_was_given(b, "stderr_sha256"@, y, name);
    law_a_field_holds_what_it_was_given(c, "stdout_bytes"@, number_json(out.len() as int), name);
    law_a_field_holds_what_it_was_given(d, "stderr_bytes"@, number_json(err.len() as int), name);
    law_a_field_holds_what_it_was_given(e, "stdout_truncated"@, JsonView::Bool(false), name);
    law_a_field_holds_what_it_was_given(f, "stderr_truncated"@, JsonView::Bool(false), name);
}

/// A build document that is accepted comes out with the current version. Apart from that, from its cache
/// summaries and, in early versions, from the identity of its logs, everything in it stays.
pub proof fn law_builds_keep_their_other_fields(
    fields: Fields,
    stats: MigrationStats,
    kind: EvidenceKind,
    name: Seq<char>,
)
    requires
        build_fields(fields, stats, kind) is Ok,
        name != "schema_version"@,
        name != "runtime_dependency_provenance"@,
        !is_log_field(name) || whole_in(field_at(fields, "schema_version"@)) == Some(10int),
    ensures
        build_fields(fields, stats, kind) matches Ok((done, counted)) && field_at(done, name)
            == field_at(fields, name),
{
    let version = accepted_version(fields, kind)->Ok_0;
    let counted = if version < 10 {
        MigrationStats {
            build_documents_migrated: one_more(stats.build_documents_migrated),
            ..stats
        }
    } else {
        stats
    };
    match with_provenance(fields, counted, version) {
        Ok((more, further)) => {
            if let Some(value) = field_at(fields, "runtime_dependency_provenance"@) {
                let done = crate::compat::provenance_migrated(value, counted, version);
                match done {
                    Ok((value, _)) => {
                        law_a_field_holds_what_it_was_given(
                            fields,
                            "runtime_dependency_provenance"@,
                            value,
                            name,
                        );
                    },
                    Err(_) => {},
                }
            }
            assert(field_at(more, name) == field_at(fields, name));
            match identified(more, further, version) {
                Ok((last, _)) => {
                    if version < 10 {
                        let stdout = crate::json::text_in(field_at(more, "stdout"@))->0;
                        let stderr = crate::json::text_in(field_at(more, "stderr"@))->0;
                        lemma_identity_keeps(more, stdout, stderr, name);
                    }
                    law_a_field_holds_what_it_was_given(
                        last,
                        "schema_version"@,
                        number_json(10),
                        name,
                    );
                },
                Err(_) => {},
            }
        },
        Err(_) => {},
    }
}

/// Whether a value is a build document of the current version.
pub open spec fn is_current_build(value: JsonView) -> bool {
    value matches JsonView::Object(fields) && field_at(fields, "schema_version"@) == Some(
        number_json(10),
    )
}

proof fn lemma_current_build(value: JsonView, stats: MigrationStats, kind: EvidenceKind)
    ensures
        build_migrated(value, stats, kind) matches Ok((done, counted)) ==> is_current_build(done),
{
    if let JsonView::Object(fields) = value {
        if let Ok(version) = accepted_version(fields, kind) {
            let counted = if version < 10 {
                MigrationStats {
                    build_documents_migrated: one_more(stats.build_documents_migrated),
                    ..stats
                }
            } else {
                stats
            };
            if let Ok((more, further)) = with_provenance(fields, counted, version) {
                if let Ok((last, _)) = identified(more, further, version) {
                    law_a_field_holds_what_it_was_given(
                        last,
                        "schema_version"@,
                        number_json(10),
                        "schema_version"@,
                    );
                }
            }
        }
    }
}

proof fn lemma_current_builds(
    items: Seq<JsonView>,
    stats: MigrationStats,
    kind: EvidenceKind,
    n: int,
)
    requires
        0 <= n <= items.len(),
    ensures
        builds_migrated(items, stats, kind, n) matches Ok((done, counted)) ==> done.len() == n
            && forall|i: int| 0 <= i < n ==> is_current_build(#[trigger] done[i]),
    decreases n,
{
    if n > 0 {
        lemma_current_builds(items, stats, kind, n - 1);
        if let Ok((done, counted)) = builds_migrated(items, stats, kind, n - 1) {
            lemma_current_build(items[n - 1], counted, kind);
        }
    }
}

/// Whether the builds in one part of a document have been brought to the current version: all of a list,
/// or the only one where there is one.
pub open spec fn is_brought_up(was: JsonView, is_list: bool, now: JsonView) -> bool {
    if is_list {
        was matches JsonView::List(items) && now matches JsonView::List(done) && done.len()
            == items.len() && forall|i: int|
            0 <= i < done.len() ==> is_current_build(#[trigger] done[i])
    } else {
        (was is Null && now is Null) || is_current_build(now)
    }
}

/// Whether a part of this shape is a list of builds.
pub open spec fn is_list_shape(shape: PartShape) -> bool {
    shape is Runs || shape is Failures
}

proof fn lemma_part(
    fields: Fields,
    stats: MigrationStats,
    name: Seq<char>,
    shape: PartShape,
    context: Seq<char>,
    other: Seq<char>,
)
    ensures
        part(Ok((fields, stats)), name, shape, context) matches Ok((done, counted)) ==> {
            &&& other != name ==> field_at(done, other) == field_at(fields, other)
            &&& field_at(done, name) is Some <==> field_at(fields, name) is Some
            &&& field_at(fields, name) matches Some(was) ==> is_brought_up(
                was,
                is_list_shape(shape),
                field_at(done, name)->0,
            )
        },
{
    if let Some(value) = field_at(fields, name) {
        let kind = crate::compat::shape_kind(shape);
        if let JsonView::List(items) = value {
            lemma_current_builds(items, stats, kind, items.len() as int);
        }
        lemma_current_build(value, stats, kind);
        if let Ok((done, counted)) = shape_migrated(value, stats, shape, context) {
            law_a_field_holds_what_it_was_given(fields, name, done, other);
        }
    }
}

/// A comparison that is accepted comes out with all its runs and failures, at both endpoints and in the
/// reproduction, brought to the current version, and with everything else as it was.
pub proof fn law_comparisons_bring_up_all_builds(fields: Fields, stats: MigrationStats, name: Seq<char>)
    requires
        comparison_fields(fields, stats) is Ok,
        name != "schema_version"@,
    ensures
        comparison_fields(fields, stats) matches Ok((done, counted)) && {
            let is_list = name == "good_runs"@ || name == "good_failures"@ || name == "bad_runs"@
                || name == "bad_failures"@ || name == "reproduction_runs"@ || name
                == "reproduction_failures"@;
            let is_one = name == "confirmation_run"@ || name == "confirmation_failure"@;
            &&& !is_list && !is_one ==> field_at(done, name) == field_at(fields, name)
            &&& field_at(done, name) is Some <==> field_at(fields, name) is Some
            &&& (is_list || is_one) && field_at(fields, name) is Some ==> is_brought_up(
                field_at(fields, name)->0,
                is_list,
                field_at(done, name)->0,
            )
        },
{
    reveal_strlit("good_runs");
    reveal_strlit("good_failures");
    reveal_strlit("bad_runs");
    reveal_strlit("bad_failures");
    reveal_strlit("reproduction_runs");
    reveal_strlit("reproduction_failures");
    reveal_strlit("confirmation_run");
    reveal_strlit("confirmation_failure");
    assert("good_runs"@.len() == 9 && "good_failures"@.len() == 13 && "bad_runs"@.len() == 8
        && "bad_failures"@.len() == 12 && "reproduction_runs"@.len() == 17
        && "reproduction_failures"@.len() == 21 && "confirmation_run"@.len() == 16
        && "confirmation_failure"@.len() == 20);
    let s1 = part(Ok((fields, stats)), "good_runs"@, PartShape::Runs, "good endpoint runs"@);
    let s2 = part(s1, "good_failures"@, PartShape::Failures, "good endpoint failures"@);
    let s3 = part(s2, "bad_runs"@, PartShape::Runs, "bad endpoint runs"@);
    let s4 = part(s3, "bad_failures"@, PartShape::Failures, "bad endpoint failures"@);
    let s5 = part(s4, "reproduction_runs"@, PartShape::Runs, "comparison reproduction runs"@);
    let s6 = part(
        s5,
        "reproduction_failures"@,
        PartShape::Failures,
        "comparison reproduction failures"@,
    );
    let s7 = part(s6, "confirmation_run"@, PartShape::OptionalRun, ""@);
    let s8 = part(s7, "confirmation_failure"@, PartShape::OptionalFailure, ""@);
    assert(comparison_parts(fields, stats) == s8);
    assert(s8 is Ok && s7 is Ok && s6 is Ok && s5 is Ok && s4 is Ok && s3 is Ok && s2 is Ok && s1
        is Ok);
    lemma_part(fields, stats, "good_runs"@, PartShape::Runs, "good endpoint runs"@, name);
    lemma_next_part(s1, "good_failures"@, PartShape::Failures, "good endpoint failures"@, name);
    lemma_next_part(s2, "bad_runs"@, PartShape::Runs, "bad endpoint runs"@, name);
    lemma_next_part(s3, "bad_failures"@, PartShape::Failures, "bad endpoint failures"@, name);
    lemma_next_part(
        s4,
        "reproduction_runs"@,
        PartShape::Runs,
        "comparison reproduction runs"@,
        name,
    );
    lemma_next_part(
        s5,
        "reproduction_failures"@,
        PartShape::Failures,
        "comparison reproduction failures"@,
        name,
    );
    lemma_next_part(s6, "confirmation_run"@, PartShape::OptionalRun, ""@, name);
    lemma_next_part(s7, "confirmation_failure"@, PartShape::OptionalFailure, ""@, name);
    match s8 {
        Ok((last, _)) => {
            law_a_field_holds_what_it_was_given(last, "schema_version"@, number_json(4), name);
        },
        Err(_) => {},
    }
}

/// The fields of a document that is still on its way.
pub open spec fn fields_in(parts: Result<(Fields, MigrationStats), Seq<char>>) -> Fields {
    match parts {
        Ok((fields, stats)) => fields,
        Err(message) => Seq::empty(),
    }
}

proof fn lemma_next_part(
    parts: Result<(Fields, MigrationStats), Seq<char>>,
    name: Seq<char>,
    shape: PartShape,
    context: Seq<char>,
    other: Seq<char>,
)
    requires
        parts is Ok,
        part(parts, name, shape, context) is Ok,
    ensures
        other != name ==> field_at(fields_in(part(parts, name, shape, context)), other) == field_at(
            fields_in(parts),
            other,
        ),
        field_at(fields_in(part(parts, name, shape, context)), name) is Some <==> field_at(
            fields_in(parts),
            name,
        ) is Some,
        field_at(fields_in(parts), name) matches Some(was) ==> is_brought_up(
            was,
            is_list_shape(shape),
            field_at(fields_in(part(parts, name, shape, context)), name)->0,
        ),
{
    match parts {
        Ok((fields, stats)) => {
            lemma_part(fields, stats, name, shape, context, other);
        },
        Err(_) => {},
    }
}

/// A check report that is accepted comes out with all its runs brought to the current version. Apart
/// from these, its interventions, its interaction search and its version, everything in it stays.
pub proof fn law_check_reports_bring_up_all_runs(fields: Fields, stats: MigrationStats, name: Seq<char>)
    requires
        check_fields(fields, stats) is Ok,
        name != "schema_version"@,
        name != "interventions"@,
        name != "interaction_search"@,
    ensures
        check_fields(fields, stats) matches Ok((done, counted)) && {
            &&& name != "runs"@ ==> field_at(done, name) == field_at(fields, name)
            &&& name == "runs"@ && field_at(fields, name) is Some ==> field_at(done, name) is Some
                && is_brought_up(field_at(fields, name)->0, true, field_at(done, name)->0)
        },
{
    let s1 = part(Ok((fields, stats)), "runs"@, PartShape::Runs, "check report runs"@);
    let s2 = with_interventions(s1);
    let s3 = with_search(s2);
    assert(s3 is Ok && s2 is Ok && s1 is Ok);
    lemma_part(fields, stats, "runs"@, PartShape::Runs, "check report runs"@, name);
    match s1 {
        Ok((one, counted)) => {
            if let Some(JsonView::List(items)) = field_at(one, "interventions"@) {
                if let Ok((done, _)) = crate::compat::interventions_migrated(
                    items,
                    counted,
                    items.len() as int,
                ) {
                    law_a_field_holds_what_it_was_given(
                        one,
                        "interventions"@,
                        JsonView::List(done),
                        name,
                    );
                }
            }
        },
        Err(_) => {},
    }
    assert(field_at(fields_in(s2), name) == field_at(fields_in(s1), name));
    match s2 {
        Ok((two, counted)) => {
            if let Some(value) = field_at(two, "interaction_search"@) {
                if let Ok((done, _)) = crate::compat::search_migrated(value, counted) {
                    law_a_field_holds_what_it_was_given(two, "interaction_search"@, done, name);
                }
            }
        },
        Err(_) => {},
    }
    assert(field_at(fields_in(s3), name) == field_at(fields_in(s2), name));
    law_a_field_holds_what_it_was_given(fields_in(s3), "schema_version"@, number_json(14), name);
}

/// A fix report that is accepted comes out with its diagnosis brought up as a check report, and with
/// everything else but its verifications as it was.
pub proof fn law_fix_reports_bring_up_their_diagnosis(
    fields: Fields,
    stats: MigrationStats,
    name: Seq<char>,
)
    requires
        fix_fields(fields, stats) is Ok,
        name != "schema_version"@,
        name != "verifications"@,
    ensures
        fix_fields(fields, stats) matches Ok((done, counted)) && {
            &&& name != "diagnosis"@ ==> field_at(done, name) == field_at(fields, name)
            &&& name == "diagnosis"@ ==> (field_at(fields, name) matches Some(JsonView::Object(own))
                && field_at(done, name) == Some(JsonView::Object(fields_in(check_fields(own, stats))))
                && check_fields(own, stats) is Ok)
        },
{
    let s1 = with_diagnosis(fields, stats);
    let s2 = with_verifications(s1);
    assert(s2 is Ok && s1 is Ok);
    let value = field_at(fields, "diagnosis"@)->0;
    match crate::compat::check_migrated(value, stats) {
        Ok((done, counted)) => {
            law_a_field_holds_what_it_was_given(fields, "diagnosis"@, done, name);
            assert(fields_in(s1) == with_field(fields, "diagnosis"@, done));
        },
        Err(_) => {},
    }
    match s1 {
        Ok((one, counted)) => {
            if let Some(JsonView::List(items)) = field_at(one, "verifications"@) {
                if let Ok((done, _)) = crate::compat::verifications_migrated(
                    items,
                    counted,
                    items.len() as int,
                ) {
                    law_a_field_holds_what_it_was_given(
                        one,
                        "verifications"@,
                        JsonView::List(done),
                        name,
                    );
                }
            }
        },
        Err(_) => {},
    }
    assert(field_at(fields_in(s2), name) == field_at(fields_in(s1), name));
    law_a_field_holds_what_it_was_given(fields_in(s2), "schema_version"@, number_json(12), name);
}

/// A build of an earlier version counts as one that was brought up, one of the current version does not.
pub proof fn law_migrated_builds_are_counted(
    fields: Fields,
    stats: MigrationStats,
    kind: EvidenceKind,
    version: u32,
)
    requires
        accepted_version(fields, kind) == Ok::<u32, Seq<char>>(version),
        shape_problem(fields, kind, version, 0) is None,
        field_at(fields, "runtime_dependency_provenance"@) is None,
        build_fields(fields, stats, kind) is Ok,
    ensures
        build_fields(fields, stats, kind) matches Ok((done, counted)) && {
            &&& version < 10 ==> counted.build_documents_migrated == one_more(
                stats.build_documents_migrated,
            ) && counted.derived_legacy_log_digests == one_more(stats.derived_legacy_log_digests)
            &&& version == 10 ==> counted == stats
            &&& counted.legacy_cache_summaries_migrated == stats.legacy_cache_summaries_migrated
        },
        stats.build_documents_migrated < usize::MAX ==> one_more(stats.build_documents_migrated)
            == stats.build_documents_migrated + 1,
{
}

/// A document was migrated exactly if its version was not the current one or something in it was brought
/// up.
pub proof fn law_what_was_changed_was_migrated(
    kind: EvidenceKind,
    version: u32,
    stats: MigrationStats,
)
    ensures
        !needed_migration(kind, version, stats) <==> version == newest_version(kind) && stats
            == no_stats(),
        stats == no_stats() ==> stats.build_documents_migrated == 0
            && stats.derived_legacy_log_digests == 0 && stats.legacy_cache_summaries_migrated == 0,
{
}

/// A document is normalized as the kind and from the version that it tells, and comes out as its kind is
/// migrated from nothing counted.
pub proof fn law_documents_are_normalized_as_their_kind(value: JsonView)
    ensures
        normalized(value) matches Ok((kind, version, done, stats)) ==> {
            &&& kind_in(value) == Ok::<EvidenceKind, Seq<char>>(kind)
            &&& value is Object
            &&& whole_in(field_at(value->Object_0, "schema_version"@)) == Some(version as int)
            &&& oldest_version(kind) <= version <= newest_version(kind)
            &&& migrated(value, kind, no_stats()) == Ok::<(JsonView, MigrationStats), Seq<char>>(
                (done, stats),
            )
        },
{
    if let JsonView::Object(fields) = value {
        lemma_whole(field_at(fields, "schema_version"@));
    }
}

} // verus!
