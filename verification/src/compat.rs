//! Evidence of earlier versions, brought to the current one.
use vstd::prelude::*;
use vstd::utf8::encode_utf8;

use crate::digest::{digest_text, sha256_bytes};
use crate::engine::fix::FixReport;
use crate::json::{
    contains_field, field_at, find_field, has_field, index_from, insert_field,
    law_a_field_holds_what_it_was_given, lemma_index_from, lemma_view_list, lemma_view_object,
    parsed_json, position, read_json, text_in, text_of_json, view_fields, view_json, whole_in,
    whole_of_json, with_field, Fields, Json, JsonView,
};
use crate::model::{BuildFailure, BuildRun, CheckReport, EnvironmentComparisonReport};
use crate::numbers::{decimal, decimal_of, law_written_numbers_read_back};
use crate::ordering::{is_same_path, same_path};
use crate::schema::{
    kind_label, newest_version, oldest_version, EvidenceKind, BUILD_EVIDENCE_SCHEMA_CURRENT,
    CHECK_REPORT_SCHEMA_CURRENT, ENVIRONMENT_COMPARISON_SCHEMA_CURRENT, FIX_REPORT_SCHEMA_CURRENT,
};
use crate::text::{concat, concat3, concat5, join, joined, outcome, push_line};

verus! {

pub const MAX_EVIDENCE_BYTES: u64 = 67108864;

#[derive(Debug, PartialEq)]
pub struct EvidenceCompatibilitySummary {
    pub kind: EvidenceKind,
    pub source_schema_version: u32,
    pub normalized_schema_version: u32,
    pub migrated: bool,
    pub build_documents_migrated: usize,
    pub derived_legacy_log_digests: usize,
    pub legacy_cache_summaries_migrated: usize,
    pub notes: Vec<String>,
}

#[derive(Debug, PartialEq)]
pub enum EvidenceDocument {
    CheckReport(CheckReport),
    BuildRun(BuildRun),
    BuildFailure(BuildFailure),
    FixReport(FixReport),
    EnvironmentComparisonReport(EnvironmentComparisonReport),
}

impl EvidenceDocument {
    pub fn kind(&self) -> (r: EvidenceKind)
        ensures
            r == match *self {
                EvidenceDocument::CheckReport(_) => EvidenceKind::CheckReport,
                EvidenceDocument::BuildRun(_) => EvidenceKind::BuildRun,
                EvidenceDocument::BuildFailure(_) => EvidenceKind::BuildFailure,
                EvidenceDocument::FixReport(_) => EvidenceKind::FixReport,
                EvidenceDocument::EnvironmentComparisonReport(_) =>
                    EvidenceKind::EnvironmentComparisonReport,
            },
    {
        match self {
            EvidenceDocument::CheckReport(_) => EvidenceKind::CheckReport,
            EvidenceDocument::BuildRun(_) => EvidenceKind::BuildRun,
            EvidenceDocument::BuildFailure(_) => EvidenceKind::BuildFailure,
            EvidenceDocument::FixReport(_) => EvidenceKind::FixReport,
            EvidenceDocument::EnvironmentComparisonReport(_) =>
                EvidenceKind::EnvironmentComparisonReport,
        }
    }
}

#[derive(Debug, PartialEq)]
pub struct LoadedEvidence {
    pub source_path: String,
    pub summary: EvidenceCompatibilitySummary,
    pub document: EvidenceDocument,
}

/// How much had to be changed. A count stays at the largest number that it can hold.
#[derive(Debug, Clone, Copy, PartialEq, Eq, Structural)]
pub struct MigrationStats {
    pub build_documents_migrated: usize,
    pub derived_legacy_log_digests: usize,
    pub legacy_cache_summaries_migrated: usize,
}

pub open spec fn no_stats() -> MigrationStats {
    MigrationStats {
        build_documents_migrated: 0,
        derived_legacy_log_digests: 0,
        legacy_cache_summaries_migrated: 0,
    }
}

impl Default for MigrationStats {
    fn default() -> (r: MigrationStats)
        ensures
            r == no_stats(),
    {
        MigrationStats {
            build_documents_migrated: 0,
            derived_legacy_log_digests: 0,
            legacy_cache_summaries_migrated: 0,
        }
    }
}

pub open spec fn one_more(n: usize) -> usize {
    if n == usize::MAX {
        n
    } else {
        (n + 1) as usize
    }
}

fn count_one(n: usize) -> (r: usize)
    ensures
        r == one_more(n),
{
    if n == usize::MAX {
        n
    } else {
        n + 1
    }
}

/// What a change of a value gives: a value and the counts after it, or what is wrong.
pub open spec fn gives(
    wanted: Result<(JsonView, MigrationStats), Seq<char>>,
    r: Result<Json, String>,
    stats: MigrationStats,
) -> bool {
    match wanted {
        Ok((value, counted)) => r is Ok && view_json(r->Ok_0) == value && stats == counted,
        Err(message) => r is Err && r->Err_0@ == message,
    }
}

/// The kind of a document, by the fields that it has.
pub open spec fn kind_in(value: JsonView) -> Result<EvidenceKind, Seq<char>> {
    match value {
        JsonView::Object(fields) => if has_field(fields, "diagnosis"@) && has_field(
            fields,
            "candidates"@,
        ) && has_field(fields, "verifications"@) {
            Ok(EvidenceKind::FixReport)
        } else if has_field(fields, "good_manifest_sha256"@) && has_field(
            fields,
            "bad_manifest_sha256"@,
        ) {
            Ok(EvidenceKind::EnvironmentComparisonReport)
        } else if has_field(fields, "baseline_environment"@) && has_field(
            fields,
            "artifact_comparisons"@,
        ) && has_field(fields, "status"@) {
            Ok(EvidenceKind::CheckReport)
        } else if has_field(fields, "run_id"@) && has_field(fields, "artifacts"@) {
            Ok(EvidenceKind::BuildRun)
        } else if has_field(fields, "run_id"@) && has_field(fields, "exit_code"@) && !has_field(
            fields,
            "artifacts"@,
        ) {
            Ok(EvidenceKind::BuildFailure)
        } else {
            Err(
                "unrecognized ReproBisect evidence document; expected a check report, run, build failure, fix report, or environment-comparison report"@,
            )
        },
        _ => Err("evidence JSON must have a top-level object"@),
    }
}

pub fn detect_kind(value: &Json) -> (r: Result<EvidenceKind, String>)
    ensures
        outcome(r) == kind_in(view_json(*value)),
{
    let fields = match value {
        Json::Object(fields) => fields,
        _ => {
            return Err("evidence JSON must have a top-level object".to_owned());
        },
    };
    proof {
        lemma_view_object(*fields);
    }
    if contains_field(fields, "diagnosis") && contains_field(fields, "candidates")
        && contains_field(fields, "verifications") {
        return Ok(EvidenceKind::FixReport);
    }
    if contains_field(fields, "good_manifest_sha256") && contains_field(
        fields,
        "bad_manifest_sha256",
    ) {
        return Ok(EvidenceKind::EnvironmentComparisonReport);
    }
    if contains_field(fields, "baseline_environment") && contains_field(
        fields,
        "artifact_comparisons",
    ) && contains_field(fields, "status") {
        return Ok(EvidenceKind::CheckReport);
    }
    if contains_field(fields, "run_id") && contains_field(fields, "artifacts") {
        return Ok(EvidenceKind::BuildRun);
    }
    if contains_field(fields, "run_id") && contains_field(fields, "exit_code")
        && !contains_field(fields, "artifacts") {
        return Ok(EvidenceKind::BuildFailure);
    }
    Err(
        "unrecognized ReproBisect evidence document; expected a check report, run, build failure, fix report, or environment-comparison report".to_owned(),
    )
}

pub open spec fn no_version_text(label: Seq<char>) -> Seq<char> {
    label + " is missing an integer schema_version"@
}

pub fn show_no_version(label: &str) -> (r: String)
    ensures
        r@ == no_version_text(label@),
{
    concat(label, " is missing an integer schema_version")
}

/// The version that the fields of a document give.
pub open spec fn version_in(fields: Fields, kind: EvidenceKind) -> Result<u32, Seq<char>> {
    match whole_in(field_at(fields, "schema_version"@)) {
        Some(n) => if n <= u32::MAX {
            Ok(n as u32)
        } else {
            Err(no_version_text(kind_label(kind)))
        },
        None => Err(no_version_text(kind_label(kind))),
    }
}

fn schema_version(fields: &Vec<(String, Json)>, kind: EvidenceKind) -> (r: Result<u32, String>)
    ensures
        outcome(r) == version_in(view_fields(fields@), kind),
{
    match whole_of_json(find_field(fields, "schema_version")) {
        Some(n) => if n <= 0xffff_ffff {
            Ok(n as u32)
        } else {
            Err(show_no_version(kind.label()))
        },
        None => Err(show_no_version(kind.label())),
    }
}

pub open spec fn legacy_text(label: Seq<char>, version: u32, oldest: u32) -> Seq<char> {
    "unsupported legacy "@
        + label
        + " schema "@
        + decimal_of(version as int)
        + "; oldest supported schema is "@
        + decimal_of(oldest as int)
        + " (Phase 6 compatibility boundary)"@
}

pub fn show_legacy(label: &str, version: u32, oldest: u32) -> (r: String)
    ensures
        r@ == legacy_text(label@, version, oldest),
{
    let mut text = "unsupported legacy ".to_owned();
    text.push_str(label);
    text.push_str(" schema ");
    text.push_str(decimal(version as u128).as_str());
    text.push_str("; oldest supported schema is ");
    text.push_str(decimal(oldest as u128).as_str());
    text.push_str(" (Phase 6 compatibility boundary)");
    text
}

pub open spec fn future_text(label: Seq<char>, version: u32, newest: u32) -> Seq<char> {
    "unsupported future "@
        + label
        + " schema "@
        + decimal_of(version as int)
        + "; this ReproBisect build supports through schema "@
        + decimal_of(newest as int)
        + "; upgrade ReproBisect rather than guessing at a future evidence shape"@
}

pub fn show_future(label: &str, version: u32, newest: u32) -> (r: String)
    ensures
        r@ == future_text(label@, version, newest),
{
    let mut text = "unsupported future ".to_owned();
    text.push_str(label);
    text.push_str(" schema ");
    text.push_str(decimal(version as u128).as_str());
    text.push_str("; this ReproBisect build supports through schema ");
    text.push_str(decimal(newest as u128).as_str());
    text.push_str("; upgrade ReproBisect rather than guessing at a future evidence shape");
    text
}

/// What is wrong with a version.
pub open spec fn version_problem(kind: EvidenceKind, version: u32) -> Option<Seq<char>> {
    if version < oldest_version(kind) {
        Some(legacy_text(kind_label(kind), version, oldest_version(kind)))
    } else if version > newest_version(kind) {
        Some(future_text(kind_label(kind), version, newest_version(kind)))
    } else {
        None
    }
}

pub fn validate_schema_version(kind: EvidenceKind, version: u32) -> (r: Result<(), String>)
    ensures
        outcome(r) == match version_problem(kind, version) {
            Some(message) => Err(message),
            None => Ok(()),
        },
{
    let minimum: u32 = kind.minimum_schema_version();
    let current: u32 = kind.current_schema_version();
    if version < minimum {
        return Err(show_legacy(kind.label(), version, minimum));
    }
    if version > current {
        return Err(show_future(kind.label(), version, current));
    }
    Ok(())
}

/// The version that the fields of a document give, if it is a supported one.
pub open spec fn accepted_version(fields: Fields, kind: EvidenceKind) -> Result<u32, Seq<char>> {
    match version_in(fields, kind) {
        Ok(version) => match version_problem(kind, version) {
            Some(message) => Err(message),
            None => Ok(version),
        },
        Err(message) => Err(message),
    }
}

fn accept_version(fields: &Vec<(String, Json)>, kind: EvidenceKind) -> (r: Result<u32, String>)
    ensures
        outcome(r) == accepted_version(view_fields(fields@), kind),
{
    match schema_version(fields, kind) {
        Ok(version) => match validate_schema_version(kind, version) {
            Ok(_) => Ok(version),
            Err(message) => Err(message),
        },
        Err(message) => Err(message),
    }
}

/// The fields that a build document must have, each with the version that brought it.
pub open spec fn required_field(k: int) -> (Seq<char>, u32) {
    if k == 0 {
        ("source_overrides"@, 2)
    } else if k == 1 {
        ("network_trace"@, 2)
    } else if k == 2 {
        ("runtime_dependency_provenance"@, 3)
    } else if k == 3 {
        ("process_trace"@, 5)
    } else if k == 4 {
        ("runner_backend"@, 8)
    } else if k == 5 {
        ("log_capture_max_bytes"@, 10)
    } else if k == 6 {
        ("stdout_sha256"@, 10)
    } else if k == 7 {
        ("stderr_sha256"@, 10)
    } else if k == 8 {
        ("stdout_bytes"@, 10)
    } else if k == 9 {
        ("stderr_bytes"@, 10)
    } else if k == 10 {
        ("stdout_truncated"@, 10)
    } else {
        ("stderr_truncated"@, 10)
    }
}

fn nth_required_field(k: usize) -> (r: (&'static str, u32))
    ensures
        (r.0@, r.1) == required_field(k as int),
{
    if k == 0 {
        ("source_overrides", 2)
    } else if k == 1 {
        ("network_trace", 2)
    } else if k == 2 {
        ("runtime_dependency_provenance", 3)
    } else if k == 3 {
        ("process_trace", 5)
    } else if k == 4 {
        ("runner_backend", 8)
    } else if k == 5 {
        ("log_capture_max_bytes", 10)
    } else if k == 6 {
        ("stdout_sha256", 10)
    } else if k == 7 {
        ("stderr_sha256", 10)
    } else if k == 8 {
        ("stdout_bytes", 10)
    } else if k == 9 {
        ("stderr_bytes", 10)
    } else if k == 10 {
        ("stdout_truncated", 10)
    } else {
        ("stderr_truncated", 10)
    }
}

pub open spec fn malformed_text(label: Seq<char>, version: u32, field: Seq<char>) -> Seq<char> {
    label
        + " schema "@
        + decimal_of(version as int)
        + " is malformed: required field `"@
        + field
        + "` is missing"@
}

pub fn show_malformed(label: &str, version: u32, field: &str) -> (r: String)
    ensures
        r@ == malformed_text(label@, version, field@),
{
    let mut text = label.to_owned();
    text.push_str(" schema ");
    text.push_str(decimal(version as u128).as_str());
    text.push_str(" is malformed: required field `");
    text.push_str(field);
    text.push_str("` is missing");
    text
}

/// What is wrong with the fields of a build document, from the `k`th required one on.
pub open spec fn shape_problem(fields: Fields, kind: EvidenceKind, version: u32, k: int) -> Option<
    Seq<char>,
>
    decreases 12 - k,
{
    if k >= 12 {
        None
    } else {
        let (name, since) = required_field(k);
        if version >= since && !has_field(fields, name) {
            Some(malformed_text(kind_label(kind), version, name))
        } else {
            shape_problem(fields, kind, version, k + 1)
        }
    }
}

pub fn validate_build_shape_for_version(
    fields: &Vec<(String, Json)>,
    kind: EvidenceKind,
    version: u32,
) -> (r: Result<(), String>)
    ensures
        outcome(r) == match shape_problem(view_fields(fields@), kind, version, 0) {
            Some(message) => Err(message),
            None => Ok(()),
        },
{
    let ghost view = view_fields(fields@);
    let mut k: usize = 0;
    while k < 12
        invariant
            view == view_fields(fields@),
            k <= 12,
            shape_problem(view, kind, version, 0) == shape_problem(view, kind, version, k as int),
        decreases 12 - k,
    {
        let (name, since) = nth_required_field(k);
        if version >= since && !contains_field(fields, name) {
            return Err(show_malformed(kind.label(), version, name));
        }
        k += 1;
    }
    Ok(())
}

/// The fields of a cache summary that keep its bounds.
pub open spec fn bounded_field(k: int) -> Seq<char> {
    if k == 0 {
        "before_truncated"@
    } else if k == 1 {
        "after_truncated"@
    } else if k == 2 {
        "max_files"@
    } else if k == 3 {
        "max_bytes"@
    } else if k == 4 {
        "observed_change"@
    } else {
        "comparison_complete"@
    }
}

fn nth_bounded_field(k: usize) -> (r: &'static str)
    ensures
        r@ == bounded_field(k as int),
{
    if k == 0 {
        "before_truncated"
    } else if k == 1 {
        "after_truncated"
    } else if k == 2 {
        "max_files"
    } else if k == 3 {
        "max_bytes"
    } else if k == 4 {
        "observed_change"
    } else {
        "comparison_complete"
    }
}

/// Which of the first `k` of these are missing.
pub open spec fn missing_bounds(fields: Fields, k: int) -> Seq<Seq<char>>
    decreases k,
{
    if k <= 0 {
        Seq::empty()
    } else {
        let rest = missing_bounds(fields, k - 1);
        if has_field(fields, bounded_field(k - 1)) {
            rest
        } else {
            rest.push(bounded_field(k - 1))
        }
    }
}

fn list_missing_bounds(fields: &Vec<(String, Json)>) -> (r: Vec<String>)
    ensures
        r.deep_view() == missing_bounds(view_fields(fields@), 6),
{
    let mut missing: Vec<String> = Vec::new();
    let mut k: usize = 0;
    assert(missing.deep_view() =~= Seq::<Seq<char>>::empty());
    while k < 6
        invariant
            k <= 6,
            missing.deep_view() == missing_bounds(view_fields(fields@), k as int),
        decreases 6 - k,
    {
        let name = nth_bounded_field(k);
        if !contains_field(fields, name) {
            push_line(&mut missing, name.to_owned());
        }
        k += 1;
    }
    missing
}

/// The fields with one more, unless it is there.
pub open spec fn or_field(fields: Fields, name: Seq<char>, value: JsonView) -> Fields {
    if has_field(fields, name) {
        fields
    } else {
        with_field(fields, name, value)
    }
}

fn insert_missing(fields: &mut Vec<(String, Json)>, name: &str, value: Json)
    ensures
        view_fields(final(fields)@) == or_field(view_fields(old(fields)@), name@, view_json(value)),
{
    if !contains_field(fields, name) {
        insert_field(fields, name, value);
    }
}

/// The number that stands for `n`.
pub open spec fn number_json(n: int) -> JsonView {
    JsonView::Number(decimal_of(n))
}

fn number(n: u64) -> (r: Json)
    ensures
        view_json(r) == number_json(n as int),
{
    Json::Number(decimal(n as u128))
}

pub open spec fn malformed_cache_text(version: u32, missing: Seq<Seq<char>>) -> Seq<char> {
    "build evidence schema "@
        + decimal_of(version as int)
        + " has a malformed bounded dependency-cache summary; missing field(s): "@
        + joined(missing, ", "@, missing.len() as int)
}

pub fn show_malformed_cache(version: u32, missing: &Vec<String>) -> (r: String)
    ensures
        r@ == malformed_cache_text(version, missing.deep_view()),
{
    let mut text = "build evidence schema ".to_owned();
    text.push_str(decimal(version as u128).as_str());
    text.push_str(" has a malformed bounded dependency-cache summary; missing field(s): ");
    text.push_str(join(missing, ", ").as_str());
    text
}

/// Whether a cache summary says that the build changed the cache.
pub open spec fn says_changed(fields: Fields) -> bool {
    field_at(fields, "changed_during_build"@) == Some(JsonView::Bool(true))
}

fn reads_changed(fields: &Vec<(String, Json)>) -> (r: bool)
    ensures
        r == says_changed(view_fields(fields@)),
{
    match find_field(fields, "changed_during_build") {
        Some(Json::Bool(changed)) => *changed,
        _ => false,
    }
}

/// A cache summary with bounds. Where the version had none, they are 0 for unknown.
pub open spec fn bounded_cache(fields: Fields) -> Fields {
    let a = or_field(fields, "before_truncated"@, JsonView::Bool(false));
    let b = or_field(a, "after_truncated"@, JsonView::Bool(false));
    let c = or_field(b, "max_files"@, number_json(0));
    let d = or_field(c, "max_bytes"@, number_json(0));
    let e = or_field(d, "observed_change"@, JsonView::Bool(says_changed(d)));
    or_field(e, "comparison_complete"@, JsonView::Bool(true))
}

pub open spec fn cache_migrated(value: JsonView, stats: MigrationStats, version: u32) -> Result<
    (JsonView, MigrationStats),
    Seq<char>,
> {
    match value {
        JsonView::Object(fields) => {
            let missing = missing_bounds(fields, 6);
            if missing.len() == 0 {
                Ok((value, stats))
            } else if version >= 4 {
                Err(malformed_cache_text(version, missing))
            } else {
                Ok(
                    (
                        JsonView::Object(bounded_cache(fields)),
                        MigrationStats {
                            legacy_cache_summaries_migrated: one_more(
                                stats.legacy_cache_summaries_migrated,
                            ),
                            ..stats
                        },
                    ),
                )
            }
        },
        _ => Err("dependency cache summary must be a JSON object"@),
    }
}

fn migrate_cache(value: Json, stats: &mut MigrationStats, version: u32) -> (r: Result<Json, String>)
    ensures
        gives(cache_migrated(view_json(value), *old(stats), version), r, *final(stats)),
{
    let mut fields = match value {
        Json::Object(fields) => fields,
        _ => {
            return Err("dependency cache summary must be a JSON object".to_owned());
        },
    };
    proof {
        lemma_view_object(fields);
    }
    let missing = list_missing_bounds(&fields);
    if missing.len() > 0 {
        if version >= 4 {
            return Err(show_malformed_cache(version, &missing));
        }
        insert_missing(&mut fields, "before_truncated", Json::Bool(false));
        insert_missing(&mut fields, "after_truncated", Json::Bool(false));
        insert_missing(&mut fields, "max_files", number(0));
        insert_missing(&mut fields, "max_bytes", number(0));
        let changed = reads_changed(&fields);
        insert_missing(&mut fields, "observed_change", Json::Bool(changed));
        insert_missing(&mut fields, "comparison_complete", Json::Bool(true));
        stats.legacy_cache_summaries_migrated = count_one(stats.legacy_cache_summaries_migrated);
    }
    proof {
        lemma_view_object(fields);
    }
    Ok(Json::Object(fields))
}

/// The first `n` cache summaries of a build document.
pub open spec fn caches_migrated(items: Seq<JsonView>, stats: MigrationStats, version: u32, n: int) -> Result<
    (Seq<JsonView>, MigrationStats),
    Seq<char>,
>
    decreases n,
{
    if n <= 0 {
        Ok((Seq::empty(), stats))
    } else {
        match caches_migrated(items, stats, version, n - 1) {
            Ok((done, stats)) => match cache_migrated(items[n - 1], stats, version) {
                Ok((item, stats)) => Ok((done.push(item), stats)),
                Err(message) => Err(message),
            },
            Err(message) => Err(message),
        }
    }
}

proof fn lemma_caches_migrated_fails(items: Seq<JsonView>, stats: MigrationStats, version: u32, n: int, m: int)
    requires
        0 <= n <= m,
        caches_migrated(items, stats, version, n) is Err,
    ensures
        caches_migrated(items, stats, version, m) == caches_migrated(items, stats, version, n),
    decreases m - n,
{
    if n < m {
        lemma_caches_migrated_fails(items, stats, version, n, m - 1);
    }
}

fn migrate_caches(items: Vec<Json>, stats: &mut MigrationStats, version: u32) -> (r: Result<Vec<Json>, String>)
    ensures
        match caches_migrated(items.deep_view(), *old(stats), version, items@.len() as int) {
            Ok((done, counted)) => r is Ok && r->Ok_0.deep_view() == done && *final(stats) == counted,
            Err(message) => r is Err && r->Err_0@ == message,
        },
{
    let ghost all = items.deep_view();
    let ghost first = *stats;
    let mut rest = items;
    let mut done: Vec<Json> = Vec::new();
    let ghost mut n: int = 0;
    assert(done.deep_view() =~= Seq::<JsonView>::empty());
    while rest.len() > 0
        invariant
            first == *old(stats),
            0 <= n,
            n + rest@.len() == all.len(),
            all == items.deep_view(),
            forall|k: int| 0 <= k < rest@.len() ==> view_json(#[trigger] rest@[k]) == all[n + k],
            caches_migrated(all, first, version, n) == Ok::<_, Seq<char>>((done.deep_view(), *stats)),
        decreases rest.len(),
    {
        assert(view_json(rest@[0]) == all[n + 0]);
        let ghost had = rest@;
        let item = rest.remove(0);
        assert forall|k: int| 0 <= k < rest@.len() implies view_json(#[trigger] rest@[k]) == all[n + 1
            + k] by {
            assert(rest@[k] == had[k + 1]);
            assert(view_json(had[k + 1]) == all[n + (k + 1)]);
        }
        let ghost counted = *stats;
        let ghost held = view_json(item);
        match migrate_cache(item, stats, version) {
            Ok(item) => {
                let ghost before = done.deep_view();
                let ghost view = view_json(item);
                done.push(item);
                assert(done.deep_view() =~= before.push(view));
                proof {
                    n = n + 1;
                }
            },
            Err(message) => {
                proof {
                    assert(caches_migrated(all, first, version, n + 1) is Err);
                    lemma_caches_migrated_fails(all, first, version, n + 1, all.len() as int);
                }
                return Err(message);
            },
        }
    }
    Ok(done)
}


/// The dependency provenance of a build, with bounds in its cache summaries.
pub open spec fn provenance_migrated(value: JsonView, stats: MigrationStats, version: u32) -> Result<
    (JsonView, MigrationStats),
    Seq<char>,
> {
    match value {
        JsonView::Object(fields) => match field_at(fields, "cache_summaries"@) {
            None => Ok((value, stats)),
            Some(JsonView::List(items)) => match caches_migrated(
                items,
                stats,
                version,
                items.len() as int,
            ) {
                Ok((done, counted)) => Ok(
                    (
                        JsonView::Object(
                            with_field(fields, "cache_summaries"@, JsonView::List(done)),
                        ),
                        counted,
                    ),
                ),
                Err(message) => Err(message),
            },
            Some(_) => Err("runtime dependency cache_summaries must be an array"@),
        },
        _ => Err("runtime_dependency_provenance must be an object"@),
    }
}

/// Takes a field out of an object.
fn take_field(fields: &mut Vec<(String, Json)>, i: usize) -> (r: Json)
    requires
        i < old(fields)@.len(),
    ensures
        view_json(r) == view_fields(old(fields)@)[i as int].1,
        final(fields)@ == old(fields)@.remove(i as int),
{
    let (_, value) = fields.remove(i);
    value
}

/// Puts a field back where it was taken out.
fn put_field(fields: &mut Vec<(String, Json)>, i: usize, name: &str, value: Json, Ghost(had): Ghost<Fields>)
    requires
        i <= old(fields)@.len(),
        had.len() == old(fields)@.len() + 1,
        view_fields(old(fields)@) == had.remove(i as int),
        index_from(had, name@, 0) == Some(i as int),
    ensures
        view_fields(final(fields)@) == with_field(had, name@, view_json(value)),
{
    let entry = (name.to_owned(), value);
    let ghost less = view_fields(fields@);
    fields.insert(i, entry);
    assert(view_fields(fields@) =~= less.insert(i as int, (name@, view_json(value))));
    assert(had.remove(i as int).insert(i as int, (name@, view_json(value))) =~= had.update(
        i as int,
        (name@, view_json(value)),
    ));
}

fn migrate_runtime_dependency_provenance(value: Json, stats: &mut MigrationStats, version: u32) -> (r:
    Result<Json, String>)
    ensures
        gives(provenance_migrated(view_json(value), *old(stats), version), r, *final(stats)),
{
    let mut fields = match value {
        Json::Object(fields) => fields,
        _ => {
            return Err("runtime_dependency_provenance must be an object".to_owned());
        },
    };
    let ghost had = view_fields(fields@);
    proof {
        lemma_view_object(fields);
    }
    match position(&fields, "cache_summaries") {
        None => {},
        Some(i) => {
            let caches = take_field(&mut fields, i);
            assert(view_fields(fields@) =~= had.remove(i as int));
            match caches {
                Json::List(items) => {
                    proof {
                        lemma_view_list(items);
                    }
                    match migrate_caches(items, stats, version) {
                        Ok(done) => {
                            proof {
                                lemma_view_list(done);
                            }
                            put_field(
                                &mut fields,
                                i,
                                "cache_summaries",
                                Json::List(done),
                                Ghost(had),
                            );
                        },
                        Err(message) => {
                            return Err(message);
                        },
                    }
                },
                _ => {
                    return Err("runtime dependency cache_summaries must be an array".to_owned());
                },
            }
        },
    }
    proof {
        lemma_view_object(fields);
    }
    Ok(Json::Object(fields))
}

/// The fields with the identity of two logs that are kept whole.
pub open spec fn with_log_identity(fields: Fields, stdout: Seq<char>, stderr: Seq<char>) -> Fields {
    let out = encode_utf8(stdout);
    let err = encode_utf8(stderr);
    let a = with_field(fields, "log_capture_max_bytes"@, number_json(0));
    let b = with_field(a, "stdout_sha256"@, JsonView::Text(digest_text(out)));
    let c = with_field(b, "stderr_sha256"@, JsonView::Text(digest_text(err)));
    let d = with_field(c, "stdout_bytes"@, number_json(out.len() as int));
    let e = with_field(d, "stderr_bytes"@, number_json(err.len() as int));
    let f = with_field(e, "stdout_truncated"@, JsonView::Bool(false));
    with_field(f, "stderr_truncated"@, JsonView::Bool(false))
}

/// The fields of a document of an earlier version with the identity of its logs.
pub open spec fn identified(fields: Fields, stats: MigrationStats, version: u32) -> Parts {
    if version >= 10 {
        Ok((fields, stats))
    } else {
        match (text_in(field_at(fields, "stdout"@)), text_in(field_at(fields, "stderr"@))) {
            (None, _) => Err("legacy build evidence is missing stdout text"@),
            (_, None) => Err("legacy build evidence is missing stderr text"@),
            (Some(stdout), Some(stderr)) => Ok(
                (
                    with_log_identity(fields, stdout, stderr),
                    MigrationStats {
                        derived_legacy_log_digests: one_more(stats.derived_legacy_log_digests),
                        ..stats
                    },
                ),
            ),
        }
    }
}

fn insert_log_identity(fields: &mut Vec<(String, Json)>, stdout: &String, stderr: &String)
    ensures
        view_fields(final(fields)@) == with_log_identity(
            view_fields(old(fields)@),
            stdout@,
            stderr@,
        ),
{
    let out = stdout.as_str().as_bytes();
    let err = stderr.as_str().as_bytes();
    insert_field(fields, "log_capture_max_bytes", number(0));
    insert_field(fields, "stdout_sha256", Json::Text(sha256_bytes(out)));
    insert_field(fields, "stderr_sha256", Json::Text(sha256_bytes(err)));
    insert_field(fields, "stdout_bytes", number(out.len() as u64));
    insert_field(fields, "stderr_bytes", number(err.len() as u64));
    insert_field(fields, "stdout_truncated", Json::Bool(false));
    insert_field(fields, "stderr_truncated", Json::Bool(false));
}

fn identify_logs(fields: Vec<(String, Json)>, stats: &mut MigrationStats, version: u32) -> (r: Result<
    Vec<(String, Json)>,
    String,
>)
    ensures
        keeps(identified(view_fields(fields@), *old(stats), version), r, *final(stats)),
{
    let mut fields = fields;
    if version >= 10 {
        return Ok(fields);
    }
    let stdout = match text_of_json(find_field(&fields, "stdout")) {
        Some(text) => text.clone(),
        None => {
            return Err("legacy build evidence is missing stdout text".to_owned());
        },
    };
    let stderr = match text_of_json(find_field(&fields, "stderr")) {
        Some(text) => text.clone(),
        None => {
            return Err("legacy build evidence is missing stderr text".to_owned());
        },
    };
    insert_log_identity(&mut fields, &stdout, &stderr);
    stats.derived_legacy_log_digests = count_one(stats.derived_legacy_log_digests);
    Ok(fields)
}

/// The fields and the counts in the course of a change, or what is wrong.
pub type Parts = Result<(Fields, MigrationStats), Seq<char>>;

pub open spec fn keeps(
    wanted: Parts,
    r: Result<Vec<(String, Json)>, String>,
    stats: MigrationStats,
) -> bool {
    match wanted {
        Ok((fields, counted)) => r is Ok && view_fields(r->Ok_0@) == fields && stats == counted,
        Err(message) => r is Err && r->Err_0@ == message,
    }
}

pub open spec fn whole(parts: Parts) -> Result<(JsonView, MigrationStats), Seq<char>> {
    match parts {
        Ok((fields, stats)) => Ok((JsonView::Object(fields), stats)),
        Err(message) => Err(message),
    }
}

/// The fields with a new version.
pub open spec fn versioned(parts: Parts, version: u32) -> Parts {
    match parts {
        Ok((fields, stats)) => Ok(
            (with_field(fields, "schema_version"@, number_json(version as int)), stats),
        ),
        Err(message) => Err(message),
    }
}

/// The fields of a build document with bounds in the cache summaries.
pub open spec fn with_provenance(fields: Fields, stats: MigrationStats, version: u32) -> Parts {
    match field_at(fields, "runtime_dependency_provenance"@) {
        None => Ok((fields, stats)),
        Some(value) => match provenance_migrated(value, stats, version) {
            Ok((done, counted)) => Ok(
                (with_field(fields, "runtime_dependency_provenance"@, done), counted),
            ),
            Err(message) => Err(message),
        },
    }
}

fn migrate_provenance_field(fields: Vec<(String, Json)>, stats: &mut MigrationStats, version: u32) -> (r:
    Result<Vec<(String, Json)>, String>)
    ensures
        keeps(with_provenance(view_fields(fields@), *old(stats), version), r, *final(stats)),
{
    let mut fields = fields;
    let ghost had = view_fields(fields@);
    match position(&fields, "runtime_dependency_provenance") {
        None => {},
        Some(i) => {
            let value = take_field(&mut fields, i);
            assert(view_fields(fields@) =~= had.remove(i as int));
            match migrate_runtime_dependency_provenance(value, stats, version) {
                Ok(done) => {
                    put_field(
                        &mut fields,
                        i,
                        "runtime_dependency_provenance",
                        done,
                        Ghost(had),
                    );
                },
                Err(message) => {
                    return Err(message);
                },
            }
        },
    }
    Ok(fields)
}

/// The fields of a build document of a version, brought to the current one.
pub open spec fn build_fields(fields: Fields, stats: MigrationStats, kind: EvidenceKind) -> Parts {
    match accepted_version(fields, kind) {
        Err(message) => Err(message),
        Ok(version) => match shape_problem(fields, kind, version, 0) {
            Some(message) => Err(message),
            None => {
                let counted = if version < BUILD_EVIDENCE_SCHEMA_CURRENT {
                    MigrationStats {
                        build_documents_migrated: one_more(stats.build_documents_migrated),
                        ..stats
                    }
                } else {
                    stats
                };
                match with_provenance(fields, counted, version) {
                    Err(message) => Err(message),
                    Ok((fields, counted)) => versioned(
                        identified(fields, counted, version),
                        BUILD_EVIDENCE_SCHEMA_CURRENT,
                    ),
                }
            },
        },
    }
}

/// A build document of the current version.
pub open spec fn build_migrated(value: JsonView, stats: MigrationStats, kind: EvidenceKind) -> Result<
    (JsonView, MigrationStats),
    Seq<char>,
> {
    match value {
        JsonView::Object(fields) => match build_fields(fields, stats, kind) {
            Ok((fields, counted)) => if kind is BuildRun && !has_field(fields, "artifacts"@) {
                Err("build run is missing artifacts"@)
            } else {
                Ok((JsonView::Object(fields), counted))
            },
            Err(message) => Err(message),
        },
        _ => Err(no_version_text(kind_label(kind))),
    }
}

fn migrate_build_common(fields: Vec<(String, Json)>, stats: &mut MigrationStats, kind: EvidenceKind) -> (r:
    Result<Vec<(String, Json)>, String>)
    ensures
        keeps(build_fields(view_fields(fields@), *old(stats), kind), r, *final(stats)),
{
    let version: u32 = match accept_version(&fields, kind) {
        Ok(version) => version,
        Err(message) => {
            return Err(message);
        },
    };
    match validate_build_shape_for_version(&fields, kind, version) {
        Ok(_) => {},
        Err(message) => {
            return Err(message);
        },
    }
    if version < BUILD_EVIDENCE_SCHEMA_CURRENT {
        stats.build_documents_migrated = count_one(stats.build_documents_migrated);
    }
    let fields = match migrate_provenance_field(fields, stats, version) {
        Ok(fields) => fields,
        Err(message) => {
            return Err(message);
        },
    };
    let mut fields = match identify_logs(fields, stats, version) {
        Ok(fields) => fields,
        Err(message) => {
            return Err(message);
        },
    };
    insert_field(&mut fields, "schema_version", number(BUILD_EVIDENCE_SCHEMA_CURRENT as u64));
    Ok(fields)
}

fn migrate_build(value: Json, stats: &mut MigrationStats, kind: EvidenceKind) -> (r: Result<Json, String>)
    ensures
        gives(build_migrated(view_json(value), *old(stats), kind), r, *final(stats)),
{
    let fields = match value {
        Json::Object(fields) => fields,
        _ => {
            return Err(show_no_version(kind.label()));
        },
    };
    proof {
        lemma_view_object(fields);
    }
    let fields = match migrate_build_common(fields, stats, kind) {
        Ok(fields) => fields,
        Err(message) => {
            return Err(message);
        },
    };
    if kind == EvidenceKind::BuildRun && !contains_field(&fields, "artifacts") {
        return Err("build run is missing artifacts".to_owned());
    }
    proof {
        lemma_view_object(fields);
    }
    Ok(Json::Object(fields))
}

pub fn migrate_build_run(value: Json, stats: &mut MigrationStats) -> (r: Result<Json, String>)
    ensures
        gives(
            build_migrated(view_json(value), *old(stats), EvidenceKind::BuildRun),
            r,
            *final(stats),
        ),
{
    migrate_build(value, stats, EvidenceKind::BuildRun)
}

pub fn migrate_build_failure(value: Json, stats: &mut MigrationStats) -> (r: Result<Json, String>)
    ensures
        gives(
            build_migrated(view_json(value), *old(stats), EvidenceKind::BuildFailure),
            r,
            *final(stats),
        ),
{
    migrate_build(value, stats, EvidenceKind::BuildFailure)
}

/// The first `n` build documents of a list.
pub open spec fn builds_migrated(items: Seq<JsonView>, stats: MigrationStats, kind: EvidenceKind, n: int) -> Result<
    (Seq<JsonView>, MigrationStats),
    Seq<char>,
>
    decreases n,
{
    if n <= 0 {
        Ok((Seq::empty(), stats))
    } else {
        match builds_migrated(items, stats, kind, n - 1) {
            Ok((done, stats)) => match build_migrated(items[n - 1], stats, kind) {
                Ok((item, stats)) => Ok((done.push(item), stats)),
                Err(message) => Err(message),
            },
            Err(message) => Err(message),
        }
    }
}

proof fn lemma_builds_migrated_fails(items: Seq<JsonView>, stats: MigrationStats, kind: EvidenceKind, n: int, m: int)
    requires
        0 <= n <= m,
        builds_migrated(items, stats, kind, n) is Err,
    ensures
        builds_migrated(items, stats, kind, m) == builds_migrated(items, stats, kind, n),
    decreases m - n,
{
    if n < m {
        lemma_builds_migrated_fails(items, stats, kind, n, m - 1);
    }
}

fn migrate_builds(items: Vec<Json>, stats: &mut MigrationStats, kind: EvidenceKind) -> (r: Result<Vec<Json>, String>)
    ensures
        match builds_migrated(items.deep_view(), *old(stats), kind, items@.len() as int) {
            Ok((done, counted)) => r is Ok && r->Ok_0.deep_view() == done && *final(stats) == counted,
            Err(message) => r is Err && r->Err_0@ == message,
        },
{
    let ghost all = items.deep_view();
    let ghost first = *stats;
    let mut rest = items;
    let mut done: Vec<Json> = Vec::new();
    let ghost mut n: int = 0;
    assert(done.deep_view() =~= Seq::<JsonView>::empty());
    while rest.len() > 0
        invariant
            first == *old(stats),
            0 <= n,
            n + rest@.len() == all.len(),
            all == items.deep_view(),
            forall|k: int| 0 <= k < rest@.len() ==> view_json(#[trigger] rest@[k]) == all[n + k],
            builds_migrated(all, first, kind, n) == Ok::<_, Seq<char>>((done.deep_view(), *stats)),
        decreases rest.len(),
    {
        assert(view_json(rest@[0]) == all[n + 0]);
        let ghost had = rest@;
        let item = rest.remove(0);
        assert forall|k: int| 0 <= k < rest@.len() implies view_json(#[trigger] rest@[k]) == all[n + 1
            + k] by {
            assert(rest@[k] == had[k + 1]);
            assert(view_json(had[k + 1]) == all[n + (k + 1)]);
        }
        let ghost counted = *stats;
        let ghost held = view_json(item);
        match migrate_build(item, stats, kind) {
            Ok(item) => {
                let ghost before = done.deep_view();
                let ghost view = view_json(item);
                done.push(item);
                assert(done.deep_view() =~= before.push(view));
                proof {
                    n = n + 1;
                }
            },
            Err(message) => {
                proof {
                    assert(builds_migrated(all, first, kind, n + 1) is Err);
                    lemma_builds_migrated_fails(all, first, kind, n + 1, all.len() as int);
                }
                return Err(message);
            },
        }
    }
    Ok(done)
}


/// What a field of a report holds.
#[derive(Debug, Clone, Copy, PartialEq, Eq, Structural)]
pub enum PartShape {
    Runs,
    Failures,
    OptionalRun,
    OptionalFailure,
}

pub open spec fn shape_kind(shape: PartShape) -> EvidenceKind {
    match shape {
        PartShape::Runs | PartShape::OptionalRun => EvidenceKind::BuildRun,
        PartShape::Failures | PartShape::OptionalFailure => EvidenceKind::BuildFailure,
    }
}

pub open spec fn not_an_array_text(context: Seq<char>) -> Seq<char> {
    context + " must be an array"@
}

pub fn show_not_an_array(context: &str) -> (r: String)
    ensures
        r@ == not_an_array_text(context@),
{
    concat(context, " must be an array")
}

/// The value of such a field with build documents of the current version.
pub open spec fn shape_migrated(
    value: JsonView,
    stats: MigrationStats,
    shape: PartShape,
    context: Seq<char>,
) -> Result<(JsonView, MigrationStats), Seq<char>> {
    match shape {
        PartShape::Runs | PartShape::Failures => match value {
            JsonView::List(items) => match builds_migrated(
                items,
                stats,
                shape_kind(shape),
                items.len() as int,
            ) {
                Ok((done, counted)) => Ok((JsonView::List(done), counted)),
                Err(message) => Err(message),
            },
            _ => Err(not_an_array_text(context)),
        },
        PartShape::OptionalRun | PartShape::OptionalFailure => match value {
            JsonView::Null => Ok((value, stats)),
            _ => build_migrated(value, stats, shape_kind(shape)),
        },
    }
}

/// The next field in the course of a change.
pub open spec fn part(parts: Parts, name: Seq<char>, shape: PartShape, context: Seq<char>) -> Parts {
    match parts {
        Ok((fields, stats)) => match field_at(fields, name) {
            None => Ok((fields, stats)),
            Some(value) => match shape_migrated(value, stats, shape, context) {
                Ok((done, counted)) => Ok((with_field(fields, name, done), counted)),
                Err(message) => Err(message),
            },
        },
        Err(message) => Err(message),
    }
}

fn migrate_shape(value: Json, stats: &mut MigrationStats, shape: PartShape, context: &str) -> (r: Result<
    Json,
    String,
>)
    ensures
        gives(shape_migrated(view_json(value), *old(stats), shape, context@), r, *final(stats)),
{
    let kind = match shape {
        PartShape::Runs | PartShape::OptionalRun => EvidenceKind::BuildRun,
        PartShape::Failures | PartShape::OptionalFailure => EvidenceKind::BuildFailure,
    };
    match shape {
        PartShape::Runs | PartShape::Failures => match value {
            Json::List(items) => {
                proof {
                    lemma_view_list(items);
                }
                match migrate_builds(items, stats, kind) {
                    Ok(done) => {
                        proof {
                            lemma_view_list(done);
                        }
                        Ok(Json::List(done))
                    },
                    Err(message) => Err(message),
                }
            },
            _ => Err(show_not_an_array(context)),
        },
        PartShape::OptionalRun | PartShape::OptionalFailure => match value {
            Json::Null => Ok(value),
            _ => migrate_build(value, stats, kind),
        },
    }
}

fn migrate_part(
    fields: Vec<(String, Json)>,
    stats: &mut MigrationStats,
    name: &str,
    shape: PartShape,
    context: &str,
) -> (r: Result<Vec<(String, Json)>, String>)
    ensures
        keeps(
            part(Ok((view_fields(fields@), *old(stats))), name@, shape, context@),
            r,
            *final(stats),
        ),
{
    let mut fields = fields;
    let ghost had = view_fields(fields@);
    match position(&fields, name) {
        None => {},
        Some(i) => {
            let value = take_field(&mut fields, i);
            assert(view_fields(fields@) =~= had.remove(i as int));
            match migrate_shape(value, stats, shape, context) {
                Ok(done) => {
                    put_field(&mut fields, i, name, done, Ghost(had));
                },
                Err(message) => {
                    return Err(message);
                },
            }
        },
    }
    Ok(fields)
}

/// An intervention result whose build documents have the current version.
pub open spec fn intervention_migrated(value: JsonView, stats: MigrationStats) -> Result<
    (JsonView, MigrationStats),
    Seq<char>,
> {
    match value {
        JsonView::Object(fields) => whole(intervention_migrated_fields(fields, stats)),
        _ => Err("intervention result must be a JSON object"@),
    }
}

pub open spec fn intervention_migrated_fields(fields: Fields, stats: MigrationStats) -> Parts {
    let s1 = part(Ok((fields, stats)), "runs"@, PartShape::Runs, "intervention runs"@);
    let s2 = part(s1, "reference_runs"@, PartShape::Runs, "stochastic reference runs"@);
    let s3 = part(s2, "build_failures"@, PartShape::Failures, "intervention build failures"@);
    let s4 = part(s3, "confirmation_run"@, PartShape::OptionalRun, ""@);
    s4
}

fn migrate_intervention(value: Json, stats: &mut MigrationStats) -> (r: Result<Json, String>)
    ensures
        gives(intervention_migrated(view_json(value), *old(stats)), r, *final(stats)),
{
    let fields = match value {
        Json::Object(fields) => fields,
        _ => {
            return Err("intervention result must be a JSON object".to_owned());
        },
    };
    proof {
        lemma_view_object(fields);
    }
    let fields = match migrate_part(fields, stats, "runs", PartShape::Runs, "intervention runs") {
        Ok(fields) => fields,
        Err(message) => {
            return Err(message);
        },
    };
    let fields = match migrate_part(fields, stats, "reference_runs", PartShape::Runs, "stochastic reference runs") {
        Ok(fields) => fields,
        Err(message) => {
            return Err(message);
        },
    };
    let fields = match migrate_part(fields, stats, "build_failures", PartShape::Failures, "intervention build failures") {
        Ok(fields) => fields,
        Err(message) => {
            return Err(message);
        },
    };
    let fields = match migrate_part(fields, stats, "confirmation_run", PartShape::OptionalRun, "") {
        Ok(fields) => fields,
        Err(message) => {
            return Err(message);
        },
    };
    proof {
        lemma_view_object(fields);
    }
    Ok(Json::Object(fields))
}


/// The first `n` intervention results of a report.
pub open spec fn interventions_migrated(items: Seq<JsonView>, stats: MigrationStats, n: int) -> Result<
    (Seq<JsonView>, MigrationStats),
    Seq<char>,
>
    decreases n,
{
    if n <= 0 {
        Ok((Seq::empty(), stats))
    } else {
        match interventions_migrated(items, stats, n - 1) {
            Ok((done, stats)) => match intervention_migrated(items[n - 1], stats) {
                Ok((item, stats)) => Ok((done.push(item), stats)),
                Err(message) => Err(message),
            },
            Err(message) => Err(message),
        }
    }
}

proof fn lemma_interventions_migrated_fails(items: Seq<JsonView>, stats: MigrationStats, n: int, m: int)
    requires
        0 <= n <= m,
        interventions_migrated(items, stats, n) is Err,
    ensures
        interventions_migrated(items, stats, m) == interventions_migrated(items, stats, n),
    decreases m - n,
{
    if n < m {
        lemma_interventions_migrated_fails(items, stats, n, m - 1);
    }
}

fn migrate_interventions(items: Vec<Json>, stats: &mut MigrationStats) -> (r: Result<Vec<Json>, String>)
    ensures
        match interventions_migrated(items.deep_view(), *old(stats), items@.len() as int) {
            Ok((done, counted)) => r is Ok && r->Ok_0.deep_view() == done && *final(stats) == counted,
            Err(message) => r is Err && r->Err_0@ == message,
        },
{
    let ghost all = items.deep_view();
    let ghost first = *stats;
    let mut rest = items;
    let mut done: Vec<Json> = Vec::new();
    let ghost mut n: int = 0;
    assert(done.deep_view() =~= Seq::<JsonView>::empty());
    while rest.len() > 0
        invariant
            first == *old(stats),
            0 <= n,
            n + rest@.len() == all.len(),
            all == items.deep_view(),
            forall|k: int| 0 <= k < rest@.len() ==> view_json(#[trigger] rest@[k]) == all[n + k],
            interventions_migrated(all, first, n) == Ok::<_, Seq<char>>((done.deep_view(), *stats)),
        decreases rest.len(),
    {
        assert(view_json(rest@[0]) == all[n + 0]);
        let ghost had = rest@;
        let item = rest.remove(0);
        assert forall|k: int| 0 <= k < rest@.len() implies view_json(#[trigger] rest@[k]) == all[n + 1
            + k] by {
            assert(rest@[k] == had[k + 1]);
            assert(view_json(had[k + 1]) == all[n + (k + 1)]);
        }
        let ghost counted = *stats;
        let ghost held = view_json(item);
        match migrate_intervention(item, stats) {
            Ok(item) => {
                let ghost before = done.deep_view();
                let ghost view = view_json(item);
                done.push(item);
                assert(done.deep_view() =~= before.push(view));
                proof {
                    n = n + 1;
                }
            },
            Err(message) => {
                proof {
                    assert(interventions_migrated(all, first, n + 1) is Err);
                    lemma_interventions_migrated_fails(all, first, n + 1, all.len() as int);
                }
                return Err(message);
            },
        }
    }
    Ok(done)
}


/// An interaction search whose build documents have the current version.
pub open spec fn search_migrated(value: JsonView, stats: MigrationStats) -> Result<
    (JsonView, MigrationStats),
    Seq<char>,
> {
    match value {
        JsonView::Object(fields) => whole(search_migrated_fields(fields, stats)),
        _ => Err("interaction search must be a JSON object"@),
    }
}

pub open spec fn search_migrated_fields(fields: Fields, stats: MigrationStats) -> Parts {
    let s1 = part(Ok((fields, stats)), "runs"@, PartShape::Runs, "interaction runs"@);
    let s2 = part(s1, "confirmation_run"@, PartShape::OptionalRun, ""@);
    s2
}

fn migrate_search(value: Json, stats: &mut MigrationStats) -> (r: Result<Json, String>)
    ensures
        gives(search_migrated(view_json(value), *old(stats)), r, *final(stats)),
{
    let fields = match value {
        Json::Object(fields) => fields,
        _ => {
            return Err("interaction search must be a JSON object".to_owned());
        },
    };
    proof {
        lemma_view_object(fields);
    }
    let fields = match migrate_part(fields, stats, "runs", PartShape::Runs, "interaction runs") {
        Ok(fields) => fields,
        Err(message) => {
            return Err(message);
        },
    };
    let fields = match migrate_part(fields, stats, "confirmation_run", PartShape::OptionalRun, "") {
        Ok(fields) => fields,
        Err(message) => {
            return Err(message);
        },
    };
    proof {
        lemma_view_object(fields);
    }
    Ok(Json::Object(fields))
}


/// The fields of a report with interventions whose build documents are of the current version.
pub open spec fn with_interventions(parts: Parts) -> Parts {
    match parts {
        Ok((fields, stats)) => match field_at(fields, "interventions"@) {
            Some(JsonView::List(items)) => match interventions_migrated(
                items,
                stats,
                items.len() as int,
            ) {
                Ok((done, counted)) => Ok(
                    (with_field(fields, "interventions"@, JsonView::List(done)), counted),
                ),
                Err(message) => Err(message),
            },
            _ => Ok((fields, stats)),
        },
        Err(message) => Err(message),
    }
}

fn migrate_intervention_field(fields: Vec<(String, Json)>, stats: &mut MigrationStats) -> (r: Result<
    Vec<(String, Json)>,
    String,
>)
    ensures
        keeps(
            with_interventions(Ok((view_fields(fields@), *old(stats)))),
            r,
            *final(stats),
        ),
{
    let mut fields = fields;
    let ghost had = view_fields(fields@);
    match position(&fields, "interventions") {
        None => {},
        Some(i) => {
            let value = take_field(&mut fields, i);
            assert(view_fields(fields@) =~= had.remove(i as int));
            let done = match value {
                Json::List(items) => {
                    proof {
                        lemma_view_list(items);
                    }
                    match migrate_interventions(items, stats) {
                        Ok(done) => {
                            proof {
                                lemma_view_list(done);
                            }
                            Json::List(done)
                        },
                        Err(message) => {
                            return Err(message);
                        },
                    }
                },
                other => other,
            };
            put_field(&mut fields, i, "interventions", done, Ghost(had));
            proof {
                lemma_index_from(had, "interventions"@, 0);
            }
            assert(had.update(i as int, ("interventions"@, had[i as int].1)) =~= had);
        },
    }
    Ok(fields)
}

/// The fields of a report with a search whose build documents are of the current version.
pub open spec fn with_search(parts: Parts) -> Parts {
    match parts {
        Ok((fields, stats)) => match field_at(fields, "interaction_search"@) {
            None => Ok((fields, stats)),
            Some(JsonView::Null) => Ok((fields, stats)),
            Some(value) => match search_migrated(value, stats) {
                Ok((done, counted)) => Ok(
                    (with_field(fields, "interaction_search"@, done), counted),
                ),
                Err(message) => Err(message),
            },
        },
        Err(message) => Err(message),
    }
}

fn migrate_search_field(fields: Vec<(String, Json)>, stats: &mut MigrationStats) -> (r: Result<
    Vec<(String, Json)>,
    String,
>)
    ensures
        keeps(with_search(Ok((view_fields(fields@), *old(stats)))), r, *final(stats)),
{
    let mut fields = fields;
    let ghost had = view_fields(fields@);
    match position(&fields, "interaction_search") {
        None => {},
        Some(i) => {
            let value = take_field(&mut fields, i);
            assert(view_fields(fields@) =~= had.remove(i as int));
            let done = match value {
                Json::Null => Json::Null,
                other => match migrate_search(other, stats) {
                    Ok(done) => done,
                    Err(message) => {
                        return Err(message);
                    },
                },
            };
            put_field(&mut fields, i, "interaction_search", done, Ghost(had));
            proof {
                lemma_index_from(had, "interaction_search"@, 0);
            }
            assert(had.update(i as int, ("interaction_search"@, had[i as int].1)) =~= had);
        },
    }
    Ok(fields)
}

/// The fields of a check report, brought to the current version.
pub open spec fn check_fields(fields: Fields, stats: MigrationStats) -> Parts {
    match accepted_version(fields, EvidenceKind::CheckReport) {
        Err(message) => Err(message),
        Ok(_) => {
            let s1 = part(
                Ok((fields, stats)),
                "runs"@,
                PartShape::Runs,
                "check report runs"@,
            );
            versioned(with_search(with_interventions(s1)), CHECK_REPORT_SCHEMA_CURRENT)
        },
    }
}

/// A check report of the current version.
pub open spec fn check_migrated(value: JsonView, stats: MigrationStats) -> Result<
    (JsonView, MigrationStats),
    Seq<char>,
> {
    match value {
        JsonView::Object(fields) => whole(check_fields(fields, stats)),
        _ => Err(no_version_text(kind_label(EvidenceKind::CheckReport))),
    }
}

pub fn migrate_check_report(value: Json, stats: &mut MigrationStats) -> (r: Result<Json, String>)
    ensures
        gives(check_migrated(view_json(value), *old(stats)), r, *final(stats)),
{
    let fields = match value {
        Json::Object(fields) => fields,
        _ => {
            return Err(show_no_version(EvidenceKind::CheckReport.label()));
        },
    };
    proof {
        lemma_view_object(fields);
    }
    match accept_version(&fields, EvidenceKind::CheckReport) {
        Ok(_) => {},
        Err(message) => {
            return Err(message);
        },
    }
    let fields = match migrate_part(fields, stats, "runs", PartShape::Runs, "check report runs") {
        Ok(fields) => fields,
        Err(message) => {
            return Err(message);
        },
    };
    let fields = match migrate_intervention_field(fields, stats) {
        Ok(fields) => fields,
        Err(message) => {
            return Err(message);
        },
    };
    let mut fields = match migrate_search_field(fields, stats) {
        Ok(fields) => fields,
        Err(message) => {
            return Err(message);
        },
    };
    insert_field(&mut fields, "schema_version", number(CHECK_REPORT_SCHEMA_CURRENT as u64));
    proof {
        lemma_view_object(fields);
    }
    Ok(Json::Object(fields))
}

/// A verification whose build documents have the current version.
pub open spec fn verification_migrated(value: JsonView, stats: MigrationStats) -> Result<
    (JsonView, MigrationStats),
    Seq<char>,
> {
    match value {
        JsonView::Object(fields) => whole(verification_migrated_fields(fields, stats)),
        _ => Err("fix verification must be a JSON object"@),
    }
}

pub open spec fn verification_migrated_fields(fields: Fields, stats: MigrationStats) -> Parts {
    let s1 = part(Ok((fields, stats)), "baseline_runs"@, PartShape::Runs, "fix baseline runs"@);
    let s2 = part(s1, "intervention_runs"@, PartShape::Runs, "fix intervention runs"@);
    s2
}

fn migrate_verification(value: Json, stats: &mut MigrationStats) -> (r: Result<Json, String>)
    ensures
        gives(verification_migrated(view_json(value), *old(stats)), r, *final(stats)),
{
    let fields = match value {
        Json::Object(fields) => fields,
        _ => {
            return Err("fix verification must be a JSON object".to_owned());
        },
    };
    proof {
        lemma_view_object(fields);
    }
    let fields = match migrate_part(fields, stats, "baseline_runs", PartShape::Runs, "fix baseline runs") {
        Ok(fields) => fields,
        Err(message) => {
            return Err(message);
        },
    };
    let fields = match migrate_part(fields, stats, "intervention_runs", PartShape::Runs, "fix intervention runs") {
        Ok(fields) => fields,
        Err(message) => {
            return Err(message);
        },
    };
    proof {
        lemma_view_object(fields);
    }
    Ok(Json::Object(fields))
}


/// The first `n` verifications of a report.
pub open spec fn verifications_migrated(items: Seq<JsonView>, stats: MigrationStats, n: int) -> Result<
    (Seq<JsonView>, MigrationStats),
    Seq<char>,
>
    decreases n,
{
    if n <= 0 {
        Ok((Seq::empty(), stats))
    } else {
        match verifications_migrated(items, stats, n - 1) {
            Ok((done, stats)) => match verification_migrated(items[n - 1], stats) {
                Ok((item, stats)) => Ok((done.push(item), stats)),
                Err(message) => Err(message),
            },
            Err(message) => Err(message),
        }
    }
}

proof fn lemma_verifications_migrated_fails(items: Seq<JsonView>, stats: MigrationStats, n: int, m: int)
    requires
        0 <= n <= m,
        verifications_migrated(items, stats, n) is Err,
    ensures
        verifications_migrated(items, stats, m) == verifications_migrated(items, stats, n),
    decreases m - n,
{
    if n < m {
        lemma_verifications_migrated_fails(items, stats, n, m - 1);
    }
}

fn migrate_verifications(items: Vec<Json>, stats: &mut MigrationStats) -> (r: Result<Vec<Json>, String>)
    ensures
        match verifications_migrated(items.deep_view(), *old(stats), items@.len() as int) {
            Ok((done, counted)) => r is Ok && r->Ok_0.deep_view() == done && *final(stats) == counted,
            Err(message) => r is Err && r->Err_0@ == message,
        },
{
    let ghost all = items.deep_view();
    let ghost first = *stats;
    let mut rest = items;
    let mut done: Vec<Json> = Vec::new();
    let ghost mut n: int = 0;
    assert(done.deep_view() =~= Seq::<JsonView>::empty());
    while rest.len() > 0
        invariant
            first == *old(stats),
            0 <= n,
            n + rest@.len() == all.len(),
            all == items.deep_view(),
            forall|k: int| 0 <= k < rest@.len() ==> view_json(#[trigger] rest@[k]) == all[n + k],
            verifications_migrated(all, first, n) == Ok::<_, Seq<char>>((done.deep_view(), *stats)),
        decreases rest.len(),
    {
        assert(view_json(rest@[0]) == all[n + 0]);
        let ghost had = rest@;
        let item = rest.remove(0);
        assert forall|k: int| 0 <= k < rest@.len() implies view_json(#[trigger] rest@[k]) == all[n + 1
            + k] by {
            assert(rest@[k] == had[k + 1]);
            assert(view_json(had[k + 1]) == all[n + (k + 1)]);
        }
        let ghost counted = *stats;
        let ghost held = view_json(item);
        match migrate_verification(item, stats) {
            Ok(item) => {
                let ghost before = done.deep_view();
                let ghost view = view_json(item);
                done.push(item);
                assert(done.deep_view() =~= before.push(view));
                proof {
                    n = n + 1;
                }
            },
            Err(message) => {
                proof {
                    assert(verifications_migrated(all, first, n + 1) is Err);
                    lemma_verifications_migrated_fails(all, first, n + 1, all.len() as int);
                }
                return Err(message);
            },
        }
    }
    Ok(done)
}


/// The fields of a fix report with a diagnosis of the current version.
pub open spec fn with_diagnosis(fields: Fields, stats: MigrationStats) -> Parts {
    match field_at(fields, "diagnosis"@) {
        None => Err("fix report is missing diagnosis"@),
        Some(value) => match check_migrated(value, stats) {
            Ok((done, counted)) => Ok((with_field(fields, "diagnosis"@, done), counted)),
            Err(message) => Err(message),
        },
    }
}

fn migrate_diagnosis_field(fields: Vec<(String, Json)>, stats: &mut MigrationStats) -> (r: Result<
    Vec<(String, Json)>,
    String,
>)
    ensures
        keeps(with_diagnosis(view_fields(fields@), *old(stats)), r, *final(stats)),
{
    let mut fields = fields;
    let ghost had = view_fields(fields@);
    match position(&fields, "diagnosis") {
        None => {
            return Err("fix report is missing diagnosis".to_owned());
        },
        Some(i) => {
            let value = take_field(&mut fields, i);
            assert(view_fields(fields@) =~= had.remove(i as int));
            match migrate_check_report(value, stats) {
                Ok(done) => {
                    put_field(&mut fields, i, "diagnosis", done, Ghost(had));
                },
                Err(message) => {
                    return Err(message);
                },
            }
        },
    }
    Ok(fields)
}

/// The fields of a fix report with verifications whose build documents are of the current version.
pub open spec fn with_verifications(parts: Parts) -> Parts {
    match parts {
        Ok((fields, stats)) => match field_at(fields, "verifications"@) {
            Some(JsonView::List(items)) => match verifications_migrated(
                items,
                stats,
                items.len() as int,
            ) {
                Ok((done, counted)) => Ok(
                    (with_field(fields, "verifications"@, JsonView::List(done)), counted),
                ),
                Err(message) => Err(message),
            },
            _ => Ok((fields, stats)),
        },
        Err(message) => Err(message),
    }
}

fn migrate_verification_field(fields: Vec<(String, Json)>, stats: &mut MigrationStats) -> (r: Result<
    Vec<(String, Json)>,
    String,
>)
    ensures
        keeps(
            with_verifications(Ok((view_fields(fields@), *old(stats)))),
            r,
            *final(stats),
        ),
{
    let mut fields = fields;
    let ghost had = view_fields(fields@);
    match position(&fields, "verifications") {
        None => {},
        Some(i) => {
            let value = take_field(&mut fields, i);
            assert(view_fields(fields@) =~= had.remove(i as int));
            let done = match value {
                Json::List(items) => {
                    proof {
                        lemma_view_list(items);
                    }
                    match migrate_verifications(items, stats) {
                        Ok(done) => {
                            proof {
                                lemma_view_list(done);
                            }
                            Json::List(done)
                        },
                        Err(message) => {
                            return Err(message);
                        },
                    }
                },
                other => other,
            };
            put_field(&mut fields, i, "verifications", done, Ghost(had));
            proof {
                lemma_index_from(had, "verifications"@, 0);
            }
            assert(had.update(i as int, ("verifications"@, had[i as int].1)) =~= had);
        },
    }
    Ok(fields)
}

/// The fields of a fix report, brought to the current version.
pub open spec fn fix_fields(fields: Fields, stats: MigrationStats) -> Parts {
    match accepted_version(fields, EvidenceKind::FixReport) {
        Err(message) => Err(message),
        Ok(_) => versioned(
            with_verifications(with_diagnosis(fields, stats)),
            FIX_REPORT_SCHEMA_CURRENT,
        ),
    }
}

/// A fix report of the current version.
pub open spec fn fix_migrated(value: JsonView, stats: MigrationStats) -> Result<
    (JsonView, MigrationStats),
    Seq<char>,
> {
    match value {
        JsonView::Object(fields) => whole(fix_fields(fields, stats)),
        _ => Err(no_version_text(kind_label(EvidenceKind::FixReport))),
    }
}

pub fn migrate_fix_report(value: Json, stats: &mut MigrationStats) -> (r: Result<Json, String>)
    ensures
        gives(fix_migrated(view_json(value), *old(stats)), r, *final(stats)),
{
    let fields = match value {
        Json::Object(fields) => fields,
        _ => {
            return Err(show_no_version(EvidenceKind::FixReport.label()));
        },
    };
    proof {
        lemma_view_object(fields);
    }
    match accept_version(&fields, EvidenceKind::FixReport) {
        Ok(_) => {},
        Err(message) => {
            return Err(message);
        },
    }
    let fields = match migrate_diagnosis_field(fields, stats) {
        Ok(fields) => fields,
        Err(message) => {
            return Err(message);
        },
    };
    let mut fields = match migrate_verification_field(fields, stats) {
        Ok(fields) => fields,
        Err(message) => {
            return Err(message);
        },
    };
    insert_field(&mut fields, "schema_version", number(FIX_REPORT_SCHEMA_CURRENT as u64));
    proof {
        lemma_view_object(fields);
    }
    Ok(Json::Object(fields))
}

/// The fields of an environment comparison with build documents of the current version.
pub open spec fn comparison_parts(fields: Fields, stats: MigrationStats) -> Parts {
    let s1 = part(Ok((fields, stats)), "good_runs"@, PartShape::Runs, "good endpoint runs"@);
    let s2 = part(s1, "good_failures"@, PartShape::Failures, "good endpoint failures"@);
    let s3 = part(s2, "bad_runs"@, PartShape::Runs, "bad endpoint runs"@);
    let s4 = part(s3, "bad_failures"@, PartShape::Failures, "bad endpoint failures"@);
    let s5 = part(s4, "reproduction_runs"@, PartShape::Runs, "comparison reproduction runs"@);
    let s6 = part(s5, "reproduction_failures"@, PartShape::Failures, "comparison reproduction failures"@);
    let s7 = part(s6, "confirmation_run"@, PartShape::OptionalRun, ""@);
    let s8 = part(s7, "confirmation_failure"@, PartShape::OptionalFailure, ""@);
    s8
}

/// The fields of an environment comparison, brought to the current version.
pub open spec fn comparison_fields(fields: Fields, stats: MigrationStats) -> Parts {
    match accepted_version(fields, EvidenceKind::EnvironmentComparisonReport) {
        Err(message) => Err(message),
        Ok(_) => versioned(
            comparison_parts(fields, stats),
            ENVIRONMENT_COMPARISON_SCHEMA_CURRENT,
        ),
    }
}

/// An environment comparison of the current version.
pub open spec fn comparison_migrated(value: JsonView, stats: MigrationStats) -> Result<
    (JsonView, MigrationStats),
    Seq<char>,
> {
    match value {
        JsonView::Object(fields) => whole(comparison_fields(fields, stats)),
        _ => Err(no_version_text(kind_label(EvidenceKind::EnvironmentComparisonReport))),
    }
}

fn migrate_comparison_parts(fields: Vec<(String, Json)>, stats: &mut MigrationStats) -> (r: Result<
    Vec<(String, Json)>,
    String,
>)
    ensures
        keeps(comparison_parts(view_fields(fields@), *old(stats)), r, *final(stats)),
{
    let fields = match migrate_part(fields, stats, "good_runs", PartShape::Runs, "good endpoint runs") {
        Ok(fields) => fields,
        Err(message) => {
            return Err(message);
        },
    };
    let fields = match migrate_part(fields, stats, "good_failures", PartShape::Failures, "good endpoint failures") {
        Ok(fields) => fields,
        Err(message) => {
            return Err(message);
        },
    };
    let fields = match migrate_part(fields, stats, "bad_runs", PartShape::Runs, "bad endpoint runs") {
        Ok(fields) => fields,
        Err(message) => {
            return Err(message);
        },
    };
    let fields = match migrate_part(fields, stats, "bad_failures", PartShape::Failures, "bad endpoint failures") {
        Ok(fields) => fields,
        Err(message) => {
            return Err(message);
        },
    };
    let fields = match migrate_part(fields, stats, "reproduction_runs", PartShape::Runs, "comparison reproduction runs") {
        Ok(fields) => fields,
        Err(message) => {
            return Err(message);
        },
    };
    let fields = match migrate_part(fields, stats, "reproduction_failures", PartShape::Failures, "comparison reproduction failures") {
        Ok(fields) => fields,
        Err(message) => {
            return Err(message);
        },
    };
    let fields = match migrate_part(fields, stats, "confirmation_run", PartShape::OptionalRun, "") {
        Ok(fields) => fields,
        Err(message) => {
            return Err(message);
        },
    };
    let fields = match migrate_part(fields, stats, "confirmation_failure", PartShape::OptionalFailure, "") {
        Ok(fields) => fields,
        Err(message) => {
            return Err(message);
        },
    };
    Ok(fields)
}

pub fn migrate_environment_comparison(value: Json, stats: &mut MigrationStats) -> (r: Result<
    Json,
    String,
>)
    ensures
        gives(comparison_migrated(view_json(value), *old(stats)), r, *final(stats)),
{
    let fields = match value {
        Json::Object(fields) => fields,
        _ => {
            return Err(show_no_version(EvidenceKind::EnvironmentComparisonReport.label()));
        },
    };
    proof {
        lemma_view_object(fields);
    }
    match accept_version(&fields, EvidenceKind::EnvironmentComparisonReport) {
        Ok(_) => {},
        Err(message) => {
            return Err(message);
        },
    }
    let mut fields = match migrate_comparison_parts(fields, stats) {
        Ok(fields) => fields,
        Err(message) => {
            return Err(message);
        },
    };
    insert_field(
        &mut fields,
        "schema_version",
        number(ENVIRONMENT_COMPARISON_SCHEMA_CURRENT as u64),
    );
    proof {
        lemma_view_object(fields);
    }
    Ok(Json::Object(fields))
}

/// A document of some kind, brought to the current version.
pub open spec fn migrated(value: JsonView, kind: EvidenceKind, stats: MigrationStats) -> Result<
    (JsonView, MigrationStats),
    Seq<char>,
> {
    match kind {
        EvidenceKind::CheckReport => check_migrated(value, stats),
        EvidenceKind::BuildRun | EvidenceKind::BuildFailure => build_migrated(value, stats, kind),
        EvidenceKind::FixReport => fix_migrated(value, stats),
        EvidenceKind::EnvironmentComparisonReport => comparison_migrated(value, stats),
    }
}

pub fn migrate(value: Json, kind: EvidenceKind, stats: &mut MigrationStats) -> (r: Result<Json, String>)
    ensures
        gives(migrated(view_json(value), kind, *old(stats)), r, *final(stats)),
{
    match kind {
        EvidenceKind::CheckReport => migrate_check_report(value, stats),
        EvidenceKind::BuildRun => migrate_build_run(value, stats),
        EvidenceKind::BuildFailure => migrate_build_failure(value, stats),
        EvidenceKind::FixReport => migrate_fix_report(value, stats),
        EvidenceKind::EnvironmentComparisonReport => migrate_environment_comparison(value, stats),
    }
}

pub open spec fn normalized_note_text(label: Seq<char>, from: u32, to: u32) -> Seq<char> {
    "normalized "@
        + label
        + " schema "@
        + decimal_of(from as int)
        + " to current schema "@
        + decimal_of(to as int)
}

pub fn show_normalized_note(label: &str, from: u32, to: u32) -> (r: String)
    ensures
        r@ == normalized_note_text(label@, from, to),
{
    let mut text = "normalized ".to_owned();
    text.push_str(label);
    text.push_str(" schema ");
    text.push_str(decimal(from as u128).as_str());
    text.push_str(" to current schema ");
    text.push_str(decimal(to as u128).as_str());
    text
}

pub open spec fn digests_note_text(count: usize) -> Seq<char> {
    "derived legacy log hashes/byte counts from "@
        + decimal_of(count as int)
        + " run/failure record(s) using the complete persisted UTF-8 text; this preserves pre-Phase18 failure identity but cannot recover original non-UTF8 raw stream bytes"@
}

pub fn show_digests_note(count: usize) -> (r: String)
    ensures
        r@ == digests_note_text(count),
{
    concat3(
        "derived legacy log hashes/byte counts from ",
        decimal(count as u128).as_str(),
        " run/failure record(s) using the complete persisted UTF-8 text; this preserves pre-Phase18 failure identity but cannot recover original non-UTF8 raw stream bytes",
    )
}

pub open spec fn caches_note_text(count: usize) -> Seq<char> {
    "migrated "@
        + decimal_of(count as int)
        + " pre-bounded dependency-cache summary record(s); max_files/max_bytes are normalized to 0 to mean unknown historical bounds"@
}

pub fn show_caches_note(count: usize) -> (r: String)
    ensures
        r@ == caches_note_text(count),
{
    concat3(
        "migrated ",
        decimal(count as u128).as_str(),
        " pre-bounded dependency-cache summary record(s); max_files/max_bytes are normalized to 0 to mean unknown historical bounds",
    )
}

pub open spec fn with_summary_notes(
    lines: Seq<Seq<char>>,
    kind: EvidenceKind,
    version: u32,
    stats: MigrationStats,
) -> Seq<Seq<char>> {
    let lines = if version != newest_version(kind) {
        let lines = lines.push(
            normalized_note_text(kind_label(kind), version, newest_version(kind)),
        );
        lines
    } else {
        lines
    };
    let lines = if stats.derived_legacy_log_digests > 0 {
        let lines = lines.push(digests_note_text(stats.derived_legacy_log_digests));
        lines
    } else {
        lines
    };
    let lines = if stats.legacy_cache_summaries_migrated > 0 {
        let lines = lines.push(caches_note_text(stats.legacy_cache_summaries_migrated));
        lines
    } else {
        lines
    };
    lines
}

pub fn push_summary_notes(
    lines: &mut Vec<String>,
    kind: EvidenceKind,
    version: u32,
    stats: MigrationStats,
)
    ensures
        final(lines).deep_view() == with_summary_notes(
            old(lines).deep_view(),
            kind,
            version,
            stats,
        ),
{
    if version != kind.current_schema_version() {
        push_line(
            lines,
            show_normalized_note(kind.label(), version, kind.current_schema_version()).as_str().to_owned(),
        );
    }
    if stats.derived_legacy_log_digests > 0 {
        push_line(lines, show_digests_note(stats.derived_legacy_log_digests).as_str().to_owned());
    }
    if stats.legacy_cache_summaries_migrated > 0 {
        push_line(
            lines,
            show_caches_note(stats.legacy_cache_summaries_migrated).as_str().to_owned(),
        );
    }
}

/// Whether anything had to be changed.
pub open spec fn needed_migration(kind: EvidenceKind, version: u32, stats: MigrationStats) -> bool {
    version != newest_version(kind) || stats.build_documents_migrated > 0
        || stats.derived_legacy_log_digests > 0 || stats.legacy_cache_summaries_migrated > 0
}

/// What is said of a document that was brought to the current version.
pub fn summarize(kind: EvidenceKind, version: u32, stats: MigrationStats) -> (r:
    EvidenceCompatibilitySummary)
    ensures
        r.kind == kind,
        r.source_schema_version == version,
        r.normalized_schema_version == newest_version(kind),
        r.migrated == needed_migration(kind, version, stats),
        r.build_documents_migrated == stats.build_documents_migrated,
        r.derived_legacy_log_digests == stats.derived_legacy_log_digests,
        r.legacy_cache_summaries_migrated == stats.legacy_cache_summaries_migrated,
        r.notes.deep_view() == with_summary_notes(Seq::empty(), kind, version, stats),
{
    let current: u32 = kind.current_schema_version();
    let mut notes: Vec<String> = Vec::new();
    assert(notes.deep_view() =~= Seq::<Seq<char>>::empty());
    push_summary_notes(&mut notes, kind, version, stats);
    EvidenceCompatibilitySummary {
        kind,
        source_schema_version: version,
        normalized_schema_version: current,
        migrated: version != current || stats.build_documents_migrated > 0
            || stats.derived_legacy_log_digests > 0 || stats.legacy_cache_summaries_migrated > 0,
        build_documents_migrated: stats.build_documents_migrated,
        derived_legacy_log_digests: stats.derived_legacy_log_digests,
        legacy_cache_summaries_migrated: stats.legacy_cache_summaries_migrated,
        notes,
    }
}

/// A document of the current version, and what had to be changed for it.
#[derive(Debug, PartialEq)]
pub struct NormalizedEvidence {
    pub summary: EvidenceCompatibilitySummary,
    pub value: Json,
}

pub open spec fn unparsed_text(path: Seq<char>, cause: Seq<char>) -> Seq<char> {
    "cannot parse evidence JSON "@ + path + ": "@ + cause
}

pub fn show_unparsed(path: &str, cause: &str) -> (r: String)
    ensures
        r@ == unparsed_text(path@, cause@),
{
    let mut text = concat3("cannot parse evidence JSON ", path, ": ");
    text.push_str(cause);
    text
}

/// The kind and the version of a document.
pub open spec fn identity_in(value: JsonView) -> Result<(EvidenceKind, u32), Seq<char>> {
    match kind_in(value) {
        Err(message) => Err(message),
        Ok(kind) => match value {
            JsonView::Object(fields) => match accepted_version(fields, kind) {
                Ok(version) => Ok((kind, version)),
                Err(message) => Err(message),
            },
            _ => Err(no_version_text(kind_label(kind))),
        },
    }
}

/// What comes of a document: its kind, its version, its current form and how much was changed.
pub open spec fn normalized(value: JsonView) -> Result<
    (EvidenceKind, u32, JsonView, MigrationStats),
    Seq<char>,
> {
    match identity_in(value) {
        Err(message) => Err(message),
        Ok((kind, version)) => match migrated(value, kind, no_stats()) {
            Ok((done, stats)) => Ok((kind, version, done, stats)),
            Err(message) => Err(message),
        },
    }
}

pub open spec fn summary_matches(
    summary: EvidenceCompatibilitySummary,
    kind: EvidenceKind,
    version: u32,
    stats: MigrationStats,
) -> bool {
    &&& summary.kind == kind
    &&& summary.source_schema_version == version
    &&& summary.normalized_schema_version == newest_version(kind)
    &&& summary.migrated == needed_migration(kind, version, stats)
    &&& summary.build_documents_migrated == stats.build_documents_migrated
    &&& summary.derived_legacy_log_digests == stats.derived_legacy_log_digests
    &&& summary.legacy_cache_summaries_migrated == stats.legacy_cache_summaries_migrated
    &&& summary.notes.deep_view() == with_summary_notes(Seq::empty(), kind, version, stats)
}

pub open spec fn normalizes_to(
    wanted: Result<(EvidenceKind, u32, JsonView, MigrationStats), Seq<char>>,
    r: Result<NormalizedEvidence, String>,
) -> bool {
    match wanted {
        Ok((kind, version, value, stats)) => r is Ok && view_json(r->Ok_0.value) == value
            && summary_matches(r->Ok_0.summary, kind, version, stats),
        Err(message) => r is Err && r->Err_0@ == message,
    }
}

/// Brings a document to the current version.
pub fn normalize(value: Json) -> (r: Result<NormalizedEvidence, String>)
    ensures
        normalizes_to(normalized(view_json(value)), r),
{
    let kind = match detect_kind(&value) {
        Ok(kind) => kind,
        Err(message) => {
            return Err(message);
        },
    };
    let version: u32 = match &value {
        Json::Object(fields) => {
            proof {
                lemma_view_object(*fields);
            }
            match accept_version(fields, kind) {
                Ok(version) => version,
                Err(message) => {
                    return Err(message);
                },
            }
        },
        _ => {
            return Err(show_no_version(kind.label()));
        },
    };
    let mut stats = MigrationStats::default();
    match migrate(value, kind, &mut stats) {
        Ok(value) => Ok(NormalizedEvidence { summary: summarize(kind, version, stats), value }),
        Err(message) => Err(message),
    }
}

/// Brings the document in a file to the current version.
pub fn load_evidence(path: &str, bytes: &[u8]) -> (r: Result<NormalizedEvidence, String>)
    ensures
        match parsed_json(bytes@) {
            Ok(value) => normalizes_to(normalized(value), r),
            Err(cause) => r is Err && r->Err_0@ == unparsed_text(path@, cause),
        },
{
    match read_json(bytes) {
        Ok(value) => normalize(value),
        Err(cause) => Err(show_unparsed(path, cause.as_str())),
    }
}

pub open spec fn not_regular_text(path: Seq<char>) -> Seq<char> {
    "evidence path is not a regular file: "@ + path
}

pub fn show_not_regular(path: &str) -> (r: String)
    ensures
        r@ == not_regular_text(path@),
{
    concat("evidence path is not a regular file: ", path)
}

pub open spec fn too_large_text(path: Seq<char>, size: u64) -> Seq<char> {
    "evidence file "@
        + path
        + " is "@
        + decimal_of(size as int)
        + " bytes; maximum supported input is "@
        + decimal_of(MAX_EVIDENCE_BYTES as int)
        + " bytes"@
}

pub fn show_too_large(path: &str, size: u64) -> (r: String)
    ensures
        r@ == too_large_text(path@, size),
{
    let mut text = "evidence file ".to_owned();
    text.push_str(path);
    text.push_str(" is ");
    text.push_str(decimal(size as u128).as_str());
    text.push_str(" bytes; maximum supported input is ");
    text.push_str(decimal(MAX_EVIDENCE_BYTES as u128).as_str());
    text.push_str(" bytes");
    text
}

pub open spec fn grew_text(path: Seq<char>) -> Seq<char> {
    "evidence file "@
        + path
        + " exceeded the "@
        + decimal_of(MAX_EVIDENCE_BYTES as int)
        + " byte input limit while reading"@
}

pub fn show_grew(path: &str) -> (r: String)
    ensures
        r@ == grew_text(path@),
{
    concat5(
        "evidence file ",
        path,
        " exceeded the ",
        decimal(MAX_EVIDENCE_BYTES as u128).as_str(),
        " byte input limit while reading",
    )
}

/// What keeps a file from being read.
pub fn file_problem(path: &str, regular: bool, size: u64) -> (r: Option<String>)
    ensures
        r.deep_view() == if !regular {
            Some(not_regular_text(path@))
        } else if size > MAX_EVIDENCE_BYTES {
            Some(too_large_text(path@, size))
        } else {
            None
        },
{
    if !regular {
        return Some(show_not_regular(path));
    }
    if size > MAX_EVIDENCE_BYTES {
        return Some(show_too_large(path, size));
    }
    None
}

/// What is wrong with the number of bytes that were read.
pub fn read_problem(path: &str, read: u64) -> (r: Option<String>)
    ensures
        r.deep_view() == if read > MAX_EVIDENCE_BYTES {
            Some(grew_text(path@))
        } else {
            None
        },
{
    if read > MAX_EVIDENCE_BYTES {
        return Some(show_grew(path));
    }
    None
}

/// What is said of a document that does not fit the current version.
pub open spec fn misfit_text(kind: EvidenceKind) -> Seq<char> {
    match kind {
        EvidenceKind::CheckReport =>
            "legacy check report could not be normalized to the current schema"@,
        EvidenceKind::BuildRun =>
            "legacy build run could not be normalized to the current schema"@,
        EvidenceKind::BuildFailure =>
            "legacy build failure could not be normalized to the current schema"@,
        EvidenceKind::FixReport =>
            "legacy fix report could not be normalized to the current schema"@,
        EvidenceKind::EnvironmentComparisonReport =>
            "legacy environment comparison could not be normalized to the current schema"@,
    }
}

pub fn misfit(kind: EvidenceKind) -> (r: &'static str)
    ensures
        r@ == misfit_text(kind),
{
    match kind {
        EvidenceKind::CheckReport =>
            "legacy check report could not be normalized to the current schema",
        EvidenceKind::BuildRun => "legacy build run could not be normalized to the current schema",
        EvidenceKind::BuildFailure =>
            "legacy build failure could not be normalized to the current schema",
        EvidenceKind::FixReport =>
            "legacy fix report could not be normalized to the current schema",
        EvidenceKind::EnvironmentComparisonReport =>
            "legacy environment comparison could not be normalized to the current schema",
    }
}

pub open spec fn overwrites_source_text(path: Seq<char>) -> Seq<char> {
    "normalized evidence output must differ from the source evidence file: "@ + path
}

pub fn show_overwrites_source(path: &str) -> (r: String)
    ensures
        r@ == overwrites_source_text(path@),
{
    concat("normalized evidence output must differ from the source evidence file: ", path)
}

pub open spec fn destination_link_text(path: Seq<char>) -> Seq<char> {
    "normalized evidence destination is a symlink; refusing to follow it: "@ + path
}

pub fn show_destination_link(path: &str) -> (r: String)
    ensures
        r@ == destination_link_text(path@),
{
    concat("normalized evidence destination is a symlink; refusing to follow it: ", path)
}

/// What forbids to write normalized evidence: it would replace its source, or follow a link.
/// `source` and `output` are the resolved paths.
pub fn destination_problem(
    source_path: &str,
    source: &str,
    output_path: &str,
    output: &str,
    link: bool,
) -> (r: Option<String>)
    ensures
        r.deep_view() == if is_same_path(source@, output@) {
            Some(overwrites_source_text(source_path@))
        } else if link {
            Some(destination_link_text(output_path@))
        } else {
            None
        },
{
    if same_path(source, output) {
        return Some(show_overwrites_source(source_path));
    }
    if link {
        return Some(show_destination_link(output_path));
    }
    None
}

/// A document of a version that is not supported is refused, and the message says which it is.
pub proof fn law_unsupported_versions_are_refused(
    fields: Fields,
    kind: EvidenceKind,
    stats: MigrationStats,
)
    requires
        version_in(fields, kind) is Ok,
    ensures
        match version_problem(kind, version_in(fields, kind)->Ok_0) {
            Some(message) => migrated(JsonView::Object(fields), kind, stats) == Err::<
                (JsonView, MigrationStats),
                Seq<char>,
            >(message),
            None => true,
        },
        version_problem(kind, version_in(fields, kind)->Ok_0) is None <==> oldest_version(kind)
            <= version_in(fields, kind)->Ok_0 <= newest_version(kind),
{
}

/// Every document that comes out has the current version of its kind, and is accepted as such.
pub proof fn law_migrated_documents_have_the_current_version(
    value: JsonView,
    kind: EvidenceKind,
    stats: MigrationStats,
)
    requires
        migrated(value, kind, stats) is Ok,
    ensures
        migrated(value, kind, stats)->Ok_0.0 is Object,
        field_at(migrated(value, kind, stats)->Ok_0.0->Object_0, "schema_version"@) == Some(
            number_json(newest_version(kind) as int),
        ),
        accepted_version(migrated(value, kind, stats)->Ok_0.0->Object_0, kind) == Ok::<
            u32,
            Seq<char>,
        >(newest_version(kind)),
{
    let fields = value->Object_0;
    let version = newest_version(kind);
    law_written_numbers_read_back(version as nat, 10, u64::MAX as int);
    match kind {
        EvidenceKind::CheckReport => {
            let s1 = part(
                Ok((fields, stats)),
                "runs"@,
                PartShape::Runs,
                "check report runs"@,
            );
            lemma_versioned(with_search(with_interventions(s1)), version);
        },
        EvidenceKind::BuildRun | EvidenceKind::BuildFailure => {
            let source = accepted_version(fields, kind)->Ok_0;
            let counted = if source < BUILD_EVIDENCE_SCHEMA_CURRENT {
                MigrationStats {
                    build_documents_migrated: one_more(stats.build_documents_migrated),
                    ..stats
                }
            } else {
                stats
            };
            let parts = with_provenance(fields, counted, source)->Ok_0;
            lemma_versioned(identified(parts.0, parts.1, source), version);
        },
        EvidenceKind::FixReport => {
            lemma_versioned(with_verifications(with_diagnosis(fields, stats)), version);
        },
        EvidenceKind::EnvironmentComparisonReport => {
            lemma_versioned(comparison_parts(fields, stats), version);
        },
    }
}

proof fn lemma_versioned(parts: Parts, version: u32)
    requires
        versioned(parts, version) is Ok,
    ensures
        field_at(versioned(parts, version)->Ok_0.0, "schema_version"@) == Some(
            number_json(version as int),
        ),
{
    law_a_field_holds_what_it_was_given(
        parts->Ok_0.0,
        "schema_version"@,
        number_json(version as int),
        "schema_version"@,
    );
}

proof fn lemma_bounded_caches_stay(items: Seq<JsonView>, stats: MigrationStats, version: u32, n: int)
    requires
        version >= 4,
        caches_migrated(items, stats, version, n) is Ok,
        0 <= n <= items.len(),
    ensures
        caches_migrated(items, stats, version, n)->Ok_0 == (items.take(n), stats),
    decreases n,
{
    if n > 0 {
        lemma_bounded_caches_stay(items, stats, version, n - 1);
        assert(items.take(n) =~= items.take(n - 1).push(items[n - 1]));
    } else {
        assert(items.take(0) =~= Seq::<JsonView>::empty());
    }
}

/// A build document of the current version that is accepted counts as no change.
pub proof fn law_current_build_documents_need_no_migration(
    fields: Fields,
    kind: EvidenceKind,
    stats: MigrationStats,
)
    requires
        accepted_version(fields, kind) == Ok::<u32, Seq<char>>(BUILD_EVIDENCE_SCHEMA_CURRENT),
        build_migrated(JsonView::Object(fields), stats, kind) is Ok,
    ensures
        build_migrated(JsonView::Object(fields), stats, kind)->Ok_0.1 == stats,
{
    let version = BUILD_EVIDENCE_SCHEMA_CURRENT;
    match field_at(fields, "runtime_dependency_provenance"@) {
        Some(JsonView::Object(inner)) => match field_at(inner, "cache_summaries"@) {
            Some(JsonView::List(items)) => {
                lemma_bounded_caches_stay(items, stats, version, items.len() as int);
            },
            _ => {},
        },
        _ => {},
    }
}

/// A legacy build document comes out with the digests and the sizes of the logs that it holds.
pub proof fn law_legacy_logs_get_their_identity(
    fields: Fields,
    stats: MigrationStats,
    version: u32,
    stdout: Seq<char>,
    stderr: Seq<char>,
)
    requires
        version < 10,
        field_at(fields, "stdout"@) == Some(JsonView::Text(stdout)),
        field_at(fields, "stderr"@) == Some(JsonView::Text(stderr)),
    ensures
        identified(fields, stats, version) is Ok,
        identified(fields, stats, version)->Ok_0.1.derived_legacy_log_digests == one_more(
            stats.derived_legacy_log_digests,
        ),
        ({
            let done = identified(fields, stats, version)->Ok_0.0;
            &&& field_at(done, "stdout_sha256"@) == Some(
                JsonView::Text(digest_text(encode_utf8(stdout))),
            )
            &&& field_at(done, "stderr_sha256"@) == Some(
                JsonView::Text(digest_text(encode_utf8(stderr))),
            )
            &&& field_at(done, "stdout_bytes"@) == Some(
                number_json(encode_utf8(stdout).len() as int),
            )
            &&& field_at(done, "stderr_bytes"@) == Some(
                number_json(encode_utf8(stderr).len() as int),
            )
            &&& field_at(done, "stdout_truncated"@) == Some(JsonView::Bool(false))
            &&& field_at(done, "stderr_truncated"@) == Some(JsonView::Bool(false))
            &&& field_at(done, "stdout"@) == Some(JsonView::Text(stdout))
            &&& field_at(done, "stderr"@) == Some(JsonView::Text(stderr))
        }),
{
    lemma_log_names();
    let out = encode_utf8(stdout);
    let err = encode_utf8(stderr);
    let a = with_field(fields, "log_capture_max_bytes"@, number_json(0));
    let b = with_field(a, "stdout_sha256"@, JsonView::Text(digest_text(out)));
    let c = with_field(b, "stderr_sha256"@, JsonView::Text(digest_text(err)));
    let d = with_field(c, "stdout_bytes"@, number_json(out.len() as int));
    let e = with_field(d, "stderr_bytes"@, number_json(err.len() as int));
    let f = with_field(e, "stdout_truncated"@, JsonView::Bool(false));
    let g = with_field(f, "stderr_truncated"@, JsonView::Bool(false));
    lemma_given(fields, a, "log_capture_max_bytes"@, number_json(0));
    lemma_given(a, b, "stdout_sha256"@, JsonView::Text(digest_text(out)));
    lemma_given(b, c, "stderr_sha256"@, JsonView::Text(digest_text(err)));
    lemma_given(c, d, "stdout_bytes"@, number_json(out.len() as int));
    lemma_given(d, e, "stderr_bytes"@, number_json(err.len() as int));
    lemma_given(e, f, "stdout_truncated"@, JsonView::Bool(false));
    lemma_given(f, g, "stderr_truncated"@, JsonView::Bool(false));
}

proof fn lemma_given(fields: Fields, more: Fields, name: Seq<char>, value: JsonView)
    requires
        more == with_field(fields, name, value),
    ensures
        field_at(more, name) == Some(value),
        forall|other: Seq<char>|
            other != name ==> #[trigger] field_at(more, other) == field_at(fields, other),
{
    law_a_field_holds_what_it_was_given(fields, name, value, name);
    assert forall|other: Seq<char>| other != name implies #[trigger] field_at(more, other)
        == field_at(fields, other) by {
        law_a_field_holds_what_it_was_given(fields, name, value, other);
    }
}

proof fn lemma_log_names()
    ensures
        "log_capture_max_bytes"@.len() == 21,
        "stdout_sha256"@.len() == 13,
        "stderr_sha256"@.len() == 13,
        "stdout_bytes"@.len() == 12,
        "stderr_bytes"@.len() == 12,
        "stdout_truncated"@.len() == 16,
        "stderr_truncated"@.len() == 16,
        "stdout"@.len() == 6,
        "stderr"@.len() == 6,
        "stdout_sha256"@[3] != "stderr_sha256"@[3],
        "stdout_bytes"@[3] != "stderr_bytes"@[3],
        "stdout_truncated"@[3] != "stderr_truncated"@[3],
        "stdout"@[3] != "stderr"@[3],
{
    reveal_strlit("log_capture_max_bytes");
    reveal_strlit("stdout_sha256");
    reveal_strlit("stderr_sha256");
    reveal_strlit("stdout_bytes");
    reveal_strlit("stderr_bytes");
    reveal_strlit("stdout_truncated");
    reveal_strlit("stderr_truncated");
    reveal_strlit("stdout");
    reveal_strlit("stderr");
}

} // verus!
