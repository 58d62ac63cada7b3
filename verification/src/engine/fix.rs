//! Candidates for fixes that the evidence of a check supports, and what their verification shows.
use vstd::prelude::*;

use crate::config::Config;
use crate::engine::control::{build_spec, config_spec, CheckOptions};
use crate::engine::diagnosis::{field_name, one_line, show_field_name};
use crate::engine::interventions::{PlannedIntervention, PlannedInterventionView};
use crate::engine::outcomes::{same_artifact_hashes, same_hashes};
use crate::engine::patch::{
    archive_mode, archive_mode_project_patch, archive_mtime, archive_mtime_project_patch,
    epoch_patch, path_patch, path_project_patch, reads_scripts, source_date_epoch_project_patch,
    PatchFiles, ProjectPatch, ProjectPatchView,
};
use crate::model::{
    ArchiveMetadataDifference, ArchiveMetadataField, ArtifactDelta, BuildRun, BuildSpec,
    BuildSpecView, CheckReport, CheckStatus, Confidence, ControlledEnvironment,
    ControlledEnvironmentView, Diagnosis, ElfMarkerLocation, InterventionKind, InterventionResult,
};
use crate::numbers::{decimal, decimal_of, explain_number, explain_signed, number_flaw, number_in};
use crate::numbers::{read_number, read_signed, signed_number_flaw, signed_number_in};
use crate::ordering::Order;
use crate::schema::FIX_REPORT_SCHEMA_CURRENT;
use crate::sorting::{sort_unique, sorted_set};
use crate::string_map::{value_at, with_entry, Entries, StringMap};
use crate::text::{bool_text, concat, concat3, concat5, debug_option, debug_text};
use crate::text::{lists_text, push_line, quoted, quoted_option, same, show_bool, trim, trimmed};
use crate::text::CharClass;

verus! {

/// How often each side of a fix is built to verify it.
pub const VERIFICATION_RUNS: usize = 2;

#[derive(Debug, Clone, Copy, PartialEq)]
pub struct FixOptions {
    pub check: CheckOptions,
    pub verify: bool,
}

/// A candidate for a fix.
#[derive(Debug, PartialEq)]
pub struct FixPlan {
    pub id: String,
    pub title: String,
    pub causal_variable: String,
    pub strategy: String,
    pub suggested_environment_appends: StringMap,
    pub suggested_environment_overrides: StringMap,
    pub suggested_runner_controls: StringMap,
    pub suggested_shell_commands: Vec<String>,
    pub project_patch: Option<ProjectPatch>,
    pub automatic_verification_supported: bool,
    pub evidence: Vec<String>,
    pub limitations: Vec<String>,
}

#[verifier::ext_equal]
pub struct FixPlanView {
    pub id: Seq<char>,
    pub title: Seq<char>,
    pub causal_variable: Seq<char>,
    pub strategy: Seq<char>,
    pub suggested_environment_appends: Entries,
    pub suggested_environment_overrides: Entries,
    pub suggested_runner_controls: Entries,
    pub suggested_shell_commands: Seq<Seq<char>>,
    pub project_patch: Option<ProjectPatchView>,
    pub automatic_verification_supported: bool,
    pub evidence: Seq<Seq<char>>,
    pub limitations: Seq<Seq<char>>,
}

impl DeepView for FixPlan {
    type V = FixPlanView;

    open spec fn deep_view(&self) -> FixPlanView {
        FixPlanView {
            id: self.id@,
            title: self.title@,
            causal_variable: self.causal_variable@,
            strategy: self.strategy@,
            suggested_environment_appends: self.suggested_environment_appends.deep_view(),
            suggested_environment_overrides: self.suggested_environment_overrides.deep_view(),
            suggested_runner_controls: self.suggested_runner_controls.deep_view(),
            suggested_shell_commands: self.suggested_shell_commands.deep_view(),
            project_patch: self.project_patch.deep_view(),
            automatic_verification_supported: self.automatic_verification_supported,
            evidence: self.evidence.deep_view(),
            limitations: self.limitations.deep_view(),
        }
    }
}

impl Clone for FixPlan {
    fn clone(&self) -> (r: FixPlan)
        ensures
            r.deep_view() == self.deep_view(),
    {
        let r = FixPlan {
            id: self.id.clone(),
            title: self.title.clone(),
            causal_variable: self.causal_variable.clone(),
            strategy: self.strategy.clone(),
            suggested_environment_appends: self.suggested_environment_appends.clone(),
            suggested_environment_overrides: self.suggested_environment_overrides.clone(),
            suggested_runner_controls: self.suggested_runner_controls.clone(),
            suggested_shell_commands: self.suggested_shell_commands.clone(),
            project_patch: self.project_patch.clone(),
            automatic_verification_supported: self.automatic_verification_supported,
            evidence: self.evidence.clone(),
            limitations: self.limitations.clone(),
        };
        assert(r.suggested_shell_commands.deep_view() =~= self.suggested_shell_commands.deep_view());
        assert(r.evidence.deep_view() =~= self.evidence.deep_view());
        assert(r.limitations.deep_view() =~= self.limitations.deep_view());
        r
    }
}

/// What building with a candidate showed.
#[derive(Debug, PartialEq)]
pub struct FixVerification {
    pub plan_id: String,
    pub experiment_id: Option<String>,
    pub attempted: bool,
    pub verified: bool,
    pub baseline_runs: Vec<BuildRun>,
    pub intervention_runs: Vec<BuildRun>,
    pub evidence: Vec<String>,
    pub error: Option<String>,
}

#[derive(Debug, PartialEq)]
pub struct FixReport {
    pub schema_version: u32,
    pub diagnosis: CheckReport,
    pub candidates: Vec<FixPlan>,
    pub verifications: Vec<FixVerification>,
    pub notes: Vec<String>,
}

/// Whether a diagnosis blames a variable with more than low confidence.
pub open spec fn blames(diagnosis: Diagnosis, variable: Seq<char>) -> bool {
    lists_text(diagnosis.causal_variables.deep_view(), variable) && !(diagnosis.confidence is Low)
}

pub open spec fn is_blamed(diagnoses: Seq<Diagnosis>, variable: Seq<char>) -> bool {
    exists|i: int| 0 <= i < diagnoses.len() && blames(#[trigger] diagnoses[i], variable)
}

fn lists_variable(variables: &Vec<String>, variable: &str) -> (r: bool)
    ensures
        r == lists_text(variables.deep_view(), variable@),
{
    let ghost view = variables.deep_view();
    let mut i: usize = 0;
    while i < variables.len()
        invariant
            view == variables.deep_view(),
            i <= variables@.len(),
            forall|k: int| 0 <= k < i ==> #[trigger] view[k] != variable@,
        decreases variables.len() - i,
    {
        assert(view[i as int] == variables@[i as int]@);
        if same(variables[i].as_str(), variable) {
            return true;
        }
        i += 1;
    }
    false
}

pub fn supported_confidence(report: &CheckReport, result: &InterventionResult) -> (r: bool)
    ensures
        r == is_blamed(report.diagnoses@, result.intervention.variable@),
{
    let variable = result.intervention.variable.as_str();
    let mut i: usize = 0;
    while i < report.diagnoses.len()
        invariant
            variable@ == result.intervention.variable@,
            i <= report.diagnoses@.len(),
            forall|k: int| 0 <= k < i ==> !blames(#[trigger] report.diagnoses@[k], variable@),
        decreases report.diagnoses.len() - i,
    {
        let diagnosis = &report.diagnoses[i];
        if lists_variable(&diagnosis.causal_variables, variable) && diagnosis.confidence
            != Confidence::Low {
            assert(blames(report.diagnoses@[i as int], variable@));
            return true;
        }
        i += 1;
    }
    false
}

/// Whether an archive differs in a field.
pub open spec fn differs_in_field(delta: ArtifactDelta, field: ArchiveMetadataField) -> bool {
    delta.changed && exists|k: int|
        0 <= k < delta.archive_metadata_evidence@.len() && (
        #[trigger] delta.archive_metadata_evidence@[k]).field == field
}

pub open spec fn any_differs_in_field(deltas: Seq<ArtifactDelta>, field: ArchiveMetadataField) -> bool {
    exists|i: int| 0 <= i < deltas.len() && differs_in_field(#[trigger] deltas[i], field)
}

fn check_field(delta: &ArtifactDelta, field: ArchiveMetadataField) -> (r: bool)
    ensures
        r == differs_in_field(*delta, field),
{
    if !delta.changed {
        return false;
    }
    let mut k: usize = 0;
    while k < delta.archive_metadata_evidence.len()
        invariant
            delta.changed,
            k <= delta.archive_metadata_evidence@.len(),
            forall|j: int|
                0 <= j < k ==> (#[trigger] delta.archive_metadata_evidence@[j]).field != field,
        decreases delta.archive_metadata_evidence.len() - k,
    {
        if delta.archive_metadata_evidence[k].field == field {
            assert(delta.archive_metadata_evidence@[k as int].field == field);
            return true;
        }
        k += 1;
    }
    false
}

pub fn has_archive_field(result: &InterventionResult, field: ArchiveMetadataField) -> (r: bool)
    ensures
        r == any_differs_in_field(result.artifact_deltas@, field),
{
    let mut i: usize = 0;
    while i < result.artifact_deltas.len()
        invariant
            i <= result.artifact_deltas@.len(),
            forall|k: int|
                0 <= k < i ==> !differs_in_field(#[trigger] result.artifact_deltas@[k], field),
        decreases result.artifact_deltas.len() - i,
    {
        if check_field(&result.artifact_deltas[i], field) {
            assert(differs_in_field(result.artifact_deltas@[i as int], field));
            return true;
        }
        i += 1;
    }
    false
}

/// Whether a value of a variable was found in an ELF section.
pub open spec fn is_located(locations: Seq<ElfMarkerLocation>, variable: Seq<char>, value: Seq<char>) -> bool {
    exists|k: int|
        0 <= k < locations.len() && (#[trigger] locations[k]).variable@ == variable
            && locations[k].value@ == value
}

fn check_located(locations: &Vec<ElfMarkerLocation>, variable: &str, value: &str) -> (r: bool)
    ensures
        r == is_located(locations@, variable@, value@),
{
    let mut k: usize = 0;
    while k < locations.len()
        invariant
            k <= locations@.len(),
            forall|j: int|
                0 <= j < k ==> !((#[trigger] locations@[j]).variable@ == variable@
                    && locations@[j].value@ == value@),
        decreases locations.len() - k,
    {
        if same(locations[k].variable.as_str(), variable) && same(
            locations[k].value.as_str(),
            value,
        ) {
            assert(locations@[k as int].variable@ == variable@);
            return true;
        }
        k += 1;
    }
    false
}

/// Whether a changed artifact carries both paths in its ELF sections.
pub open spec fn holds_both_paths(delta: ArtifactDelta, result: InterventionResult) -> bool {
    let i = result.intervention;
    let locations = delta.elf_marker_location_evidence@;
    delta.changed && is_located(locations, i.variable@, i.baseline_value@) && is_located(
        locations,
        i.variable@,
        i.variant_value@,
    )
}

pub open spec fn has_path_pair(result: InterventionResult) -> bool {
    exists|k: int|
        0 <= k < result.artifact_deltas@.len() && holds_both_paths(
            #[trigger] result.artifact_deltas@[k],
            result,
        )
}

pub fn has_path_elf_pair(result: &InterventionResult) -> (r: bool)
    ensures
        r == has_path_pair(*result),
{
    let i = &result.intervention;
    let mut k: usize = 0;
    while k < result.artifact_deltas.len()
        invariant
            *i == result.intervention,
            k <= result.artifact_deltas@.len(),
            forall|j: int|
                0 <= j < k ==> !holds_both_paths(#[trigger] result.artifact_deltas@[j], *result),
        decreases result.artifact_deltas.len() - k,
    {
        let delta = &result.artifact_deltas[k];
        if delta.changed && check_located(
            &delta.elf_marker_location_evidence,
            i.variable.as_str(),
            i.baseline_value.as_str(),
        ) && check_located(
            &delta.elf_marker_location_evidence,
            i.variable.as_str(),
            i.variant_value.as_str(),
        ) {
            assert(holds_both_paths(result.artifact_deltas@[k as int], *result));
            return true;
        }
        k += 1;
    }
    false
}

pub open spec fn gcc_flags_text(baseline: Seq<char>, variant: Seq<char>) -> Seq<char> {
    "-ffile-prefix-map="@
        + baseline
        + "=. -fdebug-prefix-map="@
        + baseline
        + "=. -ffile-prefix-map="@
        + variant
        + "=. -fdebug-prefix-map="@
        + variant
        + "=."@
}

pub fn show_gcc_flags(baseline: &str, variant: &str) -> (r: String)
    ensures
        r@ == gcc_flags_text(baseline@, variant@),
{
    let mut text = "-ffile-prefix-map=".to_owned();
    text.push_str(baseline);
    text.push_str("=. -fdebug-prefix-map=");
    text.push_str(baseline);
    text.push_str("=. -ffile-prefix-map=");
    text.push_str(variant);
    text.push_str("=. -fdebug-prefix-map=");
    text.push_str(variant);
    text.push_str("=.");
    text
}

pub open spec fn rust_flags_text(baseline: Seq<char>, variant: Seq<char>) -> Seq<char> {
    "--remap-path-prefix="@ + baseline + "=. --remap-path-prefix="@ + variant + "=."@
}

pub fn show_rust_flags(baseline: &str, variant: &str) -> (r: String)
    ensures
        r@ == rust_flags_text(baseline@, variant@),
{
    concat5("--remap-path-prefix=", baseline, "=. --remap-path-prefix=", variant, "=.")
}

pub open spec fn path_location_text(l: ElfMarkerLocation, path: Seq<char>) -> Seq<char> {
    path + " contains "@ + debug_text(l.value@) + " in ELF section "@ + l.section@
}

pub fn show_path_location(l: &ElfMarkerLocation, path: &str) -> (r: String)
    ensures
        r@ == path_location_text(*l, path@),
{
    concat5(
        path,
        " contains ",
        quoted(l.value.as_str()).as_str(),
        " in ELF section ",
        l.section.as_str(),
    )
}

pub open spec fn with_path_locations(
    lines: Seq<Seq<char>>,
    items: Seq<ElfMarkerLocation>,
    path: Seq<char>,
    n: int,
) -> Seq<Seq<char>>
    decreases n,
{
    if n <= 0 {
        lines
    } else {
        with_path_locations(lines, items, path, n - 1).push(path_location_text(items[n - 1], path))
    }
}

pub fn push_path_locations(lines: &mut Vec<String>, items: &Vec<ElfMarkerLocation>, path: &str)
    ensures
        final(lines).deep_view() == with_path_locations(
            old(lines).deep_view(),
            items@,
            path@,
            items@.len() as int,
        ),
{
    let ghost start = lines.deep_view();
    let mut n: usize = 0;
    while n < items.len()
        invariant
            n <= items@.len(),
            lines.deep_view() == with_path_locations(start, items@, path@, n as int),
        decreases items.len() - n,
    {
        push_line(lines, show_path_location(&items[n], path));
        n += 1;
    }
}

pub open spec fn with_located_paths(lines: Seq<Seq<char>>, delta: ArtifactDelta) -> Seq<Seq<char>> {
    with_path_locations(
        lines,
        delta.elf_marker_location_evidence@,
        delta.logical_path@,
        delta.elf_marker_location_evidence@.len() as int,
    )
}

fn push_located_paths(lines: &mut Vec<String>, delta: &ArtifactDelta)
    ensures
        final(lines).deep_view() == with_located_paths(old(lines).deep_view(), *delta),
{
    push_path_locations(
        lines,
        &delta.elf_marker_location_evidence,
        delta.logical_path.as_str(),
    );
}

pub open spec fn with_all_located_paths(
    lines: Seq<Seq<char>>,
    items: Seq<ArtifactDelta>,
    n: int,
) -> Seq<Seq<char>>
    decreases n,
{
    if n <= 0 {
        lines
    } else if items[n - 1].changed {
        with_located_paths(with_all_located_paths(lines, items, n - 1), items[n - 1])
    } else {
        with_all_located_paths(lines, items, n - 1)
    }
}

pub fn push_all_located_paths(lines: &mut Vec<String>, items: &Vec<ArtifactDelta>)
    ensures
        final(lines).deep_view() == with_all_located_paths(
            old(lines).deep_view(),
            items@,
            items@.len() as int,
        ),
{
    let ghost start = lines.deep_view();
    let mut n: usize = 0;
    while n < items.len()
        invariant
            n <= items@.len(),
            lines.deep_view() == with_all_located_paths(start, items@, n as int),
        decreases items.len() - n,
    {
        if items[n].changed {
            push_located_paths(lines, &items[n]);
        }
        n += 1;
    }
}

pub open spec fn path_kind_of(kind: InterventionKind) -> Seq<char> {
    if kind is SourcePath {
        "source"@
    } else {
        "build"@
    }
}

pub open spec fn path_title_text(kind: Seq<char>) -> Seq<char> {
    "Normalize embedded "@ + kind + " paths with compiler prefix mapping"@
}

pub fn show_path_title(kind: &str) -> (r: String)
    ensures
        r@ == path_title_text(kind@),
{
    concat3("Normalize embedded ", kind, " paths with compiler prefix mapping")
}

pub open spec fn prefix_map_id_text(id: Seq<char>) -> Seq<char> {
    id + "-prefix-map"@
}

pub fn show_prefix_map_id(id: &str) -> (r: String)
    ensures
        r@ == prefix_map_id_text(id@),
{
    concat(id, "-prefix-map")
}

pub open spec fn patch_available_text(path: Seq<char>) -> Seq<char> {
    "a "@ + path + " project patch is available and will be verified in a temporary project copy"@
}

pub fn show_patch_available(path: &str) -> (r: String)
    ensures
        r@ == patch_available_text(path@),
{
    concat3(
        "a ",
        path,
        " project patch is available and will be verified in a temporary project copy",
    )
}

/// The flags that keep both paths of an intervention out of what compilers write.
pub open spec fn flag_appends(baseline: Seq<char>, variant: Seq<char>) -> Entries {
    with_entry(
        Order::Text,
        with_entry(
            Order::Text,
            with_entry(Order::Text, Seq::empty(), "CFLAGS"@, gcc_flags_text(baseline, variant)),
            "CXXFLAGS"@,
            gcc_flags_text(baseline, variant),
        ),
        "RUSTFLAGS"@,
        rust_flags_text(baseline, variant),
    )
}

/// Whether a build configuration sets compiler flags already.
pub open spec fn sets_flags(env: Entries) -> bool {
    value_at(Order::Text, env, "CFLAGS"@) is Some || value_at(Order::Text, env, "CXXFLAGS"@) is Some
        || value_at(Order::Text, env, "RUSTFLAGS"@) is Some
}

fn check_sets_flags(env: &StringMap) -> (r: bool)
    ensures
        r == sets_flags(env.deep_view()),
{
    env.get("CFLAGS").is_some() || env.get("CXXFLAGS").is_some() || env.get("RUSTFLAGS").is_some()
}

pub open spec fn path_limits(patch: Option<ProjectPatchView>, supported: bool) -> Seq<Seq<char>> {
    let a = seq![
        "the candidate targets GCC/Clang prefix-map flags and rustc path remapping; other toolchains require a toolchain-specific equivalent"@,
    ].push(
        match patch {
            Some(p) => patch_available_text(p.path),
            None =>
                "no safe supported project-level patch point was found; verification falls back to configured compiler-flag environment variables when available"@,
        },
    );
    if supported {
        a
    } else {
        a.push(
            "automatic verification is unavailable because the build config does not already declare CFLAGS, CXXFLAGS, or RUSTFLAGS; injecting a new flag variable could change build semantics independently of the proposed fix"@,
        )
    }
}

fn list_path_limits(patch: &Option<ProjectPatch>, supported: bool) -> (r: Vec<String>)
    ensures
        r.deep_view() == path_limits(patch.deep_view(), supported),
{
    let mut lines = one_line(
        "the candidate targets GCC/Clang prefix-map flags and rustc path remapping; other toolchains require a toolchain-specific equivalent",
    );
    match patch {
        Some(p) => push_line(&mut lines, show_patch_available(p.path.as_str())),
        None => push_line(
            &mut lines,
            "no safe supported project-level patch point was found; verification falls back to configured compiler-flag environment variables when available".to_owned(),
        ),
    }
    if !supported {
        push_line(
            &mut lines,
            "automatic verification is unavailable because the build config does not already declare CFLAGS, CXXFLAGS, or RUSTFLAGS; injecting a new flag variable could change build semantics independently of the proposed fix".to_owned(),
        );
    }
    lines
}

/// The candidate against paths in compiled code.
pub open spec fn path_remap(files: PatchFiles, config: Config, result: InterventionResult) -> FixPlanView {
    let i = result.intervention;
    let kind = path_kind_of(i.kind);
    let patch = path_patch(
        files,
        config.build.command.deep_view(),
        prefix_map_id_text(i.id@),
        kind,
        gcc_flags_text(i.baseline_value@, i.variant_value@),
        rust_flags_text(i.baseline_value@, i.variant_value@),
    );
    let supported = patch is Some || sets_flags(config.build.env.deep_view());
    FixPlanView {
        id: prefix_map_id_text(i.id@),
        title: path_title_text(kind),
        causal_variable: i.variable@,
        strategy: "compiler-prefix-map"@,
        suggested_environment_appends: flag_appends(i.baseline_value@, i.variant_value@),
        suggested_environment_overrides: Seq::empty(),
        suggested_runner_controls: Seq::empty(),
        suggested_shell_commands: Seq::empty(),
        project_patch: patch,
        automatic_verification_supported: supported,
        evidence: sorted_set::<String>(
            with_all_located_paths(
                Seq::empty(),
                result.artifact_deltas@,
                result.artifact_deltas@.len() as int,
            ),
        ),
        limitations: path_limits(patch, supported),
    }
}

fn no_lines() -> (r: Vec<String>)
    ensures
        r.deep_view() == Seq::<Seq<char>>::empty(),
{
    let none: Vec<String> = Vec::new();
    assert(none.deep_view() =~= Seq::<Seq<char>>::empty());
    none
}

pub fn path_remap_plan(files: &PatchFiles, config: &Config, result: &InterventionResult) -> (r: FixPlan)
    requires
        result.intervention.kind is SourcePath || result.intervention.kind is BuildPath,
    ensures
        r.deep_view() == path_remap(*files, *config, *result),
{
    let i = &result.intervention;
    let gcc = show_gcc_flags(i.baseline_value.as_str(), i.variant_value.as_str());
    let rust = show_rust_flags(i.baseline_value.as_str(), i.variant_value.as_str());
    let kind = if i.kind == InterventionKind::SourcePath {
        "source"
    } else {
        "build"
    };
    let id = show_prefix_map_id(i.id.as_str());
    let project_patch = path_project_patch(
        files,
        config,
        id.as_str(),
        kind,
        gcc.as_str(),
        rust.as_str(),
    );
    let mut suggested = StringMap::new();
    suggested.insert("CFLAGS".to_owned(), gcc.clone());
    suggested.insert("CXXFLAGS".to_owned(), gcc);
    suggested.insert("RUSTFLAGS".to_owned(), rust);
    let supported = project_patch.is_some() || check_sets_flags(&config.build.env);
    let mut evidence = no_lines();
    push_all_located_paths(&mut evidence, &result.artifact_deltas);
    let limitations = list_path_limits(&project_patch, supported);
    FixPlan {
        id,
        title: show_path_title(kind),
        causal_variable: i.variable.clone(),
        strategy: "compiler-prefix-map".to_owned(),
        suggested_environment_appends: suggested,
        suggested_environment_overrides: StringMap::new(),
        suggested_runner_controls: StringMap::new(),
        suggested_shell_commands: no_lines(),
        project_patch,
        automatic_verification_supported: supported,
        evidence: sort_unique(evidence),
        limitations,
    }
}

pub open spec fn pin_id_text(id: Seq<char>) -> Seq<char> {
    id + "-pin"@
}

pub fn show_pin_id(id: &str) -> (r: String)
    ensures
        r@ == pin_id_text(id@),
{
    concat(id, "-pin")
}

pub open spec fn epoch_change_text(
    d: ArtifactDelta,
    baseline: Seq<char>,
    variant: Seq<char>,
) -> Seq<char> {
    d.logical_path@
        + " changed when SOURCE_DATE_EPOCH changed from "@
        + baseline
        + " to "@
        + variant
}

pub fn show_epoch_change(d: &ArtifactDelta, baseline: &str, variant: &str) -> (r: String)
    ensures
        r@ == epoch_change_text(*d, baseline@, variant@),
{
    concat5(
        d.logical_path.as_str(),
        " changed when SOURCE_DATE_EPOCH changed from ",
        baseline,
        " to ",
        variant,
    )
}

pub open spec fn with_epoch_changes(
    lines: Seq<Seq<char>>,
    items: Seq<ArtifactDelta>,
    baseline: Seq<char>,
    variant: Seq<char>,
    n: int,
) -> Seq<Seq<char>>
    decreases n,
{
    if n <= 0 {
        lines
    } else if items[n - 1].changed {
        with_epoch_changes(lines, items, baseline, variant, n - 1).push(epoch_change_text(items[n - 1], baseline, variant))
    } else {
        with_epoch_changes(lines, items, baseline, variant, n - 1)
    }
}

pub fn push_epoch_changes(
    lines: &mut Vec<String>,
    items: &Vec<ArtifactDelta>,
    baseline: &str,
    variant: &str,
)
    ensures
        final(lines).deep_view() == with_epoch_changes(
            old(lines).deep_view(),
            items@,
            baseline@,
            variant@,
            items@.len() as int,
        ),
{
    let ghost start = lines.deep_view();
    let mut n: usize = 0;
    while n < items.len()
        invariant
            n <= items@.len(),
            lines.deep_view() == with_epoch_changes(start, items@, baseline@, variant@, n as int),
        decreases items.len() - n,
    {
        if items[n].changed {
            push_line(lines, show_epoch_change(&items[n], baseline, variant));
        }
        n += 1;
    }
}

pub open spec fn epoch_export_text(value: Seq<char>) -> Seq<char> {
    "export SOURCE_DATE_EPOCH="@ + value
}

pub fn show_epoch_export(value: &str) -> (r: String)
    ensures
        r@ == epoch_export_text(value@),
{
    concat("export SOURCE_DATE_EPOCH=", value)
}

pub open spec fn epoch_patch_limit_text(path: Seq<char>) -> Seq<char> {
    "the project-level candidate pins SOURCE_DATE_EPOCH through "@
        + path
        + "; it does not rewrite timestamp-generating source code"@
}

pub fn show_epoch_patch_limit(path: &str) -> (r: String)
    ensures
        r@ == epoch_patch_limit_text(path@),
{
    concat3(
        "the project-level candidate pins SOURCE_DATE_EPOCH through ",
        path,
        "; it does not rewrite timestamp-generating source code",
    )
}

/// The candidate against a build timestamp.
pub open spec fn epoch_pin(files: PatchFiles, config: Config, result: InterventionResult) -> FixPlanView {
    let i = result.intervention;
    let patch = epoch_patch(
        files,
        config.build.command.deep_view(),
        pin_id_text(i.id@),
        i.baseline_value@,
    );
    FixPlanView {
        id: pin_id_text(i.id@),
        title: "Pin the standardized build timestamp input"@,
        causal_variable: i.variable@,
        strategy: "pin-source-date-epoch"@,
        suggested_environment_appends: Seq::empty(),
        suggested_environment_overrides: with_entry(
            Order::Text,
            Seq::empty(),
            "SOURCE_DATE_EPOCH"@,
            i.baseline_value@,
        ),
        suggested_runner_controls: Seq::empty(),
        suggested_shell_commands: seq![epoch_export_text(i.baseline_value@)],
        project_patch: patch,
        automatic_verification_supported: true,
        evidence: with_epoch_changes(
            Seq::empty(),
            result.artifact_deltas@,
            i.baseline_value@,
            i.variant_value@,
            result.artifact_deltas@.len() as int,
        ),
        limitations: seq![
            "this is an operational normalization candidate; if SOURCE_DATE_EPOCH is intentionally part of the declared build identity, pinning it changes that build input rather than removing timestamp semantics"@,
        ].push(
            match patch {
                Some(p) => epoch_patch_limit_text(p.path),
                None =>
                    "no safe supported project-level timestamp patch point was found, so verification uses runner-level normalization only"@,
            },
        ),
    }
}

pub fn source_date_epoch_plan(files: &PatchFiles, config: &Config, result: &InterventionResult) -> (r:
    FixPlan)
    ensures
        r.deep_view() == epoch_pin(*files, *config, *result),
{
    let i = &result.intervention;
    let id = show_pin_id(i.id.as_str());
    let project_patch = source_date_epoch_project_patch(
        files,
        config,
        id.as_str(),
        i.baseline_value.as_str(),
    );
    let mut overrides = StringMap::new();
    overrides.insert("SOURCE_DATE_EPOCH".to_owned(), i.baseline_value.clone());
    let mut limitations = one_line(
        "this is an operational normalization candidate; if SOURCE_DATE_EPOCH is intentionally part of the declared build identity, pinning it changes that build input rather than removing timestamp semantics",
    );
    match &project_patch {
        Some(p) => push_line(&mut limitations, show_epoch_patch_limit(p.path.as_str())),
        None => push_line(
            &mut limitations,
            "no safe supported project-level timestamp patch point was found, so verification uses runner-level normalization only".to_owned(),
        ),
    }
    let mut evidence = no_lines();
    push_epoch_changes(
        &mut evidence,
        &result.artifact_deltas,
        i.baseline_value.as_str(),
        i.variant_value.as_str(),
    );
    FixPlan {
        id,
        title: "Pin the standardized build timestamp input".to_owned(),
        causal_variable: i.variable.clone(),
        strategy: "pin-source-date-epoch".to_owned(),
        suggested_environment_appends: StringMap::new(),
        suggested_environment_overrides: overrides,
        suggested_runner_controls: StringMap::new(),
        suggested_shell_commands: one_line(show_epoch_export(i.baseline_value.as_str()).as_str()),
        project_patch,
        automatic_verification_supported: true,
        evidence,
        limitations,
    }
}

pub open spec fn archive_mtime_id_text(id: Seq<char>) -> Seq<char> {
    id + "-archive-mtime"@
}

pub fn show_archive_mtime_id(id: &str) -> (r: String)
    ensures
        r@ == archive_mtime_id_text(id@),
{
    concat(id, "-archive-mtime")
}

pub open spec fn normalize_id_text(id: Seq<char>) -> Seq<char> {
    id + "-normalize"@
}

pub fn show_normalize_id(id: &str) -> (r: String)
    ensures
        r@ == normalize_id_text(id@),
{
    concat(id, "-normalize")
}

pub open spec fn archive_time_text(d: ArchiveMetadataDifference, path: Seq<char>) -> Seq<char> {
    path
        + " archive "@
        + field_name(d.field)
        + " changed for "@
        + debug_option(d.member.deep_view())
}

pub fn show_archive_time(d: &ArchiveMetadataDifference, path: &str) -> (r: String)
    ensures
        r@ == archive_time_text(*d, path@),
{
    concat5(
        path,
        " archive ",
        show_field_name(d.field),
        " changed for ",
        quoted_option(&d.member).as_str(),
    )
}

pub open spec fn with_archive_times(
    lines: Seq<Seq<char>>,
    items: Seq<ArchiveMetadataDifference>,
    path: Seq<char>,
    n: int,
) -> Seq<Seq<char>>
    decreases n,
{
    if n <= 0 {
        lines
    } else if items[n - 1].field == ArchiveMetadataField::Mtime || items[n - 1].field == ArchiveMetadataField::ContainerMtime {
        with_archive_times(lines, items, path, n - 1).push(archive_time_text(items[n - 1], path))
    } else {
        with_archive_times(lines, items, path, n - 1)
    }
}

pub fn push_archive_times(
    lines: &mut Vec<String>,
    items: &Vec<ArchiveMetadataDifference>,
    path: &str,
)
    ensures
        final(lines).deep_view() == with_archive_times(
            old(lines).deep_view(),
            items@,
            path@,
            items@.len() as int,
        ),
{
    let ghost start = lines.deep_view();
    let mut n: usize = 0;
    while n < items.len()
        invariant
            n <= items@.len(),
            lines.deep_view() == with_archive_times(start, items@, path@, n as int),
        decreases items.len() - n,
    {
        if items[n].field == ArchiveMetadataField::Mtime || items[n].field == ArchiveMetadataField::ContainerMtime {
            push_line(lines, show_archive_time(&items[n], path));
        }
        n += 1;
    }
}

pub open spec fn with_delta_times(lines: Seq<Seq<char>>, delta: ArtifactDelta) -> Seq<Seq<char>> {
    with_archive_times(
        lines,
        delta.archive_metadata_evidence@,
        delta.logical_path@,
        delta.archive_metadata_evidence@.len() as int,
    )
}

fn push_delta_times(lines: &mut Vec<String>, delta: &ArtifactDelta)
    ensures
        final(lines).deep_view() == with_delta_times(old(lines).deep_view(), *delta),
{
    push_archive_times(lines, &delta.archive_metadata_evidence, delta.logical_path.as_str());
}

pub open spec fn with_all_times(
    lines: Seq<Seq<char>>,
    items: Seq<ArtifactDelta>,
    n: int,
) -> Seq<Seq<char>>
    decreases n,
{
    if n <= 0 {
        lines
    } else if items[n - 1].changed {
        with_delta_times(with_all_times(lines, items, n - 1), items[n - 1])
    } else {
        with_all_times(lines, items, n - 1)
    }
}

pub fn push_all_times(lines: &mut Vec<String>, items: &Vec<ArtifactDelta>)
    ensures
        final(lines).deep_view() == with_all_times(
            old(lines).deep_view(),
            items@,
            items@.len() as int,
        ),
{
    let ghost start = lines.deep_view();
    let mut n: usize = 0;
    while n < items.len()
        invariant
            n <= items@.len(),
            lines.deep_view() == with_all_times(start, items@, n as int),
        decreases items.len() - n,
    {
        if items[n].changed {
            push_delta_times(lines, &items[n]);
        }
        n += 1;
    }
}

pub open spec fn touch_command_text(value: Seq<char>) -> Seq<char> {
    "find . \\( -type f -o -type d \\) -exec touch -d '@"@ + value + "' {} +"@
}

pub fn show_touch_command(value: &str) -> (r: String)
    ensures
        r@ == touch_command_text(value@),
{
    concat3("find . \\( -type f -o -type d \\) -exec touch -d '@", value, "' {} +")
}

/// The candidate against source times in archives.
pub open spec fn mtime_normalization(files: PatchFiles, config: Config, result: InterventionResult) -> FixPlanView {
    let i = result.intervention;
    let patch = archive_mtime(
        files,
        config.build.command.deep_view(),
        archive_mtime_id_text(i.id@),
        i.baseline_value@,
    );
    FixPlanView {
        id: normalize_id_text(i.id@),
        title: "Normalize source/archive mtimes before packaging"@,
        causal_variable: i.variable@,
        strategy: "normalize-source-mtime"@,
        suggested_environment_appends: Seq::empty(),
        suggested_environment_overrides: Seq::empty(),
        suggested_runner_controls: with_entry(
            Order::Text,
            Seq::empty(),
            "source_mtime_epoch"@,
            i.baseline_value@,
        ),
        suggested_shell_commands: seq![touch_command_text(i.baseline_value@)],
        project_patch: patch,
        automatic_verification_supported: true,
        evidence: sorted_set::<String>(
            with_all_times(
                Seq::empty(),
                result.artifact_deltas@,
                result.artifact_deltas@.len() as int,
            ),
        ),
        limitations: seq![
            if patch is Some {
                "the project-level candidate uses GNU tar's TAR_OPTIONS to normalize member mtimes; verification determines whether the project's actual tar invocation honors it"@
            } else {
                "no conservative project-level GNU tar patch point was found; verification falls back to normalizing the copied source snapshot before the build"@
            },
        ].push(
            "the generic shell suggestion assumes GNU-compatible find/touch; archive-native timestamp controls are preferable when available"@,
        ),
    }
}

pub fn source_mtime_plan(files: &PatchFiles, config: &Config, result: &InterventionResult) -> (r: FixPlan)
    requires
        reads_scripts(*files, *config),
    ensures
        r.deep_view() == mtime_normalization(*files, *config, *result),
{
    let i = &result.intervention;
    let project_patch = archive_mtime_project_patch(
        files,
        config,
        show_archive_mtime_id(i.id.as_str()).as_str(),
        i.baseline_value.as_str(),
    );
    let mut controls = StringMap::new();
    controls.insert("source_mtime_epoch".to_owned(), i.baseline_value.clone());
    let mut evidence = no_lines();
    push_all_times(&mut evidence, &result.artifact_deltas);
    let mut limitations = one_line(
        if project_patch.is_some() {
            "the project-level candidate uses GNU tar's TAR_OPTIONS to normalize member mtimes; verification determines whether the project's actual tar invocation honors it"
        } else {
            "no conservative project-level GNU tar patch point was found; verification falls back to normalizing the copied source snapshot before the build"
        },
    );
    push_line(
        &mut limitations,
        "the generic shell suggestion assumes GNU-compatible find/touch; archive-native timestamp controls are preferable when available".to_owned(),
    );
    FixPlan {
        id: show_normalize_id(i.id.as_str()),
        title: "Normalize source/archive mtimes before packaging".to_owned(),
        causal_variable: i.variable.clone(),
        strategy: "normalize-source-mtime".to_owned(),
        suggested_environment_appends: StringMap::new(),
        suggested_environment_overrides: StringMap::new(),
        suggested_runner_controls: controls,
        suggested_shell_commands: one_line(show_touch_command(i.baseline_value.as_str()).as_str()),
        project_patch,
        automatic_verification_supported: true,
        evidence: sort_unique(evidence),
        limitations,
    }
}

pub open spec fn archive_mode_id_text(id: Seq<char>) -> Seq<char> {
    id + "-archive-mode"@
}

pub fn show_archive_mode_id(id: &str) -> (r: String)
    ensures
        r@ == archive_mode_id_text(id@),
{
    concat(id, "-archive-mode")
}

pub open spec fn mode_change_text(d: ArchiveMetadataDifference, path: Seq<char>) -> Seq<char> {
    path
        + " archive member "@
        + debug_option(d.member.deep_view())
        + " mode changed from "@
        + debug_option(d.baseline.deep_view())
        + " to "@
        + debug_option(d.variant.deep_view())
}

pub fn show_mode_change(d: &ArchiveMetadataDifference, path: &str) -> (r: String)
    ensures
        r@ == mode_change_text(*d, path@),
{
    let mut text = path.to_owned();
    text.push_str(" archive member ");
    text.push_str(quoted_option(&d.member).as_str());
    text.push_str(" mode changed from ");
    text.push_str(quoted_option(&d.baseline).as_str());
    text.push_str(" to ");
    text.push_str(quoted_option(&d.variant).as_str());
    text
}

pub open spec fn with_mode_changes(
    lines: Seq<Seq<char>>,
    items: Seq<ArchiveMetadataDifference>,
    path: Seq<char>,
    n: int,
) -> Seq<Seq<char>>
    decreases n,
{
    if n <= 0 {
        lines
    } else if items[n - 1].field == ArchiveMetadataField::Mode {
        with_mode_changes(lines, items, path, n - 1).push(mode_change_text(items[n - 1], path))
    } else {
        with_mode_changes(lines, items, path, n - 1)
    }
}

pub fn push_mode_changes(
    lines: &mut Vec<String>,
    items: &Vec<ArchiveMetadataDifference>,
    path: &str,
)
    ensures
        final(lines).deep_view() == with_mode_changes(
            old(lines).deep_view(),
            items@,
            path@,
            items@.len() as int,
        ),
{
    let ghost start = lines.deep_view();
    let mut n: usize = 0;
    while n < items.len()
        invariant
            n <= items@.len(),
            lines.deep_view() == with_mode_changes(start, items@, path@, n as int),
        decreases items.len() - n,
    {
        if items[n].field == ArchiveMetadataField::Mode {
            push_line(lines, show_mode_change(&items[n], path));
        }
        n += 1;
    }
}

pub open spec fn with_delta_modes(lines: Seq<Seq<char>>, delta: ArtifactDelta) -> Seq<Seq<char>> {
    with_mode_changes(
        lines,
        delta.archive_metadata_evidence@,
        delta.logical_path@,
        delta.archive_metadata_evidence@.len() as int,
    )
}

fn push_delta_modes(lines: &mut Vec<String>, delta: &ArtifactDelta)
    ensures
        final(lines).deep_view() == with_delta_modes(old(lines).deep_view(), *delta),
{
    push_mode_changes(lines, &delta.archive_metadata_evidence, delta.logical_path.as_str());
}

pub open spec fn with_all_modes(
    lines: Seq<Seq<char>>,
    items: Seq<ArtifactDelta>,
    n: int,
) -> Seq<Seq<char>>
    decreases n,
{
    if n <= 0 {
        lines
    } else if items[n - 1].changed {
        with_delta_modes(with_all_modes(lines, items, n - 1), items[n - 1])
    } else {
        with_all_modes(lines, items, n - 1)
    }
}

pub fn push_all_modes(lines: &mut Vec<String>, items: &Vec<ArtifactDelta>)
    ensures
        final(lines).deep_view() == with_all_modes(
            old(lines).deep_view(),
            items@,
            items@.len() as int,
        ),
{
    let ghost start = lines.deep_view();
    let mut n: usize = 0;
    while n < items.len()
        invariant
            n <= items@.len(),
            lines.deep_view() == with_all_modes(start, items@, n as int),
        decreases items.len() - n,
    {
        if items[n].changed {
            push_delta_modes(lines, &items[n]);
        }
        n += 1;
    }
}

pub open spec fn umask_command_text(value: Seq<char>) -> Seq<char> {
    "umask "@ + value
}

pub fn show_umask_command(value: &str) -> (r: String)
    ensures
        r@ == umask_command_text(value@),
{
    concat("umask ", value)
}

/// The candidate against permissions that follow the umask.
pub open spec fn umask_pin(files: PatchFiles, config: Config, result: InterventionResult) -> FixPlanView {
    let i = result.intervention;
    let patch = archive_mode(
        files,
        config.build.command.deep_view(),
        archive_mode_id_text(i.id@),
    );
    FixPlanView {
        id: pin_id_text(i.id@),
        title: "Pin the build umask / normalize output modes"@,
        causal_variable: i.variable@,
        strategy: "pin-umask"@,
        suggested_environment_appends: Seq::empty(),
        suggested_environment_overrides: Seq::empty(),
        suggested_runner_controls: with_entry(
            Order::Text,
            Seq::empty(),
            "umask"@,
            i.baseline_value@,
        ),
        suggested_shell_commands: seq![umask_command_text(i.baseline_value@)],
        project_patch: patch,
        automatic_verification_supported: true,
        evidence: sorted_set::<String>(
            with_all_modes(
                Seq::empty(),
                result.artifact_deltas@,
                result.artifact_deltas@.len() as int,
            ),
        ),
        limitations: seq![
            if patch is Some {
                "the project-level candidate uses GNU tar's --mode transformation through TAR_OPTIONS; verification determines whether it covers the affected archive command"@
            } else {
                "no conservative project-level GNU tar patch point was found; verification falls back to pinning the build umask operationally"@
            },
        ].push(
            "explicitly setting archive member permissions is more portable than inheriting process umask; non-GNU tar implementations may require different flags"@,
        ),
    }
}

pub fn umask_plan(files: &PatchFiles, config: &Config, result: &InterventionResult) -> (r: FixPlan)
    requires
        reads_scripts(*files, *config),
    ensures
        r.deep_view() == umask_pin(*files, *config, *result),
{
    let i = &result.intervention;
    let project_patch = archive_mode_project_patch(
        files,
        config,
        show_archive_mode_id(i.id.as_str()).as_str(),
    );
    let mut controls = StringMap::new();
    controls.insert("umask".to_owned(), i.baseline_value.clone());
    let mut evidence = no_lines();
    push_all_modes(&mut evidence, &result.artifact_deltas);
    let mut limitations = one_line(
        if project_patch.is_some() {
            "the project-level candidate uses GNU tar's --mode transformation through TAR_OPTIONS; verification determines whether it covers the affected archive command"
        } else {
            "no conservative project-level GNU tar patch point was found; verification falls back to pinning the build umask operationally"
        },
    );
    push_line(
        &mut limitations,
        "explicitly setting archive member permissions is more portable than inheriting process umask; non-GNU tar implementations may require different flags".to_owned(),
    );
    FixPlan {
        id: show_pin_id(i.id.as_str()),
        title: "Pin the build umask / normalize output modes".to_owned(),
        causal_variable: i.variable.clone(),
        strategy: "pin-umask".to_owned(),
        suggested_environment_appends: StringMap::new(),
        suggested_environment_overrides: StringMap::new(),
        suggested_runner_controls: controls,
        suggested_shell_commands: one_line(show_umask_command(i.baseline_value.as_str()).as_str()),
        project_patch,
        automatic_verification_supported: true,
        evidence: sort_unique(evidence),
        limitations,
    }
}

/// The candidate that the evidence of an experiment supports, if there is a rule for it.
pub open spec fn result_plan(files: PatchFiles, config: Config, result: InterventionResult) -> Option<
    FixPlanView,
> {
    match result.intervention.kind {
        InterventionKind::SourcePath | InterventionKind::BuildPath => if has_path_pair(result) {
            Some(path_remap(files, config, result))
        } else {
            None
        },
        InterventionKind::SourceDateEpoch => Some(epoch_pin(files, config, result)),
        InterventionKind::SourceMtime => if any_differs_in_field(
            result.artifact_deltas@,
            ArchiveMetadataField::Mtime,
        ) || any_differs_in_field(result.artifact_deltas@, ArchiveMetadataField::ContainerMtime) {
            Some(mtime_normalization(files, config, result))
        } else {
            None
        },
        InterventionKind::Umask => if any_differs_in_field(
            result.artifact_deltas@,
            ArchiveMetadataField::Mode,
        ) {
            Some(umask_pin(files, config, result))
        } else {
            None
        },
        _ => None,
    }
}

fn plan_for_result(files: &PatchFiles, config: &Config, result: &InterventionResult) -> (r: Option<
    FixPlan,
>)
    requires
        reads_scripts(*files, *config),
    ensures
        r.deep_view() == result_plan(*files, *config, *result),
{
    match result.intervention.kind {
        InterventionKind::SourcePath | InterventionKind::BuildPath => if has_path_elf_pair(result) {
            Some(path_remap_plan(files, config, result))
        } else {
            None
        },
        InterventionKind::SourceDateEpoch => Some(source_date_epoch_plan(files, config, result)),
        InterventionKind::SourceMtime => if has_archive_field(
            result,
            ArchiveMetadataField::Mtime,
        ) || has_archive_field(result, ArchiveMetadataField::ContainerMtime) {
            Some(source_mtime_plan(files, config, result))
        } else {
            None
        },
        InterventionKind::Umask => if has_archive_field(result, ArchiveMetadataField::Mode) {
            Some(umask_plan(files, config, result))
        } else {
            None
        },
        _ => None,
    }
}

/// The candidates that the first `n` experiments support: those that changed bytes and are blamed
/// with more than low confidence.
pub open spec fn fix_plans(
    files: PatchFiles,
    config: Config,
    results: Seq<InterventionResult>,
    diagnoses: Seq<Diagnosis>,
    n: int,
) -> Seq<FixPlanView>
    decreases n,
{
    if n <= 0 {
        Seq::empty()
    } else {
        let before = fix_plans(files, config, results, diagnoses, n - 1);
        let result = results[n - 1];
        if result.changed && is_blamed(diagnoses, result.intervention.variable@) {
            match result_plan(files, config, result) {
                Some(plan) => before.push(plan),
                None => before,
            }
        } else {
            before
        }
    }
}

pub fn generate_fix_plans(files: &PatchFiles, config: &Config, report: &CheckReport) -> (r: Vec<FixPlan>)
    requires
        reads_scripts(*files, *config),
    ensures
        r.deep_view() == fix_plans(
            *files,
            *config,
            report.interventions@,
            report.diagnoses@,
            report.interventions@.len() as int,
        ),
{
    let mut plans: Vec<FixPlan> = Vec::new();
    let mut n: usize = 0;
    assert(plans.deep_view() =~= Seq::<FixPlanView>::empty());
    while n < report.interventions.len()
        invariant
            reads_scripts(*files, *config),
            n <= report.interventions@.len(),
            plans.deep_view() == fix_plans(
                *files,
                *config,
                report.interventions@,
                report.diagnoses@,
                n as int,
            ),
        decreases report.interventions.len() - n,
    {
        let result = &report.interventions[n];
        if result.changed && supported_confidence(report, result) {
            if let Some(plan) = plan_for_result(files, config, result) {
                let ghost had = plans.deep_view();
                let ghost view = plan.deep_view();
                plans.push(plan);
                assert(plans.deep_view() =~= had.push(view));
            }
        }
        n += 1;
    }
    plans
}

/// Flags with others after them.
pub open spec fn flags_with(existing: Seq<char>, addition: Seq<char>) -> Seq<char> {
    let own = trimmed(existing, CharClass::White);
    if own.len() == 0 {
        addition
    } else {
        own + " "@ + addition
    }
}

pub fn append_flags(existing: &str, addition: &str) -> (r: String)
    ensures
        r@ == flags_with(existing@, addition@),
{
    let own = trim(existing, CharClass::White);
    if crate::text::chars_of(own.as_str()).len() == 0 {
        addition.to_owned()
    } else {
        concat3(own.as_str(), " ", addition)
    }
}

/// `env` with the first `n` of some flags added to the variables that `base` sets.
pub open spec fn with_flags(env: Entries, base: Entries, appends: Entries, n: int) -> Entries
    decreases n,
{
    if n <= 0 {
        env
    } else {
        let before = with_flags(env, base, appends, n - 1);
        match value_at(Order::Text, base, appends[n - 1].0) {
            Some(existing) => with_entry(
                Order::Text,
                before,
                appends[n - 1].0,
                flags_with(existing, appends[n - 1].1),
            ),
            None => before,
        }
    }
}

/// What a candidate is verified with: its flags where no file is patched.
pub open spec fn verification_spec_of(config: Config, plan: FixPlanView) -> BuildSpecView {
    let spec = config_spec(config);
    if plan.project_patch is Some {
        spec
    } else {
        BuildSpecView {
            environment: with_flags(
                spec.environment,
                spec.environment,
                plan.suggested_environment_appends,
                plan.suggested_environment_appends.len() as int,
            ),
            ..spec
        }
    }
}

pub fn verification_spec(config: &Config, plan: &FixPlan) -> (r: BuildSpec)
    ensures
        r.deep_view() == verification_spec_of(*config, plan.deep_view()),
{
    let mut spec = build_spec(config);
    if plan.project_patch.is_none() {
        let appends = plan.suggested_environment_appends.entries();
        let ghost all = plan.suggested_environment_appends.deep_view();
        let ghost base = config.build.env.deep_view();
        let mut environment = config.build.env.clone();
        let mut n: usize = 0;
        while n < appends.len()
            invariant
                appends.deep_view() == all,
                base == config.build.env.deep_view(),
                n <= appends@.len(),
                environment.deep_view() == with_flags(base, base, all, n as int),
            decreases appends.len() - n,
        {
            assert(all[n as int] == (appends@[n as int].0@, appends@[n as int].1@));
            if let Some(existing) = config.build.env.get(appends[n].0.as_str()) {
                environment.insert(
                    appends[n].0.clone(),
                    append_flags(existing.as_str(), appends[n].1.as_str()),
                );
            }
            n += 1;
        }
        spec.environment = environment;
    }
    spec
}

pub open spec fn source_changed_text(diagnosed: Seq<char>, now: Seq<char>) -> Seq<char> {
    "source tree changed after diagnosis (diagnosed "@
        + diagnosed
        + ", now "@
        + now
        + "); refusing to verify against a different source snapshot"@
}

pub fn show_source_changed(diagnosed: &str, now: &str) -> (r: String)
    ensures
        r@ == source_changed_text(diagnosed@, now@),
{
    concat5(
        "source tree changed after diagnosis (diagnosed ",
        diagnosed,
        ", now ",
        now,
        "); refusing to verify against a different source snapshot",
    )
}

/// Why a candidate without a patch cannot be verified on this source: it is not the diagnosed one.
pub open spec fn source_problem(plan: FixPlanView, diagnosed: Seq<char>, now: Seq<char>) -> Option<
    Seq<char>,
> {
    if plan.project_patch is None && now != diagnosed {
        Some(source_changed_text(diagnosed, now))
    } else {
        None
    }
}

pub fn check_source(plan: &FixPlan, diagnosed: &str, now: &str) -> (r: Option<String>)
    ensures
        r.deep_view() == source_problem(plan.deep_view(), diagnosed@, now@),
{
    if plan.project_patch.is_none() && !same(now, diagnosed) {
        Some(show_source_changed(diagnosed, now))
    } else {
        None
    }
}

/// The first intervention on a variable, at or after `from`.
pub open spec fn intervention_on(
    planned: Seq<PlannedInterventionView>,
    variable: Seq<char>,
    from: int,
) -> Option<PlannedInterventionView>
    decreases planned.len() - from,
{
    if from >= planned.len() {
        None
    } else if planned[from].intervention.variable == variable {
        Some(planned[from])
    } else {
        intervention_on(planned, variable, from + 1)
    }
}

pub open spec fn lost_intervention_text(variable: Seq<char>) -> Seq<char> {
    "cannot recover original intervention for "@ + variable
}

pub fn show_lost_intervention(variable: &str) -> (r: String)
    ensures
        r@ == lost_intervention_text(variable@),
{
    concat("cannot recover original intervention for ", variable)
}

pub fn recover_intervention(planned: &Vec<PlannedIntervention>, variable: &str) -> (r: Result<
    PlannedIntervention,
    String,
>)
    ensures
        match r {
            Ok(found) => intervention_on(planned.deep_view(), variable@, 0) == Some(
                found.deep_view(),
            ),
            Err(problem) => intervention_on(planned.deep_view(), variable@, 0) is None && problem@
                == lost_intervention_text(variable@),
        },
{
    let ghost view = planned.deep_view();
    let mut i: usize = 0;
    while i < planned.len()
        invariant
            view == planned.deep_view(),
            i <= planned@.len(),
            intervention_on(view, variable@, 0) == intervention_on(view, variable@, i as int),
        decreases planned.len() - i,
    {
        assert(view[i as int] == planned@[i as int].deep_view());
        if same(planned[i].intervention.variable.as_str(), variable) {
            return Ok(planned[i].clone());
        }
        i += 1;
    }
    Err(show_lost_intervention(variable))
}

pub open spec fn unsupported_text(strategy: Seq<char>) -> Seq<char> {
    "unsupported automatic fix strategy "@ + debug_text(strategy)
}

pub fn show_unsupported(strategy: &str) -> (r: String)
    ensures
        r@ == unsupported_text(strategy@),
{
    concat("unsupported automatic fix strategy ", quoted(strategy).as_str())
}

/// An environment with a candidate applied to it, or why it cannot be.
pub open spec fn normalized(plan: FixPlanView, e: ControlledEnvironmentView) -> Result<
    ControlledEnvironmentView,
    Seq<char>,
> {
    if plan.strategy == "compiler-prefix-map"@ {
        Ok(e)
    } else if plan.strategy == "pin-source-date-epoch"@ {
        match value_at(
            Order::Text,
            plan.suggested_environment_overrides,
            "SOURCE_DATE_EPOCH"@,
        ) {
            Some(value) => Ok(
                ControlledEnvironmentView {
                    environment: with_entry(
                        Order::Text,
                        e.environment,
                        "SOURCE_DATE_EPOCH"@,
                        value,
                    ),
                    ..e
                },
            ),
            None => Err("timestamp fix is missing SOURCE_DATE_EPOCH override"@),
        }
    } else if plan.strategy == "normalize-source-mtime"@ {
        match value_at(Order::Text, plan.suggested_runner_controls, "source_mtime_epoch"@) {
            Some(text) => match signed_number_in(text, 10, i64::MIN as int, i64::MAX as int) {
                Some(value) => Ok(
                    ControlledEnvironmentView { source_mtime_epoch: Some(value as i64), ..e },
                ),
                None => Err(
                    "invalid source_mtime_epoch in fix plan: "@ + signed_number_flaw(
                        text,
                        10,
                        i64::MIN as int,
                        i64::MAX as int,
                    ),
                ),
            },
            None => Err("source-mtime fix is missing source_mtime_epoch control"@),
        }
    } else if plan.strategy == "pin-umask"@ {
        match value_at(Order::Text, plan.suggested_runner_controls, "umask"@) {
            Some(text) => match number_in(text, 8, u32::MAX as int) {
                Some(value) => Ok(ControlledEnvironmentView { umask: Some(value as u32), ..e }),
                None => Err(
                    "invalid octal umask in fix plan: "@ + number_flaw(text, 8, u32::MAX as int),
                ),
            },
            None => Err("umask fix is missing umask control"@),
        }
    } else {
        Err(unsupported_text(plan.strategy))
    }
}

/// Applies a candidate to both environments, so that they agree in what it normalises.
pub fn apply_plan_to_environments(
    plan: &FixPlan,
    baseline: &mut ControlledEnvironment,
    intervention: &mut ControlledEnvironment,
) -> (r: Result<(), String>)
    ensures
        match r {
            Ok(()) => normalized(plan.deep_view(), old(baseline).deep_view()) == Ok::<
                ControlledEnvironmentView,
                Seq<char>,
            >(final(baseline).deep_view()) && normalized(
                plan.deep_view(),
                old(intervention).deep_view(),
            ) == Ok::<ControlledEnvironmentView, Seq<char>>(final(intervention).deep_view()),
            Err(problem) => normalized(plan.deep_view(), old(baseline).deep_view()) == Err::<
                ControlledEnvironmentView,
                Seq<char>,
            >(problem@) && final(baseline).deep_view() == old(baseline).deep_view()
                && final(intervention).deep_view() == old(intervention).deep_view(),
        },
{
    let strategy = plan.strategy.as_str();
    if same(strategy, "compiler-prefix-map") {
        Ok(())
    } else if same(strategy, "pin-source-date-epoch") {
        match plan.suggested_environment_overrides.get("SOURCE_DATE_EPOCH") {
            Some(value) => {
                baseline.environment.insert("SOURCE_DATE_EPOCH".to_owned(), value.clone());
                intervention.environment.insert("SOURCE_DATE_EPOCH".to_owned(), value.clone());
                Ok(())
            },
            None => Err("timestamp fix is missing SOURCE_DATE_EPOCH override".to_owned()),
        }
    } else if same(strategy, "normalize-source-mtime") {
        match plan.suggested_runner_controls.get("source_mtime_epoch") {
            Some(text) => match read_signed(text.as_str(), 10) {
                Some(value) => {
                    baseline.source_mtime_epoch = Some(value);
                    intervention.source_mtime_epoch = Some(value);
                    Ok(())
                },
                None => Err(
                    concat(
                        "invalid source_mtime_epoch in fix plan: ",
                        explain_signed(text.as_str(), 10),
                    ),
                ),
            },
            None => Err("source-mtime fix is missing source_mtime_epoch control".to_owned()),
        }
    } else if same(strategy, "pin-umask") {
        match plan.suggested_runner_controls.get("umask") {
            Some(text) => match read_number(text.as_str(), 8, u32::MAX as u64) {
                Some(value) => {
                    baseline.umask = Some(value as u32);
                    intervention.umask = Some(value as u32);
                    Ok(())
                },
                None => Err(
                    concat(
                        "invalid octal umask in fix plan: ",
                        explain_number(text.as_str(), 8, u32::MAX as u64),
                    ),
                ),
            },
            None => Err("umask fix is missing umask control".to_owned()),
        }
    } else {
        Err(show_unsupported(strategy))
    }
}

/// Whether every run has the artifacts of the first, and there is one.
pub open spec fn are_stable(runs: Seq<BuildRun>) -> bool {
    runs.len() > 0 && forall|i: int|
        1 <= i < runs.len() ==> same_hashes(
            runs[0].artifacts@,
            (#[trigger] runs[i]).artifacts@,
        )
}

pub fn runs_stable(runs: &Vec<BuildRun>) -> (r: bool)
    ensures
        r == are_stable(runs@),
{
    if runs.len() == 0 {
        return false;
    }
    let mut i: usize = 1;
    while i < runs.len()
        invariant
            1 <= i <= runs@.len(),
            forall|k: int|
                1 <= k < i ==> same_hashes(
                    runs@[0].artifacts@,
                    (#[trigger] runs@[k]).artifacts@,
                ),
        decreases runs.len() - i,
    {
        if !same_artifact_hashes(&runs[0], &runs[i]) {
            assert(!same_hashes(runs@[0].artifacts@, runs@[i as int].artifacts@));
            return false;
        }
        i += 1;
    }
    true
}

/// Whether every run has the artifacts of the first baseline run.
pub open spec fn match_baseline(baseline: Seq<BuildRun>, runs: Seq<BuildRun>) -> bool {
    baseline.len() > 0 && forall|i: int|
        0 <= i < runs.len() ==> same_hashes(
            baseline[0].artifacts@,
            (#[trigger] runs[i]).artifacts@,
        )
}

fn check_match_baseline(baseline: &Vec<BuildRun>, runs: &Vec<BuildRun>) -> (r: bool)
    ensures
        r == match_baseline(baseline@, runs@),
{
    if baseline.len() == 0 {
        return false;
    }
    let mut i: usize = 0;
    while i < runs.len()
        invariant
            baseline@.len() > 0,
            i <= runs@.len(),
            forall|k: int|
                0 <= k < i ==> same_hashes(
                    baseline@[0].artifacts@,
                    (#[trigger] runs@[k]).artifacts@,
                ),
        decreases runs.len() - i,
    {
        if !same_artifact_hashes(&baseline[0], &runs[i]) {
            assert(!same_hashes(baseline@[0].artifacts@, runs@[i as int].artifacts@));
            return false;
        }
        i += 1;
    }
    true
}

/// Whether builds verify a fix: both sides are stable, and the intervention changes nothing.
pub open spec fn is_verified(baseline: Seq<BuildRun>, intervention: Seq<BuildRun>) -> bool {
    are_stable(baseline) && are_stable(intervention) && match_baseline(baseline, intervention)
}

pub open spec fn baseline_evidence_text(runs: usize, stable: bool) -> Seq<char> {
    "fixed baseline was byte-stable across "@
        + decimal_of(runs as int)
        + " run(s): "@
        + bool_text(stable)
}

pub fn show_baseline_evidence(runs: usize, stable: bool) -> (r: String)
    ensures
        r@ == baseline_evidence_text(runs, stable),
{
    let mut text = "fixed baseline was byte-stable across ".to_owned();
    text.push_str(decimal(runs as u128).as_str());
    text.push_str(" run(s): ");
    text.push_str(show_bool(stable).as_str());
    text
}

pub open spec fn patch_evidence_text(path: Seq<char>) -> Seq<char> {
    "verification applied the candidate project patch to temporary "@
        + path
        + " only; the original source tree was not modified"@
}

pub fn show_patch_evidence(path: &str) -> (r: String)
    ensures
        r@ == patch_evidence_text(path@),
{
    concat3(
        "verification applied the candidate project patch to temporary ",
        path,
        " only; the original source tree was not modified",
    )
}

pub open spec fn intervention_evidence_text(runs: usize, stable: bool) -> Seq<char> {
    "fixed intervention was byte-stable across "@
        + decimal_of(runs as int)
        + " run(s): "@
        + bool_text(stable)
}

pub fn show_intervention_evidence(runs: usize, stable: bool) -> (r: String)
    ensures
        r@ == intervention_evidence_text(runs, stable),
{
    let mut text = "fixed intervention was byte-stable across ".to_owned();
    text.push_str(decimal(runs as u128).as_str());
    text.push_str(" run(s): ");
    text.push_str(show_bool(stable).as_str());
    text
}

pub open spec fn match_evidence_text(variable: Seq<char>, matches_baseline: bool) -> Seq<char> {
    "the "@
        + variable
        + " causal dimension, replayed through the proposed normalization, produced the same declared artifact bytes as the fixed baseline: "@
        + bool_text(matches_baseline)
}

pub fn show_match_evidence(variable: &str, matches_baseline: bool) -> (r: String)
    ensures
        r@ == match_evidence_text(variable@, matches_baseline),
{
    let mut text = "the ".to_owned();
    text.push_str(variable);
    text.push_str(" causal dimension, replayed through the proposed normalization, produced the same declared artifact bytes as the fixed baseline: ");
    text.push_str(show_bool(matches_baseline).as_str());
    text
}

pub open spec fn verification_evidence(
    plan: FixPlanView,
    baseline: Seq<BuildRun>,
    intervention: Seq<BuildRun>,
) -> Seq<Seq<char>> {
    seq![baseline_evidence_text(baseline.len() as usize, are_stable(baseline))].push(
        match plan.project_patch {
            Some(patch) => patch_evidence_text(patch.path),
            None =>
                "verification used an operational normalization without modifying project files"@,
        },
    ).push(
        intervention_evidence_text(intervention.len() as usize, are_stable(intervention)),
    ).push(match_evidence_text(plan.causal_variable, match_baseline(baseline, intervention)))
}

/// What the builds of a candidate show.
pub fn judge_verification(
    plan: &FixPlan,
    experiment_id: String,
    baseline_runs: Vec<BuildRun>,
    intervention_runs: Vec<BuildRun>,
) -> (r: FixVerification)
    ensures
        r.plan_id@ == plan.id@,
        r.experiment_id == Some(experiment_id),
        r.attempted,
        r.verified == is_verified(baseline_runs@, intervention_runs@),
        r.baseline_runs == baseline_runs,
        r.intervention_runs == intervention_runs,
        r.evidence.deep_view() == verification_evidence(
            plan.deep_view(),
            baseline_runs@,
            intervention_runs@,
        ),
        r.error is None,
{
    let baseline_stable = runs_stable(&baseline_runs);
    let intervention_stable = runs_stable(&intervention_runs);
    let matches_baseline = check_match_baseline(&baseline_runs, &intervention_runs);
    let mut evidence = one_line(
        show_baseline_evidence(baseline_runs.len(), baseline_stable).as_str(),
    );
    match &plan.project_patch {
        Some(patch) => push_line(&mut evidence, show_patch_evidence(patch.path.as_str())),
        None => push_line(
            &mut evidence,
            "verification used an operational normalization without modifying project files".to_owned(),
        ),
    }
    push_line(
        &mut evidence,
        show_intervention_evidence(intervention_runs.len(), intervention_stable),
    );
    push_line(
        &mut evidence,
        show_match_evidence(plan.causal_variable.as_str(), matches_baseline),
    );
    FixVerification {
        plan_id: plan.id.clone(),
        experiment_id: Some(experiment_id),
        attempted: true,
        verified: baseline_stable && intervention_stable && matches_baseline,
        baseline_runs,
        intervention_runs,
        evidence,
        error: None,
    }
}

/// What is reported of a candidate that could not be tried: without an error because there was no
/// way to try it, with one because trying it failed.
pub fn unverified(plan: &FixPlan, error: Option<String>) -> (r: FixVerification)
    ensures
        r.plan_id@ == plan.id@,
        r.experiment_id is None,
        r.attempted == (error is Some),
        !r.verified,
        r.baseline_runs@.len() == 0,
        r.intervention_runs@.len() == 0,
        r.evidence.deep_view() == if error is Some {
            Seq::<Seq<char>>::empty()
        } else {
            seq![
                "verification was not attempted because no semantics-preserving automatic flag injection point was available"@,
            ]
        },
        r.error == error,
{
    FixVerification {
        plan_id: plan.id.clone(),
        experiment_id: None,
        attempted: error.is_some(),
        verified: false,
        baseline_runs: Vec::new(),
        intervention_runs: Vec::new(),
        evidence: if error.is_some() {
            no_lines()
        } else {
            one_line(
                "verification was not attempted because no semantics-preserving automatic flag injection point was available",
            )
        },
        error,
    }
}

pub open spec fn fix_notes(candidates: nat, status: CheckStatus, verify: bool) -> Seq<Seq<char>> {
    let a = seq![
        "fix candidates are rule-based; project patches are applied only to temporary verification copies and never to the original source tree automatically"@,
    ];
    let b = if candidates == 0 && status is NonReproducible {
        a.push(
            "no supported automatic fix rule matched the evidence; use the diagnosis remediation as manual guidance"@,
        )
    } else {
        a
    };
    if verify {
        b.push(
            "a fix is marked verified only when repeated fixed-baseline builds are stable and the original failing intervention no longer changes artifact bytes"@,
        )
    } else {
        b
    }
}

/// The report on the candidates for a check and on what their verification showed.
pub fn conclude_fix(
    diagnosis: CheckReport,
    candidates: Vec<FixPlan>,
    verifications: Vec<FixVerification>,
    verify: bool,
) -> (r: FixReport)
    ensures
        r.schema_version == FIX_REPORT_SCHEMA_CURRENT,
        r.diagnosis == diagnosis,
        r.candidates == candidates,
        r.verifications == verifications,
        r.notes.deep_view() == fix_notes(candidates@.len(), diagnosis.status, verify),
{
    let mut notes = one_line(
        "fix candidates are rule-based; project patches are applied only to temporary verification copies and never to the original source tree automatically",
    );
    if candidates.len() == 0 && diagnosis.status == CheckStatus::NonReproducible {
        push_line(
            &mut notes,
            "no supported automatic fix rule matched the evidence; use the diagnosis remediation as manual guidance".to_owned(),
        );
    }
    if verify {
        push_line(
            &mut notes,
            "a fix is marked verified only when repeated fixed-baseline builds are stable and the original failing intervention no longer changes artifact bytes".to_owned(),
        );
    }
    FixReport {
        schema_version: FIX_REPORT_SCHEMA_CURRENT,
        diagnosis,
        candidates,
        verifications,
        notes,
    }
}

/// A fix counts as verified only if the fixed baseline is stable and no build of the intervention
/// departs from it.
pub proof fn law_verified_fixes_neutralize_the_intervention(
    baseline: Seq<BuildRun>,
    intervention: Seq<BuildRun>,
    k: int,
)
    requires
        is_verified(baseline, intervention),
        0 <= k < intervention.len(),
    ensures
        are_stable(baseline),
        same_hashes(baseline[0].artifacts@, intervention[k].artifacts@),
{
    assert(intervention[k].artifacts@ == intervention[k].artifacts@);
}

/// A candidate that was applied makes any two environments agree in the setting it normalises.
pub proof fn law_candidates_neutralize_the_setting(
    plan: FixPlanView,
    a: ControlledEnvironmentView,
    b: ControlledEnvironmentView,
)
    requires
        normalized(plan, a) is Ok,
        crate::string_map::increasing(Order::Text, a.environment),
        crate::string_map::increasing(Order::Text, b.environment),
    ensures
        normalized(plan, b) is Ok,
        ({
            let left = normalized(plan, a)->Ok_0;
            let right = normalized(plan, b)->Ok_0;
            &&& plan.strategy == "pin-source-date-epoch"@ ==> value_at(
                Order::Text,
                left.environment,
                "SOURCE_DATE_EPOCH"@,
            ) == value_at(Order::Text, right.environment, "SOURCE_DATE_EPOCH"@)
            &&& plan.strategy == "normalize-source-mtime"@ ==> left.source_mtime_epoch
                == right.source_mtime_epoch
            &&& plan.strategy == "pin-umask"@ ==> left.umask == right.umask
        }),
{
    reveal_strlit("compiler-prefix-map");
    reveal_strlit("pin-source-date-epoch");
    reveal_strlit("normalize-source-mtime");
    reveal_strlit("pin-umask");
    assert("compiler-prefix-map"@.len() == 19);
    assert("pin-source-date-epoch"@.len() == 21);
    assert("normalize-source-mtime"@.len() == 22);
    assert("pin-umask"@.len() == 9);
    if plan.strategy == "pin-source-date-epoch"@ {
        let value = value_at(
            Order::Text,
            plan.suggested_environment_overrides,
            "SOURCE_DATE_EPOCH"@,
        )->0;
        crate::string_map::lemma_with_entry(
            Order::Text,
            a.environment,
            "SOURCE_DATE_EPOCH"@,
            value,
        );
        crate::string_map::lemma_with_entry(
            Order::Text,
            b.environment,
            "SOURCE_DATE_EPOCH"@,
            value,
        );
    }
}

/// Only an experiment that changed bytes and is blamed with more than low confidence gives a
/// candidate.
pub proof fn law_candidates_need_support(
    files: PatchFiles,
    config: Config,
    results: Seq<InterventionResult>,
    diagnoses: Seq<Diagnosis>,
    n: int,
    k: int,
)
    requires
        0 <= n <= results.len(),
        0 <= k < fix_plans(files, config, results, diagnoses, n).len(),
    ensures
        exists|i: int|
            0 <= i < n && (#[trigger] results[i]).changed && is_blamed(
                diagnoses,
                results[i].intervention.variable@,
            ) && result_plan(files, config, results[i]) == Some(
                fix_plans(files, config, results, diagnoses, n)[k],
            ),
    decreases n,
{
    if n > 0 {
        let before = fix_plans(files, config, results, diagnoses, n - 1);
        let all = fix_plans(files, config, results, diagnoses, n);
        if k < before.len() {
            law_candidates_need_support(files, config, results, diagnoses, n - 1, k);
            assert(all[k] == before[k]);
        } else {
            assert(results[n - 1].changed);
        }
    }
}

} // verus!
