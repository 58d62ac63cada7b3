//! From the results of experiments to diagnoses: what caused a change, how sure that is and what
//! helps.
use vstd::prelude::*;

use crate::engine::outcomes::{build_failure_is_observable, failure_shows};
use crate::engine::provenance::{
    binding_confirmed, dependency_override_confirmed, invoked_on_both_sides, override_confirmed,
    push_bindings, push_dependencies, push_dependency_overrides, push_images, push_networks,
    push_processes, toolchain_binding_confirmed, toolchain_binding_invoked_on_both_sides,
    with_bindings, with_dependencies, with_dependency_overrides, with_images, with_networks,
    with_processes,
};
use crate::model::{
    ArchiveMetadataDifference, ArchiveMetadataField, ArtifactDelta, ArtifactSemanticDifference,
    BuildFailure, BuildRun, Confidence, Diagnosis, DiagnosisView, ElfMarkerLocation, EmbeddedMarker,
    InteractionSearchResult, Intervention, InterventionKind, InterventionResult,
    StochasticEffectClassification, StochasticEffectEvidence,
};
use crate::numbers::{decimal, decimal_of, signed_decimal};
use crate::sorting::{sort_unique, sorted_set};
use crate::text::{concat, concat3, concat5, debug_option, debug_text, join, joined, push_line};
use crate::text::{quoted, quoted_option, same};

verus! {

/// Whether a statistical test supports the effect of an experiment.
pub open spec fn is_supported(result: InterventionResult) -> bool {
    match result.stochastic_effect {
        Some(evidence) => evidence.classification is Supported,
        None => false,
    }
}

fn effect_is_supported(result: &InterventionResult) -> (r: bool)
    ensures
        r == is_supported(*result),
{
    match &result.stochastic_effect {
        Some(evidence) => evidence.classification == StochasticEffectClassification::Supported,
        None => false,
    }
}

/// Whether an experiment shows an effect: changed bytes or, for some kinds, a failed build. The
/// number of processors counts only with statistical support.
pub open spec fn shows_effect(result: InterventionResult) -> bool {
    if result.intervention.kind is CpuCount {
        result.changed && is_supported(result)
    } else {
        result.changed || (failure_shows(result.intervention.kind)
            && result.build_failures@.len() > 0)
    }
}

pub fn observed_effect(result: &InterventionResult) -> (r: bool)
    ensures
        r == shows_effect(*result),
{
    if result.intervention.kind == InterventionKind::CpuCount {
        return result.changed && effect_is_supported(result);
    }
    result.changed || (build_failure_is_observable(result.intervention.kind)
        && result.build_failures.len() > 0)
}

/// Whether two runs have the same bytes, artifact by artifact.
pub open spec fn same_bytes_in_order(run: BuildRun, first: BuildRun) -> bool {
    run.artifacts@.len() == first.artifacts@.len() && forall|k: int|
        0 <= k < first.artifacts@.len() ==> (#[trigger] run.artifacts@[k]).sha256@
            == first.artifacts@[k].sha256@
}

/// Whether all varied runs of an experiment have the same bytes.
pub open spec fn is_consistent(result: InterventionResult) -> bool {
    forall|i: int|
        1 <= i < result.runs@.len() ==> same_bytes_in_order(
            #[trigger] result.runs@[i],
            result.runs@[0],
        )
}

fn check_same_bytes(run: &BuildRun, first: &BuildRun) -> (r: bool)
    ensures
        r == same_bytes_in_order(*run, *first),
{
    if run.artifacts.len() != first.artifacts.len() {
        return false;
    }
    let mut k: usize = 0;
    while k < first.artifacts.len()
        invariant
            run.artifacts@.len() == first.artifacts@.len(),
            k <= first.artifacts@.len(),
            forall|j: int|
                0 <= j < k ==> (#[trigger] run.artifacts@[j]).sha256@ == first.artifacts@[j].sha256@,
        decreases first.artifacts.len() - k,
    {
        if !same(run.artifacts[k].sha256.as_str(), first.artifacts[k].sha256.as_str()) {
            assert(run.artifacts@[k as int].sha256@ != first.artifacts@[k as int].sha256@);
            return false;
        }
        k += 1;
    }
    true
}

pub fn intervention_runs_consistent(result: &InterventionResult) -> (r: bool)
    ensures
        r == is_consistent(*result),
{
    let mut i: usize = 1;
    while i < result.runs.len()
        invariant
            1 <= i,
            result.runs@.len() > 0 ==> i <= result.runs@.len(),
            forall|j: int|
                1 <= j < i && j < result.runs@.len() ==> same_bytes_in_order(
                    #[trigger] result.runs@[j],
                    result.runs@[0],
                ),
        decreases result.runs.len() - i,
    {
        if !check_same_bytes(&result.runs[i], &result.runs[0]) {
            assert(!same_bytes_in_order(result.runs@[i as int], result.runs@[0]));
            return false;
        }
        i += 1;
    }
    true
}

/// Whether a changed artifact carries the controlled value on both sides, or differs in the very
/// field that the intervention governs.
pub open spec fn points_directly(delta: ArtifactDelta) -> bool {
    delta.changed && ((delta.baseline_direct_marker && delta.variant_direct_marker)
        || delta.direct_structural_evidence)
}

pub open spec fn has_direct_evidence(deltas: Seq<ArtifactDelta>) -> bool {
    exists|k: int| 0 <= k < deltas.len() && points_directly(#[trigger] deltas[k])
}

fn check_direct_evidence(deltas: &Vec<ArtifactDelta>) -> (r: bool)
    ensures
        r == has_direct_evidence(deltas@),
{
    let mut k: usize = 0;
    while k < deltas.len()
        invariant
            k <= deltas@.len(),
            forall|j: int| 0 <= j < k ==> !points_directly(#[trigger] deltas@[j]),
        decreases deltas.len() - k,
    {
        let delta = &deltas[k];
        if delta.changed && ((delta.baseline_direct_marker && delta.variant_direct_marker)
            || delta.direct_structural_evidence) {
            assert(points_directly(deltas@[k as int]));
            return true;
        }
        k += 1;
    }
    false
}

/// How sure the cause is.
///
/// An incomplete experiment is never sure. An image bundles many inputs and the network stands for
/// what came over it, so neither goes beyond medium. A tool must have been seen to run on both
/// sides. Otherwise a repeatable effect that reverts is medium, and high with direct evidence.
pub open spec fn confidence_of(result: InterventionResult) -> Confidence {
    let reverted = result.reverted_to_baseline == Some(true);
    let consistent = is_consistent(result);
    let direct = has_direct_evidence(result.artifact_deltas@);
    if result.error is Some {
        Confidence::Low
    } else {
        match result.intervention.kind {
            InterventionKind::NetworkAccess => if result.variant_stable == Some(true) && reverted {
                Confidence::Medium
            } else {
                Confidence::Low
            },
            InterventionKind::BuildImage => if reverted && consistent {
                Confidence::Medium
            } else {
                Confidence::Low
            },
            InterventionKind::ToolchainExecutable => if reverted && consistent
                && binding_confirmed(result) {
                Confidence::High
            } else {
                Confidence::Low
            },
            InterventionKind::DependencyFile => if reverted && consistent {
                if override_confirmed(result) {
                    Confidence::High
                } else {
                    Confidence::Medium
                }
            } else {
                Confidence::Low
            },
            _ => if result.intervention.kind is CpuCount && result.variant_stable == Some(false)
                && result.distinct_variant_outcomes >= 2 {
                if reverted && is_supported(result) {
                    Confidence::Medium
                } else {
                    Confidence::Low
                }
            } else if !consistent {
                Confidence::Low
            } else if reverted && direct {
                Confidence::High
            } else if reverted || direct {
                Confidence::Medium
            } else {
                Confidence::Low
            },
        }
    }
}

pub fn is_true(value: Option<bool>) -> (r: bool)
    ensures
        r == (value == Some(true)),
{
    match value {
        Some(b) => b,
        None => false,
    }
}

pub fn is_false(value: Option<bool>) -> (r: bool)
    ensures
        r == (value == Some(false)),
{
    match value {
        Some(b) => !b,
        None => false,
    }
}

pub fn assess_confidence(result: &InterventionResult) -> (r: Confidence)
    ensures
        r == confidence_of(*result),
{
    let reverted = is_true(result.reverted_to_baseline);
    let consistent = intervention_runs_consistent(result);
    if result.error.is_some() {
        return Confidence::Low;
    }
    match result.intervention.kind {
        InterventionKind::NetworkAccess => if is_true(result.variant_stable) && reverted {
            Confidence::Medium
        } else {
            Confidence::Low
        },
        InterventionKind::BuildImage => if reverted && consistent {
            Confidence::Medium
        } else {
            Confidence::Low
        },
        InterventionKind::ToolchainExecutable => if reverted && consistent
            && toolchain_binding_confirmed(result) {
            Confidence::High
        } else {
            Confidence::Low
        },
        InterventionKind::DependencyFile => if reverted && consistent {
            if dependency_override_confirmed(result) {
                Confidence::High
            } else {
                Confidence::Medium
            }
        } else {
            Confidence::Low
        },
        _ => {
            let direct = check_direct_evidence(&result.artifact_deltas);
            if result.intervention.kind == InterventionKind::CpuCount && is_false(
                result.variant_stable,
            ) && result.distinct_variant_outcomes >= 2 {
                if reverted && effect_is_supported(result) {
                    Confidence::Medium
                } else {
                    Confidence::Low
                }
            } else if !consistent {
                Confidence::Low
            } else if reverted && direct {
                Confidence::High
            } else if reverted || direct {
                Confidence::Medium
            } else {
                Confidence::Low
            }
        },
    }
}

/// The paths of the changed ones among the first `n` artifacts.
pub open spec fn changed_paths(deltas: Seq<ArtifactDelta>, n: int) -> Seq<Seq<char>>
    decreases n,
{
    if n <= 0 {
        Seq::empty()
    } else if deltas[n - 1].changed {
        changed_paths(deltas, n - 1).push(deltas[n - 1].logical_path@)
    } else {
        changed_paths(deltas, n - 1)
    }
}

pub fn collect_changed_paths(deltas: &Vec<ArtifactDelta>) -> (r: Vec<String>)
    ensures
        r.deep_view() == changed_paths(deltas@, deltas@.len() as int),
{
    let mut paths: Vec<String> = Vec::new();
    let mut n: usize = 0;
    assert(paths.deep_view() =~= Seq::<Seq<char>>::empty());
    while n < deltas.len()
        invariant
            n <= deltas@.len(),
            paths.deep_view() == changed_paths(deltas@, n as int),
        decreases deltas.len() - n,
    {
        if deltas[n].changed {
            push_line(&mut paths, deltas[n].logical_path.clone());
        }
        n += 1;
    }
    paths
}

pub open spec fn failing_change_text(i: Intervention, failures: usize) -> Seq<char> {
    "changing "@
        + i.variable@
        + " from "@
        + debug_text(i.baseline_value@)
        + " to "@
        + debug_text(i.variant_value@)
        + " caused the build command to exit non-zero in "@
        + decimal_of(failures as int)
        + " trial(s)"@
}

pub fn show_failing_change(i: &Intervention, failures: usize) -> (r: String)
    ensures
        r@ == failing_change_text(*i, failures),
{
    let mut text = "changing ".to_owned();
    text.push_str(i.variable.as_str());
    text.push_str(" from ");
    text.push_str(quoted(i.baseline_value.as_str()).as_str());
    text.push_str(" to ");
    text.push_str(quoted(i.variant_value.as_str()).as_str());
    text.push_str(" caused the build command to exit non-zero in ");
    text.push_str(decimal(failures as u128).as_str());
    text.push_str(" trial(s)");
    text
}

pub open spec fn changing_change_text(i: Intervention, changed: usize) -> Seq<char> {
    "changing "@
        + i.variable@
        + " from "@
        + debug_text(i.baseline_value@)
        + " to "@
        + debug_text(i.variant_value@)
        + " changed "@
        + decimal_of(changed as int)
        + " declared artifact(s)"@
}

pub fn show_changing_change(i: &Intervention, changed: usize) -> (r: String)
    ensures
        r@ == changing_change_text(*i, changed),
{
    let mut text = "changing ".to_owned();
    text.push_str(i.variable.as_str());
    text.push_str(" from ");
    text.push_str(quoted(i.baseline_value.as_str()).as_str());
    text.push_str(" to ");
    text.push_str(quoted(i.variant_value.as_str()).as_str());
    text.push_str(" changed ");
    text.push_str(decimal(changed as u128).as_str());
    text.push_str(" declared artifact(s)");
    text
}

pub open spec fn classification_text(c: StochasticEffectClassification) -> Seq<char> {
    match c {
        StochasticEffectClassification::Supported => "Supported"@,
        StochasticEffectClassification::NotSupported => "NotSupported"@,
        StochasticEffectClassification::BaselineUnstable => "BaselineUnstable"@,
    }
}

pub fn show_classification(c: StochasticEffectClassification) -> (r: &'static str)
    ensures
        r@ == classification_text(c),
{
    match c {
        StochasticEffectClassification::Supported => "Supported",
        StochasticEffectClassification::NotSupported => "NotSupported",
        StochasticEffectClassification::BaselineUnstable => "BaselineUnstable",
    }
}

pub open spec fn matched_probe_text(e: StochasticEffectEvidence) -> Seq<char> {
    "matched stochastic probe: baseline changed "@
        + decimal_of(e.baseline_changed_trials as int)
        + "/"@
        + decimal_of(e.baseline_trials as int)
        + " ("@
        + e.figures.baseline_change_rate@
        + "), variant changed "@
        + decimal_of(e.variant_changed_trials as int)
        + "/"@
        + decimal_of(e.variant_trials as int)
        + " ("@
        + e.figures.variant_change_rate@
        + "), one-sided Fisher exact p="@
        + e.figures.fisher_exact_p_value@
        + " at alpha="@
        + e.figures.alpha@
        + " ("@
        + classification_text(e.classification)
        + ")"@
}

pub fn show_matched_probe(e: &StochasticEffectEvidence) -> (r: String)
    ensures
        r@ == matched_probe_text(*e),
{
    let mut text = "matched stochastic probe: baseline changed ".to_owned();
    text.push_str(decimal(e.baseline_changed_trials as u128).as_str());
    text.push_str("/");
    text.push_str(decimal(e.baseline_trials as u128).as_str());
    text.push_str(" (");
    text.push_str(e.figures.baseline_change_rate.as_str());
    text.push_str("), variant changed ");
    text.push_str(decimal(e.variant_changed_trials as u128).as_str());
    text.push_str("/");
    text.push_str(decimal(e.variant_trials as u128).as_str());
    text.push_str(" (");
    text.push_str(e.figures.variant_change_rate.as_str());
    text.push_str("), one-sided Fisher exact p=");
    text.push_str(e.figures.fisher_exact_p_value.as_str());
    text.push_str(" at alpha=");
    text.push_str(e.figures.alpha.as_str());
    text.push_str(" (");
    text.push_str(show_classification(e.classification));
    text.push_str(")");
    text
}

pub open spec fn failure_text(f: BuildFailure, variable: Seq<char>) -> Seq<char> {
    "intervention build exited with code "@
        + decimal_of(f.exit_code as int)
        + " under controlled "@
        + debug_text(variable)
        + " input"@
}

pub fn show_failure(f: &BuildFailure, variable: &str) -> (r: String)
    ensures
        r@ == failure_text(*f, variable@),
{
    concat5(
        "intervention build exited with code ",
        signed_decimal(f.exit_code as i64).as_str(),
        " under controlled ",
        quoted(variable).as_str(),
        " input",
    )
}

pub open spec fn with_failures(
    lines: Seq<Seq<char>>,
    items: Seq<BuildFailure>,
    variable: Seq<char>,
    n: int,
) -> Seq<Seq<char>>
    decreases n,
{
    if n <= 0 {
        lines
    } else {
        with_failures(lines, items, variable, n - 1).push(failure_text(items[n - 1], variable))
    }
}

pub fn push_failures(lines: &mut Vec<String>, items: &Vec<BuildFailure>, variable: &str)
    ensures
        final(lines).deep_view() == with_failures(
            old(lines).deep_view(),
            items@,
            variable@,
            items@.len() as int,
        ),
{
    let ghost start = lines.deep_view();
    let mut n: usize = 0;
    while n < items.len()
        invariant
            n <= items@.len(),
            lines.deep_view() == with_failures(start, items@, variable@, n as int),
        decreases items.len() - n,
    {
        push_line(lines, show_failure(&items[n], variable));
        n += 1;
    }
}

pub open spec fn stable_runs_text(runs: usize) -> Seq<char> {
    "the intervention effect was byte-stable across "@
        + decimal_of(runs as int)
        + " intervention runs"@
}

pub fn show_stable_runs(runs: usize) -> (r: String)
    ensures
        r@ == stable_runs_text(runs),
{
    concat3(
        "the intervention effect was byte-stable across ",
        decimal(runs as u128).as_str(),
        " intervention runs",
    )
}

pub open spec fn unstable_runs_text(outcomes: usize, runs: usize) -> Seq<char> {
    "intervention runs produced "@
        + decimal_of(outcomes as int)
        + " distinct artifact outcome(s) across "@
        + decimal_of(runs as int)
        + " trial(s)"@
}

pub fn show_unstable_runs(outcomes: usize, runs: usize) -> (r: String)
    ensures
        r@ == unstable_runs_text(outcomes, runs),
{
    concat5(
        "intervention runs produced ",
        decimal(outcomes as u128).as_str(),
        " distinct artifact outcome(s) across ",
        decimal(runs as u128).as_str(),
        " trial(s)",
    )
}

pub open spec fn found_marker_text(m: EmbeddedMarker) -> Seq<char> {
    "artifact bytes contain a controlled value for "@ + m.variable@ + ": "@ + debug_text(m.value@)
}

pub fn show_found_marker(m: &EmbeddedMarker) -> (r: String)
    ensures
        r@ == found_marker_text(*m),
{
    let mut text = "artifact bytes contain a controlled value for ".to_owned();
    text.push_str(m.variable.as_str());
    text.push_str(": ");
    text.push_str(quoted(m.value.as_str()).as_str());
    text
}

pub open spec fn with_markers(
    lines: Seq<Seq<char>>,
    items: Seq<EmbeddedMarker>,
    n: int,
) -> Seq<Seq<char>>
    decreases n,
{
    if n <= 0 {
        lines
    } else {
        with_markers(lines, items, n - 1).push(found_marker_text(items[n - 1]))
    }
}

pub fn push_markers(lines: &mut Vec<String>, items: &Vec<EmbeddedMarker>)
    ensures
        final(lines).deep_view() == with_markers(
            old(lines).deep_view(),
            items@,
            items@.len() as int,
        ),
{
    let ghost start = lines.deep_view();
    let mut n: usize = 0;
    while n < items.len()
        invariant
            n <= items@.len(),
            lines.deep_view() == with_markers(start, items@, n as int),
        decreases items.len() - n,
    {
        push_line(lines, show_found_marker(&items[n]));
        n += 1;
    }
}

pub open spec fn found_debug_marker_text(m: EmbeddedMarker) -> Seq<char> {
    "ELF debug bytes contain a controlled value for "@ + m.variable@ + ": "@ + debug_text(m.value@)
}

pub fn show_found_debug_marker(m: &EmbeddedMarker) -> (r: String)
    ensures
        r@ == found_debug_marker_text(*m),
{
    let mut text = "ELF debug bytes contain a controlled value for ".to_owned();
    text.push_str(m.variable.as_str());
    text.push_str(": ");
    text.push_str(quoted(m.value.as_str()).as_str());
    text
}

pub open spec fn with_debug_markers(
    lines: Seq<Seq<char>>,
    items: Seq<EmbeddedMarker>,
    n: int,
) -> Seq<Seq<char>>
    decreases n,
{
    if n <= 0 {
        lines
    } else {
        with_debug_markers(lines, items, n - 1).push(found_debug_marker_text(items[n - 1]))
    }
}

pub fn push_debug_markers(lines: &mut Vec<String>, items: &Vec<EmbeddedMarker>)
    ensures
        final(lines).deep_view() == with_debug_markers(
            old(lines).deep_view(),
            items@,
            items@.len() as int,
        ),
{
    let ghost start = lines.deep_view();
    let mut n: usize = 0;
    while n < items.len()
        invariant
            n <= items@.len(),
            lines.deep_view() == with_debug_markers(start, items@, n as int),
        decreases items.len() - n,
    {
        push_line(lines, show_found_debug_marker(&items[n]));
        n += 1;
    }
}

pub open spec fn found_location_text(l: ElfMarkerLocation) -> Seq<char> {
    "ELF section "@
        + l.section@
        + " contains controlled "@
        + l.variable@
        + " value "@
        + debug_text(l.value@)
}

pub fn show_found_location(l: &ElfMarkerLocation) -> (r: String)
    ensures
        r@ == found_location_text(*l),
{
    let mut text = "ELF section ".to_owned();
    text.push_str(l.section.as_str());
    text.push_str(" contains controlled ");
    text.push_str(l.variable.as_str());
    text.push_str(" value ");
    text.push_str(quoted(l.value.as_str()).as_str());
    text
}

pub open spec fn with_locations(
    lines: Seq<Seq<char>>,
    items: Seq<ElfMarkerLocation>,
    n: int,
) -> Seq<Seq<char>>
    decreases n,
{
    if n <= 0 {
        lines
    } else {
        with_locations(lines, items, n - 1).push(found_location_text(items[n - 1]))
    }
}

pub fn push_locations(lines: &mut Vec<String>, items: &Vec<ElfMarkerLocation>)
    ensures
        final(lines).deep_view() == with_locations(
            old(lines).deep_view(),
            items@,
            items@.len() as int,
        ),
{
    let ghost start = lines.deep_view();
    let mut n: usize = 0;
    while n < items.len()
        invariant
            n <= items@.len(),
            lines.deep_view() == with_locations(start, items@, n as int),
        decreases items.len() - n,
    {
        push_line(lines, show_found_location(&items[n]));
        n += 1;
    }
}

pub open spec fn field_name(field: ArchiveMetadataField) -> Seq<char> {
    match field {
        ArchiveMetadataField::MemberCount => "MemberCount"@,
        ArchiveMetadataField::MemberOrder => "MemberOrder"@,
        ArchiveMetadataField::Mtime => "Mtime"@,
        ArchiveMetadataField::Uid => "Uid"@,
        ArchiveMetadataField::Gid => "Gid"@,
        ArchiveMetadataField::Mode => "Mode"@,
        ArchiveMetadataField::Size => "Size"@,
        ArchiveMetadataField::ContainerMtime => "ContainerMtime"@,
    }
}

pub fn show_field_name(field: ArchiveMetadataField) -> (r: &'static str)
    ensures
        r@ == field_name(field),
{
    match field {
        ArchiveMetadataField::MemberCount => "MemberCount",
        ArchiveMetadataField::MemberOrder => "MemberOrder",
        ArchiveMetadataField::Mtime => "Mtime",
        ArchiveMetadataField::Uid => "Uid",
        ArchiveMetadataField::Gid => "Gid",
        ArchiveMetadataField::Mode => "Mode",
        ArchiveMetadataField::Size => "Size",
        ArchiveMetadataField::ContainerMtime => "ContainerMtime",
    }
}

/// The member that a difference is about, if it is about one.
pub open spec fn member_text(member: Option<String>) -> Seq<char> {
    match member {
        Some(name) => " for member "@ + debug_text(name@),
        None => ""@,
    }
}

fn show_member(member: &Option<String>) -> (r: String)
    ensures
        r@ == member_text(*member),
{
    match member {
        Some(name) => concat(" for member ", quoted(name.as_str()).as_str()),
        None => "".to_owned(),
    }
}

pub open spec fn archive_difference_text(d: ArchiveMetadataDifference) -> Seq<char> {
    "archive metadata "@
        + field_name(d.field)
        + member_text(d.member)
        + " changed from "@
        + debug_option(d.baseline.deep_view())
        + " to "@
        + debug_option(d.variant.deep_view())
}

pub fn show_archive_difference(d: &ArchiveMetadataDifference) -> (r: String)
    ensures
        r@ == archive_difference_text(*d),
{
    let mut text = "archive metadata ".to_owned();
    text.push_str(show_field_name(d.field));
    text.push_str(show_member(&d.member).as_str());
    text.push_str(" changed from ");
    text.push_str(quoted_option(&d.baseline).as_str());
    text.push_str(" to ");
    text.push_str(quoted_option(&d.variant).as_str());
    text
}

pub open spec fn with_archive_differences(
    lines: Seq<Seq<char>>,
    items: Seq<ArchiveMetadataDifference>,
    n: int,
) -> Seq<Seq<char>>
    decreases n,
{
    if n <= 0 {
        lines
    } else {
        with_archive_differences(lines, items, n - 1).push(archive_difference_text(items[n - 1]))
    }
}

pub fn push_archive_differences(lines: &mut Vec<String>, items: &Vec<ArchiveMetadataDifference>)
    ensures
        final(lines).deep_view() == with_archive_differences(
            old(lines).deep_view(),
            items@,
            items@.len() as int,
        ),
{
    let ghost start = lines.deep_view();
    let mut n: usize = 0;
    while n < items.len()
        invariant
            n <= items@.len(),
            lines.deep_view() == with_archive_differences(start, items@, n as int),
        decreases items.len() - n,
    {
        push_line(lines, show_archive_difference(&items[n]));
        n += 1;
    }
}

pub open spec fn semantic_difference_text(d: ArtifactSemanticDifference) -> Seq<char> {
    "artifact semantic field "@
        + d.field@
        + " changed from "@
        + debug_option(d.baseline.deep_view())
        + " to "@
        + debug_option(d.variant.deep_view())
}

pub fn show_semantic_difference(d: &ArtifactSemanticDifference) -> (r: String)
    ensures
        r@ == semantic_difference_text(*d),
{
    let mut text = "artifact semantic field ".to_owned();
    text.push_str(d.field.as_str());
    text.push_str(" changed from ");
    text.push_str(quoted_option(&d.baseline).as_str());
    text.push_str(" to ");
    text.push_str(quoted_option(&d.variant).as_str());
    text
}

pub open spec fn with_semantic_differences(
    lines: Seq<Seq<char>>,
    items: Seq<ArtifactSemanticDifference>,
    n: int,
) -> Seq<Seq<char>>
    decreases n,
{
    if n <= 0 {
        lines
    } else {
        with_semantic_differences(lines, items, n - 1).push(semantic_difference_text(items[n - 1]))
    }
}

pub fn push_semantic_differences(lines: &mut Vec<String>, items: &Vec<ArtifactSemanticDifference>)
    ensures
        final(lines).deep_view() == with_semantic_differences(
            old(lines).deep_view(),
            items@,
            items@.len() as int,
        ),
{
    let ghost start = lines.deep_view();
    let mut n: usize = 0;
    while n < items.len()
        invariant
            n <= items@.len(),
            lines.deep_view() == with_semantic_differences(start, items@, n as int),
        decreases items.len() - n,
    {
        push_line(lines, show_semantic_difference(&items[n]));
        n += 1;
    }
}

/// The markers in one artifact.
pub open spec fn with_delta_markers(lines: Seq<Seq<char>>, delta: ArtifactDelta) -> Seq<Seq<char>> {
    with_markers(lines, delta.marker_evidence@, delta.marker_evidence@.len() as int)
}

fn push_delta_markers(lines: &mut Vec<String>, delta: &ArtifactDelta)
    ensures
        final(lines).deep_view() == with_delta_markers(old(lines).deep_view(), *delta),
{
    push_markers(lines, &delta.marker_evidence);
}

pub open spec fn with_all_markers(
    lines: Seq<Seq<char>>,
    items: Seq<ArtifactDelta>,
    n: int,
) -> Seq<Seq<char>>
    decreases n,
{
    if n <= 0 {
        lines
    } else {
        with_delta_markers(with_all_markers(lines, items, n - 1), items[n - 1])
    }
}

pub fn push_all_markers(lines: &mut Vec<String>, items: &Vec<ArtifactDelta>)
    ensures
        final(lines).deep_view() == with_all_markers(
            old(lines).deep_view(),
            items@,
            items@.len() as int,
        ),
{
    let ghost start = lines.deep_view();
    let mut n: usize = 0;
    while n < items.len()
        invariant
            n <= items@.len(),
            lines.deep_view() == with_all_markers(start, items@, n as int),
        decreases items.len() - n,
    {
        push_delta_markers(lines, &items[n]);
        n += 1;
    }
}

/// The markers in the debug sections of one artifact.
pub open spec fn with_delta_debug_markers(lines: Seq<Seq<char>>, delta: ArtifactDelta) -> Seq<Seq<char>> {
    with_debug_markers(
        lines,
        delta.elf_debug_marker_evidence@,
        delta.elf_debug_marker_evidence@.len() as int,
    )
}

fn push_delta_debug_markers(lines: &mut Vec<String>, delta: &ArtifactDelta)
    ensures
        final(lines).deep_view() == with_delta_debug_markers(old(lines).deep_view(), *delta),
{
    push_debug_markers(lines, &delta.elf_debug_marker_evidence);
}

pub open spec fn with_all_debug_markers(
    lines: Seq<Seq<char>>,
    items: Seq<ArtifactDelta>,
    n: int,
) -> Seq<Seq<char>>
    decreases n,
{
    if n <= 0 {
        lines
    } else {
        with_delta_debug_markers(with_all_debug_markers(lines, items, n - 1), items[n - 1])
    }
}

pub fn push_all_debug_markers(lines: &mut Vec<String>, items: &Vec<ArtifactDelta>)
    ensures
        final(lines).deep_view() == with_all_debug_markers(
            old(lines).deep_view(),
            items@,
            items@.len() as int,
        ),
{
    let ghost start = lines.deep_view();
    let mut n: usize = 0;
    while n < items.len()
        invariant
            n <= items@.len(),
            lines.deep_view() == with_all_debug_markers(start, items@, n as int),
        decreases items.len() - n,
    {
        push_delta_debug_markers(lines, &items[n]);
        n += 1;
    }
}

/// Where the structure of a changed artifact differs.
pub open spec fn with_delta_structure(lines: Seq<Seq<char>>, delta: ArtifactDelta) -> Seq<Seq<char>> {
    let a = with_locations(
        lines,
        delta.elf_marker_location_evidence@,
        delta.elf_marker_location_evidence@.len() as int,
    );
    let b = with_archive_differences(
        a,
        delta.archive_metadata_evidence@,
        delta.archive_metadata_evidence@.len() as int,
    );
    with_semantic_differences(
        b,
        delta.semantic_evidence@,
        delta.semantic_evidence@.len() as int,
    )
}

fn push_delta_structure(lines: &mut Vec<String>, delta: &ArtifactDelta)
    ensures
        final(lines).deep_view() == with_delta_structure(old(lines).deep_view(), *delta),
{
    push_locations(lines, &delta.elf_marker_location_evidence);
    push_archive_differences(lines, &delta.archive_metadata_evidence);
    push_semantic_differences(lines, &delta.semantic_evidence);
}

pub open spec fn with_structure(
    lines: Seq<Seq<char>>,
    items: Seq<ArtifactDelta>,
    n: int,
) -> Seq<Seq<char>>
    decreases n,
{
    if n <= 0 {
        lines
    } else if items[n - 1].changed {
        with_delta_structure(with_structure(lines, items, n - 1), items[n - 1])
    } else {
        with_structure(lines, items, n - 1)
    }
}

pub fn push_structure(lines: &mut Vec<String>, items: &Vec<ArtifactDelta>)
    ensures
        final(lines).deep_view() == with_structure(
            old(lines).deep_view(),
            items@,
            items@.len() as int,
        ),
{
    let ghost start = lines.deep_view();
    let mut n: usize = 0;
    while n < items.len()
        invariant
            n <= items@.len(),
            lines.deep_view() == with_structure(start, items@, n as int),
        decreases items.len() - n,
    {
        if items[n].changed {
            push_delta_structure(lines, &items[n]);
        }
        n += 1;
    }
}

/// What happened when the intervention was made.
pub open spec fn effect_text(result: InterventionResult) -> Seq<char> {
    if failure_shows(result.intervention.kind) && result.build_failures@.len() > 0
        && !result.changed {
        failing_change_text(result.intervention, result.build_failures@.len() as usize)
    } else {
        changing_change_text(
            result.intervention,
            changed_paths(
                result.artifact_deltas@,
                result.artifact_deltas@.len() as int,
            ).len() as usize,
        )
    }
}

/// What happened, how it repeated and whether it reverted.
pub open spec fn course_lines(result: InterventionResult) -> Seq<Seq<char>> {
    let a = seq![effect_text(result)];
    let b = match result.stochastic_effect {
        Some(e) => a.push(matched_probe_text(e)),
        None => a,
    };
    let c = with_failures(
        b,
        result.build_failures@,
        result.intervention.variable@,
        result.build_failures@.len() as int,
    );
    let d = if result.runs@.len() > 1 {
        c.push(
            if is_consistent(result) {
                stable_runs_text(result.runs@.len() as usize)
            } else {
                unstable_runs_text(result.distinct_variant_outcomes, result.runs@.len() as usize)
            },
        )
    } else {
        c
    };
    let e = match result.error {
        Some(error) => d.push("experiment warning: "@ + error@),
        None => d,
    };
    match result.reverted_to_baseline {
        Some(true) => e.push(
            "a subsequent baseline reversion reproduced the original baseline artifact bytes"@,
        ),
        Some(false) => e.push(
            "a subsequent baseline reversion did not reproduce the original baseline bytes"@,
        ),
        None => e,
    }
}

/// What the records of the builds add.
pub open spec fn with_records(lines: Seq<Seq<char>>, result: InterventionResult) -> Seq<Seq<char>> {
    let a = match result.intervention.kind {
        InterventionKind::BuildImage => with_images(lines, result),
        InterventionKind::ToolchainExecutable => with_bindings(lines, result),
        InterventionKind::DependencyFile => with_dependency_overrides(lines, result),
        _ => lines,
    };
    with_dependencies(with_processes(with_networks(a, result), result), result)
}

/// What the artifacts add.
pub open spec fn with_artifacts(lines: Seq<Seq<char>>, deltas: Seq<ArtifactDelta>) -> Seq<Seq<char>> {
    let n = deltas.len() as int;
    with_structure(
        with_all_debug_markers(with_all_markers(lines, deltas, n), deltas, n),
        deltas,
        n,
    )
}

/// All evidence of an experiment, in order and without repetition.
pub open spec fn evidence_of(result: InterventionResult) -> Seq<Seq<char>> {
    sorted_set::<String>(
        with_artifacts(with_records(course_lines(result), result), result.artifact_deltas@),
    )
}

fn describe_effect(result: &InterventionResult) -> (r: String)
    ensures
        r@ == effect_text(*result),
{
    if build_failure_is_observable(result.intervention.kind) && result.build_failures.len() > 0
        && !result.changed {
        show_failing_change(&result.intervention, result.build_failures.len())
    } else {
        let paths = collect_changed_paths(&result.artifact_deltas);
        assert(paths.deep_view().len() == paths@.len());
        show_changing_change(&result.intervention, paths.len())
    }
}

fn push_course(lines: &mut Vec<String>, result: &InterventionResult)
    requires
        old(lines)@.len() == 0,
    ensures
        final(lines).deep_view() == course_lines(*result),
{
    assert(lines.deep_view() =~= Seq::<Seq<char>>::empty());
    push_line(lines, describe_effect(result));
    assert(lines.deep_view() =~= seq![effect_text(*result)]);
    if let Some(e) = &result.stochastic_effect {
        push_line(lines, show_matched_probe(e));
    }
    push_failures(lines, &result.build_failures, result.intervention.variable.as_str());
    if result.runs.len() > 1 {
        if intervention_runs_consistent(result) {
            push_line(lines, show_stable_runs(result.runs.len()));
        } else {
            push_line(
                lines,
                show_unstable_runs(result.distinct_variant_outcomes, result.runs.len()),
            );
        }
    }
    if let Some(error) = &result.error {
        push_line(lines, concat("experiment warning: ", error.as_str()));
    }
    match result.reverted_to_baseline {
        Some(true) => push_line(
            lines,
            "a subsequent baseline reversion reproduced the original baseline artifact bytes".to_owned(),
        ),
        Some(false) => push_line(
            lines,
            "a subsequent baseline reversion did not reproduce the original baseline bytes".to_owned(),
        ),
        None => {},
    }
}

fn push_records(lines: &mut Vec<String>, result: &InterventionResult)
    ensures
        final(lines).deep_view() == with_records(old(lines).deep_view(), *result),
{
    match result.intervention.kind {
        InterventionKind::BuildImage => push_images(lines, result),
        InterventionKind::ToolchainExecutable => push_bindings(lines, result),
        InterventionKind::DependencyFile => push_dependency_overrides(lines, result),
        _ => {},
    }
    push_networks(lines, result);
    push_processes(lines, result);
    push_dependencies(lines, result);
}

pub fn gather_evidence(result: &InterventionResult) -> (r: Vec<String>)
    ensures
        r.deep_view() == evidence_of(*result),
{
    let mut lines: Vec<String> = Vec::new();
    push_course(&mut lines, result);
    push_records(&mut lines, result);
    push_all_markers(&mut lines, &result.artifact_deltas);
    push_all_debug_markers(&mut lines, &result.artifact_deltas);
    push_structure(&mut lines, &result.artifact_deltas);
    sort_unique(lines)
}

/// Whether some artifact differs in this semantic field.
pub open spec fn differs_in(deltas: Seq<ArtifactDelta>, field: Seq<char>) -> bool {
    exists|k: int, d: int|
        0 <= k < deltas.len() && 0 <= d < deltas[k].semantic_evidence@.len() && (
        #[trigger] deltas[k].semantic_evidence@[d]).field@ == field
}

pub fn has_semantic_field(result: &InterventionResult, field: &str) -> (r: bool)
    ensures
        r == differs_in(result.artifact_deltas@, field@),
{
    let deltas = &result.artifact_deltas;
    let mut k: usize = 0;
    while k < deltas.len()
        invariant
            *deltas == result.artifact_deltas,
            k <= deltas@.len(),
            forall|j: int, d: int|
                0 <= j < k && 0 <= d < deltas@[j].semantic_evidence@.len() ==> (
                #[trigger] deltas@[j].semantic_evidence@[d]).field@ != field@,
        decreases deltas.len() - k,
    {
        let mut d: usize = 0;
        while d < deltas[k].semantic_evidence.len()
            invariant
                *deltas == result.artifact_deltas,
                k < deltas@.len(),
                d <= deltas@[k as int].semantic_evidence@.len(),
                forall|e: int|
                    0 <= e < d ==> (#[trigger] deltas@[k as int].semantic_evidence@[e]).field@
                        != field@,
            decreases deltas@[k as int].semantic_evidence@.len() - d,
        {
            if same(deltas[k].semantic_evidence[d].field.as_str(), field) {
                assert(result.artifact_deltas@[k as int].semantic_evidence@[d as int].field@
                    == field@);
                return true;
            }
            d += 1;
        }
        k += 1;
    }
    false
}

pub open spec fn tool_output_text(variable: Seq<char>) -> Seq<char> {
    "Build output depends on "@ + variable + " executable selection"@
}

pub fn show_tool_output(variable: &str) -> (r: String)
    ensures
        r@ == tool_output_text(variable@),
{
    concat3("Build output depends on ", variable, " executable selection")
}

pub open spec fn tool_success_text(variable: Seq<char>) -> Seq<char> {
    "Build success depends on "@ + variable + " executable selection"@
}

pub fn show_tool_success(variable: &str) -> (r: String)
    ensures
        r@ == tool_success_text(variable@),
{
    concat3("Build success depends on ", variable, " executable selection")
}

pub open spec fn binding_output_text(variable: Seq<char>) -> Seq<char> {
    "Build output depends on "@ + variable + " binding value"@
}

pub fn show_binding_output(variable: &str) -> (r: String)
    ensures
        r@ == binding_output_text(variable@),
{
    concat3("Build output depends on ", variable, " binding value")
}

pub open spec fn binding_success_text(variable: Seq<char>) -> Seq<char> {
    "Build success depends on "@ + variable + " binding value"@
}

pub fn show_binding_success(variable: &str) -> (r: String)
    ensures
        r@ == binding_success_text(variable@),
{
    concat3("Build success depends on ", variable, " binding value")
}

pub open spec fn plain_output_text(variable: Seq<char>) -> Seq<char> {
    "Build output depends on "@ + variable
}

pub fn show_plain_output(variable: &str) -> (r: String)
    ensures
        r@ == plain_output_text(variable@),
{
    concat("Build output depends on ", variable)
}

pub open spec fn plain_success_text(variable: Seq<char>) -> Seq<char> {
    "Build success depends on "@ + variable
}

pub fn show_plain_success(variable: &str) -> (r: String)
    ensures
        r@ == plain_success_text(variable@),
{
    concat("Build success depends on ", variable)
}

pub open spec fn variable_output_text(variable: Seq<char>) -> Seq<char> {
    "Build output depends on environment variable "@ + variable
}

pub fn show_variable_output(variable: &str) -> (r: String)
    ensures
        r@ == variable_output_text(variable@),
{
    concat("Build output depends on environment variable ", variable)
}

pub open spec fn variable_advice_text(variable: Seq<char>) -> Seq<char> {
    "remove, normalize, or explicitly declare "@ + variable + " as a build input"@
}

pub fn show_variable_advice(variable: &str) -> (r: String)
    ensures
        r@ == variable_advice_text(variable@),
{
    concat3("remove, normalize, or explicitly declare ", variable, " as a build input")
}

/// The one-line account of an effect.
pub open spec fn title_of(result: InterventionResult) -> Seq<char> {
    let variable = result.intervention.variable@;
    let built = result.build_failures@.len() == 0;
    match result.intervention.kind {
        InterventionKind::BuildImage => "Build output depends on the container/toolchain image"@,
        InterventionKind::ToolchainExecutable => if invoked_on_both_sides(result) {
            if built {
                tool_output_text(variable)
            } else {
                tool_success_text(variable)
            }
        } else if built {
            binding_output_text(variable)
        } else {
            binding_success_text(variable)
        },
        InterventionKind::DependencyFile => if built {
            plain_output_text(variable)
        } else {
            plain_success_text(variable)
        },
        InterventionKind::NetworkAccess => if built {
            "Build output depends on network availability"@
        } else {
            "Build requires network availability"@
        },
        InterventionKind::SourcePath => "Build output depends on the source path"@,
        InterventionKind::BuildPath => "Build output depends on the build/workspace path"@,
        InterventionKind::SourceDateEpoch => "Build output depends on build timestamp input"@,
        InterventionKind::SourceMtime => "Build output depends on source filesystem mtimes"@,
        InterventionKind::Timezone => "Build output depends on timezone"@,
        InterventionKind::Locale => "Build output depends on locale"@,
        InterventionKind::Hostname => "Build output depends on hostname"@,
        InterventionKind::EnvironmentVariable => variable_output_text(variable),
        InterventionKind::CpuCount => if result.variant_stable == Some(false) {
            "Parallel build exhibits nondeterministic output"@
        } else {
            "Build output depends on CPU/parallelism setting"@
        },
        InterventionKind::Umask => "Build output depends on process umask"@,
        InterventionKind::DirectoryOrder =>
            "Build output is sensitive to source materialization/enumeration order"@,
    }
}

fn choose_title(result: &InterventionResult) -> (r: String)
    ensures
        r@ == title_of(*result),
{
    let variable = result.intervention.variable.as_str();
    let built = result.build_failures.len() == 0;
    match result.intervention.kind {
        InterventionKind::BuildImage =>
            "Build output depends on the container/toolchain image".to_owned(),
        InterventionKind::ToolchainExecutable => if toolchain_binding_invoked_on_both_sides(
            result,
        ) {
            if built {
                show_tool_output(variable)
            } else {
                show_tool_success(variable)
            }
        } else if built {
            show_binding_output(variable)
        } else {
            show_binding_success(variable)
        },
        InterventionKind::DependencyFile => if built {
            show_plain_output(variable)
        } else {
            show_plain_success(variable)
        },
        InterventionKind::NetworkAccess => if built {
            "Build output depends on network availability".to_owned()
        } else {
            "Build requires network availability".to_owned()
        },
        InterventionKind::SourcePath => "Build output depends on the source path".to_owned(),
        InterventionKind::BuildPath => "Build output depends on the build/workspace path".to_owned(),
        InterventionKind::SourceDateEpoch =>
            "Build output depends on build timestamp input".to_owned(),
        InterventionKind::SourceMtime =>
            "Build output depends on source filesystem mtimes".to_owned(),
        InterventionKind::Timezone => "Build output depends on timezone".to_owned(),
        InterventionKind::Locale => "Build output depends on locale".to_owned(),
        InterventionKind::Hostname => "Build output depends on hostname".to_owned(),
        InterventionKind::EnvironmentVariable => show_variable_output(variable),
        InterventionKind::CpuCount => if is_false(result.variant_stable) {
            "Parallel build exhibits nondeterministic output".to_owned()
        } else {
            "Build output depends on CPU/parallelism setting".to_owned()
        },
        InterventionKind::Umask => "Build output depends on process umask".to_owned(),
        InterventionKind::DirectoryOrder =>
            "Build output is sensitive to source materialization/enumeration order".to_owned(),
    }
}

/// What helps against an effect.
pub open spec fn advice_of(result: InterventionResult) -> Seq<Seq<char>> {
    match result.intervention.kind {
        InterventionKind::BuildImage => seq![
            "pin the build image by immutable digest and record compiler/linker/package versions as declared build inputs"@,
            "narrow the image-level effect with a smaller toolchain-only intervention before attributing the cause to a specific compiler or linker"@,
        ],
        InterventionKind::ToolchainExecutable => seq![
            "pin the selected compiler/linker/archive executable and version as an explicit build input"@,
            "if portability across tool versions is required, compare emitted metadata/flags and narrow the difference to a compiler phase or linker option"@,
        ],
        InterventionKind::DependencyFile => seq![
            "pin the dependency declaration/lockfile and verify resolved package content by digest in offline builds"@,
            "narrow multi-package lockfile changes to one dependency coordinate before attributing the effect to a specific package"@,
        ],
        InterventionKind::NetworkAccess => seq![
            "vendor or prefetch dependencies into a content-addressed cache and run the build with networking disabled"@,
            "pin remote inputs by cryptographic digest and treat any unavoidable network fetches as explicit declarative inputs"@,
        ],
        InterventionKind::SourcePath => seq![
            "avoid embedding absolute source paths in generated outputs"@,
            "for GCC/Clang, consider -ffile-prefix-map=<source>=. and -fdebug-prefix-map=<source>=.; for rustc, consider --remap-path-prefix=<source>=."@,
        ],
        InterventionKind::BuildPath => seq![
            "avoid embedding absolute build paths in generated outputs"@,
            "for GCC/Clang, consider -ffile-prefix-map=<build>=. and -fdebug-prefix-map=<build>=.; for rustc, consider --remap-path-prefix=<build>=."@,
        ],
        InterventionKind::SourceMtime => seq![
            "normalize archive/member timestamps from SOURCE_DATE_EPOCH or another declared epoch"@,
            "do not copy source mtimes into output metadata unless they are intentional build inputs"@,
        ],
        InterventionKind::Timezone => seq![
            "run time-sensitive generation with a fixed timezone such as TZ=UTC"@,
            "serialize timestamps in an explicit timezone rather than the host default"@,
        ],
        InterventionKind::Locale => seq![
            "pin LANG/LC_ALL for build-time sorting, formatting, parsing, and generated text"@,
            "use locale-independent ordering and formatting where output bytes are expected to be reproducible"@,
        ],
        InterventionKind::Hostname => seq![
            "avoid embedding the build host name in artifacts or generated metadata"@,
            "replace host-derived identifiers with stable declarative build metadata"@,
        ],
        InterventionKind::CpuCount => seq![
            "make aggregation, link, and archive ordering independent of task completion order"@,
            "investigate race conditions and non-deterministic parallel build steps before merely forcing serial execution"@,
        ],
        InterventionKind::Umask => seq![
            "normalize output permissions explicitly rather than inheriting the ambient process umask"@,
            "when creating archives, write deterministic member modes"@,
        ],
        InterventionKind::DirectoryOrder => seq![
            "sort filesystem enumeration results before aggregation, archiving, linking, or code generation"@,
            "make member ordering explicit instead of relying on readdir/find/glob traversal order"@,
        ],
        InterventionKind::SourceDateEpoch => {
            let both = seq![
                "make generated timestamps deterministic and honor SOURCE_DATE_EPOCH where applicable"@,
                "avoid embedding wall-clock build time unless it is an intentional declarative input"@,
            ];
            if differs_in(result.artifact_deltas@, "coff_timestamp"@) {
                both.push(
                    "for PE/COFF outputs, enable the selected linker/toolchain's deterministic timestamp or reproducible-build mode rather than emitting a wall-clock COFF timestamp"@,
                )
            } else {
                both
            }
        },
        InterventionKind::EnvironmentVariable => seq![
            variable_advice_text(result.intervention.variable@),
        ],
    }
}

fn two_lines(a: &str, b: &str) -> (r: Vec<String>)
    ensures
        r.deep_view() == seq![a@, b@],
{
    let mut lines: Vec<String> = Vec::new();
    lines.push(a.to_owned());
    lines.push(b.to_owned());
    assert(lines.deep_view() =~= seq![a@, b@]);
    lines
}

fn choose_advice(result: &InterventionResult) -> (r: Vec<String>)
    ensures
        r.deep_view() == advice_of(*result),
{
    match result.intervention.kind {
        InterventionKind::BuildImage => two_lines(
            "pin the build image by immutable digest and record compiler/linker/package versions as declared build inputs",
            "narrow the image-level effect with a smaller toolchain-only intervention before attributing the cause to a specific compiler or linker",
        ),
        InterventionKind::ToolchainExecutable => two_lines(
            "pin the selected compiler/linker/archive executable and version as an explicit build input",
            "if portability across tool versions is required, compare emitted metadata/flags and narrow the difference to a compiler phase or linker option",
        ),
        InterventionKind::DependencyFile => two_lines(
            "pin the dependency declaration/lockfile and verify resolved package content by digest in offline builds",
            "narrow multi-package lockfile changes to one dependency coordinate before attributing the effect to a specific package",
        ),
        InterventionKind::NetworkAccess => two_lines(
            "vendor or prefetch dependencies into a content-addressed cache and run the build with networking disabled",
            "pin remote inputs by cryptographic digest and treat any unavoidable network fetches as explicit declarative inputs",
        ),
        InterventionKind::SourcePath => two_lines(
            "avoid embedding absolute source paths in generated outputs",
            "for GCC/Clang, consider -ffile-prefix-map=<source>=. and -fdebug-prefix-map=<source>=.; for rustc, consider --remap-path-prefix=<source>=.",
        ),
        InterventionKind::BuildPath => two_lines(
            "avoid embedding absolute build paths in generated outputs",
            "for GCC/Clang, consider -ffile-prefix-map=<build>=. and -fdebug-prefix-map=<build>=.; for rustc, consider --remap-path-prefix=<build>=.",
        ),
        InterventionKind::SourceMtime => two_lines(
            "normalize archive/member timestamps from SOURCE_DATE_EPOCH or another declared epoch",
            "do not copy source mtimes into output metadata unless they are intentional build inputs",
        ),
        InterventionKind::Timezone => two_lines(
            "run time-sensitive generation with a fixed timezone such as TZ=UTC",
            "serialize timestamps in an explicit timezone rather than the host default",
        ),
        InterventionKind::Locale => two_lines(
            "pin LANG/LC_ALL for build-time sorting, formatting, parsing, and generated text",
            "use locale-independent ordering and formatting where output bytes are expected to be reproducible",
        ),
        InterventionKind::Hostname => two_lines(
            "avoid embedding the build host name in artifacts or generated metadata",
            "replace host-derived identifiers with stable declarative build metadata",
        ),
        InterventionKind::CpuCount => two_lines(
            "make aggregation, link, and archive ordering independent of task completion order",
            "investigate race conditions and non-deterministic parallel build steps before merely forcing serial execution",
        ),
        InterventionKind::Umask => two_lines(
            "normalize output permissions explicitly rather than inheriting the ambient process umask",
            "when creating archives, write deterministic member modes",
        ),
        InterventionKind::DirectoryOrder => two_lines(
            "sort filesystem enumeration results before aggregation, archiving, linking, or code generation",
            "make member ordering explicit instead of relying on readdir/find/glob traversal order",
        ),
        InterventionKind::SourceDateEpoch => {
            let mut lines = two_lines(
                "make generated timestamps deterministic and honor SOURCE_DATE_EPOCH where applicable",
                "avoid embedding wall-clock build time unless it is an intentional declarative input",
            );
            if has_semantic_field(result, "coff_timestamp") {
                push_line(
                    &mut lines,
                    "for PE/COFF outputs, enable the selected linker/toolchain's deterministic timestamp or reproducible-build mode rather than emitting a wall-clock COFF timestamp".to_owned(),
                );
            }
            lines
        },
        InterventionKind::EnvironmentVariable => {
            let mut lines: Vec<String> = Vec::new();
            lines.push(show_variable_advice(result.intervention.variable.as_str()));
            assert(lines.deep_view() =~= seq![
                variable_advice_text(result.intervention.variable@),
            ]);
            lines
        },
    }
}

/// The title and the advice for an effect.
pub fn remediation_for(result: &InterventionResult) -> (r: (String, Vec<String>))
    ensures
        r.0@ == title_of(*result),
        r.1.deep_view() == advice_of(*result),
{
    (choose_title(result), choose_advice(result))
}

/// What is known to be left open by an experiment of this kind.
pub open spec fn with_kind_limits(lines: Seq<Seq<char>>, result: InterventionResult) -> Seq<Seq<char>> {
    match result.intervention.kind {
        InterventionKind::DirectoryOrder => lines.push(
            "directory-order perturbation changes source materialization order; actual readdir ordering remains filesystem-dependent"@,
        ),
        InterventionKind::BuildImage => lines.push(
            "container-image interventions are intentionally coarse: compiler, linker, libc, package set, and other userspace inputs may change together"@,
        ),
        InterventionKind::ToolchainExecutable => {
            let a = lines.push(
                "the executable binding is isolated within one resolved image, but the selected tools may invoke different subordinate programs or defaults; the claim is about the binding, not every internal compiler phase"@,
            );
            if invoked_on_both_sides(result) {
                a
            } else {
                a.push(
                    "the controlled tool executable was not observed through ReproBisect's invocation wrapper on both sides; this establishes sensitivity to the binding value, not confirmed execution of the selected tool"@,
                )
            }
        },
        InterventionKind::DependencyFile => lines.push(
            "the experiment establishes sensitivity to the controlled dependency declaration bytes; it does not prove which transitive package or resolver decision caused the artifact change"@,
        ),
        InterventionKind::NetworkAccess => lines.push(
            "network disabling establishes sensitivity to network availability under this build flow; exact endpoints are intentionally redacted, and syscall tracing alone does not prove which downloaded bytes affected the build"@,
        ),
        InterventionKind::CpuCount => lines.push(
            "the Fisher test compares a fixed finite set of matched baseline/variant trials and does not identify the internal race, schedule, or task that produced divergent bytes"@,
        ).push(
            "the configured alpha applies to this stochastic probe; ReproBisect does not currently correct across a user-defined family of many stochastic hypotheses"@,
        ),
        _ => lines,
    }
}

pub open spec fn limits_of(result: InterventionResult) -> Seq<Seq<char>> {
    let a = seq!["causality is limited to the tested intervention space and build configuration"@];
    let b = if result.reverted_to_baseline == Some(true) {
        a
    } else {
        a.push("the effect was not confirmed by a successful baseline reversion trial"@)
    };
    let c = if is_consistent(result) {
        b
    } else {
        b.push("the intervention environment produced internally inconsistent artifact bytes"@)
    };
    with_kind_limits(c, result)
}

fn push_kind_limits(lines: &mut Vec<String>, result: &InterventionResult)
    ensures
        final(lines).deep_view() == with_kind_limits(old(lines).deep_view(), *result),
{
    match result.intervention.kind {
        InterventionKind::DirectoryOrder => push_line(
            lines,
            "directory-order perturbation changes source materialization order; actual readdir ordering remains filesystem-dependent".to_owned(),
        ),
        InterventionKind::BuildImage => push_line(
            lines,
            "container-image interventions are intentionally coarse: compiler, linker, libc, package set, and other userspace inputs may change together".to_owned(),
        ),
        InterventionKind::ToolchainExecutable => {
            push_line(
                lines,
                "the executable binding is isolated within one resolved image, but the selected tools may invoke different subordinate programs or defaults; the claim is about the binding, not every internal compiler phase".to_owned(),
            );
            if !toolchain_binding_invoked_on_both_sides(result) {
                push_line(
                    lines,
                    "the controlled tool executable was not observed through ReproBisect's invocation wrapper on both sides; this establishes sensitivity to the binding value, not confirmed execution of the selected tool".to_owned(),
                );
            }
        },
        InterventionKind::DependencyFile => push_line(
            lines,
            "the experiment establishes sensitivity to the controlled dependency declaration bytes; it does not prove which transitive package or resolver decision caused the artifact change".to_owned(),
        ),
        InterventionKind::NetworkAccess => push_line(
            lines,
            "network disabling establishes sensitivity to network availability under this build flow; exact endpoints are intentionally redacted, and syscall tracing alone does not prove which downloaded bytes affected the build".to_owned(),
        ),
        InterventionKind::CpuCount => {
            push_line(
                lines,
                "the Fisher test compares a fixed finite set of matched baseline/variant trials and does not identify the internal race, schedule, or task that produced divergent bytes".to_owned(),
            );
            push_line(
                lines,
                "the configured alpha applies to this stochastic probe; ReproBisect does not currently correct across a user-defined family of many stochastic hypotheses".to_owned(),
            );
        },
        _ => {},
    }
}

fn list_limits(result: &InterventionResult) -> (r: Vec<String>)
    ensures
        r.deep_view() == limits_of(*result),
{
    let mut lines = one_line(
        "causality is limited to the tested intervention space and build configuration",
    );
    if !is_true(result.reverted_to_baseline) {
        push_line(
            &mut lines,
            "the effect was not confirmed by a successful baseline reversion trial".to_owned(),
        );
    }
    if !intervention_runs_consistent(result) {
        push_line(
            &mut lines,
            "the intervention environment produced internally inconsistent artifact bytes".to_owned(),
        );
    }
    push_kind_limits(&mut lines, result);
    lines
}

pub fn one_line(line: &str) -> (r: Vec<String>)
    ensures
        r.deep_view() == seq![line@],
{
    let mut lines: Vec<String> = Vec::new();
    lines.push(line.to_owned());
    assert(lines.deep_view() =~= seq![line@]);
    lines
}

/// The diagnosis that an experiment with an effect gives.
pub open spec fn result_diagnosis(result: InterventionResult) -> DiagnosisView {
    DiagnosisView {
        title: title_of(result),
        causal_variables: seq![result.intervention.variable@],
        affected_artifacts: changed_paths(
            result.artifact_deltas@,
            result.artifact_deltas@.len() as int,
        ),
        evidence: evidence_of(result),
        confidence: confidence_of(result),
        remediation: advice_of(result),
        limitations: limits_of(result),
    }
}

pub fn diagnosis_from_result(result: &InterventionResult) -> (r: Diagnosis)
    ensures
        r.deep_view() == result_diagnosis(*result),
{
    let (title, remediation) = remediation_for(result);
    Diagnosis {
        title,
        causal_variables: one_line(result.intervention.variable.as_str()),
        affected_artifacts: collect_changed_paths(&result.artifact_deltas),
        evidence: gather_evidence(result),
        confidence: assess_confidence(result),
        remediation,
        limitations: list_limits(result),
    }
}

pub open spec fn joint_change_text(variables: Seq<Seq<char>>) -> Seq<char> {
    "no member of the minimized set was positive in the one-variable sweep, while the joint intervention on ["@
        + joined(variables, ", "@, variables.len() as int)
        + "] changed artifact bytes"@
}

pub fn show_joint_change(variables: &Vec<String>) -> (r: String)
    ensures
        r@ == joint_change_text(variables.deep_view()),
{
    concat3(
        "no member of the minimized set was positive in the one-variable sweep, while the joint intervention on [",
        join(variables, ", ").as_str(),
        "] changed artifact bytes",
    )
}

pub open spec fn search_effort_text(tests: usize, size: usize) -> Seq<char> {
    "ddmin required "@
        + decimal_of(tests as int)
        + " subset test(s) and returned a 1-minimal observed interaction of size "@
        + decimal_of(size as int)
}

pub fn show_search_effort(tests: usize, size: usize) -> (r: String)
    ensures
        r@ == search_effort_text(tests, size),
{
    let mut text = "ddmin required ".to_owned();
    text.push_str(decimal(tests as u128).as_str());
    text.push_str(" subset test(s) and returned a 1-minimal observed interaction of size ");
    text.push_str(decimal(size as u128).as_str());
    text
}

pub open spec fn interaction_title_text(variables: Seq<Seq<char>>) -> Seq<char> {
    "Build output depends on an interaction between "@
        + joined(variables, " + "@, variables.len() as int)
}

pub fn show_interaction_title(variables: &Vec<String>) -> (r: String)
    ensures
        r@ == interaction_title_text(variables.deep_view()),
{
    concat("Build output depends on an interaction between ", join(variables, " + ").as_str())
}

pub open spec fn interaction_evidence(result: InteractionSearchResult) -> Seq<Seq<char>> {
    let a = seq![
        joint_change_text(result.minimal_variables.deep_view()),
        search_effort_text(result.tested_subsets, result.minimal_variables@.len() as usize),
    ];
    if result.reverted_to_baseline == Some(true) {
        a.push("a subsequent baseline reversion reproduced the original baseline artifact bytes"@)
    } else {
        a
    }
}

/// The diagnosis that a minimal interaction gives.
pub open spec fn interaction_diagnosis(result: InteractionSearchResult) -> DiagnosisView {
    DiagnosisView {
        title: interaction_title_text(result.minimal_variables.deep_view()),
        causal_variables: result.minimal_variables.deep_view(),
        affected_artifacts: changed_paths(
            result.artifact_deltas@,
            result.artifact_deltas@.len() as int,
        ),
        evidence: interaction_evidence(result),
        confidence: if result.reverted_to_baseline == Some(true) {
            Confidence::Medium
        } else {
            Confidence::Low
        },
        remediation: seq![
            "treat the listed variables as an interacting build-input set; normalize or eliminate the joint dependency, then repeat the original combined intervention"@,
        ],
        limitations: seq![
            "the set is 1-minimal only within the tested candidate variables and observed build configuration; it is not a proof of a globally unique root cause"@,
        ],
    }
}

pub fn diagnosis_from_interaction(result: &InteractionSearchResult) -> (r: Diagnosis)
    ensures
        r.deep_view() == interaction_diagnosis(*result),
{
    let mut evidence = two_lines(
        show_joint_change(&result.minimal_variables).as_str(),
        show_search_effort(result.tested_subsets, result.minimal_variables.len()).as_str(),
    );
    let reverted = is_true(result.reverted_to_baseline);
    if reverted {
        push_line(
            &mut evidence,
            "a subsequent baseline reversion reproduced the original baseline artifact bytes".to_owned(),
        );
    }
    let causal_variables = result.minimal_variables.clone();
    assert(causal_variables.deep_view() =~= result.minimal_variables.deep_view());
    Diagnosis {
        title: show_interaction_title(&result.minimal_variables),
        causal_variables,
        affected_artifacts: collect_changed_paths(&result.artifact_deltas),
        evidence,
        confidence: if reverted {
            Confidence::Medium
        } else {
            Confidence::Low
        },
        remediation: one_line(
            "treat the listed variables as an interacting build-input set; normalize or eliminate the joint dependency, then repeat the original combined intervention",
        ),
        limitations: one_line(
            "the set is 1-minimal only within the tested candidate variables and observed build configuration; it is not a proof of a globally unique root cause",
        ),
    }
}

/// The diagnoses that the first `n` experiments give.
pub open spec fn result_diagnoses(results: Seq<InterventionResult>, n: int) -> Seq<DiagnosisView>
    decreases n,
{
    if n <= 0 {
        Seq::empty()
    } else if shows_effect(results[n - 1]) {
        result_diagnoses(results, n - 1).push(result_diagnosis(results[n - 1]))
    } else {
        result_diagnoses(results, n - 1)
    }
}

/// Whether a search ended with an interaction of at least two variables that keeps its effect.
pub open spec fn is_interaction(result: InteractionSearchResult) -> bool {
    result.changed && result.stable_effect && result.minimal_variables@.len() >= 2
}

pub open spec fn all_diagnoses(
    results: Seq<InterventionResult>,
    interaction: Option<InteractionSearchResult>,
) -> Seq<DiagnosisView> {
    let single = result_diagnoses(results, results.len() as int);
    match interaction {
        Some(found) => if is_interaction(found) {
            single.push(interaction_diagnosis(found))
        } else {
            single
        },
        None => single,
    }
}

pub fn synthesize_diagnoses(
    results: &Vec<InterventionResult>,
    interaction: &Option<InteractionSearchResult>,
) -> (r: Vec<Diagnosis>)
    ensures
        r.deep_view() == all_diagnoses(results@, *interaction),
{
    let mut diagnoses: Vec<Diagnosis> = Vec::new();
    let mut n: usize = 0;
    assert(diagnoses.deep_view() =~= Seq::<DiagnosisView>::empty());
    while n < results.len()
        invariant
            n <= results@.len(),
            diagnoses.deep_view() == result_diagnoses(results@, n as int),
        decreases results.len() - n,
    {
        if observed_effect(&results[n]) {
            let ghost had = diagnoses.deep_view();
            let diagnosis = diagnosis_from_result(&results[n]);
            let ghost view = diagnosis.deep_view();
            diagnoses.push(diagnosis);
            assert(diagnoses.deep_view() =~= had.push(view));
        }
        n += 1;
    }
    if let Some(found) = interaction {
        if found.changed && found.stable_effect && found.minimal_variables.len() >= 2 {
            let ghost had = diagnoses.deep_view();
            let diagnosis = diagnosis_from_interaction(found);
            let ghost view = diagnosis.deep_view();
            diagnoses.push(diagnosis);
            assert(diagnoses.deep_view() =~= had.push(view));
        }
    }
    diagnoses
}

/// High confidence is given only to a complete experiment whose varied runs agree and whose
/// baseline came back.
pub proof fn law_high_confidence_needs_a_reversion(result: InterventionResult)
    ensures
        confidence_of(result) is High ==> result.error is None && result.reverted_to_baseline
            == Some(true) && is_consistent(result),
{
}

/// An experiment that could not be completed never gives more than low confidence.
pub proof fn law_incomplete_experiments_give_low_confidence(result: InterventionResult)
    requires
        result.error is Some,
    ensures
        confidence_of(result) is Low,
{
}

/// A tool that was not seen to run on both sides never gives more than low confidence, and an image
/// or the network, which stand for many inputs at once, never gives high confidence.
pub proof fn law_coarse_or_unseen_inputs_are_not_trusted(result: InterventionResult)
    ensures
        result.intervention.kind is ToolchainExecutable && !binding_confirmed(result)
            ==> confidence_of(result) is Low,
        result.intervention.kind is BuildImage || result.intervention.kind is NetworkAccess
            ==> !(confidence_of(result) is High),
{
}

/// Every experiment with an effect is diagnosed, and beside the experiments there is at most one
/// diagnosis more, for an interaction.
pub proof fn law_every_effect_is_diagnosed(
    results: Seq<InterventionResult>,
    interaction: Option<InteractionSearchResult>,
    k: int,
)
    requires
        0 <= k < results.len(),
        shows_effect(results[k]),
    ensures
        all_diagnoses(results, interaction).contains(result_diagnosis(results[k])),
        all_diagnoses(results, interaction).len() <= results.len() + 1,
{
    lemma_diagnosed(results, results.len() as int, k);
    let single = result_diagnoses(results, results.len() as int);
    let i = single.index_of(result_diagnosis(results[k]));
    assert(all_diagnoses(results, interaction)[i] == single[i]);
}

proof fn lemma_diagnosed(results: Seq<InterventionResult>, n: int, k: int)
    requires
        0 <= n <= results.len(),
        0 <= k < results.len(),
        shows_effect(results[k]),
    ensures
        k < n ==> result_diagnoses(results, n).contains(result_diagnosis(results[k])),
        result_diagnoses(results, n).len() <= n,
    decreases n,
{
    if n > 0 {
        lemma_diagnosed(results, n - 1, k);
        let before = result_diagnoses(results, n - 1);
        if k == n - 1 {
            assert(result_diagnoses(results, n).last() == result_diagnosis(results[k]));
        } else if k < n {
            let i = before.index_of(result_diagnosis(results[k]));
            assert(result_diagnoses(results, n)[i] == before[i]);
        }
    }
}

} // verus!
