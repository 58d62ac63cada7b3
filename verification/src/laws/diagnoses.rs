//! What a diagnosis says: the cause, how sure it is and what helps.
use vstd::prelude::*;

use crate::engine::diagnosis::{
    advice_of, all_diagnoses, changed_paths, confidence_of, effect_text, evidence_of,
    interaction_diagnosis, is_consistent, limits_of, points_directly, result_diagnoses,
    result_diagnosis, same_bytes_in_order, shows_effect, title_of,
};
use crate::engine::provenance::{
    binding_confirmed, bound_variable, invoked_on_both_sides, override_changes,
    override_confirmed, probe_at, resolved_in, was_invoked,
};
use crate::laws::wording::{lemma_holds, lemma_stands};
use crate::model::{
    ArtifactDelta, BuildRun, Confidence, InteractionSearchResult, InterventionKind,
    InterventionResult, StochasticEffectClassification, ToolchainBindingProbe,
};
use crate::numbers::decimal_of;
use crate::text::{debug_text, occurs};

verus! {

/// How sure a confidence is.
pub open spec fn rank_of(c: Confidence) -> int {
    match c {
        Confidence::Low => 0,
        Confidence::Medium => 1,
        Confidence::High => 2,
    }
}

/// Whether all varied builds have the same bytes, artifact by artifact.
pub open spec fn builds_agree(runs: Seq<BuildRun>) -> bool {
    forall|i: int, j: int|
        0 <= i < runs.len() && 0 <= j < runs.len() ==> (#[trigger] runs[i]).artifacts@.len() == (
        #[trigger] runs[j]).artifacts@.len() && forall|k: int|
            0 <= k < runs[i].artifacts@.len() ==> (#[trigger] runs[i].artifacts@[k]).sha256@
                == runs[j].artifacts@[k].sha256@
}

/// Whether a changed artifact carries the controlled value on both sides, or differs in the field that
/// the intervention governs.
pub open spec fn carries_the_cause(deltas: Seq<ArtifactDelta>) -> bool {
    exists|k: int|
        0 <= k < deltas.len() && (#[trigger] deltas[k]).changed && (
        deltas[k].direct_structural_evidence || (deltas[k].baseline_direct_marker
            && deltas[k].variant_direct_marker))
}

/// Whether an intervention varies one plain setting.
pub open spec fn is_plain_kind(kind: InterventionKind) -> bool {
    kind != InterventionKind::NetworkAccess && kind != InterventionKind::BuildImage && kind
        != InterventionKind::ToolchainExecutable && kind != InterventionKind::DependencyFile && kind
        != InterventionKind::CpuCount
}

proof fn lemma_agreement(result: InterventionResult)
    ensures
        is_consistent(result) <==> builds_agree(result.runs@),
{
    let runs = result.runs@;
    if is_consistent(result) {
        assert forall|i: int, j: int|
            0 <= i < runs.len() && 0 <= j < runs.len() implies (
        #[trigger] runs[i]).artifacts@.len() == (#[trigger] runs[j]).artifacts@.len() && forall|
            k: int,
        |
            0 <= k < runs[i].artifacts@.len() ==> (#[trigger] runs[i].artifacts@[k]).sha256@
                == runs[j].artifacts@[k].sha256@ by {
            if i >= 1 {
                assert(same_bytes_in_order(runs[i], runs[0]));
            }
            if j >= 1 {
                assert(same_bytes_in_order(runs[j], runs[0]));
            }
            assert forall|k: int| 0 <= k < runs[i].artifacts@.len() implies (
            #[trigger] runs[i].artifacts@[k]).sha256@ == runs[j].artifacts@[k].sha256@ by {
                assert(runs[j].artifacts@[k].sha256@ == runs[0].artifacts@[k].sha256@);
            }
        }
    }
    if builds_agree(runs) {
        assert forall|i: int| 1 <= i < runs.len() implies same_bytes_in_order(
            #[trigger] runs[i],
            runs[0],
        ) by {
            assert(runs[i].artifacts@.len() == runs[0].artifacts@.len());
        }
    }
}

proof fn lemma_direct(deltas: Seq<ArtifactDelta>)
    ensures
        crate::engine::diagnosis::has_direct_evidence(deltas) <==> carries_the_cause(deltas),
{
    if crate::engine::diagnosis::has_direct_evidence(deltas) {
        let k = choose|k: int| 0 <= k < deltas.len() && points_directly(#[trigger] deltas[k]);
        assert(deltas[k].changed);
    }
    if carries_the_cause(deltas) {
        let k = choose|k: int|
            0 <= k < deltas.len() && (#[trigger] deltas[k]).changed && (
            deltas[k].direct_structural_evidence || (deltas[k].baseline_direct_marker
                && deltas[k].variant_direct_marker));
        assert(points_directly(deltas[k]));
    }
}

/// The confidence in a plain setting. A complete experiment whose varied builds agree is sure if the
/// baseline came back and a changed artifact carries the cause, fairly sure with one of the two, and
/// unsure with none; an incomplete one, or one whose builds disagree, is unsure.
pub proof fn law_confidence_grows_with_reversion_and_direct_evidence(result: InterventionResult)
    requires
        is_plain_kind(result.intervention.kind),
    ensures
        ({
            let c = confidence_of(result);
            let sound = result.error is None && builds_agree(result.runs@);
            let reverted = result.reverted_to_baseline == Some(true);
            let direct = carries_the_cause(result.artifact_deltas@);
            &&& c == Confidence::High <==> sound && reverted && direct
            &&& c == Confidence::Medium <==> sound && reverted != direct
            &&& c == Confidence::Low <==> !sound || (!reverted && !direct)
        }),
{
    lemma_agreement(result);
    lemma_direct(result.artifact_deltas@);
}

/// The confidence in an image or in the network is never high, as they bundle many inputs: it is medium
/// exactly if the effect repeats and reverts.
pub proof fn law_coarse_causes_are_at_most_fairly_sure(result: InterventionResult)
    ensures
        result.intervention.kind == InterventionKind::BuildImage ==> confidence_of(result) == if result.error is None
            && result.reverted_to_baseline == Some(true) && builds_agree(result.runs@) {
            Confidence::Medium
        } else {
            Confidence::Low
        },
        result.intervention.kind == InterventionKind::NetworkAccess ==> confidence_of(result)
            == if result.error is None && result.reverted_to_baseline == Some(true)
            && result.variant_stable == Some(true) {
            Confidence::Medium
        } else {
            Confidence::Low
        },
{
    lemma_agreement(result);
}

/// Whether `i` is the first probe of a variable that found the tool.
pub open spec fn is_first_probe(
    bindings: Seq<ToolchainBindingProbe>,
    variable: Seq<char>,
    i: int,
) -> bool {
    &&& 0 <= i < bindings.len()
    &&& bindings[i].variable@ == variable
    &&& bindings[i].resolved_path is Some
    &&& forall|k: int|
        0 <= k < i ==> (#[trigger] bindings[k]).variable@ != variable
            || bindings[k].resolved_path is None
}

/// Whether a run found the tool of a variable.
pub open spec fn found_tool(run: BuildRun, variable: Seq<char>) -> bool {
    exists|i: int| #[trigger] is_first_probe(run.toolchain_provenance.bindings@, variable, i)
}

/// Whether the tool of a variable ran in the build that reverted and in the first varied build that
/// found it, and was bound, found or versioned otherwise there.
pub open spec fn ran_another_tool(result: InterventionResult, variable: Seq<char>) -> bool {
    exists|i: int, k: int, j: int|
        #![trigger is_first_probe(result.confirmation_run->0.toolchain_provenance.bindings@, variable, i), is_first_probe(result.runs@[k].toolchain_provenance.bindings@, variable, j)]
        {
            let back = result.confirmation_run->0.toolchain_provenance.bindings@;
            let there = result.runs@[k].toolchain_provenance.bindings@;
            &&& result.confirmation_run is Some
            &&& 0 <= k < result.runs@.len()
            &&& is_first_probe(back, variable, i)
            &&& is_first_probe(there, variable, j)
            &&& forall|m: int| 0 <= m < k ==> !found_tool(#[trigger] result.runs@[m], variable)
            &&& back[i].invocation_count > 0 && there[j].invocation_count > 0
            &&& back[i].configured_value@ != there[j].configured_value@
                || back[i].resolved_path.deep_view() != there[j].resolved_path.deep_view()
                || back[i].version.deep_view() != there[j].version.deep_view()
        }
}

proof fn lemma_probe(bindings: Seq<ToolchainBindingProbe>, variable: Seq<char>, from: int)
    requires
        0 <= from <= bindings.len(),
        forall|k: int|
            0 <= k < from ==> (#[trigger] bindings[k]).variable@ != variable
                || bindings[k].resolved_path is None,
    ensures
        match probe_at(bindings, variable, true, from) {
            Some(probe) => exists|i: int| #[trigger]
                is_first_probe(bindings, variable, i) && bindings[i] == probe,
            None => forall|i: int| !#[trigger] is_first_probe(bindings, variable, i),
        },
    decreases bindings.len() - from,
{
    if from < bindings.len() {
        if bindings[from].variable@ == variable && bindings[from].resolved_path is Some {
            assert(is_first_probe(bindings, variable, from));
        } else {
            lemma_probe(bindings, variable, from + 1);
        }
    }
}

proof fn lemma_resolved(runs: Seq<BuildRun>, variable: Seq<char>, from: int)
    requires
        0 <= from <= runs.len(),
        forall|m: int| 0 <= m < from ==> !found_tool(#[trigger] runs[m], variable),
    ensures
        match resolved_in(runs, variable, from) {
            Some(probe) => exists|k: int, j: int|
                0 <= k < runs.len() && #[trigger] is_first_probe(
                    runs[k].toolchain_provenance.bindings@,
                    variable,
                    j,
                ) && runs[k].toolchain_provenance.bindings@[j] == probe && forall|m: int|
                    0 <= m < k ==> !found_tool(#[trigger] runs[m], variable),
            None => forall|m: int|
                0 <= m < runs.len() ==> !found_tool(#[trigger] runs[m], variable),
        },
    decreases runs.len() - from,
{
    if from < runs.len() {
        let bindings = runs[from].toolchain_provenance.bindings@;
        lemma_probe(bindings, variable, 0);
        if probe_at(bindings, variable, true, 0) is None {
            lemma_resolved(runs, variable, from + 1);
        }
    }
}

proof fn lemma_one_first_probe(
    bindings: Seq<ToolchainBindingProbe>,
    variable: Seq<char>,
    i: int,
    j: int,
)
    requires
        is_first_probe(bindings, variable, i),
        is_first_probe(bindings, variable, j),
    ensures
        i == j,
{
}

proof fn lemma_binding(result: InterventionResult, variable: Seq<char>)
    requires
        variable == bound_variable(result.intervention.variable@),
    ensures
        binding_confirmed(result) <==> ran_another_tool(result, variable),
{
    let runs = result.runs@;
    lemma_resolved(runs, variable, 0);
    if result.confirmation_run is Some {
        let back = result.confirmation_run->0.toolchain_provenance.bindings@;
        lemma_probe(back, variable, 0);
        if binding_confirmed(result) {
            let left = probe_at(back, variable, true, 0)->0;
            let i = choose|i: int| #[trigger] is_first_probe(back, variable, i) && back[i] == left;
            let right = resolved_in(runs, variable, 0)->0;
            let (k, j) = choose|k: int, j: int|
                0 <= k < runs.len() && #[trigger] is_first_probe(
                    runs[k].toolchain_provenance.bindings@,
                    variable,
                    j,
                ) && runs[k].toolchain_provenance.bindings@[j] == right && forall|m: int|
                    0 <= m < k ==> !found_tool(#[trigger] runs[m], variable);
            assert(is_first_probe(
                result.confirmation_run->0.toolchain_provenance.bindings@,
                variable,
                i,
            ));
            assert(is_first_probe(
                result.runs@[k].toolchain_provenance.bindings@,
                variable,
                j,
            ));
        }
        if ran_another_tool(result, variable) {
            let (i, k, j) = choose|i: int, k: int, j: int|
                #![trigger is_first_probe(result.confirmation_run->0.toolchain_provenance.bindings@, variable, i), is_first_probe(result.runs@[k].toolchain_provenance.bindings@, variable, j)]
                {
                    let back = result.confirmation_run->0.toolchain_provenance.bindings@;
                    let there = result.runs@[k].toolchain_provenance.bindings@;
                    &&& result.confirmation_run is Some
                    &&& 0 <= k < result.runs@.len()
                    &&& is_first_probe(back, variable, i)
                    &&& is_first_probe(there, variable, j)
                    &&& forall|m: int|
                        0 <= m < k ==> !found_tool(#[trigger] result.runs@[m], variable)
                    &&& back[i].invocation_count > 0 && there[j].invocation_count > 0
                    &&& back[i].configured_value@ != there[j].configured_value@
                        || back[i].resolved_path.deep_view() != there[j].resolved_path.deep_view()
                        || back[i].version.deep_view() != there[j].version.deep_view()
                };
            let left = probe_at(back, variable, true, 0)->0;
            let i2 = choose|i2: int| #[trigger] is_first_probe(back, variable, i2) && back[i2] == left;
            lemma_one_first_probe(back, variable, i, i2);
            assert(found_tool(runs[k], variable));
            let right = resolved_in(runs, variable, 0)->0;
            let (k2, j2) = choose|k2: int, j2: int|
                0 <= k2 < runs.len() && #[trigger] is_first_probe(
                    runs[k2].toolchain_provenance.bindings@,
                    variable,
                    j2,
                ) && runs[k2].toolchain_provenance.bindings@[j2] == right && forall|m: int|
                    0 <= m < k2 ==> !found_tool(#[trigger] runs[m], variable);
            assert(found_tool(runs[k2], variable));
            assert(k == k2);
            lemma_one_first_probe(runs[k].toolchain_provenance.bindings@, variable, j, j2);
        }
    }
}

/// A binding is looked up by its bare name.
pub proof fn law_bindings_are_named_without_their_mark(name: Seq<char>)
    ensures
        bound_variable("toolchain:"@ + name) == name,
{
    let all = "toolchain:"@ + name;
    assert(all.subrange(0, "toolchain:"@.len() as int) =~= "toolchain:"@);
    assert(all.skip("toolchain:"@.len() as int) =~= name);
}

/// The confidence in a tool is high exactly if the experiment is complete, repeats and reverts, and
/// another tool was seen to run on both sides. Otherwise it is low.
pub proof fn law_a_tool_must_be_seen_to_run(result: InterventionResult, name: Seq<char>)
    requires
        result.intervention.kind == InterventionKind::ToolchainExecutable,
        result.intervention.variable@ == "toolchain:"@ + name,
    ensures
        confidence_of(result) == if result.error is None && result.reverted_to_baseline == Some(
            true,
        ) && builds_agree(result.runs@) && ran_another_tool(result, name) {
            Confidence::High
        } else {
            Confidence::Low
        },
{
    lemma_agreement(result);
    law_bindings_are_named_without_their_mark(name);
    lemma_binding(result, name);
}

/// Whether a build is recorded to have used other bytes at a target.
pub open spec fn used_other_bytes(run: BuildRun, target: Seq<char>) -> bool {
    exists|i: int|
        0 <= i < run.source_overrides@.len() && (#[trigger] run.source_overrides@[i]).target@
            == target && run.source_overrides@[i].baseline_sha256@
            != run.source_overrides@[i].variant_sha256@
}

/// The confidence in a dependency file is low unless the experiment is complete, repeats and reverts.
/// It is then high exactly if some varied build is recorded to have used other bytes for the file.
pub proof fn law_a_dependency_must_be_seen_to_differ(result: InterventionResult, target: Seq<char>)
    requires
        result.intervention.kind == InterventionKind::DependencyFile,
        result.intervention.variable@ == "dependency:"@ + target,
    ensures
        ({
            let sound = result.error is None && result.reverted_to_baseline == Some(true)
                && builds_agree(result.runs@);
            let seen = exists|i: int|
                0 <= i < result.runs@.len() && used_other_bytes(#[trigger] result.runs@[i], target);
            &&& confidence_of(result) == Confidence::High <==> sound && seen
            &&& confidence_of(result) == Confidence::Medium <==> sound && !seen
            &&& confidence_of(result) == Confidence::Low <==> !sound
        }),
{
    lemma_agreement(result);
    let all = "dependency:"@ + target;
    assert(all.subrange(0, "dependency:"@.len() as int) =~= "dependency:"@);
    assert(all.skip("dependency:"@.len() as int) =~= target);
    assert forall|i: int| 0 <= i < result.runs@.len() implies (used_other_bytes(
        #[trigger] result.runs@[i],
        target,
    ) <==> override_changes(result.runs@[i], target)) by {}
    if override_confirmed(result) {
        let i = choose|i: int|
            0 <= i < result.runs@.len() && override_changes(#[trigger] result.runs@[i], target);
        assert(used_other_bytes(result.runs@[i], target));
    }
    if exists|i: int|
        0 <= i < result.runs@.len() && used_other_bytes(#[trigger] result.runs@[i], target) {
        let i = choose|i: int|
            0 <= i < result.runs@.len() && used_other_bytes(#[trigger] result.runs@[i], target);
        assert(override_changes(result.runs@[i], target));
    }
}

/// The confidence in the number of processors: builds that scatter are fairly sure exactly with a
/// reversion and statistical support, and never more.
pub proof fn law_scattering_builds_need_statistical_support(result: InterventionResult)
    requires
        result.intervention.kind == InterventionKind::CpuCount,
    ensures
        ({
            let supported = result.stochastic_effect is Some
                && result.stochastic_effect->0.classification
                == StochasticEffectClassification::Supported;
            let scatters = result.variant_stable == Some(false) && result.distinct_variant_outcomes
                >= 2;
            let reverted = result.reverted_to_baseline == Some(true);
            let direct = carries_the_cause(result.artifact_deltas@);
            let agree = builds_agree(result.runs@);
            let c = confidence_of(result);
            &&& result.error is Some ==> c == Confidence::Low
            &&& result.error is None && scatters ==> c == if reverted && supported {
                Confidence::Medium
            } else {
                Confidence::Low
            }
            &&& result.error is None && !scatters && agree ==> (c == Confidence::High <==> reverted
                && direct) && (c == Confidence::Medium <==> reverted != direct)
            &&& result.error is None && !scatters && !agree ==> c == Confidence::Low
        }),
{
    lemma_agreement(result);
    lemma_direct(result.artifact_deltas@);
}

/// Whether two results are of the same experiment but for the evidence in the artifacts and the
/// reversion.
pub open spec fn same_experiment(a: InterventionResult, b: InterventionResult) -> bool {
    &&& a.intervention == b.intervention
    &&& a.runs == b.runs
    &&& a.confirmation_run == b.confirmation_run
    &&& a.error == b.error
    &&& a.variant_stable == b.variant_stable
    &&& a.distinct_variant_outcomes == b.distinct_variant_outcomes
    &&& a.stochastic_effect == b.stochastic_effect
}

/// More evidence never lowers the confidence: not a baseline that came back, nor an artifact that
/// carries the cause.
pub proof fn law_more_evidence_never_lowers_confidence(a: InterventionResult, b: InterventionResult)
    requires
        same_experiment(a, b),
        carries_the_cause(a.artifact_deltas@) ==> carries_the_cause(b.artifact_deltas@),
        a.reverted_to_baseline == Some(true) ==> b.reverted_to_baseline == Some(true),
    ensures
        rank_of(confidence_of(a)) <= rank_of(confidence_of(b)),
{
    lemma_direct(a.artifact_deltas@);
    lemma_direct(b.artifact_deltas@);
    lemma_agreement(a);
    lemma_agreement(b);
}

/// An experiment shows an effect exactly if bytes changed, or a build failed where that is telling; the
/// number of processors needs statistical support besides.
pub proof fn law_effects_are_changed_bytes_or_telling_failures(result: InterventionResult)
    ensures
        ({
            let kind = result.intervention.kind;
            let may_fail = kind == InterventionKind::NetworkAccess || kind
                == InterventionKind::ToolchainExecutable || kind
                == InterventionKind::DependencyFile;
            let supported = result.stochastic_effect is Some
                && result.stochastic_effect->0.classification
                == StochasticEffectClassification::Supported;
            &&& kind == InterventionKind::CpuCount ==> (shows_effect(result) <==> result.changed
                && supported)
            &&& kind != InterventionKind::CpuCount ==> (shows_effect(result) <==> result.changed || (
            may_fail && result.build_failures@.len() > 0))
        }),
{
}

/// The affected artifacts are those that changed, in order.
pub proof fn law_affected_artifacts_are_the_changed_ones(deltas: Seq<ArtifactDelta>)
    ensures
        changed_paths(deltas, deltas.len() as int) == deltas.filter(
            |d: ArtifactDelta| d.changed,
        ).map_values(|d: ArtifactDelta| d.logical_path@),
    decreases deltas.len(),
{
    let p = |d: ArtifactDelta| d.changed;
    let f = |d: ArtifactDelta| d.logical_path@;
    if deltas.len() > 0 {
        let rest = deltas.drop_last();
        law_affected_artifacts_are_the_changed_ones(rest);
        lemma_changed_paths_of_a_beginning(deltas, rest.len() as int);
        assert(deltas.filter(p) == if p(deltas.last()) {
            rest.filter(p).push(deltas.last())
        } else {
            rest.filter(p)
        }) by {
            reveal(Seq::filter);
        }
        assert(deltas[deltas.len() - 1] == deltas.last());
        assert(changed_paths(deltas, deltas.len() as int) =~= deltas.filter(p).map_values(f));
    } else {
        assert(deltas.filter(p).len() == 0) by {
            reveal(Seq::filter);
        }
        assert(changed_paths(deltas, 0) =~= deltas.filter(p).map_values(f));
    }
}

proof fn lemma_changed_paths_of_a_beginning(deltas: Seq<ArtifactDelta>, n: int)
    requires
        0 <= n < deltas.len(),
    ensures
        changed_paths(deltas, n) == changed_paths(deltas.drop_last(), n),
    decreases n,
{
    if n > 0 {
        lemma_changed_paths_of_a_beginning(deltas, n - 1);
    }
}

/// A diagnosis blames the variable that was varied, names the artifacts that changed and carries the
/// confidence of the experiment.
pub proof fn law_a_diagnosis_blames_what_was_varied(result: InterventionResult)
    ensures
        ({
            let d = result_diagnosis(result);
            &&& d.causal_variables == seq![result.intervention.variable@]
            &&& d.affected_artifacts == result.artifact_deltas@.filter(
                |x: ArtifactDelta| x.changed,
            ).map_values(|x: ArtifactDelta| x.logical_path@)
            &&& d.confidence == confidence_of(result)
            &&& d.title == title_of(result)
            &&& d.remediation == advice_of(result)
            &&& d.limitations == limits_of(result)
            &&& d.evidence == evidence_of(result)
        }),
{
    law_affected_artifacts_are_the_changed_ones(result.artifact_deltas@);
}

/// The diagnoses are those of the experiments with an effect, in order, and after them that of the
/// interaction, if at least two variables keep a stable effect together.
pub proof fn law_diagnoses_follow_the_effects(
    results: Seq<InterventionResult>,
    interaction: Option<InteractionSearchResult>,
)
    ensures
        ({
            let single = results.filter(|r: InterventionResult| shows_effect(r)).map_values(
                |r: InterventionResult| result_diagnosis(r),
            );
            let joint = interaction is Some && interaction->0.changed
                && interaction->0.stable_effect && interaction->0.minimal_variables@.len() >= 2;
            all_diagnoses(results, interaction) == if joint {
                single.push(interaction_diagnosis(interaction->0))
            } else {
                single
            }
        }),
{
    lemma_single_diagnoses(results);
}

proof fn lemma_single_diagnoses(results: Seq<InterventionResult>)
    ensures
        result_diagnoses(results, results.len() as int) == results.filter(
            |r: InterventionResult| shows_effect(r),
        ).map_values(|r: InterventionResult| result_diagnosis(r)),
    decreases results.len(),
{
    let p = |r: InterventionResult| shows_effect(r);
    let f = |r: InterventionResult| result_diagnosis(r);
    reveal(Seq::filter);
    if results.len() > 0 {
        let rest = results.drop_last();
        lemma_single_diagnoses(rest);
        lemma_diagnoses_of_a_beginning(results, rest.len() as int);
        assert(results[results.len() - 1] == results.last());
        assert(result_diagnoses(results, results.len() as int) =~= results.filter(p).map_values(f));
    } else {
        assert(result_diagnoses(results, 0) =~= results.filter(p).map_values(f));
    }
}

proof fn lemma_diagnoses_of_a_beginning(results: Seq<InterventionResult>, n: int)
    requires
        0 <= n < results.len(),
    ensures
        result_diagnoses(results, n) == result_diagnoses(results.drop_last(), n),
    decreases n,
{
    if n > 0 {
        lemma_diagnoses_of_a_beginning(results, n - 1);
    }
}

/// The diagnosis of an interaction blames its variables, and is fairly sure exactly if it reverted.
pub proof fn law_an_interaction_blames_all_its_variables(result: InteractionSearchResult)
    ensures
        ({
            let d = interaction_diagnosis(result);
            &&& d.causal_variables == result.minimal_variables.deep_view()
            &&& d.affected_artifacts == result.artifact_deltas@.filter(
                |x: ArtifactDelta| x.changed,
            ).map_values(|x: ArtifactDelta| x.logical_path@)
            &&& d.confidence == Confidence::Medium <==> result.reverted_to_baseline == Some(true)
            &&& d.confidence == Confidence::Low <==> result.reverted_to_baseline != Some(true)
        }),
{
    law_affected_artifacts_are_the_changed_ones(result.artifact_deltas@);
}

/// The account of an effect names the variable, the value that it had and the value that it got.
pub proof fn law_effects_are_told_with_both_values(result: InterventionResult)
    ensures
        occurs(
            effect_text(result),
            "changing "@ + result.intervention.variable@ + " from "@ + debug_text(
                result.intervention.baseline_value@,
            ) + " to "@ + debug_text(result.intervention.variant_value@),
        ),
{
    let i = result.intervention;
    let change = "changing "@ + i.variable@ + " from "@ + debug_text(i.baseline_value@) + " to "@
        + debug_text(i.variant_value@);
    let none = Seq::<char>::empty();
    let n = decimal_of(result.build_failures@.len() as usize as int);
    let m = decimal_of(
        changed_paths(
            result.artifact_deltas@,
            result.artifact_deltas@.len() as int,
        ).len() as usize as int,
    );
    let failed = " caused the build command to exit non-zero in "@ + n + " trial(s)"@;
    let changed = " changed "@ + m + " declared artifact(s)"@;
    if crate::engine::outcomes::failure_shows(i.kind) && result.build_failures@.len() > 0
        && !result.changed {
        lemma_holds(effect_text(result), none, change, failed);
    } else {
        lemma_holds(effect_text(result), none, change, changed);
    }
}

/// The limits of a diagnosis say that it was not confirmed exactly if the baseline did not come back.
pub proof fn law_unconfirmed_effects_are_marked(result: InterventionResult)
    ensures
        ({
            let limits = limits_of(result);
            let unconfirmed = "the effect was not confirmed by a successful baseline reversion trial"@;
            let inconsistent =
                "the intervention environment produced internally inconsistent artifact bytes"@;
            &&& limits.len() >= 1
            &&& limits[0]
                == "causality is limited to the tested intervention space and build configuration"@
            &&& result.reverted_to_baseline != Some(true) ==> limits.len() >= 2 && limits[1]
                == unconfirmed
            &&& result.reverted_to_baseline == Some(true) && !builds_agree(result.runs@)
                ==> limits.len() >= 2 && limits[1] == inconsistent
            &&& result.reverted_to_baseline != Some(true) && !builds_agree(result.runs@)
                ==> limits.len() >= 3 && limits[2] == inconsistent
            &&& is_plain_kind(result.intervention.kind) && result.intervention.kind
                != InterventionKind::DirectoryOrder && result.reverted_to_baseline == Some(true)
                && builds_agree(result.runs@) ==> limits.len() == 1
        }),
{
    lemma_agreement(result);
}

/// The title names what was varied: the setting, or the variable with its name. A build that failed is
/// told from one that made something else.
pub proof fn law_titles_name_what_was_varied(result: InterventionResult)
    ensures
        ({
            let kind = result.intervention.kind;
            let title = title_of(result);
            let variable = result.intervention.variable@;
            let failed = result.build_failures@.len() > 0;
            &&& kind == InterventionKind::BuildImage ==> occurs(title, "image"@)
            &&& kind == InterventionKind::SourcePath ==> occurs(title, "source path"@)
            &&& kind == InterventionKind::BuildPath ==> occurs(title, "build/workspace path"@)
            &&& kind == InterventionKind::SourceDateEpoch ==> occurs(title, "timestamp"@)
            &&& kind == InterventionKind::SourceMtime ==> occurs(title, "mtimes"@)
            &&& kind == InterventionKind::Timezone ==> occurs(title, "timezone"@)
            &&& kind == InterventionKind::Locale ==> occurs(title, "locale"@)
            &&& kind == InterventionKind::Hostname ==> occurs(title, "hostname"@)
            &&& kind == InterventionKind::Umask ==> occurs(title, "umask"@)
            &&& kind == InterventionKind::DirectoryOrder ==> occurs(title, "order"@)
            &&& kind == InterventionKind::EnvironmentVariable || kind
                == InterventionKind::ToolchainExecutable || kind
                == InterventionKind::DependencyFile ==> occurs(title, variable)
            &&& kind == InterventionKind::ToolchainExecutable || kind
                == InterventionKind::DependencyFile ==> (if failed {
                occurs(title, "Build success depends"@)
            } else {
                occurs(title, "Build output depends"@)
            })
            &&& kind == InterventionKind::NetworkAccess ==> (if failed {
                occurs(title, "requires network"@)
            } else {
                occurs(title, "output depends on network"@)
            })
            &&& kind == InterventionKind::CpuCount ==> (if result.variant_stable == Some(false) {
                occurs(title, "nondeterministic"@)
            } else {
                occurs(title, "CPU"@)
            })
        }),
{
    let kind = result.intervention.kind;
    let title = title_of(result);
    let variable = result.intervention.variable@;
    let failed = result.build_failures@.len() > 0;
    let none = Seq::<char>::empty();
    if kind == InterventionKind::BuildImage {
        reveal_strlit("Build output depends on the container/toolchain image");
        reveal_strlit("image");
        lemma_stands(title, "image"@, 48);
    }
    if kind == InterventionKind::SourcePath {
        reveal_strlit("Build output depends on the source path");
        reveal_strlit("source path");
        lemma_stands(title, "source path"@, 28);
    }
    if kind == InterventionKind::BuildPath {
        reveal_strlit("Build output depends on the build/workspace path");
        reveal_strlit("build/workspace path");
        lemma_stands(title, "build/workspace path"@, 28);
    }
    if kind == InterventionKind::SourceDateEpoch {
        reveal_strlit("Build output depends on build timestamp input");
        reveal_strlit("timestamp");
        lemma_stands(title, "timestamp"@, 30);
    }
    if kind == InterventionKind::SourceMtime {
        reveal_strlit("Build output depends on source filesystem mtimes");
        reveal_strlit("mtimes");
        lemma_stands(title, "mtimes"@, 42);
    }
    if kind == InterventionKind::Timezone {
        reveal_strlit("Build output depends on timezone");
        reveal_strlit("timezone");
        lemma_stands(title, "timezone"@, 24);
    }
    if kind == InterventionKind::Locale {
        reveal_strlit("Build output depends on locale");
        reveal_strlit("locale");
        lemma_stands(title, "locale"@, 24);
    }
    if kind == InterventionKind::Hostname {
        reveal_strlit("Build output depends on hostname");
        reveal_strlit("hostname");
        lemma_stands(title, "hostname"@, 24);
    }
    if kind == InterventionKind::Umask {
        reveal_strlit("Build output depends on process umask");
        reveal_strlit("umask");
        lemma_stands(title, "umask"@, 32);
    }
    if kind == InterventionKind::DirectoryOrder {
        reveal_strlit("Build output is sensitive to source materialization/enumeration order");
        reveal_strlit("order");
        lemma_stands(title, "order"@, 64);
    }
    if kind == InterventionKind::EnvironmentVariable {
        lemma_holds(title, "Build output depends on environment variable "@, variable, none);
    }
    if kind == InterventionKind::ToolchainExecutable || kind == InterventionKind::DependencyFile {
        lemma_named_title(result);
    }
    if kind == InterventionKind::NetworkAccess {
        reveal_strlit("Build output depends on network availability");
        reveal_strlit("Build requires network availability");
        reveal_strlit("requires network");
        reveal_strlit("output depends on network");
        if failed {
            lemma_stands(title, "requires network"@, 6);
        } else {
            lemma_stands(title, "output depends on network"@, 6);
        }
    }
    if kind == InterventionKind::CpuCount {
        reveal_strlit("Parallel build exhibits nondeterministic output");
        reveal_strlit("Build output depends on CPU/parallelism setting");
        reveal_strlit("nondeterministic");
        reveal_strlit("CPU");
        if result.variant_stable == Some(false) {
            lemma_stands(title, "nondeterministic"@, 24);
        } else {
            lemma_stands(title, "CPU"@, 24);
        }
    }
}

proof fn lemma_named_title(result: InterventionResult)
    requires
        result.intervention.kind == InterventionKind::ToolchainExecutable
            || result.intervention.kind == InterventionKind::DependencyFile,
    ensures
        occurs(title_of(result), result.intervention.variable@),
        result.build_failures@.len() > 0 ==> occurs(title_of(result), "Build success depends"@),
        result.build_failures@.len() == 0 ==> occurs(title_of(result), "Build output depends"@),
{
    let title = title_of(result);
    let variable = result.intervention.variable@;
    let none = Seq::<char>::empty();
    let success = "Build success depends on "@;
    let output = "Build output depends on "@;
    let rest = if result.intervention.kind == InterventionKind::DependencyFile {
        none
    } else if invoked_on_both_sides(result) {
        " executable selection"@
    } else {
        " binding value"@
    };
    reveal_strlit("Build success depends on ");
    reveal_strlit("Build output depends on ");
    reveal_strlit("Build success depends");
    reveal_strlit("Build output depends");
    let start = if result.build_failures@.len() > 0 {
        success
    } else {
        output
    };
    assert(title =~= start + variable + rest);
    lemma_holds(title, start, variable, rest);
    if result.build_failures@.len() > 0 {
        lemma_stands(title, "Build success depends"@, 0);
    } else {
        lemma_stands(title, "Build output depends"@, 0);
    }
}

/// The first advice fits what was varied.
pub proof fn law_advice_fits_what_was_varied(result: InterventionResult)
    ensures
        ({
            let kind = result.intervention.kind;
            let advice = advice_of(result);
            &&& advice.len() >= 1
            &&& kind == InterventionKind::BuildImage ==> occurs(advice[0], "pin the build image"@)
            &&& kind == InterventionKind::ToolchainExecutable ==> occurs(advice[0], "pin the selected compiler"@)
            &&& kind == InterventionKind::DependencyFile ==> occurs(advice[0], "lockfile"@)
            &&& kind == InterventionKind::NetworkAccess ==> occurs(advice[0], "networking disabled"@)
            &&& kind == InterventionKind::SourcePath ==> occurs(advice[0], "source paths"@)
            &&& kind == InterventionKind::BuildPath ==> occurs(advice[0], "build paths"@)
            &&& kind == InterventionKind::SourceMtime ==> occurs(advice[0], "normalize archive/member timestamps"@)
            &&& kind == InterventionKind::Timezone ==> occurs(advice[0], "TZ=UTC"@)
            &&& kind == InterventionKind::Locale ==> occurs(advice[0], "LANG/LC_ALL"@)
            &&& kind == InterventionKind::Hostname ==> occurs(advice[0], "host name"@)
            &&& kind == InterventionKind::CpuCount ==> occurs(advice[0], "task completion order"@)
            &&& kind == InterventionKind::Umask ==> occurs(advice[0], "output permissions"@)
            &&& kind == InterventionKind::DirectoryOrder ==> occurs(advice[0], "sort filesystem enumeration"@)
            &&& kind == InterventionKind::SourceDateEpoch ==> occurs(advice[0], "SOURCE_DATE_EPOCH"@)
            &&& kind == InterventionKind::EnvironmentVariable ==> occurs(
                advice[0],
                result.intervention.variable@,
            )
        }),
{
    let kind = result.intervention.kind;
    let advice = advice_of(result);
    if kind == InterventionKind::BuildImage {
        reveal_strlit(
            "pin the build image by immutable digest and record compiler/linker/package versions as declared build inputs",
        );
        reveal_strlit("pin the build image");
        lemma_stands(advice[0], "pin the build image"@, 0);
    }
    if kind == InterventionKind::ToolchainExecutable {
        reveal_strlit(
            "pin the selected compiler/linker/archive executable and version as an explicit build input",
        );
        reveal_strlit("pin the selected compiler");
        lemma_stands(advice[0], "pin the selected compiler"@, 0);
    }
    if kind == InterventionKind::DependencyFile {
        reveal_strlit(
            "pin the dependency declaration/lockfile and verify resolved package content by digest in offline builds",
        );
        reveal_strlit("lockfile");
        lemma_stands(advice[0], "lockfile"@, 31);
    }
    if kind == InterventionKind::NetworkAccess {
        reveal_strlit(
            "vendor or prefetch dependencies into a content-addressed cache and run the build with networking disabled",
        );
        reveal_strlit("networking disabled");
        lemma_stands(advice[0], "networking disabled"@, 86);
    }
    if kind == InterventionKind::SourcePath {
        reveal_strlit(
            "avoid embedding absolute source paths in generated outputs",
        );
        reveal_strlit("source paths");
        lemma_stands(advice[0], "source paths"@, 25);
    }
    if kind == InterventionKind::BuildPath {
        reveal_strlit(
            "avoid embedding absolute build paths in generated outputs",
        );
        reveal_strlit("build paths");
        lemma_stands(advice[0], "build paths"@, 25);
    }
    if kind == InterventionKind::SourceMtime {
        reveal_strlit(
            "normalize archive/member timestamps from SOURCE_DATE_EPOCH or another declared epoch",
        );
        reveal_strlit("normalize archive/member timestamps");
        lemma_stands(advice[0], "normalize archive/member timestamps"@, 0);
    }
    if kind == InterventionKind::Timezone {
        reveal_strlit(
            "run time-sensitive generation with a fixed timezone such as TZ=UTC",
        );
        reveal_strlit("TZ=UTC");
        lemma_stands(advice[0], "TZ=UTC"@, 60);
    }
    if kind == InterventionKind::Locale {
        reveal_strlit(
            "pin LANG/LC_ALL for build-time sorting, formatting, parsing, and generated text",
        );
        reveal_strlit("LANG/LC_ALL");
        lemma_stands(advice[0], "LANG/LC_ALL"@, 4);
    }
    if kind == InterventionKind::Hostname {
        reveal_strlit(
            "avoid embedding the build host name in artifacts or generated metadata",
        );
        reveal_strlit("host name");
        lemma_stands(advice[0], "host name"@, 26);
    }
    if kind == InterventionKind::CpuCount {
        reveal_strlit(
            "make aggregation, link, and archive ordering independent of task completion order",
        );
        reveal_strlit("task completion order");
        lemma_stands(advice[0], "task completion order"@, 60);
    }
    if kind == InterventionKind::Umask {
        reveal_strlit(
            "normalize output permissions explicitly rather than inheriting the ambient process umask",
        );
        reveal_strlit("output permissions");
        lemma_stands(advice[0], "output permissions"@, 10);
    }
    if kind == InterventionKind::DirectoryOrder {
        reveal_strlit(
            "sort filesystem enumeration results before aggregation, archiving, linking, or code generation",
        );
        reveal_strlit("sort filesystem enumeration");
        lemma_stands(advice[0], "sort filesystem enumeration"@, 0);
    }
    if kind == InterventionKind::SourceDateEpoch {
        reveal_strlit(
            "make generated timestamps deterministic and honor SOURCE_DATE_EPOCH where applicable",
        );
        reveal_strlit("SOURCE_DATE_EPOCH");
        lemma_stands(advice[0], "SOURCE_DATE_EPOCH"@, 50);
    }
    if kind == InterventionKind::EnvironmentVariable {
        lemma_holds(
            advice[0],
            "remove, normalize, or explicitly declare "@,
            result.intervention.variable@,
            " as a build input"@,
        );
    }
}

/// A tool counts as seen on both sides exactly if it was invoked in the build that reverted and in some
/// varied build.
pub proof fn law_tools_are_seen_where_they_were_invoked(result: InterventionResult, name: Seq<char>)
    requires
        result.intervention.variable@ == "toolchain:"@ + name,
    ensures
        invoked_on_both_sides(result) <==> result.confirmation_run is Some && invoked(
            result.confirmation_run->0,
            name,
        ) && exists|i: int| 0 <= i < result.runs@.len() && invoked(#[trigger] result.runs@[i], name),
{
    law_bindings_are_named_without_their_mark(name);
    if invoked_on_both_sides(result) {
        let i = choose|i: int|
            0 <= i < result.runs@.len() && was_invoked(#[trigger] result.runs@[i], name);
        assert(invoked(result.runs@[i], name));
    }
    if exists|i: int| 0 <= i < result.runs@.len() && invoked(#[trigger] result.runs@[i], name) {
        let i = choose|i: int|
            0 <= i < result.runs@.len() && invoked(#[trigger] result.runs@[i], name);
        assert(was_invoked(result.runs@[i], name));
    }
}

/// Whether a build invoked the tool of a variable.
pub open spec fn invoked(run: BuildRun, name: Seq<char>) -> bool {
    exists|i: int|
        0 <= i < run.toolchain_provenance.bindings@.len() && (
        #[trigger] run.toolchain_provenance.bindings@[i]).variable@ == name
            && run.toolchain_provenance.bindings@[i].invocation_count > 0
}

} // verus!
