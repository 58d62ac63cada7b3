//! What the lines of a report say.
use vstd::prelude::*;

use crate::engine::fix::FixVerification;
use crate::laws::wording::lemma_holds;
use crate::model::{
    ArtifactComparison, ArtifactDelta, ArtifactRecord, CheckReport, CheckStatus, Confidence,
    Diagnosis, EnvironmentComparisonStatus, EnvironmentDeltaRecord, InterventionResult,
};
use crate::numbers::decimal_of;
use crate::ordering::is_same_path;
use crate::report::{
    after_bytes, all_stable, artifact_line_text, changed_at, check_lines, comparison_line_text,
    comparison_status, confidence_text, delta_line_text, delta_record_text, experiment_hashes,
    lists_variable, padded_to, result_label, reversion_suffix, reversion_text, short_of,
    status_label, tested_variable_text, undiagnosed_text, verification_status,
    with_artifact_lines, with_comparison_lines, with_delta_lines, with_delta_records,
    with_diagnosis_summary, with_numbered_diagnosis, with_prefixed, with_summary_diagnosis,
    with_tested_variables, with_titled_list,
};
use crate::text::{joined, occurs};

verus! {

/// Different results are told by different words, and each by the word for it.
pub proof fn law_results_are_told_by_their_words(
    a: CheckStatus,
    b: CheckStatus,
    c: Confidence,
    d: Confidence,
)
    ensures
        status_label(CheckStatus::Reproducible) == "REPRODUCIBLE_WITHIN_TESTED_SPACE"@,
        status_label(CheckStatus::NonReproducible) == "NON_REPRODUCIBLE"@,
        status_label(CheckStatus::UncontrolledNondeterminism) == "UNCONTROLLED_NONDETERMINISM"@,
        status_label(CheckStatus::Inconclusive) == "INCONCLUSIVE"@,
        status_label(a) == status_label(b) <==> a == b,
        confidence_text(Confidence::High) == "HIGH"@,
        confidence_text(Confidence::Medium) == "MEDIUM"@,
        confidence_text(Confidence::Low) == "LOW"@,
        confidence_text(c) == confidence_text(d) <==> c == d,
        comparison_status(EnvironmentComparisonStatus::Equivalent)
            == "status: ENVIRONMENTS_EQUIVALENT"@,
        comparison_status(EnvironmentComparisonStatus::Minimized)
            == "status: BAD_ENVIRONMENT_DELTA_MINIMIZED"@,
        comparison_status(EnvironmentComparisonStatus::Inconclusive) == "status: INCONCLUSIVE"@,
        undiagnosed_text(CheckStatus::Reproducible)
            == "cause: none found within the tested intervention space"@,
        undiagnosed_text(CheckStatus::UncontrolledNondeterminism)
            == "cause: not attributed; identical controlled baseline runs changed"@,
{
    reveal_strlit("REPRODUCIBLE_WITHIN_TESTED_SPACE");
    reveal_strlit("NON_REPRODUCIBLE");
    reveal_strlit("UNCONTROLLED_NONDETERMINISM");
    reveal_strlit("INCONCLUSIVE");
    assert("REPRODUCIBLE_WITHIN_TESTED_SPACE"@.len() == 32 && "NON_REPRODUCIBLE"@.len() == 16
        && "UNCONTROLLED_NONDETERMINISM"@.len() == 27 && "INCONCLUSIVE"@.len() == 12);
    reveal_strlit("HIGH");
    reveal_strlit("MEDIUM");
    reveal_strlit("LOW");
    assert("HIGH"@.len() == 4 && "MEDIUM"@.len() == 6 && "LOW"@.len() == 3);
}

/// An experiment is told to have had an effect only if its artifacts changed and no build failed; a
/// build that failed is told so, and an error where nothing was built.
pub proof fn law_effects_are_told_as_they_were(r: InterventionResult, effect: Seq<char>, none: Seq<char>)
    requires
        effect != none,
        effect != "ERROR"@ && effect != "MIXED"@ && effect != "BUILD FAILED"@,
        none != "ERROR"@ && none != "MIXED"@ && none != "BUILD FAILED"@,
    ensures
        ({
            let label = result_label(r, effect, none);
            let built = r.runs@.len() > 0;
            let failed = r.build_failures@.len() > 0;
            &&& label == "MIXED"@ <==> built && failed
            &&& label == "BUILD FAILED"@ <==> failed && !built
            &&& label == "ERROR"@ <==> r.error is Some && !built && !failed
            &&& label == effect <==> r.changed && !failed && (built || r.error is None)
            &&& label == none <==> !r.changed && !failed && (built || r.error is None)
        }),
{
    reveal_strlit("ERROR");
    reveal_strlit("MIXED");
    reveal_strlit("BUILD FAILED");
    assert("ERROR"@[0] == 'E' && "MIXED"@[0] == 'M' && "BUILD FAILED"@[0] == 'B');
}

/// A reversion is called confirmed exactly if the baseline came back, and is told only of experiments
/// that changed something or failed.
pub proof fn law_reversions_are_told_as_they_were(r: InterventionResult)
    ensures
        reversion_text(Some(true)) == " [reversion confirmed]"@,
        reversion_text(Some(false)) == " [reversion failed]"@,
        reversion_text(None) == ""@,
        r.changed || r.build_failures@.len() > 0 ==> reversion_suffix(r) == reversion_text(
            r.reverted_to_baseline,
        ),
        !r.changed && r.build_failures@.len() == 0 ==> reversion_suffix(r) == ""@,
{
}

/// A verification is called verified exactly if it was attempted and succeeded.
pub proof fn law_verifications_are_told_as_they_were(v: FixVerification)
    ensures
        verification_status(v) == "VERIFIED"@ <==> v.attempted && v.verified,
        verification_status(v) == "FAILED"@ <==> v.attempted && !v.verified,
        verification_status(v) == "NOT ATTEMPTED"@ <==> !v.attempted,
{
    reveal_strlit("VERIFIED");
    reveal_strlit("FAILED");
    reveal_strlit("NOT ATTEMPTED");
    assert("VERIFIED"@.len() == 8 && "FAILED"@.len() == 6 && "NOT ATTEMPTED"@.len() == 13);
}

proof fn lemma_after_bytes(s: Seq<char>, k: int, left: int)
    requires
        0 <= k <= s.len(),
        0 <= left,
        forall|i: int| 0 <= i < s.len() ==> (#[trigger] s[i] as int) < 128,
    ensures
        after_bytes(s, k, left) == if k + left <= s.len() {
            Some(k + left)
        } else {
            None
        },
    decreases left,
{
    if left > 0 && k < s.len() {
        assert((s[k] as int) < 128);
        lemma_after_bytes(s, k + 1, left - 1);
    }
}

/// A digest is shortened to its first twelve characters, and a shorter text is kept.
pub proof fn law_digests_are_cut_after_twelve(s: Seq<char>)
    requires
        forall|i: int| 0 <= i < s.len() ==> (#[trigger] s[i] as int) < 128,
    ensures
        s.len() >= 12 ==> short_of(s) == s.take(12),
        s.len() < 12 ==> short_of(s) == s,
{
    lemma_after_bytes(s, 0, 12);
}

/// A name is filled up with blanks behind it.
pub proof fn law_names_are_filled_up_behind(s: Seq<char>, width: int, i: int)
    ensures
        padded_to(s, width).take(s.len() as int) == s,
        padded_to(s, width).len() == if s.len() >= width {
            s.len() as int
        } else {
            width
        },
        s.len() <= i < padded_to(s, width).len() ==> padded_to(s, width)[i] == ' ',
{
    assert(padded_to(s, width).take(s.len() as int) =~= s);
}

/// The line of an artifact tells its path, digest and size; that of a change the digest before it and,
/// behind an arrow, the one after it; that of the controls whether they agreed.
pub proof fn law_artifact_lines_tell_digests(a: ArtifactRecord, d: ArtifactDelta, c: ArtifactComparison)
    ensures
        occurs(artifact_line_text(a), a.logical_path@ + "  sha256="@ + a.sha256@),
        occurs(artifact_line_text(a), "  size="@ + decimal_of(a.size_bytes as int)),
        occurs(delta_line_text(d), d.logical_path@),
        occurs(
            delta_line_text(d),
            short_of(d.baseline_sha256@) + " -> "@ + short_of(d.variant_sha256@),
        ),
        occurs(comparison_line_text(c), c.logical_path@),
        c.equal_across_runs ==> occurs(comparison_line_text(c), ": STABLE"@),
        !c.equal_across_runs ==> occurs(comparison_line_text(c), ": UNSTABLE"@),
{
    let kind = crate::report::type_text(a.detected_type);
    let size = decimal_of(a.size_bytes as int);
    lemma_holds(
        artifact_line_text(a),
        "  "@,
        a.logical_path@ + "  sha256="@ + a.sha256@,
        "  size="@ + size + "  type="@ + kind,
    );
    lemma_holds(
        artifact_line_text(a),
        "  "@ + a.logical_path@ + "  sha256="@ + a.sha256@,
        "  size="@ + size,
        "  type="@ + kind,
    );
    let change = short_of(d.baseline_sha256@) + " -> "@ + short_of(d.variant_sha256@);
    lemma_holds(delta_line_text(d), "    "@, d.logical_path@, "  "@ + change);
    lemma_holds(delta_line_text(d), "    "@ + d.logical_path@ + "  "@, change, Seq::empty());
    reveal_strlit(": ");
    reveal_strlit("STABLE");
    reveal_strlit("UNSTABLE");
    reveal_strlit(": STABLE");
    reveal_strlit(": UNSTABLE");
    let word = if c.equal_across_runs {
        "STABLE"@
    } else {
        "UNSTABLE"@
    };
    assert(": "@ + "STABLE"@ =~= ": STABLE"@);
    assert(": "@ + "UNSTABLE"@ =~= ": UNSTABLE"@);
    lemma_holds(comparison_line_text(c), "control artifact "@, c.logical_path@, ": "@ + word);
    lemma_holds(
        comparison_line_text(c),
        "control artifact "@ + c.logical_path@,
        ": "@ + word,
        Seq::empty(),
    );
}

/// The line of a setting that differs tells its name, the value in the good environment and, behind an
/// arrow, the one in the bad environment.
pub proof fn law_setting_lines_tell_both_values(d: EnvironmentDeltaRecord)
    ensures
        occurs(
            delta_record_text(d),
            d.variable@ + ": "@ + d.baseline_value@ + " -> "@ + d.variant_value@,
        ),
{
    lemma_holds(
        delta_record_text(d),
        "  "@,
        d.variable@ + ": "@ + d.baseline_value@ + " -> "@ + d.variant_value@,
        Seq::empty(),
    );
}

/// Lists are told item by item, in their order, behind what was told before.
pub proof fn law_lists_are_told_item_by_item(
    lines: Seq<Seq<char>>,
    items: Seq<String>,
    prefix: Seq<char>,
    n: int,
)
    requires
        0 <= n <= items.len(),
    ensures
        with_prefixed(lines, items, prefix, n).len() == lines.len() + n,
        with_prefixed(lines, items, prefix, n).take(lines.len() as int) == lines,
        forall|i: int|
            0 <= i < n ==> (#[trigger] with_prefixed(lines, items, prefix, n)[lines.len() + i])
                == prefix + items[i]@,
    decreases n,
{
    if n > 0 {
        law_lists_are_told_item_by_item(lines, items, prefix, n - 1);
        let before = with_prefixed(lines, items, prefix, n - 1);
        let now = with_prefixed(lines, items, prefix, n);
        assert(now.take(lines.len() as int) =~= before.take(lines.len() as int));
        assert forall|i: int| 0 <= i < n implies (#[trigger] now[lines.len() + i]) == prefix
            + items[i]@ by {
            if i < n - 1 {
                assert(now[lines.len() + i] == before[lines.len() + i]);
            }
        }
    } else {
        assert(lines.take(lines.len() as int) =~= lines);
    }
}

/// Every artifact, every control artifact and every tested setting gets its line, in their order.
pub proof fn law_everything_gets_its_line(
    lines: Seq<Seq<char>>,
    artifacts: Seq<ArtifactRecord>,
    comparisons: Seq<ArtifactComparison>,
    results: Seq<InterventionResult>,
    records: Seq<EnvironmentDeltaRecord>,
    n: int,
    i: int,
)
    requires
        0 <= i < n,
    ensures
        n <= artifacts.len() ==> with_artifact_lines(lines, artifacts, n).len() == lines.len() + n
            && with_artifact_lines(lines, artifacts, n)[lines.len() + i] == artifact_line_text(
            artifacts[i],
        ),
        n <= comparisons.len() ==> with_comparison_lines(lines, comparisons, n).len() == lines.len()
            + n && with_comparison_lines(lines, comparisons, n)[lines.len() + i]
            == comparison_line_text(comparisons[i]),
        n <= results.len() ==> with_tested_variables(lines, results, n).len() == lines.len() + n
            && with_tested_variables(lines, results, n)[lines.len() + i] == tested_variable_text(
            results[i],
        ),
        n <= records.len() ==> with_delta_records(lines, records, n).len() == lines.len() + n
            && with_delta_records(lines, records, n)[lines.len() + i] == delta_record_text(
            records[i],
        ),
    decreases n,
{
    lemma_line_counts(lines, artifacts, comparisons, results, records, n - 1);
    if i < n - 1 {
        law_everything_gets_its_line(lines, artifacts, comparisons, results, records, n - 1, i);
    }
}

proof fn lemma_line_counts(
    lines: Seq<Seq<char>>,
    artifacts: Seq<ArtifactRecord>,
    comparisons: Seq<ArtifactComparison>,
    results: Seq<InterventionResult>,
    records: Seq<EnvironmentDeltaRecord>,
    n: int,
)
    requires
        0 <= n,
    ensures
        with_artifact_lines(lines, artifacts, n).len() == lines.len() + n,
        with_comparison_lines(lines, comparisons, n).len() == lines.len() + n,
        with_tested_variables(lines, results, n).len() == lines.len() + n,
        with_delta_records(lines, records, n).len() == lines.len() + n,
    decreases n,
{
    if n > 0 {
        lemma_line_counts(lines, artifacts, comparisons, results, records, n - 1);
    }
}

/// The line of a tested setting tells its name and what came of it.
pub proof fn law_tested_settings_are_told_with_their_effect(r: InterventionResult)
    ensures
        occurs(tested_variable_text(r), r.intervention.variable@),
        r.changed && r.build_failures@.len() == 0 && r.runs@.len() > 0 ==> occurs(
            tested_variable_text(r),
            "EFFECT"@,
        ),
        !r.changed && r.build_failures@.len() == 0 && r.runs@.len() > 0 ==> occurs(
            tested_variable_text(r),
            "no effect"@,
        ),
        (r.changed || r.build_failures@.len() > 0) && r.reverted_to_baseline == Some(true) ==> occurs(
            tested_variable_text(r),
            " [reversion confirmed]"@,
        ),
{
    let name = r.intervention.variable@;
    let wide = padded_to(name, 24);
    let label = result_label(r, "EFFECT"@, "no effect"@);
    let end = reversion_suffix(r);
    law_names_are_filled_up_behind(name, 24, 0);
    assert(wide =~= name + wide.skip(name.len() as int)) by {
        assert forall|i: int| 0 <= i < name.len() implies wide[i] == name[i] by {
            assert(wide.take(name.len() as int)[i] == wide[i]);
        }
    }
    lemma_holds(
        tested_variable_text(r),
        "  "@,
        name,
        wide.skip(name.len() as int) + " "@ + label + end,
    );
    lemma_holds(tested_variable_text(r), "  "@ + wide + " "@, label, end);
    lemma_holds(tested_variable_text(r), "  "@ + wide + " "@ + label, end, Seq::empty());
}

/// Only artifacts that changed get a line of change.
pub proof fn law_only_changed_artifacts_are_told(
    lines: Seq<Seq<char>>,
    items: Seq<ArtifactDelta>,
    n: int,
    i: int,
)
    requires
        0 <= i < n <= items.len(),
    ensures
        items[i].changed ==> with_delta_lines(lines, items, n).contains(delta_line_text(items[i])),
        (forall|k: int| 0 <= k < n ==> !(#[trigger] items[k]).changed) ==> with_delta_lines(
            lines,
            items,
            n,
        ) == lines,
    decreases n,
{
    lemma_unchanged(lines, items, n);
    let before = with_delta_lines(lines, items, n - 1);
    let now = with_delta_lines(lines, items, n);
    if i < n - 1 {
        law_only_changed_artifacts_are_told(lines, items, n - 1, i);
        if items[i].changed {
            let k = choose|k: int| 0 <= k < before.len() && before[k] == delta_line_text(items[i]);
            assert(now[k] == before[k]);
        }
    } else if items[i].changed {
        assert(now[before.len() as int] == delta_line_text(items[i]));
    }
}

proof fn lemma_unchanged(lines: Seq<Seq<char>>, items: Seq<ArtifactDelta>, n: int)
    requires
        0 <= n <= items.len(),
    ensures
        (forall|k: int| 0 <= k < n ==> !(#[trigger] items[k]).changed) ==> with_delta_lines(
            lines,
            items,
            n,
        ) == lines,
    decreases n,
{
    if n > 0 {
        lemma_unchanged(lines, items, n - 1);
        assert(items[n - 1].changed || !items[n - 1].changed);
    }
}

/// A diagnosis is told with its title, its confidence and its causes, all its evidence and all its
/// remedies.
pub proof fn law_diagnoses_are_told_in_full(lines: Seq<Seq<char>>, d: Diagnosis, index: usize, i: int)
    ensures
        ({
            let told = with_numbered_diagnosis(lines, d, index);
            let n = lines.len() as int;
            let e = d.evidence@.len() as int;
            let r = d.remediation@.len() as int;
            &&& told.len() == n + 2 + e + r
            &&& occurs(told[n], d.title@)
            &&& occurs(told[n], "[confidence: "@ + confidence_text(d.confidence) + "]"@)
            &&& occurs(
                told[n + 1],
                joined(d.causal_variables.deep_view(), ", "@, d.causal_variables@.len() as int),
            )
            &&& 0 <= i < e ==> told[n + 2 + i] == "     evidence: "@ + d.evidence@[i]@
            &&& 0 <= i < r ==> told[n + 2 + e + i] == "     remediation: "@ + d.remediation@[i]@
        }),
{
    let n = lines.len() as int;
    let e = d.evidence@.len() as int;
    let r = d.remediation@.len() as int;
    let number = decimal_of(index + 1);
    let first = "  "@ + number + ". "@ + d.title@ + "  [confidence: "@ + confidence_text(
        d.confidence,
    ) + "]"@;
    let causes = joined(d.causal_variables.deep_view(), ", "@, d.causal_variables@.len() as int);
    let second = "     causal variable(s): "@ + causes;
    let two = lines.push(first).push(second);
    law_lists_are_told_item_by_item(two, d.evidence@, "     evidence: "@, e);
    let three = with_prefixed(two, d.evidence@, "     evidence: "@, e);
    law_lists_are_told_item_by_item(three, d.remediation@, "     remediation: "@, r);
    let told = with_prefixed(three, d.remediation@, "     remediation: "@, r);
    assert(with_numbered_diagnosis(lines, d, index) == told);
    assert(three.take(n + 2)[n] == three[n] && three.take(n + 2)[n + 1] == three[n + 1]);
    assert(told.take(n + 2 + e)[n] == told[n] && told.take(n + 2 + e)[n + 1] == told[n + 1]);
    assert(told[n] == first && told[n + 1] == second);
    reveal_strlit("  [confidence: ");
    reveal_strlit("[confidence: ");
    reveal_strlit("  ");
    assert("  [confidence: "@ =~= "  "@ + "[confidence: "@);
    let mark = "[confidence: "@ + confidence_text(d.confidence) + "]"@;
    lemma_holds(first, "  "@ + number + ". "@, d.title@, "  "@ + mark);
    lemma_holds(first, "  "@ + number + ". "@ + d.title@ + "  "@, mark, Seq::empty());
    lemma_holds(second, "     causal variable(s): "@, causes, Seq::empty());
    if 0 <= i < e {
        assert(three[two.len() + i] == "     evidence: "@ + d.evidence@[i]@);
        assert(told.take(n + 2 + e)[n + 2 + i] == told[n + 2 + i]);
    }
    if 0 <= i < r {
        assert(told[three.len() + i] == "     remediation: "@ + d.remediation@[i]@);
    }
}

/// The summary of a check begins with its result and with how many controls ran and whether they agreed.
pub proof fn law_summaries_begin_with_the_result(report: CheckReport)
    ensures
        ({
            let head = with_result(report);
            let told = with_diagnosis_summary(Seq::empty(), report);
            &&& told.len() >= 3
            &&& told.take(3) == head
        }),
        all_stable(report.artifact_comparisons@) <==> report.artifact_comparisons@.len() > 0
            && forall|k: int|
            0 <= k < report.artifact_comparisons@.len() ==> (
            #[trigger] report.artifact_comparisons@[k]).equal_across_runs,
        check_lines(report, false) == with_diagnosis_summary(Seq::empty(), report),
{
    let head = with_result(report);
    let none: Seq<Seq<char>> = Seq::empty();
    assert(head =~= none.push(head[0]).push(head[1]).push(head[2]));
    let a = if report.diagnoses@.len() == 0 {
        head.push(undiagnosed_text(report.status))
    } else {
        crate::report::with_summary_diagnoses(
            head,
            report.diagnoses@,
            report,
            report.diagnoses@.len() as int,
        )
    };
    lemma_summary_keeps(head, report, report.diagnoses@.len() as int);
    let b = a.push(""@).push("tested variables:"@);
    let c = if report.interventions@.len() == 0 {
        b.push("  (none completed)"@)
    } else {
        with_tested_variables(b, report.interventions@, report.interventions@.len() as int)
    };
    lemma_tested_keeps(b, report.interventions@, report.interventions@.len() as int);
    let d = match report.interaction_search {
        Some(s) => crate::report::with_search(c, s),
        None => c,
    };
    let e = with_prefixed(d, report.notes@, "note: "@, report.notes@.len() as int);
    law_lists_are_told_item_by_item(d, report.notes@, "note: "@, report.notes@.len() as int);
    let told = e.push("details: rerun with -v for full experiment/provenance evidence"@);
    assert(with_diagnosis_summary(Seq::empty(), report) == told);
    assert(starts(a, head)) by {
        if report.diagnoses@.len() == 0 {
            assert(a.take(3) =~= head);
        }
    }
    lemma_starts(head, a, b);
    lemma_starts(head, b, c);
    lemma_starts(head, c, d);
    lemma_starts(head, d, e);
    lemma_starts(head, e, told);
}

/// The first lines of the summary of a check.
pub open spec fn with_result(report: CheckReport) -> Seq<Seq<char>> {
    seq![
        "ReproBisect diagnosis"@,
        "result: "@ + status_label(report.status),
        "controls: "@ + decimal_of(report.runs@.len() as int) + " run(s), "@ + if all_stable(
            report.artifact_comparisons@,
        ) {
            "stable"@
        } else {
            "not stable"@
        },
    ]
}

/// Whether lines begin with others.
pub open spec fn starts(all: Seq<Seq<char>>, head: Seq<Seq<char>>) -> bool {
    all.len() >= head.len() && all.take(head.len() as int) == head
}

proof fn lemma_starts(head: Seq<Seq<char>>, a: Seq<Seq<char>>, b: Seq<Seq<char>>)
    requires
        starts(a, head),
        b.len() >= a.len(),
        forall|i: int| 0 <= i < a.len() ==> #[trigger] b[i] == a[i],
    ensures
        starts(b, head),
{
    assert(b.take(head.len() as int) =~= a.take(head.len() as int));
}

proof fn lemma_tested_keeps(lines: Seq<Seq<char>>, items: Seq<InterventionResult>, n: int)
    requires
        0 <= n,
    ensures
        with_tested_variables(lines, items, n).len() >= lines.len(),
        forall|i: int|
            0 <= i < lines.len() ==> #[trigger] with_tested_variables(lines, items, n)[i]
                == lines[i],
    decreases n,
{
    if n > 0 {
        lemma_tested_keeps(lines, items, n - 1);
    }
}

proof fn lemma_list_keeps(lines: Seq<Seq<char>>, title: Seq<char>, items: Seq<String>)
    ensures
        starts(with_titled_list(lines, title, items), lines),
        forall|i: int|
            0 <= i < lines.len() ==> #[trigger] with_titled_list(lines, title, items)[i] == lines[i],
{
    if items.len() > 0 {
        let titled = lines.push(title);
        law_lists_are_told_item_by_item(titled, items, "  - "@, items.len() as int);
        let all = with_titled_list(lines, title, items);
        assert forall|i: int| 0 <= i < lines.len() implies #[trigger] all[i] == lines[i] by {
            assert(all.take(titled.len() as int)[i] == all[i]);
            assert(titled[i] == lines[i]);
        }
        assert(all.take(lines.len() as int) =~= lines);
    } else {
        assert(lines.take(lines.len() as int) =~= lines);
    }
}

proof fn lemma_hashes_keep(
    lines: Seq<Seq<char>>,
    items: Seq<String>,
    report: CheckReport,
    variables: Seq<String>,
    n: int,
)
    requires
        0 <= n,
    ensures
        crate::report::with_all_hashes(lines, items, report, variables, n).len() >= lines.len(),
        forall|i: int|
            0 <= i < lines.len() ==> #[trigger] crate::report::with_all_hashes(
                lines,
                items,
                report,
                variables,
                n,
            )[i] == lines[i],
    decreases n,
{
    if n > 0 {
        lemma_hashes_keep(lines, items, report, variables, n - 1);
    }
}

proof fn lemma_summary_keeps(lines: Seq<Seq<char>>, report: CheckReport, n: int)
    requires
        0 <= n <= report.diagnoses@.len(),
    ensures
        crate::report::with_summary_diagnoses(lines, report.diagnoses@, report, n).len()
            >= lines.len(),
        starts(crate::report::with_summary_diagnoses(lines, report.diagnoses@, report, n), lines),
    decreases n,
{
    if n > 0 {
        lemma_summary_keeps(lines, report, n - 1);
        let before = crate::report::with_summary_diagnoses(lines, report.diagnoses@, report, n - 1);
        lemma_one_summary_keeps(before, report.diagnoses@[n - 1], (n - 1) as usize, report);
        lemma_starts(
            lines,
            before,
            crate::report::with_summary_diagnoses(lines, report.diagnoses@, report, n),
        );
    } else {
        assert(lines.take(lines.len() as int) =~= lines);
    }
}

proof fn lemma_one_summary_keeps(
    lines: Seq<Seq<char>>,
    d: Diagnosis,
    index: usize,
    report: CheckReport,
)
    ensures
        with_summary_diagnosis(lines, d, index, report).len() > lines.len() + 1,
        forall|i: int|
            0 <= i < lines.len() ==> #[trigger] with_summary_diagnosis(lines, d, index, report)[i]
                == lines[i],
        occurs(with_summary_diagnosis(lines, d, index, report)[lines.len() as int + 1], d.title@),
        with_summary_diagnosis(lines, d, index, report).contains(
            "confidence: "@ + confidence_text(d.confidence),
        ),
{
    let n = lines.len() as int;
    let title = if report.diagnoses@.len() == 1 {
        "cause: "@ + d.title@
    } else {
        "cause "@ + decimal_of(index + 1) + ": "@ + d.title@
    };
    if report.diagnoses@.len() == 1 {
        lemma_holds(title, "cause: "@, d.title@, Seq::empty());
    } else {
        lemma_holds(title, "cause "@ + decimal_of(index + 1) + ": "@, d.title@, Seq::empty());
    }
    let a = lines.push(""@).push(title).push(
        "causal variable"@ + crate::report::picked(d.causal_variables@.len() == 1, ""@, "s"@) + ": "@
            + joined(d.causal_variables.deep_view(), ", "@, d.causal_variables@.len() as int),
    );
    let b = if d.affected_artifacts@.len() > 0 {
        a.push(
            "artifact"@ + crate::report::picked(d.affected_artifacts@.len() == 1, ""@, "s"@) + ": "@
                + joined(d.affected_artifacts.deep_view(), ", "@, d.affected_artifacts@.len() as int),
        )
    } else {
        a
    };
    let sure = "confidence: "@ + confidence_text(d.confidence);
    let c = b.push(sure);
    let h = crate::report::with_all_hashes(
        c,
        d.affected_artifacts@,
        report,
        d.causal_variables@,
        d.affected_artifacts@.len() as int,
    );
    lemma_hashes_keep(
        c,
        d.affected_artifacts@,
        report,
        d.causal_variables@,
        d.affected_artifacts@.len() as int,
    );
    let x = with_titled_list(h, "evidence:"@, d.evidence@);
    lemma_list_keeps(h, "evidence:"@, d.evidence@);
    let y = with_titled_list(x, "likely remediation:"@, d.remediation@);
    lemma_list_keeps(x, "likely remediation:"@, d.remediation@);
    let z = with_titled_list(y, "limitations:"@, d.limitations@);
    lemma_list_keeps(y, "limitations:"@, d.limitations@);
    assert(with_summary_diagnosis(lines, d, index, report) == z);
    assert forall|i: int| 0 <= i < c.len() implies #[trigger] z[i] == c[i] by {
        assert(y[i] == x[i]);
        assert(x[i] == h[i]);
        assert(h[i] == c[i]);
    }
    assert(c[n + 1] == title);
    assert(z[n + 1] == c[n + 1]);
    assert(c[b.len() as int] == sure);
    assert(z[b.len() as int] == sure);
    assert forall|i: int| 0 <= i < n implies #[trigger] z[i] == lines[i] by {
        assert(c[i] == lines[i]);
    }
}

/// The summary of a diagnosis names its cause in its second line and tells how sure it is.
pub proof fn law_summaries_name_the_cause(
    lines: Seq<Seq<char>>,
    d: Diagnosis,
    index: usize,
    report: CheckReport,
)
    ensures
        ({
            let told = with_summary_diagnosis(lines, d, index, report);
            &&& told.len() > lines.len() + 1
            &&& occurs(told[lines.len() as int + 1], d.title@)
            &&& told.contains("confidence: "@ + confidence_text(d.confidence))
        }),
{
    lemma_one_summary_keeps(lines, d, index, report);
}

proof fn lemma_changed_at(deltas: Seq<ArtifactDelta>, path: Seq<char>, from: int)
    requires
        0 <= from <= deltas.len(),
    ensures
        changed_at(deltas, path, from) matches Some(d) ==> d.changed && is_same_path(
            d.logical_path@,
            path,
        ) && exists|i: int| from <= i < deltas.len() && #[trigger] deltas[i] == d,
        changed_at(deltas, path, from) is None ==> forall|i: int|
            from <= i < deltas.len() ==> !((#[trigger] deltas[i]).changed && is_same_path(
                deltas[i].logical_path@,
                path,
            )),
    decreases deltas.len() - from,
{
    if from < deltas.len() {
        lemma_changed_at(deltas, path, from + 1);
        if deltas[from].changed && is_same_path(deltas[from].logical_path@, path) {
            assert(deltas[from] == changed_at(deltas, path, from)->0);
        } else if changed_at(deltas, path, from + 1) is Some {
            let d = changed_at(deltas, path, from + 1)->0;
            let i = choose|i: int| from < i < deltas.len() && #[trigger] deltas[i] == d;
            assert(deltas[i] == d);
        }
    }
}

/// The digests under a diagnosis are those of an artifact that changed in an experiment on one of its
/// settings: the baseline's, the variant's and that of the reversion, which counts as confirmed exactly if
/// the baseline came back.
pub proof fn law_diagnosed_digests_come_from_an_experiment(
    results: Seq<InterventionResult>,
    variables: Seq<String>,
    path: Seq<char>,
    from: int,
)
    requires
        0 <= from <= results.len(),
    ensures
        experiment_hashes(results, variables, path, from) matches Some(found) ==> exists|i: int|
            from <= i < results.len() && lists_variable(
                variables,
                (#[trigger] results[i]).intervention.variable@,
            ) && (changed_at(results[i].artifact_deltas@, path, 0) matches Some(d)
                && found.baseline == d.baseline_sha256@ && found.variant == d.variant_sha256@)
                && (found.reversion matches Some((digest, confirmed)) ==> (confirmed <==> results[i].reverted_to_baseline
                == Some(true)) && results[i].confirmation_run is Some),
    decreases results.len() - from,
{
    if from < results.len() {
        law_diagnosed_digests_come_from_an_experiment(results, variables, path, from + 1);
        let r = results[from];
        lemma_changed_at(r.artifact_deltas@, path, 0);
        if lists_variable(variables, r.intervention.variable@) && changed_at(
            r.artifact_deltas@,
            path,
            0,
        ) is Some {
            assert(lists_variable(variables, results[from].intervention.variable@));
        }
    }
}

} // verus!
