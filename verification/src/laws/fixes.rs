//! What a proposed fix does, when it is proposed and when it counts as verified.
use vstd::prelude::*;

use crate::config::Config;
use crate::engine::fix::{
    any_differs_in_field, are_stable, conclude_fix, differs_in_field, epoch_pin, fix_plans,
    flags_with, gcc_flags_text, has_path_pair, holds_both_paths, intervention_on, is_blamed,
    is_located, is_verified, judge_verification, mtime_normalization, normalized, path_remap,
    result_plan, rust_flags_text, source_problem, umask_pin, unverified, verification_spec_of,
    with_flags, blames, FixPlan, FixPlanView, FixReport, FixVerification,
};
use crate::engine::interventions::PlannedInterventionView;
use crate::engine::outcomes::same_hashes;
use crate::engine::patch::PatchFiles;
use crate::environment::octal_mask;
use crate::laws::builds::{law_equal_hashes_mean_equal_files, same_files};
use crate::laws::wording::lemma_holds;
use crate::model::{
    ArchiveMetadataField, ArtifactDelta, BuildRun, CheckReport, Confidence,
    ControlledEnvironmentView, Diagnosis, InterventionKind, InterventionResult,
};
use crate::numbers::{
    all_digits, decimal_of, digits_of, law_written_numbers_read_back,
    law_written_signed_numbers_read_back, number_in, value_of, without_plus,
};
use crate::ordering::{lemma_text_key_injective, Order};
use crate::string_map::{increasing, lemma_with_entry, value_at, with_entry, Entries};
use crate::text::{occurs, trimmed, CharClass};

verus! {

/// The compiler flags map both tested paths to the same neutral prefix, for files and for debug
/// information alike.
pub proof fn law_compiler_flags_map_both_paths(baseline: Seq<char>, variant: Seq<char>)
    ensures
        occurs(gcc_flags_text(baseline, variant), "-ffile-prefix-map="@ + baseline + "=."@),
        occurs(gcc_flags_text(baseline, variant), "-fdebug-prefix-map="@ + baseline + "=."@),
        occurs(gcc_flags_text(baseline, variant), "-ffile-prefix-map="@ + variant + "=."@),
        occurs(gcc_flags_text(baseline, variant), "-fdebug-prefix-map="@ + variant + "=."@),
        occurs(rust_flags_text(baseline, variant), "--remap-path-prefix="@ + baseline + "=."@),
        occurs(rust_flags_text(baseline, variant), "--remap-path-prefix="@ + variant + "=."@),
{
    let none = Seq::<char>::empty();
    let gcc = gcc_flags_text(baseline, variant);
    let rust = rust_flags_text(baseline, variant);
    let file = "-ffile-prefix-map="@;
    let debug = "-fdebug-prefix-map="@;
    let remap = "--remap-path-prefix="@;
    let end = "=."@;
    let space = " "@;
    reveal_strlit(" ");
    reveal_strlit("=.");
    reveal_strlit("-ffile-prefix-map=");
    reveal_strlit("-fdebug-prefix-map=");
    reveal_strlit("--remap-path-prefix=");
    reveal_strlit("=. -fdebug-prefix-map=");
    reveal_strlit("=. -ffile-prefix-map=");
    reveal_strlit("=. --remap-path-prefix=");
    assert("=. -fdebug-prefix-map="@ =~= end + space + debug);
    assert("=. -ffile-prefix-map="@ =~= end + space + file);
    assert("=. --remap-path-prefix="@ =~= end + space + remap);
    let a = file + baseline + end;
    let b = debug + baseline + end;
    let c = file + variant + end;
    let d = debug + variant + end;
    assert(gcc =~= a + space + b + space + c + space + d);
    lemma_holds(gcc, none, a, space + b + space + c + space + d);
    lemma_holds(gcc, a + space, b, space + c + space + d);
    lemma_holds(gcc, a + space + b + space, c, space + d);
    lemma_holds(gcc, a + space + b + space + c + space, d, none);
    let x = remap + baseline + end;
    let y = remap + variant + end;
    assert(rust =~= x + space + y);
    lemma_holds(rust, none, x, space + y);
    lemma_holds(rust, x + space, y, none);
}

proof fn lemma_text_entry(entries: Entries, key: Seq<char>, value: Seq<char>)
    requires
        increasing(Order::Text, entries),
    ensures
        increasing(Order::Text, with_entry(Order::Text, entries, key, value)),
        forall|k: Seq<char>| #[trigger]
            value_at(Order::Text, with_entry(Order::Text, entries, key, value), k) == if k == key {
                Some(value)
            } else {
                value_at(Order::Text, entries, k)
            },
{
    lemma_with_entry(Order::Text, entries, key, value);
    assert forall|k: Seq<char>| #[trigger]
        value_at(Order::Text, with_entry(Order::Text, entries, key, value), k) == if k == key {
            Some(value)
        } else {
            value_at(Order::Text, entries, k)
        } by {
        lemma_text_key_injective(k, key);
    }
}

proof fn lemma_nothing_set()
    ensures
        increasing(Order::Text, Seq::<(Seq<char>, Seq<char>)>::empty()),
        forall|k: Seq<char>| #[trigger]
            value_at(Order::Text, Seq::<(Seq<char>, Seq<char>)>::empty(), k) is None,
{
}

/// The fix for a path is about that variable, and gives C, C++ and Rust compilers the flags for both
/// paths, and nothing else.
pub proof fn law_path_fixes_map_both_paths_in_all_compilers(
    files: PatchFiles,
    config: Config,
    result: InterventionResult,
)
    ensures
        ({
            let plan = path_remap(files, config, result);
            let i = result.intervention;
            let gcc = gcc_flags_text(i.baseline_value@, i.variant_value@);
            let rust = rust_flags_text(i.baseline_value@, i.variant_value@);
            &&& plan.causal_variable == i.variable@
            &&& plan.strategy == "compiler-prefix-map"@
            &&& forall|k: Seq<char>| #[trigger]
                value_at(Order::Text, plan.suggested_environment_appends, k) == if k == "CFLAGS"@
                    || k == "CXXFLAGS"@ {
                    Some(gcc)
                } else if k == "RUSTFLAGS"@ {
                    Some(rust)
                } else {
                    None
                }
            &&& plan.suggested_environment_overrides.len() == 0
            &&& plan.suggested_runner_controls.len() == 0
            &&& plan.suggested_shell_commands.len() == 0
            &&& plan.automatic_verification_supported <==> plan.project_patch is Some || value_at(
                Order::Text,
                config.build.env.deep_view(),
                "CFLAGS"@,
            ) is Some || value_at(Order::Text, config.build.env.deep_view(), "CXXFLAGS"@) is Some
                || value_at(Order::Text, config.build.env.deep_view(), "RUSTFLAGS"@) is Some
        }),
{
    let i = result.intervention;
    let gcc = gcc_flags_text(i.baseline_value@, i.variant_value@);
    let rust = rust_flags_text(i.baseline_value@, i.variant_value@);
    let none = Seq::<(Seq<char>, Seq<char>)>::empty();
    lemma_nothing_set();
    lemma_text_entry(none, "CFLAGS"@, gcc);
    let a = with_entry(Order::Text, none, "CFLAGS"@, gcc);
    lemma_text_entry(a, "CXXFLAGS"@, gcc);
    let b = with_entry(Order::Text, a, "CXXFLAGS"@, gcc);
    lemma_text_entry(b, "RUSTFLAGS"@, rust);
    reveal_strlit("CFLAGS");
    reveal_strlit("CXXFLAGS");
    reveal_strlit("RUSTFLAGS");
    assert("CFLAGS"@.len() == 6 && "CXXFLAGS"@.len() == 8 && "RUSTFLAGS"@.len() == 9);
}

/// The fixes for a timestamp, for source times and for the umask pin the baseline value: in the
/// environment or in the runner, and in the suggested command.
pub proof fn law_pinning_fixes_keep_the_baseline_value(
    files: PatchFiles,
    config: Config,
    result: InterventionResult,
)
    ensures
        ({
            let value = result.intervention.baseline_value@;
            let variable = result.intervention.variable@;
            let epoch = epoch_pin(files, config, result);
            let mtime = mtime_normalization(files, config, result);
            let umask = umask_pin(files, config, result);
            &&& epoch.causal_variable == variable && mtime.causal_variable == variable
                && umask.causal_variable == variable
            &&& epoch.strategy == "pin-source-date-epoch"@
            &&& mtime.strategy == "normalize-source-mtime"@
            &&& umask.strategy == "pin-umask"@
            &&& forall|k: Seq<char>| #[trigger]
                value_at(Order::Text, epoch.suggested_environment_overrides, k) == if k
                    == "SOURCE_DATE_EPOCH"@ {
                    Some(value)
                } else {
                    None
                }
            &&& forall|k: Seq<char>| #[trigger]
                value_at(Order::Text, mtime.suggested_runner_controls, k) == if k
                    == "source_mtime_epoch"@ {
                    Some(value)
                } else {
                    None
                }
            &&& forall|k: Seq<char>| #[trigger]
                value_at(Order::Text, umask.suggested_runner_controls, k) == if k == "umask"@ {
                    Some(value)
                } else {
                    None
                }
            &&& epoch.suggested_shell_commands =~= seq!["export SOURCE_DATE_EPOCH="@ + value]
            &&& umask.suggested_shell_commands =~= seq!["umask "@ + value]
            &&& mtime.suggested_shell_commands.len() == 1 && occurs(
                mtime.suggested_shell_commands[0],
                "touch -d '@"@ + value + "'"@,
            )
            &&& epoch.suggested_environment_appends.len() == 0
                && mtime.suggested_environment_appends.len() == 0
                && umask.suggested_environment_appends.len() == 0
            &&& epoch.automatic_verification_supported && mtime.automatic_verification_supported
                && umask.automatic_verification_supported
        }),
{
    let value = result.intervention.baseline_value@;
    let none = Seq::<(Seq<char>, Seq<char>)>::empty();
    lemma_nothing_set();
    lemma_text_entry(none, "SOURCE_DATE_EPOCH"@, value);
    lemma_text_entry(none, "source_mtime_epoch"@, value);
    lemma_text_entry(none, "umask"@, value);
    let mtime = mtime_normalization(files, config, result);
    let before = "find . \\( -type f -o -type d \\) -exec "@;
    let touch = "touch -d '@"@;
    reveal_strlit("find . \\( -type f -o -type d \\) -exec touch -d '@");
    reveal_strlit("find . \\( -type f -o -type d \\) -exec ");
    reveal_strlit("touch -d '@");
    reveal_strlit("' {} +");
    reveal_strlit("'");
    reveal_strlit(" {} +");
    assert("find . \\( -type f -o -type d \\) -exec touch -d '@"@ =~= before + touch);
    assert("' {} +"@ =~= "'"@ + " {} +"@);
    lemma_holds(
        mtime.suggested_shell_commands[0],
        before,
        touch + value + "'"@,
        " {} +"@,
    );
}

/// A pinning fix, applied to any environment, restores the baseline value of its setting and leaves all
/// other settings alone.
pub proof fn law_pinning_fixes_restore_the_baseline_setting(
    files: PatchFiles,
    config: Config,
    result: InterventionResult,
    e: ControlledEnvironmentView,
    time: i64,
    mask: u32,
)
    requires
        increasing(Order::Text, e.environment),
    ensures
        ({
            let value = result.intervention.baseline_value@;
            let epoch = normalized(epoch_pin(files, config, result), e);
            let mtime = normalized(mtime_normalization(files, config, result), e);
            let umask = normalized(umask_pin(files, config, result), e);
            let paths = normalized(path_remap(files, config, result), e);
            &&& epoch is Ok && epoch->Ok_0 == (ControlledEnvironmentView {
                environment: epoch->Ok_0.environment,
                ..e
            }) && forall|k: Seq<char>| #[trigger]
                value_at(Order::Text, epoch->Ok_0.environment, k) == if k == "SOURCE_DATE_EPOCH"@ {
                    Some(value)
                } else {
                    value_at(Order::Text, e.environment, k)
                }
            &&& value == decimal_of(time as int) ==> mtime is Ok && mtime->Ok_0 == (
            ControlledEnvironmentView { source_mtime_epoch: Some(time), ..e })
            &&& value == octal_mask(mask) ==> umask is Ok && umask->Ok_0 == (
            ControlledEnvironmentView { umask: Some(mask), ..e })
            &&& paths is Ok && paths->Ok_0 == e
        }),
{
    let value = result.intervention.baseline_value@;
    law_pinning_fixes_keep_the_baseline_value(files, config, result);
    lemma_text_entry(e.environment, "SOURCE_DATE_EPOCH"@, value);
    reveal_strlit("compiler-prefix-map");
    reveal_strlit("pin-source-date-epoch");
    reveal_strlit("normalize-source-mtime");
    reveal_strlit("pin-umask");
    assert("compiler-prefix-map"@.len() == 19);
    assert("pin-source-date-epoch"@.len() == 21);
    assert("normalize-source-mtime"@.len() == 22);
    assert("pin-umask"@.len() == 9);
    law_written_signed_numbers_read_back(time as int, i64::MIN as int, i64::MAX as int);
    lemma_mask_reads_back(mask);
    let epoch = epoch_pin(files, config, result);
    let mtime = mtime_normalization(files, config, result);
    let umask = umask_pin(files, config, result);
    assert(value_at(Order::Text, epoch.suggested_environment_overrides, "SOURCE_DATE_EPOCH"@)
        == Some(value));
    assert(value_at(Order::Text, mtime.suggested_runner_controls, "source_mtime_epoch"@) == Some(
        value,
    ));
    assert(value_at(Order::Text, umask.suggested_runner_controls, "umask"@) == Some(value));
}

proof fn lemma_mask_reads_back(mask: u32)
    ensures
        number_in(octal_mask(mask), 8, u32::MAX as int) == Some(mask as int),
{
    let digits = digits_of(mask as nat, 8);
    law_written_numbers_read_back(mask as nat, 8, u32::MAX as int);
    let s = octal_mask(mask);
    lemma_octal_start(mask as nat);
    if digits.len() >= 3 {
        assert(s == digits);
    } else {
        let zeros = Seq::new((3 - digits.len()) as nat, |i: int| '0');
        assert(s == zeros + digits);
        lemma_zeros_in_front(zeros, digits);
        assert(s[0] == '0');
        assert(without_plus(s) == s);
        assert(all_digits(digits, 8));
        assert(all_digits(s, 8)) by {
            assert forall|i: int| 0 <= i < s.len() implies crate::numbers::digit_value(
                #[trigger] s[i],
                8,
            ) is Some by {
                if i >= zeros.len() {
                    assert(s[i] == digits[i - zeros.len()]);
                }
            }
        }
    }
}

proof fn lemma_octal_start(n: nat)
    ensures
        digits_of(n, 8).len() > 0,
        '0' <= digits_of(n, 8)[0] <= '7',
    decreases n,
{
    if n >= 8 {
        lemma_octal_start(n / 8);
        assert(digits_of(n, 8)[0] == digits_of(n / 8, 8)[0]);
    }
}

proof fn lemma_zeros_in_front(zeros: Seq<char>, s: Seq<char>)
    requires
        forall|i: int| 0 <= i < zeros.len() ==> #[trigger] zeros[i] == '0',
    ensures
        value_of(zeros + s, 8) == value_of(s, 8),
    decreases zeros.len() + s.len(),
{
    let all = zeros + s;
    if s.len() > 0 {
        assert(all.drop_last() =~= zeros + s.drop_last());
        lemma_zeros_in_front(zeros, s.drop_last());
    } else if zeros.len() > 0 {
        assert(all =~= zeros);
        assert(zeros.drop_last() + s =~= zeros.drop_last());
        assert forall|i: int| 0 <= i < zeros.drop_last().len() implies #[trigger] zeros.drop_last()[i]
            == '0' by {
            assert(zeros[i] == '0');
        }
        lemma_zeros_in_front(zeros.drop_last(), s);
        assert(zeros.last() == '0');
        assert(all.drop_last() =~= zeros.drop_last() + s);
        assert(all.last() == '0');
    } else {
        assert(all =~= s);
    }
}

/// Whether a diagnosis with more than low confidence blames a variable.
pub open spec fn is_surely_blamed(diagnoses: Seq<Diagnosis>, variable: Seq<char>) -> bool {
    exists|i: int, k: int|
        0 <= i < diagnoses.len() && 0 <= k < diagnoses[i].causal_variables@.len() && (
        #[trigger] diagnoses[i].causal_variables@[k])@ == variable && diagnoses[i].confidence
            != Confidence::Low
}

/// A variable is blamed exactly if a diagnosis names it with more than low confidence.
pub proof fn law_blame_needs_more_than_low_confidence(
    diagnoses: Seq<Diagnosis>,
    variable: Seq<char>,
)
    ensures
        is_blamed(diagnoses, variable) <==> is_surely_blamed(diagnoses, variable),
{
    if is_blamed(diagnoses, variable) {
        let i = choose|i: int| 0 <= i < diagnoses.len() && blames(#[trigger] diagnoses[i], variable);
        let list = diagnoses[i].causal_variables.deep_view();
        let k = choose|k: int| 0 <= k < list.len() && #[trigger] list[k] == variable;
        assert(diagnoses[i].causal_variables@[k]@ == variable);
    }
    if is_surely_blamed(diagnoses, variable) {
        let (i, k) = choose|i: int, k: int|
            0 <= i < diagnoses.len() && 0 <= k < diagnoses[i].causal_variables@.len() && (
            #[trigger] diagnoses[i].causal_variables@[k])@ == variable && diagnoses[i].confidence
                != Confidence::Low;
        assert(diagnoses[i].causal_variables.deep_view()[k] == variable);
        assert(blames(diagnoses[i], variable));
    }
}

/// Whether some changed artifact has a difference in a field of its archive.
pub open spec fn archives_differ_in(deltas: Seq<ArtifactDelta>, field: ArchiveMetadataField) -> bool {
    exists|k: int, m: int|
        0 <= k < deltas.len() && deltas[k].changed && 0 <= m
            < deltas[k].archive_metadata_evidence@.len() && (
        #[trigger] deltas[k].archive_metadata_evidence@[m]).field == field
}

/// Whether some changed artifact carries both values of the varied path in its ELF sections.
pub open spec fn carries_both_paths(result: InterventionResult) -> bool {
    exists|k: int, p: int, q: int|
        #![trigger result.artifact_deltas@[k].elf_marker_location_evidence@[p], result.artifact_deltas@[k].elf_marker_location_evidence@[q]]
        {
            let i = result.intervention;
            let d = result.artifact_deltas@[k];
            let places = d.elf_marker_location_evidence@;
            &&& 0 <= k < result.artifact_deltas@.len() && 0 <= p < places.len() && 0 <= q
                < places.len()
            &&& d.changed
            &&& places[p].variable@ == i.variable@ && places[p].value@ == i.baseline_value@
            &&& places[q].variable@ == i.variable@ && places[q].value@ == i.variant_value@
        }
}

proof fn lemma_field(deltas: Seq<ArtifactDelta>, field: ArchiveMetadataField)
    ensures
        any_differs_in_field(deltas, field) <==> archives_differ_in(deltas, field),
{
    if any_differs_in_field(deltas, field) {
        let k = choose|k: int|
            0 <= k < deltas.len() && differs_in_field(#[trigger] deltas[k], field);
        let m = choose|m: int|
            0 <= m < deltas[k].archive_metadata_evidence@.len() && (
            #[trigger] deltas[k].archive_metadata_evidence@[m]).field == field;
        assert(deltas[k].archive_metadata_evidence@[m].field == field);
    }
    if archives_differ_in(deltas, field) {
        let (k, m) = choose|k: int, m: int|
            0 <= k < deltas.len() && deltas[k].changed && 0 <= m
                < deltas[k].archive_metadata_evidence@.len() && (
            #[trigger] deltas[k].archive_metadata_evidence@[m]).field == field;
        assert(differs_in_field(deltas[k], field));
    }
}

proof fn lemma_pair(result: InterventionResult)
    ensures
        has_path_pair(result) <==> carries_both_paths(result),
{
    let i = result.intervention;
    if has_path_pair(result) {
        let k = choose|k: int|
            0 <= k < result.artifact_deltas@.len() && holds_both_paths(
                #[trigger] result.artifact_deltas@[k],
                result,
            );
        let places = result.artifact_deltas@[k].elf_marker_location_evidence@;
        let p = choose|p: int|
            0 <= p < places.len() && (#[trigger] places[p]).variable@ == i.variable@
                && places[p].value@ == i.baseline_value@;
        let q = choose|q: int|
            0 <= q < places.len() && (#[trigger] places[q]).variable@ == i.variable@
                && places[q].value@ == i.variant_value@;
        assert(result.artifact_deltas@[k].elf_marker_location_evidence@[p].variable@
            == i.variable@);
        assert(result.artifact_deltas@[k].elf_marker_location_evidence@[q].variable@
            == i.variable@);
    }
    if carries_both_paths(result) {
        let (k, p, q) = choose|k: int, p: int, q: int|
            #![trigger result.artifact_deltas@[k].elf_marker_location_evidence@[p], result.artifact_deltas@[k].elf_marker_location_evidence@[q]]
            {
                let i = result.intervention;
                let d = result.artifact_deltas@[k];
                let places = d.elf_marker_location_evidence@;
                &&& 0 <= k < result.artifact_deltas@.len() && 0 <= p < places.len() && 0 <= q
                    < places.len()
                &&& d.changed
                &&& places[p].variable@ == i.variable@ && places[p].value@ == i.baseline_value@
                &&& places[q].variable@ == i.variable@ && places[q].value@ == i.variant_value@
            };
        let places = result.artifact_deltas@[k].elf_marker_location_evidence@;
        assert(is_located(places, i.variable@, i.baseline_value@)) by {
            assert(places[p].variable@ == i.variable@);
        }
        assert(is_located(places, i.variable@, i.variant_value@)) by {
            assert(places[q].variable@ == i.variable@);
        }
        assert(holds_both_paths(result.artifact_deltas@[k], result));
    }
}

/// An experiment suggests a fix exactly if the artifacts show what the fix is for: both paths in
/// compiled code, times or modes in archives. A build timestamp needs no more than that it was varied.
/// The fix is about the variable of the experiment.
pub proof fn law_fixes_need_the_evidence_they_are_for(
    files: PatchFiles,
    config: Config,
    result: InterventionResult,
)
    ensures
        ({
            let kind = result.intervention.kind;
            let deltas = result.artifact_deltas@;
            let plan = result_plan(files, config, result);
            &&& kind == InterventionKind::SourcePath || kind == InterventionKind::BuildPath ==> (
            plan is Some <==> carries_both_paths(result))
            &&& kind == InterventionKind::SourceDateEpoch ==> plan is Some
            &&& kind == InterventionKind::SourceMtime ==> (plan is Some <==> archives_differ_in(
                deltas,
                ArchiveMetadataField::Mtime,
            ) || archives_differ_in(deltas, ArchiveMetadataField::ContainerMtime))
            &&& kind == InterventionKind::Umask ==> (plan is Some <==> archives_differ_in(
                deltas,
                ArchiveMetadataField::Mode,
            ))
            &&& kind != InterventionKind::SourcePath && kind != InterventionKind::BuildPath && kind
                != InterventionKind::SourceDateEpoch && kind != InterventionKind::SourceMtime
                && kind != InterventionKind::Umask ==> plan is None
            &&& plan matches Some(p) ==> p.causal_variable == result.intervention.variable@
                && p.strategy == if kind == InterventionKind::SourceDateEpoch {
                "pin-source-date-epoch"@
            } else if kind == InterventionKind::SourceMtime {
                "normalize-source-mtime"@
            } else if kind == InterventionKind::Umask {
                "pin-umask"@
            } else {
                "compiler-prefix-map"@
            }
        }),
{
    lemma_pair(result);
    lemma_field(result.artifact_deltas@, ArchiveMetadataField::Mtime);
    lemma_field(result.artifact_deltas@, ArchiveMetadataField::ContainerMtime);
    lemma_field(result.artifact_deltas@, ArchiveMetadataField::Mode);
}

/// The fixes are those of the experiments that changed bytes, are surely blamed and have one, in order.
pub proof fn law_fixes_follow_sure_diagnoses(
    files: PatchFiles,
    config: Config,
    results: Seq<InterventionResult>,
    diagnoses: Seq<Diagnosis>,
)
    ensures
        fix_plans(files, config, results, diagnoses, results.len() as int) == results.filter(
            |r: InterventionResult|
                r.changed && is_surely_blamed(diagnoses, r.intervention.variable@) && result_plan(
                    files,
                    config,
                    r,
                ) is Some,
        ).map_values(|r: InterventionResult| result_plan(files, config, r)->0),
    decreases results.len(),
{
    reveal(Seq::filter);
    let p = |r: InterventionResult|
        r.changed && is_surely_blamed(diagnoses, r.intervention.variable@) && result_plan(
            files,
            config,
            r,
        ) is Some;
    let f = |r: InterventionResult| result_plan(files, config, r)->0;
    let all = fix_plans(files, config, results, diagnoses, results.len() as int);
    if results.len() > 0 {
        let rest = results.drop_last();
        law_fixes_follow_sure_diagnoses(files, config, rest, diagnoses);
        lemma_plans_of_a_beginning(files, config, results, diagnoses, rest.len() as int);
        law_blame_needs_more_than_low_confidence(
            diagnoses,
            results.last().intervention.variable@,
        );
        assert(results[results.len() - 1] == results.last());
        assert(all =~= results.filter(p).map_values(f));
    } else {
        assert(all =~= results.filter(p).map_values(f));
    }
}

proof fn lemma_plans_of_a_beginning(
    files: PatchFiles,
    config: Config,
    results: Seq<InterventionResult>,
    diagnoses: Seq<Diagnosis>,
    n: int,
)
    requires
        0 <= n < results.len(),
    ensures
        fix_plans(files, config, results, diagnoses, n) == fix_plans(
            files,
            config,
            results.drop_last(),
            diagnoses,
            n,
        ),
    decreases n,
{
    if n > 0 {
        lemma_plans_of_a_beginning(files, config, results, diagnoses, n - 1);
    }
}

/// Builds verify a fix exactly if both sides were built, every build of either side has the files of
/// the first on its side, and every build of the intervention has the files of the first baseline.
pub proof fn law_verified_means_the_intervention_changes_nothing(
    baseline: Seq<BuildRun>,
    intervention: Seq<BuildRun>,
)
    ensures
        is_verified(baseline, intervention) <==> {
            &&& baseline.len() > 0 && intervention.len() > 0
            &&& forall|i: int|
                1 <= i < baseline.len() ==> same_files(
                    baseline[0].artifacts@,
                    (#[trigger] baseline[i]).artifacts@,
                )
            &&& forall|i: int|
                1 <= i < intervention.len() ==> same_files(
                    intervention[0].artifacts@,
                    (#[trigger] intervention[i]).artifacts@,
                )
            &&& forall|i: int|
                0 <= i < intervention.len() ==> same_files(
                    baseline[0].artifacts@,
                    (#[trigger] intervention[i]).artifacts@,
                )
        },
{
    assert forall|a: BuildRun, b: BuildRun| #[trigger]
        same_files(a.artifacts@, b.artifacts@) == same_hashes(a.artifacts@, b.artifacts@) by {
        law_equal_hashes_mean_equal_files(a.artifacts@, b.artifacts@);
    }
    if are_stable(baseline) {
        assert forall|i: int| 1 <= i < baseline.len() implies same_files(
            baseline[0].artifacts@,
            (#[trigger] baseline[i]).artifacts@,
        ) by {
            law_equal_hashes_mean_equal_files(baseline[0].artifacts@, baseline[i].artifacts@);
        }
    }
    assert forall|i: int| 1 <= i < baseline.len() implies (same_files(
        baseline[0].artifacts@,
        (#[trigger] baseline[i]).artifacts@,
    ) == same_hashes(baseline[0].artifacts@, baseline[i].artifacts@)) by {
        law_equal_hashes_mean_equal_files(baseline[0].artifacts@, baseline[i].artifacts@);
    }
    assert forall|i: int| 1 <= i < intervention.len() implies (same_files(
        intervention[0].artifacts@,
        (#[trigger] intervention[i]).artifacts@,
    ) == same_hashes(intervention[0].artifacts@, intervention[i].artifacts@)) by {
        law_equal_hashes_mean_equal_files(
            intervention[0].artifacts@,
            intervention[i].artifacts@,
        );
    }
    assert forall|i: int| 0 <= i < intervention.len() implies (same_files(
        baseline[0].artifacts@,
        (#[trigger] intervention[i]).artifacts@,
    ) == same_hashes(baseline[0].artifacts@, intervention[i].artifacts@)) by {
        law_equal_hashes_mean_equal_files(baseline[0].artifacts@, intervention[i].artifacts@);
    }
}

/// A verification names its plan, keeps the builds and says what they show; one that was not made
/// verifies nothing.
pub proof fn law_verifications_report_their_builds(
    plan: &FixPlan,
    id: String,
    baseline: Vec<BuildRun>,
    intervention: Vec<BuildRun>,
    made: FixVerification,
    problem: Option<String>,
    not_made: FixVerification,
)
    requires
        call_ensures(judge_verification, (plan, id, baseline, intervention), made),
        call_ensures(unverified, (plan, problem), not_made),
    ensures
        made.plan_id@ == plan.id@,
        made.experiment_id == Some(id),
        made.attempted,
        made.verified == is_verified(baseline@, intervention@),
        made.baseline_runs@ == baseline@,
        made.intervention_runs@ == intervention@,
        made.error is None,
        not_made.plan_id@ == plan.id@,
        !not_made.verified,
        not_made.attempted <==> problem is Some,
        not_made.error == problem,
        not_made.baseline_runs@.len() == 0 && not_made.intervention_runs@.len() == 0,
{
}

/// A report on fixes keeps the diagnosis, the candidates and their verifications.
pub proof fn law_fix_reports_keep_their_parts(
    diagnosis: CheckReport,
    candidates: Vec<FixPlan>,
    verifications: Vec<FixVerification>,
    verify: bool,
    report: FixReport,
)
    requires
        call_ensures(conclude_fix, (diagnosis, candidates, verifications, verify), report),
    ensures
        report.diagnosis == diagnosis,
        report.candidates@ == candidates@,
        report.verifications@ == verifications@,
{
}

/// A fix without a patch is verified on the diagnosed source alone; one with a patch changes it.
pub proof fn law_unpatched_sources_must_be_the_diagnosed_ones(
    plan: FixPlanView,
    diagnosed: Seq<char>,
    now: Seq<char>,
)
    ensures
        source_problem(plan, diagnosed, now) is Some <==> plan.project_patch is None && diagnosed
            != now,
{
}

/// A fix is verified under the intervention on its variable, the first that was planned.
pub proof fn law_fixes_are_verified_under_their_intervention(
    planned: Seq<PlannedInterventionView>,
    variable: Seq<char>,
)
    ensures
        match intervention_on(planned, variable, 0) {
            Some(found) => found.intervention.variable == variable && exists|i: int|
                0 <= i < planned.len() && #[trigger] planned[i] == found && forall|k: int|
                    0 <= k < i ==> (#[trigger] planned[k]).intervention.variable != variable,
            None => forall|k: int|
                0 <= k < planned.len() ==> (#[trigger] planned[k]).intervention.variable != variable,
        },
{
    lemma_intervention_on(planned, variable, 0);
}

proof fn lemma_intervention_on(
    planned: Seq<PlannedInterventionView>,
    variable: Seq<char>,
    from: int,
)
    requires
        0 <= from <= planned.len(),
        forall|k: int|
            0 <= k < from ==> (#[trigger] planned[k]).intervention.variable != variable,
    ensures
        match intervention_on(planned, variable, from) {
            Some(found) => found.intervention.variable == variable && exists|i: int|
                0 <= i < planned.len() && #[trigger] planned[i] == found && forall|k: int|
                    0 <= k < i ==> (#[trigger] planned[k]).intervention.variable != variable,
            None => forall|k: int|
                0 <= k < planned.len() ==> (#[trigger] planned[k]).intervention.variable != variable,
        },
    decreases planned.len() - from,
{
    if from < planned.len() {
        if planned[from].intervention.variable == variable {
            assert(planned[from] == planned[from]);
        } else {
            lemma_intervention_on(planned, variable, from + 1);
        }
    }
}

/// Flags are put behind those that are there, with a blank between them.
pub proof fn law_flags_are_put_behind_the_others(existing: Seq<char>, addition: Seq<char>)
    ensures
        ({
            let own = trimmed(existing, CharClass::White);
            let all = flags_with(existing, addition);
            &&& own.len() == 0 ==> all == addition
            &&& own.len() > 0 ==> all == own + " "@ + addition
            &&& occurs(all, addition)
        }),
{
    let own = trimmed(existing, CharClass::White);
    let none = Seq::<char>::empty();
    if own.len() == 0 {
        lemma_holds(flags_with(existing, addition), none, addition, none);
    } else {
        lemma_holds(flags_with(existing, addition), own + " "@, addition, none);
    }
}

/// The environment of a verification has the suggested flags behind those of every variable that the
/// build sets already, and is otherwise that of the build. With a patch it is that of the build.
pub proof fn law_verifications_add_flags_to_variables_that_are_set(
    config: Config,
    plan: FixPlanView,
    k: Seq<char>,
)
    requires
        increasing(Order::Text, config.build.env.deep_view()),
        increasing(Order::Text, plan.suggested_environment_appends),
    ensures
        ({
            let spec = verification_spec_of(config, plan);
            let env = config.build.env.deep_view();
            let had = value_at(Order::Text, env, k);
            let added = value_at(Order::Text, plan.suggested_environment_appends, k);
            &&& spec.image == config.build.image@
            &&& spec.command == config.build.command.deep_view()
            &&& spec.outputs == config.build.outputs.deep_view()
            &&& plan.project_patch is Some ==> spec.environment == env
            &&& plan.project_patch is None ==> value_at(Order::Text, spec.environment, k) == match (
                had,
                added,
            ) {
                (Some(own), Some(flags)) => Some(flags_with(own, flags)),
                _ => had,
            }
        }),
{
    let env = config.build.env.deep_view();
    let appends = plan.suggested_environment_appends;
    lemma_with_flags(env, env, appends, appends.len() as int, k);
    if value_at(Order::Text, appends, k) is Some {
        crate::string_map::lemma_place(Order::Text, appends, k);
        let at = crate::string_map::place_of(Order::Text, appends, k);
        lemma_text_key_injective(appends[at].0, k);
        assert(appends[at].0 == k);
    } else {
        assert forall|m: int| 0 <= m < appends.len() implies (#[trigger] appends[m]).0 != k by {
            if appends[m].0 == k {
                crate::string_map::lemma_found(Order::Text, appends, m, k);
            }
        }
    }
}

proof fn lemma_with_flags(env: Entries, base: Entries, appends: Entries, n: int, k: Seq<char>)
    requires
        increasing(Order::Text, env),
        increasing(Order::Text, appends),
        0 <= n <= appends.len(),
    ensures
        increasing(Order::Text, with_flags(env, base, appends, n)),
        (forall|m: int| 0 <= m < n ==> (#[trigger] appends[m]).0 != k) ==> value_at(
            Order::Text,
            with_flags(env, base, appends, n),
            k,
        ) == value_at(Order::Text, env, k),
        forall|m: int|
            0 <= m < n && (#[trigger] appends[m]).0 == k ==> value_at(
                Order::Text,
                with_flags(env, base, appends, n),
                k,
            ) == match value_at(Order::Text, base, k) {
                Some(own) => Some(flags_with(own, appends[m].1)),
                None => value_at(Order::Text, env, k),
            },
    decreases n,
{
    if n > 0 {
        lemma_with_flags(env, base, appends, n - 1, k);
        let earlier = with_flags(env, base, appends, n - 1);
        let key = appends[n - 1].0;
        if let Some(own) = value_at(Order::Text, base, key) {
            lemma_text_entry(earlier, key, flags_with(own, appends[n - 1].1));
        }
        assert forall|m: int| 0 <= m < n - 1 implies (#[trigger] appends[m]).0 != key by {
            assert(crate::ordering::before(
                crate::ordering::key_of(Order::Text, appends[m].0),
                crate::ordering::key_of(Order::Text, appends[n - 1].0),
            ));
            crate::ordering::lemma_before_irreflexive(crate::ordering::text_key(key));
        }
    }
}

} // verus!
