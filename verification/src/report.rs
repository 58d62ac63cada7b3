//! Reports as lines of text.
use vstd::prelude::*;

use crate::artifact::generic::{artifact_at, find_artifact};
use crate::engine::diagnosis::{classification_text, is_true, show_classification};
use crate::engine::fix::{FixPlan, FixReport, FixVerification};
use crate::engine::patch::ProjectPatch;
use crate::engine::provenance::{counts_text, show_counts};
use crate::model::{
    ArtifactComparison, ArtifactDelta, ArtifactRecord, ArtifactType, BuildFailure, BuildRun,
    CheckReport, CheckStatus, Confidence, ControlledEnvironment, DependencyCacheSummary,
    DependencyFileRecord, DependencyNetworkCorrelation, DependencyResolutionRecord, Diagnosis,
    EnvironmentComparisonOutcomeKind, EnvironmentComparisonReport, EnvironmentComparisonStatus,
    EnvironmentDeltaRecord, InteractionSearchResult, InterventionResult, NetworkTraceSummary,
    ProcessActivitySummary, ProcessTraceSummary, RunnerBackend, RuntimeDependencyProvenance,
    SourceCopyOrder, SourceOverrideRecord, SourceProvenance, StochasticEffectEvidence,
    ToolchainBindingProbe, ToolchainProbe, ToolchainProvenance,
};
use crate::numbers::{decimal, decimal_of, signed_decimal};
use crate::ordering::{is_same_path, same_path, Order};
use crate::string_map::{value_at, Entries, StringMap};
use crate::text::{bool_text, chars_of, code_of, concat, concat3, concat5, debug_text, join, joined};
use crate::text::{mark_lines, marked_lines, or_text, push_line, quoted, same, show_bool};
use crate::text::{text_between, value_or};

verus! {

pub open spec fn picked(b: bool, yes: Seq<char>, no: Seq<char>) -> Seq<char> {
    if b {
        yes
    } else {
        no
    }
}

pub fn pick<'a>(b: bool, yes: &'a str, no: &'a str) -> (r: &'a str)
    ensures
        r@ == picked(b, yes@, no@),
{
    if b {
        yes
    } else {
        no
    }
}

/// How many bytes a character takes in UTF-8.
pub open spec fn width_of(c: char) -> int {
    if (c as int) < 0x80 {
        1
    } else if (c as int) < 0x800 {
        2
    } else if (c as int) < 0x10000 {
        3
    } else {
        4
    }
}

/// The first position at or after `k` with `left` bytes between it and `k`, if there is one.
pub open spec fn after_bytes(s: Seq<char>, k: int, left: int) -> Option<int>
    decreases s.len() - k,
{
    if left == 0 {
        Some(k)
    } else if k >= s.len() || left < 0 {
        None
    } else {
        after_bytes(s, k + 1, left - width_of(s[k]))
    }
}

/// The first twelve bytes of a digest, or all of a text that has no such beginning.
pub open spec fn short_of(s: Seq<char>) -> Seq<char> {
    match after_bytes(s, 0, 12) {
        Some(k) => s.take(k),
        None => s,
    }
}

pub fn short_hash(hash: &str) -> (r: String)
    ensures
        r@ == short_of(hash@),
{
    let chars = chars_of(hash);
    let mut left: usize = 12;
    let mut k: usize = 0;
    while k < chars.len() && left > 0
        invariant
            chars@ == hash@,
            k <= chars@.len(),
            left <= 12,
            after_bytes(hash@, 0, 12) == after_bytes(hash@, k as int, left as int),
        decreases chars.len() - k,
    {
        let code: u32 = code_of(chars[k]);
        let width: usize = if code < 0x80 {
            1
        } else if code < 0x800 {
            2
        } else if code < 0x10000 {
            3
        } else {
            4
        };
        if width > left {
            assert(after_bytes(hash@, k + 1, left - width) is None);
            return hash.to_owned();
        }
        left = left - width;
        k += 1;
    }
    if left == 0 {
        assert(hash@.subrange(0, k as int) =~= hash@.take(k as int));
        text_between(&chars, 0, k)
    } else {
        hash.to_owned()
    }
}

pub open spec fn short_or(hash: Option<Seq<char>>, otherwise: Seq<char>) -> Seq<char> {
    match hash {
        Some(text) => short_of(text),
        None => otherwise,
    }
}

pub fn short_hash_or(hash: &Option<String>, otherwise: &str) -> (r: String)
    ensures
        r@ == short_or(hash.deep_view(), otherwise@),
{
    match hash {
        Some(text) => short_hash(text.as_str()),
        None => otherwise.to_owned(),
    }
}

/// A text with spaces after it up to a width.
pub open spec fn padded_to(s: Seq<char>, width: int) -> Seq<char> {
    if s.len() >= width {
        s
    } else {
        s + Seq::new((width - s.len()) as nat, |i: int| ' ')
    }
}

pub fn pad(s: &str, width: usize) -> (r: String)
    ensures
        r@ == padded_to(s@, width as int),
{
    let mut n: usize = chars_of(s).len();
    let mut text = s.to_owned();
    let ghost len = s@.len() as int;
    while n < width
        invariant
            len <= n,
            len == s@.len(),
            len <= width ==> n <= width,
            len > width ==> n == len,
            text@ == s@ + Seq::new((n - len) as nat, |i: int| ' '),
        decreases width - n,
    {
        text.push(' ');
        n += 1;
        assert(text@ =~= s@ + Seq::new((n - len) as nat, |i: int| ' '));
    }
    assert(text@ =~= padded_to(s@, width as int));
    text
}

pub fn is_empty(s: &String) -> (r: bool)
    ensures
        r == (s@.len() == 0),
{
    chars_of(s.as_str()).len() == 0
}

pub open spec fn runner_text(backend: RunnerBackend) -> Seq<char> {
    match backend {
        RunnerBackend::Docker => "Docker"@,
        RunnerBackend::Podman => "Podman"@,
    }
}

pub fn show_runner(backend: RunnerBackend) -> (r: &'static str)
    ensures
        r@ == runner_text(backend),
{
    match backend {
        RunnerBackend::Docker => "Docker",
        RunnerBackend::Podman => "Podman",
    }
}

pub open spec fn type_text(value: ArtifactType) -> Seq<char> {
    match value {
        ArtifactType::Elf => "Elf"@,
        ArtifactType::PeCoff => "PeCoff"@,
        ArtifactType::MachO => "MachO"@,
        ArtifactType::Wasm => "Wasm"@,
        ArtifactType::Zip => "Zip"@,
        ArtifactType::Jar => "Jar"@,
        ArtifactType::PythonWheel => "PythonWheel"@,
        ArtifactType::Tar => "Tar"@,
        ArtifactType::OciImage => "OciImage"@,
        ArtifactType::Gzip => "Gzip"@,
        ArtifactType::Ar => "Ar"@,
        ArtifactType::Deb => "Deb"@,
        ArtifactType::Generic => "Generic"@,
    }
}

pub fn show_type(value: ArtifactType) -> (r: &'static str)
    ensures
        r@ == type_text(value),
{
    match value {
        ArtifactType::Elf => "Elf",
        ArtifactType::PeCoff => "PeCoff",
        ArtifactType::MachO => "MachO",
        ArtifactType::Wasm => "Wasm",
        ArtifactType::Zip => "Zip",
        ArtifactType::Jar => "Jar",
        ArtifactType::PythonWheel => "PythonWheel",
        ArtifactType::Tar => "Tar",
        ArtifactType::OciImage => "OciImage",
        ArtifactType::Gzip => "Gzip",
        ArtifactType::Ar => "Ar",
        ArtifactType::Deb => "Deb",
        ArtifactType::Generic => "Generic",
    }
}

pub open spec fn copy_order_text(value: SourceCopyOrder) -> Seq<char> {
    match value {
        SourceCopyOrder::Sorted => "Sorted"@,
        SourceCopyOrder::Reverse => "Reverse"@,
    }
}

pub fn show_copy_order(value: SourceCopyOrder) -> (r: &'static str)
    ensures
        r@ == copy_order_text(value),
{
    match value {
        SourceCopyOrder::Sorted => "Sorted",
        SourceCopyOrder::Reverse => "Reverse",
    }
}

pub open spec fn status_text(value: CheckStatus) -> Seq<char> {
    match value {
        CheckStatus::Reproducible => "Reproducible"@,
        CheckStatus::NonReproducible => "NonReproducible"@,
        CheckStatus::UncontrolledNondeterminism => "UncontrolledNondeterminism"@,
        CheckStatus::Inconclusive => "Inconclusive"@,
    }
}

pub fn show_status(value: CheckStatus) -> (r: &'static str)
    ensures
        r@ == status_text(value),
{
    match value {
        CheckStatus::Reproducible => "Reproducible",
        CheckStatus::NonReproducible => "NonReproducible",
        CheckStatus::UncontrolledNondeterminism => "UncontrolledNondeterminism",
        CheckStatus::Inconclusive => "Inconclusive",
    }
}

pub open spec fn endpoint_text(value: EnvironmentComparisonOutcomeKind) -> Seq<char> {
    match value {
        EnvironmentComparisonOutcomeKind::ArtifactSuccess => "ArtifactSuccess"@,
        EnvironmentComparisonOutcomeKind::BuildFailure => "BuildFailure"@,
        EnvironmentComparisonOutcomeKind::Mixed => "Mixed"@,
    }
}

pub fn show_endpoint(value: EnvironmentComparisonOutcomeKind) -> (r: &'static str)
    ensures
        r@ == endpoint_text(value),
{
    match value {
        EnvironmentComparisonOutcomeKind::ArtifactSuccess => "ArtifactSuccess",
        EnvironmentComparisonOutcomeKind::BuildFailure => "BuildFailure",
        EnvironmentComparisonOutcomeKind::Mixed => "Mixed",
    }
}

pub open spec fn status_label(status: CheckStatus) -> Seq<char> {
    match status {
        CheckStatus::Reproducible => "REPRODUCIBLE_WITHIN_TESTED_SPACE"@,
        CheckStatus::NonReproducible => "NON_REPRODUCIBLE"@,
        CheckStatus::UncontrolledNondeterminism => "UNCONTROLLED_NONDETERMINISM"@,
        CheckStatus::Inconclusive => "INCONCLUSIVE"@,
    }
}

pub fn check_status_label(status: &CheckStatus) -> (r: &'static str)
    ensures
        r@ == status_label(*status),
{
    match status {
        CheckStatus::Reproducible => "REPRODUCIBLE_WITHIN_TESTED_SPACE",
        CheckStatus::NonReproducible => "NON_REPRODUCIBLE",
        CheckStatus::UncontrolledNondeterminism => "UNCONTROLLED_NONDETERMINISM",
        CheckStatus::Inconclusive => "INCONCLUSIVE",
    }
}

pub open spec fn confidence_text(confidence: Confidence) -> Seq<char> {
    match confidence {
        Confidence::High => "HIGH"@,
        Confidence::Medium => "MEDIUM"@,
        Confidence::Low => "LOW"@,
    }
}

pub fn confidence_label(confidence: &Confidence) -> (r: &'static str)
    ensures
        r@ == confidence_text(*confidence),
{
    match confidence {
        Confidence::High => "HIGH",
        Confidence::Medium => "MEDIUM",
        Confidence::Low => "LOW",
    }
}

/// What an experiment came to, in the words for an effect and for none.
pub open spec fn result_label(r: InterventionResult, effect: Seq<char>, none: Seq<char>) -> Seq<char> {
    let built = r.runs@.len() > 0;
    let failed = r.build_failures@.len() > 0;
    if r.error is Some && !built && !failed {
        "ERROR"@
    } else if failed && built {
        "MIXED"@
    } else if failed {
        "BUILD FAILED"@
    } else if r.changed {
        effect
    } else {
        none
    }
}

pub fn label_result<'a>(r: &InterventionResult, effect: &'a str, none: &'a str) -> (s: &'a str)
    ensures
        s@ == result_label(*r, effect@, none@),
{
    let built = r.runs.len() > 0;
    let failed = r.build_failures.len() > 0;
    if r.error.is_some() && !built && !failed {
        "ERROR"
    } else if failed && built {
        "MIXED"
    } else if failed {
        "BUILD FAILED"
    } else if r.changed {
        effect
    } else {
        none
    }
}

pub open spec fn reversion_text(reverted: Option<bool>) -> Seq<char> {
    match reverted {
        Some(true) => " [reversion confirmed]"@,
        Some(false) => " [reversion failed]"@,
        None => ""@,
    }
}

pub fn show_reversion(reverted: Option<bool>) -> (r: &'static str)
    ensures
        r@ == reversion_text(reverted),
{
    match reverted {
        Some(true) => " [reversion confirmed]",
        Some(false) => " [reversion failed]",
        None => "",
    }
}

pub open spec fn reversion_suffix(r: InterventionResult) -> Seq<char> {
    if r.changed || r.build_failures@.len() > 0 {
        reversion_text(r.reverted_to_baseline)
    } else {
        ""@
    }
}

pub fn reversion_summary_suffix(r: &InterventionResult) -> (s: &'static str)
    ensures
        s@ == reversion_suffix(*r),
{
    if r.changed || r.build_failures.len() > 0 {
        show_reversion(r.reverted_to_baseline)
    } else {
        ""
    }
}

pub open spec fn prefixed_text(prefix: Seq<char>, e: String) -> Seq<char> {
    prefix + e@
}

pub fn show_prefixed(prefix: &str, e: &String) -> (r: String)
    ensures
        r@ == prefixed_text(prefix@, *e),
{
    concat(prefix, e.as_str())
}

/// Each text after a mark.
pub open spec fn with_prefixed(
    lines: Seq<Seq<char>>,
    items: Seq<String>,
    prefix: Seq<char>,
    n: int,
) -> Seq<Seq<char>>
    decreases n,
{
    if n <= 0 {
        lines
    } else {
        with_prefixed(lines, items, prefix, n - 1).push(prefixed_text(prefix, items[n - 1]))
    }
}

pub fn push_prefixed(lines: &mut Vec<String>, items: &Vec<String>, prefix: &str)
    ensures
        final(lines).deep_view() == with_prefixed(
            old(lines).deep_view(),
            items@,
            prefix@,
            items@.len() as int,
        ),
{
    let ghost start = lines.deep_view();
    let mut n: usize = 0;
    while n < items.len()
        invariant
            n <= items@.len(),
            lines.deep_view() == with_prefixed(start, items@, prefix@, n as int),
        decreases items.len() - n,
    {
        push_line(lines, show_prefixed(prefix, &items[n]));
        n += 1;
    }
}

pub open spec fn with_log_capture(
    lines: Seq<Seq<char>>,
    cap: u64,
    stdout_bytes: u64,
    stdout_truncated: bool,
    stderr_bytes: u64,
    stderr_truncated: bool,
) -> Seq<Seq<char>> {
    let lines = if stdout_truncated || stderr_truncated {
        let lines = lines.push(
            "  log capture: cap="@
                + decimal_of(cap as int)
                + " bytes/stream stdout="@
                + decimal_of(stdout_bytes as int)
                + " bytes"@
                + picked(stdout_truncated, " [text truncated]"@, ""@)
                + " stderr="@
                + decimal_of(stderr_bytes as int)
                + " bytes"@
                + picked(stderr_truncated, " [text truncated]"@, ""@)
                + " (full stream SHA-256 retained)"@,
        );
        lines
    } else {
        lines
    };
    lines
}

pub fn push_log_capture(
    lines: &mut Vec<String>,
    cap: u64,
    stdout_bytes: u64,
    stdout_truncated: bool,
    stderr_bytes: u64,
    stderr_truncated: bool,
)
    ensures
        final(lines).deep_view() == with_log_capture(
            old(lines).deep_view(),
            cap,
            stdout_bytes,
            stdout_truncated,
            stderr_bytes,
            stderr_truncated,
        ),
{
    if stdout_truncated || stderr_truncated {
        let mut text = "  log capture: cap=".to_owned();
        text.push_str(decimal(cap as u128).as_str());
        text.push_str(" bytes/stream stdout=");
        text.push_str(decimal(stdout_bytes as u128).as_str());
        text.push_str(" bytes");
        text.push_str(pick(stdout_truncated, " [text truncated]", ""));
        text.push_str(" stderr=");
        text.push_str(decimal(stderr_bytes as u128).as_str());
        text.push_str(" bytes");
        text.push_str(pick(stderr_truncated, " [text truncated]", ""));
        text.push_str(" (full stream SHA-256 retained)");
        push_line(lines, text);
    }
}

pub open spec fn with_run_logs(lines: Seq<Seq<char>>, run: BuildRun) -> Seq<Seq<char>> {
    let lines = with_log_capture(
        lines,
        run.log_capture_max_bytes,
        run.stdout_bytes,
        run.stdout_truncated,
        run.stderr_bytes,
        run.stderr_truncated,
    );
    let lines = if run.stdout@.len() > 0 {
        let lines = lines.push(
            "  --- run "@
                + decimal_of(run.ordinal as int)
                + " stdout ---\n"@
                + marked_lines("  "@, run.stdout@),
        );
        lines
    } else {
        lines
    };
    let lines = if run.stderr@.len() > 0 {
        let lines = lines.push(
            "  --- run "@
                + decimal_of(run.ordinal as int)
                + " stderr ---\n"@
                + marked_lines("  "@, run.stderr@),
        );
        lines
    } else {
        lines
    };
    lines
}

pub fn push_run_logs(lines: &mut Vec<String>, run: &BuildRun)
    ensures
        final(lines).deep_view() == with_run_logs(old(lines).deep_view(), *run),
{
    push_log_capture(
        lines,
        run.log_capture_max_bytes,
        run.stdout_bytes,
        run.stdout_truncated,
        run.stderr_bytes,
        run.stderr_truncated,
    );
    if !is_empty(&run.stdout) {
        let mut text = "  --- run ".to_owned();
        text.push_str(decimal(run.ordinal as u128).as_str());
        text.push_str(" stdout ---\n");
        text.push_str(mark_lines("  ", run.stdout.as_str()).as_str());
        push_line(lines, text);
    }
    if !is_empty(&run.stderr) {
        let mut text = "  --- run ".to_owned();
        text.push_str(decimal(run.ordinal as u128).as_str());
        text.push_str(" stderr ---\n");
        text.push_str(mark_lines("  ", run.stderr.as_str()).as_str());
        push_line(lines, text);
    }
}

pub open spec fn with_failure_logs(lines: Seq<Seq<char>>, failure: BuildFailure) -> Seq<Seq<char>> {
    let lines = lines.push(
        "  --- failed run "@
            + decimal_of(failure.ordinal as int)
            + " exit="@
            + decimal_of(failure.exit_code as int)
            + " runner="@
            + runner_text(failure.runner_backend)
            + " image="@
            + failure.image@
            + " ("@
            + short_of(failure.resolved_image_id@)
            + ") ---"@,
    );
    let lines = with_log_capture(
        lines,
        failure.log_capture_max_bytes,
        failure.stdout_bytes,
        failure.stdout_truncated,
        failure.stderr_bytes,
        failure.stderr_truncated,
    );
    let lines = if failure.stdout@.len() > 0 {
        let lines = lines.push(
            "  --- failed run "@
                + decimal_of(failure.ordinal as int)
                + " stdout ---\n"@
                + marked_lines("  "@, failure.stdout@),
        );
        lines
    } else {
        lines
    };
    let lines = if failure.stderr@.len() > 0 {
        let lines = lines.push(
            "  --- failed run "@
                + decimal_of(failure.ordinal as int)
                + " stderr ---\n"@
                + marked_lines("  "@, failure.stderr@),
        );
        lines
    } else {
        lines
    };
    lines
}

pub fn push_failure_logs(lines: &mut Vec<String>, failure: &BuildFailure)
    ensures
        final(lines).deep_view() == with_failure_logs(old(lines).deep_view(), *failure),
{
    let mut text = "  --- failed run ".to_owned();
    text.push_str(decimal(failure.ordinal as u128).as_str());
    text.push_str(" exit=");
    text.push_str(signed_decimal(failure.exit_code as i64).as_str());
    text.push_str(" runner=");
    text.push_str(show_runner(failure.runner_backend));
    text.push_str(" image=");
    text.push_str(failure.image.as_str());
    text.push_str(" (");
    text.push_str(short_hash(failure.resolved_image_id.as_str()).as_str());
    text.push_str(") ---");
    push_line(lines, text);
    push_log_capture(
        lines,
        failure.log_capture_max_bytes,
        failure.stdout_bytes,
        failure.stdout_truncated,
        failure.stderr_bytes,
        failure.stderr_truncated,
    );
    if !is_empty(&failure.stdout) {
        let mut text = "  --- failed run ".to_owned();
        text.push_str(decimal(failure.ordinal as u128).as_str());
        text.push_str(" stdout ---\n");
        text.push_str(mark_lines("  ", failure.stdout.as_str()).as_str());
        push_line(lines, text);
    }
    if !is_empty(&failure.stderr) {
        let mut text = "  --- failed run ".to_owned();
        text.push_str(decimal(failure.ordinal as u128).as_str());
        text.push_str(" stderr ---\n");
        text.push_str(mark_lines("  ", failure.stderr.as_str()).as_str());
        push_line(lines, text);
    }
}

pub open spec fn probe_text(p: ToolchainProbe) -> Seq<char> {
    "    "@ + p.tool@ + ": "@ + p.version@
}

pub fn show_probe(p: &ToolchainProbe) -> (r: String)
    ensures
        r@ == probe_text(*p),
{
    let mut text = "    ".to_owned();
    text.push_str(p.tool.as_str());
    text.push_str(": ");
    text.push_str(p.version.as_str());
    text
}

pub open spec fn with_probes(
    lines: Seq<Seq<char>>,
    items: Seq<ToolchainProbe>,
    n: int,
) -> Seq<Seq<char>>
    decreases n,
{
    if n <= 0 {
        lines
    } else {
        with_probes(lines, items, n - 1).push(probe_text(items[n - 1]))
    }
}

pub fn push_probes(lines: &mut Vec<String>, items: &Vec<ToolchainProbe>)
    ensures
        final(lines).deep_view() == with_probes(
            old(lines).deep_view(),
            items@,
            items@.len() as int,
        ),
{
    let ghost start = lines.deep_view();
    let mut n: usize = 0;
    while n < items.len()
        invariant
            n <= items@.len(),
            lines.deep_view() == with_probes(start, items@, n as int),
        decreases items.len() - n,
    {
        push_line(lines, show_probe(&items[n]));
        n += 1;
    }
}

pub open spec fn with_tool_binding(
    lines: Seq<Seq<char>>,
    b: ToolchainBindingProbe,
) -> Seq<Seq<char>> {
    let lines = lines.push(
        "    "@
            + b.variable@
            + ": configured="@
            + b.configured_value@
            + " resolved="@
            + or_text(b.resolved_path.deep_view(), "<unresolved>"@)
            + " version="@
            + or_text(b.version.deep_view(), "<unavailable>"@)
            + " invocations="@
            + decimal_of(b.invocation_count as int),
    );
    let lines = match b.error {
        Some(error) => {
            let lines = lines.push("      note: "@ + error@);
            lines
        },
        None => {
            lines
        },
    };
    lines
}

pub fn push_tool_binding(lines: &mut Vec<String>, b: &ToolchainBindingProbe)
    ensures
        final(lines).deep_view() == with_tool_binding(old(lines).deep_view(), *b),
{
    let mut text = "    ".to_owned();
    text.push_str(b.variable.as_str());
    text.push_str(": configured=");
    text.push_str(b.configured_value.as_str());
    text.push_str(" resolved=");
    text.push_str(value_or(&b.resolved_path, "<unresolved>"));
    text.push_str(" version=");
    text.push_str(value_or(&b.version, "<unavailable>"));
    text.push_str(" invocations=");
    text.push_str(decimal(b.invocation_count as u128).as_str());
    push_line(lines, text);
    if let Some(error) = &b.error {
        push_line(lines, concat("      note: ", error.as_str()));
    }
}

pub open spec fn with_tool_bindings(
    lines: Seq<Seq<char>>,
    items: Seq<ToolchainBindingProbe>,
    n: int,
) -> Seq<Seq<char>>
    decreases n,
{
    if n <= 0 {
        lines
    } else {
        with_tool_binding(with_tool_bindings(lines, items, n - 1), items[n - 1])
    }
}

pub fn push_tool_bindings(lines: &mut Vec<String>, items: &Vec<ToolchainBindingProbe>)
    ensures
        final(lines).deep_view() == with_tool_bindings(
            old(lines).deep_view(),
            items@,
            items@.len() as int,
        ),
{
    let ghost start = lines.deep_view();
    let mut n: usize = 0;
    while n < items.len()
        invariant
            n <= items@.len(),
            lines.deep_view() == with_tool_bindings(start, items@, n as int),
        decreases items.len() - n,
    {
        push_tool_binding(lines, &items[n]);
        n += 1;
    }
}

pub open spec fn with_toolchain(lines: Seq<Seq<char>>, t: ToolchainProvenance) -> Seq<Seq<char>> {
    let lines = if t.probes.len() > 0 {
        let lines = lines.push("  toolchain probes:"@);
        let lines = with_probes(lines, t.probes@, t.probes@.len() as int);
        lines
    } else {
        lines
    };
    let lines = if t.bindings.len() > 0 {
        let lines = lines.push("  controlled toolchain bindings:"@);
        let lines = with_tool_bindings(lines, t.bindings@, t.bindings@.len() as int);
        lines
    } else {
        lines
    };
    let lines = match t.error {
        Some(error) => {
            let lines = lines.push("  toolchain probe note: "@ + error@);
            lines
        },
        None => {
            lines
        },
    };
    lines
}

pub fn push_toolchain(lines: &mut Vec<String>, t: &ToolchainProvenance)
    ensures
        final(lines).deep_view() == with_toolchain(old(lines).deep_view(), *t),
{
    if t.probes.len() > 0 {
        push_line(lines, "  toolchain probes:".to_owned());
        push_probes(lines, &t.probes);
    }
    if t.bindings.len() > 0 {
        push_line(lines, "  controlled toolchain bindings:".to_owned());
        push_tool_bindings(lines, &t.bindings);
    }
    if let Some(error) = &t.error {
        push_line(lines, concat("  toolchain probe note: ", error.as_str()));
    }
}

pub open spec fn source_override_text(o: SourceOverrideRecord) -> Seq<char> {
    "    "@
        + o.target@
        + " <- "@
        + o.variant_source@
        + "  "@
        + short_of(o.baseline_sha256@)
        + " -> "@
        + short_of(o.variant_sha256@)
}

pub fn show_source_override(o: &SourceOverrideRecord) -> (r: String)
    ensures
        r@ == source_override_text(*o),
{
    let mut text = "    ".to_owned();
    text.push_str(o.target.as_str());
    text.push_str(" <- ");
    text.push_str(o.variant_source.as_str());
    text.push_str("  ");
    text.push_str(short_hash(o.baseline_sha256.as_str()).as_str());
    text.push_str(" -> ");
    text.push_str(short_hash(o.variant_sha256.as_str()).as_str());
    text
}

pub open spec fn with_source_override_lines(
    lines: Seq<Seq<char>>,
    items: Seq<SourceOverrideRecord>,
    n: int,
) -> Seq<Seq<char>>
    decreases n,
{
    if n <= 0 {
        lines
    } else {
        with_source_override_lines(lines, items, n - 1).push(source_override_text(items[n - 1]))
    }
}

pub fn push_source_override_lines(lines: &mut Vec<String>, items: &Vec<SourceOverrideRecord>)
    ensures
        final(lines).deep_view() == with_source_override_lines(
            old(lines).deep_view(),
            items@,
            items@.len() as int,
        ),
{
    let ghost start = lines.deep_view();
    let mut n: usize = 0;
    while n < items.len()
        invariant
            n <= items@.len(),
            lines.deep_view() == with_source_override_lines(start, items@, n as int),
        decreases items.len() - n,
    {
        push_line(lines, show_source_override(&items[n]));
        n += 1;
    }
}

pub open spec fn with_source_overrides(
    lines: Seq<Seq<char>>,
    overrides: Seq<SourceOverrideRecord>,
) -> Seq<Seq<char>> {
    let lines = if overrides.len() > 0 {
        let lines = lines.push("  source/dependency overrides:"@);
        let lines = with_source_override_lines(lines, overrides, overrides.len() as int);
        lines
    } else {
        lines
    };
    lines
}

pub fn push_source_overrides(lines: &mut Vec<String>, overrides: &Vec<SourceOverrideRecord>)
    ensures
        final(lines).deep_view() == with_source_overrides(old(lines).deep_view(), overrides@),
{
    if overrides.len() > 0 {
        push_line(lines, "  source/dependency overrides:".to_owned());
        push_source_override_lines(lines, overrides);
    }
}

pub open spec fn with_network_trace(
    lines: Seq<Seq<char>>,
    t: NetworkTraceSummary,
) -> Seq<Seq<char>> {
    let lines = if t.attempted {
        let lines = if t.tracer_available {
            let lines = lines.push(
                "  network trace: socket="@
                    + decimal_of(t.socket_calls as int)
                    + " connect="@
                    + decimal_of(t.connect_calls as int)
                    + " success="@
                    + decimal_of(t.successful_connects as int)
                    + " failed="@
                    + decimal_of(t.failed_connects as int)
                    + " sendto="@
                    + decimal_of(t.sendto_calls as int)
                    + " recvfrom="@
                    + decimal_of(t.recvfrom_calls as int)
                    + " families=["@
                    + joined(t.address_families.deep_view(), ","@, t.address_families@.len() as int)
                    + "] scopes=["@
                    + counts_text(t.endpoint_scopes@)
                    + "] successful_scopes=["@
                    + counts_text(t.successful_endpoint_scopes@)
                    + "] parsed_bytes="@
                    + decimal_of(t.parsed_bytes as int)
                    + " truncated="@
                    + bool_text(t.trace_truncated),
            );
            lines
        } else {
            let lines = match t.error {
                Some(error) => {
                    let lines = lines.push("  network trace: unavailable ("@ + error@ + ")"@);
                    lines
                },
                None => {
                    lines
                },
            };
            lines
        };
        lines
    } else {
        lines
    };
    lines
}

pub fn push_network_trace(lines: &mut Vec<String>, t: &NetworkTraceSummary)
    ensures
        final(lines).deep_view() == with_network_trace(old(lines).deep_view(), *t),
{
    if t.attempted {
        if t.tracer_available {
            let mut text = "  network trace: socket=".to_owned();
            text.push_str(decimal(t.socket_calls as u128).as_str());
            text.push_str(" connect=");
            text.push_str(decimal(t.connect_calls as u128).as_str());
            text.push_str(" success=");
            text.push_str(decimal(t.successful_connects as u128).as_str());
            text.push_str(" failed=");
            text.push_str(decimal(t.failed_connects as u128).as_str());
            text.push_str(" sendto=");
            text.push_str(decimal(t.sendto_calls as u128).as_str());
            text.push_str(" recvfrom=");
            text.push_str(decimal(t.recvfrom_calls as u128).as_str());
            text.push_str(" families=[");
            text.push_str(join(&t.address_families, ",").as_str());
            text.push_str("] scopes=[");
            text.push_str(show_counts(&t.endpoint_scopes).as_str());
            text.push_str("] successful_scopes=[");
            text.push_str(show_counts(&t.successful_endpoint_scopes).as_str());
            text.push_str("] parsed_bytes=");
            text.push_str(decimal(t.parsed_bytes as u128).as_str());
            text.push_str(" truncated=");
            text.push_str(show_bool(t.trace_truncated).as_str());
            push_line(lines, text);
        } else {
            if let Some(error) = &t.error {
                push_line(lines, concat3("  network trace: unavailable (", error.as_str(), ")"));
            }
        }
    }
}

pub open spec fn process_activity_text(p: ProcessActivitySummary) -> Seq<char> {
    "    "@
        + p.process@
        + " parent="@
        + or_text(p.parent_process.deep_view(), "-"@)
        + " depth="@
        + decimal_of(p.lineage_depth as int)
        + " role="@
        + p.role@
        + " dependency_reads="@
        + decimal_of(p.dependency_reads as int)
        + " dependency_mmaps="@
        + decimal_of(p.dependency_mmaps as int)
        + " cache_reads="@
        + decimal_of(p.cache_reads as int)
        + " cache_mmaps="@
        + decimal_of(p.cache_mmaps as int)
        + " output_writes="@
        + decimal_of(p.output_writes as int)
        + " output_publications="@
        + decimal_of(p.output_publications as int)
        + " temp_publications="@
        + decimal_of(p.temp_output_publications as int)
        + " lineage_temp_publications="@
        + decimal_of(p.lineage_temp_output_publications as int)
        + " successful_nonlocal_events="@
        + decimal_of(p.successful_nonlocal_network_events as int)
}

pub fn show_process_activity(p: &ProcessActivitySummary) -> (r: String)
    ensures
        r@ == process_activity_text(*p),
{
    let mut text = "    ".to_owned();
    text.push_str(p.process.as_str());
    text.push_str(" parent=");
    text.push_str(value_or(&p.parent_process, "-"));
    text.push_str(" depth=");
    text.push_str(decimal(p.lineage_depth as u128).as_str());
    text.push_str(" role=");
    text.push_str(p.role.as_str());
    text.push_str(" dependency_reads=");
    text.push_str(decimal(p.dependency_reads as u128).as_str());
    text.push_str(" dependency_mmaps=");
    text.push_str(decimal(p.dependency_mmaps as u128).as_str());
    text.push_str(" cache_reads=");
    text.push_str(decimal(p.cache_reads as u128).as_str());
    text.push_str(" cache_mmaps=");
    text.push_str(decimal(p.cache_mmaps as u128).as_str());
    text.push_str(" output_writes=");
    text.push_str(decimal(p.output_writes as u128).as_str());
    text.push_str(" output_publications=");
    text.push_str(decimal(p.output_publications as u128).as_str());
    text.push_str(" temp_publications=");
    text.push_str(decimal(p.temp_output_publications as u128).as_str());
    text.push_str(" lineage_temp_publications=");
    text.push_str(decimal(p.lineage_temp_output_publications as u128).as_str());
    text.push_str(" successful_nonlocal_events=");
    text.push_str(decimal(p.successful_nonlocal_network_events as u128).as_str());
    text
}

pub open spec fn with_process_activities(
    lines: Seq<Seq<char>>,
    items: Seq<ProcessActivitySummary>,
    n: int,
) -> Seq<Seq<char>>
    decreases n,
{
    if n <= 0 {
        lines
    } else {
        with_process_activities(lines, items, n - 1).push(process_activity_text(items[n - 1]))
    }
}

pub fn push_process_activities(lines: &mut Vec<String>, items: &Vec<ProcessActivitySummary>)
    ensures
        final(lines).deep_view() == with_process_activities(
            old(lines).deep_view(),
            items@,
            items@.len() as int,
        ),
{
    let ghost start = lines.deep_view();
    let mut n: usize = 0;
    while n < items.len()
        invariant
            n <= items@.len(),
            lines.deep_view() == with_process_activities(start, items@, n as int),
        decreases items.len() - n,
    {
        push_line(lines, show_process_activity(&items[n]));
        n += 1;
    }
}

pub open spec fn process_trace_summary_text(t: ProcessTraceSummary) -> Seq<char> {
    "  process/file trace: processes="@
        + decimal_of(t.processes@.len() as int)
        + " parsed_bytes="@
        + decimal_of(t.parsed_bytes as int)
        + " truncated="@
        + bool_text(t.truncated)
        + " same_process(dep+out="@
        + decimal_of(t.same_process_dependency_output as int)
        + " cache+out="@
        + decimal_of(t.same_process_cache_output as int)
        + " net+cache="@
        + decimal_of(t.same_process_network_cache as int)
        + " net+cache+out="@
        + decimal_of(t.same_process_network_cache_output as int)
        + ") ancestor(dep+out="@
        + decimal_of(t.ancestor_dependency_output as int)
        + " cache+out="@
        + decimal_of(t.ancestor_cache_output as int)
        + " net+out="@
        + decimal_of(t.ancestor_network_output as int)
        + " net+cache+out="@
        + decimal_of(t.ancestor_network_cache_output as int)
        + ") mmap(dep="@
        + decimal_of(t.dependency_mmaps as int)
        + " cache="@
        + decimal_of(t.cache_mmaps as int)
        + ") publication(out="@
        + decimal_of(t.output_publications as int)
        + " same_process_temp="@
        + decimal_of(t.temp_output_publications as int)
        + " lineage_temp="@
        + decimal_of(t.lineage_temp_output_publications as int)
        + ")"@
}

pub fn show_process_trace_summary(t: &ProcessTraceSummary) -> (r: String)
    ensures
        r@ == process_trace_summary_text(*t),
{
    let mut text = "  process/file trace: processes=".to_owned();
    text.push_str(decimal(t.processes.len() as u128).as_str());
    text.push_str(" parsed_bytes=");
    text.push_str(decimal(t.parsed_bytes as u128).as_str());
    text.push_str(" truncated=");
    text.push_str(show_bool(t.truncated).as_str());
    text.push_str(" same_process(dep+out=");
    text.push_str(decimal(t.same_process_dependency_output as u128).as_str());
    text.push_str(" cache+out=");
    text.push_str(decimal(t.same_process_cache_output as u128).as_str());
    text.push_str(" net+cache=");
    text.push_str(decimal(t.same_process_network_cache as u128).as_str());
    text.push_str(" net+cache+out=");
    text.push_str(decimal(t.same_process_network_cache_output as u128).as_str());
    text.push_str(") ancestor(dep+out=");
    text.push_str(decimal(t.ancestor_dependency_output as u128).as_str());
    text.push_str(" cache+out=");
    text.push_str(decimal(t.ancestor_cache_output as u128).as_str());
    text.push_str(" net+out=");
    text.push_str(decimal(t.ancestor_network_output as u128).as_str());
    text.push_str(" net+cache+out=");
    text.push_str(decimal(t.ancestor_network_cache_output as u128).as_str());
    text.push_str(") mmap(dep=");
    text.push_str(decimal(t.dependency_mmaps as u128).as_str());
    text.push_str(" cache=");
    text.push_str(decimal(t.cache_mmaps as u128).as_str());
    text.push_str(") publication(out=");
    text.push_str(decimal(t.output_publications as u128).as_str());
    text.push_str(" same_process_temp=");
    text.push_str(decimal(t.temp_output_publications as u128).as_str());
    text.push_str(" lineage_temp=");
    text.push_str(decimal(t.lineage_temp_output_publications as u128).as_str());
    text.push_str(")");
    text
}

pub open spec fn with_process_trace(
    lines: Seq<Seq<char>>,
    t: ProcessTraceSummary,
) -> Seq<Seq<char>> {
    let lines = if t.attempted {
        let lines = if t.tracer_available {
            let lines = lines.push(process_trace_summary_text(t));
            let lines = with_process_activities(lines, t.processes@, t.processes@.len() as int);
            let lines = if t.truncated {
                let lines = lines.push(
                    "    note: trace parsing was truncated; observed process correlations are incomplete"@,
                );
                lines
            } else {
                lines
            };
            lines
        } else {
            let lines = match t.error {
                Some(error) => {
                    let lines = lines.push("  process/file trace: unavailable ("@ + error@ + ")"@);
                    lines
                },
                None => {
                    lines
                },
            };
            lines
        };
        lines
    } else {
        lines
    };
    lines
}

pub fn push_process_trace(lines: &mut Vec<String>, t: &ProcessTraceSummary)
    ensures
        final(lines).deep_view() == with_process_trace(old(lines).deep_view(), *t),
{
    if t.attempted {
        if t.tracer_available {
            push_line(lines, show_process_trace_summary(t).as_str().to_owned());
            push_process_activities(lines, &t.processes);
            if t.truncated {
                push_line(
                    lines,
                    "    note: trace parsing was truncated; observed process correlations are incomplete".to_owned(),
                );
            }
        } else {
            if let Some(error) = &t.error {
                push_line(
                    lines,
                    concat3("  process/file trace: unavailable (", error.as_str(), ")"),
                );
            }
        }
    }
}

pub open spec fn runtime_resolution_text(d: DependencyResolutionRecord) -> Seq<char> {
    "    "@
        + d.path@
        + ": ecosystem="@
        + d.ecosystem@
        + " packages="@
        + decimal_of(d.package_count as int)
        + " normalized_sha256="@
        + short_or(d.normalized_sha256.deep_view(), "<unavailable>"@)
}

pub fn show_runtime_resolution(d: &DependencyResolutionRecord) -> (r: String)
    ensures
        r@ == runtime_resolution_text(*d),
{
    let mut text = "    ".to_owned();
    text.push_str(d.path.as_str());
    text.push_str(": ecosystem=");
    text.push_str(d.ecosystem.as_str());
    text.push_str(" packages=");
    text.push_str(decimal(d.package_count as u128).as_str());
    text.push_str(" normalized_sha256=");
    text.push_str(short_hash_or(&d.normalized_sha256, "<unavailable>").as_str());
    text
}

pub open spec fn with_runtime_resolutions(
    lines: Seq<Seq<char>>,
    items: Seq<DependencyResolutionRecord>,
    n: int,
) -> Seq<Seq<char>>
    decreases n,
{
    if n <= 0 {
        lines
    } else {
        with_runtime_resolutions(lines, items, n - 1).push(runtime_resolution_text(items[n - 1]))
    }
}

pub fn push_runtime_resolutions(lines: &mut Vec<String>, items: &Vec<DependencyResolutionRecord>)
    ensures
        final(lines).deep_view() == with_runtime_resolutions(
            old(lines).deep_view(),
            items@,
            items@.len() as int,
        ),
{
    let ghost start = lines.deep_view();
    let mut n: usize = 0;
    while n < items.len()
        invariant
            n <= items@.len(),
            lines.deep_view() == with_runtime_resolutions(start, items@, n as int),
        decreases items.len() - n,
    {
        push_line(lines, show_runtime_resolution(&items[n]));
        n += 1;
    }
}

pub open spec fn runtime_cache_text(c: DependencyCacheSummary) -> Seq<char> {
    "    cache "@
        + c.ecosystem@
        + ": before(files="@
        + decimal_of(c.before_file_count as int)
        + " bytes="@
        + decimal_of(c.before_total_bytes as int)
        + " aggregate_sha256="@
        + short_or(c.before_aggregate_sha256.deep_view(), "<unavailable>"@)
        + " truncated="@
        + bool_text(c.before_truncated)
        + ") after(files="@
        + decimal_of(c.after_file_count as int)
        + " bytes="@
        + decimal_of(c.after_total_bytes as int)
        + " aggregate_sha256="@
        + short_or(c.after_aggregate_sha256.deep_view(), "<unavailable>"@)
        + " truncated="@
        + bool_text(c.after_truncated)
        + ") complete="@
        + bool_text(c.comparison_complete)
        + " changed="@
        + bool_text(c.changed_during_build)
        + " observed_change="@
        + bool_text(c.observed_change)
        + " bounds(files="@
        + decimal_of(c.max_files as int)
        + " bytes="@
        + decimal_of(c.max_bytes as int)
        + ")"@
}

pub fn show_runtime_cache(c: &DependencyCacheSummary) -> (r: String)
    ensures
        r@ == runtime_cache_text(*c),
{
    let mut text = "    cache ".to_owned();
    text.push_str(c.ecosystem.as_str());
    text.push_str(": before(files=");
    text.push_str(decimal(c.before_file_count as u128).as_str());
    text.push_str(" bytes=");
    text.push_str(decimal(c.before_total_bytes as u128).as_str());
    text.push_str(" aggregate_sha256=");
    text.push_str(short_hash_or(&c.before_aggregate_sha256, "<unavailable>").as_str());
    text.push_str(" truncated=");
    text.push_str(show_bool(c.before_truncated).as_str());
    text.push_str(") after(files=");
    text.push_str(decimal(c.after_file_count as u128).as_str());
    text.push_str(" bytes=");
    text.push_str(decimal(c.after_total_bytes as u128).as_str());
    text.push_str(" aggregate_sha256=");
    text.push_str(short_hash_or(&c.after_aggregate_sha256, "<unavailable>").as_str());
    text.push_str(" truncated=");
    text.push_str(show_bool(c.after_truncated).as_str());
    text.push_str(") complete=");
    text.push_str(show_bool(c.comparison_complete).as_str());
    text.push_str(" changed=");
    text.push_str(show_bool(c.changed_during_build).as_str());
    text.push_str(" observed_change=");
    text.push_str(show_bool(c.observed_change).as_str());
    text.push_str(" bounds(files=");
    text.push_str(decimal(c.max_files as u128).as_str());
    text.push_str(" bytes=");
    text.push_str(decimal(c.max_bytes as u128).as_str());
    text.push_str(")");
    text
}

pub open spec fn with_runtime_caches(
    lines: Seq<Seq<char>>,
    items: Seq<DependencyCacheSummary>,
    n: int,
) -> Seq<Seq<char>>
    decreases n,
{
    if n <= 0 {
        lines
    } else {
        with_runtime_caches(lines, items, n - 1).push(runtime_cache_text(items[n - 1]))
    }
}

pub fn push_runtime_caches(lines: &mut Vec<String>, items: &Vec<DependencyCacheSummary>)
    ensures
        final(lines).deep_view() == with_runtime_caches(
            old(lines).deep_view(),
            items@,
            items@.len() as int,
        ),
{
    let ghost start = lines.deep_view();
    let mut n: usize = 0;
    while n < items.len()
        invariant
            n <= items@.len(),
            lines.deep_view() == with_runtime_caches(start, items@, n as int),
        decreases items.len() - n,
    {
        push_line(lines, show_runtime_cache(&items[n]));
        n += 1;
    }
}

pub open spec fn with_correlation(
    lines: Seq<Seq<char>>,
    c: DependencyNetworkCorrelation,
) -> Seq<Seq<char>> {
    let lines = if c.attempted {
        let lines = lines.push(
            "    network/cache build-window correlation: trace_available="@
                + bool_text(c.network_trace_available)
                + " successful_nonlocal_events="@
                + decimal_of(c.successful_nonlocal_network_events as int)
                + " complete_cache_mutations="@
                + decimal_of(c.complete_cache_mutations as int)
                + " incomplete_cache_observations="@
                + decimal_of(c.incomplete_cache_observations as int)
                + " cooccurrence="@
                + bool_text(c.build_window_cooccurrence),
        );
        let lines = if c.build_window_cooccurrence {
            let lines = lines.push(
                "      note: co-occurrence does not identify which network response, if any, produced any cached byte"@,
            );
            lines
        } else {
            lines
        };
        lines
    } else {
        lines
    };
    lines
}

pub fn push_correlation(lines: &mut Vec<String>, c: &DependencyNetworkCorrelation)
    ensures
        final(lines).deep_view() == with_correlation(old(lines).deep_view(), *c),
{
    if c.attempted {
        let mut text = "    network/cache build-window correlation: trace_available=".to_owned();
        text.push_str(show_bool(c.network_trace_available).as_str());
        text.push_str(" successful_nonlocal_events=");
        text.push_str(decimal(c.successful_nonlocal_network_events as u128).as_str());
        text.push_str(" complete_cache_mutations=");
        text.push_str(decimal(c.complete_cache_mutations as u128).as_str());
        text.push_str(" incomplete_cache_observations=");
        text.push_str(decimal(c.incomplete_cache_observations as u128).as_str());
        text.push_str(" cooccurrence=");
        text.push_str(show_bool(c.build_window_cooccurrence).as_str());
        push_line(lines, text);
        if c.build_window_cooccurrence {
            push_line(
                lines,
                "      note: co-occurrence does not identify which network response, if any, produced any cached byte".to_owned(),
            );
        }
    }
}

pub open spec fn with_runtime_dependencies(
    lines: Seq<Seq<char>>,
    d: RuntimeDependencyProvenance,
) -> Seq<Seq<char>> {
    let lines = if d.attempted {
        let lines = lines.push(
            "  runtime dependency provenance: declarations="@
                + decimal_of(d.dependency_files@.len() as int)
                + " resolutions="@
                + decimal_of(d.dependency_resolutions@.len() as int)
                + " cache_summaries="@
                + decimal_of(d.cache_summaries@.len() as int),
        );
        let lines = with_runtime_resolutions(
            lines,
            d.dependency_resolutions@,
            d.dependency_resolutions@.len() as int,
        );
        let lines = with_runtime_caches(lines, d.cache_summaries@, d.cache_summaries@.len() as int);
        let lines = with_correlation(lines, d.network_cache_correlation);
        let lines = match d.error {
            Some(error) => {
                let lines = lines.push("    note: "@ + error@);
                lines
            },
            None => {
                lines
            },
        };
        lines
    } else {
        lines
    };
    lines
}

pub fn push_runtime_dependencies(lines: &mut Vec<String>, d: &RuntimeDependencyProvenance)
    ensures
        final(lines).deep_view() == with_runtime_dependencies(old(lines).deep_view(), *d),
{
    if d.attempted {
        let mut text = "  runtime dependency provenance: declarations=".to_owned();
        text.push_str(decimal(d.dependency_files.len() as u128).as_str());
        text.push_str(" resolutions=");
        text.push_str(decimal(d.dependency_resolutions.len() as u128).as_str());
        text.push_str(" cache_summaries=");
        text.push_str(decimal(d.cache_summaries.len() as u128).as_str());
        push_line(lines, text);
        push_runtime_resolutions(lines, &d.dependency_resolutions);
        push_runtime_caches(lines, &d.cache_summaries);
        push_correlation(lines, &d.network_cache_correlation);
        if let Some(error) = &d.error {
            push_line(lines, concat("    note: ", error.as_str()));
        }
    }
}

/// What was recorded beside a build.
pub open spec fn with_records(
    lines: Seq<Seq<char>>,
    toolchain: ToolchainProvenance,
    overrides: Seq<SourceOverrideRecord>,
    network: NetworkTraceSummary,
    process: ProcessTraceSummary,
    runtime: RuntimeDependencyProvenance,
) -> Seq<Seq<char>> {
    let lines = with_toolchain(lines, toolchain);
    let lines = with_source_overrides(lines, overrides);
    let lines = with_network_trace(lines, network);
    let lines = with_process_trace(lines, process);
    let lines = with_runtime_dependencies(lines, runtime);
    lines
}

pub fn push_records(
    lines: &mut Vec<String>,
    toolchain: &ToolchainProvenance,
    overrides: &Vec<SourceOverrideRecord>,
    network: &NetworkTraceSummary,
    process: &ProcessTraceSummary,
    runtime: &RuntimeDependencyProvenance,
)
    ensures
        final(lines).deep_view() == with_records(
            old(lines).deep_view(),
            *toolchain,
            overrides@,
            *network,
            *process,
            *runtime,
        ),
{
    push_toolchain(lines, toolchain);
    push_source_overrides(lines, overrides);
    push_network_trace(lines, network);
    push_process_trace(lines, process);
    push_runtime_dependencies(lines, runtime);
}

pub open spec fn artifact_line_text(a: ArtifactRecord) -> Seq<char> {
    "  "@
        + a.logical_path@
        + "  sha256="@
        + a.sha256@
        + "  size="@
        + decimal_of(a.size_bytes as int)
        + "  type="@
        + type_text(a.detected_type)
}

pub fn show_artifact_line(a: &ArtifactRecord) -> (r: String)
    ensures
        r@ == artifact_line_text(*a),
{
    let mut text = "  ".to_owned();
    text.push_str(a.logical_path.as_str());
    text.push_str("  sha256=");
    text.push_str(a.sha256.as_str());
    text.push_str("  size=");
    text.push_str(decimal(a.size_bytes as u128).as_str());
    text.push_str("  type=");
    text.push_str(show_type(a.detected_type));
    text
}

pub open spec fn with_artifact_lines(
    lines: Seq<Seq<char>>,
    items: Seq<ArtifactRecord>,
    n: int,
) -> Seq<Seq<char>>
    decreases n,
{
    if n <= 0 {
        lines
    } else {
        with_artifact_lines(lines, items, n - 1).push(artifact_line_text(items[n - 1]))
    }
}

pub fn push_artifact_lines(lines: &mut Vec<String>, items: &Vec<ArtifactRecord>)
    ensures
        final(lines).deep_view() == with_artifact_lines(
            old(lines).deep_view(),
            items@,
            items@.len() as int,
        ),
{
    let ghost start = lines.deep_view();
    let mut n: usize = 0;
    while n < items.len()
        invariant
            n <= items@.len(),
            lines.deep_view() == with_artifact_lines(start, items@, n as int),
        decreases items.len() - n,
    {
        push_line(lines, show_artifact_line(&items[n]));
        n += 1;
    }
}

pub open spec fn with_control_run(lines: Seq<Seq<char>>, run: BuildRun) -> Seq<Seq<char>> {
    let lines = lines.push(
        "control run "@
            + decimal_of(run.ordinal as int)
            + "  id="@
            + run.run_id@
            + "  duration="@
            + decimal_of(run.duration_ms as int)
            + "ms  runner="@
            + runner_text(run.runner_backend)
            + "  image="@
            + run.image@
            + " ("@
            + short_of(run.resolved_image_id@)
            + ")"@,
    );
    let lines = with_records(
        lines,
        run.toolchain_provenance,
        run.source_overrides@,
        run.network_trace,
        run.process_trace,
        run.runtime_dependency_provenance,
    );
    let lines = with_artifact_lines(lines, run.artifacts@, run.artifacts@.len() as int);
    let lines = with_run_logs(lines, run);
    lines
}

pub fn push_control_run(lines: &mut Vec<String>, run: &BuildRun)
    ensures
        final(lines).deep_view() == with_control_run(old(lines).deep_view(), *run),
{
    let mut text = "control run ".to_owned();
    text.push_str(decimal(run.ordinal as u128).as_str());
    text.push_str("  id=");
    text.push_str(run.run_id.as_str());
    text.push_str("  duration=");
    text.push_str(decimal(run.duration_ms as u128).as_str());
    text.push_str("ms  runner=");
    text.push_str(show_runner(run.runner_backend));
    text.push_str("  image=");
    text.push_str(run.image.as_str());
    text.push_str(" (");
    text.push_str(short_hash(run.resolved_image_id.as_str()).as_str());
    text.push_str(")");
    push_line(lines, text);
    push_records(
        lines,
        &run.toolchain_provenance,
        &run.source_overrides,
        &run.network_trace,
        &run.process_trace,
        &run.runtime_dependency_provenance,
    );
    push_artifact_lines(lines, &run.artifacts);
    push_run_logs(lines, run);
}

pub open spec fn with_control_runs(
    lines: Seq<Seq<char>>,
    items: Seq<BuildRun>,
    n: int,
) -> Seq<Seq<char>>
    decreases n,
{
    if n <= 0 {
        lines
    } else {
        with_control_run(with_control_runs(lines, items, n - 1), items[n - 1])
    }
}

pub fn push_control_runs(lines: &mut Vec<String>, items: &Vec<BuildRun>)
    ensures
        final(lines).deep_view() == with_control_runs(
            old(lines).deep_view(),
            items@,
            items@.len() as int,
        ),
{
    let ghost start = lines.deep_view();
    let mut n: usize = 0;
    while n < items.len()
        invariant
            n <= items@.len(),
            lines.deep_view() == with_control_runs(start, items@, n as int),
        decreases items.len() - n,
    {
        push_control_run(lines, &items[n]);
        n += 1;
    }
}

pub open spec fn comparison_line_text(c: ArtifactComparison) -> Seq<char> {
    "control artifact "@
        + c.logical_path@
        + ": "@
        + picked(c.equal_across_runs, "STABLE"@, "UNSTABLE"@)
}

pub fn show_comparison_line(c: &ArtifactComparison) -> (r: String)
    ensures
        r@ == comparison_line_text(*c),
{
    let mut text = "control artifact ".to_owned();
    text.push_str(c.logical_path.as_str());
    text.push_str(": ");
    text.push_str(pick(c.equal_across_runs, "STABLE", "UNSTABLE"));
    text
}

pub open spec fn with_comparison_lines(
    lines: Seq<Seq<char>>,
    items: Seq<ArtifactComparison>,
    n: int,
) -> Seq<Seq<char>>
    decreases n,
{
    if n <= 0 {
        lines
    } else {
        with_comparison_lines(lines, items, n - 1).push(comparison_line_text(items[n - 1]))
    }
}

pub fn push_comparison_lines(lines: &mut Vec<String>, items: &Vec<ArtifactComparison>)
    ensures
        final(lines).deep_view() == with_comparison_lines(
            old(lines).deep_view(),
            items@,
            items@.len() as int,
        ),
{
    let ghost start = lines.deep_view();
    let mut n: usize = 0;
    while n < items.len()
        invariant
            n <= items@.len(),
            lines.deep_view() == with_comparison_lines(start, items@, n as int),
        decreases items.len() - n,
    {
        push_line(lines, show_comparison_line(&items[n]));
        n += 1;
    }
}

pub open spec fn delta_line_text(d: ArtifactDelta) -> Seq<char> {
    "    "@
        + d.logical_path@
        + "  "@
        + short_of(d.baseline_sha256@)
        + " -> "@
        + short_of(d.variant_sha256@)
}

pub fn show_delta_line(d: &ArtifactDelta) -> (r: String)
    ensures
        r@ == delta_line_text(*d),
{
    let mut text = "    ".to_owned();
    text.push_str(d.logical_path.as_str());
    text.push_str("  ");
    text.push_str(short_hash(d.baseline_sha256.as_str()).as_str());
    text.push_str(" -> ");
    text.push_str(short_hash(d.variant_sha256.as_str()).as_str());
    text
}

pub open spec fn with_delta_lines(
    lines: Seq<Seq<char>>,
    items: Seq<ArtifactDelta>,
    n: int,
) -> Seq<Seq<char>>
    decreases n,
{
    if n <= 0 {
        lines
    } else if items[n - 1].changed {
        with_delta_lines(lines, items, n - 1).push(delta_line_text(items[n - 1]))
    } else {
        with_delta_lines(lines, items, n - 1)
    }
}

pub fn push_delta_lines(lines: &mut Vec<String>, items: &Vec<ArtifactDelta>)
    ensures
        final(lines).deep_view() == with_delta_lines(
            old(lines).deep_view(),
            items@,
            items@.len() as int,
        ),
{
    let ghost start = lines.deep_view();
    let mut n: usize = 0;
    while n < items.len()
        invariant
            n <= items@.len(),
            lines.deep_view() == with_delta_lines(start, items@, n as int),
        decreases items.len() - n,
    {
        if items[n].changed {
            push_line(lines, show_delta_line(&items[n]));
        }
        n += 1;
    }
}

/// The exit codes of some failures, separated by commas.
pub open spec fn codes_text(failures: Seq<BuildFailure>) -> Seq<char> {
    let codes = failures.map_values(|f: BuildFailure| decimal_of(f.exit_code as int));
    joined(codes, ", "@, codes.len() as int)
}

pub fn show_codes(failures: &Vec<BuildFailure>) -> (r: String)
    ensures
        r@ == codes_text(failures@),
{
    let ghost wanted = failures@.map_values(|f: BuildFailure| decimal_of(f.exit_code as int));
    let mut codes: Vec<String> = Vec::new();
    let mut i: usize = 0;
    while i < failures.len()
        invariant
            wanted == failures@.map_values(|f: BuildFailure| decimal_of(f.exit_code as int)),
            i <= failures@.len(),
            codes@.len() == i,
            forall|k: int| 0 <= k < i ==> (#[trigger] codes@[k])@ == wanted[k],
        decreases failures.len() - i,
    {
        codes.push(signed_decimal(failures[i].exit_code as i64));
        i += 1;
    }
    assert(codes.deep_view() =~= wanted);
    join(&codes, ", ")
}

pub open spec fn with_variant_run(lines: Seq<Seq<char>>, run: BuildRun) -> Seq<Seq<char>> {
    let lines = with_run_logs(lines, run);
    let lines = with_records(
        lines,
        run.toolchain_provenance,
        run.source_overrides@,
        run.network_trace,
        run.process_trace,
        run.runtime_dependency_provenance,
    );
    lines
}

pub fn push_variant_run(lines: &mut Vec<String>, run: &BuildRun)
    ensures
        final(lines).deep_view() == with_variant_run(old(lines).deep_view(), *run),
{
    push_run_logs(lines, run);
    push_records(
        lines,
        &run.toolchain_provenance,
        &run.source_overrides,
        &run.network_trace,
        &run.process_trace,
        &run.runtime_dependency_provenance,
    );
}

pub open spec fn with_variant_runs(
    lines: Seq<Seq<char>>,
    items: Seq<BuildRun>,
    n: int,
) -> Seq<Seq<char>>
    decreases n,
{
    if n <= 0 {
        lines
    } else {
        with_variant_run(with_variant_runs(lines, items, n - 1), items[n - 1])
    }
}

pub fn push_variant_runs(lines: &mut Vec<String>, items: &Vec<BuildRun>)
    ensures
        final(lines).deep_view() == with_variant_runs(
            old(lines).deep_view(),
            items@,
            items@.len() as int,
        ),
{
    let ghost start = lines.deep_view();
    let mut n: usize = 0;
    while n < items.len()
        invariant
            n <= items@.len(),
            lines.deep_view() == with_variant_runs(start, items@, n as int),
        decreases items.len() - n,
    {
        push_variant_run(lines, &items[n]);
        n += 1;
    }
}

pub open spec fn with_reference_run(lines: Seq<Seq<char>>, run: BuildRun) -> Seq<Seq<char>> {
    let lines = lines.push(
        "    matched stochastic baseline run "@ + decimal_of(run.ordinal as int) + ":"@,
    );
    let lines = with_run_logs(lines, run);
    lines
}

pub fn push_reference_run(lines: &mut Vec<String>, run: &BuildRun)
    ensures
        final(lines).deep_view() == with_reference_run(old(lines).deep_view(), *run),
{
    push_line(
        lines,
        concat3("    matched stochastic baseline run ", decimal(run.ordinal as u128).as_str(), ":"),
    );
    push_run_logs(lines, run);
}

pub open spec fn with_reference_runs(
    lines: Seq<Seq<char>>,
    items: Seq<BuildRun>,
    n: int,
) -> Seq<Seq<char>>
    decreases n,
{
    if n <= 0 {
        lines
    } else {
        with_reference_run(with_reference_runs(lines, items, n - 1), items[n - 1])
    }
}

pub fn push_reference_runs(lines: &mut Vec<String>, items: &Vec<BuildRun>)
    ensures
        final(lines).deep_view() == with_reference_runs(
            old(lines).deep_view(),
            items@,
            items@.len() as int,
        ),
{
    let ghost start = lines.deep_view();
    let mut n: usize = 0;
    while n < items.len()
        invariant
            n <= items@.len(),
            lines.deep_view() == with_reference_runs(start, items@, n as int),
        decreases items.len() - n,
    {
        push_reference_run(lines, &items[n]);
        n += 1;
    }
}

pub open spec fn with_variant_failure(
    lines: Seq<Seq<char>>,
    failure: BuildFailure,
) -> Seq<Seq<char>> {
    let lines = with_failure_logs(lines, failure);
    let lines = with_records(
        lines,
        failure.toolchain_provenance,
        failure.source_overrides@,
        failure.network_trace,
        failure.process_trace,
        failure.runtime_dependency_provenance,
    );
    lines
}

pub fn push_variant_failure(lines: &mut Vec<String>, failure: &BuildFailure)
    ensures
        final(lines).deep_view() == with_variant_failure(old(lines).deep_view(), *failure),
{
    push_failure_logs(lines, failure);
    push_records(
        lines,
        &failure.toolchain_provenance,
        &failure.source_overrides,
        &failure.network_trace,
        &failure.process_trace,
        &failure.runtime_dependency_provenance,
    );
}

pub open spec fn with_variant_failures(
    lines: Seq<Seq<char>>,
    items: Seq<BuildFailure>,
    n: int,
) -> Seq<Seq<char>>
    decreases n,
{
    if n <= 0 {
        lines
    } else {
        with_variant_failure(with_variant_failures(lines, items, n - 1), items[n - 1])
    }
}

pub fn push_variant_failures(lines: &mut Vec<String>, items: &Vec<BuildFailure>)
    ensures
        final(lines).deep_view() == with_variant_failures(
            old(lines).deep_view(),
            items@,
            items@.len() as int,
        ),
{
    let ghost start = lines.deep_view();
    let mut n: usize = 0;
    while n < items.len()
        invariant
            n <= items@.len(),
            lines.deep_view() == with_variant_failures(start, items@, n as int),
        decreases items.len() - n,
    {
        push_variant_failure(lines, &items[n]);
        n += 1;
    }
}

pub open spec fn matched_trials_text(e: StochasticEffectEvidence) -> Seq<char> {
    "    stochastic matched trials: baseline "@
        + decimal_of(e.baseline_changed_trials as int)
        + "/"@
        + decimal_of(e.baseline_trials as int)
        + " changed, variant "@
        + decimal_of(e.variant_changed_trials as int)
        + "/"@
        + decimal_of(e.variant_trials as int)
        + " changed, p="@
        + e.figures.fisher_exact_p_value@
        + ", alpha="@
        + e.figures.alpha@
        + ", classification="@
        + classification_text(e.classification)
}

pub fn show_matched_trials(e: &StochasticEffectEvidence) -> (r: String)
    ensures
        r@ == matched_trials_text(*e),
{
    let mut text = "    stochastic matched trials: baseline ".to_owned();
    text.push_str(decimal(e.baseline_changed_trials as u128).as_str());
    text.push_str("/");
    text.push_str(decimal(e.baseline_trials as u128).as_str());
    text.push_str(" changed, variant ");
    text.push_str(decimal(e.variant_changed_trials as u128).as_str());
    text.push_str("/");
    text.push_str(decimal(e.variant_trials as u128).as_str());
    text.push_str(" changed, p=");
    text.push_str(e.figures.fisher_exact_p_value.as_str());
    text.push_str(", alpha=");
    text.push_str(e.figures.alpha.as_str());
    text.push_str(", classification=");
    text.push_str(show_classification(e.classification));
    text
}

pub open spec fn with_experiment_head(
    lines: Seq<Seq<char>>,
    r: InterventionResult,
) -> Seq<Seq<char>> {
    let lines = lines.push(
        "  "@
            + padded_to(r.intervention.variable@, 24)
            + " "@
            + result_label(r, "CHANGED"@, "NO EFFECT"@)
            + "  "@
            + debug_text(r.intervention.baseline_value@)
            + " -> "@
            + debug_text(r.intervention.variant_value@),
    );
    let lines = if r.changed {
        let lines = with_delta_lines(lines, r.artifact_deltas@, r.artifact_deltas@.len() as int);
        lines
    } else {
        lines
    };
    let lines = match r.stochastic_effect {
        Some(e) => {
            let lines = lines.push(matched_trials_text(e));
            lines
        },
        None => {
            lines
        },
    };
    let lines = if r.build_failures.len() > 0 {
        let lines = lines.push(
            "    build-command failures: "@
                + decimal_of(r.build_failures@.len() as int)
                + " trial(s), exit code(s): "@
                + codes_text(r.build_failures@),
        );
        lines
    } else {
        lines
    };
    let lines = if (r.changed || r.build_failures@.len() > 0) && r.reverted_to_baseline is Some {
        let lines = lines.push(
            "    baseline reversion: "@
                + picked(r.reverted_to_baseline == Some(true), "CONFIRMED"@, "FAILED"@),
        );
        lines
    } else {
        lines
    };
    let lines = match r.error {
        Some(error) => {
            let lines = lines.push("    warning: "@ + error@);
            lines
        },
        None => {
            lines
        },
    };
    lines
}

pub fn push_experiment_head(lines: &mut Vec<String>, r: &InterventionResult)
    ensures
        final(lines).deep_view() == with_experiment_head(old(lines).deep_view(), *r),
{
    let mut text = "  ".to_owned();
    text.push_str(pad(r.intervention.variable.as_str(), 24).as_str());
    text.push_str(" ");
    text.push_str(label_result(r, "CHANGED", "NO EFFECT"));
    text.push_str("  ");
    text.push_str(quoted(r.intervention.baseline_value.as_str()).as_str());
    text.push_str(" -> ");
    text.push_str(quoted(r.intervention.variant_value.as_str()).as_str());
    push_line(lines, text);
    if r.changed {
        push_delta_lines(lines, &r.artifact_deltas);
    }
    if let Some(e) = &r.stochastic_effect {
        push_line(lines, show_matched_trials(e).as_str().to_owned());
    }
    if r.build_failures.len() > 0 {
        let mut text = "    build-command failures: ".to_owned();
        text.push_str(decimal(r.build_failures.len() as u128).as_str());
        text.push_str(" trial(s), exit code(s): ");
        text.push_str(show_codes(&r.build_failures).as_str());
        push_line(lines, text);
    }
    if (r.changed || r.build_failures.len() > 0) && r.reverted_to_baseline.is_some() {
        push_line(
            lines,
            concat(
                "    baseline reversion: ",
                pick(is_true(r.reverted_to_baseline), "CONFIRMED", "FAILED"),
            ),
        );
    }
    if let Some(error) = &r.error {
        push_line(lines, concat("    warning: ", error.as_str()));
    }
}

/// An experiment with all that was recorded of it.
pub open spec fn with_experiment(lines: Seq<Seq<char>>, r: InterventionResult) -> Seq<Seq<char>> {
    let lines = with_experiment_head(lines, r);
    let lines = with_variant_runs(lines, r.runs@, r.runs@.len() as int);
    let lines = with_reference_runs(lines, r.reference_runs@, r.reference_runs@.len() as int);
    let lines = with_variant_failures(lines, r.build_failures@, r.build_failures@.len() as int);
    let lines = match r.confirmation_run {
        Some(run) => {
            let lines = with_run_logs(lines, run);
            lines
        },
        None => {
            lines
        },
    };
    lines
}

pub fn push_experiment(lines: &mut Vec<String>, r: &InterventionResult)
    ensures
        final(lines).deep_view() == with_experiment(old(lines).deep_view(), *r),
{
    push_experiment_head(lines, r);
    push_variant_runs(lines, &r.runs);
    push_reference_runs(lines, &r.reference_runs);
    push_variant_failures(lines, &r.build_failures);
    if let Some(run) = &r.confirmation_run {
        push_run_logs(lines, run);
    }
}

pub open spec fn with_experiments(
    lines: Seq<Seq<char>>,
    items: Seq<InterventionResult>,
    n: int,
) -> Seq<Seq<char>>
    decreases n,
{
    if n <= 0 {
        lines
    } else {
        with_experiment(with_experiments(lines, items, n - 1), items[n - 1])
    }
}

pub fn push_experiments(lines: &mut Vec<String>, items: &Vec<InterventionResult>)
    ensures
        final(lines).deep_view() == with_experiments(
            old(lines).deep_view(),
            items@,
            items@.len() as int,
        ),
{
    let ghost start = lines.deep_view();
    let mut n: usize = 0;
    while n < items.len()
        invariant
            n <= items@.len(),
            lines.deep_view() == with_experiments(start, items@, n as int),
        decreases items.len() - n,
    {
        push_experiment(lines, &items[n]);
        n += 1;
    }
}

pub open spec fn with_numbered_diagnosis(
    lines: Seq<Seq<char>>,
    d: Diagnosis,
    index: usize,
) -> Seq<Seq<char>> {
    let lines = lines.push(
        "  "@
            + decimal_of(index + 1)
            + ". "@
            + d.title@
            + "  [confidence: "@
            + confidence_text(d.confidence)
            + "]"@,
    );
    let lines = lines.push(
        "     causal variable(s): "@
            + joined(d.causal_variables.deep_view(), ", "@, d.causal_variables@.len() as int),
    );
    let lines = with_prefixed(lines, d.evidence@, "     evidence: "@, d.evidence@.len() as int);
    let lines = with_prefixed(
        lines,
        d.remediation@,
        "     remediation: "@,
        d.remediation@.len() as int,
    );
    lines
}

pub fn push_numbered_diagnosis(lines: &mut Vec<String>, d: &Diagnosis, index: usize)
    ensures
        final(lines).deep_view() == with_numbered_diagnosis(old(lines).deep_view(), *d, index),
{
    let mut text = "  ".to_owned();
    text.push_str(decimal(index as u128 + 1).as_str());
    text.push_str(". ");
    text.push_str(d.title.as_str());
    text.push_str("  [confidence: ");
    text.push_str(confidence_label(&d.confidence));
    text.push_str("]");
    push_line(lines, text);
    push_line(lines, concat("     causal variable(s): ", join(&d.causal_variables, ", ").as_str()));
    push_prefixed(lines, &d.evidence, "     evidence: ");
    push_prefixed(lines, &d.remediation, "     remediation: ");
}

pub open spec fn with_numbered_diagnoses(
    lines: Seq<Seq<char>>,
    items: Seq<Diagnosis>,
    n: int,
) -> Seq<Seq<char>>
    decreases n,
{
    if n <= 0 {
        lines
    } else {
        with_numbered_diagnosis(with_numbered_diagnoses(lines, items, n - 1), items[n - 1], (n - 1) as usize)
    }
}

pub fn push_numbered_diagnoses(lines: &mut Vec<String>, items: &Vec<Diagnosis>)
    ensures
        final(lines).deep_view() == with_numbered_diagnoses(
            old(lines).deep_view(),
            items@,
            items@.len() as int,
        ),
{
    let ghost start = lines.deep_view();
    let mut n: usize = 0;
    while n < items.len()
        invariant
            n <= items@.len(),
            lines.deep_view() == with_numbered_diagnoses(start, items@, n as int),
        decreases items.len() - n,
    {
        push_numbered_diagnosis(lines, &items[n], n);
        n += 1;
    }
}

pub open spec fn dependency_file_text(d: DependencyFileRecord) -> Seq<char> {
    "  "@ + d.path@ + "  sha256="@ + d.sha256@ + "  size="@ + decimal_of(d.size_bytes as int)
}

pub fn show_dependency_file(d: &DependencyFileRecord) -> (r: String)
    ensures
        r@ == dependency_file_text(*d),
{
    let mut text = "  ".to_owned();
    text.push_str(d.path.as_str());
    text.push_str("  sha256=");
    text.push_str(d.sha256.as_str());
    text.push_str("  size=");
    text.push_str(decimal(d.size_bytes as u128).as_str());
    text
}

pub open spec fn with_dependency_files(
    lines: Seq<Seq<char>>,
    items: Seq<DependencyFileRecord>,
    n: int,
) -> Seq<Seq<char>>
    decreases n,
{
    if n <= 0 {
        lines
    } else {
        with_dependency_files(lines, items, n - 1).push(dependency_file_text(items[n - 1]))
    }
}

pub fn push_dependency_files(lines: &mut Vec<String>, items: &Vec<DependencyFileRecord>)
    ensures
        final(lines).deep_view() == with_dependency_files(
            old(lines).deep_view(),
            items@,
            items@.len() as int,
        ),
{
    let ghost start = lines.deep_view();
    let mut n: usize = 0;
    while n < items.len()
        invariant
            n <= items@.len(),
            lines.deep_view() == with_dependency_files(start, items@, n as int),
        decreases items.len() - n,
    {
        push_line(lines, show_dependency_file(&items[n]));
        n += 1;
    }
}

pub open spec fn with_source_resolution(
    lines: Seq<Seq<char>>,
    d: DependencyResolutionRecord,
) -> Seq<Seq<char>> {
    let lines = lines.push(
        "  "@
            + d.path@
            + "  ecosystem="@
            + d.ecosystem@
            + " parsed="@
            + bool_text(d.parsed)
            + " packages="@
            + decimal_of(d.package_count as int)
            + " normalized_sha256="@
            + short_or(d.normalized_sha256.deep_view(), "<unavailable>"@),
    );
    let lines = match d.error {
        Some(error) => {
            let lines = lines.push("    parser note: "@ + error@);
            lines
        },
        None => {
            lines
        },
    };
    lines
}

pub fn push_source_resolution(lines: &mut Vec<String>, d: &DependencyResolutionRecord)
    ensures
        final(lines).deep_view() == with_source_resolution(old(lines).deep_view(), *d),
{
    let mut text = "  ".to_owned();
    text.push_str(d.path.as_str());
    text.push_str("  ecosystem=");
    text.push_str(d.ecosystem.as_str());
    text.push_str(" parsed=");
    text.push_str(show_bool(d.parsed).as_str());
    text.push_str(" packages=");
    text.push_str(decimal(d.package_count as u128).as_str());
    text.push_str(" normalized_sha256=");
    text.push_str(short_hash_or(&d.normalized_sha256, "<unavailable>").as_str());
    push_line(lines, text);
    if let Some(error) = &d.error {
        push_line(lines, concat("    parser note: ", error.as_str()));
    }
}

pub open spec fn with_source_resolutions(
    lines: Seq<Seq<char>>,
    items: Seq<DependencyResolutionRecord>,
    n: int,
) -> Seq<Seq<char>>
    decreases n,
{
    if n <= 0 {
        lines
    } else {
        with_source_resolution(with_source_resolutions(lines, items, n - 1), items[n - 1])
    }
}

pub fn push_source_resolutions(lines: &mut Vec<String>, items: &Vec<DependencyResolutionRecord>)
    ensures
        final(lines).deep_view() == with_source_resolutions(
            old(lines).deep_view(),
            items@,
            items@.len() as int,
        ),
{
    let ghost start = lines.deep_view();
    let mut n: usize = 0;
    while n < items.len()
        invariant
            n <= items@.len(),
            lines.deep_view() == with_source_resolutions(start, items@, n as int),
        decreases items.len() - n,
    {
        push_source_resolution(lines, &items[n]);
        n += 1;
    }
}

pub open spec fn tree_state(dirty: Option<bool>) -> Seq<char> {
    match dirty {
        Some(true) => "dirty"@,
        Some(false) => "clean"@,
        None => "unknown"@,
    }
}

fn show_tree_state(dirty: Option<bool>) -> (r: &'static str)
    ensures
        r@ == tree_state(dirty),
{
    match dirty {
        Some(true) => "dirty",
        Some(false) => "clean",
        None => "unknown",
    }
}

pub open spec fn with_source(lines: Seq<Seq<char>>, s: SourceProvenance) -> Seq<Seq<char>> {
    let lines = match s.git_commit {
        Some(commit) => {
            let lines = lines.push("git: "@ + commit@ + " ("@ + tree_state(s.git_dirty) + ")"@);
            lines
        },
        None => {
            lines
        },
    };
    let lines = if s.dependency_files.len() > 0 {
        let lines = lines.push(
            "dependency fingerprints: "@
                + decimal_of(s.dependency_files@.len() as int)
                + " file(s)"@,
        );
        let lines = with_dependency_files(
            lines,
            s.dependency_files@,
            s.dependency_files@.len() as int,
        );
        lines
    } else {
        lines
    };
    let lines = if s.dependency_resolutions.len() > 0 {
        let lines = lines.push(
            "dependency resolution summaries: "@
                + decimal_of(s.dependency_resolutions@.len() as int),
        );
        let lines = with_source_resolutions(
            lines,
            s.dependency_resolutions@,
            s.dependency_resolutions@.len() as int,
        );
        lines
    } else {
        lines
    };
    lines
}

pub fn push_source(lines: &mut Vec<String>, s: &SourceProvenance)
    ensures
        final(lines).deep_view() == with_source(old(lines).deep_view(), *s),
{
    if let Some(commit) = &s.git_commit {
        push_line(
            lines,
            concat5("git: ", commit.as_str(), " (", show_tree_state(s.git_dirty), ")"),
        );
    }
    if s.dependency_files.len() > 0 {
        push_line(
            lines,
            concat3(
                "dependency fingerprints: ",
                decimal(s.dependency_files.len() as u128).as_str(),
                " file(s)",
            ),
        );
        push_dependency_files(lines, &s.dependency_files);
    }
    if s.dependency_resolutions.len() > 0 {
        push_line(
            lines,
            concat(
                "dependency resolution summaries: ",
                decimal(s.dependency_resolutions.len() as u128).as_str(),
            ),
        );
        push_source_resolutions(lines, &s.dependency_resolutions);
    }
}

/// The value of a variable, or that it is unset.
pub open spec fn set_value(entries: Entries, key: Seq<char>) -> Seq<char> {
    or_text(value_at(Order::Text, entries, key), "<unset>"@)
}

fn show_set_value(map: &StringMap, key: &str) -> (r: String)
    ensures
        r@ == set_value(map.deep_view(), key@),
{
    match map.get(key) {
        Some(value) => value.clone(),
        None => "<unset>".to_owned(),
    }
}

pub open spec fn with_baseline(lines: Seq<Seq<char>>, e: ControlledEnvironment) -> Seq<Seq<char>> {
    let lines = lines.push(
        "baseline: source_path="@
            + e.container_source_path@
            + " build_path="@
            + e.container_work_path@
            + " copy_order="@
            + copy_order_text(e.source_copy_order)
            + " TZ="@
            + set_value(e.environment.deep_view(), "TZ"@)
            + " locale="@
            + set_value(e.environment.deep_view(), "LC_ALL"@)
            + " hostname="@
            + or_text(e.hostname.deep_view(), "<default>"@),
    );
    let lines = lines.push(
        "baseline controls: network="@
            + e.network_mode@
            + " network_trace="@
            + bool_text(e.network_trace)
            + " file_input_trace="@
            + bool_text(e.file_input_trace)
            + " trace_parse_limit="@
            + decimal_of(e.syscall_trace_max_bytes as int)
            + " runtime_dependency_provenance="@
            + bool_text(e.runtime_dependency_provenance)
            + " image_override="@
            + or_text(e.image_override.deep_view(), "<none>"@)
            + " toolchain_bindings="@
            + decimal_of(e.toolchain_bindings.deep_view().len() as int)
            + " dependency_overrides="@
            + decimal_of(e.source_file_overrides.deep_view().len() as int),
    );
    lines
}

pub fn push_baseline(lines: &mut Vec<String>, e: &ControlledEnvironment)
    ensures
        final(lines).deep_view() == with_baseline(old(lines).deep_view(), *e),
{
    let mut text = "baseline: source_path=".to_owned();
    text.push_str(e.container_source_path.as_str());
    text.push_str(" build_path=");
    text.push_str(e.container_work_path.as_str());
    text.push_str(" copy_order=");
    text.push_str(show_copy_order(e.source_copy_order));
    text.push_str(" TZ=");
    text.push_str(show_set_value(&e.environment, "TZ").as_str());
    text.push_str(" locale=");
    text.push_str(show_set_value(&e.environment, "LC_ALL").as_str());
    text.push_str(" hostname=");
    text.push_str(value_or(&e.hostname, "<default>"));
    push_line(lines, text);
    let mut text = "baseline controls: network=".to_owned();
    text.push_str(e.network_mode.as_str());
    text.push_str(" network_trace=");
    text.push_str(show_bool(e.network_trace).as_str());
    text.push_str(" file_input_trace=");
    text.push_str(show_bool(e.file_input_trace).as_str());
    text.push_str(" trace_parse_limit=");
    text.push_str(decimal(e.syscall_trace_max_bytes as u128).as_str());
    text.push_str(" runtime_dependency_provenance=");
    text.push_str(show_bool(e.runtime_dependency_provenance).as_str());
    text.push_str(" image_override=");
    text.push_str(value_or(&e.image_override, "<none>"));
    text.push_str(" toolchain_bindings=");
    text.push_str(decimal(e.toolchain_bindings.len() as u128).as_str());
    text.push_str(" dependency_overrides=");
    text.push_str(decimal(e.source_file_overrides.len() as u128).as_str());
    push_line(lines, text);
}

/// Whether a list of variables holds one.
pub open spec fn lists_variable(variables: Seq<String>, variable: Seq<char>) -> bool {
    exists|k: int| 0 <= k < variables.len() && (#[trigger] variables[k])@ == variable
}

fn has_variable(variables: &Vec<String>, variable: &str) -> (r: bool)
    ensures
        r == lists_variable(variables@, variable@),
{
    let mut k: usize = 0;
    while k < variables.len()
        invariant
            k <= variables@.len(),
            forall|j: int| 0 <= j < k ==> (#[trigger] variables@[j])@ != variable@,
        decreases variables.len() - k,
    {
        if same(variables[k].as_str(), variable) {
            assert(variables@[k as int]@ == variable@);
            return true;
        }
        k += 1;
    }
    false
}

/// The digests that a diagnosis rests on: baseline, variant and, if the way back was recorded, what
/// it led to and whether it led back.
pub struct HashesView {
    pub baseline: Seq<char>,
    pub variant: Seq<char>,
    pub reversion: Option<(Seq<char>, bool)>,
}

/// The first changed artifact at a path, at or after `from`.
pub open spec fn changed_at(deltas: Seq<ArtifactDelta>, path: Seq<char>, from: int) -> Option<
    ArtifactDelta,
>
    decreases deltas.len() - from,
{
    if from >= deltas.len() {
        None
    } else if deltas[from].changed && is_same_path(deltas[from].logical_path@, path) {
        Some(deltas[from])
    } else {
        changed_at(deltas, path, from + 1)
    }
}

/// What the way back led to at a path.
pub open spec fn reversion_at(run: Option<BuildRun>, path: Seq<char>, reverted: Option<bool>) -> Option<
    (Seq<char>, bool),
> {
    match run {
        Some(run) => match artifact_at(run.artifacts@, path, 0) {
            Some(k) => Some((run.artifacts@[k].sha256@, reverted == Some(true))),
            None => None,
        },
        None => None,
    }
}

pub open spec fn hashes_of(
    delta: ArtifactDelta,
    run: Option<BuildRun>,
    path: Seq<char>,
    reverted: Option<bool>,
) -> HashesView {
    HashesView {
        baseline: delta.baseline_sha256@,
        variant: delta.variant_sha256@,
        reversion: reversion_at(run, path, reverted),
    }
}

/// The digests from the first experiment, at or after `from`, on one of the variables in which the
/// artifact changed.
pub open spec fn experiment_hashes(
    results: Seq<InterventionResult>,
    variables: Seq<String>,
    path: Seq<char>,
    from: int,
) -> Option<HashesView>
    decreases results.len() - from,
{
    if from >= results.len() {
        None
    } else {
        let r = results[from];
        match changed_at(r.artifact_deltas@, path, 0) {
            Some(delta) => if lists_variable(variables, r.intervention.variable@) {
                Some(hashes_of(delta, r.confirmation_run, path, r.reverted_to_baseline))
            } else {
                experiment_hashes(results, variables, path, from + 1)
            },
            None => experiment_hashes(results, variables, path, from + 1),
        }
    }
}

/// Whether a minimal combination has all of the variables.
pub open spec fn covers(minimal: Seq<String>, variables: Seq<String>) -> bool {
    forall|k: int| 0 <= k < variables.len() ==> lists_variable(minimal, (#[trigger] variables[k])@)
}

/// The digests behind a diagnosis of an artifact.
pub open spec fn diagnosed_hashes(report: CheckReport, variables: Seq<String>, path: Seq<char>) -> Option<
    HashesView,
> {
    match experiment_hashes(report.interventions@, variables, path, 0) {
        Some(found) => Some(found),
        None => match report.interaction_search {
            Some(search) => if covers(search.minimal_variables@, variables) {
                match changed_at(search.artifact_deltas@, path, 0) {
                    Some(delta) => Some(
                        hashes_of(delta, search.confirmation_run, path, search.reverted_to_baseline),
                    ),
                    None => None,
                }
            } else {
                None
            },
            None => None,
        },
    }
}

pub struct DiagnosedHashes {
    pub baseline: String,
    pub variant: String,
    pub reversion: Option<(String, bool)>,
}

pub open spec fn view_hashes(hashes: DiagnosedHashes) -> HashesView {
    HashesView {
        baseline: hashes.baseline@,
        variant: hashes.variant@,
        reversion: match hashes.reversion {
            Some(found) => Some((found.0@, found.1)),
            None => None,
        },
    }
}

pub open spec fn view_some_hashes(hashes: Option<DiagnosedHashes>) -> Option<HashesView> {
    match hashes {
        Some(found) => Some(view_hashes(found)),
        None => None,
    }
}

fn find_changed(deltas: &Vec<ArtifactDelta>, path: &str) -> (r: Option<usize>)
    ensures
        match r {
            Some(k) => k < deltas@.len() && changed_at(deltas@, path@, 0) == Some(deltas@[k as int]),
            None => changed_at(deltas@, path@, 0) is None,
        },
{
    let mut k: usize = 0;
    while k < deltas.len()
        invariant
            k <= deltas@.len(),
            changed_at(deltas@, path@, 0) == changed_at(deltas@, path@, k as int),
        decreases deltas.len() - k,
    {
        if deltas[k].changed && same_path(deltas[k].logical_path.as_str(), path) {
            return Some(k);
        }
        k += 1;
    }
    None
}

fn collect_hashes(delta: &ArtifactDelta, run: &Option<BuildRun>, path: &str, reverted: Option<bool>) -> (r:
    DiagnosedHashes)
    ensures
        view_hashes(r) == hashes_of(*delta, *run, path@, reverted),
{
    let reversion = match run {
        Some(run) => match find_artifact(&run.artifacts, path) {
            Some(k) => Some((run.artifacts[k].sha256.clone(), is_true(reverted))),
            None => None,
        },
        None => None,
    };
    DiagnosedHashes {
        baseline: delta.baseline_sha256.clone(),
        variant: delta.variant_sha256.clone(),
        reversion,
    }
}

fn has_all(minimal: &Vec<String>, variables: &Vec<String>) -> (r: bool)
    ensures
        r == covers(minimal@, variables@),
{
    let mut k: usize = 0;
    while k < variables.len()
        invariant
            k <= variables@.len(),
            forall|j: int| 0 <= j < k ==> lists_variable(minimal@, (#[trigger] variables@[j])@),
        decreases variables.len() - k,
    {
        if !has_variable(minimal, variables[k].as_str()) {
            assert(!lists_variable(minimal@, variables@[k as int]@));
            return false;
        }
        k += 1;
    }
    true
}

pub fn diagnosed_artifact_hashes(report: &CheckReport, variables: &Vec<String>, artifact: &str) -> (r:
    Option<DiagnosedHashes>)
    ensures
        view_some_hashes(r) == diagnosed_hashes(*report, variables@, artifact@),
{
    let results = &report.interventions;
    let mut n: usize = 0;
    while n < results.len()
        invariant
            *results == report.interventions,
            n <= results@.len(),
            experiment_hashes(results@, variables@, artifact@, 0) == experiment_hashes(
                results@,
                variables@,
                artifact@,
                n as int,
            ),
        decreases results.len() - n,
    {
        let result = &results[n];
        if let Some(k) = find_changed(&result.artifact_deltas, artifact) {
            if has_variable(variables, result.intervention.variable.as_str()) {
                return Some(
                    collect_hashes(
                        &result.artifact_deltas[k],
                        &result.confirmation_run,
                        artifact,
                        result.reverted_to_baseline,
                    ),
                );
            }
        }
        n += 1;
    }
    if let Some(search) = &report.interaction_search {
        if has_all(&search.minimal_variables, variables) {
            if let Some(k) = find_changed(&search.artifact_deltas, artifact) {
                return Some(
                    collect_hashes(
                        &search.artifact_deltas[k],
                        &search.confirmation_run,
                        artifact,
                        search.reverted_to_baseline,
                    ),
                );
            }
        }
    }
    None
}

/// The digests of one affected artifact.
pub open spec fn with_hashes(lines: Seq<Seq<char>>, path: Seq<char>, hashes: HashesView) -> Seq<
    Seq<char>,
> {
    lines.push("hashes for "@ + path + ":"@).push("  baseline:  "@ + short_of(hashes.baseline)).push(
        "  variant:   "@ + short_of(hashes.variant),
    ).push(
        match hashes.reversion {
            Some(found) => "  reversion: "@ + short_of(found.0) + picked(
                found.1,
                " (confirmed)"@,
                " (did not recover baseline)"@,
            ),
            None => "  reversion: <not recorded>"@,
        },
    )
}

pub open spec fn with_artifact_hashes(
    lines: Seq<Seq<char>>,
    path: String,
    report: CheckReport,
    variables: Seq<String>,
) -> Seq<Seq<char>> {
    match diagnosed_hashes(report, variables, path@) {
        Some(hashes) => with_hashes(lines, path@, hashes),
        None => lines,
    }
}

fn push_artifact_hashes(
    lines: &mut Vec<String>,
    path: &String,
    report: &CheckReport,
    variables: &Vec<String>,
)
    ensures
        final(lines).deep_view() == with_artifact_hashes(
            old(lines).deep_view(),
            *path,
            *report,
            variables@,
        ),
{
    if let Some(hashes) = diagnosed_artifact_hashes(report, variables, path.as_str()) {
        push_line(lines, concat3("hashes for ", path.as_str(), ":"));
        push_line(lines, concat("  baseline:  ", short_hash(hashes.baseline.as_str()).as_str()));
        push_line(lines, concat("  variant:   ", short_hash(hashes.variant.as_str()).as_str()));
        match &hashes.reversion {
            Some(found) => push_line(
                lines,
                concat3(
                    "  reversion: ",
                    short_hash(found.0.as_str()).as_str(),
                    pick(found.1, " (confirmed)", " (did not recover baseline)"),
                ),
            ),
            None => push_line(lines, "  reversion: <not recorded>".to_owned()),
        }
    }
}

pub open spec fn with_all_hashes(
    lines: Seq<Seq<char>>,
    items: Seq<String>,
    report: CheckReport,
    variables: Seq<String>,
    n: int,
) -> Seq<Seq<char>>
    decreases n,
{
    if n <= 0 {
        lines
    } else {
        with_artifact_hashes(with_all_hashes(lines, items, report, variables, n - 1), items[n - 1], report, variables)
    }
}

pub fn push_all_hashes(
    lines: &mut Vec<String>,
    items: &Vec<String>,
    report: &CheckReport,
    variables: &Vec<String>,
)
    ensures
        final(lines).deep_view() == with_all_hashes(
            old(lines).deep_view(),
            items@,
            *report,
            variables@,
            items@.len() as int,
        ),
{
    let ghost start = lines.deep_view();
    let mut n: usize = 0;
    while n < items.len()
        invariant
            n <= items@.len(),
            lines.deep_view() == with_all_hashes(start, items@, *report, variables@, n as int),
        decreases items.len() - n,
    {
        push_artifact_hashes(lines, &items[n], report, variables);
        n += 1;
    }
}

pub open spec fn with_titled_list(
    lines: Seq<Seq<char>>,
    title: Seq<char>,
    items: Seq<String>,
) -> Seq<Seq<char>> {
    let lines = if items.len() > 0 {
        let lines = lines.push(title);
        let lines = with_prefixed(lines, items, "  - "@, items.len() as int);
        lines
    } else {
        lines
    };
    lines
}

pub fn push_titled_list(lines: &mut Vec<String>, title: &str, items: &Vec<String>)
    ensures
        final(lines).deep_view() == with_titled_list(old(lines).deep_view(), title@, items@),
{
    if items.len() > 0 {
        push_line(lines, title.to_owned());
        push_prefixed(lines, items, "  - ");
    }
}

pub open spec fn with_summary_diagnosis(
    lines: Seq<Seq<char>>,
    d: Diagnosis,
    index: usize,
    report: CheckReport,
) -> Seq<Seq<char>> {
    let lines = lines.push(""@);
    let lines = if report.diagnoses.len() == 1 {
        let lines = lines.push("cause: "@ + d.title@);
        lines
    } else {
        let lines = lines.push("cause "@ + decimal_of(index + 1) + ": "@ + d.title@);
        lines
    };
    let lines = lines.push(
        "causal variable"@
            + picked(d.causal_variables.len() == 1, ""@, "s"@)
            + ": "@
            + joined(d.causal_variables.deep_view(), ", "@, d.causal_variables@.len() as int),
    );
    let lines = if d.affected_artifacts.len() > 0 {
        let lines = lines.push(
            "artifact"@
                + picked(d.affected_artifacts.len() == 1, ""@, "s"@)
                + ": "@
                + joined(d.affected_artifacts.deep_view(), ", "@, d.affected_artifacts@.len() as int),
        );
        lines
    } else {
        lines
    };
    let lines = lines.push("confidence: "@ + confidence_text(d.confidence));
    let lines = with_all_hashes(
        lines,
        d.affected_artifacts@,
        report,
        d.causal_variables@,
        d.affected_artifacts@.len() as int,
    );
    let lines = with_titled_list(lines, "evidence:"@, d.evidence@);
    let lines = with_titled_list(lines, "likely remediation:"@, d.remediation@);
    let lines = with_titled_list(lines, "limitations:"@, d.limitations@);
    lines
}

pub fn push_summary_diagnosis(
    lines: &mut Vec<String>,
    d: &Diagnosis,
    index: usize,
    report: &CheckReport,
)
    ensures
        final(lines).deep_view() == with_summary_diagnosis(
            old(lines).deep_view(),
            *d,
            index,
            *report,
        ),
{
    push_line(lines, "".to_owned());
    if report.diagnoses.len() == 1 {
        push_line(lines, concat("cause: ", d.title.as_str()));
    } else {
        let mut text = "cause ".to_owned();
        text.push_str(decimal(index as u128 + 1).as_str());
        text.push_str(": ");
        text.push_str(d.title.as_str());
        push_line(lines, text);
    }
    let mut text = "causal variable".to_owned();
    text.push_str(pick(d.causal_variables.len() == 1, "", "s"));
    text.push_str(": ");
    text.push_str(join(&d.causal_variables, ", ").as_str());
    push_line(lines, text);
    if d.affected_artifacts.len() > 0 {
        let mut text = "artifact".to_owned();
        text.push_str(pick(d.affected_artifacts.len() == 1, "", "s"));
        text.push_str(": ");
        text.push_str(join(&d.affected_artifacts, ", ").as_str());
        push_line(lines, text);
    }
    push_line(lines, concat("confidence: ", confidence_label(&d.confidence)));
    push_all_hashes(lines, &d.affected_artifacts, report, &d.causal_variables);
    push_titled_list(lines, "evidence:", &d.evidence);
    push_titled_list(lines, "likely remediation:", &d.remediation);
    push_titled_list(lines, "limitations:", &d.limitations);
}

pub open spec fn with_summary_diagnoses(
    lines: Seq<Seq<char>>,
    items: Seq<Diagnosis>,
    report: CheckReport,
    n: int,
) -> Seq<Seq<char>>
    decreases n,
{
    if n <= 0 {
        lines
    } else {
        with_summary_diagnosis(with_summary_diagnoses(lines, items, report, n - 1), items[n - 1], (n - 1) as usize, report)
    }
}

pub fn push_summary_diagnoses(lines: &mut Vec<String>, items: &Vec<Diagnosis>, report: &CheckReport)
    ensures
        final(lines).deep_view() == with_summary_diagnoses(
            old(lines).deep_view(),
            items@,
            *report,
            items@.len() as int,
        ),
{
    let ghost start = lines.deep_view();
    let mut n: usize = 0;
    while n < items.len()
        invariant
            n <= items@.len(),
            lines.deep_view() == with_summary_diagnoses(start, items@, *report, n as int),
        decreases items.len() - n,
    {
        push_summary_diagnosis(lines, &items[n], n, report);
        n += 1;
    }
}

pub open spec fn tested_variable_text(result: InterventionResult) -> Seq<char> {
    "  "@
        + padded_to(result.intervention.variable@, 24)
        + " "@
        + result_label(result, "EFFECT"@, "no effect"@)
        + reversion_suffix(result)
}

pub fn show_tested_variable(result: &InterventionResult) -> (r: String)
    ensures
        r@ == tested_variable_text(*result),
{
    concat5(
        "  ",
        pad(result.intervention.variable.as_str(), 24).as_str(),
        " ",
        label_result(result, "EFFECT", "no effect"),
        reversion_summary_suffix(result),
    )
}

pub open spec fn with_tested_variables(
    lines: Seq<Seq<char>>,
    items: Seq<InterventionResult>,
    n: int,
) -> Seq<Seq<char>>
    decreases n,
{
    if n <= 0 {
        lines
    } else {
        with_tested_variables(lines, items, n - 1).push(tested_variable_text(items[n - 1]))
    }
}

pub fn push_tested_variables(lines: &mut Vec<String>, items: &Vec<InterventionResult>)
    ensures
        final(lines).deep_view() == with_tested_variables(
            old(lines).deep_view(),
            items@,
            items@.len() as int,
        ),
{
    let ghost start = lines.deep_view();
    let mut n: usize = 0;
    while n < items.len()
        invariant
            n <= items@.len(),
            lines.deep_view() == with_tested_variables(start, items@, n as int),
        decreases items.len() - n,
    {
        push_line(lines, show_tested_variable(&items[n]));
        n += 1;
    }
}

pub open spec fn search_label(s: InteractionSearchResult) -> Seq<char> {
    if s.changed && s.stable_effect {
        "EFFECT"@
    } else if s.error is Some {
        "ERROR"@
    } else {
        "no promoted effect"@
    }
}

fn label_search(s: &InteractionSearchResult) -> (r: &'static str)
    ensures
        r@ == search_label(*s),
{
    if s.changed && s.stable_effect {
        "EFFECT"
    } else if s.error.is_some() {
        "ERROR"
    } else {
        "no promoted effect"
    }
}

pub open spec fn with_search(lines: Seq<Seq<char>>, s: InteractionSearchResult) -> Seq<Seq<char>> {
    let lines = if s.candidate_variables.len() > 0 {
        let lines = lines.push(
            "  interaction("@
                + joined(s.candidate_variables.deep_view(), ", "@, s.candidate_variables@.len() as int)
                + ") "@
                + search_label(s)
                + reversion_text(s.reverted_to_baseline),
        );
        lines
    } else {
        lines
    };
    lines
}

pub fn push_search(lines: &mut Vec<String>, s: &InteractionSearchResult)
    ensures
        final(lines).deep_view() == with_search(old(lines).deep_view(), *s),
{
    if s.candidate_variables.len() > 0 {
        push_line(
            lines,
            concat5(
                "  interaction(",
                join(&s.candidate_variables, ", ").as_str(),
                ") ",
                label_search(s),
                show_reversion(s.reverted_to_baseline),
            ),
        );
    }
}

/// Whether there are controls and all agree.
pub open spec fn all_stable(comparisons: Seq<ArtifactComparison>) -> bool {
    comparisons.len() > 0 && forall|k: int|
        0 <= k < comparisons.len() ==> (#[trigger] comparisons[k]).equal_across_runs
}

fn check_all_stable(comparisons: &Vec<ArtifactComparison>) -> (r: bool)
    ensures
        r == all_stable(comparisons@),
{
    let mut k: usize = 0;
    while k < comparisons.len()
        invariant
            k <= comparisons@.len(),
            forall|j: int| 0 <= j < k ==> (#[trigger] comparisons@[j]).equal_across_runs,
        decreases comparisons.len() - k,
    {
        if !comparisons[k].equal_across_runs {
            assert(!comparisons@[k as int].equal_across_runs);
            return false;
        }
        k += 1;
    }
    comparisons.len() > 0
}

pub open spec fn undiagnosed_text(status: CheckStatus) -> Seq<char> {
    match status {
        CheckStatus::Reproducible => "cause: none found within the tested intervention space"@,
        CheckStatus::UncontrolledNondeterminism =>
            "cause: not attributed; identical controlled baseline runs changed"@,
        CheckStatus::Inconclusive => "cause: inconclusive under the completed experiments"@,
        CheckStatus::NonReproducible =>
            "cause: artifact difference observed, but no diagnosis was promoted"@,
    }
}

fn show_undiagnosed(status: CheckStatus) -> (r: &'static str)
    ensures
        r@ == undiagnosed_text(status),
{
    match status {
        CheckStatus::Reproducible => "cause: none found within the tested intervention space",
        CheckStatus::UncontrolledNondeterminism =>
            "cause: not attributed; identical controlled baseline runs changed",
        CheckStatus::Inconclusive => "cause: inconclusive under the completed experiments",
        CheckStatus::NonReproducible =>
            "cause: artifact difference observed, but no diagnosis was promoted",
    }
}

/// The short account of a check.
pub open spec fn with_diagnosis_summary(
    lines: Seq<Seq<char>>,
    report: CheckReport,
) -> Seq<Seq<char>> {
    let lines = lines.push("ReproBisect diagnosis"@);
    let lines = lines.push("result: "@ + status_label(report.status));
    let lines = lines.push(
        "controls: "@
            + decimal_of(report.runs@.len() as int)
            + " run(s), "@
            + picked(all_stable(report.artifact_comparisons@), "stable"@, "not stable"@),
    );
    let lines = if report.diagnoses.len() == 0 {
        let lines = lines.push(undiagnosed_text(report.status));
        lines
    } else {
        let lines = with_summary_diagnoses(
            lines,
            report.diagnoses@,
            report,
            report.diagnoses@.len() as int,
        );
        lines
    };
    let lines = lines.push(""@);
    let lines = lines.push("tested variables:"@);
    let lines = if report.interventions.len() == 0 {
        let lines = lines.push("  (none completed)"@);
        lines
    } else {
        let lines = with_tested_variables(
            lines,
            report.interventions@,
            report.interventions@.len() as int,
        );
        lines
    };
    let lines = match report.interaction_search {
        Some(s) => {
            let lines = with_search(lines, s);
            lines
        },
        None => {
            lines
        },
    };
    let lines = with_prefixed(lines, report.notes@, "note: "@, report.notes@.len() as int);
    let lines = lines.push("details: rerun with -v for full experiment/provenance evidence"@);
    lines
}

pub fn push_diagnosis_summary(lines: &mut Vec<String>, report: &CheckReport)
    ensures
        final(lines).deep_view() == with_diagnosis_summary(old(lines).deep_view(), *report),
{
    push_line(lines, "ReproBisect diagnosis".to_owned());
    push_line(lines, concat("result: ", check_status_label(&report.status)));
    let mut text = "controls: ".to_owned();
    text.push_str(decimal(report.runs.len() as u128).as_str());
    text.push_str(" run(s), ");
    text.push_str(pick(check_all_stable(&report.artifact_comparisons), "stable", "not stable"));
    push_line(lines, text);
    if report.diagnoses.len() == 0 {
        push_line(lines, show_undiagnosed(report.status).to_owned());
    } else {
        push_summary_diagnoses(lines, &report.diagnoses, report);
    }
    push_line(lines, "".to_owned());
    push_line(lines, "tested variables:".to_owned());
    if report.interventions.len() == 0 {
        push_line(lines, "  (none completed)".to_owned());
    } else {
        push_tested_variables(lines, &report.interventions);
    }
    if let Some(s) = &report.interaction_search {
        push_search(lines, s);
    }
    push_prefixed(lines, &report.notes, "note: ");
    push_line(lines, "details: rerun with -v for full experiment/provenance evidence".to_owned());
}

pub open spec fn with_experiment_list(
    lines: Seq<Seq<char>>,
    report: CheckReport,
) -> Seq<Seq<char>> {
    let lines = if report.interventions.len() > 0 {
        let lines = lines.push(""@);
        let lines = lines.push("interventions:"@);
        let lines = with_experiments(
            lines,
            report.interventions@,
            report.interventions@.len() as int,
        );
        lines
    } else {
        lines
    };
    let lines = if report.diagnoses.len() > 0 {
        let lines = lines.push(""@);
        let lines = lines.push("diagnoses:"@);
        let lines = with_numbered_diagnoses(
            lines,
            report.diagnoses@,
            report.diagnoses@.len() as int,
        );
        lines
    } else {
        lines
    };
    lines
}

pub fn push_experiment_list(lines: &mut Vec<String>, report: &CheckReport)
    ensures
        final(lines).deep_view() == with_experiment_list(old(lines).deep_view(), *report),
{
    if report.interventions.len() > 0 {
        push_line(lines, "".to_owned());
        push_line(lines, "interventions:".to_owned());
        push_experiments(lines, &report.interventions);
    }
    if report.diagnoses.len() > 0 {
        push_line(lines, "".to_owned());
        push_line(lines, "diagnoses:".to_owned());
        push_numbered_diagnoses(lines, &report.diagnoses);
    }
}

/// All that is known of a check.
pub open spec fn with_details(lines: Seq<Seq<char>>, report: CheckReport) -> Seq<Seq<char>> {
    let lines = lines.push(""@);
    let lines = lines.push("Detailed experiment evidence"@);
    let lines = lines.push("experiment: "@ + report.experiment_id@);
    let lines = lines.push("source sha256: "@ + report.source_digest@);
    let lines = with_source(lines, report.source_provenance);
    let lines = lines.push("control runs: "@ + decimal_of(report.runs@.len() as int));
    let lines = with_baseline(lines, report.baseline_environment);
    let lines = lines.push(""@);
    let lines = with_control_runs(lines, report.runs@, report.runs@.len() as int);
    let lines = lines.push(""@);
    let lines = with_comparison_lines(
        lines,
        report.artifact_comparisons@,
        report.artifact_comparisons@.len() as int,
    );
    let lines = with_experiment_list(lines, report);
    let lines = lines.push(""@);
    let lines = lines.push("status: "@ + status_label(report.status));
    let lines = with_prefixed(lines, report.notes@, "note: "@, report.notes@.len() as int);
    lines
}

pub fn push_details(lines: &mut Vec<String>, report: &CheckReport)
    ensures
        final(lines).deep_view() == with_details(old(lines).deep_view(), *report),
{
    push_line(lines, "".to_owned());
    push_line(lines, "Detailed experiment evidence".to_owned());
    push_line(lines, concat("experiment: ", report.experiment_id.as_str()));
    push_line(lines, concat("source sha256: ", report.source_digest.as_str()));
    push_source(lines, &report.source_provenance);
    push_line(lines, concat("control runs: ", decimal(report.runs.len() as u128).as_str()));
    push_baseline(lines, &report.baseline_environment);
    push_line(lines, "".to_owned());
    push_control_runs(lines, &report.runs);
    push_line(lines, "".to_owned());
    push_comparison_lines(lines, &report.artifact_comparisons);
    push_experiment_list(lines, report);
    push_line(lines, "".to_owned());
    push_line(lines, concat("status: ", check_status_label(&report.status)));
    push_prefixed(lines, &report.notes, "note: ");
}

/// The report on a check: the short account, and all details where they are wanted.
pub open spec fn check_lines(report: CheckReport, verbose: bool) -> Seq<Seq<char>> {
    let summary = with_diagnosis_summary(Seq::empty(), report);
    if verbose {
        with_details(summary, report)
    } else {
        summary
    }
}

fn no_lines() -> (r: Vec<String>)
    ensures
        r.deep_view() == Seq::<Seq<char>>::empty(),
{
    let none: Vec<String> = Vec::new();
    assert(none.deep_view() =~= Seq::<Seq<char>>::empty());
    none
}

/// The lines of the report on a check.
pub fn text_lines(report: &CheckReport, verbose: bool) -> (r: Vec<String>)
    ensures
        r.deep_view() == check_lines(*report, verbose),
{
    let mut lines = no_lines();
    push_diagnosis_summary(&mut lines, report);
    if verbose {
        push_details(&mut lines, report);
    }
    lines
}

pub open spec fn delta_record_text(d: EnvironmentDeltaRecord) -> Seq<char> {
    "  "@ + d.variable@ + ": "@ + d.baseline_value@ + " -> "@ + d.variant_value@
}

pub fn show_delta_record(d: &EnvironmentDeltaRecord) -> (r: String)
    ensures
        r@ == delta_record_text(*d),
{
    let mut text = "  ".to_owned();
    text.push_str(d.variable.as_str());
    text.push_str(": ");
    text.push_str(d.baseline_value.as_str());
    text.push_str(" -> ");
    text.push_str(d.variant_value.as_str());
    text
}

pub open spec fn with_delta_records(
    lines: Seq<Seq<char>>,
    items: Seq<EnvironmentDeltaRecord>,
    n: int,
) -> Seq<Seq<char>>
    decreases n,
{
    if n <= 0 {
        lines
    } else {
        with_delta_records(lines, items, n - 1).push(delta_record_text(items[n - 1]))
    }
}

pub fn push_delta_records(lines: &mut Vec<String>, items: &Vec<EnvironmentDeltaRecord>)
    ensures
        final(lines).deep_view() == with_delta_records(
            old(lines).deep_view(),
            items@,
            items@.len() as int,
        ),
{
    let ghost start = lines.deep_view();
    let mut n: usize = 0;
    while n < items.len()
        invariant
            n <= items@.len(),
            lines.deep_view() == with_delta_records(start, items@, n as int),
        decreases items.len() - n,
    {
        push_line(lines, show_delta_record(&items[n]));
        n += 1;
    }
}

pub open spec fn with_run_logs_of(
    lines: Seq<Seq<char>>,
    items: Seq<BuildRun>,
    n: int,
) -> Seq<Seq<char>>
    decreases n,
{
    if n <= 0 {
        lines
    } else {
        with_run_logs(with_run_logs_of(lines, items, n - 1), items[n - 1])
    }
}

pub fn push_run_logs_of(lines: &mut Vec<String>, items: &Vec<BuildRun>)
    ensures
        final(lines).deep_view() == with_run_logs_of(
            old(lines).deep_view(),
            items@,
            items@.len() as int,
        ),
{
    let ghost start = lines.deep_view();
    let mut n: usize = 0;
    while n < items.len()
        invariant
            n <= items@.len(),
            lines.deep_view() == with_run_logs_of(start, items@, n as int),
        decreases items.len() - n,
    {
        push_run_logs(lines, &items[n]);
        n += 1;
    }
}

pub open spec fn with_failure_logs_of(
    lines: Seq<Seq<char>>,
    items: Seq<BuildFailure>,
    n: int,
) -> Seq<Seq<char>>
    decreases n,
{
    if n <= 0 {
        lines
    } else {
        with_failure_logs(with_failure_logs_of(lines, items, n - 1), items[n - 1])
    }
}

pub fn push_failure_logs_of(lines: &mut Vec<String>, items: &Vec<BuildFailure>)
    ensures
        final(lines).deep_view() == with_failure_logs_of(
            old(lines).deep_view(),
            items@,
            items@.len() as int,
        ),
{
    let ghost start = lines.deep_view();
    let mut n: usize = 0;
    while n < items.len()
        invariant
            n <= items@.len(),
            lines.deep_view() == with_failure_logs_of(start, items@, n as int),
        decreases items.len() - n,
    {
        push_failure_logs(lines, &items[n]);
        n += 1;
    }
}

pub open spec fn runner_line_text(backend: RunnerBackend, image: String, id: String) -> Seq<char> {
    "runner: "@ + runner_text(backend) + "  image="@ + image@ + " ("@ + short_of(id@) + ")"@
}

pub fn show_runner_line(backend: RunnerBackend, image: &String, id: &String) -> (r: String)
    ensures
        r@ == runner_line_text(backend, *image, *id),
{
    let mut text = "runner: ".to_owned();
    text.push_str(show_runner(backend));
    text.push_str("  image=");
    text.push_str(image.as_str());
    text.push_str(" (");
    text.push_str(short_hash(id.as_str()).as_str());
    text.push_str(")");
    text
}

pub open spec fn with_comparison_runner(
    lines: Seq<Seq<char>>,
    report: EnvironmentComparisonReport,
) -> Seq<Seq<char>> {
    let lines = if report.good_runs.len() > 0 {
        let lines = lines.push(
            runner_line_text(report.good_runs@[0].runner_backend, report.good_runs@[0].image, report.good_runs@[0].resolved_image_id),
        );
        lines
    } else if report.good_failures.len() > 0 {
        let lines = lines.push(
            runner_line_text(report.good_failures@[0].runner_backend, report.good_failures@[0].image, report.good_failures@[0].resolved_image_id),
        );
        lines
    } else {
        lines
    };
    lines
}

pub fn push_comparison_runner(lines: &mut Vec<String>, report: &EnvironmentComparisonReport)
    ensures
        final(lines).deep_view() == with_comparison_runner(old(lines).deep_view(), *report),
{
    if report.good_runs.len() > 0 {
        push_line(
            lines,
            show_runner_line(report.good_runs[0].runner_backend, &report.good_runs[0].image, &report.good_runs[0].resolved_image_id).as_str().to_owned(),
        );
    } else if report.good_failures.len() > 0 {
        push_line(
            lines,
            show_runner_line(report.good_failures[0].runner_backend, &report.good_failures[0].image, &report.good_failures[0].resolved_image_id).as_str().to_owned(),
        );
    }
}

pub open spec fn with_minimal(
    lines: Seq<Seq<char>>,
    report: EnvironmentComparisonReport,
) -> Seq<Seq<char>> {
    let lines = if report.minimal_delta.len() > 0 {
        let lines = lines.push("minimal observed bad-environment delta:"@);
        let lines = with_delta_records(
            lines,
            report.minimal_delta@,
            report.minimal_delta@.len() as int,
        );
        let lines = lines.push("tested subsets: "@ + decimal_of(report.tested_subsets as int));
        let lines = lines.push(
            "reproduction attempts: success="@
                + decimal_of(report.reproduction_runs@.len() as int)
                + " failure="@
                + decimal_of(report.reproduction_failures@.len() as int),
        );
        let lines = match report.reverted_to_good {
            Some(reverted) => {
                let lines = lines.push(
                    "good reversion recovered successful signature: "@ + bool_text(reverted),
                );
                lines
            },
            None => {
                lines
            },
        };
        lines
    } else {
        lines
    };
    lines
}

pub fn push_minimal(lines: &mut Vec<String>, report: &EnvironmentComparisonReport)
    ensures
        final(lines).deep_view() == with_minimal(old(lines).deep_view(), *report),
{
    if report.minimal_delta.len() > 0 {
        push_line(lines, "minimal observed bad-environment delta:".to_owned());
        push_delta_records(lines, &report.minimal_delta);
        push_line(
            lines,
            concat("tested subsets: ", decimal(report.tested_subsets as u128).as_str()),
        );
        let mut text = "reproduction attempts: success=".to_owned();
        text.push_str(decimal(report.reproduction_runs.len() as u128).as_str());
        text.push_str(" failure=");
        text.push_str(decimal(report.reproduction_failures.len() as u128).as_str());
        push_line(lines, text);
        if let Some(reverted) = report.reverted_to_good {
            push_line(
                lines,
                concat(
                    "good reversion recovered successful signature: ",
                    show_bool(reverted).as_str(),
                ),
            );
        }
    }
}

pub open spec fn with_comparison_logs(
    lines: Seq<Seq<char>>,
    report: EnvironmentComparisonReport,
) -> Seq<Seq<char>> {
    let lines = with_run_logs_of(lines, report.good_runs@, report.good_runs@.len() as int);
    let lines = with_failure_logs_of(
        lines,
        report.good_failures@,
        report.good_failures@.len() as int,
    );
    let lines = with_run_logs_of(lines, report.bad_runs@, report.bad_runs@.len() as int);
    let lines = with_failure_logs_of(
        lines,
        report.bad_failures@,
        report.bad_failures@.len() as int,
    );
    let lines = with_run_logs_of(
        lines,
        report.reproduction_runs@,
        report.reproduction_runs@.len() as int,
    );
    let lines = with_failure_logs_of(
        lines,
        report.reproduction_failures@,
        report.reproduction_failures@.len() as int,
    );
    let lines = match report.confirmation_run {
        Some(run) => {
            let lines = with_run_logs(lines, run);
            lines
        },
        None => {
            lines
        },
    };
    let lines = match report.confirmation_failure {
        Some(failure) => {
            let lines = with_failure_logs(lines, failure);
            lines
        },
        None => {
            lines
        },
    };
    lines
}

pub fn push_comparison_logs(lines: &mut Vec<String>, report: &EnvironmentComparisonReport)
    ensures
        final(lines).deep_view() == with_comparison_logs(old(lines).deep_view(), *report),
{
    push_run_logs_of(lines, &report.good_runs);
    push_failure_logs_of(lines, &report.good_failures);
    push_run_logs_of(lines, &report.bad_runs);
    push_failure_logs_of(lines, &report.bad_failures);
    push_run_logs_of(lines, &report.reproduction_runs);
    push_failure_logs_of(lines, &report.reproduction_failures);
    if let Some(run) = &report.confirmation_run {
        push_run_logs(lines, run);
    }
    if let Some(failure) = &report.confirmation_failure {
        push_failure_logs(lines, failure);
    }
}

pub open spec fn comparison_status(status: EnvironmentComparisonStatus) -> Seq<char> {
    match status {
        EnvironmentComparisonStatus::Equivalent => "status: ENVIRONMENTS_EQUIVALENT"@,
        EnvironmentComparisonStatus::Minimized => "status: BAD_ENVIRONMENT_DELTA_MINIMIZED"@,
        EnvironmentComparisonStatus::Inconclusive => "status: INCONCLUSIVE"@,
    }
}

fn show_comparison_status(status: EnvironmentComparisonStatus) -> (r: &'static str)
    ensures
        r@ == comparison_status(status),
{
    match status {
        EnvironmentComparisonStatus::Equivalent => "status: ENVIRONMENTS_EQUIVALENT",
        EnvironmentComparisonStatus::Minimized => "status: BAD_ENVIRONMENT_DELTA_MINIMIZED",
        EnvironmentComparisonStatus::Inconclusive => "status: INCONCLUSIVE",
    }
}

pub open spec fn with_comparison_head(
    lines: Seq<Seq<char>>,
    report: EnvironmentComparisonReport,
) -> Seq<Seq<char>> {
    let lines = lines.push("ReproBisect known-environment comparison"@);
    let lines = lines.push("experiment: "@ + report.experiment_id@);
    let lines = lines.push("source sha256: "@ + report.source_digest@);
    let lines = lines.push("good manifest sha256: "@ + report.good_manifest_sha256@);
    let lines = lines.push("bad manifest sha256: "@ + report.bad_manifest_sha256@);
    let lines = lines.push(
        "good endpoint: "@
            + endpoint_text(report.good_outcome_kind)
            + "  success="@
            + decimal_of(report.good_runs@.len() as int)
            + " failure="@
            + decimal_of(report.good_failures@.len() as int),
    );
    let lines = lines.push(
        "bad endpoint: "@
            + endpoint_text(report.bad_outcome_kind)
            + "  success="@
            + decimal_of(report.bad_runs@.len() as int)
            + " failure="@
            + decimal_of(report.bad_failures@.len() as int),
    );
    let lines = with_comparison_runner(lines, report);
    let lines = match report.bad_failure_signature {
        Some(mark) => {
            let lines = lines.push(
                "known-bad failure signature: exit="@
                    + decimal_of(mark.exit_code as int)
                    + " stdout_sha256="@
                    + short_of(mark.stdout_sha256@)
                    + " stderr_sha256="@
                    + short_of(mark.stderr_sha256@),
            );
            lines
        },
        None => {
            lines
        },
    };
    let lines = lines.push("environment delta: "@ + decimal_of(report.delta@.len() as int));
    let lines = with_delta_records(lines, report.delta@, report.delta@.len() as int);
    lines
}

pub fn push_comparison_head(lines: &mut Vec<String>, report: &EnvironmentComparisonReport)
    ensures
        final(lines).deep_view() == with_comparison_head(old(lines).deep_view(), *report),
{
    push_line(lines, "ReproBisect known-environment comparison".to_owned());
    push_line(lines, concat("experiment: ", report.experiment_id.as_str()));
    push_line(lines, concat("source sha256: ", report.source_digest.as_str()));
    push_line(lines, concat("good manifest sha256: ", report.good_manifest_sha256.as_str()));
    push_line(lines, concat("bad manifest sha256: ", report.bad_manifest_sha256.as_str()));
    let mut text = "good endpoint: ".to_owned();
    text.push_str(show_endpoint(report.good_outcome_kind));
    text.push_str("  success=");
    text.push_str(decimal(report.good_runs.len() as u128).as_str());
    text.push_str(" failure=");
    text.push_str(decimal(report.good_failures.len() as u128).as_str());
    push_line(lines, text);
    let mut text = "bad endpoint: ".to_owned();
    text.push_str(show_endpoint(report.bad_outcome_kind));
    text.push_str("  success=");
    text.push_str(decimal(report.bad_runs.len() as u128).as_str());
    text.push_str(" failure=");
    text.push_str(decimal(report.bad_failures.len() as u128).as_str());
    push_line(lines, text);
    push_comparison_runner(lines, report);
    if let Some(mark) = &report.bad_failure_signature {
        let mut text = "known-bad failure signature: exit=".to_owned();
        text.push_str(signed_decimal(mark.exit_code as i64).as_str());
        text.push_str(" stdout_sha256=");
        text.push_str(short_hash(mark.stdout_sha256.as_str()).as_str());
        text.push_str(" stderr_sha256=");
        text.push_str(short_hash(mark.stderr_sha256.as_str()).as_str());
        push_line(lines, text);
    }
    push_line(lines, concat("environment delta: ", decimal(report.delta.len() as u128).as_str()));
    push_delta_records(lines, &report.delta);
}

/// The report on a comparison of environments.
pub open spec fn with_comparison(
    lines: Seq<Seq<char>>,
    report: EnvironmentComparisonReport,
    verbose: bool,
) -> Seq<Seq<char>> {
    let lines = with_comparison_head(lines, report);
    let lines = with_minimal(lines, report);
    let lines = if verbose {
        let lines = with_comparison_logs(lines, report);
        lines
    } else {
        lines
    };
    let lines = lines.push(""@);
    let lines = lines.push(comparison_status(report.status));
    let lines = with_prefixed(lines, report.notes@, "note: "@, report.notes@.len() as int);
    lines
}

pub fn push_comparison(lines: &mut Vec<String>, report: &EnvironmentComparisonReport, verbose: bool)
    ensures
        final(lines).deep_view() == with_comparison(old(lines).deep_view(), *report, verbose),
{
    push_comparison_head(lines, report);
    push_minimal(lines, report);
    if verbose {
        push_comparison_logs(lines, report);
    }
    push_line(lines, "".to_owned());
    push_line(lines, show_comparison_status(report.status).to_owned());
    push_prefixed(lines, &report.notes, "note: ");
}

/// The lines of the report on a comparison.
pub fn compare_text_lines(report: &EnvironmentComparisonReport, verbose: bool) -> (r: Vec<String>)
    ensures
        r.deep_view() == with_comparison(Seq::empty(), *report, verbose),
{
    let mut lines = no_lines();
    push_comparison(&mut lines, report, verbose);
    lines
}

/// The first `n` settings, with a sign between each name and its value.
pub open spec fn with_settings(
    lines: Seq<Seq<char>>,
    entries: Entries,
    sign: Seq<char>,
    n: int,
) -> Seq<Seq<char>>
    decreases n,
{
    if n <= 0 {
        lines
    } else {
        with_settings(lines, entries, sign, n - 1).push(
            "       "@ + entries[n - 1].0 + sign + entries[n - 1].1,
        )
    }
}

/// The settings of a map under a title, if there are any.
pub open spec fn with_titled_settings(
    lines: Seq<Seq<char>>,
    title: Seq<char>,
    map: StringMap,
    sign: Seq<char>,
) -> Seq<Seq<char>> {
    if map.deep_view().len() > 0 {
        with_settings(
            lines.push(title),
            map.deep_view(),
            sign,
            map.deep_view().len() as int,
        )
    } else {
        lines
    }
}

fn push_titled_settings(lines: &mut Vec<String>, title: &str, map: &StringMap, sign: &str)
    ensures
        final(lines).deep_view() == with_titled_settings(
            old(lines).deep_view(),
            title@,
            *map,
            sign@,
        ),
{
    let entries = map.entries();
    let ghost all = map.deep_view();
    assert(all.len() == entries@.len());
    if entries.len() > 0 {
        push_line(lines, title.to_owned());
        let ghost start = lines.deep_view();
        let mut n: usize = 0;
        while n < entries.len()
            invariant
                entries.deep_view() == all,
                n <= entries@.len(),
                lines.deep_view() == with_settings(start, all, sign@, n as int),
            decreases entries.len() - n,
        {
            assert(all[n as int] == (entries@[n as int].0@, entries@[n as int].1@));
            let mut text = "       ".to_owned();
            text.push_str(entries[n].0.as_str());
            text.push_str(sign);
            text.push_str(entries[n].1.as_str());
            push_line(lines, text);
            n += 1;
        }
    }
}

pub open spec fn with_project_patch(lines: Seq<Seq<char>>, patch: ProjectPatch) -> Seq<Seq<char>> {
    let lines = lines.push("     project patch: "@ + patch.path@);
    let lines = lines.push(
        "     expected sha256: "@ + or_text(patch.expected_sha256.deep_view(), "<new file>"@),
    );
    let lines = lines.push(
        "     unified diff:\n"@ + marked_lines("       "@, patch.unified_diff@),
    );
    lines
}

pub fn push_project_patch(lines: &mut Vec<String>, patch: &ProjectPatch)
    ensures
        final(lines).deep_view() == with_project_patch(old(lines).deep_view(), *patch),
{
    push_line(lines, concat("     project patch: ", patch.path.as_str()));
    push_line(
        lines,
        concat("     expected sha256: ", value_or(&patch.expected_sha256, "<new file>")),
    );
    push_line(
        lines,
        concat("     unified diff:\n", mark_lines("       ", patch.unified_diff.as_str()).as_str()),
    );
}

pub open spec fn with_candidate(lines: Seq<Seq<char>>, c: FixPlan, index: usize) -> Seq<Seq<char>> {
    let lines = lines.push("  "@ + decimal_of(index + 1) + ". "@ + c.title@);
    let lines = lines.push("     id: "@ + c.id@);
    let lines = lines.push("     causal variable: "@ + c.causal_variable@);
    let lines = lines.push("     strategy: "@ + c.strategy@);
    let lines = lines.push(
        "     automatic verification: "@
            + picked(c.automatic_verification_supported, "SUPPORTED"@, "UNAVAILABLE"@),
    );
    let lines = with_titled_settings(
        lines,
        "     suggested flag appends:"@,
        c.suggested_environment_appends,
        " += "@,
    );
    let lines = with_titled_settings(
        lines,
        "     suggested environment overrides:"@,
        c.suggested_environment_overrides,
        "="@,
    );
    let lines = with_titled_settings(
        lines,
        "     suggested runner controls:"@,
        c.suggested_runner_controls,
        "="@,
    );
    let lines = if c.suggested_shell_commands.len() > 0 {
        let lines = lines.push("     suggested shell command(s):"@);
        let lines = with_prefixed(
            lines,
            c.suggested_shell_commands@,
            "       "@,
            c.suggested_shell_commands@.len() as int,
        );
        lines
    } else {
        lines
    };
    let lines = match c.project_patch {
        Some(patch) => {
            let lines = with_project_patch(lines, patch);
            lines
        },
        None => {
            lines
        },
    };
    let lines = with_prefixed(lines, c.evidence@, "     evidence: "@, c.evidence@.len() as int);
    let lines = with_prefixed(
        lines,
        c.limitations@,
        "     limitation: "@,
        c.limitations@.len() as int,
    );
    lines
}

pub fn push_candidate(lines: &mut Vec<String>, c: &FixPlan, index: usize)
    ensures
        final(lines).deep_view() == with_candidate(old(lines).deep_view(), *c, index),
{
    let mut text = "  ".to_owned();
    text.push_str(decimal(index as u128 + 1).as_str());
    text.push_str(". ");
    text.push_str(c.title.as_str());
    push_line(lines, text);
    push_line(lines, concat("     id: ", c.id.as_str()));
    push_line(lines, concat("     causal variable: ", c.causal_variable.as_str()));
    push_line(lines, concat("     strategy: ", c.strategy.as_str()));
    push_line(
        lines,
        concat(
            "     automatic verification: ",
            pick(c.automatic_verification_supported, "SUPPORTED", "UNAVAILABLE"),
        ),
    );
    push_titled_settings(
        lines,
        "     suggested flag appends:",
        &c.suggested_environment_appends,
        " += ",
    );
    push_titled_settings(
        lines,
        "     suggested environment overrides:",
        &c.suggested_environment_overrides,
        "=",
    );
    push_titled_settings(
        lines,
        "     suggested runner controls:",
        &c.suggested_runner_controls,
        "=",
    );
    if c.suggested_shell_commands.len() > 0 {
        push_line(lines, "     suggested shell command(s):".to_owned());
        push_prefixed(lines, &c.suggested_shell_commands, "       ");
    }
    if let Some(patch) = &c.project_patch {
        push_project_patch(lines, patch);
    }
    push_prefixed(lines, &c.evidence, "     evidence: ");
    push_prefixed(lines, &c.limitations, "     limitation: ");
}

pub open spec fn with_candidates(
    lines: Seq<Seq<char>>,
    items: Seq<FixPlan>,
    n: int,
) -> Seq<Seq<char>>
    decreases n,
{
    if n <= 0 {
        lines
    } else {
        with_candidate(with_candidates(lines, items, n - 1), items[n - 1], (n - 1) as usize)
    }
}

pub fn push_candidates(lines: &mut Vec<String>, items: &Vec<FixPlan>)
    ensures
        final(lines).deep_view() == with_candidates(
            old(lines).deep_view(),
            items@,
            items@.len() as int,
        ),
{
    let ghost start = lines.deep_view();
    let mut n: usize = 0;
    while n < items.len()
        invariant
            n <= items@.len(),
            lines.deep_view() == with_candidates(start, items@, n as int),
        decreases items.len() - n,
    {
        push_candidate(lines, &items[n], n);
        n += 1;
    }
}

pub open spec fn verification_status(v: FixVerification) -> Seq<char> {
    if !v.attempted {
        "NOT ATTEMPTED"@
    } else if v.verified {
        "VERIFIED"@
    } else {
        "FAILED"@
    }
}

fn show_verification_status(v: &FixVerification) -> (r: &'static str)
    ensures
        r@ == verification_status(*v),
{
    if !v.attempted {
        "NOT ATTEMPTED"
    } else if v.verified {
        "VERIFIED"
    } else {
        "FAILED"
    }
}

pub open spec fn with_verification(
    lines: Seq<Seq<char>>,
    v: FixVerification,
    verbose: bool,
) -> Seq<Seq<char>> {
    let lines = lines.push("  "@ + v.plan_id@ + ": "@ + verification_status(v));
    let lines = match v.experiment_id {
        Some(id) => {
            let lines = lines.push("    experiment: "@ + id@);
            lines
        },
        None => {
            lines
        },
    };
    let lines = with_prefixed(lines, v.evidence@, "    evidence: "@, v.evidence@.len() as int);
    let lines = match v.error {
        Some(error) => {
            let lines = lines.push("    error: "@ + error@);
            lines
        },
        None => {
            lines
        },
    };
    let lines = if verbose {
        let lines = with_run_logs_of(lines, v.baseline_runs@, v.baseline_runs@.len() as int);
        let lines = with_run_logs_of(
            lines,
            v.intervention_runs@,
            v.intervention_runs@.len() as int,
        );
        lines
    } else {
        lines
    };
    lines
}

pub fn push_verification(lines: &mut Vec<String>, v: &FixVerification, verbose: bool)
    ensures
        final(lines).deep_view() == with_verification(old(lines).deep_view(), *v, verbose),
{
    let mut text = "  ".to_owned();
    text.push_str(v.plan_id.as_str());
    text.push_str(": ");
    text.push_str(show_verification_status(v));
    push_line(lines, text);
    if let Some(id) = &v.experiment_id {
        push_line(lines, concat("    experiment: ", id.as_str()));
    }
    push_prefixed(lines, &v.evidence, "    evidence: ");
    if let Some(error) = &v.error {
        push_line(lines, concat("    error: ", error.as_str()));
    }
    if verbose {
        push_run_logs_of(lines, &v.baseline_runs);
        push_run_logs_of(lines, &v.intervention_runs);
    }
}

pub open spec fn with_verifications(
    lines: Seq<Seq<char>>,
    items: Seq<FixVerification>,
    verbose: bool,
    n: int,
) -> Seq<Seq<char>>
    decreases n,
{
    if n <= 0 {
        lines
    } else {
        with_verification(with_verifications(lines, items, verbose, n - 1), items[n - 1], verbose)
    }
}

pub fn push_verifications(lines: &mut Vec<String>, items: &Vec<FixVerification>, verbose: bool)
    ensures
        final(lines).deep_view() == with_verifications(
            old(lines).deep_view(),
            items@,
            verbose,
            items@.len() as int,
        ),
{
    let ghost start = lines.deep_view();
    let mut n: usize = 0;
    while n < items.len()
        invariant
            n <= items@.len(),
            lines.deep_view() == with_verifications(start, items@, verbose, n as int),
        decreases items.len() - n,
    {
        push_verification(lines, &items[n], verbose);
        n += 1;
    }
}

/// The report on candidates for fixes.
pub open spec fn with_fix(
    lines: Seq<Seq<char>>,
    report: FixReport,
    verbose: bool,
) -> Seq<Seq<char>> {
    let lines = lines.push("ReproBisect fix planning"@);
    let lines = lines.push("diagnosis experiment: "@ + report.diagnosis.experiment_id@);
    let lines = lines.push("diagnosis status: "@ + status_text(report.diagnosis.status));
    let lines = if report.candidates.len() == 0 {
        let lines = lines.push("\nfix candidates: none"@);
        lines
    } else {
        let lines = lines.push("\nfix candidates:"@);
        let lines = with_candidates(lines, report.candidates@, report.candidates@.len() as int);
        lines
    };
    let lines = if report.verifications.len() > 0 {
        let lines = lines.push("\nverification:"@);
        let lines = with_verifications(
            lines,
            report.verifications@,
            verbose,
            report.verifications@.len() as int,
        );
        lines
    } else {
        lines
    };
    let lines = lines.push(""@);
    let lines = with_prefixed(lines, report.notes@, "note: "@, report.notes@.len() as int);
    lines
}

pub fn push_fix(lines: &mut Vec<String>, report: &FixReport, verbose: bool)
    ensures
        final(lines).deep_view() == with_fix(old(lines).deep_view(), *report, verbose),
{
    push_line(lines, "ReproBisect fix planning".to_owned());
    push_line(lines, concat("diagnosis experiment: ", report.diagnosis.experiment_id.as_str()));
    push_line(lines, concat("diagnosis status: ", show_status(report.diagnosis.status)));
    if report.candidates.len() == 0 {
        push_line(lines, "\nfix candidates: none".to_owned());
    } else {
        push_line(lines, "\nfix candidates:".to_owned());
        push_candidates(lines, &report.candidates);
    }
    if report.verifications.len() > 0 {
        push_line(lines, "\nverification:".to_owned());
        push_verifications(lines, &report.verifications, verbose);
    }
    push_line(lines, "".to_owned());
    push_prefixed(lines, &report.notes, "note: ");
}

/// The lines of the report on candidates for fixes.
pub fn fix_text_lines(report: &FixReport, verbose: bool) -> (r: Vec<String>)
    ensures
        r.deep_view() == with_fix(Seq::empty(), *report, verbose),
{
    let mut lines = no_lines();
    push_fix(&mut lines, report, verbose);
    lines
}

} // verus!
