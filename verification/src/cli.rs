//! What the command line asks for, and what it is answered.
use vstd::prelude::*;

use crate::compat::{EvidenceCompatibilitySummary, LoadedEvidence};
use crate::config::{Config, ONE_BITS};
use crate::doctor::DoctorReport;
use crate::engine::compare::CompareOptions;
use crate::engine::control::CheckOptions;
use crate::engine::fix::{FixOptions, FixReport, FixVerification};
use crate::model::{CheckStatus, EnvironmentComparisonStatus, RunnerBackend};
use crate::numbers::{decimal, decimal_of};
use crate::ordering::{join_path, path_from};
use crate::schema::kind_label;
use crate::text::{concat, outcome, push_line};

verus! {

/// The exit code for a finding or a result that does not settle the question.
pub const EXIT_DIAGNOSTIC: i32 = 1;

/// The exit code for an error.
pub const EXIT_ERROR: i32 = 5;

#[derive(Debug, PartialEq)]
pub struct Cli {
    pub command: Command,
}

#[derive(Debug, PartialEq)]
pub enum Command {
    /// Detect the project and create an editable starter .reprobisect.toml.
    Init(InitArgs),
    /// Check project configuration and OCI runtime readiness without running a build.
    Doctor(DoctorArgs),
    /// Run controlled rebuilds plus configured one-variable causal interventions.
    Check(CheckArgs),
    /// Explicit alias for the same causal diagnosis pipeline as `check`.
    Diagnose(CheckArgs),
    /// Compare known-good and known-bad controlled environment manifests and minimize their delta.
    Compare(CompareArgs),
    /// Generate evidence-grounded fix candidates; optionally verify them experimentally.
    Fix(FixArgs),
    /// Validate and normalize persisted ReproBisect JSON evidence from supported historical schemas.
    Evidence(EvidenceArgs),
}

#[derive(Debug, PartialEq)]
pub struct InitArgs {
    pub project: String,
    pub force: bool,
    /// Build once in a temporary workspace and rank what the build made.
    pub discover_outputs: bool,
    pub runner: RunnerBackend,
}

#[derive(Debug, Clone, Copy, PartialEq, Eq, Structural)]
pub enum OutputFormat {
    Text,
    Json,
}

#[derive(Debug, PartialEq)]
pub struct DoctorArgs {
    pub project: String,
    pub format: OutputFormat,
}

#[derive(Debug, PartialEq)]
pub struct CheckArgs {
    pub project: String,
    pub format: OutputFormat,
    pub control_runs: Option<usize>,
    pub intervention_runs: Option<usize>,
    pub confirmation_runs: Option<usize>,
    pub verbose: bool,
}

#[derive(Debug, PartialEq)]
pub struct CompareArgs {
    pub project: String,
    pub good: String,
    pub bad: String,
    pub format: OutputFormat,
    pub runs: Option<usize>,
    pub subset_runs: Option<usize>,
    pub confirmation_runs: Option<usize>,
    pub verbose: bool,
}

#[derive(Debug, PartialEq)]
pub struct EvidenceArgs {
    pub input: String,
    pub format: OutputFormat,
    pub normalized_output: Option<String>,
    pub force: bool,
}

#[derive(Debug, PartialEq)]
pub struct FixArgs {
    pub project: String,
    pub format: OutputFormat,
    pub verify: bool,
    pub control_runs: Option<usize>,
    pub intervention_runs: Option<usize>,
    pub confirmation_runs: Option<usize>,
    pub verbose: bool,
}

/// What was asked for, or else what is configured.
pub open spec fn chosen(asked: Option<usize>, configured: usize) -> usize {
    match asked {
        Some(n) => n,
        None => configured,
    }
}

fn choose_count(asked: Option<usize>, configured: usize) -> (r: usize)
    ensures
        r == chosen(asked, configured),
{
    match asked {
        Some(n) => n,
        None => configured,
    }
}

pub open spec fn options_for(
    control_runs: Option<usize>,
    intervention_runs: Option<usize>,
    confirmation_runs: Option<usize>,
    config: Config,
) -> CheckOptions {
    CheckOptions {
        control_runs: chosen(control_runs, config.experiments.control_runs),
        intervention_runs: chosen(intervention_runs, config.experiments.intervention_runs),
        confirmation_runs: chosen(confirmation_runs, config.experiments.confirmation_runs),
        stochastic_runs: config.experiments.stochastic_runs,
        stochastic_alpha_bits: config.experiments.stochastic_alpha_bits,
        interaction_runs: config.experiments.interaction_runs,
        max_interaction_variables: config.experiments.max_interaction_variables,
    }
}

fn make_options(
    control_runs: Option<usize>,
    intervention_runs: Option<usize>,
    confirmation_runs: Option<usize>,
    config: &Config,
) -> (r: CheckOptions)
    ensures
        r == options_for(control_runs, intervention_runs, confirmation_runs, *config),
{
    CheckOptions {
        control_runs: choose_count(control_runs, config.experiments.control_runs),
        intervention_runs: choose_count(intervention_runs, config.experiments.intervention_runs),
        confirmation_runs: choose_count(confirmation_runs, config.experiments.confirmation_runs),
        stochastic_runs: config.experiments.stochastic_runs,
        stochastic_alpha_bits: config.experiments.stochastic_alpha_bits,
        interaction_runs: config.experiments.interaction_runs,
        max_interaction_variables: config.experiments.max_interaction_variables,
    }
}

/// What is wrong with the options of a check.
pub open spec fn check_options_problem(options: CheckOptions) -> Option<Seq<char>> {
    if !(2 <= options.control_runs <= 32) {
        Some("control_runs must be between 2 and 32"@)
    } else if !(1 <= options.intervention_runs <= 32) {
        Some("intervention_runs must be between 1 and 32"@)
    } else if options.confirmation_runs > 1 {
        Some("confirmation_runs currently supports only 0 or 1"@)
    } else if !(3 <= options.stochastic_runs <= 1024) {
        Some("stochastic_runs must be between 3 and 1024"@)
    } else if !(0 < options.stochastic_alpha_bits < ONE_BITS) {
        Some("stochastic_alpha must be strictly between 0 and 1"@)
    } else if !(2 <= options.interaction_runs <= 32) {
        Some("interaction_runs must be between 2 and 32"@)
    } else if !(2 <= options.max_interaction_variables <= 32) {
        Some("max_interaction_variables must be between 2 and 32"@)
    } else {
        None
    }
}

/// The numbers strictly between 0 and 1 are those whose bits are above 0 and below those of 1.
pub fn validate_check_options(options: &CheckOptions) -> (r: Result<(), String>)
    ensures
        outcome(r) == match check_options_problem(*options) {
            Some(message) => Err(message),
            None => Ok(()),
        },
{
    if options.control_runs < 2 || options.control_runs > 32 {
        return Err("control_runs must be between 2 and 32".to_owned());
    }
    if options.intervention_runs < 1 || options.intervention_runs > 32 {
        return Err("intervention_runs must be between 1 and 32".to_owned());
    }
    if options.confirmation_runs > 1 {
        return Err("confirmation_runs currently supports only 0 or 1".to_owned());
    }
    if options.stochastic_runs < 3 || options.stochastic_runs > 1024 {
        return Err("stochastic_runs must be between 3 and 1024".to_owned());
    }
    if options.stochastic_alpha_bits == 0 || options.stochastic_alpha_bits >= ONE_BITS {
        return Err("stochastic_alpha must be strictly between 0 and 1".to_owned());
    }
    if options.interaction_runs < 2 || options.interaction_runs > 32 {
        return Err("interaction_runs must be between 2 and 32".to_owned());
    }
    if options.max_interaction_variables < 2 || options.max_interaction_variables > 32 {
        return Err("max_interaction_variables must be between 2 and 32".to_owned());
    }
    Ok(())
}

/// The options of a check, if they are in order.
pub fn check_options(args: &CheckArgs, config: &Config) -> (r: Result<CheckOptions, String>)
    ensures
        outcome(r) == ({
            let options = options_for(
                args.control_runs,
                args.intervention_runs,
                args.confirmation_runs,
                *config,
            );
            match check_options_problem(options) {
                Some(message) => Err(message),
                None => Ok(options),
            }
        }),
{
    let options = make_options(
        args.control_runs,
        args.intervention_runs,
        args.confirmation_runs,
        config,
    );
    match validate_check_options(&options) {
        Ok(_) => Ok(options),
        Err(message) => Err(message),
    }
}

/// The options of a fix, if they are in order.
pub fn fix_options(args: &FixArgs, config: &Config) -> (r: Result<FixOptions, String>)
    ensures
        outcome(r) == ({
            let options = options_for(
                args.control_runs,
                args.intervention_runs,
                args.confirmation_runs,
                *config,
            );
            match check_options_problem(options) {
                Some(message) => Err(message),
                None => Ok(FixOptions { check: options, verify: args.verify }),
            }
        }),
{
    let check = make_options(
        args.control_runs,
        args.intervention_runs,
        args.confirmation_runs,
        config,
    );
    match validate_check_options(&check) {
        Ok(_) => Ok(FixOptions { check, verify: args.verify }),
        Err(message) => Err(message),
    }
}

/// The options of a comparison.
pub fn compare_options(args: &CompareArgs, config: &Config) -> (r: CompareOptions)
    ensures
        r.endpoint_runs == chosen(args.runs, config.experiments.comparison_runs),
        r.subset_runs == chosen(args.subset_runs, config.experiments.comparison_subset_runs),
        r.confirmation_runs == chosen(
            args.confirmation_runs,
            config.experiments.confirmation_runs,
        ),
{
    CompareOptions {
        endpoint_runs: choose_count(args.runs, config.experiments.comparison_runs),
        subset_runs: choose_count(args.subset_runs, config.experiments.comparison_subset_runs),
        confirmation_runs: choose_count(
            args.confirmation_runs,
            config.experiments.confirmation_runs,
        ),
    }
}

/// The path of a manifest: a relative one is seen from the root of the project.
pub fn manifest_path(project: &str, path: &str) -> (r: String)
    ensures
        r@ == path_from(project@, path@),
{
    join_path(project, path)
}

/// The exit code of a check: only a reproducible project is a success.
pub fn check_exit_code(status: CheckStatus) -> (r: i32)
    ensures
        r == if status is Reproducible {
            0
        } else {
            EXIT_DIAGNOSTIC
        },
{
    match status {
        CheckStatus::Reproducible => 0,
        _ => EXIT_DIAGNOSTIC,
    }
}

/// The exit code of a comparison: only equivalent environments are a success.
pub fn compare_exit_code(status: EnvironmentComparisonStatus) -> (r: i32)
    ensures
        r == if status is Equivalent {
            0
        } else {
            EXIT_DIAGNOSTIC
        },
{
    match status {
        EnvironmentComparisonStatus::Equivalent => 0,
        _ => EXIT_DIAGNOSTIC,
    }
}

/// The exit code of an inspection: only a project that is ready is a success.
pub fn doctor_exit_code(report: &DoctorReport) -> (r: i32)
    ensures
        r == if report.ready {
            0
        } else {
            EXIT_DIAGNOSTIC
        },
{
    if report.ready {
        0
    } else {
        EXIT_DIAGNOSTIC
    }
}

/// Whether some verification succeeded.
pub open spec fn some_verified(verifications: Seq<FixVerification>) -> bool {
    exists|i: int| 0 <= i < verifications.len() && (#[trigger] verifications[i]).verified
}

/// Whether a fix was found: nothing had to be fixed, or a candidate was verified, or, where none is
/// to be verified, there is a candidate.
pub open spec fn fix_succeeded(report: FixReport, verify: bool) -> bool {
    if report.diagnosis.status is Reproducible {
        true
    } else if verify {
        some_verified(report.verifications@)
    } else {
        report.candidates@.len() > 0
    }
}

fn any_verified(verifications: &Vec<FixVerification>) -> (r: bool)
    ensures
        r == some_verified(verifications@),
{
    let mut i: usize = 0;
    while i < verifications.len()
        invariant
            i <= verifications@.len(),
            forall|k: int| 0 <= k < i ==> !(#[trigger] verifications@[k]).verified,
        decreases verifications.len() - i,
    {
        if verifications[i].verified {
            return true;
        }
        i += 1;
    }
    false
}

pub fn fix_exit_code(report: &FixReport, verify: bool) -> (r: i32)
    ensures
        r == if fix_succeeded(*report, verify) {
            0
        } else {
            EXIT_DIAGNOSTIC
        },
{
    let success = if report.diagnosis.status == CheckStatus::Reproducible {
        true
    } else if verify {
        any_verified(&report.verifications)
    } else {
        report.candidates.len() > 0
    };
    if success {
        0
    } else {
        EXIT_DIAGNOSTIC
    }
}

pub open spec fn evidence_note_text(note: String) -> Seq<char> {
    "note: "@ + note@
}

pub fn show_evidence_note(note: &String) -> (r: String)
    ensures
        r@ == evidence_note_text(*note),
{
    concat("note: ", note.as_str())
}

pub open spec fn with_evidence_notes(
    lines: Seq<Seq<char>>,
    items: Seq<String>,
    n: int,
) -> Seq<Seq<char>>
    decreases n,
{
    if n <= 0 {
        lines
    } else {
        with_evidence_notes(lines, items, n - 1).push(evidence_note_text(items[n - 1]))
    }
}

pub fn push_evidence_notes(lines: &mut Vec<String>, items: &Vec<String>)
    ensures
        final(lines).deep_view() == with_evidence_notes(
            old(lines).deep_view(),
            items@,
            items@.len() as int,
        ),
{
    let ghost start = lines.deep_view();
    let mut n: usize = 0;
    while n < items.len()
        invariant
            n <= items@.len(),
            lines.deep_view() == with_evidence_notes(start, items@, n as int),
        decreases items.len() - n,
    {
        push_line(lines, show_evidence_note(&items[n]));
        n += 1;
    }
}

pub open spec fn migration_text(migrated: bool) -> Seq<char> {
    if migrated {
        "APPLIED"@
    } else {
        "NOT REQUIRED"@
    }
}

fn show_migration(migrated: bool) -> (r: &'static str)
    ensures
        r@ == migration_text(migrated),
{
    if migrated {
        "APPLIED"
    } else {
        "NOT REQUIRED"
    }
}

pub open spec fn with_evidence(
    lines: Seq<Seq<char>>,
    path: Seq<char>,
    summary: EvidenceCompatibilitySummary,
) -> Seq<Seq<char>> {
    let lines = lines.push("ReproBisect evidence compatibility check"@);
    let lines = lines.push("file: "@ + path);
    let lines = lines.push("kind: "@ + kind_label(summary.kind));
    let lines = lines.push("source schema: "@ + decimal_of(summary.source_schema_version as int));
    let lines = lines.push(
        "current schema: "@ + decimal_of(summary.normalized_schema_version as int),
    );
    let lines = lines.push("migration: "@ + migration_text(summary.migrated));
    let lines = lines.push(
        "build/run-failure records migrated: "@
            + decimal_of(summary.build_documents_migrated as int),
    );
    let lines = lines.push(
        "legacy full-log identities derived: "@
            + decimal_of(summary.derived_legacy_log_digests as int),
    );
    let lines = lines.push(
        "legacy cache summaries migrated: "@
            + decimal_of(summary.legacy_cache_summaries_migrated as int),
    );
    let lines = with_evidence_notes(lines, summary.notes@, summary.notes@.len() as int);
    lines
}

pub fn push_evidence(lines: &mut Vec<String>, path: &str, summary: &EvidenceCompatibilitySummary)
    ensures
        final(lines).deep_view() == with_evidence(old(lines).deep_view(), path@, *summary),
{
    push_line(lines, "ReproBisect evidence compatibility check".to_owned());
    push_line(lines, concat("file: ", path));
    push_line(lines, concat("kind: ", summary.kind.label()));
    push_line(
        lines,
        concat("source schema: ", decimal(summary.source_schema_version as u128).as_str()),
    );
    push_line(
        lines,
        concat("current schema: ", decimal(summary.normalized_schema_version as u128).as_str()),
    );
    push_line(lines, concat("migration: ", show_migration(summary.migrated)));
    push_line(
        lines,
        concat(
            "build/run-failure records migrated: ",
            decimal(summary.build_documents_migrated as u128).as_str(),
        ),
    );
    push_line(
        lines,
        concat(
            "legacy full-log identities derived: ",
            decimal(summary.derived_legacy_log_digests as u128).as_str(),
        ),
    );
    push_line(
        lines,
        concat(
            "legacy cache summaries migrated: ",
            decimal(summary.legacy_cache_summaries_migrated as u128).as_str(),
        ),
    );
    push_evidence_notes(lines, &summary.notes);
}

pub open spec fn normalized_to_text(path: Seq<char>) -> Seq<char> {
    "normalized evidence: "@ + path
}

pub fn show_normalized_to(path: &str) -> (r: String)
    ensures
        r@ == normalized_to_text(path@),
{
    concat("normalized evidence: ", path)
}

pub open spec fn evidence_text(
    path: Seq<char>,
    summary: EvidenceCompatibilitySummary,
    written: Option<Seq<char>>,
) -> Seq<Seq<char>> {
    let lines = with_evidence(Seq::empty(), path, summary);
    match written {
        Some(path) => lines.push(normalized_to_text(path)),
        None => lines,
    }
}

/// What is printed of evidence that was loaded.
pub fn evidence_lines(loaded: &LoadedEvidence, args: &EvidenceArgs) -> (r: Vec<String>)
    ensures
        r.deep_view() == evidence_text(
            loaded.source_path@,
            loaded.summary,
            args.normalized_output.deep_view(),
        ),
{
    let mut lines: Vec<String> = Vec::new();
    assert(lines.deep_view() =~= Seq::<Seq<char>>::empty());
    push_evidence(&mut lines, loaded.source_path.as_str(), &loaded.summary);
    match &args.normalized_output {
        Some(path) => {
            push_line(&mut lines, show_normalized_to(path.as_str()));
        },
        None => {},
    }
    lines
}

} // verus!
