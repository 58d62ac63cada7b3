//! Where evidence is kept.
use vstd::prelude::*;

use crate::model::{BuildFailure, BuildRun, CheckReport, EnvironmentComparisonReport};
use crate::engine::fix::FixReport;
use crate::numbers::{digits_of, padded_digits, zero_padded};
use crate::text::concat3;

verus! {

/// A number with at least four decimal digits.
pub open spec fn ordinal_text(n: nat) -> Seq<char> {
    zero_padded(digits_of(n, 10), 4)
}

pub open spec fn run_path_text(experiment: Seq<char>, ordinal: usize, run: Seq<char>) -> Seq<char> {
    ".reprobisect/runs/"@
        + experiment
        + "/run-"@
        + ordinal_text(ordinal as nat)
        + "-"@
        + run
        + ".json"@
}

pub fn show_run_path(experiment: &str, ordinal: usize, run: &str) -> (r: String)
    ensures
        r@ == run_path_text(experiment@, ordinal, run@),
{
    let mut text = ".reprobisect/runs/".to_owned();
    text.push_str(experiment);
    text.push_str("/run-");
    text.push_str(padded_digits(ordinal as u128, 10, 4).as_str());
    text.push_str("-");
    text.push_str(run);
    text.push_str(".json");
    text
}

pub open spec fn failure_path_text(
    experiment: Seq<char>,
    ordinal: usize,
    run: Seq<char>,
) -> Seq<char> {
    ".reprobisect/runs/"@
        + experiment
        + "/run-"@
        + ordinal_text(ordinal as nat)
        + "-"@
        + run
        + "-failed.json"@
}

pub fn show_failure_path(experiment: &str, ordinal: usize, run: &str) -> (r: String)
    ensures
        r@ == failure_path_text(experiment@, ordinal, run@),
{
    let mut text = ".reprobisect/runs/".to_owned();
    text.push_str(experiment);
    text.push_str("/run-");
    text.push_str(padded_digits(ordinal as u128, 10, 4).as_str());
    text.push_str("-");
    text.push_str(run);
    text.push_str("-failed.json");
    text
}

pub open spec fn comparison_path_text(experiment: Seq<char>) -> Seq<char> {
    ".reprobisect/comparisons/"@ + experiment + ".json"@
}

pub fn show_comparison_path(experiment: &str) -> (r: String)
    ensures
        r@ == comparison_path_text(experiment@),
{
    concat3(".reprobisect/comparisons/", experiment, ".json")
}

pub open spec fn report_path_text(experiment: Seq<char>) -> Seq<char> {
    ".reprobisect/experiments/"@ + experiment + ".json"@
}

pub fn show_report_path(experiment: &str) -> (r: String)
    ensures
        r@ == report_path_text(experiment@),
{
    concat3(".reprobisect/experiments/", experiment, ".json")
}

pub open spec fn fix_path_text(experiment: Seq<char>) -> Seq<char> {
    ".reprobisect/fixes/"@ + experiment + ".json"@
}

pub fn show_fix_path(experiment: &str) -> (r: String)
    ensures
        r@ == fix_path_text(experiment@),
{
    concat3(".reprobisect/fixes/", experiment, ".json")
}

/// Where the manifest of a run is kept, below the root of the project.
pub fn run_file(run: &BuildRun) -> (r: String)
    ensures
        r@ == run_path_text(run.experiment_id@, run.ordinal, run.run_id@),
{
    show_run_path(run.experiment_id.as_str(), run.ordinal, run.run_id.as_str())
}

/// Where the manifest of a failed build is kept.
pub fn failure_file(failure: &BuildFailure) -> (r: String)
    ensures
        r@ == failure_path_text(failure.experiment_id@, failure.ordinal, failure.run_id@),
{
    show_failure_path(failure.experiment_id.as_str(), failure.ordinal, failure.run_id.as_str())
}

/// Where the report of a comparison is kept.
pub fn comparison_file(report: &EnvironmentComparisonReport) -> (r: String)
    ensures
        r@ == comparison_path_text(report.experiment_id@),
{
    show_comparison_path(report.experiment_id.as_str())
}

/// Where the report of a check is kept.
pub fn report_file(report: &CheckReport) -> (r: String)
    ensures
        r@ == report_path_text(report.experiment_id@),
{
    show_report_path(report.experiment_id.as_str())
}

/// Where the report of a fix is kept.
pub fn fix_file(report: &FixReport) -> (r: String)
    ensures
        r@ == fix_path_text(report.diagnosis.experiment_id@),
{
    show_fix_path(report.diagnosis.experiment_id.as_str())
}

} // verus!
