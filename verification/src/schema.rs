//! The versions of the documents that evidence is kept in.
use vstd::prelude::*;

verus! {

pub const CHECK_REPORT_SCHEMA_MIN: u32 = 5;

pub const CHECK_REPORT_SCHEMA_CURRENT: u32 = 14;

pub const BUILD_EVIDENCE_SCHEMA_MIN: u32 = 1;

pub const BUILD_EVIDENCE_SCHEMA_CURRENT: u32 = 10;

pub const FIX_REPORT_SCHEMA_MIN: u32 = 2;

pub const FIX_REPORT_SCHEMA_CURRENT: u32 = 12;

pub const ENVIRONMENT_COMPARISON_SCHEMA_MIN: u32 = 1;

pub const ENVIRONMENT_COMPARISON_SCHEMA_CURRENT: u32 = 4;

/// The documents that evidence is kept in.
#[derive(Debug, Clone, Copy, PartialEq, Eq, Structural)]
pub enum EvidenceKind {
    CheckReport,
    BuildRun,
    BuildFailure,
    FixReport,
    EnvironmentComparisonReport,
}

pub open spec fn kind_label(kind: EvidenceKind) -> Seq<char> {
    match kind {
        EvidenceKind::CheckReport => "check report"@,
        EvidenceKind::BuildRun => "build run"@,
        EvidenceKind::BuildFailure => "build failure"@,
        EvidenceKind::FixReport => "fix report"@,
        EvidenceKind::EnvironmentComparisonReport => "environment comparison report"@,
    }
}

pub open spec fn oldest_version(kind: EvidenceKind) -> u32 {
    match kind {
        EvidenceKind::CheckReport => CHECK_REPORT_SCHEMA_MIN,
        EvidenceKind::BuildRun | EvidenceKind::BuildFailure => BUILD_EVIDENCE_SCHEMA_MIN,
        EvidenceKind::FixReport => FIX_REPORT_SCHEMA_MIN,
        EvidenceKind::EnvironmentComparisonReport => ENVIRONMENT_COMPARISON_SCHEMA_MIN,
    }
}

pub open spec fn newest_version(kind: EvidenceKind) -> u32 {
    match kind {
        EvidenceKind::CheckReport => CHECK_REPORT_SCHEMA_CURRENT,
        EvidenceKind::BuildRun | EvidenceKind::BuildFailure => BUILD_EVIDENCE_SCHEMA_CURRENT,
        EvidenceKind::FixReport => FIX_REPORT_SCHEMA_CURRENT,
        EvidenceKind::EnvironmentComparisonReport => ENVIRONMENT_COMPARISON_SCHEMA_CURRENT,
    }
}

impl EvidenceKind {
    pub fn label(self) -> (r: &'static str)
        ensures
            r@ == kind_label(self),
    {
        match self {
            EvidenceKind::CheckReport => "check report",
            EvidenceKind::BuildRun => "build run",
            EvidenceKind::BuildFailure => "build failure",
            EvidenceKind::FixReport => "fix report",
            EvidenceKind::EnvironmentComparisonReport => "environment comparison report",
        }
    }

    pub fn minimum_schema_version(self) -> (r: u32)
        ensures
            r == oldest_version(self),
    {
        match self {
            EvidenceKind::CheckReport => CHECK_REPORT_SCHEMA_MIN,
            EvidenceKind::BuildRun | EvidenceKind::BuildFailure => BUILD_EVIDENCE_SCHEMA_MIN,
            EvidenceKind::FixReport => FIX_REPORT_SCHEMA_MIN,
            EvidenceKind::EnvironmentComparisonReport => ENVIRONMENT_COMPARISON_SCHEMA_MIN,
        }
    }

    pub fn current_schema_version(self) -> (r: u32)
        ensures
            r == newest_version(self),
    {
        match self {
            EvidenceKind::CheckReport => CHECK_REPORT_SCHEMA_CURRENT,
            EvidenceKind::BuildRun | EvidenceKind::BuildFailure => BUILD_EVIDENCE_SCHEMA_CURRENT,
            EvidenceKind::FixReport => FIX_REPORT_SCHEMA_CURRENT,
            EvidenceKind::EnvironmentComparisonReport => ENVIRONMENT_COMPARISON_SCHEMA_CURRENT,
        }
    }
}

} // verus!
