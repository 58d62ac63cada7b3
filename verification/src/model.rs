//! What experiments are made of and what they report.
use vstd::prelude::*;

use crate::ordering::key_view;
use crate::sorting::{push_text_piece, text_piece, Keyed};
use crate::string_map::{Entries, PathMap, StringMap};

verus! {

/// The container runtime that builds run under.
#[derive(Debug, Clone, Copy, PartialEq, Eq, Structural)]
pub enum RunnerBackend {
    Docker,
    Podman,
}

impl RunnerBackend {
    pub fn executable(self) -> (r: &'static str)
        ensures
            r@ == runner_executable(self),
    {
        match self {
            RunnerBackend::Docker => "docker",
            RunnerBackend::Podman => "podman",
        }
    }

    pub fn display_name(self) -> (r: &'static str)
        ensures
            r@ == runner_name(self),
    {
        match self {
            RunnerBackend::Docker => "Docker",
            RunnerBackend::Podman => "Podman",
        }
    }
}

pub open spec fn runner_executable(backend: RunnerBackend) -> Seq<char> {
    match backend {
        RunnerBackend::Docker => "docker"@,
        RunnerBackend::Podman => "podman"@,
    }
}

pub open spec fn runner_name(backend: RunnerBackend) -> Seq<char> {
    match backend {
        RunnerBackend::Docker => "Docker"@,
        RunnerBackend::Podman => "Podman"@,
    }
}

impl Default for RunnerBackend {
    fn default() -> (r: RunnerBackend)
        ensures
            r == RunnerBackend::Docker,
    {
        RunnerBackend::Docker
    }
}

#[derive(Debug, Clone, Copy, PartialEq, Eq, Structural)]
pub enum SourceCopyOrder {
    Sorted,
    Reverse,
}

impl Default for SourceCopyOrder {
    fn default() -> (r: SourceCopyOrder)
        ensures
            r == SourceCopyOrder::Sorted,
    {
        SourceCopyOrder::Sorted
    }
}

#[derive(Debug, Clone, Copy, PartialEq, Eq, Structural)]
pub enum ArtifactType {
    Elf,
    PeCoff,
    MachO,
    Wasm,
    Zip,
    Jar,
    PythonWheel,
    Tar,
    OciImage,
    Gzip,
    Ar,
    Deb,
    Generic,
}

#[derive(Debug, Clone, Copy, PartialEq, Eq, Structural)]
pub enum CheckStatus {
    Reproducible,
    NonReproducible,
    UncontrolledNondeterminism,
    Inconclusive,
}

#[derive(Debug, Clone, Copy, PartialEq, Eq, Structural)]
pub enum InterventionKind {
    BuildImage,
    ToolchainExecutable,
    DependencyFile,
    NetworkAccess,
    SourcePath,
    BuildPath,
    SourceDateEpoch,
    SourceMtime,
    Timezone,
    Locale,
    Hostname,
    EnvironmentVariable,
    CpuCount,
    Umask,
    DirectoryOrder,
}

#[derive(Debug, Clone, Copy, PartialEq, Eq, PartialOrd, Ord, Structural)]
pub enum ArchiveMetadataField {
    MemberCount,
    MemberOrder,
    Mtime,
    Uid,
    Gid,
    Mode,
    Size,
    ContainerMtime,
}

#[derive(Debug, Clone, Copy, PartialEq, Eq, Structural)]
pub enum StochasticEffectClassification {
    Supported,
    NotSupported,
    BaselineUnstable,
}

#[derive(Debug, Clone, Copy, PartialEq, Eq, Structural)]
pub enum EnvironmentComparisonStatus {
    Equivalent,
    Minimized,
    Inconclusive,
}

#[derive(Debug, Clone, Copy, PartialEq, Eq, Structural)]
pub enum EnvironmentComparisonOutcomeKind {
    ArtifactSuccess,
    BuildFailure,
    Mixed,
}

impl Default for EnvironmentComparisonOutcomeKind {
    fn default() -> (r: EnvironmentComparisonOutcomeKind)
        ensures
            r == EnvironmentComparisonOutcomeKind::ArtifactSuccess,
    {
        EnvironmentComparisonOutcomeKind::ArtifactSuccess
    }
}

#[derive(Debug, Clone, Copy, PartialEq, Eq, Structural)]
pub enum Confidence {
    High,
    Medium,
    Low,
}

pub fn default_dependency_cache_max_files() -> (r: usize)
    ensures
        r == 2048,
{
    2048
}

pub fn default_dependency_cache_max_bytes() -> (r: u64)
    ensures
        r == 128 * 1024 * 1024,
{
    128 * 1024 * 1024
}

pub fn default_syscall_trace_max_bytes() -> (r: u64)
    ensures
        r == 32 * 1024 * 1024,
{
    32 * 1024 * 1024
}

/// The environment before anything has been pinned.
pub open spec fn default_environment() -> ControlledEnvironmentView {
    ControlledEnvironmentView {
        image_override: None,
        container_source_path: "/src"@,
        container_work_path: "/workspace"@,
        source_copy_order: SourceCopyOrder::Sorted,
        environment: Seq::empty(),
        toolchain_bindings: Seq::empty(),
        source_file_overrides: Seq::empty(),
        hostname: None,
        cpu_count: None,
        source_mtime_epoch: None,
        umask: None,
        network_mode: "default"@,
        network_trace: false,
        file_input_trace: false,
        syscall_trace_max_bytes: 33554432,
        runtime_dependency_provenance: false,
        dependency_cache_paths: Seq::empty(),
        dependency_cache_max_files: 2048,
        dependency_cache_max_bytes: 134217728,
    }
}

impl Default for ControlledEnvironment {
    fn default() -> (r: ControlledEnvironment)
        ensures
            r.deep_view() == default_environment(),
    {
        ControlledEnvironment {
            image_override: None,
            container_source_path: "/src".to_owned(),
            container_work_path: "/workspace".to_owned(),
            source_copy_order: SourceCopyOrder::Sorted,
            environment: StringMap::new(),
            toolchain_bindings: StringMap::new(),
            source_file_overrides: PathMap::new(),
            hostname: None,
            cpu_count: None,
            source_mtime_epoch: None,
            umask: None,
            network_mode: "default".to_owned(),
            network_trace: false,
            file_input_trace: false,
            syscall_trace_max_bytes: default_syscall_trace_max_bytes(),
            runtime_dependency_provenance: false,
            dependency_cache_paths: StringMap::new(),
            dependency_cache_max_files: default_dependency_cache_max_files(),
            dependency_cache_max_bytes: default_dependency_cache_max_bytes(),
        }
    }
}

#[derive(Debug, PartialEq)]
pub struct BuildSpec {
    pub image: String,
    pub command: Vec<String>,
    pub outputs: Vec<String>,
    pub environment: StringMap,
    pub working_directory: String,
    pub timeout_seconds: u64,
    pub log_capture_max_bytes: u64,
}

#[verifier::ext_equal]
pub struct BuildSpecView {
    pub image: Seq<char>,
    pub command: Seq<Seq<char>>,
    pub outputs: Seq<Seq<char>>,
    pub environment: Entries,
    pub working_directory: Seq<char>,
    pub timeout_seconds: u64,
    pub log_capture_max_bytes: u64,
}

impl DeepView for BuildSpec {
    type V = BuildSpecView;

    open spec fn deep_view(&self) -> BuildSpecView {
        BuildSpecView {
            image: self.image@,
            command: self.command.deep_view(),
            outputs: self.outputs.deep_view(),
            environment: self.environment.deep_view(),
            working_directory: self.working_directory@,
            timeout_seconds: self.timeout_seconds,
            log_capture_max_bytes: self.log_capture_max_bytes,
        }
    }
}

impl Clone for BuildSpec {
    fn clone(&self) -> (r: BuildSpec)
        ensures
            r.deep_view() == self.deep_view(),
    {
        let r = BuildSpec {
            image: self.image.clone(),
            command: self.command.clone(),
            outputs: self.outputs.clone(),
            environment: self.environment.clone(),
            working_directory: self.working_directory.clone(),
            timeout_seconds: self.timeout_seconds,
            log_capture_max_bytes: self.log_capture_max_bytes,
        };
        assert(r.command.deep_view() =~= self.command.deep_view());
        assert(r.outputs.deep_view() =~= self.outputs.deep_view());
        r
    }
}

#[derive(Debug, PartialEq)]
pub struct ControlledEnvironment {
    /// Optional build-image override used for toolchain/container interventions.
    pub image_override: Option<String>,
    pub container_source_path: String,
    pub container_work_path: String,
    pub source_copy_order: SourceCopyOrder,
    pub environment: StringMap,
    /// Explicit compiler/linker/archive-tool bindings. These are separated from
    /// ordinary environment variables so the runner can probe the executable
    /// that was actually selected inside the build container.
    pub toolchain_bindings: StringMap,
    /// Target -> variant source file substitutions applied only in the fresh
    /// workspace. Paths are project-relative and never mutate the source tree.
    pub source_file_overrides: PathMap,
    pub hostname: Option<String>,
    pub cpu_count: Option<u32>,
    pub source_mtime_epoch: Option<i64>,
    pub umask: Option<u32>,
    pub network_mode: String,
    /// Best-effort syscall tracing for network provenance. Raw traces are never
    /// persisted; only a redacted summary is retained in BuildRun evidence.
    pub network_trace: bool,
    /// Best-effort process-aware file-input/output provenance.
    pub file_input_trace: bool,
    /// Maximum raw trace bytes parsed after a run.
    pub syscall_trace_max_bytes: u64,
    /// Collect post-build dependency resolution/cache provenance. Only aggregate
    /// hashes/counts are persisted; cache paths and package coordinates are not.
    pub runtime_dependency_provenance: bool,
    /// Optional package-manager cache roots inside the build container, keyed by
    /// ecosystem label. Values are never persisted in run evidence.
    pub dependency_cache_paths: StringMap,
    /// Maximum number of cache files whose contents may be hashed per cache root.
    /// Directory traversal remains best-effort, but content hashing is bounded.
    pub dependency_cache_max_files: usize,
    /// Maximum cumulative bytes hashed per cache root.
    pub dependency_cache_max_bytes: u64,
}

#[verifier::ext_equal]
pub struct ControlledEnvironmentView {
    pub image_override: Option<Seq<char>>,
    pub container_source_path: Seq<char>,
    pub container_work_path: Seq<char>,
    pub source_copy_order: SourceCopyOrder,
    pub environment: Entries,
    pub toolchain_bindings: Entries,
    pub source_file_overrides: Entries,
    pub hostname: Option<Seq<char>>,
    pub cpu_count: Option<u32>,
    pub source_mtime_epoch: Option<i64>,
    pub umask: Option<u32>,
    pub network_mode: Seq<char>,
    pub network_trace: bool,
    pub file_input_trace: bool,
    pub syscall_trace_max_bytes: u64,
    pub runtime_dependency_provenance: bool,
    pub dependency_cache_paths: Entries,
    pub dependency_cache_max_files: usize,
    pub dependency_cache_max_bytes: u64,
}

impl DeepView for ControlledEnvironment {
    type V = ControlledEnvironmentView;

    open spec fn deep_view(&self) -> ControlledEnvironmentView {
        ControlledEnvironmentView {
            image_override: self.image_override.deep_view(),
            container_source_path: self.container_source_path@,
            container_work_path: self.container_work_path@,
            source_copy_order: self.source_copy_order,
            environment: self.environment.deep_view(),
            toolchain_bindings: self.toolchain_bindings.deep_view(),
            source_file_overrides: self.source_file_overrides.deep_view(),
            hostname: self.hostname.deep_view(),
            cpu_count: self.cpu_count,
            source_mtime_epoch: self.source_mtime_epoch,
            umask: self.umask,
            network_mode: self.network_mode@,
            network_trace: self.network_trace,
            file_input_trace: self.file_input_trace,
            syscall_trace_max_bytes: self.syscall_trace_max_bytes,
            runtime_dependency_provenance: self.runtime_dependency_provenance,
            dependency_cache_paths: self.dependency_cache_paths.deep_view(),
            dependency_cache_max_files: self.dependency_cache_max_files,
            dependency_cache_max_bytes: self.dependency_cache_max_bytes,
        }
    }
}

impl Clone for ControlledEnvironment {
    fn clone(&self) -> (r: ControlledEnvironment)
        ensures
            r.deep_view() == self.deep_view(),
    {
        ControlledEnvironment {
            image_override: self.image_override.clone(),
            container_source_path: self.container_source_path.clone(),
            container_work_path: self.container_work_path.clone(),
            source_copy_order: self.source_copy_order,
            environment: self.environment.clone(),
            toolchain_bindings: self.toolchain_bindings.clone(),
            source_file_overrides: self.source_file_overrides.clone(),
            hostname: self.hostname.clone(),
            cpu_count: self.cpu_count,
            source_mtime_epoch: self.source_mtime_epoch,
            umask: self.umask,
            network_mode: self.network_mode.clone(),
            network_trace: self.network_trace,
            file_input_trace: self.file_input_trace,
            syscall_trace_max_bytes: self.syscall_trace_max_bytes,
            runtime_dependency_provenance: self.runtime_dependency_provenance,
            dependency_cache_paths: self.dependency_cache_paths.clone(),
            dependency_cache_max_files: self.dependency_cache_max_files,
            dependency_cache_max_bytes: self.dependency_cache_max_bytes,
        }
    }
}

#[derive(Debug, PartialEq)]
pub struct EmbeddedMarker {
    pub variable: String,
    pub value: String,
}

#[verifier::ext_equal]
pub struct EmbeddedMarkerView {
    pub variable: Seq<char>,
    pub value: Seq<char>,
}

impl DeepView for EmbeddedMarker {
    type V = EmbeddedMarkerView;

    open spec fn deep_view(&self) -> EmbeddedMarkerView {
        EmbeddedMarkerView {
            variable: self.variable@,
            value: self.value@,
        }
    }
}

impl Clone for EmbeddedMarker {
    fn clone(&self) -> (r: EmbeddedMarker)
        ensures
            r.deep_view() == self.deep_view(),
    {
        EmbeddedMarker {
            variable: self.variable.clone(),
            value: self.value.clone(),
        }
    }
}

#[derive(Debug, PartialEq)]
pub struct ElfMarkerLocation {
    pub variable: String,
    pub value: String,
    pub section: String,
}

#[verifier::ext_equal]
pub struct ElfMarkerLocationView {
    pub variable: Seq<char>,
    pub value: Seq<char>,
    pub section: Seq<char>,
}

impl DeepView for ElfMarkerLocation {
    type V = ElfMarkerLocationView;

    open spec fn deep_view(&self) -> ElfMarkerLocationView {
        ElfMarkerLocationView {
            variable: self.variable@,
            value: self.value@,
            section: self.section@,
        }
    }
}

impl Clone for ElfMarkerLocation {
    fn clone(&self) -> (r: ElfMarkerLocation)
        ensures
            r.deep_view() == self.deep_view(),
    {
        ElfMarkerLocation {
            variable: self.variable.clone(),
            value: self.value.clone(),
            section: self.section.clone(),
        }
    }
}

#[derive(Debug, PartialEq)]
pub struct ElfMetadataSummary {
    pub build_id: Option<String>,
    pub debug_sections: Vec<String>,
}

#[verifier::ext_equal]
pub struct ElfMetadataSummaryView {
    pub build_id: Option<Seq<char>>,
    pub debug_sections: Seq<Seq<char>>,
}

impl DeepView for ElfMetadataSummary {
    type V = ElfMetadataSummaryView;

    open spec fn deep_view(&self) -> ElfMetadataSummaryView {
        ElfMetadataSummaryView {
            build_id: self.build_id.deep_view(),
            debug_sections: self.debug_sections.deep_view(),
        }
    }
}

impl Clone for ElfMetadataSummary {
    fn clone(&self) -> (r: ElfMetadataSummary)
        ensures
            r.deep_view() == self.deep_view(),
    {
        let r = ElfMetadataSummary {
            build_id: self.build_id.clone(),
            debug_sections: self.debug_sections.clone(),
        };
        assert(r.debug_sections.deep_view() =~= self.debug_sections.deep_view());
        r
    }
}

#[derive(Debug, PartialEq)]
pub struct ArchiveMemberMetadata {
    pub index: usize,
    pub name: String,
    pub size: u64,
    pub mtime: Option<i64>,
    pub uid: Option<u64>,
    pub gid: Option<u64>,
    pub mode: Option<u32>,
}

#[verifier::ext_equal]
pub struct ArchiveMemberMetadataView {
    pub index: usize,
    pub name: Seq<char>,
    pub size: u64,
    pub mtime: Option<i64>,
    pub uid: Option<u64>,
    pub gid: Option<u64>,
    pub mode: Option<u32>,
}

impl DeepView for ArchiveMemberMetadata {
    type V = ArchiveMemberMetadataView;

    open spec fn deep_view(&self) -> ArchiveMemberMetadataView {
        ArchiveMemberMetadataView {
            index: self.index,
            name: self.name@,
            size: self.size,
            mtime: self.mtime,
            uid: self.uid,
            gid: self.gid,
            mode: self.mode,
        }
    }
}

impl Clone for ArchiveMemberMetadata {
    fn clone(&self) -> (r: ArchiveMemberMetadata)
        ensures
            r.deep_view() == self.deep_view(),
    {
        ArchiveMemberMetadata {
            index: self.index,
            name: self.name.clone(),
            size: self.size,
            mtime: self.mtime,
            uid: self.uid,
            gid: self.gid,
            mode: self.mode,
        }
    }
}

#[derive(Debug, PartialEq)]
pub struct ArchiveMetadataSummary {
    pub format: String,
    pub member_count: usize,
    pub members: Vec<ArchiveMemberMetadata>,
    pub truncated: bool,
    pub container_mtime: Option<i64>,
}

#[verifier::ext_equal]
pub struct ArchiveMetadataSummaryView {
    pub format: Seq<char>,
    pub member_count: usize,
    pub members: Seq<ArchiveMemberMetadataView>,
    pub truncated: bool,
    pub container_mtime: Option<i64>,
}

impl DeepView for ArchiveMetadataSummary {
    type V = ArchiveMetadataSummaryView;

    open spec fn deep_view(&self) -> ArchiveMetadataSummaryView {
        ArchiveMetadataSummaryView {
            format: self.format@,
            member_count: self.member_count,
            members: self.members.deep_view(),
            truncated: self.truncated,
            container_mtime: self.container_mtime,
        }
    }
}

impl Clone for ArchiveMetadataSummary {
    fn clone(&self) -> (r: ArchiveMetadataSummary)
        ensures
            r.deep_view() == self.deep_view(),
    {
        let r = ArchiveMetadataSummary {
            format: self.format.clone(),
            member_count: self.member_count,
            members: self.members.clone(),
            truncated: self.truncated,
            container_mtime: self.container_mtime,
        };
        assert(r.members.deep_view() =~= self.members.deep_view());
        r
    }
}

#[derive(Debug, PartialEq)]
pub struct ArtifactSemanticSummary {
    pub kind: String,
    pub attributes: StringMap,
    pub truncated: bool,
}

#[verifier::ext_equal]
pub struct ArtifactSemanticSummaryView {
    pub kind: Seq<char>,
    pub attributes: Entries,
    pub truncated: bool,
}

impl DeepView for ArtifactSemanticSummary {
    type V = ArtifactSemanticSummaryView;

    open spec fn deep_view(&self) -> ArtifactSemanticSummaryView {
        ArtifactSemanticSummaryView {
            kind: self.kind@,
            attributes: self.attributes.deep_view(),
            truncated: self.truncated,
        }
    }
}

impl Clone for ArtifactSemanticSummary {
    fn clone(&self) -> (r: ArtifactSemanticSummary)
        ensures
            r.deep_view() == self.deep_view(),
    {
        ArtifactSemanticSummary {
            kind: self.kind.clone(),
            attributes: self.attributes.clone(),
            truncated: self.truncated,
        }
    }
}

#[derive(Debug, PartialEq)]
pub struct ArtifactSemanticDifference {
    pub field: String,
    pub baseline: Option<String>,
    pub variant: Option<String>,
}

#[verifier::ext_equal]
pub struct ArtifactSemanticDifferenceView {
    pub field: Seq<char>,
    pub baseline: Option<Seq<char>>,
    pub variant: Option<Seq<char>>,
}

impl DeepView for ArtifactSemanticDifference {
    type V = ArtifactSemanticDifferenceView;

    open spec fn deep_view(&self) -> ArtifactSemanticDifferenceView {
        ArtifactSemanticDifferenceView {
            field: self.field@,
            baseline: self.baseline.deep_view(),
            variant: self.variant.deep_view(),
        }
    }
}

impl Clone for ArtifactSemanticDifference {
    fn clone(&self) -> (r: ArtifactSemanticDifference)
        ensures
            r.deep_view() == self.deep_view(),
    {
        ArtifactSemanticDifference {
            field: self.field.clone(),
            baseline: self.baseline.clone(),
            variant: self.variant.clone(),
        }
    }
}

#[derive(Debug, PartialEq)]
pub struct ArtifactRecord {
    pub logical_path: String,
    pub sha256: String,
    pub size_bytes: u64,
    pub detected_type: ArtifactType,
    pub embedded_markers: Vec<EmbeddedMarker>,
    pub elf_debug_markers: Vec<EmbeddedMarker>,
    pub elf_marker_locations: Vec<ElfMarkerLocation>,
    pub elf_metadata: Option<ElfMetadataSummary>,
    pub archive_metadata: Option<ArchiveMetadataSummary>,
    pub semantic_metadata: Option<ArtifactSemanticSummary>,
}

#[verifier::ext_equal]
pub struct ArtifactRecordView {
    pub logical_path: Seq<char>,
    pub sha256: Seq<char>,
    pub size_bytes: u64,
    pub detected_type: ArtifactType,
    pub embedded_markers: Seq<EmbeddedMarkerView>,
    pub elf_debug_markers: Seq<EmbeddedMarkerView>,
    pub elf_marker_locations: Seq<ElfMarkerLocationView>,
    pub elf_metadata: Option<ElfMetadataSummaryView>,
    pub archive_metadata: Option<ArchiveMetadataSummaryView>,
    pub semantic_metadata: Option<ArtifactSemanticSummaryView>,
}

impl DeepView for ArtifactRecord {
    type V = ArtifactRecordView;

    open spec fn deep_view(&self) -> ArtifactRecordView {
        ArtifactRecordView {
            logical_path: self.logical_path@,
            sha256: self.sha256@,
            size_bytes: self.size_bytes,
            detected_type: self.detected_type,
            embedded_markers: self.embedded_markers.deep_view(),
            elf_debug_markers: self.elf_debug_markers.deep_view(),
            elf_marker_locations: self.elf_marker_locations.deep_view(),
            elf_metadata: self.elf_metadata.deep_view(),
            archive_metadata: self.archive_metadata.deep_view(),
            semantic_metadata: self.semantic_metadata.deep_view(),
        }
    }
}

impl Clone for ArtifactRecord {
    fn clone(&self) -> (r: ArtifactRecord)
        ensures
            r.deep_view() == self.deep_view(),
    {
        let r = ArtifactRecord {
            logical_path: self.logical_path.clone(),
            sha256: self.sha256.clone(),
            size_bytes: self.size_bytes,
            detected_type: self.detected_type,
            embedded_markers: self.embedded_markers.clone(),
            elf_debug_markers: self.elf_debug_markers.clone(),
            elf_marker_locations: self.elf_marker_locations.clone(),
            elf_metadata: self.elf_metadata.clone(),
            archive_metadata: self.archive_metadata.clone(),
            semantic_metadata: self.semantic_metadata.clone(),
        };
        assert(r.embedded_markers.deep_view() =~= self.embedded_markers.deep_view());
        assert(r.elf_debug_markers.deep_view() =~= self.elf_debug_markers.deep_view());
        assert(r.elf_marker_locations.deep_view() =~= self.elf_marker_locations.deep_view());
        r
    }
}

#[derive(Debug, PartialEq)]
pub struct ToolchainProbe {
    pub tool: String,
    pub version: String,
}

#[derive(Debug, PartialEq)]
pub struct ToolchainBindingProbe {
    pub variable: String,
    pub configured_value: String,
    pub resolved_path: Option<String>,
    pub version: Option<String>,
    /// Number of build-time invocations observed through ReproBisect's stable
    /// wrapper. Arguments are intentionally not recorded.
    pub invocation_count: usize,
    pub error: Option<String>,
}

#[derive(Debug, Default, PartialEq)]
pub struct ToolchainProvenance {
    pub probes: Vec<ToolchainProbe>,
    pub bindings: Vec<ToolchainBindingProbe>,
    pub error: Option<String>,
}

#[derive(Debug, PartialEq)]
pub struct SourceOverrideRecord {
    pub target: String,
    pub variant_source: String,
    pub baseline_sha256: String,
    pub variant_sha256: String,
}

#[derive(Debug, Default, PartialEq)]
pub struct NetworkTraceSummary {
    pub attempted: bool,
    pub tracer_available: bool,
    pub socket_calls: usize,
    pub connect_calls: usize,
    pub successful_connects: usize,
    pub failed_connects: usize,
    pub sendto_calls: usize,
    pub recvfrom_calls: usize,
    pub address_families: Vec<String>,
    /// Redacted endpoint classes such as public/private/loopback/unix. Exact
    /// addresses are never persisted.
    pub endpoint_scopes: Vec<(String, usize)>,
    /// Endpoint scopes for network syscalls that completed successfully. This is
    /// still coarse provenance: no exact address, port, hostname, or payload is retained.
    pub successful_endpoint_scopes: Vec<(String, usize)>,
    /// Successful non-local network events grouped only by coarse process role.
    pub successful_nonlocal_by_role: Vec<(String, usize)>,
    /// True when syscall parsing stopped at the configured byte budget.
    pub trace_truncated: bool,
    pub parsed_bytes: u64,
    pub error: Option<String>,
}

#[derive(Debug, Default, PartialEq)]
pub struct ProcessActivitySummary {
    /// Anonymous stable-within-run process key (for example p1).
    pub process: String,
    /// Anonymous parent process when the traced process was created by a traced
    /// fork/clone/vfork edge. Raw container PIDs are never persisted.
    pub parent_process: Option<String>,
    /// Number of traced parent edges between this process and the first traced
    /// ancestor retained in the provenance summary.
    pub lineage_depth: usize,
    /// Coarse executable role inferred from an ephemeral execve path.
    pub role: String,
    pub dependency_reads: usize,
    /// Successful readable mmap operations backed by a dependency descriptor.
    pub dependency_mmaps: usize,
    pub cache_reads: usize,
    /// Successful readable mmap operations backed by a dependency-cache descriptor.
    pub cache_mmaps: usize,
    pub output_writes: usize,
    /// Successful rename/renameat/renameat2 operations publishing a declared output.
    pub output_publications: usize,
    /// Output publications whose source path was previously opened for writing
    /// by the same traced process. Paths remain ephemeral and are not serialized.
    pub temp_output_publications: usize,
    /// Output publications whose source path was previously opened for writing
    /// by a traced ancestor or descendant process.
    pub lineage_temp_output_publications: usize,
    pub successful_nonlocal_network_events: usize,
}

#[derive(Debug, Default, PartialEq)]
pub struct ProcessTraceSummary {
    pub attempted: bool,
    pub tracer_available: bool,
    /// True when only the first configured byte budget of the raw trace was parsed.
    pub truncated: bool,
    pub parsed_bytes: u64,
    pub processes: Vec<ProcessActivitySummary>,
    pub same_process_dependency_output: usize,
    pub same_process_cache_output: usize,
    pub same_process_network_cache: usize,
    pub same_process_network_cache_output: usize,
    /// Output-producing descendants whose strict ancestor chain contains a
    /// dependency read/open or readable dependency-backed mmap observation.
    pub ancestor_dependency_output: usize,
    /// Output-producing descendants whose strict ancestor chain contains a
    /// dependency-cache read/open or readable cache-backed mmap observation.
    pub ancestor_cache_output: usize,
    /// Output-producing descendants whose strict ancestor chain contains a
    /// successful known non-local network event.
    pub ancestor_network_output: usize,
    /// Output-producing descendants whose strict ancestor chain cumulatively
    /// contains both successful known non-local networking and cache activity.
    pub ancestor_network_cache_output: usize,
    pub dependency_mmaps: usize,
    pub cache_mmaps: usize,
    pub output_publications: usize,
    pub temp_output_publications: usize,
    pub lineage_temp_output_publications: usize,
    pub error: Option<String>,
}

#[derive(Debug, PartialEq)]
pub struct DependencyCacheSummary {
    pub ecosystem: String,
    pub before_file_count: usize,
    pub before_total_bytes: u64,
    pub before_aggregate_sha256: Option<String>,
    pub before_truncated: bool,
    pub after_file_count: usize,
    pub after_total_bytes: u64,
    pub after_aggregate_sha256: Option<String>,
    pub after_truncated: bool,
    /// The configured hashing bounds that produced this summary. A value of 0
    /// stands in older evidence,
    /// where the historical run did not persist a bound.
    pub max_files: usize,
    pub max_bytes: u64,
    /// True only when both snapshots were complete and differed.
    pub changed_during_build: bool,
    /// True when the bounded summaries differ even if one side was truncated.
    /// This is intentionally weaker than `changed_during_build`.
    pub observed_change: bool,
    /// Whether both before/after cache snapshots fit within the configured bounds.
    pub comparison_complete: bool,
}

#[derive(Debug, Default, PartialEq)]
pub struct DependencyNetworkCorrelation {
    pub attempted: bool,
    pub network_trace_available: bool,
    pub successful_nonlocal_network_events: usize,
    pub complete_cache_mutations: usize,
    pub incomplete_cache_observations: usize,
    /// Co-occurrence within the build window only. This is not byte-level provenance.
    pub build_window_cooccurrence: bool,
}

#[derive(Debug, Default, PartialEq)]
pub struct RuntimeDependencyProvenance {
    pub attempted: bool,
    /// Dependency declaration/lockfile state after the build has completed.
    pub dependency_files: Vec<DependencyFileRecord>,
    pub dependency_resolutions: Vec<DependencyResolutionRecord>,
    /// Before/after aggregate content fingerprints for known/configured package-manager
    /// cache roots. File names and cache paths are not retained.
    pub cache_summaries: Vec<DependencyCacheSummary>,
    pub network_cache_correlation: DependencyNetworkCorrelation,
    pub error: Option<String>,
}

#[derive(Debug, PartialEq)]
pub struct DependencyFileRecord {
    pub path: String,
    pub sha256: String,
    pub size_bytes: u64,
}

#[derive(Debug, PartialEq)]
pub struct DependencyResolutionRecord {
    pub path: String,
    pub ecosystem: String,
    pub parsed: bool,
    pub package_count: usize,
    pub normalized_sha256: Option<String>,
    pub error: Option<String>,
}

#[derive(Debug, Default, PartialEq)]
pub struct SourceProvenance {
    pub git_commit: Option<String>,
    pub git_dirty: Option<bool>,
    pub dependency_files: Vec<DependencyFileRecord>,
    pub dependency_resolutions: Vec<DependencyResolutionRecord>,
}

#[derive(Debug, PartialEq)]
pub struct BuildRun {
    pub schema_version: u32,
    pub experiment_id: String,
    pub run_id: String,
    pub ordinal: usize,
    pub runner_backend: RunnerBackend,
    pub source_digest: String,
    pub image: String,
    pub resolved_image_id: String,
    pub command: Vec<String>,
    pub working_directory: String,
    pub effective_environment: StringMap,
    pub controlled_environment: ControlledEnvironment,
    pub toolchain_provenance: ToolchainProvenance,
    pub source_overrides: Vec<SourceOverrideRecord>,
    pub network_trace: NetworkTraceSummary,
    pub process_trace: ProcessTraceSummary,
    pub runtime_dependency_provenance: RuntimeDependencyProvenance,
    pub exit_code: i32,
    pub duration_ms: u128,
    pub log_capture_max_bytes: u64,
    pub stdout: String,
    pub stderr: String,
    pub stdout_sha256: String,
    pub stderr_sha256: String,
    pub stdout_bytes: u64,
    pub stderr_bytes: u64,
    pub stdout_truncated: bool,
    pub stderr_truncated: bool,
    pub artifacts: Vec<ArtifactRecord>,
}

/// A build process that started successfully but exited non-zero. Infrastructure
/// failures (configured OCI runtime unavailable, timeout, invalid mounts, etc.) remain `Err` so
/// they cannot be mistaken for evidence about the build itself.
#[derive(Debug, PartialEq)]
pub struct BuildFailure {
    pub schema_version: u32,
    pub experiment_id: String,
    pub run_id: String,
    pub ordinal: usize,
    pub runner_backend: RunnerBackend,
    pub source_digest: String,
    pub image: String,
    pub resolved_image_id: String,
    pub command: Vec<String>,
    pub working_directory: String,
    pub effective_environment: StringMap,
    pub controlled_environment: ControlledEnvironment,
    pub toolchain_provenance: ToolchainProvenance,
    pub source_overrides: Vec<SourceOverrideRecord>,
    pub network_trace: NetworkTraceSummary,
    pub process_trace: ProcessTraceSummary,
    pub runtime_dependency_provenance: RuntimeDependencyProvenance,
    pub exit_code: i32,
    pub duration_ms: u128,
    pub log_capture_max_bytes: u64,
    pub stdout: String,
    pub stderr: String,
    pub stdout_sha256: String,
    pub stderr_sha256: String,
    pub stdout_bytes: u64,
    pub stderr_bytes: u64,
    pub stdout_truncated: bool,
    pub stderr_truncated: bool,
}

#[derive(Debug, PartialEq)]
pub struct ArtifactComparison {
    pub logical_path: String,
    pub equal_across_runs: bool,
    pub hashes: Vec<String>,
}

#[verifier::ext_equal]
pub struct ArtifactComparisonView {
    pub logical_path: Seq<char>,
    pub equal_across_runs: bool,
    pub hashes: Seq<Seq<char>>,
}

impl DeepView for ArtifactComparison {
    type V = ArtifactComparisonView;

    open spec fn deep_view(&self) -> ArtifactComparisonView {
        ArtifactComparisonView {
            logical_path: self.logical_path@,
            equal_across_runs: self.equal_across_runs,
            hashes: self.hashes.deep_view(),
        }
    }
}

impl Clone for ArtifactComparison {
    fn clone(&self) -> (r: ArtifactComparison)
        ensures
            r.deep_view() == self.deep_view(),
    {
        let r = ArtifactComparison {
            logical_path: self.logical_path.clone(),
            equal_across_runs: self.equal_across_runs,
            hashes: self.hashes.clone(),
        };
        assert(r.hashes.deep_view() =~= self.hashes.deep_view());
        r
    }
}

#[derive(Debug, PartialEq)]
pub struct Intervention {
    pub id: String,
    pub kind: InterventionKind,
    pub variable: String,
    pub baseline_value: String,
    pub variant_value: String,
    pub description: String,
}

#[verifier::ext_equal]
pub struct InterventionView {
    pub id: Seq<char>,
    pub kind: InterventionKind,
    pub variable: Seq<char>,
    pub baseline_value: Seq<char>,
    pub variant_value: Seq<char>,
    pub description: Seq<char>,
}

impl DeepView for Intervention {
    type V = InterventionView;

    open spec fn deep_view(&self) -> InterventionView {
        InterventionView {
            id: self.id@,
            kind: self.kind,
            variable: self.variable@,
            baseline_value: self.baseline_value@,
            variant_value: self.variant_value@,
            description: self.description@,
        }
    }
}

impl Clone for Intervention {
    fn clone(&self) -> (r: Intervention)
        ensures
            r.deep_view() == self.deep_view(),
    {
        Intervention {
            id: self.id.clone(),
            kind: self.kind,
            variable: self.variable.clone(),
            baseline_value: self.baseline_value.clone(),
            variant_value: self.variant_value.clone(),
            description: self.description.clone(),
        }
    }
}

#[derive(Debug, PartialEq)]
pub struct ArchiveMetadataDifference {
    pub field: ArchiveMetadataField,
    pub member: Option<String>,
    pub baseline: Option<String>,
    pub variant: Option<String>,
}

#[verifier::ext_equal]
pub struct ArchiveMetadataDifferenceView {
    pub field: ArchiveMetadataField,
    pub member: Option<Seq<char>>,
    pub baseline: Option<Seq<char>>,
    pub variant: Option<Seq<char>>,
}

impl DeepView for ArchiveMetadataDifference {
    type V = ArchiveMetadataDifferenceView;

    open spec fn deep_view(&self) -> ArchiveMetadataDifferenceView {
        ArchiveMetadataDifferenceView {
            field: self.field,
            member: self.member.deep_view(),
            baseline: self.baseline.deep_view(),
            variant: self.variant.deep_view(),
        }
    }
}

impl Clone for ArchiveMetadataDifference {
    fn clone(&self) -> (r: ArchiveMetadataDifference)
        ensures
            r.deep_view() == self.deep_view(),
    {
        ArchiveMetadataDifference {
            field: self.field,
            member: self.member.clone(),
            baseline: self.baseline.clone(),
            variant: self.variant.clone(),
        }
    }
}

#[derive(Debug, PartialEq)]
pub struct ArtifactDelta {
    pub logical_path: String,
    pub baseline_sha256: String,
    pub variant_sha256: String,
    pub changed: bool,
    pub marker_evidence: Vec<EmbeddedMarker>,
    pub elf_debug_marker_evidence: Vec<EmbeddedMarker>,
    pub elf_marker_location_evidence: Vec<ElfMarkerLocation>,
    pub archive_metadata_evidence: Vec<ArchiveMetadataDifference>,
    pub semantic_evidence: Vec<ArtifactSemanticDifference>,
    pub baseline_direct_marker: bool,
    pub variant_direct_marker: bool,
    pub direct_structural_evidence: bool,
}

#[verifier::ext_equal]
pub struct ArtifactDeltaView {
    pub logical_path: Seq<char>,
    pub baseline_sha256: Seq<char>,
    pub variant_sha256: Seq<char>,
    pub changed: bool,
    pub marker_evidence: Seq<EmbeddedMarkerView>,
    pub elf_debug_marker_evidence: Seq<EmbeddedMarkerView>,
    pub elf_marker_location_evidence: Seq<ElfMarkerLocationView>,
    pub archive_metadata_evidence: Seq<ArchiveMetadataDifferenceView>,
    pub semantic_evidence: Seq<ArtifactSemanticDifferenceView>,
    pub baseline_direct_marker: bool,
    pub variant_direct_marker: bool,
    pub direct_structural_evidence: bool,
}

impl DeepView for ArtifactDelta {
    type V = ArtifactDeltaView;

    open spec fn deep_view(&self) -> ArtifactDeltaView {
        ArtifactDeltaView {
            logical_path: self.logical_path@,
            baseline_sha256: self.baseline_sha256@,
            variant_sha256: self.variant_sha256@,
            changed: self.changed,
            marker_evidence: self.marker_evidence.deep_view(),
            elf_debug_marker_evidence: self.elf_debug_marker_evidence.deep_view(),
            elf_marker_location_evidence: self.elf_marker_location_evidence.deep_view(),
            archive_metadata_evidence: self.archive_metadata_evidence.deep_view(),
            semantic_evidence: self.semantic_evidence.deep_view(),
            baseline_direct_marker: self.baseline_direct_marker,
            variant_direct_marker: self.variant_direct_marker,
            direct_structural_evidence: self.direct_structural_evidence,
        }
    }
}

impl Clone for ArtifactDelta {
    fn clone(&self) -> (r: ArtifactDelta)
        ensures
            r.deep_view() == self.deep_view(),
    {
        let r = ArtifactDelta {
            logical_path: self.logical_path.clone(),
            baseline_sha256: self.baseline_sha256.clone(),
            variant_sha256: self.variant_sha256.clone(),
            changed: self.changed,
            marker_evidence: self.marker_evidence.clone(),
            elf_debug_marker_evidence: self.elf_debug_marker_evidence.clone(),
            elf_marker_location_evidence: self.elf_marker_location_evidence.clone(),
            archive_metadata_evidence: self.archive_metadata_evidence.clone(),
            semantic_evidence: self.semantic_evidence.clone(),
            baseline_direct_marker: self.baseline_direct_marker,
            variant_direct_marker: self.variant_direct_marker,
            direct_structural_evidence: self.direct_structural_evidence,
        };
        assert(r.marker_evidence.deep_view() =~= self.marker_evidence.deep_view());
        assert(r.elf_debug_marker_evidence.deep_view() =~= self.elf_debug_marker_evidence.deep_view());
        assert(r.elf_marker_location_evidence.deep_view() =~= self.elf_marker_location_evidence.deep_view());
        assert(r.archive_metadata_evidence.deep_view() =~= self.archive_metadata_evidence.deep_view());
        assert(r.semantic_evidence.deep_view() =~= self.semantic_evidence.deep_view());
        r
    }
}

/// Statistical figures rendered as decimal text.
#[derive(Debug, PartialEq)]
pub struct StochasticFigures {
    pub baseline_change_rate: String,
    pub variant_change_rate: String,
    /// One-sided Fisher exact probability.
    pub fisher_exact_p_value: String,
    pub alpha: String,
    /// The significance level, as the bits of a double precision number.
    pub alpha_bits: u64,
}

#[verifier::ext_equal]
pub struct StochasticFiguresView {
    pub baseline_change_rate: Seq<char>,
    pub variant_change_rate: Seq<char>,
    pub fisher_exact_p_value: Seq<char>,
    pub alpha: Seq<char>,
    pub alpha_bits: u64,
}

impl DeepView for StochasticFigures {
    type V = StochasticFiguresView;

    open spec fn deep_view(&self) -> StochasticFiguresView {
        StochasticFiguresView {
            baseline_change_rate: self.baseline_change_rate@,
            variant_change_rate: self.variant_change_rate@,
            fisher_exact_p_value: self.fisher_exact_p_value@,
            alpha: self.alpha@,
            alpha_bits: self.alpha_bits,
        }
    }
}

impl Clone for StochasticFigures {
    fn clone(&self) -> (r: StochasticFigures)
        ensures
            r.deep_view() == self.deep_view(),
    {
        StochasticFigures {
            baseline_change_rate: self.baseline_change_rate.clone(),
            variant_change_rate: self.variant_change_rate.clone(),
            fisher_exact_p_value: self.fisher_exact_p_value.clone(),
            alpha: self.alpha.clone(),
            alpha_bits: self.alpha_bits,
        }
    }
}

#[derive(Debug, PartialEq)]
pub struct StochasticEffectEvidence {
    pub baseline_trials: usize,
    pub variant_trials: usize,
    pub baseline_changed_trials: usize,
    pub variant_changed_trials: usize,
    /// The rates, the p-value and the significance level, as reports print them.
    pub figures: StochasticFigures,
    pub classification: StochasticEffectClassification,
}

#[derive(Debug, PartialEq)]
pub struct InterventionResult {
    pub intervention: Intervention,
    pub runs: Vec<BuildRun>,
    /// Matched baseline trials used by stochastic interventions. Empty for
    /// deterministic interventions.
    pub reference_runs: Vec<BuildRun>,
    pub build_failures: Vec<BuildFailure>,
    pub artifact_deltas: Vec<ArtifactDelta>,
    pub changed: bool,
    pub variant_stable: Option<bool>,
    pub distinct_variant_outcomes: usize,
    pub stochastic_effect: Option<StochasticEffectEvidence>,
    pub reverted_to_baseline: Option<bool>,
    pub confirmation_run: Option<BuildRun>,
    pub error: Option<String>,
}

#[derive(Debug, PartialEq)]
pub struct InteractionSearchResult {
    pub candidate_variables: Vec<String>,
    pub minimal_variables: Vec<String>,
    pub tested_subsets: usize,
    pub runs: Vec<BuildRun>,
    pub artifact_deltas: Vec<ArtifactDelta>,
    pub changed: bool,
    pub stable_effect: bool,
    pub reverted_to_baseline: Option<bool>,
    pub confirmation_run: Option<BuildRun>,
    pub error: Option<String>,
}

#[derive(Debug, PartialEq)]
pub struct EnvironmentDeltaRecord {
    pub variable: String,
    pub baseline_value: String,
    pub variant_value: String,
}

#[verifier::ext_equal]
pub struct EnvironmentDeltaRecordView {
    pub variable: Seq<char>,
    pub baseline_value: Seq<char>,
    pub variant_value: Seq<char>,
}

impl DeepView for EnvironmentDeltaRecord {
    type V = EnvironmentDeltaRecordView;

    open spec fn deep_view(&self) -> EnvironmentDeltaRecordView {
        EnvironmentDeltaRecordView {
            variable: self.variable@,
            baseline_value: self.baseline_value@,
            variant_value: self.variant_value@,
        }
    }
}

impl Clone for EnvironmentDeltaRecord {
    fn clone(&self) -> (r: EnvironmentDeltaRecord)
        ensures
            r.deep_view() == self.deep_view(),
    {
        EnvironmentDeltaRecord {
            variable: self.variable.clone(),
            baseline_value: self.baseline_value.clone(),
            variant_value: self.variant_value.clone(),
        }
    }
}

#[derive(Debug, PartialEq)]
pub struct BuildFailureSignature {
    pub exit_code: i32,
    pub stdout_sha256: String,
    pub stderr_sha256: String,
}

#[verifier::ext_equal]
pub struct BuildFailureSignatureView {
    pub exit_code: i32,
    pub stdout_sha256: Seq<char>,
    pub stderr_sha256: Seq<char>,
}

impl DeepView for BuildFailureSignature {
    type V = BuildFailureSignatureView;

    open spec fn deep_view(&self) -> BuildFailureSignatureView {
        BuildFailureSignatureView {
            exit_code: self.exit_code,
            stdout_sha256: self.stdout_sha256@,
            stderr_sha256: self.stderr_sha256@,
        }
    }
}

impl Clone for BuildFailureSignature {
    fn clone(&self) -> (r: BuildFailureSignature)
        ensures
            r.deep_view() == self.deep_view(),
    {
        BuildFailureSignature {
            exit_code: self.exit_code,
            stdout_sha256: self.stdout_sha256.clone(),
            stderr_sha256: self.stderr_sha256.clone(),
        }
    }
}

#[derive(Debug, PartialEq)]
pub struct EnvironmentComparisonReport {
    pub schema_version: u32,
    pub experiment_id: String,
    pub status: EnvironmentComparisonStatus,
    pub source_digest: String,
    pub source_provenance: SourceProvenance,
    pub good_manifest_sha256: String,
    pub bad_manifest_sha256: String,
    pub good_outcome_kind: EnvironmentComparisonOutcomeKind,
    pub bad_outcome_kind: EnvironmentComparisonOutcomeKind,
    pub good_runs: Vec<BuildRun>,
    pub good_failures: Vec<BuildFailure>,
    pub bad_runs: Vec<BuildRun>,
    pub bad_failures: Vec<BuildFailure>,
    pub bad_failure_signature: Option<BuildFailureSignature>,
    pub artifact_deltas: Vec<ArtifactDelta>,
    pub delta: Vec<EnvironmentDeltaRecord>,
    pub minimal_delta: Vec<EnvironmentDeltaRecord>,
    pub tested_subsets: usize,
    pub reproduction_runs: Vec<BuildRun>,
    pub reproduction_failures: Vec<BuildFailure>,
    pub reverted_to_good: Option<bool>,
    pub confirmation_run: Option<BuildRun>,
    pub confirmation_failure: Option<BuildFailure>,
    pub notes: Vec<String>,
}

#[derive(Debug, PartialEq)]
pub struct Diagnosis {
    pub title: String,
    pub causal_variables: Vec<String>,
    pub affected_artifacts: Vec<String>,
    pub evidence: Vec<String>,
    pub confidence: Confidence,
    pub remediation: Vec<String>,
    pub limitations: Vec<String>,
}

#[verifier::ext_equal]
pub struct DiagnosisView {
    pub title: Seq<char>,
    pub causal_variables: Seq<Seq<char>>,
    pub affected_artifacts: Seq<Seq<char>>,
    pub evidence: Seq<Seq<char>>,
    pub confidence: Confidence,
    pub remediation: Seq<Seq<char>>,
    pub limitations: Seq<Seq<char>>,
}

impl DeepView for Diagnosis {
    type V = DiagnosisView;

    open spec fn deep_view(&self) -> DiagnosisView {
        DiagnosisView {
            title: self.title@,
            causal_variables: self.causal_variables.deep_view(),
            affected_artifacts: self.affected_artifacts.deep_view(),
            evidence: self.evidence.deep_view(),
            confidence: self.confidence,
            remediation: self.remediation.deep_view(),
            limitations: self.limitations.deep_view(),
        }
    }
}

impl Clone for Diagnosis {
    fn clone(&self) -> (r: Diagnosis)
        ensures
            r.deep_view() == self.deep_view(),
    {
        let r = Diagnosis {
            title: self.title.clone(),
            causal_variables: self.causal_variables.clone(),
            affected_artifacts: self.affected_artifacts.clone(),
            evidence: self.evidence.clone(),
            confidence: self.confidence,
            remediation: self.remediation.clone(),
            limitations: self.limitations.clone(),
        };
        assert(r.causal_variables.deep_view() =~= self.causal_variables.deep_view());
        assert(r.affected_artifacts.deep_view() =~= self.affected_artifacts.deep_view());
        assert(r.evidence.deep_view() =~= self.evidence.deep_view());
        assert(r.remediation.deep_view() =~= self.remediation.deep_view());
        assert(r.limitations.deep_view() =~= self.limitations.deep_view());
        r
    }
}

#[derive(Debug, PartialEq)]
pub struct CheckReport {
    pub schema_version: u32,
    pub experiment_id: String,
    pub status: CheckStatus,
    pub source_digest: String,
    pub source_provenance: SourceProvenance,
    pub baseline_environment: ControlledEnvironment,
    pub runs: Vec<BuildRun>,
    pub artifact_comparisons: Vec<ArtifactComparison>,
    pub interventions: Vec<InterventionResult>,
    pub interaction_search: Option<InteractionSearchResult>,
    pub diagnoses: Vec<Diagnosis>,
    pub notes: Vec<String>,
}

impl Keyed for EmbeddedMarker {
    open spec fn sort_key(v: EmbeddedMarkerView) -> Seq<int> {
        text_piece(v.variable) + text_piece(v.value)
    }

    fn key_numbers(&self) -> (r: Vec<u32>) {
        let mut key: Vec<u32> = Vec::new();
        push_text_piece(&mut key, self.variable.as_str());
        assert(key_view(key@) =~= text_piece(self.variable@));
        push_text_piece(&mut key, self.value.as_str());
        key
    }
}

impl Keyed for ElfMarkerLocation {
    open spec fn sort_key(v: ElfMarkerLocationView) -> Seq<int> {
        text_piece(v.variable) + text_piece(v.value) + text_piece(v.section)
    }

    fn key_numbers(&self) -> (r: Vec<u32>) {
        let mut key: Vec<u32> = Vec::new();
        push_text_piece(&mut key, self.variable.as_str());
        assert(key_view(key@) =~= text_piece(self.variable@));
        push_text_piece(&mut key, self.value.as_str());
        push_text_piece(&mut key, self.section.as_str());
        key
    }
}

} // verus!
