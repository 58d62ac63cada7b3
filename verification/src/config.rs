//! The project's configuration and the rules it must obey.
use vstd::prelude::*;

use crate::model::RunnerBackend;
use crate::model::{
    default_dependency_cache_max_bytes, default_dependency_cache_max_files,
    default_syscall_trace_max_bytes,
};
use crate::ordering::{components, components_of, is_rooted, is_same_path, pieces, same_path, split};
use crate::string_map::{lists_key, Entries, ListEntries, ListMap, StringMap};
use crate::text::{ascii_alphanumeric, ascii_letter, blank, chars_of, concat, concat3, concat5};
use crate::text::{contains_white, debug_text, has_white, is_alphanumeric, is_blank, is_letter};
use crate::text::{lists_text, quoted, replace, replaced, same};

verus! {

#[derive(Debug, PartialEq)]
pub struct DependencyVariantConfig {
    pub id: String,
    pub target: String,
    pub variant_file: String,
}

#[derive(Debug, Clone, Copy, PartialEq, Eq, Structural)]
pub struct ExperimentDimensionsConfig {
    pub network_access: bool,
    pub source_path: bool,
    pub build_path: bool,
    pub source_date_epoch: bool,
    pub timezone: bool,
    pub locale: bool,
    pub hostname: bool,
    pub source_mtime: bool,
    pub cpu_count: bool,
    pub umask: bool,
    pub directory_order: bool,
}

#[derive(Debug, PartialEq)]
pub struct ExperimentsConfig {
    pub control_runs: usize,
    pub intervention_runs: usize,
    pub confirmation_runs: usize,
    pub stochastic_runs: usize,
    /// The significance threshold of the matched stochastic probe, as the bits of an IEEE 754
    /// double precision number.
    pub stochastic_alpha_bits: u64,
    pub interaction_runs: usize,
    pub comparison_runs: usize,
    pub comparison_subset_runs: usize,
    pub max_interaction_variables: usize,
    pub interaction_search: bool,
    pub dimensions: ExperimentDimensionsConfig,
    /// Alternative container/build images used as coarse-grained toolchain interventions.
    pub image_variants: Vec<String>,
    /// Narrow compiler/linker/archive-tool bindings varied within the same image.
    /// Keys are restricted to well-known toolchain environment variables and each
    /// value must be [baseline_executable, variant_executable].
    pub toolchain_variables: ListMap,
    /// Replace exactly one dependency declaration/lock file in the fresh source
    /// snapshot with another project-relative file. The project tree is untouched.
    pub dependency_variants: Vec<DependencyVariantConfig>,
    /// Best-effort strace-based network syscall provenance. Raw traces are discarded.
    pub network_trace: bool,
    /// Best-effort process-aware file syscall provenance. Raw paths and traces are discarded.
    pub file_input_trace: bool,
    /// Maximum raw syscall-trace bytes parsed after the build. This bounds parser
    /// memory/work, not the temporary strace file's disk growth.
    pub syscall_trace_max_bytes: u64,
    /// Collect post-build lockfile/resolver state and aggregate downloaded-cache
    /// content fingerprints. Package names/cache paths are not persisted.
    pub runtime_dependency_provenance: bool,
    /// Additional in-container package-manager cache roots to summarize.
    pub dependency_cache_paths: StringMap,
    /// Per-cache content-hashing bound. Directory enumeration is best-effort,
    /// but ReproBisect will not hash more than this many files per cache root.
    pub dependency_cache_max_files: usize,
    /// Per-cache cumulative byte bound for content hashing.
    pub dependency_cache_max_bytes: u64,
    pub environment_variables: ListMap,
}

#[derive(Debug, PartialEq)]
pub struct BuildConfig {
    pub runner: RunnerBackend,
    pub image: String,
    pub command: Vec<String>,
    pub outputs: Vec<String>,
    pub env: StringMap,
    pub working_directory: String,
    pub timeout_seconds: u64,
    /// Maximum stdout/stderr bytes retained per stream. The runner still drains
    /// and hashes the complete stream so evidence fingerprints remain exact.
    pub log_capture_max_bytes: u64,
}

#[derive(Debug, PartialEq)]
pub struct Config {
    pub build: BuildConfig,
    pub experiments: ExperimentsConfig,
}

/// What the file system says of a path.
#[derive(Debug, PartialEq)]
pub enum FileState {
    /// A regular file; links are not followed.
    Regular,
    /// Something else.
    Other,
    /// The state could not be read: the path that was asked for and the cause.
    Unreadable { path: String, cause: String },
}

/// The files that one dependency variant names.
#[derive(Debug, PartialEq)]
pub struct VariantFiles {
    pub target: FileState,
    pub variant_file: FileState,
}

/// What the file system says of a project.
#[derive(Debug, PartialEq)]
pub struct ProjectFacts {
    pub root: String,
    pub root_is_directory: bool,
    /// One entry for each configured dependency variant.
    pub dependency_files: Vec<VariantFiles>,
}

/// The bits of 1.0 as a double precision number. The numbers strictly between 0 and 1 are those
/// whose bits lie strictly between 0 and these.
pub const ONE_BITS: u64 = 0x3ff0_0000_0000_0000;

/// The bits of 0.05 as a double precision number.
pub const DEFAULT_ALPHA_BITS: u64 = 0x3fa9_9999_9999_999a;

pub fn default_working_directory() -> (r: String)
    ensures
        r@ == "."@,
{
    ".".to_owned()
}

pub fn default_timeout_seconds() -> (r: u64)
    ensures
        r == 600,
{
    600
}

pub fn default_log_capture_max_bytes() -> (r: u64)
    ensures
        r == 1024 * 1024,
{
    1024 * 1024
}

pub fn default_control_runs() -> (r: usize)
    ensures
        r == 2,
{
    2
}

pub fn default_intervention_runs() -> (r: usize)
    ensures
        r == 1,
{
    1
}

pub fn default_confirmation_runs() -> (r: usize)
    ensures
        r == 1,
{
    1
}

pub fn default_stochastic_runs() -> (r: usize)
    ensures
        r == 4,
{
    4
}

pub fn default_interaction_runs() -> (r: usize)
    ensures
        r == 2,
{
    2
}

pub fn default_comparison_runs() -> (r: usize)
    ensures
        r == 2,
{
    2
}

pub fn default_comparison_subset_runs() -> (r: usize)
    ensures
        r == 2,
{
    2
}

pub fn default_max_interaction_variables() -> (r: usize)
    ensures
        r == 8,
{
    8
}

pub fn default_true() -> (r: bool)
    ensures
        r,
{
    true
}

impl Default for ExperimentDimensionsConfig {
    fn default() -> (r: ExperimentDimensionsConfig)
        ensures
            r == (ExperimentDimensionsConfig {
                network_access: false,
                source_path: false,
                build_path: true,
                source_date_epoch: true,
                timezone: true,
                locale: true,
                hostname: true,
                source_mtime: false,
                cpu_count: false,
                umask: false,
                directory_order: false,
            }),
    {
        ExperimentDimensionsConfig {
            network_access: false,
            source_path: false,
            build_path: default_true(),
            source_date_epoch: default_true(),
            timezone: default_true(),
            locale: default_true(),
            hostname: default_true(),
            source_mtime: false,
            cpu_count: false,
            umask: false,
            directory_order: false,
        }
    }
}

impl Default for ExperimentsConfig {
    fn default() -> (r: ExperimentsConfig)
        ensures
            r.control_runs == 2,
            r.intervention_runs == 1,
            r.confirmation_runs == 1,
            r.stochastic_runs == 4,
            r.stochastic_alpha_bits == DEFAULT_ALPHA_BITS,
            r.interaction_runs == 2,
            r.comparison_runs == 2,
            r.comparison_subset_runs == 2,
            r.max_interaction_variables == 8,
            !r.interaction_search,
            r.dimensions == (ExperimentDimensionsConfig {
                network_access: false,
                source_path: false,
                build_path: true,
                source_date_epoch: true,
                timezone: true,
                locale: true,
                hostname: true,
                source_mtime: false,
                cpu_count: false,
                umask: false,
                directory_order: false,
            }),
            r.image_variants@.len() == 0,
            r.toolchain_variables.deep_view().len() == 0,
            r.dependency_variants@.len() == 0,
            !r.network_trace,
            !r.file_input_trace,
            r.syscall_trace_max_bytes == 32 * 1024 * 1024,
            !r.runtime_dependency_provenance,
            r.dependency_cache_paths.deep_view().len() == 0,
            r.dependency_cache_max_files == 2048,
            r.dependency_cache_max_bytes == 128 * 1024 * 1024,
            r.environment_variables.deep_view().len() == 0,
    {
        ExperimentsConfig {
            control_runs: default_control_runs(),
            intervention_runs: default_intervention_runs(),
            confirmation_runs: default_confirmation_runs(),
            stochastic_runs: default_stochastic_runs(),
            stochastic_alpha_bits: DEFAULT_ALPHA_BITS,
            interaction_runs: default_interaction_runs(),
            comparison_runs: default_comparison_runs(),
            comparison_subset_runs: default_comparison_subset_runs(),
            max_interaction_variables: default_max_interaction_variables(),
            interaction_search: false,
            dimensions: ExperimentDimensionsConfig::default(),
            image_variants: Vec::new(),
            toolchain_variables: ListMap::new(),
            dependency_variants: Vec::new(),
            network_trace: false,
            file_input_trace: false,
            syscall_trace_max_bytes: default_syscall_trace_max_bytes(),
            runtime_dependency_provenance: false,
            dependency_cache_paths: StringMap::new(),
            dependency_cache_max_files: default_dependency_cache_max_files(),
            dependency_cache_max_bytes: default_dependency_cache_max_bytes(),
            environment_variables: ListMap::new(),
        }
    }
}

pub open spec fn has_parent_component(path: Seq<char>) -> bool {
    lists_text(components_of(path), seq!['.', '.'])
}

/// What is wrong with `path` as a path below the project root.
pub open spec fn relative_path_problem(field: Seq<char>, path: Seq<char>) -> Option<Seq<char>> {
    if is_rooted(path) {
        Some(field + " entries must be relative paths: "@ + path)
    } else if has_parent_component(path) {
        Some(field + " may not escape the project root: "@ + path)
    } else {
        None
    }
}

pub fn validate_relative_path(field: &str, path: &str) -> (r: Result<(), String>)
    ensures
        match r {
            Ok(()) => relative_path_problem(field@, path@) is None,
            Err(m) => relative_path_problem(field@, path@) == Some(m@),
        },
{
    let chars = chars_of(path);
    if chars.len() > 0 && chars[0] == '/' {
        return Err(concat3(field, " entries must be relative paths: ", path));
    }
    let parts = components(path);
    let mut i: usize = 0;
    while i < parts.len()
        invariant
            !is_rooted(path@),
            parts.deep_view() == components_of(path@),
            i <= parts@.len(),
            forall|k: int| 0 <= k < i ==> #[trigger] components_of(path@)[k] != seq!['.', '.'],
        decreases parts.len() - i,
    {
        let part = chars_of(parts[i].as_str());
        assert(components_of(path@)[i as int] == part@);
        if part.len() == 2 && part[0] == '.' && part[1] == '.' {
            assert(part@ =~= seq!['.', '.']);
            return Err(concat3(field, " may not escape the project root: ", path));
        }
        i += 1;
    }
    Ok(())
}

/// Whether every character satisfies one of the conditions on names of environment variables.
pub open spec fn is_variable_name(s: Seq<char>) -> bool {
    &&& s.len() > 0
    &&& s[0] == '_' || is_letter(s[0])
    &&& forall|i: int| 0 <= i < s.len() ==> #[trigger] s[i] == '_' || is_alphanumeric(s[i])
}

pub fn valid_environment_variable_name(value: &str) -> (r: bool)
    ensures
        r == is_variable_name(value@),
{
    let chars = chars_of(value);
    if chars.len() == 0 || !(chars[0] == '_' || ascii_letter(chars[0])) {
        return false;
    }
    let mut i: usize = 0;
    while i < chars.len()
        invariant
            chars@ == value@,
            i <= chars@.len(),
            forall|k: int| 0 <= k < i ==> #[trigger] value@[k] == '_' || is_alphanumeric(value@[k]),
        decreases chars.len() - i,
    {
        if !(chars[i] == '_' || ascii_alphanumeric(chars[i])) {
            assert(!(value@[i as int] == '_' || is_alphanumeric(value@[i as int])));
            return false;
        }
        i += 1;
    }
    true
}

pub open spec fn is_executable_char(c: char) -> bool {
    is_alphanumeric(c) || c == '_' || c == '-' || c == '+' || c == '.' || c == '/' || c == ':'
}

/// An executable value with its placeholders filled in.
pub open spec fn expanded_executable(value: Seq<char>) -> Seq<char> {
    replaced(replaced(value, "{source}"@, "/src"@), "{build}"@, "/workspace"@)
}

/// Whether a value is a single executable name or path, with nothing that a shell would act on.
pub open spec fn is_safe_executable(value: Seq<char>) -> bool {
    &&& value.len() > 0
    &&& !has_white(value)
    &&& forall|i: int|
        0 <= i < expanded_executable(value).len() ==> is_executable_char(
            #[trigger] expanded_executable(value)[i],
        )
}

pub fn valid_toolchain_executable(value: &str) -> (r: bool)
    ensures
        r == is_safe_executable(value@),
{
    if value.is_empty() || contains_white(value) {
        return false;
    }
    proof {
        reveal_strlit("{source}");
        reveal_strlit("{build}");
    }
    let once = replace(value, "{source}", "/src");
    let expanded = replace(once.as_str(), "{build}", "/workspace");
    let chars = chars_of(expanded.as_str());
    let mut i: usize = 0;
    while i < chars.len()
        invariant
            chars@ == expanded_executable(value@),
            i <= chars@.len(),
            forall|k: int| 0 <= k < i ==> is_executable_char(#[trigger] chars@[k]),
        decreases chars.len() - i,
    {
        let c = chars[i];
        if !(ascii_alphanumeric(c) || c == '_' || c == '-' || c == '+' || c == '.' || c == '/' || c
            == ':') {
            assert(!is_executable_char(expanded_executable(value@)[i as int]));
            return false;
        }
        i += 1;
    }
    true
}

/// Whether `key` is one of the bindings that toolchain experiments may vary.
pub open spec fn is_toolchain_key(key: Seq<char>) -> bool {
    key == "CC"@ || key == "CXX"@ || key == "LD"@ || key == "AR"@ || key == "RANLIB"@ || key
        == "RUSTC"@
}

pub fn supported_toolchain_key(key: &str) -> (r: bool)
    ensures
        r == is_toolchain_key(key@),
{
    same(key, "CC") || same(key, "CXX") || same(key, "LD") || same(key, "AR") || same(key, "RANLIB")
        || same(key, "RUSTC")
}

/// What is wrong with a project file that must be a regular file.
pub open spec fn regular_file_problem(
    state: FileState,
    label: Seq<char>,
    relative: Seq<char>,
) -> Option<Seq<char>> {
    match state {
        FileState::Regular => None,
        FileState::Other => Some(
            label + " "@ + relative + " must be a regular file (symlinks are not followed)"@,
        ),
        FileState::Unreadable { path, cause } => Some(
            "cannot stat "@ + label + " "@ + path@ + ": "@ + cause@,
        ),
    }
}

pub fn validate_regular_project_file(state: &FileState, label: &str, relative: &str) -> (r: Result<
    (),
    String,
>)
    ensures
        match r {
            Ok(()) => regular_file_problem(*state, label@, relative@) is None,
            Err(m) => regular_file_problem(*state, label@, relative@) == Some(m@),
        },
{
    match state {
        FileState::Regular => Ok(()),
        FileState::Other => {
            let mut m = concat3(label, " ", relative);
            m.push_str(" must be a regular file (symlinks are not followed)");
            Err(m)
        },
        FileState::Unreadable { path, cause } => {
            let mut m = concat3("cannot stat ", label, " ");
            m.push_str(path.as_str());
            m.push_str(": ");
            m.push_str(cause.as_str());
            Err(m)
        },
    }
}

/// The first of two findings.
pub open spec fn or_else(first: Option<Seq<char>>, second: Option<Seq<char>>) -> Option<Seq<char>> {
    if first is Some {
        first
    } else {
        second
    }
}

pub open spec fn message_if(wrong: bool, message: Seq<char>) -> Option<Seq<char>> {
    if wrong {
        Some(message)
    } else {
        None
    }
}

/// What is wrong with the sizes and counts of a configuration.
pub open spec fn limits_problem(c: Config) -> Option<Seq<char>> {
    let e = c.experiments;
    if is_blank(c.build.image@) {
        Some("build.image cannot be empty"@)
    } else if c.build.command@.len() == 0 {
        Some("build.command must contain at least one argv element"@)
    } else if c.build.outputs@.len() == 0 {
        Some("build.outputs must declare at least one artifact"@)
    } else if !(2 <= e.control_runs <= 32) {
        Some("experiments.control_runs must be between 2 and 32"@)
    } else if !(1 <= e.intervention_runs <= 32) {
        Some("experiments.intervention_runs must be between 1 and 32"@)
    } else if e.confirmation_runs > 1 {
        Some("experiments.confirmation_runs currently supports only 0 or 1"@)
    } else if e.stochastic_runs < 3 {
        Some("experiments.stochastic_runs must be at least 3"@)
    } else if e.stochastic_runs > 1024 {
        Some("experiments.stochastic_runs must not exceed 1024"@)
    } else if !(0 < e.stochastic_alpha_bits < ONE_BITS) {
        Some("experiments.stochastic_alpha must be strictly between 0 and 1"@)
    } else if !(2 <= e.interaction_runs <= 32) {
        Some("experiments.interaction_runs must be between 2 and 32"@)
    } else if !(2 <= e.comparison_runs <= 32) {
        Some("experiments.comparison_runs must be between 2 and 32"@)
    } else if !(2 <= e.comparison_subset_runs <= 32) {
        Some("experiments.comparison_subset_runs must be between 2 and 32"@)
    } else if !(2 <= e.max_interaction_variables <= 32) {
        Some("experiments.max_interaction_variables must be between 2 and 32"@)
    } else if c.build.timeout_seconds == 0 {
        Some("build.timeout_seconds must be greater than 0"@)
    } else if !(65536 <= c.build.log_capture_max_bytes <= 16777216) {
        Some("build.log_capture_max_bytes must be between 65536 and 16777216 bytes"@)
    } else {
        None
    }
}

fn check_limits(c: &Config) -> (r: Option<String>)
    ensures
        r.deep_view() == limits_problem(*c),
{
    let e = &c.experiments;
    if blank(c.build.image.as_str()) {
        Some("build.image cannot be empty".to_owned())
    } else if c.build.command.len() == 0 {
        Some("build.command must contain at least one argv element".to_owned())
    } else if c.build.outputs.len() == 0 {
        Some("build.outputs must declare at least one artifact".to_owned())
    } else if !(2 <= e.control_runs && e.control_runs <= 32) {
        Some("experiments.control_runs must be between 2 and 32".to_owned())
    } else if !(1 <= e.intervention_runs && e.intervention_runs <= 32) {
        Some("experiments.intervention_runs must be between 1 and 32".to_owned())
    } else if e.confirmation_runs > 1 {
        Some("experiments.confirmation_runs currently supports only 0 or 1".to_owned())
    } else if e.stochastic_runs < 3 {
        Some("experiments.stochastic_runs must be at least 3".to_owned())
    } else if e.stochastic_runs > 1024 {
        Some("experiments.stochastic_runs must not exceed 1024".to_owned())
    } else if !(0 < e.stochastic_alpha_bits && e.stochastic_alpha_bits < ONE_BITS) {
        Some("experiments.stochastic_alpha must be strictly between 0 and 1".to_owned())
    } else if !(2 <= e.interaction_runs && e.interaction_runs <= 32) {
        Some("experiments.interaction_runs must be between 2 and 32".to_owned())
    } else if !(2 <= e.comparison_runs && e.comparison_runs <= 32) {
        Some("experiments.comparison_runs must be between 2 and 32".to_owned())
    } else if !(2 <= e.comparison_subset_runs && e.comparison_subset_runs <= 32) {
        Some("experiments.comparison_subset_runs must be between 2 and 32".to_owned())
    } else if !(2 <= e.max_interaction_variables && e.max_interaction_variables <= 32) {
        Some("experiments.max_interaction_variables must be between 2 and 32".to_owned())
    } else if c.build.timeout_seconds == 0 {
        Some("build.timeout_seconds must be greater than 0".to_owned())
    } else if !(65536 <= c.build.log_capture_max_bytes && c.build.log_capture_max_bytes <= 16777216) {
        Some("build.log_capture_max_bytes must be between 65536 and 16777216 bytes".to_owned())
    } else {
        None
    }
}

/// What is wrong with the declared outputs from `i` on.
pub open spec fn outputs_problem(outputs: Seq<String>, i: int) -> Option<Seq<char>>
    decreases outputs.len() - i,
{
    if i >= outputs.len() {
        None
    } else {
        or_else(
            relative_path_problem("build.outputs"@, outputs[i]@),
            outputs_problem(outputs, i + 1),
        )
    }
}

fn check_outputs(outputs: &Vec<String>) -> (r: Option<String>)
    ensures
        r.deep_view() == outputs_problem(outputs@, 0),
{
    let mut i: usize = 0;
    while i < outputs.len()
        invariant
            i <= outputs@.len(),
            outputs_problem(outputs@, 0) == outputs_problem(outputs@, i as int),
        decreases outputs.len() - i,
    {
        if let Err(m) = validate_relative_path("build.outputs", outputs[i].as_str()) {
            return Some(m);
        }
        i += 1;
    }
    None
}

/// Whether one of the first `n` texts is `s`.
pub open spec fn listed_before(list: Seq<String>, n: int, s: Seq<char>) -> bool {
    exists|k: int| 0 <= k < n && (#[trigger] list[k])@ == s
}

pub fn seen_before(list: &Vec<String>, n: usize, s: &str) -> (r: bool)
    requires
        n <= list@.len(),
    ensures
        r == listed_before(list@, n as int, s@),
{
    let mut k: usize = 0;
    while k < n
        invariant
            k <= n <= list@.len(),
            forall|j: int| 0 <= j < k ==> (#[trigger] list@[j])@ != s@,
        decreases n - k,
    {
        if same(list[k].as_str(), s) {
            return true;
        }
        k += 1;
    }
    false
}

/// What is wrong with the alternative images from `i` on.
pub open spec fn images_problem(base: Seq<char>, images: Seq<String>, i: int) -> Option<Seq<char>>
    decreases images.len() - i,
{
    if i >= images.len() {
        None
    } else if is_blank(images[i]@) {
        Some("experiments.image_variants cannot contain an empty image reference"@)
    } else if images[i]@ == base {
        Some("experiments.image_variants must differ from build.image"@)
    } else if listed_before(images, i, images[i]@) {
        Some("experiments.image_variants contains duplicate image "@ + debug_text(images[i]@))
    } else {
        images_problem(base, images, i + 1)
    }
}

fn check_images(base: &str, images: &Vec<String>) -> (r: Option<String>)
    ensures
        r.deep_view() == images_problem(base@, images@, 0),
{
    let mut i: usize = 0;
    while i < images.len()
        invariant
            i <= images@.len(),
            images_problem(base@, images@, 0) == images_problem(base@, images@, i as int),
        decreases images.len() - i,
    {
        let image = images[i].as_str();
        if blank(image) {
            return Some(
                "experiments.image_variants cannot contain an empty image reference".to_owned(),
            );
        }
        if same(image, base) {
            return Some("experiments.image_variants must differ from build.image".to_owned());
        }
        if seen_before(images, i, image) {
            return Some(
                concat(
                    "experiments.image_variants contains duplicate image ",
                    quoted(image).as_str(),
                ),
            );
        }
        i += 1;
    }
    None
}

/// The message about an executable value that a shell could act on.
pub open spec fn unsafe_executable_message(key: Seq<char>, value: Seq<char>) -> Seq<char> {
    "experiments.toolchain_variables."@ + key + " contains unsafe executable value "@ + debug_text(
        value,
    ) + "; use a single executable path/name with optional {source}/{build} placeholders"@
}

/// What is wrong with the toolchain binding `key`.
pub open spec fn binding_problem(key: Seq<char>, values: Seq<Seq<char>>) -> Option<Seq<char>> {
    if !is_toolchain_key(key) {
        Some(
            "experiments.toolchain_variables contains unsupported binding "@ + debug_text(key)
                + "; supported keys: CC, CXX, LD, AR, RANLIB, RUSTC"@,
        )
    } else if values.len() != 2 {
        Some(
            "experiments.toolchain_variables."@ + key
                + " must contain exactly two executable values: [baseline, variant]"@,
        )
    } else if values[0] == values[1] {
        Some(
            "experiments.toolchain_variables."@ + key
                + " baseline and variant executables must differ"@,
        )
    } else if !is_safe_executable(values[0]) {
        Some(unsafe_executable_message(key, values[0]))
    } else if !is_safe_executable(values[1]) {
        Some(unsafe_executable_message(key, values[1]))
    } else {
        None
    }
}

fn unsafe_executable(key: &str, value: &str) -> (r: String)
    ensures
        r@ == unsafe_executable_message(key@, value@),
{
    concat5(
        "experiments.toolchain_variables.",
        key,
        " contains unsafe executable value ",
        quoted(value).as_str(),
        "; use a single executable path/name with optional {source}/{build} placeholders",
    )
}

fn check_binding(key: &str, values: &Vec<String>) -> (r: Option<String>)
    ensures
        r.deep_view() == binding_problem(key@, values.deep_view()),
{
    if !supported_toolchain_key(key) {
        return Some(
            concat3(
                "experiments.toolchain_variables contains unsupported binding ",
                quoted(key).as_str(),
                "; supported keys: CC, CXX, LD, AR, RANLIB, RUSTC",
            ),
        );
    }
    if values.len() != 2 {
        return Some(
            concat3(
                "experiments.toolchain_variables.",
                key,
                " must contain exactly two executable values: [baseline, variant]",
            ),
        );
    }
    assert(values.deep_view()[0] == values@[0]@ && values.deep_view()[1] == values@[1]@);
    if values[0] == values[1] {
        return Some(
            concat3(
                "experiments.toolchain_variables.",
                key,
                " baseline and variant executables must differ",
            ),
        );
    }
    if !valid_toolchain_executable(values[0].as_str()) {
        return Some(unsafe_executable(key, values[0].as_str()));
    }
    if !valid_toolchain_executable(values[1].as_str()) {
        return Some(unsafe_executable(key, values[1].as_str()));
    }
    None
}

/// What is wrong with the toolchain bindings from `i` on.
pub open spec fn bindings_problem(entries: ListEntries, i: int) -> Option<Seq<char>>
    decreases entries.len() - i,
{
    if i >= entries.len() {
        None
    } else {
        or_else(binding_problem(entries[i].0, entries[i].1), bindings_problem(entries, i + 1))
    }
}

fn check_bindings(bindings: &ListMap) -> (r: Option<String>)
    ensures
        r.deep_view() == bindings_problem(bindings.deep_view(), 0),
{
    let entries = bindings.entries();
    let mut i: usize = 0;
    while i < entries.len()
        invariant
            entries.deep_view() == bindings.deep_view(),
            i <= entries@.len(),
            bindings_problem(bindings.deep_view(), 0) == bindings_problem(
                bindings.deep_view(),
                i as int,
            ),
        decreases entries.len() - i,
    {
        assert(entries.deep_view()[i as int].0 == entries@[i as int].0@);
        assert(entries.deep_view()[i as int].1 == entries@[i as int].1.deep_view());
        let problem = check_binding(entries[i].0.as_str(), &entries[i].1);
        if problem.is_some() {
            return problem;
        }
        i += 1;
    }
    None
}

/// Whether one of the first `n` variants has this id.
pub open spec fn id_before(variants: Seq<DependencyVariantConfig>, n: int, id: Seq<char>) -> bool {
    exists|k: int| 0 <= k < n && (#[trigger] variants[k]).id@ == id
}

/// Whether one of the first `n` variants replaces the same target.
pub open spec fn target_before(
    variants: Seq<DependencyVariantConfig>,
    n: int,
    target: Seq<char>,
) -> bool {
    exists|k: int| 0 <= k < n && is_same_path((#[trigger] variants[k]).target@, target)
}

fn id_seen(variants: &Vec<DependencyVariantConfig>, n: usize) -> (r: bool)
    requires
        n < variants@.len(),
    ensures
        r == id_before(variants@, n as int, variants@[n as int].id@),
{
    let mut k: usize = 0;
    while k < n
        invariant
            k <= n < variants@.len(),
            forall|j: int| 0 <= j < k ==> (#[trigger] variants@[j]).id@ != variants@[n as int].id@,
        decreases n - k,
    {
        if variants[k].id == variants[n].id {
            return true;
        }
        k += 1;
    }
    false
}

fn target_seen(variants: &Vec<DependencyVariantConfig>, n: usize) -> (r: bool)
    requires
        n < variants@.len(),
    ensures
        r == target_before(variants@, n as int, variants@[n as int].target@),
{
    let mut k: usize = 0;
    while k < n
        invariant
            k <= n < variants@.len(),
            forall|j: int|
                0 <= j < k ==> !is_same_path(
                    (#[trigger] variants@[j]).target@,
                    variants@[n as int].target@,
                ),
        decreases n - k,
    {
        if same_path(variants[k].target.as_str(), variants[n].target.as_str()) {
            return true;
        }
        k += 1;
    }
    false
}

/// What is wrong with dependency variant `i`, given the states of its files.
pub open spec fn variant_problem(
    variants: Seq<DependencyVariantConfig>,
    files: Seq<VariantFiles>,
    i: int,
) -> Option<Seq<char>> {
    let v = variants[i];
    if is_blank(v.id@) {
        Some("experiments.dependency_variants id cannot be empty"@)
    } else if id_before(variants, i, v.id@) {
        Some("experiments.dependency_variants contains duplicate id "@ + debug_text(v.id@))
    } else {
        or_else(
            relative_path_problem("experiments.dependency_variants.target"@, v.target@),
            or_else(
                relative_path_problem(
                    "experiments.dependency_variants.variant_file"@,
                    v.variant_file@,
                ),
                if is_same_path(v.target@, v.variant_file@) {
                    Some(
                        "dependency variant "@ + debug_text(v.id@)
                            + " target and variant_file must differ"@,
                    )
                } else if target_before(variants, i, v.target@) {
                    Some(
                        "multiple dependency variants target "@ + v.target@
                            + "; use one controlled replacement per target"@,
                    )
                } else {
                    or_else(
                        regular_file_problem(files[i].target, "dependency target"@, v.target@),
                        regular_file_problem(
                            files[i].variant_file,
                            "dependency variant_file"@,
                            v.variant_file@,
                        ),
                    )
                },
            ),
        )
    }
}

fn check_variant(
    variants: &Vec<DependencyVariantConfig>,
    files: &Vec<VariantFiles>,
    i: usize,
) -> (r: Option<String>)
    requires
        i < variants@.len(),
        files@.len() == variants@.len(),
    ensures
        r.deep_view() == variant_problem(variants@, files@, i as int),
{
    let v = &variants[i];
    if blank(v.id.as_str()) {
        return Some("experiments.dependency_variants id cannot be empty".to_owned());
    }
    if id_seen(variants, i) {
        return Some(
            concat(
                "experiments.dependency_variants contains duplicate id ",
                quoted(v.id.as_str()).as_str(),
            ),
        );
    }
    if let Err(m) = validate_relative_path(
        "experiments.dependency_variants.target",
        v.target.as_str(),
    ) {
        return Some(m);
    }
    if let Err(m) = validate_relative_path(
        "experiments.dependency_variants.variant_file",
        v.variant_file.as_str(),
    ) {
        return Some(m);
    }
    if same_path(v.target.as_str(), v.variant_file.as_str()) {
        return Some(
            concat3(
                "dependency variant ",
                quoted(v.id.as_str()).as_str(),
                " target and variant_file must differ",
            ),
        );
    }
    if target_seen(variants, i) {
        return Some(
            concat3(
                "multiple dependency variants target ",
                v.target.as_str(),
                "; use one controlled replacement per target",
            ),
        );
    }
    if let Err(m) = validate_regular_project_file(
        &files[i].target,
        "dependency target",
        v.target.as_str(),
    ) {
        return Some(m);
    }
    if let Err(m) = validate_regular_project_file(
        &files[i].variant_file,
        "dependency variant_file",
        v.variant_file.as_str(),
    ) {
        return Some(m);
    }
    None
}

/// What is wrong with the dependency variants from `i` on.
pub open spec fn variants_problem(
    variants: Seq<DependencyVariantConfig>,
    files: Seq<VariantFiles>,
    i: int,
) -> Option<Seq<char>>
    decreases variants.len() - i,
{
    if i >= variants.len() {
        None
    } else {
        or_else(variant_problem(variants, files, i), variants_problem(variants, files, i + 1))
    }
}

fn check_variants(variants: &Vec<DependencyVariantConfig>, files: &Vec<VariantFiles>) -> (r: Option<
    String,
>)
    requires
        files@.len() == variants@.len(),
    ensures
        r.deep_view() == variants_problem(variants@, files@, 0),
{
    let mut i: usize = 0;
    while i < variants.len()
        invariant
            files@.len() == variants@.len(),
            i <= variants@.len(),
            variants_problem(variants@, files@, 0) == variants_problem(variants@, files@, i as int),
        decreases variants.len() - i,
    {
        let problem = check_variant(variants, files, i);
        if problem.is_some() {
            return problem;
        }
        i += 1;
    }
    None
}

pub open spec fn is_ecosystem_label(s: Seq<char>) -> bool {
    s.len() > 0 && forall|i: int|
        0 <= i < s.len() ==> is_alphanumeric(#[trigger] s[i]) || s[i] == '_' || s[i] == '-'
}

fn valid_ecosystem_label(s: &str) -> (r: bool)
    ensures
        r == is_ecosystem_label(s@),
{
    let chars = chars_of(s);
    let mut i: usize = 0;
    while i < chars.len()
        invariant
            chars@ == s@,
            i <= chars@.len(),
            forall|k: int|
                0 <= k < i ==> is_alphanumeric(#[trigger] s@[k]) || s@[k] == '_' || s@[k] == '-',
        decreases chars.len() - i,
    {
        if !(ascii_alphanumeric(chars[i]) || chars[i] == '_' || chars[i] == '-') {
            assert(!(is_alphanumeric(s@[i as int]) || s@[i as int] == '_' || s@[i as int] == '-'));
            return false;
        }
        i += 1;
    }
    chars.len() > 0
}

/// Whether a path is absolute and free of white space and of `..`.
pub open spec fn is_simple_container_path(s: Seq<char>) -> bool {
    &&& is_rooted(s)
    &&& !has_white(s)
    &&& !lists_text(pieces(s, '/'), seq!['.', '.'])
}

fn simple_container_path(s: &str) -> (r: bool)
    ensures
        r == is_simple_container_path(s@),
{
    let chars = chars_of(s);
    if chars.len() == 0 || chars[0] != '/' || contains_white(s) {
        return false;
    }
    let parts = split(s, '/');
    let mut i: usize = 0;
    while i < parts.len()
        invariant
            is_rooted(s@),
            !has_white(s@),
            parts.deep_view() == pieces(s@, '/'),
            i <= parts@.len(),
            forall|k: int| 0 <= k < i ==> #[trigger] pieces(s@, '/')[k] != seq!['.', '.'],
        decreases parts.len() - i,
    {
        let part = chars_of(parts[i].as_str());
        assert(pieces(s@, '/')[i as int] == part@);
        if part.len() == 2 && part[0] == '.' && part[1] == '.' {
            assert(part@ =~= seq!['.', '.']);
            return false;
        }
        i += 1;
    }
    true
}

/// What is wrong with the cache paths from `i` on.
pub open spec fn caches_problem(entries: Entries, i: int) -> Option<Seq<char>>
    decreases entries.len() - i,
{
    if i >= entries.len() {
        None
    } else if !is_ecosystem_label(entries[i].0) {
        Some(
            "experiments.dependency_cache_paths contains invalid ecosystem label "@ + debug_text(
                entries[i].0,
            ),
        )
    } else if !is_simple_container_path(entries[i].1) {
        Some(
            "experiments.dependency_cache_paths."@ + entries[i].0
                + " must be a simple absolute in-container path without whitespace or '..'"@,
        )
    } else {
        caches_problem(entries, i + 1)
    }
}

fn check_caches(caches: &StringMap) -> (r: Option<String>)
    ensures
        r.deep_view() == caches_problem(caches.deep_view(), 0),
{
    let entries = caches.entries();
    let mut i: usize = 0;
    while i < entries.len()
        invariant
            entries.deep_view() == caches.deep_view(),
            i <= entries@.len(),
            caches_problem(caches.deep_view(), 0) == caches_problem(caches.deep_view(), i as int),
        decreases entries.len() - i,
    {
        assert(entries.deep_view()[i as int].0 == entries@[i as int].0@);
        assert(entries.deep_view()[i as int].1 == entries@[i as int].1@);
        let ecosystem = entries[i].0.as_str();
        if !valid_ecosystem_label(ecosystem) {
            return Some(
                concat(
                    "experiments.dependency_cache_paths contains invalid ecosystem label ",
                    quoted(ecosystem).as_str(),
                ),
            );
        }
        if !simple_container_path(entries[i].1.as_str()) {
            return Some(
                concat3(
                    "experiments.dependency_cache_paths.",
                    ecosystem,
                    " must be a simple absolute in-container path without whitespace or '..'",
                ),
            );
        }
        i += 1;
    }
    None
}

/// What is wrong with the bounds on traces and caches.
pub open spec fn bounds_problem(e: ExperimentsConfig) -> Option<Seq<char>> {
    if !(1048576 <= e.syscall_trace_max_bytes <= 536870912) {
        Some("experiments.syscall_trace_max_bytes must be between 1 MiB and 512 MiB"@)
    } else if !(1 <= e.dependency_cache_max_files <= 100_000) {
        Some("experiments.dependency_cache_max_files must be between 1 and 100000"@)
    } else if !(1048576 <= e.dependency_cache_max_bytes <= 4294967296) {
        Some("experiments.dependency_cache_max_bytes must be between 1 MiB and 4 GiB"@)
    } else {
        None
    }
}

fn check_bounds(e: &ExperimentsConfig) -> (r: Option<String>)
    ensures
        r.deep_view() == bounds_problem(*e),
{
    if !(1048576 <= e.syscall_trace_max_bytes && e.syscall_trace_max_bytes <= 536870912) {
        Some("experiments.syscall_trace_max_bytes must be between 1 MiB and 512 MiB".to_owned())
    } else if !(1 <= e.dependency_cache_max_files && e.dependency_cache_max_files <= 100_000) {
        Some("experiments.dependency_cache_max_files must be between 1 and 100000".to_owned())
    } else if !(1048576 <= e.dependency_cache_max_bytes && e.dependency_cache_max_bytes
        <= 4294967296) {
        Some("experiments.dependency_cache_max_bytes must be between 1 MiB and 4 GiB".to_owned())
    } else {
        None
    }
}

/// The first toolchain binding from `i` on that is also varied as an environment variable.
pub open spec fn conflict_problem(bindings: ListEntries, variables: ListEntries, i: int) -> Option<
    Seq<char>,
>
    decreases bindings.len() - i,
{
    if i >= bindings.len() {
        None
    } else if lists_key(variables, bindings[i].0) {
        Some(
            "experiments.toolchain_variables."@ + bindings[i].0
                + " conflicts with experiments.environment_variables."@ + bindings[i].0
                + "; control the binding through only one experiment dimension"@,
        )
    } else {
        conflict_problem(bindings, variables, i + 1)
    }
}

fn check_conflicts(bindings: &ListMap, variables: &ListMap) -> (r: Option<String>)
    ensures
        r.deep_view() == conflict_problem(bindings.deep_view(), variables.deep_view(), 0),
{
    let entries = bindings.entries();
    let mut i: usize = 0;
    while i < entries.len()
        invariant
            entries.deep_view() == bindings.deep_view(),
            i <= entries@.len(),
            conflict_problem(bindings.deep_view(), variables.deep_view(), 0) == conflict_problem(
                bindings.deep_view(),
                variables.deep_view(),
                i as int,
            ),
        decreases entries.len() - i,
    {
        assert(entries.deep_view()[i as int].0 == entries@[i as int].0@);
        let key = entries[i].0.as_str();
        if variables.contains_key(key) {
            return Some(
                concat5(
                    "experiments.toolchain_variables.",
                    key,
                    " conflicts with experiments.environment_variables.",
                    key,
                    "; control the binding through only one experiment dimension",
                ),
            );
        }
        i += 1;
    }
    None
}

/// Whether a variable is already varied by a built-in dimension.
pub open spec fn is_built_in_variable(key: Seq<char>) -> bool {
    key == "SOURCE_DATE_EPOCH"@ || key == "TZ"@ || key == "LANG"@ || key == "LC_ALL"@ || key
        == "REPROBISECT_CPU_COUNT"@
}

/// What is wrong with the environment variable `key` and its two values.
pub open spec fn variable_problem(key: Seq<char>, values: Seq<Seq<char>>) -> Option<Seq<char>> {
    if !is_variable_name(key) {
        Some(
            "experiments.environment_variables contains invalid variable name "@ + debug_text(key),
        )
    } else if is_built_in_variable(key) {
        Some(
            "experiments.environment_variables."@ + key
                + " conflicts with a built-in intervention dimension"@,
        )
    } else if values.len() != 2 {
        Some(
            "experiments.environment_variables."@ + key
                + " must contain exactly two values: [baseline, variant]"@,
        )
    } else if values[0] == values[1] {
        Some(
            "experiments.environment_variables."@ + key
                + " baseline and variant values must differ"@,
        )
    } else {
        None
    }
}

fn check_variable(key: &str, values: &Vec<String>) -> (r: Option<String>)
    ensures
        r.deep_view() == variable_problem(key@, values.deep_view()),
{
    if !valid_environment_variable_name(key) {
        return Some(
            concat(
                "experiments.environment_variables contains invalid variable name ",
                quoted(key).as_str(),
            ),
        );
    }
    if same(key, "SOURCE_DATE_EPOCH") || same(key, "TZ") || same(key, "LANG") || same(key, "LC_ALL")
        || same(key, "REPROBISECT_CPU_COUNT") {
        return Some(
            concat3(
                "experiments.environment_variables.",
                key,
                " conflicts with a built-in intervention dimension",
            ),
        );
    }
    if values.len() != 2 {
        return Some(
            concat3(
                "experiments.environment_variables.",
                key,
                " must contain exactly two values: [baseline, variant]",
            ),
        );
    }
    assert(values.deep_view()[0] == values@[0]@ && values.deep_view()[1] == values@[1]@);
    if values[0] == values[1] {
        return Some(
            concat3(
                "experiments.environment_variables.",
                key,
                " baseline and variant values must differ",
            ),
        );
    }
    None
}

/// What is wrong with the varied environment variables from `i` on.
pub open spec fn variables_problem(entries: ListEntries, i: int) -> Option<Seq<char>>
    decreases entries.len() - i,
{
    if i >= entries.len() {
        None
    } else {
        or_else(variable_problem(entries[i].0, entries[i].1), variables_problem(entries, i + 1))
    }
}

fn check_variables(variables: &ListMap) -> (r: Option<String>)
    ensures
        r.deep_view() == variables_problem(variables.deep_view(), 0),
{
    let entries = variables.entries();
    let mut i: usize = 0;
    while i < entries.len()
        invariant
            entries.deep_view() == variables.deep_view(),
            i <= entries@.len(),
            variables_problem(variables.deep_view(), 0) == variables_problem(
                variables.deep_view(),
                i as int,
            ),
        decreases entries.len() - i,
    {
        assert(entries.deep_view()[i as int].0 == entries@[i as int].0@);
        assert(entries.deep_view()[i as int].1 == entries@[i as int].1.deep_view());
        let problem = check_variable(entries[i].0.as_str(), &entries[i].1);
        if problem.is_some() {
            return problem;
        }
        i += 1;
    }
    None
}

/// The first thing that is wrong with a configuration of a project.
pub open spec fn config_problem(c: Config, facts: ProjectFacts) -> Option<Seq<char>> {
    let e = c.experiments;
    or_else(
        limits_problem(c),
        or_else(
            outputs_problem(c.build.outputs@, 0),
            or_else(
                relative_path_problem("build.working_directory"@, c.build.working_directory@),
                or_else(
                    message_if(
                        e.image_variants@.len() > 4,
                        "experiments.image_variants currently supports at most 4 alternative images"@,
                    ),
                    or_else(
                        images_problem(c.build.image@, e.image_variants@, 0),
                        or_else(
                            bindings_problem(e.toolchain_variables.deep_view(), 0),
                            or_else(
                                message_if(
                                    e.dependency_variants@.len() > 8,
                                    "experiments.dependency_variants currently supports at most 8 variants"@,
                                ),
                                or_else(
                                    variants_problem(
                                        e.dependency_variants@,
                                        facts.dependency_files@,
                                        0,
                                    ),
                                    later_problem(c, facts),
                                ),
                            ),
                        ),
                    ),
                ),
            ),
        ),
    )
}

/// What is wrong with caches, bounds, environment variables and the project root.
pub open spec fn later_problem(c: Config, facts: ProjectFacts) -> Option<Seq<char>> {
    let e = c.experiments;
    or_else(
        message_if(
            e.dependency_cache_paths.deep_view().len() > 16,
            "experiments.dependency_cache_paths currently supports at most 16 entries"@,
        ),
        or_else(
            caches_problem(e.dependency_cache_paths.deep_view(), 0),
            or_else(
                bounds_problem(e),
                or_else(
                    conflict_problem(
                        e.toolchain_variables.deep_view(),
                        e.environment_variables.deep_view(),
                        0,
                    ),
                    or_else(
                        variables_problem(e.environment_variables.deep_view(), 0),
                        message_if(
                            !facts.root_is_directory,
                            "project root "@ + facts.root@ + " is not a directory"@,
                        ),
                    ),
                ),
            ),
        ),
    )
}

fn check_later(c: &Config, facts: &ProjectFacts) -> (r: Option<String>)
    ensures
        r.deep_view() == later_problem(*c, *facts),
{
    let e = &c.experiments;
    if e.dependency_cache_paths.len() > 16 {
        return Some(
            "experiments.dependency_cache_paths currently supports at most 16 entries".to_owned(),
        );
    }
    let problem = check_caches(&e.dependency_cache_paths);
    if problem.is_some() {
        return problem;
    }
    let problem = check_bounds(e);
    if problem.is_some() {
        return problem;
    }
    let problem = check_conflicts(&e.toolchain_variables, &e.environment_variables);
    if problem.is_some() {
        return problem;
    }
    let problem = check_variables(&e.environment_variables);
    if problem.is_some() {
        return problem;
    }
    if !facts.root_is_directory {
        return Some(concat3("project root ", facts.root.as_str(), " is not a directory"));
    }
    None
}

impl Config {
    /// Accepts a configuration of a project or names the first thing that is wrong with it.
    pub fn validate(&self, facts: &ProjectFacts) -> (r: Result<(), String>)
        requires
            facts.dependency_files@.len() == self.experiments.dependency_variants@.len(),
        ensures
            match r {
                Ok(()) => config_problem(*self, *facts) is None,
                Err(m) => config_problem(*self, *facts) == Some(m@),
            },
    {
        match self.find_problem(facts) {
            Some(m) => Err(m),
            None => Ok(()),
        }
    }

    fn find_problem(&self, facts: &ProjectFacts) -> (r: Option<String>)
        requires
            facts.dependency_files@.len() == self.experiments.dependency_variants@.len(),
        ensures
            r.deep_view() == config_problem(*self, *facts),
    {
        let e = &self.experiments;
        let problem = check_limits(self);
        if problem.is_some() {
            return problem;
        }
        let problem = check_outputs(&self.build.outputs);
        if problem.is_some() {
            return problem;
        }
        if let Err(m) = validate_relative_path(
            "build.working_directory",
            self.build.working_directory.as_str(),
        ) {
            return Some(m);
        }
        if e.image_variants.len() > 4 {
            return Some(
                "experiments.image_variants currently supports at most 4 alternative images".to_owned(),
            );
        }
        let problem = check_images(self.build.image.as_str(), &e.image_variants);
        if problem.is_some() {
            return problem;
        }
        let problem = check_bindings(&e.toolchain_variables);
        if problem.is_some() {
            return problem;
        }
        if e.dependency_variants.len() > 8 {
            return Some(
                "experiments.dependency_variants currently supports at most 8 variants".to_owned(),
            );
        }
        let problem = check_variants(&e.dependency_variants, &facts.dependency_files);
        if problem.is_some() {
            return problem;
        }
        check_later(self, facts)
    }
}

} // verus!
