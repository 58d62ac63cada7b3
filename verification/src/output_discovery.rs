//! Finding the files that a build makes.
use vstd::prelude::*;

use crate::artifact::generic::{detect_type, extension_lower, lower_extension, type_of};
use crate::model::ArtifactType;
use crate::ordering::{file_name, file_name_of, is_same_path, key, key_of, key_view, same_path, Order};
use crate::sorting::{sort, sorted, Keyed};
use crate::text::{begins_with, contains, decode, decoded_text, ends_with, finishes_with, lower};
use crate::text::{occurs, replace, replaced, same, starts_with, to_lower, trim, trimmed, CharClass};

verus! {

/// How long the build of a probe may take, in seconds.
pub const PROBE_SECONDS: u64 = 600;

pub const MAX_SCAN_FILES: usize = 100_000;

pub const MAX_CANDIDATES: usize = 12;

pub const FAILURE_OUTPUT_BYTES: usize = 16384;

#[derive(Debug, Clone, Copy, PartialEq, Eq, Structural)]
pub enum CandidateConfidence {
    High,
    Medium,
    Low,
}

pub open spec fn candidate_label(confidence: CandidateConfidence) -> Seq<char> {
    match confidence {
        CandidateConfidence::High => "high"@,
        CandidateConfidence::Medium => "medium"@,
        CandidateConfidence::Low => "low"@,
    }
}

impl CandidateConfidence {
    pub fn label(self) -> (r: &'static str)
        ensures
            r@ == candidate_label(self),
    {
        match self {
            CandidateConfidence::High => "high",
            CandidateConfidence::Medium => "medium",
            CandidateConfidence::Low => "low",
        }
    }
}

/// A file that a build may have been meant to make.
#[derive(Debug, PartialEq)]
pub struct OutputCandidate {
    pub path: String,
    pub kind: String,
    pub confidence: CandidateConfidence,
    pub size_bytes: u64,
    pub score: i32,
}

#[verifier::ext_equal]
pub struct OutputCandidateView {
    pub path: Seq<char>,
    pub kind: Seq<char>,
    pub confidence: CandidateConfidence,
    pub size_bytes: u64,
    pub score: i32,
}

impl DeepView for OutputCandidate {
    type V = OutputCandidateView;

    open spec fn deep_view(&self) -> OutputCandidateView {
        OutputCandidateView {
            path: self.path@,
            kind: self.kind@,
            confidence: self.confidence,
            size_bytes: self.size_bytes,
            score: self.score,
        }
    }
}

impl Clone for OutputCandidate {
    fn clone(&self) -> (r: OutputCandidate)
        ensures
            r.deep_view() == self.deep_view(),
    {
        OutputCandidate {
            path: self.path.clone(),
            kind: self.kind.clone(),
            confidence: self.confidence,
            size_bytes: self.size_bytes,
            score: self.score,
        }
    }
}

#[derive(Debug, PartialEq)]
pub struct OutputDiscoveryResult {
    pub candidates: Vec<OutputCandidate>,
    pub changed_file_count: usize,
    pub scan_truncated: bool,
}

/// Whether the build of a probe is to be stopped, given the seconds that it has begun.
pub fn is_overdue(elapsed_seconds: u64) -> (r: bool)
    ensures
        r == (elapsed_seconds > PROBE_SECONDS),
{
    elapsed_seconds > PROBE_SECONDS
}

/// What tells two states of a file apart.
#[derive(Debug, Clone, Copy, PartialEq, Eq, Structural)]
pub struct FileStamp {
    pub size_bytes: u64,
    pub modified_nanos: Option<u128>,
    pub mode: u32,
}

/// The files below a directory, each once, in the order in which they were met.
#[derive(Debug, PartialEq)]
pub struct Snapshot {
    pub files: Vec<(String, FileStamp)>,
    pub truncated: bool,
}

impl Snapshot {
    pub fn new() -> (r: Snapshot)
        ensures
            r.files@.len() == 0,
            !r.truncated,
    {
        Snapshot { files: Vec::new(), truncated: false }
    }

    /// Says whether there is room for one more file, and notes it where there is none.
    pub fn has_room(&mut self) -> (room: bool)
        ensures
            room == (old(self).files@.len() < MAX_SCAN_FILES),
            final(self).files == old(self).files,
            final(self).truncated == (old(self).truncated || !room),
    {
        if self.files.len() >= MAX_SCAN_FILES {
            self.truncated = true;
            return false;
        }
        true
    }

    /// Takes one more file, unless there are as many as a scan looks at. Says whether it did.
    pub fn record(&mut self, path: String, stamp: FileStamp) -> (taken: bool)
        ensures
            taken == (old(self).files@.len() < MAX_SCAN_FILES),
            taken ==> final(self).files@ == old(self).files@.push((path, stamp))
                && final(self).truncated == old(self).truncated,
            !taken ==> final(self).files == old(self).files && final(self).truncated,
    {
        if !self.has_room() {
            return false;
        }
        self.files.push((path, stamp));
        true
    }
}

/// The stamp of a file in a snapshot.
pub open spec fn stamp_from(files: Seq<(String, FileStamp)>, path: Seq<char>, from: int) -> Option<FileStamp>
    decreases files.len() - from,
{
    if from >= files.len() {
        None
    } else if is_same_path(files[from].0@, path) {
        Some(files[from].1)
    } else {
        stamp_from(files, path, from + 1)
    }
}

pub fn stamp_of(files: &Vec<(String, FileStamp)>, path: &str) -> (r: Option<FileStamp>)
    ensures
        r == stamp_from(files@, path@, 0),
{
    let mut i: usize = 0;
    while i < files.len()
        invariant
            i <= files@.len(),
            stamp_from(files@, path@, 0) == stamp_from(files@, path@, i as int),
        decreases files.len() - i,
    {
        if same_path(files[i].0.as_str(), path) {
            return Some(files[i].1);
        }
        i += 1;
    }
    None
}

/// Whether a file is new or another than before.
pub open spec fn is_changed(before: Seq<(String, FileStamp)>, file: (String, FileStamp)) -> bool {
    stamp_from(before, file.0@, 0) != Some(file.1)
}

pub fn changed(before: &Snapshot, file: &(String, FileStamp)) -> (r: bool)
    ensures
        r == is_changed(before.files@, *file),
{
    match stamp_of(&before.files, file.0.as_str()) {
        Some(stamp) => stamp != file.1,
        None => true,
    }
}

/// Whether a scan looks into an entry: not into a directory that holds no outputs. `depth` is that
/// below the directory that is scanned.
pub open spec fn descends(depth: nat, directory: bool, name: Seq<char>) -> bool {
    depth == 0 || !directory || !skipped_directory(name)
}

pub fn should_descend(depth: usize, directory: bool, name: &str) -> (r: bool)
    ensures
        r == descends(depth as nat, directory, name@),
{
    depth == 0 || !directory || !is_skipped_directory(name)
}

/// A path with slashes for backslashes.
pub open spec fn slashed(path: Seq<char>) -> Seq<char> {
    replaced(path, "\\"@, "/"@)
}

fn with_slashes(path: &str) -> (r: String)
    ensures
        r@ == slashed(path@),
{
    proof {
        reveal_strlit("\\");
    }
    replace(path, "\\", "/")
}

/// Whether a directory of this name holds no outputs.
pub open spec fn skipped_directory(s: Seq<char>) -> bool {
    ||| s == ".git"@
    ||| s == ".reprobisect"@
    ||| s == "node_modules"@
    ||| s == ".venv"@
    ||| s == "venv"@
    ||| s == "__pycache__"@
    ||| s == ".pytest_cache"@
    ||| s == ".mypy_cache"@
    ||| s == ".idea"@
    ||| s == ".vscode"@
}

fn is_skipped_directory(s: &str) -> (r: bool)
    ensures
        r == skipped_directory(s@),
{
    same(s, ".git")
        || same(s, ".reprobisect")
        || same(s, "node_modules")
        || same(s, ".venv")
        || same(s, "venv")
        || same(s, "__pycache__")
        || same(s, ".pytest_cache")
        || same(s, ".mypy_cache")
        || same(s, ".idea")
        || same(s, ".vscode")
}

/// Whether an extension is that of a package.
pub open spec fn package_extension(s: Seq<char>) -> bool {
    ||| s == "rpm"@
    ||| s == "apk"@
    ||| s == "gem"@
    ||| s == "nupkg"@
    ||| s == "crate"@
}

fn is_package_extension(s: &str) -> (r: bool)
    ensures
        r == package_extension(s@),
{
    same(s, "rpm")
        || same(s, "apk")
        || same(s, "gem")
        || same(s, "nupkg")
        || same(s, "crate")
}

/// Whether an extension is that of source text.
pub open spec fn source_extension(s: Seq<char>) -> bool {
    ||| s == "c"@
    ||| s == "cc"@
    ||| s == "cpp"@
    ||| s == "cxx"@
    ||| s == "h"@
    ||| s == "hpp"@
    ||| s == "rs"@
    ||| s == "go"@
    ||| s == "java"@
    ||| s == "kt"@
    ||| s == "py"@
    ||| s == "js"@
    ||| s == "mjs"@
    ||| s == "cjs"@
    ||| s == "ts"@
    ||| s == "tsx"@
    ||| s == "jsx"@
    ||| s == "sh"@
    ||| s == "bash"@
    ||| s == "zsh"@
    ||| s == "fish"@
    ||| s == "pl"@
    ||| s == "rb"@
}

fn source_like_extension(s: &str) -> (r: bool)
    ensures
        r == source_extension(s@),
{
    same(s, "c")
        || same(s, "cc")
        || same(s, "cpp")
        || same(s, "cxx")
        || same(s, "h")
        || same(s, "hpp")
        || same(s, "rs")
        || same(s, "go")
        || same(s, "java")
        || same(s, "kt")
        || same(s, "py")
        || same(s, "js")
        || same(s, "mjs")
        || same(s, "cjs")
        || same(s, "ts")
        || same(s, "tsx")
        || same(s, "jsx")
        || same(s, "sh")
        || same(s, "bash")
        || same(s, "zsh")
        || same(s, "fish")
        || same(s, "pl")
        || same(s, "rb")
}

/// Whether an extension is that of a file made on the way to an output.
pub open spec fn intermediate_extension(s: Seq<char>) -> bool {
    ||| s == "o"@
    ||| s == "obj"@
    ||| s == "d"@
    ||| s == "dep"@
    ||| s == "rmeta"@
    ||| s == "class"@
    ||| s == "pyc"@
    ||| s == "pyo"@
    ||| s == "tmp"@
    ||| s == "temp"@
    ||| s == "log"@
    ||| s == "stamp"@
}

fn obvious_intermediate_extension(s: &str) -> (r: bool)
    ensures
        r == intermediate_extension(s@),
{
    same(s, "o")
        || same(s, "obj")
        || same(s, "d")
        || same(s, "dep")
        || same(s, "rmeta")
        || same(s, "class")
        || same(s, "pyc")
        || same(s, "pyo")
        || same(s, "tmp")
        || same(s, "temp")
        || same(s, "log")
        || same(s, "stamp")
}

/// Whether a path lies where builds put their outputs.
pub open spec fn final_place(path: Seq<char>) -> bool {
    let value = slashed(path);
    ||| begins_with(value, "target/release/"@)
    ||| begins_with(value, "dist/"@)
    ||| begins_with(value, "bin/"@)
    ||| begins_with(value, "out/"@)
    ||| begins_with(value, "bazel-bin/"@)
    ||| begins_with(value, "build/bin/"@)
    ||| begins_with(value, "build/libs/"@)
}

fn likely_final_directory(path: &str) -> (r: bool)
    ensures
        r == final_place(path@),
{
    let value = with_slashes(path);
    starts_with(value.as_str(), "target/release/")
        || starts_with(value.as_str(), "dist/")
        || starts_with(value.as_str(), "bin/")
        || starts_with(value.as_str(), "out/")
        || starts_with(value.as_str(), "bazel-bin/")
        || starts_with(value.as_str(), "build/bin/")
        || starts_with(value.as_str(), "build/libs/")
}

/// Whether a path lies where builds put what they make on the way.
pub open spec fn intermediate_place(path: Seq<char>) -> bool {
    let value = slashed(path);
    ||| occurs(value, "/CMakeFiles/"@)
    ||| begins_with(value, "CMakeFiles/"@)
    ||| occurs(value, "/incremental/"@)
    ||| occurs(value, "/build/"@)
    ||| occurs(value, "/deps/"@)
    ||| occurs(value, "/tmp/"@)
    ||| occurs(value, "/classes/"@)
    ||| occurs(value, "/generated/"@)
}

fn likely_intermediate_path(path: &str) -> (r: bool)
    ensures
        r == intermediate_place(path@),
{
    let value = with_slashes(path);
    contains(value.as_str(), "/CMakeFiles/")
        || starts_with(value.as_str(), "CMakeFiles/")
        || contains(value.as_str(), "/incremental/")
        || contains(value.as_str(), "/build/")
        || contains(value.as_str(), "/deps/")
        || contains(value.as_str(), "/tmp/")
        || contains(value.as_str(), "/classes/")
        || contains(value.as_str(), "/generated/")
}

/// Whether some class of users may execute a file.
pub open spec fn is_executable(mode: u32) -> bool {
    (mode as int) % 2 == 1 || ((mode as int) / 8) % 2 == 1 || ((mode as int) / 64) % 2 == 1
}

/// What a file of no known format is, and how likely it is an output.
pub open spec fn generic_rating(path: Seq<char>, mode: u32) -> Option<(Seq<char>, int)> {
    let ext = lower_extension(path);
    if package_extension(ext) {
        Some(("package archive"@, 88))
    } else if ext == "so"@ || ext == "dylib"@ || ext == "dll"@ || occurs(lower(path), ".so."@) {
        Some(("shared library"@, 82))
    } else if ext == "a"@ || ext == "lib"@ {
        Some(("static library"@, 78))
    } else if ext == "exe"@ || ext == "bin"@ {
        Some(("executable artifact"@, 82))
    } else if is_executable(mode) && !source_extension(ext) {
        Some(("executable file"@, 72))
    } else {
        None
    }
}

/// What a file of some format is, and how likely it is an output.
pub open spec fn rating(path: Seq<char>, detected: ArtifactType, mode: u32) -> Option<(Seq<char>, int)> {
    let name = lower(path);
    match detected {
        ArtifactType::Elf => if lower_extension(path) == "so"@ || occurs(name, ".so."@) {
            Some(("ELF shared library"@, 88))
        } else {
            Some(("ELF executable"@, 95))
        },
        ArtifactType::PeCoff => Some(("PE/COFF binary"@, 92)),
        ArtifactType::MachO => Some(("Mach-O binary"@, 92)),
        ArtifactType::Wasm => Some(("WebAssembly module"@, 88)),
        ArtifactType::Jar => Some(("JAR package"@, 94)),
        ArtifactType::PythonWheel => Some(("Python wheel"@, 96)),
        ArtifactType::Deb => Some(("DEB package"@, 96)),
        ArtifactType::OciImage => Some(("OCI image archive"@, 94)),
        ArtifactType::Zip => Some(("ZIP archive"@, 80)),
        ArtifactType::Tar => Some(("TAR archive"@, 80)),
        ArtifactType::Gzip => if finishes_with(name, ".tar.gz"@) || finishes_with(name, ".tgz"@) {
            Some(("compressed package archive"@, 84))
        } else {
            Some(("gzip artifact"@, 68))
        },
        ArtifactType::Ar => Some(("static/archive library"@, 82)),
        ArtifactType::Generic => generic_rating(path, mode),
    }
}

fn generic_kind(path: &str, mode: u32) -> (r: Option<(&'static str, i32)>)
    ensures
        match r {
            Some((kind, score)) => 60 <= score <= 100 && generic_rating(path@, mode) == Some(
                (kind@, score as int),
            ),
            None => generic_rating(path@, mode) is None,
        },
{
    let name = to_lower(path);
    let ext = extension_lower(path);
    let ext = ext.as_str();
    if is_package_extension(ext) {
        return Some(("package archive", 88));
    }
    if same(ext, "so") || same(ext, "dylib") || same(ext, "dll") || contains(name.as_str(), ".so.") {
        return Some(("shared library", 82));
    }
    if same(ext, "a") || same(ext, "lib") {
        return Some(("static library", 78));
    }
    if same(ext, "exe") || same(ext, "bin") {
        return Some(("executable artifact", 82));
    }
    let executable = mode % 2 == 1 || (mode / 8) % 2 == 1 || (mode / 64) % 2 == 1;
    if executable && !source_like_extension(ext) {
        return Some(("executable file", 72));
    }
    None
}

fn kind_of(path: &str, detected: ArtifactType, mode: u32) -> (r: Option<(&'static str, i32)>)
    ensures
        match r {
            Some((kind, score)) => 60 <= score <= 100 && rating(path@, detected, mode) == Some(
                (kind@, score as int),
            ),
            None => rating(path@, detected, mode) is None,
        },
{
    let name = to_lower(path);
    match detected {
        ArtifactType::Elf => {
            let ext = extension_lower(path);
            if same(ext.as_str(), "so") || contains(name.as_str(), ".so.") {
                Some(("ELF shared library", 88))
            } else {
                Some(("ELF executable", 95))
            }
        },
        ArtifactType::PeCoff => Some(("PE/COFF binary", 92)),
        ArtifactType::MachO => Some(("Mach-O binary", 92)),
        ArtifactType::Wasm => Some(("WebAssembly module", 88)),
        ArtifactType::Jar => Some(("JAR package", 94)),
        ArtifactType::PythonWheel => Some(("Python wheel", 96)),
        ArtifactType::Deb => Some(("DEB package", 96)),
        ArtifactType::OciImage => Some(("OCI image archive", 94)),
        ArtifactType::Zip => Some(("ZIP archive", 80)),
        ArtifactType::Tar => Some(("TAR archive", 80)),
        ArtifactType::Gzip => {
            if ends_with(name.as_str(), ".tar.gz") || ends_with(name.as_str(), ".tgz") {
                Some(("compressed package archive", 84))
            } else {
                Some(("gzip artifact", 68))
            }
        },
        ArtifactType::Ar => Some(("static/archive library", 82)),
        ArtifactType::Generic => generic_kind(path, mode),
    }
}

/// Whether the name of a file begins with a dot.
pub open spec fn is_hidden(path: Seq<char>) -> bool {
    match file_name_of(path) {
        Some(name) => begins_with(name, "."@),
        None => false,
    }
}

fn hidden(path: &str) -> (r: bool)
    ensures
        r == is_hidden(path@),
{
    match file_name(path) {
        Some(name) => starts_with(name.as_str(), "."),
        None => false,
    }
}

/// A rating with what the place of the file adds to it and takes from it.
pub open spec fn placed_score(path: Seq<char>, base: int) -> int {
    base + (if final_place(path) {
        10int
    } else {
        0
    }) - (if intermediate_place(path) {
        35int
    } else {
        0
    }) - (if is_hidden(path) {
        20int
    } else {
        0
    })
}

pub open spec fn confidence_in(score: int) -> CandidateConfidence {
    if score >= 90 {
        CandidateConfidence::High
    } else if score >= 70 {
        CandidateConfidence::Medium
    } else {
        CandidateConfidence::Low
    }
}

/// The format of a file: nothing is known of one that cannot be read.
pub open spec fn detected_in(path: Seq<char>, content: Option<Seq<u8>>) -> ArtifactType {
    match content {
        Some(bytes) => type_of(path, bytes),
        None => ArtifactType::Generic,
    }
}

/// Whether the content of a changed file plays a part.
pub open spec fn may_be_output(path: Seq<char>, size: u64) -> bool {
    size != 0 && !intermediate_extension(lower_extension(path))
}

pub fn content_matters(path: &str, stamp: &FileStamp) -> (r: bool)
    ensures
        r == may_be_output(path@, stamp.size_bytes),
{
    let ext = extension_lower(path);
    stamp.size_bytes != 0 && !obvious_intermediate_extension(ext.as_str())
}

/// What a changed file is as an output, if it may be one.
pub open spec fn candidate_of(path: Seq<char>, stamp: FileStamp, content: Option<Seq<u8>>) -> Option<
    OutputCandidateView,
> {
    if !may_be_output(path, stamp.size_bytes) {
        None
    } else {
        match rating(path, detected_in(path, content), stamp.mode) {
            Some((kind, base)) => {
                let score = placed_score(path, base);
                if score < 55 {
                    None
                } else {
                    Some(
                        OutputCandidateView {
                            path,
                            kind,
                            confidence: confidence_in(score),
                            size_bytes: stamp.size_bytes,
                            score: score as i32,
                        },
                    )
                }
            },
            None => None,
        }
    }
}

pub fn classify_candidate(path: &str, stamp: &FileStamp, content: &Option<Vec<u8>>) -> (r: Option<OutputCandidate>)
    ensures
        r.deep_view() == candidate_of(path@, *stamp, content.deep_view()),
{
    if !content_matters(path, stamp) {
        return None;
    }
    let detected = match content {
        Some(bytes) => {
            assert(bytes.deep_view() =~= bytes@);
            detect_type(path, bytes.as_slice())
        },
        None => ArtifactType::Generic,
    };
    match kind_of(path, detected, stamp.mode) {
        Some((kind, base)) => {
            let mut score: i32 = base;
            if likely_final_directory(path) {
                score += 10;
            }
            if likely_intermediate_path(path) {
                score -= 35;
            }
            if hidden(path) {
                score -= 20;
            }
            if score < 55 {
                return None;
            }
            let confidence = if score >= 90 {
                CandidateConfidence::High
            } else if score >= 70 {
                CandidateConfidence::Medium
            } else {
                CandidateConfidence::Low
            };
            Some(
                OutputCandidate {
                    path: path.to_owned(),
                    kind: kind.to_owned(),
                    confidence,
                    size_bytes: stamp.size_bytes,
                    score,
                },
            )
        },
        None => None,
    }
}

/// The candidates among the first `n` files of a snapshot that changed.
pub open spec fn candidates_in(
    before: Seq<(String, FileStamp)>,
    after: Seq<(String, FileStamp)>,
    contents: Seq<Option<Seq<u8>>>,
    n: int,
) -> Seq<OutputCandidateView>
    decreases n,
{
    if n <= 0 {
        Seq::empty()
    } else {
        let rest = candidates_in(before, after, contents, n - 1);
        let file = after[n - 1];
        if is_changed(before, file) {
            match candidate_of(file.0@, file.1, contents[n - 1]) {
                Some(candidate) => rest.push(candidate),
                None => rest,
            }
        } else {
            rest
        }
    }
}

/// How many of the first `n` files of a snapshot changed.
pub open spec fn changed_count(
    before: Seq<(String, FileStamp)>,
    after: Seq<(String, FileStamp)>,
    n: int,
) -> nat
    decreases n,
{
    if n <= 0 {
        0
    } else {
        changed_count(before, after, n - 1) + if is_changed(before, after[n - 1]) {
            1nat
        } else {
            0
        }
    }
}

/// The candidates among the files that changed, in the order of the later snapshot, and how many
/// files changed. `contents` holds what could be read of each file of the later snapshot.
pub fn candidates_from_snapshots(
    before: &Snapshot,
    after: &Snapshot,
    contents: &Vec<Option<Vec<u8>>>,
) -> (r: (Vec<OutputCandidate>, usize))
    requires
        contents@.len() == after.files@.len(),
    ensures
        r.0.deep_view() == candidates_in(
            before.files@,
            after.files@,
            contents.deep_view(),
            after.files@.len() as int,
        ),
        r.1 == changed_count(before.files@, after.files@, after.files@.len() as int),
{
    let ghost all = contents.deep_view();
    let mut candidates: Vec<OutputCandidate> = Vec::new();
    let mut count: usize = 0;
    let mut i: usize = 0;
    assert(candidates.deep_view() =~= Seq::<OutputCandidateView>::empty());
    while i < after.files.len()
        invariant
            contents@.len() == after.files@.len(),
            all == contents.deep_view(),
            i <= after.files@.len(),
            count <= i,
            candidates.deep_view() == candidates_in(before.files@, after.files@, all, i as int),
            count == changed_count(before.files@, after.files@, i as int),
        decreases after.files.len() - i,
    {
        let file = &after.files[i];
        assert(all[i as int] == contents@[i as int].deep_view());
        if changed(before, file) {
            count += 1;
            match classify_candidate(file.0.as_str(), &file.1, &contents[i]) {
                Some(candidate) => {
                    let ghost had = candidates.deep_view();
                    let ghost view = candidate.deep_view();
                    candidates.push(candidate);
                    assert(candidates.deep_view() =~= had.push(view));
                },
                None => {},
            }
        }
        i += 1;
    }
    (candidates, count)
}

impl Keyed for OutputCandidate {
    open spec fn sort_key(v: OutputCandidateView) -> Seq<int> {
        seq![2147483647 - v.score as int] + key_of(Order::Path, v.path)
    }

    fn key_numbers(&self) -> (r: Vec<u32>) {
        let mut numbers: Vec<u32> = Vec::new();
        numbers.push((2147483647i64 - self.score as i64) as u32);
        let mut rest = key(Order::Path, self.path.as_str());
        let ghost tail = rest@;
        numbers.append(&mut rest);
        assert(key_view(numbers@) =~= seq![2147483647 - self.score as int] + key_view(tail));
        numbers
    }
}

/// The first `n` items of a list, or all.
pub open spec fn at_most<T>(s: Seq<T>, n: int) -> Seq<T> {
    if s.len() <= n {
        s
    } else {
        s.take(n)
    }
}

/// The best candidates, those with the highest scores, in the order of their paths where the scores
/// are equal.
pub fn rank_candidates(
    candidates: Vec<OutputCandidate>,
    changed_file_count: usize,
    scan_truncated: bool,
) -> (r: OutputDiscoveryResult)
    ensures
        r.candidates.deep_view() == at_most(
            sorted::<OutputCandidate>(candidates.deep_view()),
            MAX_CANDIDATES as int,
        ),
        r.changed_file_count == changed_file_count,
        r.scan_truncated == scan_truncated,
{
    let mut candidates = sort(candidates);
    let ghost all = candidates.deep_view();
    candidates.truncate(MAX_CANDIDATES);
    assert(candidates.deep_view() =~= at_most(all, MAX_CANDIDATES as int));
    OutputDiscoveryResult { candidates, changed_file_count, scan_truncated }
}

/// What a build made, from the files before and after it.
pub fn discover_from_snapshots(
    before: &Snapshot,
    after: &Snapshot,
    contents: &Vec<Option<Vec<u8>>>,
) -> (r: OutputDiscoveryResult)
    requires
        contents@.len() == after.files@.len(),
    ensures
        r.candidates.deep_view() == at_most(
            sorted::<OutputCandidate>(
                candidates_in(
                    before.files@,
                    after.files@,
                    contents.deep_view(),
                    after.files@.len() as int,
                ),
            ),
            MAX_CANDIDATES as int,
        ),
        r.changed_file_count == changed_count(
            before.files@,
            after.files@,
            after.files@.len() as int,
        ),
        r.scan_truncated == (before.truncated || after.truncated),
{
    let (candidates, count) = candidates_from_snapshots(before, after, contents);
    rank_candidates(candidates, count, before.truncated || after.truncated)
}

/// The last `n` items of a list, or all.
pub open spec fn last_of<T>(s: Seq<T>, n: int) -> Seq<T> {
    if s.len() <= n {
        s
    } else {
        s.subrange(s.len() - n, s.len() as int)
    }
}

/// Takes in one more piece of an output of which only the end is kept.
pub fn keep_tail(retained: &mut Vec<u8>, chunk: &[u8])
    ensures
        final(retained)@ == last_of(old(retained)@ + chunk@, FAILURE_OUTPUT_BYTES as int),
{
    let ghost had = retained@;
    let ghost whole = had + chunk@;
    let limit: usize = FAILURE_OUTPUT_BYTES;
    let read: usize = chunk.len();
    let kept: usize = retained.len();
    let first: usize = if read >= limit {
        read - limit
    } else {
        0
    };
    let mut result: Vec<u8> = Vec::new();
    let mut from: usize = if read >= limit {
        kept
    } else if kept > limit - read {
        kept - (limit - read)
    } else {
        0
    };
    let ghost start = from as int;
    while from < kept
        invariant
            had == retained@,
            kept == retained@.len(),
            0 <= start <= from <= kept,
            result@ == had.subrange(start, from as int),
        decreases kept - from,
    {
        result.push(retained[from]);
        assert(had.subrange(start, from + 1) =~= had.subrange(start, from as int).push(
            had[from as int],
        ));
        from += 1;
    }
    let mut i: usize = first;
    assert(chunk@.subrange(first as int, first as int) =~= Seq::<u8>::empty());
    assert(result@ == had.subrange(start, kept as int) + chunk@.subrange(first as int, i as int));
    while i < read
        invariant
            read == chunk@.len(),
            kept == had.len(),
            0 <= start <= kept,
            first <= i <= read,
            result@ == had.subrange(start, kept as int) + chunk@.subrange(first as int, i as int),
        decreases read - i,
    {
        result.push(chunk[i]);
        assert(chunk@.subrange(first as int, i + 1) =~= chunk@.subrange(first as int, i as int).push(
            chunk@[i as int],
        ));
        i += 1;
    }
    assert(result@ =~= last_of(whole, FAILURE_OUTPUT_BYTES as int));
    *retained = result;
}

/// The text that is kept of an output, without surrounding white space.
pub fn tail_text(retained: &Vec<u8>) -> (r: String)
    ensures
        r@ == trimmed(decoded_text(retained@), CharClass::White),
{
    trim(decode(retained.as_slice()).as_str(), CharClass::White)
}

/// What makes a probe of the outputs impossible.
pub fn probe_problem(command: &Vec<String>) -> (r: Option<String>)
    ensures
        r.deep_view() == if command@.len() == 0 {
            Some("cannot probe outputs with an empty build command"@)
        } else {
            None
        },
{
    if command.len() == 0 {
        return Some("cannot probe outputs with an empty build command".to_owned());
    }
    None
}

/// The arguments with which a runtime runs the build that shows the outputs.
pub open spec fn probe_arguments(
    workspace: Seq<char>,
    user: Option<Seq<char>>,
    image: Seq<char>,
    command: Seq<Seq<char>>,
) -> Seq<Seq<char>> {
    let head = seq![
        "run"@,
        "--rm"@,
        "--volume"@,
        workspace + ":/workspace"@,
        "--workdir"@,
        "/workspace"@,
        "--env"@,
        "HOME=/tmp/reprobisect-home"@,
        "--env"@,
        "CARGO_HOME=/tmp/reprobisect-cargo"@,
        "--env"@,
        "GRADLE_USER_HOME=/tmp/reprobisect-gradle"@,
        "--env"@,
        "NPM_CONFIG_CACHE=/tmp/reprobisect-npm"@,
        "--env"@,
        "PIP_CACHE_DIR=/tmp/reprobisect-pip"@,
    ];
    let identified = match user {
        Some(user) => head + seq!["--user"@, user],
        None => head,
    };
    identified.push(image) + command
}

fn push_argument(arguments: &mut Vec<String>, argument: &str)
    ensures
        final(arguments).deep_view() == old(arguments).deep_view().push(argument@),
{
    let ghost had = arguments.deep_view();
    arguments.push(argument.to_owned());
    assert(arguments.deep_view() =~= had.push(argument@));
}

/// The arguments of the build. `user` is the owner of the workspace, as `uid:gid`.
pub fn run_arguments(workspace: &str, user: &Option<String>, image: &str, command: &Vec<String>) -> (r: Vec<String>)
    ensures
        r.deep_view() == probe_arguments(workspace@, user.deep_view(), image@, command.deep_view()),
{
    let ghost all = command.deep_view();
    let mut arguments: Vec<String> = Vec::new();
    assert(arguments.deep_view() =~= Seq::<Seq<char>>::empty());
    push_argument(&mut arguments, "run");
    push_argument(&mut arguments, "--rm");
    push_argument(&mut arguments, "--volume");
    push_argument(&mut arguments, crate::text::concat(workspace, ":/workspace").as_str());
    push_argument(&mut arguments, "--workdir");
    push_argument(&mut arguments, "/workspace");
    push_argument(&mut arguments, "--env");
    push_argument(&mut arguments, "HOME=/tmp/reprobisect-home");
    push_argument(&mut arguments, "--env");
    push_argument(&mut arguments, "CARGO_HOME=/tmp/reprobisect-cargo");
    push_argument(&mut arguments, "--env");
    push_argument(&mut arguments, "GRADLE_USER_HOME=/tmp/reprobisect-gradle");
    push_argument(&mut arguments, "--env");
    push_argument(&mut arguments, "NPM_CONFIG_CACHE=/tmp/reprobisect-npm");
    push_argument(&mut arguments, "--env");
    push_argument(&mut arguments, "PIP_CACHE_DIR=/tmp/reprobisect-pip");
    let ghost head = arguments.deep_view();
    match user {
        Some(user) => {
            push_argument(&mut arguments, "--user");
            push_argument(&mut arguments, user.as_str());
            assert(arguments.deep_view() =~= head + seq!["--user"@, user@]);
        },
        None => {},
    }
    push_argument(&mut arguments, image);
    let ghost base = arguments.deep_view();
    let mut i: usize = 0;
    assert(base + all.take(0) =~= base);
    while i < command.len()
        invariant
            all == command.deep_view(),
            i <= command@.len(),
            arguments.deep_view() == base + all.take(i as int),
        decreases command.len() - i,
    {
        assert(all[i as int] == command@[i as int]@);
        push_argument(&mut arguments, command[i].as_str());
        assert(base + all.take(i + 1) =~= (base + all.take(i as int)).push(all[i as int]));
        i += 1;
    }
    assert(all.take(all.len() as int) =~= all);
    arguments
}

/// A captured stream in a message, if there is anything in it.
pub open spec fn stream_text(label: Seq<char>, captured: Seq<char>) -> Seq<char> {
    if captured.len() == 0 {
        ""@
    } else {
        label + captured
    }
}

fn show_stream(label: &str, captured: &str) -> (r: String)
    ensures
        r@ == stream_text(label@, captured@),
{
    if crate::text::chars_of(captured).len() == 0 {
        "".to_owned()
    } else {
        crate::text::concat(label, captured)
    }
}

/// The message for a build that failed.
pub fn probe_failure(status: &str, stdout: &str, stderr: &str) -> (r: String)
    ensures
        r@ == "temporary discovery build failed with status "@ + status@ + stream_text(
            "\nstderr (tail):\n"@,
            stderr@,
        ) + stream_text("\nstdout (tail):\n"@, stdout@),
{
    let mut text = "temporary discovery build failed with status ".to_owned();
    text.push_str(status);
    text.push_str(show_stream("\nstderr (tail):\n", stderr).as_str());
    text.push_str(show_stream("\nstdout (tail):\n", stdout).as_str());
    text
}

/// What is kept of an output is an end of it, no longer than the limit, whatever the pieces in which
/// it came.
pub proof fn law_the_kept_tail_does_not_depend_on_the_pieces(a: Seq<u8>, b: Seq<u8>, c: Seq<u8>)
    ensures
        last_of(last_of(a + b, FAILURE_OUTPUT_BYTES as int) + c, FAILURE_OUTPUT_BYTES as int)
            == last_of(a + b + c, FAILURE_OUTPUT_BYTES as int),
        last_of(a, FAILURE_OUTPUT_BYTES as int).len() <= FAILURE_OUTPUT_BYTES,
        finishes_with(a, last_of(a, FAILURE_OUTPUT_BYTES as int)),
{
    let n = FAILURE_OUTPUT_BYTES as int;
    let whole = a + b;
    if whole.len() > n {
        let tail = last_of(whole, n);
        assert(last_of(tail + c, n) =~= last_of(whole + c, n));
    }
    assert(a.subrange(a.len() - last_of(a, n).len(), a.len() as int) =~= last_of(a, n));
}

/// A file that did not change is no candidate, and a candidate is one that changed.
pub proof fn law_candidates_changed(
    before: Seq<(String, FileStamp)>,
    after: Seq<(String, FileStamp)>,
    contents: Seq<Option<Seq<u8>>>,
    n: int,
)
    requires
        0 <= n <= after.len(),
        contents.len() == after.len(),
    ensures
        candidates_in(before, after, contents, n).len() <= changed_count(before, after, n) <= n,
        forall|i: int|
            0 <= i < candidates_in(before, after, contents, n).len() ==> exists|k: int|
                0 <= k < n && is_changed(before, #[trigger] after[k]) && after[k].0@ == (
                #[trigger] candidates_in(before, after, contents, n)[i]).path,
    decreases n,
{
    if n > 0 {
        law_candidates_changed(before, after, contents, n - 1);
        let rest = candidates_in(before, after, contents, n - 1);
        let all = candidates_in(before, after, contents, n);
        assert forall|i: int| 0 <= i < all.len() implies exists|k: int|
            0 <= k < n && is_changed(before, #[trigger] after[k]) && after[k].0@ == (
            #[trigger] all[i]).path by {
            if i < rest.len() {
                assert(all[i] == rest[i]);
                let k = choose|k: int|
                    0 <= k < n - 1 && is_changed(before, #[trigger] after[k]) && after[k].0@
                        == rest[i].path;
                assert(is_changed(before, after[k]) && after[k].0@ == all[i].path);
            } else {
                assert(is_changed(before, after[n - 1]));
                assert(after[n - 1].0@ == all[i].path);
            }
        }
    }
}

/// Every candidate is rated well enough, and its confidence follows from its rating.
pub proof fn law_candidates_are_rated(path: Seq<char>, stamp: FileStamp, content: Option<Seq<u8>>)
    ensures
        match candidate_of(path, stamp, content) {
            Some(candidate) => {
                &&& 55 <= candidate.score <= 106
                &&& candidate.confidence == confidence_in(candidate.score as int)
                &&& candidate.size_bytes > 0
                &&& candidate.path == path
            },
            None => true,
        },
{
}

} // verus!
