//! A first configuration for a project, from the files that it has.
use vstd::prelude::*;
use vstd::utf8::encode_utf8;

use crate::json::{document_in, field_of, parse_json, text_in, text_of_json, Json, JsonView};
use crate::model::RunnerBackend;
use crate::numbers::digit_char;
use crate::ordering::{extension, extension_of};
use crate::output_discovery::{CandidateConfidence, OutputCandidateView, OutputDiscoveryResult};
use crate::text::{
    ascii_alphanumeric, ascii_digit, begins_with, chars_of, concat, concat3, concat5, contains_char,
    debug_text, first_from, has_char, is_alphanumeric, is_digit, is_white, join, joined,
    lemma_same_start, lines, lines_of, push_line, quoted, replace, replaced, same, split_first, split_once, starts_with,
    strip_prefix, text_between, trim, trim_end, trim_start, trimmed, trimmed_end, trimmed_start,
    words, words_of, CharClass,
};
use crate::toml_tree::{entry, entry_of, parse_toml, string_in, string_of_toml, toml_in};
use crate::toml_tree::{view_toml, view_toml_option, Toml, TomlView};

verus! {

#[derive(Debug, Clone, Copy, PartialEq, Eq, Structural)]
pub enum DetectionConfidence {
    High,
    Medium,
    Low,
}

pub open spec fn detection_label(confidence: DetectionConfidence) -> Seq<char> {
    match confidence {
        DetectionConfidence::High => "high"@,
        DetectionConfidence::Medium => "medium"@,
        DetectionConfidence::Low => "low"@,
    }
}

impl DetectionConfidence {
    pub fn label(self) -> (r: &'static str)
        ensures
            r@ == detection_label(self),
    {
        match self {
            DetectionConfidence::High => "high",
            DetectionConfidence::Medium => "medium",
            DetectionConfidence::Low => "low",
        }
    }
}

/// The build systems that are known, in the order in which one is preferred.
#[derive(Debug, Clone, Copy, PartialEq, Eq, Structural)]
pub enum ProjectKind {
    Cargo,
    Go,
    NodePnpm,
    NodeNpm,
    Maven,
    Gradle,
    Bazel,
    Meson,
    CMake,
    Autotools,
    Python,
    Make,
    Generic,
}

pub open spec fn project_label(kind: ProjectKind) -> Seq<char> {
    match kind {
        ProjectKind::Cargo => "Cargo"@,
        ProjectKind::Go => "Go"@,
        ProjectKind::NodePnpm => "Node.js / pnpm"@,
        ProjectKind::NodeNpm => "Node.js / npm"@,
        ProjectKind::Maven => "Maven"@,
        ProjectKind::Gradle => "Gradle"@,
        ProjectKind::Bazel => "Bazel"@,
        ProjectKind::Meson => "Meson"@,
        ProjectKind::CMake => "CMake"@,
        ProjectKind::Autotools => "Autotools"@,
        ProjectKind::Python => "Python packaging"@,
        ProjectKind::Make => "Make"@,
        ProjectKind::Generic => "generic / unknown"@,
    }
}

impl ProjectKind {
    pub fn label(self) -> (r: &'static str)
        ensures
            r@ == project_label(self),
    {
        match self {
            ProjectKind::Cargo => "Cargo",
            ProjectKind::Go => "Go",
            ProjectKind::NodePnpm => "Node.js / pnpm",
            ProjectKind::NodeNpm => "Node.js / npm",
            ProjectKind::Maven => "Maven",
            ProjectKind::Gradle => "Gradle",
            ProjectKind::Bazel => "Bazel",
            ProjectKind::Meson => "Meson",
            ProjectKind::CMake => "CMake",
            ProjectKind::Autotools => "Autotools",
            ProjectKind::Python => "Python packaging",
            ProjectKind::Make => "Make",
            ProjectKind::Generic => "generic / unknown",
        }
    }
}

/// What a first configuration of a project says.
#[derive(Debug, PartialEq)]
pub struct InitPlan {
    pub detected_project: String,
    pub confidence: DetectionConfidence,
    pub image: String,
    pub command: Vec<String>,
    pub outputs: Vec<String>,
    pub notes: Vec<String>,
}

#[verifier::ext_equal]
pub struct InitPlanView {
    pub detected_project: Seq<char>,
    pub confidence: DetectionConfidence,
    pub image: Seq<char>,
    pub command: Seq<Seq<char>>,
    pub outputs: Seq<Seq<char>>,
    pub notes: Seq<Seq<char>>,
}

impl DeepView for InitPlan {
    type V = InitPlanView;

    open spec fn deep_view(&self) -> InitPlanView {
        InitPlanView {
            detected_project: self.detected_project@,
            confidence: self.confidence,
            image: self.image@,
            command: self.command.deep_view(),
            outputs: self.outputs.deep_view(),
            notes: self.notes.deep_view(),
        }
    }
}

impl Clone for InitPlan {
    fn clone(&self) -> (r: InitPlan)
        ensures
            r.deep_view() == self.deep_view(),
    {
        let r = InitPlan {
            detected_project: self.detected_project.clone(),
            confidence: self.confidence,
            image: self.image.clone(),
            command: self.command.clone(),
            outputs: self.outputs.clone(),
            notes: self.notes.clone(),
        };
        assert(r.command.deep_view() =~= self.command.deep_view());
        assert(r.outputs.deep_view() =~= self.outputs.deep_view());
        assert(r.notes.deep_view() =~= self.notes.deep_view());
        r
    }
}

/// The files at the root of a project that tell its build system: each with its name and, where it
/// can be read, its text. `go_sources` holds the texts of the Go files there.
#[derive(Debug, PartialEq)]
pub struct ProjectFiles {
    pub files: Vec<(String, Option<String>)>,
    pub go_sources: Vec<String>,
}

pub struct ProjectFilesView {
    pub files: Seq<(Seq<char>, Option<Seq<char>>)>,
    pub go_sources: Seq<Seq<char>>,
}

impl DeepView for ProjectFiles {
    type V = ProjectFilesView;

    open spec fn deep_view(&self) -> ProjectFilesView {
        ProjectFilesView {
            files: self.files.deep_view(),
            go_sources: self.go_sources.deep_view(),
        }
    }
}

pub open spec fn file_from(
    files: Seq<(Seq<char>, Option<Seq<char>>)>,
    name: Seq<char>,
    from: int,
) -> Option<Option<Seq<char>>>
    decreases files.len() - from,
{
    if from >= files.len() {
        None
    } else if files[from].0 == name {
        Some(files[from].1)
    } else {
        file_from(files, name, from + 1)
    }
}

/// Whether the project has a file of this name.
pub open spec fn has(f: ProjectFilesView, name: Seq<char>) -> bool {
    file_from(f.files, name, 0) is Some
}

/// The text of the file of this name.
pub open spec fn text_at(f: ProjectFilesView, name: Seq<char>) -> Option<Seq<char>> {
    match file_from(f.files, name, 0) {
        Some(text) => text,
        None => None,
    }
}

fn find_file(files: &ProjectFiles, name: &str) -> (r: Option<usize>)
    ensures
        match r {
            Some(i) => i < files.files@.len() && file_from(files.deep_view().files, name@, 0)
                == Some(files.files@[i as int].1.deep_view()),
            None => file_from(files.deep_view().files, name@, 0) is None,
        },
{
    let ghost all = files.deep_view().files;
    let mut i: usize = 0;
    while i < files.files.len()
        invariant
            all == files.files.deep_view(),
            i <= files.files@.len(),
            file_from(all, name@, 0) == file_from(all, name@, i as int),
        decreases files.files.len() - i,
    {
        assert(all[i as int] == files.files@[i as int].deep_view());
        if same(files.files[i].0.as_str(), name) {
            return Some(i);
        }
        i += 1;
    }
    None
}

fn has_file(files: &ProjectFiles, name: &str) -> (r: bool)
    ensures
        r == has(files.deep_view(), name@),
{
    find_file(files, name).is_some()
}

fn read<'a>(files: &'a ProjectFiles, name: &str) -> (r: Option<&'a String>)
    ensures
        match r {
            Some(text) => text_at(files.deep_view(), name@) == Some(text@),
            None => text_at(files.deep_view(), name@) is None,
        },
{
    match find_file(files, name) {
        Some(i) => match &files.files[i].1 {
            Some(text) => Some(text),
            None => None,
        },
        None => None,
    }
}

/// The names of the files that tell a build system.
pub open spec fn told_by() -> Seq<Seq<char>> {
    seq!["Cargo.toml"@, "go.mod"@, "package.json"@, "pnpm-lock.yaml"@, "package-lock.json"@, "pom.xml"@, "gradlew"@, "build.gradle"@, "build.gradle.kts"@, "settings.gradle"@, "settings.gradle.kts"@, "MODULE.bazel"@, "WORKSPACE"@, "WORKSPACE.bazel"@, "BUILD"@, "BUILD.bazel"@, "meson.build"@, "CMakeLists.txt"@, "configure.ac"@, "configure.in"@, "configure"@, "pyproject.toml"@, "setup.py"@, "setup.cfg"@, "GNUmakefile"@, "Makefile"@, "makefile"@, "Cargo.lock"@, "Makefile.am"@]
}

pub fn marker_names() -> (r: Vec<String>)
    ensures
        r.deep_view() == told_by(),
{
    let mut names: Vec<String> = Vec::new();
    assert(names.deep_view() =~= Seq::<Seq<char>>::empty());
    push_line(&mut names, "Cargo.toml".to_owned());
    push_line(&mut names, "go.mod".to_owned());
    push_line(&mut names, "package.json".to_owned());
    push_line(&mut names, "pnpm-lock.yaml".to_owned());
    push_line(&mut names, "package-lock.json".to_owned());
    push_line(&mut names, "pom.xml".to_owned());
    push_line(&mut names, "gradlew".to_owned());
    push_line(&mut names, "build.gradle".to_owned());
    push_line(&mut names, "build.gradle.kts".to_owned());
    push_line(&mut names, "settings.gradle".to_owned());
    push_line(&mut names, "settings.gradle.kts".to_owned());
    push_line(&mut names, "MODULE.bazel".to_owned());
    push_line(&mut names, "WORKSPACE".to_owned());
    push_line(&mut names, "WORKSPACE.bazel".to_owned());
    push_line(&mut names, "BUILD".to_owned());
    push_line(&mut names, "BUILD.bazel".to_owned());
    push_line(&mut names, "meson.build".to_owned());
    push_line(&mut names, "CMakeLists.txt".to_owned());
    push_line(&mut names, "configure.ac".to_owned());
    push_line(&mut names, "configure.in".to_owned());
    push_line(&mut names, "configure".to_owned());
    push_line(&mut names, "pyproject.toml".to_owned());
    push_line(&mut names, "setup.py".to_owned());
    push_line(&mut names, "setup.cfg".to_owned());
    push_line(&mut names, "GNUmakefile".to_owned());
    push_line(&mut names, "Makefile".to_owned());
    push_line(&mut names, "makefile".to_owned());
    push_line(&mut names, "Cargo.lock".to_owned());
    push_line(&mut names, "Makefile.am".to_owned());
    assert(names.deep_view() =~= told_by());
    names
}

/// Whether a file holds Go source, by its name.
pub fn is_go_source(name: &str) -> (r: bool)
    ensures
        r == (extension_of(name@) == Some("go"@)),
{
    match extension(name) {
        Some(text) => same(text.as_str(), "go"),
        None => false,
    }
}

pub open spec fn with_kind(kinds: Seq<ProjectKind>, found: bool, kind: ProjectKind) -> Seq<
    ProjectKind,
> {
    if found {
        kinds.push(kind)
    } else {
        kinds
    }
}

/// The build systems that a project shows, the preferred one first.
#[verifier::opaque]
pub open spec fn kinds_in(f: ProjectFilesView) -> Seq<ProjectKind> {
    let k1 = with_kind(Seq::empty(), has(f, "Cargo.toml"@), ProjectKind::Cargo);
    let k2 = with_kind(k1, has(f, "go.mod"@), ProjectKind::Go);
    let k3 = if has(f, "package.json"@) && has(f, "pnpm-lock.yaml"@) {
        k2.push(ProjectKind::NodePnpm)
    } else if has(f, "package.json"@) {
        k2.push(ProjectKind::NodeNpm)
    } else {
        k2
    };
    let k4 = with_kind(k3, has(f, "pom.xml"@), ProjectKind::Maven);
    let k5 = with_kind(k4, has(f, "gradlew"@) || has(f, "build.gradle"@) || has(f, "build.gradle.kts"@) || has(f, "settings.gradle"@) || has(f, "settings.gradle.kts"@), ProjectKind::Gradle);
    let k6 = with_kind(k5, has(f, "MODULE.bazel"@) || has(f, "WORKSPACE"@) || has(f, "WORKSPACE.bazel"@) || has(f, "BUILD"@) || has(f, "BUILD.bazel"@), ProjectKind::Bazel);
    let k7 = with_kind(k6, has(f, "meson.build"@), ProjectKind::Meson);
    let k8 = with_kind(k7, has(f, "CMakeLists.txt"@), ProjectKind::CMake);
    let k9 = with_kind(k8, has(f, "configure.ac"@) || has(f, "configure.in"@) || has(f, "configure"@), ProjectKind::Autotools);
    let k10 = with_kind(k9, has(f, "pyproject.toml"@) || has(f, "setup.py"@) || has(f, "setup.cfg"@), ProjectKind::Python);
    let k11 = with_kind(k10, has(f, "GNUmakefile"@) || has(f, "Makefile"@) || has(f, "makefile"@), ProjectKind::Make);
    k11
}

pub fn detected_kinds(files: &ProjectFiles) -> (r: Vec<ProjectKind>)
    ensures
        r@ == kinds_in(files.deep_view()),
{
    reveal(kinds_in);
    let mut kinds: Vec<ProjectKind> = Vec::new();
    if has_file(files, "Cargo.toml") {
        kinds.push(ProjectKind::Cargo);
    }
    if has_file(files, "go.mod") {
        kinds.push(ProjectKind::Go);
    }
    if has_file(files, "package.json") && has_file(files, "pnpm-lock.yaml") {
        kinds.push(ProjectKind::NodePnpm);
    } else if has_file(files, "package.json") {
        kinds.push(ProjectKind::NodeNpm);
    }
    if has_file(files, "pom.xml") {
        kinds.push(ProjectKind::Maven);
    }
    if has_file(files, "gradlew") || has_file(files, "build.gradle") || has_file(files, "build.gradle.kts") || has_file(files, "settings.gradle") || has_file(files, "settings.gradle.kts") {
        kinds.push(ProjectKind::Gradle);
    }
    if has_file(files, "MODULE.bazel") || has_file(files, "WORKSPACE") || has_file(files, "WORKSPACE.bazel") || has_file(files, "BUILD") || has_file(files, "BUILD.bazel") {
        kinds.push(ProjectKind::Bazel);
    }
    if has_file(files, "meson.build") {
        kinds.push(ProjectKind::Meson);
    }
    if has_file(files, "CMakeLists.txt") {
        kinds.push(ProjectKind::CMake);
    }
    if has_file(files, "configure.ac") || has_file(files, "configure.in") || has_file(files, "configure") {
        kinds.push(ProjectKind::Autotools);
    }
    if has_file(files, "pyproject.toml") || has_file(files, "setup.py") || has_file(files, "setup.cfg") {
        kinds.push(ProjectKind::Python);
    }
    if has_file(files, "GNUmakefile") || has_file(files, "Makefile") || has_file(files, "makefile") {
        kinds.push(ProjectKind::Make);
    }
    kinds
}

/// A plan with one output and one note.
pub open spec fn plan_with(
    project: Seq<char>,
    confidence: DetectionConfidence,
    image: Seq<char>,
    command: Seq<Seq<char>>,
    output: Seq<char>,
    note: Seq<char>,
) -> InitPlanView {
    InitPlanView {
        detected_project: project,
        confidence,
        image,
        command,
        outputs: seq![output],
        notes: seq![note],
    }
}

fn one_text(text: &str) -> (r: Vec<String>)
    ensures
        r.deep_view() == seq![text@],
{
    let mut list: Vec<String> = Vec::new();
    list.push(text.to_owned());
    assert(list.deep_view() =~= seq![text@]);
    list
}

fn new_plan(
    project: &str,
    confidence: DetectionConfidence,
    image: &str,
    command: Vec<String>,
    output: &str,
    note: &str,
) -> (r: InitPlan)
    ensures
        r.deep_view() == plan_with(
            project@,
            confidence,
            image@,
            command.deep_view(),
            output@,
            note@,
        ),
{
    InitPlan {
        detected_project: project.to_owned(),
        confidence,
        image: image.to_owned(),
        command,
        outputs: one_text(output),
        notes: one_text(note),
    }
}

fn three(a: &str, b: &str, c: &str) -> (r: Vec<String>)
    ensures
        r.deep_view() == seq![a@, b@, c@],
{
    let mut list: Vec<String> = Vec::new();
    list.push(a.to_owned());
    list.push(b.to_owned());
    list.push(c.to_owned());
    assert(list.deep_view() =~= seq![a@, b@, c@]);
    list
}

fn four(a: &str, b: &str, c: &str, d: &str) -> (r: Vec<String>)
    ensures
        r.deep_view() == seq![a@, b@, c@, d@],
{
    let mut list = three(a, b, c);
    push_line(&mut list, d.to_owned());
    assert(seq![a@, b@, c@].push(d@) =~= seq![a@, b@, c@, d@]);
    list
}

/// A command that a shell runs.
pub open spec fn in_shell(script: Seq<char>) -> Seq<Seq<char>> {
    seq!["sh"@, "-lc"@, script]
}

fn shell(script: &str) -> (r: Vec<String>)
    ensures
        r.deep_view() == in_shell(script@),
{
    three("sh", "-lc", script)
}

/// The first position at or after `from` with a decimal digit.
pub open spec fn digit_from(s: Seq<char>, from: int) -> Option<int>
    decreases s.len() - from,
{
    if from >= s.len() {
        None
    } else if is_digit(s[from]) {
        Some(from)
    } else {
        digit_from(s, from + 1)
    }
}

/// The first position at or after `from` with neither a digit nor a dot, or the end.
pub open spec fn version_end(s: Seq<char>, from: int) -> int
    decreases s.len() - from,
{
    if from >= s.len() || !(is_digit(s[from]) || s[from] == '.') {
        from
    } else {
        version_end(s, from + 1)
    }
}

/// The first number with dots in a text.
pub open spec fn version_in(input: Seq<char>) -> Option<Seq<char>> {
    let value = trimmed(input, CharClass::White);
    match digit_from(value, 0) {
        None => None,
        Some(start) => {
            let version = trimmed_end(
                value.subrange(start, version_end(value, start)),
                CharClass::One('.'),
            );
            if version.len() > 0 {
                Some(version)
            } else {
                None
            }
        },
    }
}

fn version_prefix(input: &str) -> (r: Option<String>)
    ensures
        r.deep_view() == version_in(input@),
{
    let value = trim(input, CharClass::White);
    let chars = chars_of(value.as_str());
    let mut start: usize = 0;
    while start < chars.len() && !ascii_digit(chars[start])
        invariant
            start <= chars@.len(),
            digit_from(chars@, 0) == digit_from(chars@, start as int),
        decreases chars.len() - start,
    {
        start += 1;
    }
    if start == chars.len() {
        return None;
    }
    let mut end: usize = start;
    while end < chars.len() && (ascii_digit(chars[end]) || chars[end] == '.')
        invariant
            start <= end <= chars@.len(),
            version_end(chars@, start as int) == version_end(chars@, end as int),
        decreases chars.len() - end,
    {
        end += 1;
    }
    let version = trim_end(text_between(&chars, start, end).as_str(), CharClass::One('.'));
    if chars_of(version.as_str()).len() > 0 {
        Some(version)
    } else {
        None
    }
}

/// A character that may stand in a name, or an underscore for one that may not.
pub open spec fn clean_char(c: char) -> char {
    if is_alphanumeric(c) || c == '.' || c == '_' || c == '+' || c == '-' {
        c
    } else {
        '_'
    }
}

/// A text as the name of a file.
pub open spec fn cleaned(input: Seq<char>) -> Seq<char> {
    trimmed(trimmed(input, CharClass::White), CharClass::Quote).map_values(|c: char| clean_char(c))
}

pub fn clean_name(input: &str) -> (r: String)
    ensures
        r@ == cleaned(input@),
{
    let bare = trim(trim(input, CharClass::White).as_str(), CharClass::Quote);
    let chars = chars_of(bare.as_str());
    let mut name = String::new();
    let mut i: usize = 0;
    let ghost all = chars@.map_values(|c: char| clean_char(c));
    assert(all.take(0) =~= Seq::<char>::empty());
    while i < chars.len()
        invariant
            all == chars@.map_values(|c: char| clean_char(c)),
            i <= chars@.len(),
            name@ == all.take(i as int),
        decreases chars.len() - i,
    {
        let c = chars[i];
        if ascii_alphanumeric(c) || c == '.' || c == '_' || c == '+' || c == '-' {
            name.push(c);
        } else {
            name.push('_');
        }
        assert(all.take(i + 1) =~= all.take(i as int).push(clean_char(chars@[i as int])));
        i += 1;
    }
    assert(all.take(all.len() as int) =~= all);
    name
}

/// A name, if anything is left of it.
pub open spec fn clean_option(input: Option<Seq<char>>) -> Option<Seq<char>> {
    match input {
        Some(text) => if cleaned(text).len() > 0 {
            Some(cleaned(text))
        } else {
            None
        },
        None => None,
    }
}

fn clean(input: Option<String>) -> (r: Option<String>)
    ensures
        r.deep_view() == clean_option(input.deep_view()),
{
    match input {
        Some(text) => {
            let name = clean_name(text.as_str());
            if chars_of(name.as_str()).len() > 0 {
                Some(name)
            } else {
                None
            }
        },
        None => None,
    }
}

/// Whether a character ends an argument of a call.
pub open spec fn ends_argument(c: char) -> bool {
    is_white(c) || c == ')' || c == ','
}

pub open spec fn argument_start(s: Seq<char>, from: int) -> int
    decreases s.len() - from,
{
    if from < s.len() && ends_argument(s[from]) {
        argument_start(s, from + 1)
    } else {
        from
    }
}

pub open spec fn argument_end(s: Seq<char>, from: int) -> int
    decreases s.len() - from,
{
    if from < s.len() && !ends_argument(s[from]) {
        argument_end(s, from + 1)
    } else {
        from
    }
}

/// The first argument in what follows an opening parenthesis.
pub open spec fn first_argument(rest: Seq<char>) -> Option<Seq<char>> {
    let start = argument_start(rest, 0);
    if start >= rest.len() {
        None
    } else {
        Some(trimmed(rest.subrange(start, argument_end(rest, start)), CharClass::Quote))
    }
}

fn read_argument(rest: &str) -> (r: Option<String>)
    ensures
        r.deep_view() == first_argument(rest@),
{
    let chars = chars_of(rest);
    let mut start: usize = 0;
    while start < chars.len() && (chars[start].is_whitespace() || chars[start] == ')'
        || chars[start] == ',')
        invariant
            start <= chars@.len(),
            argument_start(chars@, 0) == argument_start(chars@, start as int),
        decreases chars.len() - start,
    {
        start += 1;
    }
    if start == chars.len() {
        return None;
    }
    let mut end: usize = start;
    while end < chars.len() && !(chars[end].is_whitespace() || chars[end] == ')' || chars[end]
        == ',')
        invariant
            start <= end <= chars@.len(),
            argument_end(chars@, start as int) == argument_end(chars@, end as int),
        decreases chars.len() - end,
    {
        end += 1;
    }
    Some(trim(text_between(&chars, start, end).as_str(), CharClass::Quote))
}

/// The first argument of the first call of a function in a text.
pub open spec fn argument_of(text: Seq<char>, function: Seq<char>) -> Option<Seq<char>> {
    match split_first(text, function + "("@) {
        Some((_, rest)) => first_argument(rest),
        None => None,
    }
}

fn call_arg(text: &str, function: &str) -> (r: Option<String>)
    ensures
        r.deep_view() == argument_of(text@, function@),
{
    match split_once(text, concat(function, "(").as_str()) {
        Some((_, rest)) => read_argument(rest.as_str()),
        None => None,
    }
}

/// What stands between a quote at the beginning of a text and the next.
pub open spec fn between_quotes(rest: Seq<char>) -> Option<Seq<char>> {
    match split_first(rest.skip(1), seq![rest[0]]) {
        Some((inner, _)) => Some(inner),
        None => None,
    }
}

fn read_quoted(rest: &Vec<char>) -> (r: Option<String>)
    requires
        rest@.len() > 0,
    ensures
        r.deep_view() == between_quotes(rest@),
{
    let tail = text_between(rest, 1, rest.len());
    assert(tail@ =~= rest@.skip(1));
    let mut quote = String::new();
    quote.push(rest[0]);
    assert(quote@ =~= seq![rest@[0]]);
    match split_once(tail.as_str(), quote.as_str()) {
        Some((inner, _)) => Some(inner),
        None => None,
    }
}

pub open spec fn is_quote(c: char) -> bool {
    c == '\'' || c == '"'
}

/// The first argument of the first call of a function, where it may stand in quotes.
pub open spec fn quoted_argument_of(text: Seq<char>, function: Seq<char>) -> Option<Seq<char>> {
    match split_first(text, function + "("@) {
        Some((_, after)) => {
            let rest = trimmed_start(after, CharClass::White);
            if rest.len() == 0 {
                None
            } else if !is_quote(rest[0]) {
                argument_of(text, function)
            } else {
                between_quotes(rest)
            }
        },
        None => None,
    }
}

fn quoted_call_arg(text: &str, function: &str) -> (r: Option<String>)
    ensures
        r.deep_view() == quoted_argument_of(text@, function@),
{
    match split_once(text, concat(function, "(").as_str()) {
        Some((_, after)) => {
            let rest = chars_of(trim_start(after.as_str(), CharClass::White).as_str());
            if rest.len() == 0 {
                return None;
            }
            if rest[0] != '\'' && rest[0] != '"' {
                return call_arg(text, function);
            }
            read_quoted(&rest)
        },
        None => None,
    }
}

/// How many bytes UTF-8 takes for a character.
pub open spec fn byte_size(c: char) -> int {
    if (c as u32) < 0x80 {
        1
    } else if (c as u32) < 0x800 {
        2
    } else if (c as u32) < 0x10000 {
        3
    } else {
        4
    }
}

fn size_of_char(c: char) -> (r: usize)
    ensures
        r == byte_size(c),
{
    let code: u32 = crate::text::code_of(c);
    if code < 0x80 {
        1
    } else if code < 0x800 {
        2
    } else if code < 0x10000 {
        3
    } else {
        4
    }
}

/// Where a number of bytes from `from` on ends, or the text does, if that is between two characters.
pub open spec fn cut_after(s: Seq<char>, from: int, bytes: int) -> Option<int>
    decreases s.len() - from,
{
    if from >= s.len() || bytes == 0 {
        Some(from)
    } else if byte_size(s[from]) > bytes {
        None
    } else {
        cut_after(s, from + 1, bytes - byte_size(s[from]))
    }
}

fn find_cut(chars: &Vec<char>, from: usize, bytes: usize) -> (r: Option<usize>)
    requires
        from <= chars@.len(),
    ensures
        match r {
            Some(end) => cut_after(chars@, from as int, bytes as int) == Some(end as int) && from
                <= end <= chars@.len(),
            None => cut_after(chars@, from as int, bytes as int) is None,
        },
{
    let mut i: usize = from;
    let mut left: usize = bytes;
    while i < chars.len() && left > 0
        invariant
            from <= i <= chars@.len(),
            cut_after(chars@, from as int, bytes as int) == cut_after(
                chars@,
                i as int,
                left as int,
            ),
        decreases chars.len() - i,
    {
        let size: usize = size_of_char(chars[i]);
        if size > left {
            return None;
        }
        left -= size;
        i += 1;
    }
    Some(i)
}

pub open spec fn binary_rule(k: int) -> Seq<char> {
    if k == 0 {
        "cc_binary("@
    } else if k == 1 {
        "rust_binary("@
    } else if k == 2 {
        "go_binary("@
    } else if k == 3 {
        "py_binary("@
    } else {
        "java_binary("@
    }
}

fn nth_binary_rule(k: usize) -> (r: &'static str)
    ensures
        r@ == binary_rule(k as int),
{
    if k == 0 {
        "cc_binary("
    } else if k == 1 {
        "rust_binary("
    } else if k == 2 {
        "go_binary("
    } else if k == 3 {
        "py_binary("
    } else {
        "java_binary("
    }
}

/// How much of a rule is looked at, in bytes.
pub const RULE_WINDOW_BYTES: usize = 1024;

/// What the window of a rule says of its name.
pub enum RuleName {
    /// Nothing that can be read.
    Unclear,
    /// The text ends where the name should be.
    Ends,
    Named(Seq<char>),
}

pub open spec fn name_in_rule(window: Seq<char>) -> RuleName {
    match split_first(window, "name"@) {
        None => RuleName::Unclear,
        Some((_, after)) => match split_first(after, "="@) {
            None => RuleName::Unclear,
            Some((_, right)) => {
                let rest = trimmed_start(right, CharClass::White);
                if rest.len() == 0 {
                    RuleName::Ends
                } else if !is_quote(rest[0]) {
                    RuleName::Unclear
                } else {
                    match between_quotes(rest) {
                        Some(name) => RuleName::Named(name),
                        None => RuleName::Unclear,
                    }
                }
            },
        },
    }
}

/// The name of the first binary rule of a build file, from the `k`th kind of rule on; nothing where
/// the window of a rule would end within a character.
pub open spec fn binary_in(text: Seq<char>, k: int) -> Option<Option<Seq<char>>>
    decreases 5 - k,
{
    if k >= 5 {
        Some(None)
    } else {
        match first_from(text, binary_rule(k), 0) {
            None => binary_in(text, k + 1),
            Some(start) => match cut_after(text, start, RULE_WINDOW_BYTES as int) {
                None => None,
                Some(end) => match name_in_rule(text.subrange(start, end)) {
                    RuleName::Unclear => binary_in(text, k + 1),
                    RuleName::Ends => Some(None),
                    RuleName::Named(name) => Some(Some(name)),
                },
            },
        }
    }
}

fn rule_name(window: &str) -> (r: Option<Option<String>>)
    ensures
        match name_in_rule(window@) {
            RuleName::Unclear => r is None,
            RuleName::Ends => r == Some(None::<String>),
            RuleName::Named(name) => r is Some && r->0 is Some && r->0->0@ == name,
        },
{
    let after = match split_once(window, "name") {
        Some((_, after)) => after,
        None => {
            return None;
        },
    };
    let right = match split_once(after.as_str(), "=") {
        Some((_, right)) => right,
        None => {
            return None;
        },
    };
    let rest = chars_of(trim_start(right.as_str(), CharClass::White).as_str());
    if rest.len() == 0 {
        return Some(None);
    }
    if rest[0] != '\'' && rest[0] != '"' {
        return None;
    }
    match read_quoted(&rest) {
        Some(name) => Some(Some(name)),
        None => None,
    }
}

fn bazel_from(text: &str, k: usize) -> (r: Option<Option<String>>)
    requires
        k <= 5,
    ensures
        match binary_in(text@, k as int) {
            None => r is None,
            Some(None) => r == Some(None::<String>),
            Some(Some(name)) => r is Some && r->0 is Some && r->0->0@ == name,
        },
    decreases 5 - k,
{
    if k >= 5 {
        return Some(None);
    }
    match crate::text::find(text, nth_binary_rule(k)) {
        None => bazel_from(text, k + 1),
        Some(start) => {
            let chars = chars_of(text);
            match find_cut(&chars, start, RULE_WINDOW_BYTES) {
                None => None,
                Some(end) => {
                    match rule_name(text_between(&chars, start, end).as_str()) {
                        None => bazel_from(text, k + 1),
                        Some(found) => Some(found),
                    }
                },
            }
        },
    }
}

/// The name of a binary rule in a build file.
fn bazel_binary(text: &str) -> (r: Option<String>)
    requires
        binary_in(text@, 0) is Some,
    ensures
        Some(r.deep_view()) == binary_in(text@, 0),
{
    match bazel_from(text, 0) {
        Some(found) => found,
        None => None,
    }
}

/// The first word behind the first assignment to a key, from line `from` on.
pub open spec fn assigned_from(list: Seq<Seq<char>>, key: Seq<char>, from: int) -> Option<Seq<char>>
    decreases list.len() - from,
{
    if from >= list.len() {
        None
    } else {
        match split_first(list[from], "="@) {
            Some((left, right)) => if trimmed(left, CharClass::White) == key && words_of(right).len()
                > 0 {
                Some(words_of(right)[0])
            } else {
                assigned_from(list, key, from + 1)
            },
            None => assigned_from(list, key, from + 1),
        }
    }
}

fn assignment_first_word(text: &str, key: &str) -> (r: Option<String>)
    ensures
        r.deep_view() == assigned_from(lines_of(text@), key@, 0),
{
    let list = lines(text);
    let ghost all = list.deep_view();
    let mut i: usize = 0;
    while i < list.len()
        invariant
            all == list.deep_view(),
            all == lines_of(text@),
            i <= list@.len(),
            assigned_from(all, key@, 0) == assigned_from(all, key@, i as int),
        decreases list.len() - i,
    {
        assert(all[i as int] == list@[i as int]@);
        match split_once(list[i].as_str(), "=") {
            Some((left, right)) => {
                if same(trim(left.as_str(), CharClass::White).as_str(), key) {
                    let found = words(right.as_str());
                    if found.len() > 0 {
                        assert(found.deep_view()[0] == found@[0]@);
                        return Some(found[0].clone());
                    }
                }
            },
            None => {},
        }
        i += 1;
    }
    None
}

/// What the first element of this name holds, if it is not blank.
pub open spec fn element_in(text: Seq<char>, tag: Seq<char>) -> Option<Seq<char>> {
    match split_first(text, "<"@ + tag + ">"@) {
        None => None,
        Some((_, rest)) => match split_first(rest, "</"@ + tag + ">"@) {
            None => None,
            Some((inner, _)) => if trimmed(inner, CharClass::White).len() > 0 {
                Some(trimmed(inner, CharClass::White))
            } else {
                None
            },
        },
    }
}

fn xml_tag(text: &str, tag: &str) -> (r: Option<String>)
    ensures
        r.deep_view() == element_in(text@, tag@),
{
    match split_once(text, concat3("<", tag, ">").as_str()) {
        None => None,
        Some((_, rest)) => match split_once(rest.as_str(), concat3("</", tag, ">").as_str()) {
            None => None,
            Some((inner, _)) => {
                let value = trim(inner.as_str(), CharClass::White);
                if chars_of(value.as_str()).len() > 0 {
                    Some(value)
                } else {
                    None
                }
            },
        },
    }
}

/// Whether a word can be the name of a file that make makes.
pub open spec fn is_plausible(value: Seq<char>) -> bool {
    &&& value.len() > 0
    &&& !has_char(value, '%')
    &&& !has_char(value, '$')
    &&& !has_char(value, '=')
    &&& !has_char(value, ' ')
    &&& value != "all"@
    &&& value != "clean"@
    &&& value != "install"@
    &&& value != "test"@
    &&& value != "check"@
    &&& value != "help"@
}

fn plausible_target(value: &str) -> (r: bool)
    ensures
        r == is_plausible(value@),
{
    chars_of(value).len() > 0 && !contains_char(value, '%') && !contains_char(value, '$')
        && !contains_char(value, '=') && !contains_char(value, ' ') && !same(value, "all")
        && !same(value, "clean") && !same(value, "install") && !same(value, "test") && !same(
        value,
        "check",
    ) && !same(value, "help")
}

/// The first plausible word at or after `from`.
pub open spec fn plausible_from(list: Seq<Seq<char>>, from: int) -> Option<Seq<char>>
    decreases list.len() - from,
{
    if from >= list.len() {
        None
    } else if is_plausible(list[from]) {
        Some(list[from])
    } else {
        plausible_from(list, from + 1)
    }
}

fn first_plausible(list: &Vec<String>) -> (r: Option<String>)
    ensures
        r.deep_view() == plausible_from(list.deep_view(), 0),
{
    let ghost all = list.deep_view();
    let mut i: usize = 0;
    while i < list.len()
        invariant
            all == list.deep_view(),
            i <= list@.len(),
            plausible_from(all, 0) == plausible_from(all, i as int),
        decreases list.len() - i,
    {
        assert(all[i as int] == list@[i as int]@);
        if plausible_target(list[i].as_str()) {
            return Some(list[i].clone());
        }
        i += 1;
    }
    None
}

/// The target and the dependencies of a rule, if a line is one.
pub open spec fn rule_in(line: Seq<char>) -> Option<(Seq<char>, Seq<char>)> {
    let bare = trimmed(line, CharClass::White);
    if bare.len() == 0 || begins_with(bare, "#"@) || begins_with(bare, "."@) {
        None
    } else {
        match split_first(bare, ":"@) {
            Some((left, right)) => Some((trimmed(left, CharClass::White), right)),
            None => None,
        }
    }
}

fn read_rule(line: &str) -> (r: Option<(String, String)>)
    ensures
        r.deep_view() == rule_in(line@),
{
    let bare = trim(line, CharClass::White);
    if chars_of(bare.as_str()).len() == 0 || starts_with(bare.as_str(), "#") || starts_with(
        bare.as_str(),
        ".",
    ) {
        return None;
    }
    match split_once(bare.as_str(), ":") {
        Some((left, right)) => Some((trim(left.as_str(), CharClass::White), right)),
        None => None,
    }
}

/// The first target that make makes a file for, from line `from` on: failing that, what the last
/// `all` depends on.
pub open spec fn target_from(list: Seq<Seq<char>>, fallback: Option<Seq<char>>, from: int) -> Option<
    Seq<char>,
>
    decreases list.len() - from,
{
    if from >= list.len() {
        fallback
    } else {
        match rule_in(list[from]) {
            None => target_from(list, fallback, from + 1),
            Some((target, right)) => if target == "all"@ {
                target_from(list, plausible_from(words_of(right), 0), from + 1)
            } else if is_plausible(target) {
                Some(target)
            } else {
                target_from(list, fallback, from + 1)
            },
        }
    }
}

fn make_target(text: &str) -> (r: Option<String>)
    ensures
        r.deep_view() == target_from(lines_of(text@), None, 0),
{
    let list = lines(text);
    let ghost all = list.deep_view();
    let mut fallback: Option<String> = None;
    let mut i: usize = 0;
    while i < list.len()
        invariant
            all == list.deep_view(),
            all == lines_of(text@),
            i <= list@.len(),
            target_from(all, None, 0) == target_from(all, fallback.deep_view(), i as int),
        decreases list.len() - i,
    {
        assert(all[i as int] == list@[i as int]@);
        match read_rule(list[i].as_str()) {
            None => {},
            Some((target, right)) => {
                if same(target.as_str(), "all") {
                    fallback = first_plausible(&words(right.as_str()));
                } else if plausible_target(target.as_str()) {
                    return Some(target);
                }
            },
        }
        i += 1;
    }
    fallback
}

/// The name of the first binary at or after `from` that has one.
pub open spec fn binary_name_from(items: Seq<TomlView>, from: int) -> Option<Seq<char>>
    decreases items.len() - from,
{
    if from >= items.len() {
        None
    } else {
        match clean_option(string_in(entry_of(Some(items[from]), "name"@))) {
            Some(name) => Some(name),
            None => binary_name_from(items, from + 1),
        }
    }
}

/// The name of the binary that a Cargo manifest declares, or else of its package.
pub open spec fn cargo_name_in(manifest: TomlView) -> Option<Seq<char>> {
    let declared = match entry_of(Some(manifest), "bin"@) {
        Some(TomlView::List(items)) => binary_name_from(items, 0),
        _ => None,
    };
    match declared {
        Some(name) => Some(name),
        None => clean_option(string_in(entry_of(entry_of(Some(manifest), "package"@), "name"@))),
    }
}

fn clean_text(text: Option<&String>) -> (r: Option<String>)
    ensures
        r.deep_view() == clean_option(
            match text {
                Some(text) => Some(text@),
                None => None,
            },
        ),
{
    match text {
        Some(text) => clean(Some(text.clone())),
        None => None,
    }
}

fn first_binary_name(items: &Vec<Toml>) -> (r: Option<String>)
    ensures
        r.deep_view() == binary_name_from(items.deep_view(), 0),
{
    let ghost all = items.deep_view();
    let mut i: usize = 0;
    while i < items.len()
        invariant
            all == items.deep_view(),
            i <= items@.len(),
            binary_name_from(all, 0) == binary_name_from(all, i as int),
        decreases items.len() - i,
    {
        assert(all[i as int] == view_toml(items@[i as int]));
        let item = &items[i];
        match clean_text(string_of_toml(entry(Some(item), "name"))) {
            Some(name) => {
                return Some(name);
            },
            None => {},
        }
        i += 1;
    }
    None
}

fn cargo_binary_name(manifest: &Toml) -> (r: Option<String>)
    ensures
        r.deep_view() == cargo_name_in(view_toml(*manifest)),
{
    match entry(Some(manifest), "bin") {
        Some(Toml::List(items)) => {
            assert(view_toml(Toml::List(*items))->List_0 =~= items.deep_view());
            match first_binary_name(items) {
                Some(name) => {
                    return Some(name);
                },
                None => {},
            }
        },
        _ => {},
    }
    clean_text(string_of_toml(entry(entry(Some(manifest), "package"), "name")))
}

/// What the manifest of a Cargo project holds.
pub open spec fn manifest_in(f: ProjectFilesView) -> Option<TomlView> {
    match text_at(f, "Cargo.toml"@) {
        Some(text) => toml_in(text),
        None => None,
    }
}

/// The Rust version that a Cargo manifest asks for.
pub open spec fn rust_version_in(manifest: Option<TomlView>) -> Seq<char> {
    match string_in(entry_of(entry_of(manifest, "package"@), "rust-version"@)) {
        Some(text) => match version_in(text) {
            Some(version) => version,
            None => "1.85"@,
        },
        None => "1.85"@,
    }
}

pub open spec fn cargo_command(locked: bool) -> Seq<Seq<char>> {
    if locked {
        seq!["cargo"@, "build"@, "--release"@, "--locked"@]
    } else {
        seq!["cargo"@, "build"@, "--release"@]
    }
}

/// The plan that a manifest gives.
pub open spec fn cargo_plan_for(manifest: Option<TomlView>, locked: bool) -> InitPlanView {
    let name = match manifest {
        Some(value) => match cargo_name_in(value) {
            Some(name) => name,
            None => "app"@,
        },
        None => "app"@,
    };
    plan_with(
        "Cargo"@,
        if name != "app"@ {
            DetectionConfidence::High
        } else {
            DetectionConfidence::Medium
        },
        "rust:"@ + rust_version_in(manifest),
        cargo_command(locked),
        "target/release/"@ + name,
        if name != "app"@ {
            "binary output inferred from Cargo.toml; workspace or library-only projects may need an output adjustment"@
        } else {
            "no binary target was inferred; edit build.outputs if target/release/app is not produced"@
        },
    )
}

fn rust_version(manifest: Option<&Toml>) -> (r: String)
    ensures
        r@ == rust_version_in(view_toml_option(manifest)),
{
    match string_of_toml(entry(entry(manifest, "package"), "rust-version")) {
        Some(text) => match version_prefix(text.as_str()) {
            Some(version) => version,
            None => "1.85".to_owned(),
        },
        None => "1.85".to_owned(),
    }
}

/// The plan for a Cargo project with this manifest.
pub fn plan_cargo(manifest: Option<&Toml>, locked: bool) -> (r: InitPlan)
    ensures
        r.deep_view() == cargo_plan_for(view_toml_option(manifest), locked),
{
    let name = match manifest {
        Some(value) => match cargo_binary_name(value) {
            Some(name) => name,
            None => "app".to_owned(),
        },
        None => "app".to_owned(),
    };
    let command = if locked {
        four("cargo", "build", "--release", "--locked")
    } else {
        three("cargo", "build", "--release")
    };
    let inferred = !same(name.as_str(), "app");
    new_plan(
        "Cargo",
        if inferred {
            DetectionConfidence::High
        } else {
            DetectionConfidence::Medium
        },
        concat("rust:", rust_version(manifest).as_str()).as_str(),
        command,
        concat("target/release/", name.as_str()).as_str(),
        if inferred {
            "binary output inferred from Cargo.toml; workspace or library-only projects may need an output adjustment"
        } else {
            "no binary target was inferred; edit build.outputs if target/release/app is not produced"
        },
    )
}

fn cargo_plan(files: &ProjectFiles) -> (r: InitPlan)
    ensures
        r.deep_view() == cargo_plan_for(
            manifest_in(files.deep_view()),
            has(files.deep_view(), "Cargo.lock"@),
        ),
{
    let locked = has_file(files, "Cargo.lock");
    let manifest = match read(files, "Cargo.toml") {
        Some(text) => parse_toml(text.as_str()),
        None => None,
    };
    match &manifest {
        Some(value) => plan_cargo(Some(value), locked),
        None => plan_cargo(None, locked),
    }
}

/// What follows `go ` in the first line that begins with it, from line `from` on.
pub open spec fn go_directive(list: Seq<Seq<char>>, from: int) -> Option<Seq<char>>
    decreases list.len() - from,
{
    if from >= list.len() {
        None
    } else {
        let line = trimmed(list[from], CharClass::White);
        if begins_with(line, "go "@) {
            Some(line.skip("go "@.len() as int))
        } else {
            go_directive(list, from + 1)
        }
    }
}

fn find_go_directive(text: &str) -> (r: Option<String>)
    ensures
        r.deep_view() == go_directive(lines_of(text@), 0),
{
    let list = lines(text);
    let ghost all = list.deep_view();
    let mut i: usize = 0;
    while i < list.len()
        invariant
            all == list.deep_view(),
            all == lines_of(text@),
            i <= list@.len(),
            go_directive(all, 0) == go_directive(all, i as int),
        decreases list.len() - i,
    {
        assert(all[i as int] == list@[i as int]@);
        let line = trim(list[i].as_str(), CharClass::White);
        match strip_prefix(line.as_str(), "go ") {
            Some(rest) => {
                return Some(rest);
            },
            None => {},
        }
        i += 1;
    }
    None
}

pub open spec fn go_version_in(f: ProjectFilesView) -> Seq<char> {
    match text_at(f, "go.mod"@) {
        Some(text) => match go_directive(lines_of(text), 0) {
            Some(rest) => match version_in(rest) {
                Some(version) => version,
                None => "1.24"@,
            },
            None => "1.24"@,
        },
        None => "1.24"@,
    }
}

fn go_version(files: &ProjectFiles) -> (r: String)
    ensures
        r@ == go_version_in(files.deep_view()),
{
    match read(files, "go.mod") {
        Some(text) => match find_go_directive(text.as_str()) {
            Some(rest) => match version_prefix(rest.as_str()) {
                Some(version) => version,
                None => "1.24".to_owned(),
            },
            None => "1.24".to_owned(),
        },
        None => "1.24".to_owned(),
    }
}

/// Whether some line says that a source belongs to a program.
pub open spec fn declares_main(text: Seq<char>) -> bool {
    exists|i: int|
        0 <= i < lines_of(text).len() && trimmed(#[trigger] lines_of(text)[i], CharClass::White)
            == "package main"@
}

fn is_main_source(text: &str) -> (r: bool)
    ensures
        r == declares_main(text@),
{
    let list = lines(text);
    let ghost all = list.deep_view();
    let mut i: usize = 0;
    while i < list.len()
        invariant
            all == list.deep_view(),
            all == lines_of(text@),
            i <= list@.len(),
            forall|k: int|
                0 <= k < i ==> trimmed(#[trigger] all[k], CharClass::White) != "package main"@,
        decreases list.len() - i,
    {
        assert(all[i as int] == list@[i as int]@);
        if same(trim(list[i].as_str(), CharClass::White).as_str(), "package main") {
            return true;
        }
        i += 1;
    }
    false
}

/// Whether some source at the root of a project belongs to a program.
pub open spec fn has_main(sources: Seq<Seq<char>>) -> bool {
    exists|i: int| 0 <= i < sources.len() && declares_main(#[trigger] sources[i])
}

fn any_main(sources: &Vec<String>) -> (r: bool)
    ensures
        r == has_main(sources.deep_view()),
{
    let ghost all = sources.deep_view();
    let mut i: usize = 0;
    while i < sources.len()
        invariant
            all == sources.deep_view(),
            i <= sources@.len(),
            forall|k: int| 0 <= k < i ==> !declares_main(#[trigger] all[k]),
        decreases sources.len() - i,
    {
        assert(all[i as int] == sources@[i as int]@);
        if is_main_source(sources[i].as_str()) {
            return true;
        }
        i += 1;
    }
    false
}

pub open spec fn go_plan_in(f: ProjectFilesView) -> InitPlanView {
    if has_main(f.go_sources) {
        plan_with(
            "Go"@,
            DetectionConfidence::High,
            "golang:"@ + go_version_in(f),
            in_shell("mkdir -p build && go build -trimpath -o build/reprobisect-app ."@),
            "build/reprobisect-app"@,
            "root package appears executable; go build is directed to a stable artifact path"@,
        )
    } else {
        plan_with(
            "Go"@,
            DetectionConfidence::Medium,
            "golang:"@ + go_version_in(f),
            in_shell("mkdir -p build && go test -c -o build/reprobisect-package.test ."@),
            "build/reprobisect-package.test"@,
            "root package is not clearly executable; a compiled test binary is used as the default artifact"@,
        )
    }
}

fn go_plan(files: &ProjectFiles) -> (r: InitPlan)
    ensures
        r.deep_view() == go_plan_in(files.deep_view()),
{
    let image = concat("golang:", go_version(files).as_str());
    if any_main(&files.go_sources) {
        new_plan(
            "Go",
            DetectionConfidence::High,
            image.as_str(),
            shell("mkdir -p build && go build -trimpath -o build/reprobisect-app ."),
            "build/reprobisect-app",
            "root package appears executable; go build is directed to a stable artifact path",
        )
    } else {
        new_plan(
            "Go",
            DetectionConfidence::Medium,
            image.as_str(),
            shell("mkdir -p build && go test -c -o build/reprobisect-package.test ."),
            "build/reprobisect-package.test",
            "root package is not clearly executable; a compiled test binary is used as the default artifact",
        )
    }
}

/// Whether a package manifest has a build script.
pub open spec fn has_build_script(manifest: Option<JsonView>) -> bool {
    match manifest {
        Some(value) => match field_of(value, "scripts"@) {
            Some(scripts) => text_in(field_of(scripts, "build"@)) is Some,
            None => false,
        },
        None => false,
    }
}

pub fn finds_build_script(manifest: &Option<Json>) -> (r: bool)
    ensures
        r == has_build_script(manifest.deep_view()),
{
    match manifest {
        Some(value) => match value.get("scripts") {
            Some(scripts) => text_of_json(scripts.get("build")).is_some(),
            None => false,
        },
        None => false,
    }
}

/// What the manifest of a Node package holds.
pub open spec fn package_in(f: ProjectFilesView) -> Option<JsonView> {
    match text_at(f, "package.json"@) {
        Some(text) => document_in(encode_utf8(text)),
        None => None,
    }
}

pub open spec fn node_script(pnpm: bool, locked: bool, built: bool) -> Seq<char> {
    let install = if pnpm {
        "corepack enable && pnpm install --frozen-lockfile"@
    } else if locked {
        "npm ci"@
    } else {
        "npm install"@
    };
    let build = if !built {
        ""@
    } else if pnpm {
        " && pnpm run build"@
    } else {
        " && npm run build"@
    };
    let pack = if pnpm {
        "pnpm pack --pack-destination /tmp/reprobisect-package >/dev/null"@
    } else {
        "npm pack --pack-destination /tmp/reprobisect-package >/dev/null"@
    };
    "rm -rf /tmp/reprobisect-package && mkdir -p /tmp/reprobisect-package build && "@ + install
        + build + " && "@ + pack
        + " && cp \"$(find /tmp/reprobisect-package -maxdepth 1 -type f -name '*.tgz' | sort | head -n 1)\" build/reprobisect-package.tgz"@
}

fn show_node_script(pnpm: bool, locked: bool, built: bool) -> (r: String)
    ensures
        r@ == node_script(pnpm, locked, built),
{
    let mut text =
        "rm -rf /tmp/reprobisect-package && mkdir -p /tmp/reprobisect-package build && ".to_owned();
    if pnpm {
        text.push_str("corepack enable && pnpm install --frozen-lockfile");
    } else if locked {
        text.push_str("npm ci");
    } else {
        text.push_str("npm install");
    }
    if !built {
        text.push_str("");
    } else if pnpm {
        text.push_str(" && pnpm run build");
    } else {
        text.push_str(" && npm run build");
    }
    text.push_str(" && ");
    if pnpm {
        text.push_str("pnpm pack --pack-destination /tmp/reprobisect-package >/dev/null");
    } else {
        text.push_str("npm pack --pack-destination /tmp/reprobisect-package >/dev/null");
    }
    text.push_str(
        " && cp \"$(find /tmp/reprobisect-package -maxdepth 1 -type f -name '*.tgz' | sort | head -n 1)\" build/reprobisect-package.tgz",
    );
    text
}

pub open spec fn node_plan_for(pnpm: bool, locked: bool, built: bool) -> InitPlanView {
    plan_with(
        if pnpm {
            "Node.js / pnpm"@
        } else {
            "Node.js / npm"@
        },
        DetectionConfidence::High,
        "node:22"@,
        in_shell(node_script(pnpm, locked, built)),
        "build/reprobisect-package.tgz"@,
        if built {
            "build script detected; init runs it before producing a package tarball at a stable path"@
        } else {
            "no build script detected; the package tarball is used as the default reproducibility artifact"@
        },
    )
}

/// The plan for a Node package.
pub fn plan_node(pnpm: bool, locked: bool, built: bool) -> (r: InitPlan)
    ensures
        r.deep_view() == node_plan_for(pnpm, locked, built),
{
    new_plan(
        if pnpm {
            "Node.js / pnpm"
        } else {
            "Node.js / npm"
        },
        DetectionConfidence::High,
        "node:22",
        shell(show_node_script(pnpm, locked, built).as_str()),
        "build/reprobisect-package.tgz",
        if built {
            "build script detected; init runs it before producing a package tarball at a stable path"
        } else {
            "no build script detected; the package tarball is used as the default reproducibility artifact"
        },
    )
}

fn node_plan(files: &ProjectFiles, pnpm: bool) -> (r: InitPlan)
    ensures
        r.deep_view() == node_plan_for(
            pnpm,
            has(files.deep_view(), "package-lock.json"@),
            has_build_script(package_in(files.deep_view())),
        ),
{
    let manifest = match read(files, "package.json") {
        Some(text) => parse_json(text.as_str().as_bytes()),
        None => None,
    };
    plan_node(pnpm, has_file(files, "package-lock.json"), finds_build_script(&manifest))
}

pub open spec fn cleaned_element(text: Seq<char>, tag: Seq<char>) -> Option<Seq<char>> {
    match element_in(text, tag) {
        Some(value) => Some(cleaned(value)),
        None => None,
    }
}

fn clean_element(text: &str, tag: &str) -> (r: Option<String>)
    ensures
        r.deep_view() == cleaned_element(text@, tag@),
{
    match xml_tag(text, tag) {
        Some(value) => Some(clean_name(value.as_str())),
        None => None,
    }
}

pub open spec fn maven_plan_for(pom: Seq<char>) -> InitPlanView {
    let (output, confidence) = match (
        cleaned_element(pom, "artifactId"@),
        cleaned_element(pom, "version"@),
    ) {
        (Some(artifact), Some(version)) => (
            "target/"@ + artifact + "-"@ + version + ".jar"@,
            DetectionConfidence::Medium,
        ),
        _ => ("target/app.jar"@, DetectionConfidence::Low),
    };
    plan_with(
        "Maven"@,
        confidence,
        "maven:3.9-eclipse-temurin-21"@,
        seq!["mvn"@, "-B"@, "-DskipTests"@, "package"@],
        output,
        "review the inferred output for multi-module builds, inherited versions, WARs, or classifiers"@,
    )
}

fn maven_plan(pom: &str) -> (r: InitPlan)
    ensures
        r.deep_view() == maven_plan_for(pom@),
{
    let artifact = clean_element(pom, "artifactId");
    let version = clean_element(pom, "version");
    let (output, confidence) = match (artifact, version) {
        (Some(artifact), Some(version)) => (
            concat5("target/", artifact.as_str(), "-", version.as_str(), ".jar"),
            DetectionConfidence::Medium,
        ),
        _ => ("target/app.jar".to_owned(), DetectionConfidence::Low),
    };
    new_plan(
        "Maven",
        confidence,
        "maven:3.9-eclipse-temurin-21",
        four("mvn", "-B", "-DskipTests", "package"),
        output.as_str(),
        "review the inferred output for multi-module builds, inherited versions, WARs, or classifiers",
    )
}

pub open spec fn gradle_plan_for(wrapper: bool) -> InitPlanView {
    plan_with(
        "Gradle"@,
        DetectionConfidence::Low,
        "eclipse-temurin:21-jdk"@,
        if wrapper {
            in_shell("./gradlew --no-daemon build"@)
        } else {
            seq!["gradle"@, "--no-daemon"@, "build"@]
        },
        "build/libs/app.jar"@,
        "Gradle output naming is project-specific; edit build.outputs to the concrete produced artifact"@,
    )
}

fn gradle_plan(wrapper: bool) -> (r: InitPlan)
    ensures
        r.deep_view() == gradle_plan_for(wrapper),
{
    let command = if wrapper {
        shell("./gradlew --no-daemon build")
    } else {
        three("gradle", "--no-daemon", "build")
    };
    new_plan(
        "Gradle",
        DetectionConfidence::Low,
        "eclipse-temurin:21-jdk",
        command,
        "build/libs/app.jar",
        "Gradle output naming is project-specific; edit build.outputs to the concrete produced artifact",
    )
}

/// The text of the build file at the root of a Bazel workspace.
pub open spec fn build_file_in(f: ProjectFilesView) -> Seq<char> {
    match text_at(f, "BUILD.bazel"@) {
        Some(text) => text,
        None => match text_at(f, "BUILD"@) {
            Some(text) => text,
            None => ""@,
        },
    }
}

fn build_file(files: &ProjectFiles) -> (r: String)
    ensures
        r@ == build_file_in(files.deep_view()),
{
    match read(files, "BUILD.bazel") {
        Some(text) => text.clone(),
        None => match read(files, "BUILD") {
            Some(text) => text.clone(),
            None => "".to_owned(),
        },
    }
}

pub open spec fn bazel_plan_for(target: Option<Seq<char>>) -> InitPlanView {
    plan_with(
        "Bazel"@,
        if target is Some {
            DetectionConfidence::Medium
        } else {
            DetectionConfidence::Low
        },
        "gcr.io/bazel-public/bazel:8.0.0"@,
        match target {
            Some(target) => seq!["bazel"@, "build"@, "//:"@ + target],
            None => seq!["bazel"@, "build"@, "//..."@],
        },
        match target {
            Some(target) => "bazel-bin/"@ + target,
            None => "bazel-bin/app"@,
        },
        "review the selected target/output for non-root targets and multi-target workspaces"@,
    )
}

fn bazel_plan(text: &str) -> (r: InitPlan)
    requires
        binary_in(text@, 0) is Some,
    ensures
        r.deep_view() == bazel_plan_for(clean_option(binary_in(text@, 0)->0)),
{
    match clean(bazel_binary(text)) {
        Some(target) => new_plan(
            "Bazel",
            DetectionConfidence::Medium,
            "gcr.io/bazel-public/bazel:8.0.0",
            three("bazel", "build", concat("//:", target.as_str()).as_str()),
            concat("bazel-bin/", target.as_str()).as_str(),
            "review the selected target/output for non-root targets and multi-target workspaces",
        ),
        None => new_plan(
            "Bazel",
            DetectionConfidence::Low,
            "gcr.io/bazel-public/bazel:8.0.0",
            three("bazel", "build", "//..."),
            "bazel-bin/app",
            "review the selected target/output for non-root targets and multi-target workspaces",
        ),
    }
}

/// The output of a target in a build directory, and how sure it is.
pub open spec fn built_target(target: Option<Seq<char>>) -> (Seq<char>, DetectionConfidence) {
    match target {
        Some(target) => ("build/"@ + target, DetectionConfidence::High),
        None => ("build/app"@, DetectionConfidence::Low),
    }
}

fn show_built_target(target: Option<String>) -> (r: (String, DetectionConfidence))
    ensures
        (r.0@, r.1) == built_target(target.deep_view()),
{
    match target {
        Some(target) => (concat("build/", target.as_str()), DetectionConfidence::High),
        None => ("build/app".to_owned(), DetectionConfidence::Low),
    }
}

pub open spec fn meson_plan_for(text: Option<Seq<char>>) -> InitPlanView {
    let (output, confidence) = built_target(
        match text {
            Some(text) => clean_option(quoted_argument_of(text, "executable"@)),
            None => None,
        },
    );
    plan_with(
        "Meson"@,
        confidence,
        "gcc:14"@,
        in_shell("meson setup build --buildtype=release && meson compile -C build"@),
        output,
        "verify the selected image contains compatible meson and ninja tools; edit build.image if needed"@,
    )
}

fn meson_plan(files: &ProjectFiles) -> (r: InitPlan)
    ensures
        r.deep_view() == meson_plan_for(text_at(files.deep_view(), "meson.build"@)),
{
    let target = match read(files, "meson.build") {
        Some(text) => clean(quoted_call_arg(text.as_str(), "executable")),
        None => None,
    };
    let (output, confidence) = show_built_target(target);
    new_plan(
        "Meson",
        confidence,
        "gcc:14",
        shell("meson setup build --buildtype=release && meson compile -C build"),
        output.as_str(),
        "verify the selected image contains compatible meson and ninja tools; edit build.image if needed",
    )
}

pub open spec fn cmake_plan_for(text: Option<Seq<char>>) -> InitPlanView {
    let (output, confidence) = built_target(
        match text {
            Some(text) => clean_option(argument_of(text, "add_executable"@)),
            None => None,
        },
    );
    plan_with(
        "CMake"@,
        confidence,
        "gcc:14"@,
        in_shell(
            "cmake -S . -B build -DCMAKE_BUILD_TYPE=Release && cmake --build build --config Release"@,
        ),
        output,
        "verify the selected image contains a compatible cmake executable; edit build.image if needed"@,
    )
}

fn cmake_plan(files: &ProjectFiles) -> (r: InitPlan)
    ensures
        r.deep_view() == cmake_plan_for(text_at(files.deep_view(), "CMakeLists.txt"@)),
{
    let target = match read(files, "CMakeLists.txt") {
        Some(text) => clean(call_arg(text.as_str(), "add_executable")),
        None => None,
    };
    let (output, confidence) = show_built_target(target);
    new_plan(
        "CMake",
        confidence,
        "gcc:14",
        shell(
            "cmake -S . -B build -DCMAKE_BUILD_TYPE=Release && cmake --build build --config Release",
        ),
        output.as_str(),
        "verify the selected image contains a compatible cmake executable; edit build.image if needed",
    )
}

/// A target as an output, and how sure it is.
pub open spec fn plain_target(target: Option<Seq<char>>, otherwise: Seq<char>) -> (
    Seq<char>,
    DetectionConfidence,
) {
    match target {
        Some(target) => (target, DetectionConfidence::Medium),
        None => (otherwise, DetectionConfidence::Low),
    }
}

fn show_plain_target(target: Option<String>, otherwise: &str) -> (r: (String, DetectionConfidence))
    ensures
        (r.0@, r.1) == plain_target(target.deep_view(), otherwise@),
{
    match target {
        Some(target) => (target, DetectionConfidence::Medium),
        None => (otherwise.to_owned(), DetectionConfidence::Low),
    }
}

pub open spec fn autotools_plan_for(text: Option<Seq<char>>, configured: bool) -> InitPlanView {
    let (output, confidence) = plain_target(
        match text {
            Some(text) => clean_option(assigned_from(lines_of(text), "bin_PROGRAMS"@, 0)),
            None => None,
        },
        "app"@,
    );
    plan_with(
        "Autotools"@,
        confidence,
        "gcc:14"@,
        in_shell(
            if configured {
                "./configure && make -j1"@
            } else {
                "autoreconf -fi && ./configure && make -j1"@
            },
        ),
        output,
        "verify the selected image contains the Autotools utilities required by the project"@,
    )
}

fn autotools_plan(files: &ProjectFiles) -> (r: InitPlan)
    ensures
        r.deep_view() == autotools_plan_for(
            text_at(files.deep_view(), "Makefile.am"@),
            has(files.deep_view(), "configure"@),
        ),
{
    let target = match read(files, "Makefile.am") {
        Some(text) => clean(assignment_first_word(text.as_str(), "bin_PROGRAMS")),
        None => None,
    };
    let (output, confidence) = show_plain_target(target, "app");
    let script = if has_file(files, "configure") {
        "./configure && make -j1"
    } else {
        "autoreconf -fi && ./configure && make -j1"
    };
    new_plan(
        "Autotools",
        confidence,
        "gcc:14",
        shell(script),
        output.as_str(),
        "verify the selected image contains the Autotools utilities required by the project",
    )
}

pub open spec fn python_plan_text() -> InitPlanView {
    plan_with(
        "Python packaging"@,
        DetectionConfidence::High,
        "python:3.12"@,
        in_shell(
            "rm -rf /tmp/reprobisect-wheel && mkdir -p /tmp/reprobisect-wheel build && python -m pip wheel . --no-deps -w /tmp/reprobisect-wheel && cp \"$(find /tmp/reprobisect-wheel -maxdepth 1 -type f -name '*.whl' | sort | head -n 1)\" build/reprobisect-artifact.whl"@,
        ),
        "build/reprobisect-artifact.whl"@,
        "a wheel is used as the default artifact and copied to a stable path; edit the command for sdist-only or installer projects"@,
    )
}

fn python_plan() -> (r: InitPlan)
    ensures
        r.deep_view() == python_plan_text(),
{
    new_plan(
        "Python packaging",
        DetectionConfidence::High,
        "python:3.12",
        shell(
            "rm -rf /tmp/reprobisect-wheel && mkdir -p /tmp/reprobisect-wheel build && python -m pip wheel . --no-deps -w /tmp/reprobisect-wheel && cp \"$(find /tmp/reprobisect-wheel -maxdepth 1 -type f -name '*.whl' | sort | head -n 1)\" build/reprobisect-artifact.whl",
        ),
        "build/reprobisect-artifact.whl",
        "a wheel is used as the default artifact and copied to a stable path; edit the command for sdist-only or installer projects",
    )
}

/// The text of the makefile that make would read.
pub open spec fn makefile_in(f: ProjectFilesView) -> Seq<char> {
    match text_at(f, "GNUmakefile"@) {
        Some(text) => text,
        None => match text_at(f, "Makefile"@) {
            Some(text) => text,
            None => match text_at(f, "makefile"@) {
                Some(text) => text,
                None => ""@,
            },
        },
    }
}

fn makefile(files: &ProjectFiles) -> (r: String)
    ensures
        r@ == makefile_in(files.deep_view()),
{
    match read(files, "GNUmakefile") {
        Some(text) => text.clone(),
        None => match read(files, "Makefile") {
            Some(text) => text.clone(),
            None => match read(files, "makefile") {
                Some(text) => text.clone(),
                None => "".to_owned(),
            },
        },
    }
}

pub open spec fn make_plan_for(text: Seq<char>) -> InitPlanView {
    let (output, confidence) = plain_target(
        clean_option(target_from(lines_of(text), None, 0)),
        "build/app"@,
    );
    plan_with(
        "Make"@,
        confidence,
        "gcc:14"@,
        in_shell("make -j1"@),
        output,
        "Makefiles can produce several artifacts; review the inferred build.outputs value"@,
    )
}

fn make_plan(text: &str) -> (r: InitPlan)
    ensures
        r.deep_view() == make_plan_for(text@),
{
    let (output, confidence) = show_plain_target(clean(make_target(text)), "build/app");
    new_plan(
        "Make",
        confidence,
        "gcc:14",
        shell("make -j1"),
        output.as_str(),
        "Makefiles can produce several artifacts; review the inferred build.outputs value",
    )
}

pub open spec fn generic_plan_text() -> InitPlanView {
    plan_with(
        "generic / unknown"@,
        DetectionConfidence::Low,
        "gcc:14"@,
        in_shell("make"@),
        "build/app"@,
        "no supported build-system marker was found; image, command, and output are placeholders"@,
    )
}

pub fn generic_plan() -> (r: InitPlan)
    ensures
        r.deep_view() == generic_plan_text(),
{
    new_plan(
        "generic / unknown",
        DetectionConfidence::Low,
        "gcc:14",
        shell("make"),
        "build/app",
        "no supported build-system marker was found; image, command, and output are placeholders",
    )
}

/// The plan for a project of some kind.
pub open spec fn plan_in(f: ProjectFilesView, kind: ProjectKind) -> InitPlanView {
    match kind {
        ProjectKind::Cargo => cargo_plan_for(manifest_in(f), has(f, "Cargo.lock"@)),
        ProjectKind::Go => go_plan_in(f),
        ProjectKind::NodePnpm => node_plan_for(
            true,
            has(f, "package-lock.json"@),
            has_build_script(package_in(f)),
        ),
        ProjectKind::NodeNpm => node_plan_for(
            false,
            has(f, "package-lock.json"@),
            has_build_script(package_in(f)),
        ),
        ProjectKind::Maven => maven_plan_for(
            match text_at(f, "pom.xml"@) {
                Some(text) => text,
                None => ""@,
            },
        ),
        ProjectKind::Gradle => gradle_plan_for(has(f, "gradlew"@)),
        ProjectKind::Bazel => bazel_plan_for(clean_option(binary_in(build_file_in(f), 0)->0)),
        ProjectKind::Meson => meson_plan_for(text_at(f, "meson.build"@)),
        ProjectKind::CMake => cmake_plan_for(text_at(f, "CMakeLists.txt"@)),
        ProjectKind::Autotools => autotools_plan_for(
            text_at(f, "Makefile.am"@),
            has(f, "configure"@),
        ),
        ProjectKind::Python => python_plan_text(),
        ProjectKind::Make => make_plan_for(makefile_in(f)),
        ProjectKind::Generic => generic_plan_text(),
    }
}

fn plan_for(files: &ProjectFiles, kind: ProjectKind) -> (r: InitPlan)
    requires
        kind is Bazel ==> binary_in(build_file_in(files.deep_view()), 0) is Some,
    ensures
        r.deep_view() == plan_in(files.deep_view(), kind),
{
    match kind {
        ProjectKind::Cargo => cargo_plan(files),
        ProjectKind::Go => go_plan(files),
        ProjectKind::NodePnpm => node_plan(files, true),
        ProjectKind::NodeNpm => node_plan(files, false),
        ProjectKind::Maven => match read(files, "pom.xml") {
            Some(text) => maven_plan(text.as_str()),
            None => maven_plan(""),
        },
        ProjectKind::Gradle => gradle_plan(has_file(files, "gradlew")),
        ProjectKind::Bazel => bazel_plan(build_file(files).as_str()),
        ProjectKind::Meson => meson_plan(files),
        ProjectKind::CMake => cmake_plan(files),
        ProjectKind::Autotools => autotools_plan(files),
        ProjectKind::Python => python_plan(),
        ProjectKind::Make => make_plan(makefile(files).as_str()),
        ProjectKind::Generic => generic_plan(),
    }
}

/// The build system that a project is taken to have.
pub open spec fn selected_kind(kinds: Seq<ProjectKind>) -> ProjectKind {
    if kinds.len() > 0 {
        kinds[0]
    } else {
        ProjectKind::Generic
    }
}

/// The labels of all but the first of some kinds.
pub open spec fn other_labels(kinds: Seq<ProjectKind>) -> Seq<Seq<char>> {
    kinds.skip(1).map_values(|kind: ProjectKind| project_label(kind))
}

fn list_others(kinds: &Vec<ProjectKind>) -> (r: Vec<String>)
    requires
        kinds@.len() > 0,
    ensures
        r.deep_view() == other_labels(kinds@),
{
    let mut labels: Vec<String> = Vec::new();
    let ghost all = other_labels(kinds@);
    let mut i: usize = 1;
    assert(labels.deep_view() =~= all.take(0));
    while i < kinds.len()
        invariant
            1 <= i <= kinds@.len(),
            all == other_labels(kinds@),
            labels.deep_view() == all.take(i - 1),
        decreases kinds.len() - i,
    {
        push_line(&mut labels, kinds[i].label().to_owned());
        assert(all.take(i as int) =~= all.take(i - 1).push(all[i - 1]));
        i += 1;
    }
    assert(all.take(all.len() as int) =~= all);
    labels
}

pub open spec fn ambiguity_text(selected: Seq<char>, others: Seq<Seq<char>>) -> Seq<char> {
    "multiple build-system markers were found; selected "@
        + selected
        + " by deterministic precedence, also found "@
        + joined(others, ", "@, others.len() as int)
}

pub fn show_ambiguity(selected: &str, others: &Vec<String>) -> (r: String)
    ensures
        r@ == ambiguity_text(selected@, others.deep_view()),
{
    let mut text = "multiple build-system markers were found; selected ".to_owned();
    text.push_str(selected);
    text.push_str(" by deterministic precedence, also found ");
    text.push_str(join(others, ", ").as_str());
    text
}

/// A plan for a project that shows several build systems.
pub open spec fn ambiguous(plan: InitPlanView, kinds: Seq<ProjectKind>) -> InitPlanView {
    InitPlanView {
        notes: plan.notes.push(
            ambiguity_text(project_label(selected_kind(kinds)), other_labels(kinds)),
        ),
        confidence: if plan.confidence is High {
            DetectionConfidence::Medium
        } else {
            plan.confidence
        },
        ..plan
    }
}

/// The plan for a project.
pub open spec fn detected_plan(f: ProjectFilesView) -> InitPlanView {
    let kinds = kinds_in(f);
    let plan = plan_in(f, selected_kind(kinds));
    if kinds.len() > 1 {
        ambiguous(plan, kinds)
    } else {
        plan
    }
}

/// Whether a plan can be made: in the build file of a Bazel project, what is looked at of a rule must
/// not end within a character.
pub open spec fn is_detectable(f: ProjectFilesView) -> bool {
    selected_kind(kinds_in(f)) is Bazel ==> binary_in(build_file_in(f), 0) is Some
}

fn select_kind(kinds: &Vec<ProjectKind>) -> (r: ProjectKind)
    ensures
        r == selected_kind(kinds@),
{
    if kinds.len() > 0 {
        kinds[0]
    } else {
        ProjectKind::Generic
    }
}

pub fn can_detect(files: &ProjectFiles) -> (r: bool)
    ensures
        r == is_detectable(files.deep_view()),
{
    let kinds = detected_kinds(files);
    match select_kind(&kinds) {
        ProjectKind::Bazel => bazel_from(build_file(files).as_str(), 0).is_some(),
        _ => true,
    }
}

pub fn detect_project(files: &ProjectFiles) -> (r: InitPlan)
    requires
        is_detectable(files.deep_view()),
    ensures
        r.deep_view() == detected_plan(files.deep_view()),
{
    let kinds = detected_kinds(files);
    let selected = select_kind(&kinds);
    let mut plan = plan_for(files, selected);
    if kinds.len() > 1 {
        let others = list_others(&kinds);
        push_line(&mut plan.notes, show_ambiguity(selected.label(), &others));
        if plan.confidence == DetectionConfidence::High {
            plan.confidence = DetectionConfidence::Medium;
        }
    }
    plan
}

/// A character as it stands in a JSON text.
pub open spec fn escaped_char(c: char) -> Seq<char> {
    if c == '"' {
        seq!['\\', '"']
    } else if c == '\\' {
        seq!['\\', '\\']
    } else if c == '\u{8}' {
        seq!['\\', 'b']
    } else if c == '\t' {
        seq!['\\', 't']
    } else if c == '\n' {
        seq!['\\', 'n']
    } else if c == '\u{c}' {
        seq!['\\', 'f']
    } else if c == '\r' {
        seq!['\\', 'r']
    } else if (c as u32) < 32 {
        seq!['\\', 'u', '0', '0', digit_char(c as u32 as int / 16), digit_char(c as u32 as int % 16)]
    } else {
        seq![c]
    }
}

/// The first `n` characters of a text as they stand in a JSON text.
pub open spec fn escaped(s: Seq<char>, n: int) -> Seq<char>
    decreases n,
{
    if n <= 0 {
        Seq::empty()
    } else {
        escaped(s, n - 1) + escaped_char(s[n - 1])
    }
}

/// A text as a JSON text, which TOML takes too.
pub open spec fn string_text(s: Seq<char>) -> Seq<char> {
    seq!['"'] + escaped(s, s.len() as int) + seq!['"']
}

/// Prints a text with `serde_json::to_string`: in double quotes, with quotes, backslashes and control
/// characters escaped.
#[verifier::external_body]
pub(crate) fn string_value(value: &str) -> (r: String)
    ensures
        r@ == string_text(value@),
{
    serde_json::to_string(value).expect("a string has a JSON form")
}

/// Texts as JSON texts.
pub open spec fn string_texts(list: Seq<Seq<char>>) -> Seq<Seq<char>> {
    list.map_values(|s: Seq<char>| string_text(s))
}

fn string_values(list: &Vec<String>) -> (r: Vec<String>)
    ensures
        r.deep_view() == string_texts(list.deep_view()),
{
    let ghost all = string_texts(list.deep_view());
    let mut texts: Vec<String> = Vec::new();
    let mut i: usize = 0;
    assert(texts.deep_view() =~= all.take(0));
    while i < list.len()
        invariant
            all == string_texts(list.deep_view()),
            i <= list@.len(),
            texts.deep_view() == all.take(i as int),
        decreases list.len() - i,
    {
        assert(list.deep_view()[i as int] == list@[i as int]@);
        push_line(&mut texts, string_value(list[i].as_str()));
        assert(all.take(i + 1) =~= all.take(i as int).push(all[i as int]));
        i += 1;
    }
    assert(all.take(all.len() as int) =~= all);
    texts
}

/// A list of texts as TOML takes it.
pub open spec fn array_text(list: Seq<Seq<char>>) -> Seq<char> {
    "["@ + joined(string_texts(list), ", "@, list.len() as int) + "]"@
}

fn string_array(list: &Vec<String>) -> (r: String)
    ensures
        r@ == array_text(list.deep_view()),
{
    let texts = string_values(list);
    assert(texts.deep_view().len() == list.deep_view().len());
    concat3("[", join(&texts, ", ").as_str(), "]")
}

/// The experiments that a first configuration sets, after the number of control runs.
pub const EXPERIMENTS_TEMPLATE: &'static str = "intervention_runs = 1
comparison_runs = 2
comparison_subset_runs = 2
confirmation_runs = 1
stochastic_runs = 4
stochastic_alpha = 0.05
image_variants = []
network_trace = false
file_input_trace = false
syscall_trace_max_bytes = 33554432
runtime_dependency_provenance = false
dependency_cache_max_files = 2048
dependency_cache_max_bytes = 134217728

# Optional custom package-manager cache roots:
# [experiments.dependency_cache_paths]
# cargo = \"/root/.cargo/registry/cache\"

# Narrow same-image toolchain experiment example:
# [experiments.toolchain_variables]
# CC = [\"gcc\", \"clang\"]

# One-file dependency declaration experiment example:
# [[experiments.dependency_variants]]
# id = \"candidate-lockfile\"
# target = \"Cargo.lock\"
# variant_file = \".reprobisect-variants/Cargo.lock\"

[experiments.dimensions]
network_access = false
source_path = false
build_path = true
source_date_epoch = true
timezone = true
locale = true
hostname = true
source_mtime = false
cpu_count = false
umask = false
directory_order = false
";

/// The comments of the first `n` notes.
pub open spec fn note_comments(notes: Seq<Seq<char>>, n: int) -> Seq<char>
    decreases n,
{
    if n <= 0 {
        Seq::empty()
    } else {
        note_comments(notes, n - 1) + "# Note: "@ + replaced(notes[n - 1], "\n"@, " "@) + "\n"@
    }
}

fn show_note_comments(notes: &Vec<String>) -> (r: String)
    ensures
        r@ == note_comments(notes.deep_view(), notes@.len() as int),
{
    let ghost all = notes.deep_view();
    let mut text = String::new();
    let mut i: usize = 0;
    proof {
        reveal_strlit("\n");
    }
    while i < notes.len()
        invariant
            "\n"@.len() == 1,
            all == notes.deep_view(),
            i <= notes@.len(),
            text@ == note_comments(all, i as int),
        decreases notes.len() - i,
    {
        assert(all[i as int] == notes@[i as int]@);
        text.push_str("# Note: ");
        text.push_str(replace(notes[i].as_str(), "\n", " ").as_str());
        text.push_str("\n");
        i += 1;
    }
    text
}

pub open spec fn runner_line(runner: RunnerBackend) -> Seq<char> {
    match runner {
        RunnerBackend::Docker => "runner = \"docker\" # or \"podman\"\n"@,
        RunnerBackend::Podman => "runner = \"podman\" # or \"docker\"\n"@,
    }
}

/// The comments at the head of a first configuration.
pub open spec fn head_text(plan: InitPlanView) -> Seq<char> {
    "# Generated by reprobisect init. Review build.image, build.command, and build.outputs before the first check.\n"@
        + "# Detected project: "@ + plan.detected_project + " ("@ + detection_label(plan.confidence)
        + " confidence)\n"@ + note_comments(plan.notes, plan.notes.len() as int) + "\n[build]\n"@
}

/// The values of a plan in a first configuration.
pub open spec fn values_text(plan: InitPlanView, runner: RunnerBackend) -> Seq<char> {
    runner_line(runner) + "image = "@ + string_text(plan.image) + "\ncommand = "@ + array_text(
        plan.command,
    ) + "\noutputs = "@ + array_text(plan.outputs)
}

/// The text of a first configuration.
pub open spec fn config_text(plan: InitPlanView, runner: RunnerBackend) -> Seq<char> {
    head_text(plan) + values_text(plan, runner)
        + "\ntimeout_seconds = 600\nlog_capture_max_bytes = 1048576\n\n"@
        + "[experiments]\ncontrol_runs = 2\n"@ + EXPERIMENTS_TEMPLATE@
}

/// Renders a configuration for a runner.
pub fn render_config_for(plan: &InitPlan, runner: RunnerBackend) -> (r: String)
    ensures
        r@ == config_text(plan.deep_view(), runner),
{
    let mut out =
        "# Generated by reprobisect init. Review build.image, build.command, and build.outputs before the first check.\n".to_owned();
    out.push_str("# Detected project: ");
    out.push_str(plan.detected_project.as_str());
    out.push_str(" (");
    out.push_str(plan.confidence.label());
    out.push_str(" confidence)\n");
    out.push_str(show_note_comments(&plan.notes).as_str());
    out.push_str("\n[build]\n");
    match runner {
        RunnerBackend::Docker => {
            out.push_str("runner = \"docker\" # or \"podman\"\n");
        },
        RunnerBackend::Podman => {
            out.push_str("runner = \"podman\" # or \"docker\"\n");
        },
    }
    out.push_str("image = ");
    out.push_str(string_value(plan.image.as_str()).as_str());
    out.push_str("\ncommand = ");
    out.push_str(string_array(&plan.command).as_str());
    out.push_str("\noutputs = ");
    out.push_str(string_array(&plan.outputs).as_str());
    assert(out@ =~= head_text(plan.deep_view()) + values_text(plan.deep_view(), runner));
    out.push_str("\ntimeout_seconds = 600\nlog_capture_max_bytes = 1048576\n\n");
    out.push_str("[experiments]\ncontrol_runs = 2\n");
    out.push_str(EXPERIMENTS_TEMPLATE);
    out
}

/// Renders a configuration for the default runner.
pub fn render_config(plan: &InitPlan) -> (r: String)
    ensures
        r@ == config_text(plan.deep_view(), RunnerBackend::Docker),
{
    render_config_for(plan, RunnerBackend::Docker)
}

/// Digits below 16 have different characters.
proof fn lemma_digits_differ(a: int, b: int)
    requires
        0 <= a < 16,
        0 <= b < 16,
        digit_char(a) == digit_char(b),
    ensures
        a == b,
{
}

/// What two characters are written as starts no text in common.
proof fn lemma_escapes_differ(c: char, d: char, x: Seq<char>, y: Seq<char>)
    requires
        escaped_char(c) + x == escaped_char(d) + y,
    ensures
        c == d,
        x == y,
{
    let left = escaped_char(c) + x;
    let right = escaped_char(d) + y;
    assert(left[0] == escaped_char(c)[0]);
    assert(right[0] == escaped_char(d)[0]);
    if left[0] == '\\' {
        assert(left[1] == escaped_char(c)[1]);
        assert(right[1] == escaped_char(d)[1]);
        if left[1] == 'u' {
            assert(left[4] == escaped_char(c)[4]);
            assert(right[4] == escaped_char(d)[4]);
            assert(left[5] == escaped_char(c)[5]);
            assert(right[5] == escaped_char(d)[5]);
            lemma_digits_differ(c as u32 as int / 16, d as u32 as int / 16);
            lemma_digits_differ(c as u32 as int % 16, d as u32 as int % 16);
        }
    }
    lemma_same_start(escaped_char(c), x, y);
}

/// The characters of a text from `i` on as they stand in a JSON text.
pub open spec fn escaped_from(s: Seq<char>, i: int) -> Seq<char>
    decreases s.len() - i,
{
    if i >= s.len() {
        Seq::empty()
    } else {
        escaped_char(s[i]) + escaped_from(s, i + 1)
    }
}

pub proof fn lemma_escaped_from(s: Seq<char>, i: int)
    requires
        0 <= i <= s.len(),
    ensures
        escaped(s, s.len() as int) == escaped(s, i) + escaped_from(s, i),
    decreases s.len() - i,
{
    if i < s.len() {
        lemma_escaped_from(s, i + 1);
        assert(escaped(s, i) + escaped_from(s, i) =~= escaped(s, i + 1) + escaped_from(s, i + 1));
    } else {
        assert(escaped(s, i) + escaped_from(s, i) =~= escaped(s, i));
    }
}

proof fn lemma_escaped_reads_back(a: Seq<char>, b: Seq<char>, i: int, x: Seq<char>, y: Seq<char>)
    requires
        0 <= i <= a.len(),
        i <= b.len(),
        a.take(i) == b.take(i),
        escaped_from(a, i) + seq!['"'] + x == escaped_from(b, i) + seq!['"'] + y,
    ensures
        a == b,
        x == y,
    decreases a.len() - i,
{
    let left = escaped_from(a, i) + seq!['"'] + x;
    let right = escaped_from(b, i) + seq!['"'] + y;
    if i < a.len() && i < b.len() {
        let u = escaped_from(a, i + 1) + seq!['"'] + x;
        let v = escaped_from(b, i + 1) + seq!['"'] + y;
        assert(left =~= escaped_char(a[i]) + u);
        assert(right =~= escaped_char(b[i]) + v);
        lemma_escapes_differ(a[i], b[i], u, v);
        assert(a.take(i + 1) =~= a.take(i).push(a[i]));
        assert(b.take(i + 1) =~= b.take(i).push(b[i]));
        lemma_escaped_reads_back(a, b, i + 1, x, y);
    } else {
        if i < a.len() {
            assert(left[0] == escaped_char(a[i])[0]);
            assert(right[0] == '"');
        }
        if i < b.len() {
            assert(right[0] == escaped_char(b[i])[0]);
            assert(left[0] == '"');
        }
        assert(a =~= a.take(i));
        assert(b =~= b.take(i));
        assert(left =~= seq!['"'] + x);
        assert(right =~= seq!['"'] + y);
        lemma_same_start(seq!['"'], x, y);
    }
}

/// A written text ends at its closing quote, and tells what was written.
proof fn lemma_string_reads_back(a: Seq<char>, b: Seq<char>, x: Seq<char>, y: Seq<char>)
    requires
        string_text(a) + x == string_text(b) + y,
    ensures
        a == b,
        x == y,
{
    lemma_escaped_from(a, 0);
    lemma_escaped_from(b, 0);
    let u = escaped_from(a, 0) + seq!['"'] + x;
    let v = escaped_from(b, 0) + seq!['"'] + y;
    assert(string_text(a) + x =~= seq!['"'] + u);
    assert(string_text(b) + y =~= seq!['"'] + v);
    lemma_same_start(seq!['"'], u, v);
    assert(a.take(0) =~= b.take(0));
    lemma_escaped_reads_back(a, b, 0, x, y);
}

/// The written texts of a list from `i` on.
pub open spec fn items_from(list: Seq<Seq<char>>, i: int) -> Seq<char>
    decreases list.len() - i,
{
    if i >= list.len() {
        Seq::empty()
    } else if i <= 0 {
        string_text(list[i]) + items_from(list, i + 1)
    } else {
        ", "@ + string_text(list[i]) + items_from(list, i + 1)
    }
}

pub proof fn lemma_items_from(list: Seq<Seq<char>>, i: int)
    requires
        0 <= i <= list.len(),
    ensures
        joined(string_texts(list), ", "@, list.len() as int) == joined(
            string_texts(list),
            ", "@,
            i,
        ) + items_from(list, i),
    decreases list.len() - i,
{
    let texts = string_texts(list);
    if i < list.len() {
        lemma_items_from(list, i + 1);
        assert(texts[i] == string_text(list[i]));
        assert(joined(texts, ", "@, i) + items_from(list, i) =~= joined(texts, ", "@, i + 1)
            + items_from(list, i + 1));
    } else {
        assert(joined(texts, ", "@, i) + items_from(list, i) =~= joined(texts, ", "@, i));
    }
}

proof fn lemma_items_read_back(
    a: Seq<Seq<char>>,
    b: Seq<Seq<char>>,
    i: int,
    x: Seq<char>,
    y: Seq<char>,
)
    requires
        0 <= i <= a.len(),
        i <= b.len(),
        a.take(i) == b.take(i),
        items_from(a, i) + "]"@ + x == items_from(b, i) + "]"@ + y,
    ensures
        a == b,
        x == y,
    decreases a.len() - i,
{
    reveal_strlit(", ");
    reveal_strlit("]");
    let left = items_from(a, i) + "]"@ + x;
    let right = items_from(b, i) + "]"@ + y;
    if i < a.len() && i < b.len() {
        let u = items_from(a, i + 1) + "]"@ + x;
        let v = items_from(b, i + 1) + "]"@ + y;
        if i == 0 {
            assert(left =~= string_text(a[i]) + u);
            assert(right =~= string_text(b[i]) + v);
        } else {
            assert(left =~= ", "@ + (string_text(a[i]) + u));
            assert(right =~= ", "@ + (string_text(b[i]) + v));
            lemma_same_start(", "@, string_text(a[i]) + u, string_text(b[i]) + v);
        }
        lemma_string_reads_back(a[i], b[i], u, v);
        assert(a.take(i + 1) =~= a.take(i).push(a[i]));
        assert(b.take(i + 1) =~= b.take(i).push(b[i]));
        lemma_items_read_back(a, b, i + 1, x, y);
    } else {
        if i < a.len() {
            assert(right[0] == ']');
            assert(left[0] == if i == 0 {
                '"'
            } else {
                ','
            });
        }
        if i < b.len() {
            assert(left[0] == ']');
            assert(right[0] == if i == 0 {
                '"'
            } else {
                ','
            });
        }
        assert(a =~= a.take(i));
        assert(b =~= b.take(i));
        assert(left =~= "]"@ + x);
        assert(right =~= "]"@ + y);
        lemma_same_start("]"@, x, y);
    }
}

/// A written list ends at its closing bracket, and tells what was written.
proof fn lemma_array_reads_back(
    a: Seq<Seq<char>>,
    b: Seq<Seq<char>>,
    x: Seq<char>,
    y: Seq<char>,
)
    requires
        array_text(a) + x == array_text(b) + y,
    ensures
        a == b,
        x == y,
{
    lemma_items_from(a, 0);
    lemma_items_from(b, 0);
    let u = items_from(a, 0) + "]"@ + x;
    let v = items_from(b, 0) + "]"@ + y;
    assert(array_text(a) + x =~= "["@ + u);
    assert(array_text(b) + y =~= "["@ + v);
    lemma_same_start("["@, u, v);
    assert(a.take(0) =~= b.take(0));
    lemma_items_read_back(a, b, 0, x, y);
}

proof fn lemma_nested(
    a: Seq<char>,
    b: Seq<char>,
    c: Seq<char>,
    d: Seq<char>,
    e: Seq<char>,
    f: Seq<char>,
    g: Seq<char>,
    x: Seq<char>,
)
    ensures
        a + b + c + d + e + f + g + x == a + (b + (c + (d + (e + (f + (g + x)))))),
{
    assert(a + b + c + d + e + f + g + x =~= a + (b + (c + (d + (e + (f + (g + x)))))));
}

/// The line of the runner tells the runner.
proof fn lemma_runner_reads_back(r: RunnerBackend, s: RunnerBackend, x: Seq<char>, y: Seq<char>)
    requires
        runner_line(r) + x == runner_line(s) + y,
    ensures
        r == s,
        x == y,
{
    reveal_strlit("runner = \"docker\" # or \"podman\"\n");
    reveal_strlit("runner = \"podman\" # or \"docker\"\n");
    let left = runner_line(r) + x;
    let right = runner_line(s) + y;
    assert(left[10] == runner_line(r)[10]);
    assert(right[10] == runner_line(s)[10]);
    lemma_same_start(runner_line(r), x, y);
}

/// The values in a configuration tell the runner, the image, the command and the outputs of the plan
/// that was rendered, whatever follows them.
pub proof fn law_rendered_values_tell_the_plan(
    p: InitPlanView,
    q: InitPlanView,
    r: RunnerBackend,
    s: RunnerBackend,
    x: Seq<char>,
    y: Seq<char>,
)
    requires
        values_text(p, r) + x == values_text(q, s) + y,
    ensures
        r == s,
        p.image == q.image,
        p.command == q.command,
        p.outputs == q.outputs,
        x == y,
{
    let outputs_p = array_text(p.outputs) + x;
    let outputs_q = array_text(q.outputs) + y;
    let command_p = array_text(p.command) + ("\noutputs = "@ + outputs_p);
    let command_q = array_text(q.command) + ("\noutputs = "@ + outputs_q);
    let image_p = string_text(p.image) + ("\ncommand = "@ + command_p);
    let image_q = string_text(q.image) + ("\ncommand = "@ + command_q);
    lemma_nested(
        runner_line(r),
        "image = "@,
        string_text(p.image),
        "\ncommand = "@,
        array_text(p.command),
        "\noutputs = "@,
        array_text(p.outputs),
        x,
    );
    lemma_nested(
        runner_line(s),
        "image = "@,
        string_text(q.image),
        "\ncommand = "@,
        array_text(q.command),
        "\noutputs = "@,
        array_text(q.outputs),
        y,
    );
    lemma_runner_reads_back(r, s, "image = "@ + image_p, "image = "@ + image_q);
    lemma_same_start("image = "@, image_p, image_q);
    lemma_string_reads_back(p.image, q.image, "\ncommand = "@ + command_p, "\ncommand = "@ + command_q);
    lemma_same_start("\ncommand = "@, command_p, command_q);
    lemma_array_reads_back(
        p.command,
        q.command,
        "\noutputs = "@ + outputs_p,
        "\noutputs = "@ + outputs_q,
    );
    lemma_same_start("\noutputs = "@, outputs_p, outputs_q);
    lemma_array_reads_back(p.outputs, q.outputs, x, y);
}

pub open spec fn is_plain_char(c: char) -> bool {
    is_alphanumeric(c) || c == '/' || c == '.' || c == '_' || c == '-' || c == ':' || c == '='
}

/// Whether a part of a command needs no quotes.
pub open spec fn is_plain(part: Seq<char>) -> bool {
    forall|i: int| 0 <= i < part.len() ==> is_plain_char(#[trigger] part[i])
}

fn plain(part: &str) -> (r: bool)
    ensures
        r == is_plain(part@),
{
    let chars = chars_of(part);
    let mut i: usize = 0;
    while i < chars.len()
        invariant
            chars@ == part@,
            i <= chars@.len(),
            forall|k: int| 0 <= k < i ==> is_plain_char(#[trigger] part@[k]),
        decreases chars.len() - i,
    {
        let c = chars[i];
        if !(ascii_alphanumeric(c) || c == '/' || c == '.' || c == '_' || c == '-' || c == ':' || c
            == '=') {
            assert(!is_plain_char(part@[i as int]));
            return false;
        }
        i += 1;
    }
    true
}

/// The parts of a command as they are shown.
pub open spec fn shown_parts(command: Seq<Seq<char>>) -> Seq<Seq<char>> {
    command.map_values(
        |part: Seq<char>|
            if is_plain(part) {
                part
            } else {
                debug_text(part)
            },
    )
}

pub open spec fn command_text(command: Seq<Seq<char>>) -> Seq<char> {
    joined(shown_parts(command), " "@, command.len() as int)
}

pub fn display_command(command: &Vec<String>) -> (r: String)
    ensures
        r@ == command_text(command.deep_view()),
{
    let ghost all = shown_parts(command.deep_view());
    let mut parts: Vec<String> = Vec::new();
    let mut i: usize = 0;
    assert(parts.deep_view() =~= all.take(0));
    while i < command.len()
        invariant
            all == shown_parts(command.deep_view()),
            i <= command@.len(),
            parts.deep_view() == all.take(i as int),
        decreases command.len() - i,
    {
        assert(command.deep_view()[i as int] == command@[i as int]@);
        if plain(command[i].as_str()) {
            push_line(&mut parts, command[i].clone());
        } else {
            push_line(&mut parts, quoted(command[i].as_str()));
        }
        assert(all.take(i + 1) =~= all.take(i as int).push(all[i as int]));
        i += 1;
    }
    assert(all.take(all.len() as int) =~= all);
    join(&parts, " ")
}

pub open spec fn exists_already_text(path: Seq<char>) -> Seq<char> {
    path + " already exists; pass --force to overwrite it"@
}

pub fn show_exists_already(path: &str) -> (r: String)
    ensures
        r@ == exists_already_text(path@),
{
    concat(path, " already exists; pass --force to overwrite it")
}

/// What forbids to write a configuration.
pub fn creation_problem(path: &str, exists: bool, force: bool) -> (r: Option<String>)
    ensures
        r.deep_view() == if exists && !force {
            Some(exists_already_text(path@))
        } else {
            None
        },
{
    if exists && !force {
        return Some(show_exists_already(path));
    }
    None
}

pub open spec fn with_plan_notes(
    lines: Seq<Seq<char>>,
    items: Seq<String>,
    n: int,
) -> Seq<Seq<char>>
    decreases n,
{
    if n <= 0 {
        lines
    } else {
        with_plan_notes(lines, items, n - 1).push(plan_note_text(items[n - 1]))
    }
}

pub fn push_plan_notes(lines: &mut Vec<String>, items: &Vec<String>)
    ensures
        final(lines).deep_view() == with_plan_notes(
            old(lines).deep_view(),
            items@,
            items@.len() as int,
        ),
{
    let ghost start = lines.deep_view();
    let mut n: usize = 0;
    while n < items.len()
        invariant
            n <= items@.len(),
            lines.deep_view() == with_plan_notes(start, items@, n as int),
        decreases items.len() - n,
    {
        push_line(lines, show_plan_note(&items[n]));
        n += 1;
    }
}

pub open spec fn plan_note_text(note: String) -> Seq<char> {
    "note: "@ + note@
}

pub fn show_plan_note(note: &String) -> (r: String)
    ensures
        r@ == plan_note_text(*note),
{
    concat("note: ", note.as_str())
}

pub open spec fn plural_text(n: nat) -> Seq<char> {
    if n == 1 {
        ""@
    } else {
        "s"@
    }
}

fn show_plural(n: usize) -> (r: &'static str)
    ensures
        r@ == plural_text(n as nat),
{
    if n == 1 {
        ""
    } else {
        "s"
    }
}

pub open spec fn with_creation(
    lines: Seq<Seq<char>>,
    path: Seq<char>,
    plan: InitPlan,
) -> Seq<Seq<char>> {
    let lines = lines.push("created "@ + path);
    let lines = lines.push(
        "detected project: "@
            + plan.detected_project@
            + " ("@
            + detection_label(plan.confidence)
            + " confidence)"@,
    );
    let lines = lines.push("image: "@ + plan.image@);
    let lines = lines.push("command: "@ + command_text(plan.command.deep_view()));
    let lines = lines.push(
        "likely output"@
            + plural_text(plan.outputs@.len())
            + ": "@
            + joined(plan.outputs.deep_view(), ", "@, plan.outputs@.len() as int),
    );
    let lines = with_plan_notes(lines, plan.notes@, plan.notes@.len() as int);
    let lines = lines.push("next: review .reprobisect.toml, then run reprobisect doctor ."@);
    lines
}

pub fn push_creation(lines: &mut Vec<String>, path: &str, plan: &InitPlan)
    ensures
        final(lines).deep_view() == with_creation(old(lines).deep_view(), path@, *plan),
{
    push_line(lines, concat("created ", path));
    push_line(
        lines,
        concat5(
            "detected project: ",
            plan.detected_project.as_str(),
            " (",
            plan.confidence.label(),
            " confidence)",
        ),
    );
    push_line(lines, concat("image: ", plan.image.as_str()));
    push_line(lines, concat("command: ", display_command(&plan.command).as_str()));
    let mut text = "likely output".to_owned();
    text.push_str(show_plural(plan.outputs.len()));
    text.push_str(": ");
    text.push_str(join(&plan.outputs, ", ").as_str());
    push_line(lines, text);
    push_plan_notes(lines, &plan.notes);
    push_line(lines, "next: review .reprobisect.toml, then run reprobisect doctor .".to_owned());
}

/// What is printed of a configuration that was written.
pub fn creation_lines(path: &str, plan: &InitPlan) -> (r: Vec<String>)
    ensures
        r.deep_view() == with_creation(Seq::empty(), path@, *plan),
{
    let mut lines: Vec<String> = Vec::new();
    assert(lines.deep_view() =~= Seq::<Seq<char>>::empty());
    push_creation(&mut lines, path, plan);
    lines
}

/// The paths of the first `n` candidates that are sure enough.
pub open spec fn sure_outputs(candidates: Seq<OutputCandidateView>, n: int) -> Seq<Seq<char>>
    decreases n,
{
    if n <= 0 {
        Seq::empty()
    } else {
        let rest = sure_outputs(candidates, n - 1);
        if candidates[n - 1].confidence is High {
            rest.push(candidates[n - 1].path)
        } else {
            rest
        }
    }
}

/// A plan with the outputs that a build was seen to make, if some are sure enough.
pub open spec fn with_discovered(plan: InitPlanView, candidates: Seq<OutputCandidateView>) -> InitPlanView {
    let sure = sure_outputs(candidates, candidates.len() as int);
    if sure.len() > 0 {
        InitPlanView { outputs: sure, ..plan }
    } else {
        plan
    }
}

pub fn adopt_discovered(plan: &mut InitPlan, discovered: &OutputDiscoveryResult)
    ensures
        final(plan).deep_view() == with_discovered(
            old(plan).deep_view(),
            discovered.candidates.deep_view(),
        ),
{
    let ghost all = discovered.candidates.deep_view();
    let mut sure: Vec<String> = Vec::new();
    let mut i: usize = 0;
    assert(sure.deep_view() =~= Seq::<Seq<char>>::empty());
    while i < discovered.candidates.len()
        invariant
            all == discovered.candidates.deep_view(),
            i <= discovered.candidates@.len(),
            sure.deep_view() == sure_outputs(all, i as int),
        decreases discovered.candidates.len() - i,
    {
        let candidate = &discovered.candidates[i];
        assert(all[i as int] == candidate.deep_view());
        if candidate.confidence == CandidateConfidence::High {
            push_line(&mut sure, candidate.path.clone());
        }
        i += 1;
    }
    assert(sure.deep_view().len() == sure@.len());
    if sure.len() > 0 {
        plan.outputs = sure;
    }
}

/// Several build systems never leave a plan with high confidence, and the plan says that there were
/// several.
pub proof fn law_ambiguity_is_explicit(f: ProjectFilesView)
    requires
        kinds_in(f).len() > 1,
    ensures
        !(detected_plan(f).confidence is High),
        detected_plan(f).notes.len() == plan_in(f, selected_kind(kinds_in(f))).notes.len() + 1,
        detected_plan(f).notes.last() == ambiguity_text(
            project_label(selected_kind(kinds_in(f))),
            other_labels(kinds_in(f)),
        ),
{
}

proof fn lemma_plan_shape(f: ProjectFilesView, kind: ProjectKind)
    ensures
        plan_in(f, kind).command.len() >= 3,
        plan_in(f, kind).outputs.len() == 1,
        plan_in(f, kind).notes.len() == 1,
{
    match kind {
        ProjectKind::Cargo => {
            assert(cargo_command(has(f, "Cargo.lock"@)).len() >= 3);
        },
        _ => {},
    }
}

/// Every plan names a command, an output and a note, and a project without markers gets the
/// placeholders.
pub proof fn law_every_project_gets_a_plan(f: ProjectFilesView)
    ensures
        detected_plan(f).command.len() >= 3,
        detected_plan(f).outputs.len() == 1,
        detected_plan(f).notes.len() >= 1,
        kinds_in(f).len() == 0 ==> detected_plan(f) == generic_plan_text(),
{
    lemma_plan_shape(f, selected_kind(kinds_in(f)));
}

proof fn lemma_sure_outputs(candidates: Seq<OutputCandidateView>, n: int)
    requires
        0 <= n <= candidates.len(),
    ensures
        forall|i: int|
            0 <= i < sure_outputs(candidates, n).len() ==> exists|k: int|
                0 <= k < n && (#[trigger] candidates[k]).confidence is High && candidates[k].path == (
                #[trigger] sure_outputs(candidates, n)[i]),
    decreases n,
{
    if n > 0 {
        lemma_sure_outputs(candidates, n - 1);
        let rest = sure_outputs(candidates, n - 1);
        let all = sure_outputs(candidates, n);
        assert forall|i: int| 0 <= i < all.len() implies exists|k: int|
            0 <= k < n && (#[trigger] candidates[k]).confidence is High && candidates[k].path == (
            #[trigger] all[i]) by {
            if i < rest.len() {
                assert(all[i] == rest[i]);
                let k = choose|k: int|
                    0 <= k < n - 1 && (#[trigger] candidates[k]).confidence is High
                        && candidates[k].path == rest[i];
                assert(candidates[k].confidence is High && candidates[k].path == all[i]);
            } else {
                assert(candidates[n - 1].confidence is High && candidates[n - 1].path == all[i]);
            }
        }
    }
}

/// Only candidates of high confidence replace the outputs of a plan, and nothing else of it changes.
pub proof fn law_only_sure_candidates_are_adopted(
    plan: InitPlanView,
    candidates: Seq<OutputCandidateView>,
)
    ensures
        with_discovered(plan, candidates).outputs == plan.outputs || forall|i: int|
            0 <= i < with_discovered(plan, candidates).outputs.len() ==> exists|k: int|
                0 <= k < candidates.len() && (#[trigger] candidates[k]).confidence is High
                    && candidates[k].path == (#[trigger] with_discovered(
                    plan,
                    candidates,
                ).outputs[i]),
        (InitPlanView { outputs: plan.outputs, ..with_discovered(plan, candidates) }) == plan,
{
    lemma_sure_outputs(candidates, candidates.len() as int);
    let sure = sure_outputs(candidates, candidates.len() as int);
    let outputs = with_discovered(plan, candidates).outputs;
    if sure.len() > 0 {
        assert forall|i: int| 0 <= i < outputs.len() implies exists|k: int|
            0 <= k < candidates.len() && (#[trigger] candidates[k]).confidence is High
                && candidates[k].path == (#[trigger] outputs[i]) by {
            let k = choose|k: int|
                0 <= k < candidates.len() && (#[trigger] candidates[k]).confidence is High
                    && candidates[k].path == sure[i];
            assert(candidates[k].confidence is High && candidates[k].path == outputs[i]);
        }
    }
}

} // verus!
