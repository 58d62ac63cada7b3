//! Small changes to the files of a project: finding the place for one, making it and applying it.
use vstd::prelude::*;
use vstd::utf8::{decode_utf8, encode_utf8, valid_utf8};

use crate::bytes::copy_bytes;
use crate::config::{relative_path_problem, validate_relative_path, Config};
use crate::digest::{digest_text, sha256_bytes};
use crate::numbers::{decimal, decimal_of};
use crate::ordering::{is_same_path, join_path, path_from, same_path};
use crate::text::{begins_with, chars_of, concat, concat3, concat5, contains, count_lines};
use crate::text::{debug_text, ends_with, find_chars, finishes_with, first_from, is_white, join};
use crate::text::{joined, lemma_first_from, lemma_occurs_first, lines, lines_from, lines_of, lower};
use crate::text::{char_count, mark_lines, marked_lines, match_count, occurs};
use crate::text::{occurs_once, push_line, quoted, replace_once, replaced_once, same};
use crate::text::{stands_at, stands_at_chars, strip_leading, text_between, to_lower, trim};
use crate::text::{trim_start, trimmed, trimmed_start, utf8_text, without_leading, words, words_of};
use crate::text::CharClass;

verus! {

/// What a patch does to a file.
#[derive(Debug, PartialEq)]
pub enum ProjectPatchOperation {
    Append { text: String },
    InsertAfterLine { line_number: usize, text: String },
    Create { text: String },
    /// Replace exactly one expected literal site in an existing text file.
    ReplaceText { expected: String, replacement: String },
}

#[verifier::ext_equal]
pub enum ProjectPatchOperationView {
    Append { text: Seq<char> },
    InsertAfterLine { line_number: usize, text: Seq<char> },
    Create { text: Seq<char> },
    ReplaceText { expected: Seq<char>, replacement: Seq<char> },
}

impl DeepView for ProjectPatchOperation {
    type V = ProjectPatchOperationView;

    open spec fn deep_view(&self) -> ProjectPatchOperationView {
        match self {
            ProjectPatchOperation::Append { text } => ProjectPatchOperationView::Append {
                text: text@,
            },
            ProjectPatchOperation::InsertAfterLine { line_number, text } =>
                ProjectPatchOperationView::InsertAfterLine {
                line_number: *line_number,
                text: text@,
            },
            ProjectPatchOperation::Create { text } => ProjectPatchOperationView::Create {
                text: text@,
            },
            ProjectPatchOperation::ReplaceText { expected, replacement } =>
                ProjectPatchOperationView::ReplaceText {
                expected: expected@,
                replacement: replacement@,
            },
        }
    }
}

impl Clone for ProjectPatchOperation {
    fn clone(&self) -> (r: ProjectPatchOperation)
        ensures
            r.deep_view() == self.deep_view(),
    {
        match self {
            ProjectPatchOperation::Append { text } => ProjectPatchOperation::Append {
                text: text.clone(),
            },
            ProjectPatchOperation::InsertAfterLine { line_number, text } =>
                ProjectPatchOperation::InsertAfterLine {
                line_number: *line_number,
                text: text.clone(),
            },
            ProjectPatchOperation::Create { text } => ProjectPatchOperation::Create {
                text: text.clone(),
            },
            ProjectPatchOperation::ReplaceText { expected, replacement } =>
                ProjectPatchOperation::ReplaceText {
                expected: expected.clone(),
                replacement: replacement.clone(),
            },
        }
    }
}

/// A change to one file of a project.
#[derive(Debug, PartialEq)]
pub struct ProjectPatch {
    pub path: String,
    /// SHA-256 precondition for modifications of an existing file. Creation
    /// patches use None and refuse to overwrite any existing path.
    pub expected_sha256: Option<String>,
    pub operation: ProjectPatchOperation,
    pub unified_diff: String,
}

#[verifier::ext_equal]
pub struct ProjectPatchView {
    pub path: Seq<char>,
    pub expected_sha256: Option<Seq<char>>,
    pub operation: ProjectPatchOperationView,
    pub unified_diff: Seq<char>,
}

impl DeepView for ProjectPatch {
    type V = ProjectPatchView;

    open spec fn deep_view(&self) -> ProjectPatchView {
        ProjectPatchView {
            path: self.path@,
            expected_sha256: self.expected_sha256.deep_view(),
            operation: self.operation.deep_view(),
            unified_diff: self.unified_diff@,
        }
    }
}

impl Clone for ProjectPatch {
    fn clone(&self) -> (r: ProjectPatch)
        ensures
            r.deep_view() == self.deep_view(),
    {
        ProjectPatch {
            path: self.path.clone(),
            expected_sha256: self.expected_sha256.clone(),
            operation: self.operation.clone(),
            unified_diff: self.unified_diff.clone(),
        }
    }
}

/// What stands at the path of a file that may be patched.
#[derive(Debug, PartialEq)]
pub enum PatchTarget {
    /// Nothing can be found there, for this reason.
    Absent { cause: String },
    /// A directory, a link or something else.
    NotAFile,
    /// A regular file that cannot be read, with what its reader said.
    Unreadable { problem: String },
    File(Vec<u8>),
}

/// What is known of a path without looking behind a link.
#[derive(Debug, Clone, Copy, PartialEq, Eq, Structural)]
pub enum PathState {
    Absent,
    /// A link to nothing.
    Dangling,
    Present,
}

/// The files that a project can be patched in. `scripts` are those that its build command names.
#[derive(Debug, PartialEq)]
pub struct PatchFiles {
    pub makefile: PatchTarget,
    pub cmake: PatchTarget,
    pub meson: PatchTarget,
    pub cargo_manifest: bool,
    pub cargo_config: bool,
    pub cargo_config_toml: PathState,
    pub scripts: Vec<PatchTarget>,
}

/// The text of a file, if it is a regular one and holds text.
pub open spec fn target_text(target: PatchTarget) -> Option<Seq<char>> {
    match target {
        PatchTarget::File(bytes) => if valid_utf8(bytes@) {
            Some(decode_utf8(bytes@))
        } else {
            None
        },
        _ => None,
    }
}

pub open spec fn target_bytes(target: PatchTarget) -> Seq<u8> {
    match target {
        PatchTarget::File(bytes) => bytes@,
        _ => Seq::empty(),
    }
}

fn read_target(target: &PatchTarget) -> (r: Option<String>)
    ensures
        r.deep_view() == target_text(*target),
{
    match target {
        PatchTarget::File(bytes) => utf8_text(bytes.as_slice()),
        _ => None,
    }
}

fn digest_target(target: &PatchTarget) -> (r: String)
    ensures
        r@ == digest_text(target_bytes(*target)),
{
    match target {
        PatchTarget::File(bytes) => sha256_bytes(bytes.as_slice()),
        _ => {
            let none: Vec<u8> = Vec::new();
            assert(none@ =~= Seq::<u8>::empty());
            sha256_bytes(none.as_slice())
        },
    }
}

pub open spec fn candidate_mark_text(id: Seq<char>) -> Seq<char> {
    "# ReproBisect candidate: "@ + id
}

pub fn show_candidate_mark(id: &str) -> (r: String)
    ensures
        r@ == candidate_mark_text(id@),
{
    concat("# ReproBisect candidate: ", id)
}

pub open spec fn bare_mark_text(id: Seq<char>) -> Seq<char> {
    "ReproBisect candidate: "@ + id
}

pub fn show_bare_mark(id: &str) -> (r: String)
    ensures
        r@ == bare_mark_text(id@),
{
    concat("ReproBisect candidate: ", id)
}

/// What is appended to a file: the block, after an empty line.
pub open spec fn appended_text(original: Seq<char>, block: Seq<char>) -> Seq<char> {
    if finishes_with(original, "\n"@) {
        "\n"@ + block
    } else {
        "\n\n"@ + block
    }
}

pub open spec fn append_diff_text(
    path: Seq<char>,
    lines_before: usize,
    added_count: usize,
    added: Seq<char>,
) -> Seq<char> {
    "--- a/"@
        + path
        + "\n+++ b/"@
        + path
        + "\n@@ -"@
        + decimal_of(lines_before as int)
        + ",0 +"@
        + decimal_of(lines_before + 1)
        + ","@
        + decimal_of(added_count as int)
        + " @@\n"@
        + added
        + "\n"@
}

pub fn show_append_diff(
    path: &str,
    lines_before: usize,
    added_count: usize,
    added: &str,
) -> (r: String)
    ensures
        r@ == append_diff_text(path@, lines_before, added_count, added@),
{
    let mut text = "--- a/".to_owned();
    text.push_str(path);
    text.push_str("\n+++ b/");
    text.push_str(path);
    text.push_str("\n@@ -");
    text.push_str(decimal(lines_before as u128).as_str());
    text.push_str(",0 +");
    text.push_str(decimal(lines_before as u128 + 1).as_str());
    text.push_str(",");
    text.push_str(decimal(added_count as u128).as_str());
    text.push_str(" @@\n");
    text.push_str(added);
    text.push_str("\n");
    text
}

/// The patch that appends a block to an existing file, unless it is there already.
pub open spec fn append_patch(target: PatchTarget, path: Seq<char>, id: Seq<char>, block: Seq<char>) -> Option<
    ProjectPatchView,
> {
    match target_text(target) {
        Some(original) => if occurs(original, candidate_mark_text(id)) {
            None
        } else {
            let text = appended_text(original, block);
            let added = trimmed_start(text, CharClass::One('\n'));
            Some(
                ProjectPatchView {
                    path,
                    expected_sha256: Some(digest_text(target_bytes(target))),
                    operation: ProjectPatchOperationView::Append { text },
                    unified_diff: append_diff_text(
                        path,
                        lines_of(original).len() as usize,
                        lines_of(added).len() as usize,
                        marked_lines("+"@, added),
                    ),
                },
            )
        },
        None => None,
    }
}

pub fn append_existing_patch(target: &PatchTarget, relative: &str, id: &str, block: &str) -> (r: Option<
    ProjectPatch,
>)
    ensures
        r.deep_view() == append_patch(*target, relative@, id@, block@),
{
    let original = match read_target(target) {
        Some(text) => text,
        None => {
            return None;
        },
    };
    if contains(original.as_str(), show_candidate_mark(id).as_str()) {
        return None;
    }
    let text = if ends_with(original.as_str(), "\n") {
        concat("\n", block)
    } else {
        concat("\n\n", block)
    };
    let added = trim_start(text.as_str(), CharClass::One('\n'));
    let unified_diff = show_append_diff(
        relative,
        count_lines(original.as_str()),
        count_lines(added.as_str()),
        mark_lines("+", added.as_str()).as_str(),
    );
    Some(
        ProjectPatch {
            path: relative.to_owned(),
            expected_sha256: Some(digest_target(target)),
            operation: ProjectPatchOperation::Append { text },
            unified_diff,
        },
    )
}

pub open spec fn at_least_one(n: nat) -> nat {
    if n < 1 {
        1
    } else {
        n
    }
}

/// The patch that inserts a block after a line of an existing file, unless it is there already or
/// there is no such line.
pub open spec fn insert_patch(
    target: PatchTarget,
    path: Seq<char>,
    id: Seq<char>,
    line_number: usize,
    block: Seq<char>,
) -> Option<ProjectPatchView> {
    match target_text(target) {
        Some(original) => if line_number == 0 || occurs(original, candidate_mark_text(id))
            || line_number > at_least_one(lines_of(original).len()) {
            None
        } else {
            Some(
                ProjectPatchView {
                    path,
                    expected_sha256: Some(digest_text(target_bytes(target))),
                    operation: ProjectPatchOperationView::InsertAfterLine {
                        line_number,
                        text: block,
                    },
                    unified_diff: append_diff_text(
                        path,
                        line_number,
                        lines_of(block).len() as usize,
                        marked_lines("+"@, block),
                    ),
                },
            )
        },
        None => None,
    }
}

pub fn insert_after_line_patch(
    target: &PatchTarget,
    relative: &str,
    id: &str,
    line_number: usize,
    block: &str,
) -> (r: Option<ProjectPatch>)
    ensures
        r.deep_view() == insert_patch(*target, relative@, id@, line_number, block@),
{
    let original = match read_target(target) {
        Some(text) => text,
        None => {
            return None;
        },
    };
    let count: usize = count_lines(original.as_str());
    let most: usize = if count < 1 {
        1
    } else {
        count
    };
    if line_number == 0 || contains(original.as_str(), show_candidate_mark(id).as_str())
        || line_number > most {
        return None;
    }
    let unified_diff = show_append_diff(
        relative,
        line_number,
        count_lines(block),
        mark_lines("+", block).as_str(),
    );
    Some(
        ProjectPatch {
            path: relative.to_owned(),
            expected_sha256: Some(digest_target(target)),
            operation: ProjectPatchOperation::InsertAfterLine {
                line_number,
                text: block.to_owned(),
            },
            unified_diff,
        },
    )
}

pub open spec fn create_diff_text(path: Seq<char>, count: usize, added: Seq<char>) -> Seq<char> {
    "--- /dev/null\n+++ b/"@
        + path
        + "\n@@ -0,0 +1,"@
        + decimal_of(count as int)
        + " @@\n"@
        + added
        + "\n"@
}

pub fn show_create_diff(path: &str, count: usize, added: &str) -> (r: String)
    ensures
        r@ == create_diff_text(path@, count, added@),
{
    let mut text = "--- /dev/null\n+++ b/".to_owned();
    text.push_str(path);
    text.push_str("\n@@ -0,0 +1,");
    text.push_str(decimal(count as u128).as_str());
    text.push_str(" @@\n");
    text.push_str(added);
    text.push_str("\n");
    text
}

/// The patch that creates a file where there is nothing.
pub open spec fn create_patch(absent: bool, path: Seq<char>, text: Seq<char>) -> Option<
    ProjectPatchView,
> {
    if absent {
        Some(
            ProjectPatchView {
                path,
                expected_sha256: None,
                operation: ProjectPatchOperationView::Create { text },
                unified_diff: create_diff_text(
                    path,
                    lines_of(text).len() as usize,
                    marked_lines("+"@, text),
                ),
            },
        )
    } else {
        None
    }
}

pub fn create_file_patch(absent: bool, relative: &str, text: String) -> (r: Option<ProjectPatch>)
    ensures
        r.deep_view() == create_patch(absent, relative@, text@),
{
    if !absent {
        return None;
    }
    let unified_diff = show_create_diff(
        relative,
        count_lines(text.as_str()),
        mark_lines("+", text.as_str()).as_str(),
    );
    Some(
        ProjectPatch {
            path: relative.to_owned(),
            expected_sha256: None,
            operation: ProjectPatchOperation::Create { text },
            unified_diff,
        },
    )
}

pub open spec fn replace_diff_text(
    path: Seq<char>,
    line_number: u128,
    old_count: usize,
    new_count: usize,
    old_lines: Seq<char>,
    new_lines: Seq<char>,
) -> Seq<char> {
    "--- a/"@
        + path
        + "\n+++ b/"@
        + path
        + "\n@@ -"@
        + decimal_of(line_number as int)
        + ","@
        + decimal_of(old_count as int)
        + " +"@
        + decimal_of(line_number as int)
        + ","@
        + decimal_of(new_count as int)
        + " @@\n"@
        + old_lines
        + "\n"@
        + new_lines
        + "\n"@
}

pub fn show_replace_diff(
    path: &str,
    line_number: u128,
    old_count: usize,
    new_count: usize,
    old_lines: &str,
    new_lines: &str,
) -> (r: String)
    ensures
        r@ == replace_diff_text(path@, line_number, old_count, new_count, old_lines@, new_lines@),
{
    let mut text = "--- a/".to_owned();
    text.push_str(path);
    text.push_str("\n+++ b/");
    text.push_str(path);
    text.push_str("\n@@ -");
    text.push_str(decimal(line_number as u128).as_str());
    text.push_str(",");
    text.push_str(decimal(old_count as u128).as_str());
    text.push_str(" +");
    text.push_str(decimal(line_number as u128).as_str());
    text.push_str(",");
    text.push_str(decimal(new_count as u128).as_str());
    text.push_str(" @@\n");
    text.push_str(old_lines);
    text.push_str("\n");
    text.push_str(new_lines);
    text.push_str("\n");
    text
}

/// The patch that replaces the only site of a text in an existing file.
pub open spec fn replace_patch(
    target: PatchTarget,
    path: Seq<char>,
    expected: Seq<char>,
    replacement: Seq<char>,
) -> Option<ProjectPatchView> {
    match target_text(target) {
        Some(original) => if expected.len() == 0 || expected == replacement || match_count(
            original,
            expected,
        ) != 1 {
            None
        } else {
            let at = first_from(original, expected, 0)->0;
            Some(
                ProjectPatchView {
                    path,
                    expected_sha256: Some(digest_text(target_bytes(target))),
                    operation: ProjectPatchOperationView::ReplaceText { expected, replacement },
                    unified_diff: replace_diff_text(
                        path,
                        (char_count(original, '\n', at) + 1) as u128,
                        at_least_one(lines_of(expected).len()) as usize,
                        at_least_one(lines_of(replacement).len()) as usize,
                        marked_lines("-"@, expected),
                        marked_lines("+"@, replacement),
                    ),
                },
            )
        },
        None => None,
    }
}

/// How many lines end before a position.
fn count_line_ends(chars: &Vec<char>, at: usize) -> (r: usize)
    requires
        at <= chars@.len(),
    ensures
        r == char_count(chars@, '\n', at as int),
        r <= at,
{
    let mut count: usize = 0;
    let mut i: usize = 0;
    while i < at
        invariant
            i <= at <= chars@.len(),
            count <= i,
            count == char_count(chars@, '\n', i as int),
        decreases at - i,
    {
        if chars[i] == '\n' {
            count += 1;
        }
        i += 1;
    }
    count
}

fn count_at_least_one(s: &str) -> (r: usize)
    ensures
        r == at_least_one(lines_of(s@).len()),
{
    let count: usize = count_lines(s);
    if count < 1 {
        1
    } else {
        count
    }
}

pub fn replace_text_patch(target: &PatchTarget, relative: &str, expected: &str, replacement: &str) -> (r:
    Option<ProjectPatch>)
    ensures
        r.deep_view() == replace_patch(*target, relative@, expected@, replacement@),
{
    let original = match read_target(target) {
        Some(text) => text,
        None => {
            return None;
        },
    };
    let wanted = chars_of(expected);
    if wanted.len() == 0 || same(expected, replacement) || !occurs_once(
        original.as_str(),
        expected,
    ) {
        return None;
    }
    let chars = chars_of(original.as_str());
    let at: usize = match find_chars(&chars, &wanted, 0) {
        Some(at) => at,
        None => {
            assert(match_count(original@, expected@) == 0);
            return None;
        },
    };
    let unified_diff = show_replace_diff(
        relative,
        count_line_ends(&chars, at) as u128 + 1,
        count_at_least_one(expected),
        count_at_least_one(replacement),
        mark_lines("-", expected).as_str(),
        mark_lines("+", replacement).as_str(),
    );
    Some(
        ProjectPatch {
            path: relative.to_owned(),
            expected_sha256: Some(digest_target(target)),
            operation: ProjectPatchOperation::ReplaceText {
                expected: expected.to_owned(),
                replacement: replacement.to_owned(),
            },
            unified_diff,
        },
    )
}

/// The build command in lower-case letters.
pub open spec fn command_hint(command: Seq<Seq<char>>) -> Seq<char> {
    lower(joined(command, " "@, command.len() as int))
}

pub fn build_command_hint(config: &Config) -> (r: String)
    ensures
        r@ == command_hint(config.build.command.deep_view()),
{
    to_lower(join(&config.build.command, " ").as_str())
}

pub open spec fn makefile_patch(files: PatchFiles, id: Seq<char>, block: Seq<char>) -> Option<
    ProjectPatchView,
> {
    append_patch(files.makefile, "Makefile"@, id, block)
}

pub fn makefile_append_patch(files: &PatchFiles, id: &str, block: &str) -> (r: Option<ProjectPatch>)
    ensures
        r.deep_view() == makefile_patch(*files, id@, block@),
{
    append_existing_patch(&files.makefile, "Makefile", id, block)
}

/// Whether a Makefile seems to make archives.
pub open spec fn mentions_tar(text: Seq<char>) -> bool {
    let low = lower(text);
    occurs(low, "tar "@) || occurs(low, "tar-"@) || occurs(low, "$(tar)"@)
}

pub open spec fn archive_makefile(
    files: PatchFiles,
    hint: Seq<char>,
    id: Seq<char>,
    body: Seq<char>,
) -> Option<ProjectPatchView> {
    match target_text(files.makefile) {
        Some(text) => if occurs(hint, "make"@) && mentions_tar(text) {
            makefile_patch(files, id, body)
        } else {
            None
        },
        None => None,
    }
}

pub fn archive_makefile_patch(files: &PatchFiles, hint: &str, id: &str, body: &str) -> (r: Option<
    ProjectPatch,
>)
    ensures
        r.deep_view() == archive_makefile(*files, hint@, id@, body@),
{
    let text = match read_target(&files.makefile) {
        Some(text) => text,
        None => {
            return None;
        },
    };
    if !contains(hint, "make") {
        return None;
    }
    let low = to_lower(text.as_str());
    if !contains(low.as_str(), "tar ") && !contains(low.as_str(), "tar-") && !contains(
        low.as_str(),
        "$(tar)",
    ) {
        return None;
    }
    makefile_append_patch(files, id, body)
}

/// Each of the first `n` candidates as often as its first text stands in `text`.
pub open spec fn literal_sites(
    text: Seq<char>,
    candidates: Seq<(Seq<char>, Seq<char>)>,
    n: int,
) -> Seq<(Seq<char>, Seq<char>)>
    decreases n,
{
    if n <= 0 {
        Seq::empty()
    } else {
        literal_sites(text, candidates, n - 1) + Seq::new(
            match_count(text, candidates[n - 1].0),
            |i: int| candidates[n - 1],
        )
    }
}

/// The candidate that fits, if there is only one place for any of them.
pub open spec fn unique_site(text: Seq<char>, candidates: Seq<(Seq<char>, Seq<char>)>) -> Option<
    (Seq<char>, Seq<char>),
> {
    let sites = literal_sites(text, candidates, candidates.len() as int);
    if sites.len() == 1 {
        Some(sites[0])
    } else {
        None
    }
}

proof fn lemma_count_zero(text: Seq<char>, needle: Seq<char>)
    ensures
        match_count(text, needle) == 0 <==> !occurs(text, needle),
{
    if needle.len() == 0 {
        assert(text.subrange(0, 0) =~= needle);
        assert(stands_at(text, needle, 0));
    }
    lemma_occurs_first(text, needle);
    lemma_first_from(text, needle, 0);
}

pub fn unique_literal_replacement(text: &str, candidates: &Vec<(String, String)>) -> (r: Option<
    (String, String),
>)
    ensures
        r.deep_view() == unique_site(text@, candidates.deep_view()),
{
    let ghost all = candidates.deep_view();
    let mut found: Option<usize> = None;
    let mut many = false;
    let mut n: usize = 0;
    while n < candidates.len()
        invariant
            all == candidates.deep_view(),
            n <= candidates@.len(),
            many == (literal_sites(text@, all, n as int).len() > 1),
            !many ==> match found {
                Some(k) => k < n && literal_sites(text@, all, n as int).len() == 1
                    && literal_sites(text@, all, n as int)[0] == all[k as int],
                None => literal_sites(text@, all, n as int).len() == 0,
            },
            found is Some ==> found->0 < candidates@.len(),
        decreases candidates.len() - n,
    {
        assert(all[n as int] == (candidates@[n as int].0@, candidates@[n as int].1@));
        let expected = candidates[n].0.as_str();
        proof {
            lemma_count_zero(text@, expected@);
        }
        if contains(text, expected) {
            if found.is_some() || many || !occurs_once(text, expected) {
                many = true;
            } else {
                found = Some(n);
            }
        }
        n += 1;
    }
    if many {
        return None;
    }
    match found {
        Some(k) => {
            assert(all[k as int] == (candidates@[k as int].0@, candidates@[k as int].1@));
            Some((candidates[k].0.clone(), candidates[k].1.clone()))
        },
        None => None,
    }
}

fn push_candidate(candidates: &mut Vec<(String, String)>, expected: &str, replacement: String)
    ensures
        final(candidates).deep_view() == old(candidates).deep_view().push(
            (expected@, replacement@),
        ),
{
    let ghost had = candidates.deep_view();
    let ghost text = replacement@;
    candidates.push((expected.to_owned(), replacement));
    assert(candidates.deep_view() =~= had.push((expected@, text)));
}

pub open spec fn cmake_env_text(options: Seq<char>) -> Seq<char> {
    "COMMAND ${CMAKE_COMMAND} -E env \"TAR_OPTIONS="@ + options + "\" "@
}

pub fn show_cmake_env(options: &str) -> (r: String)
    ensures
        r@ == cmake_env_text(options@),
{
    concat3("COMMAND ${CMAKE_COMMAND} -E env \"TAR_OPTIONS=", options, "\" ")
}

pub open spec fn cmake_candidates(options: Seq<char>) -> Seq<(Seq<char>, Seq<char>)> {
    Seq::<(Seq<char>, Seq<char>)>::empty().push(
        ("COMMAND tar "@, cmake_env_text(options) + "tar "@),
    ).push(("COMMAND /usr/bin/tar "@, cmake_env_text(options) + "/usr/bin/tar "@))
}

/// The replacement of the only site, in a file that was not patched before.
pub open spec fn archive_replacement(
    target: PatchTarget,
    path: Seq<char>,
    id: Seq<char>,
    candidates: Seq<(Seq<char>, Seq<char>)>,
) -> Option<ProjectPatchView> {
    match target_text(target) {
        Some(text) => if occurs(text, bare_mark_text(id)) {
            None
        } else {
            match unique_site(text, candidates) {
                Some(site) => replace_patch(target, path, site.0, site.1),
                None => None,
            }
        },
        None => None,
    }
}

fn replace_archive_site(
    target: &PatchTarget,
    relative: &str,
    id: &str,
    candidates: &Vec<(String, String)>,
) -> (r: Option<ProjectPatch>)
    ensures
        r.deep_view() == archive_replacement(*target, relative@, id@, candidates.deep_view()),
{
    let text = match read_target(target) {
        Some(text) => text,
        None => {
            return None;
        },
    };
    if contains(text.as_str(), show_bare_mark(id).as_str()) {
        return None;
    }
    match unique_literal_replacement(text.as_str(), candidates) {
        Some(site) => replace_text_patch(target, relative, site.0.as_str(), site.1.as_str()),
        None => None,
    }
}

pub open spec fn cmake_archive(files: PatchFiles, id: Seq<char>, options: Seq<char>) -> Option<
    ProjectPatchView,
> {
    archive_replacement(files.cmake, "CMakeLists.txt"@, id, cmake_candidates(options))
}

pub fn cmake_archive_patch(files: &PatchFiles, id: &str, tar_options: &str) -> (r: Option<
    ProjectPatch,
>)
    ensures
        r.deep_view() == cmake_archive(*files, id@, tar_options@),
{
    let prefix = show_cmake_env(tar_options);
    let mut candidates: Vec<(String, String)> = Vec::new();
    assert(candidates.deep_view() =~= Seq::<(Seq<char>, Seq<char>)>::empty());
    push_candidate(&mut candidates, "COMMAND tar ", concat(prefix.as_str(), "tar "));
    push_candidate(
        &mut candidates,
        "COMMAND /usr/bin/tar ",
        concat(prefix.as_str(), "/usr/bin/tar "),
    );
    replace_archive_site(&files.cmake, "CMakeLists.txt", id, &candidates)
}

pub open spec fn meson_single_text(options: Seq<char>) -> Seq<char> {
    "run_command('env', 'TAR_OPTIONS="@ + options + "', 'tar',"@
}

pub fn show_meson_single(options: &str) -> (r: String)
    ensures
        r@ == meson_single_text(options@),
{
    concat3("run_command('env', 'TAR_OPTIONS=", options, "', 'tar',")
}

pub open spec fn meson_double_text(options: Seq<char>) -> Seq<char> {
    "run_command(\"env\", \"TAR_OPTIONS="@ + options + "\", \"tar\","@
}

pub fn show_meson_double(options: &str) -> (r: String)
    ensures
        r@ == meson_double_text(options@),
{
    concat3("run_command(\"env\", \"TAR_OPTIONS=", options, "\", \"tar\",")
}

pub open spec fn meson_spaced_text(options: Seq<char>) -> Seq<char> {
    "command : ['env', 'TAR_OPTIONS="@ + options + "', 'tar',"@
}

pub fn show_meson_spaced(options: &str) -> (r: String)
    ensures
        r@ == meson_spaced_text(options@),
{
    concat3("command : ['env', 'TAR_OPTIONS=", options, "', 'tar',")
}

pub open spec fn meson_close_text(options: Seq<char>) -> Seq<char> {
    "command: ['env', 'TAR_OPTIONS="@ + options + "', 'tar',"@
}

pub fn show_meson_close(options: &str) -> (r: String)
    ensures
        r@ == meson_close_text(options@),
{
    concat3("command: ['env', 'TAR_OPTIONS=", options, "', 'tar',")
}

pub open spec fn meson_candidates(options: Seq<char>) -> Seq<(Seq<char>, Seq<char>)> {
    Seq::<(Seq<char>, Seq<char>)>::empty().push(
        ("run_command('tar',"@, meson_single_text(options)),
    ).push(("run_command(\"tar\","@, meson_double_text(options))).push(
        ("command : ['tar',"@, meson_spaced_text(options)),
    ).push(("command: ['tar',"@, meson_close_text(options)))
}

pub open spec fn meson_archive(files: PatchFiles, id: Seq<char>, options: Seq<char>) -> Option<
    ProjectPatchView,
> {
    archive_replacement(files.meson, "meson.build"@, id, meson_candidates(options))
}

pub fn meson_archive_patch(files: &PatchFiles, id: &str, tar_options: &str) -> (r: Option<
    ProjectPatch,
>)
    ensures
        r.deep_view() == meson_archive(*files, id@, tar_options@),
{
    let mut candidates: Vec<(String, String)> = Vec::new();
    assert(candidates.deep_view() =~= Seq::<(Seq<char>, Seq<char>)>::empty());
    push_candidate(&mut candidates, "run_command('tar',", show_meson_single(tar_options));
    push_candidate(&mut candidates, "run_command(\"tar\",", show_meson_double(tar_options));
    push_candidate(&mut candidates, "command : ['tar',", show_meson_spaced(tar_options));
    push_candidate(&mut candidates, "command: ['tar',", show_meson_close(tar_options));
    replace_archive_site(&files.meson, "meson.build", id, &candidates)
}

/// A word of a command without what surrounds it.
pub open spec fn bare_word(word: Seq<char>) -> Seq<char> {
    without_leading(trimmed(word, CharClass::Shell), "./"@)
}

/// Whether a word names a script inside the project.
pub open spec fn names_script(word: Seq<char>) -> bool {
    finishes_with(word, ".sh"@) && relative_path_problem(""@, word) is None
}

pub open spec fn lists_path(paths: Seq<Seq<char>>, path: Seq<char>) -> bool {
    exists|k: int| 0 <= k < paths.len() && is_same_path(#[trigger] paths[k], path)
}

/// The scripts that the first `n` words name, each once.
pub open spec fn with_scripts(scripts: Seq<Seq<char>>, words: Seq<Seq<char>>, n: int) -> Seq<Seq<char>>
    decreases n,
{
    if n <= 0 {
        scripts
    } else {
        let before = with_scripts(scripts, words, n - 1);
        let word = bare_word(words[n - 1]);
        if names_script(word) && !lists_path(before, word) {
            before.push(word)
        } else {
            before
        }
    }
}

/// The scripts that the first `n` arguments of a command name, each once.
pub open spec fn scripts_of(command: Seq<Seq<char>>, n: int) -> Seq<Seq<char>>
    decreases n,
{
    if n <= 0 {
        Seq::empty()
    } else {
        let words = words_of(command[n - 1]);
        with_scripts(scripts_of(command, n - 1), words, words.len() as int)
    }
}

fn has_path(paths: &Vec<String>, path: &str) -> (r: bool)
    ensures
        r == lists_path(paths.deep_view(), path@),
{
    let ghost view = paths.deep_view();
    let mut i: usize = 0;
    while i < paths.len()
        invariant
            view == paths.deep_view(),
            i <= paths@.len(),
            forall|k: int| 0 <= k < i ==> !is_same_path(#[trigger] view[k], path@),
        decreases paths.len() - i,
    {
        assert(view[i as int] == paths@[i as int]@);
        if same_path(paths[i].as_str(), path) {
            assert(is_same_path(view[i as int], path@));
            return true;
        }
        i += 1;
    }
    false
}

fn push_scripts(scripts: &mut Vec<String>, words: &Vec<String>)
    ensures
        final(scripts).deep_view() == with_scripts(
            old(scripts).deep_view(),
            words.deep_view(),
            words@.len() as int,
        ),
{
    let ghost start = scripts.deep_view();
    let mut n: usize = 0;
    while n < words.len()
        invariant
            n <= words@.len(),
            scripts.deep_view() == with_scripts(start, words.deep_view(), n as int),
        decreases words.len() - n,
    {
        assert(words.deep_view()[n as int] == words@[n as int]@);
        let word = strip_leading(trim(words[n].as_str(), CharClass::Shell).as_str(), "./");
        if ends_with(word.as_str(), ".sh") {
            if validate_relative_path("", word.as_str()).is_ok() && !has_path(
                scripts,
                word.as_str(),
            ) {
                push_line(scripts, word);
            }
        }
        n += 1;
    }
}

/// The scripts of the project that the build command names.
pub fn command_shell_scripts(config: &Config) -> (r: Vec<String>)
    ensures
        r.deep_view() == scripts_of(
            config.build.command.deep_view(),
            config.build.command@.len() as int,
        ),
{
    let command = &config.build.command;
    let mut scripts: Vec<String> = Vec::new();
    let mut n: usize = 0;
    assert(scripts.deep_view() =~= Seq::<Seq<char>>::empty());
    while n < command.len()
        invariant
            *command == config.build.command,
            n <= command@.len(),
            scripts.deep_view() == scripts_of(command.deep_view(), n as int),
        decreases command.len() - n,
    {
        assert(command.deep_view()[n as int] == command@[n as int]@);
        let own = words(command[n].as_str());
        assert(own.deep_view().len() == own@.len());
        push_scripts(&mut scripts, &own);
        n += 1;
    }
    scripts
}

/// Whether a command can begin after this character.
pub open spec fn ends_command(c: char) -> bool {
    is_white(c) || c == ';' || c == '&' || c == '|' || c == '('
}

/// Whether a call of tar begins at `p`.
pub open spec fn is_tar_site(line: Seq<char>, p: int) -> bool {
    stands_at(line, "/usr/bin/tar "@, p) || (stands_at(line, "tar "@, p) && (p == 0 || ends_command(
        line[p - 1],
    )))
}

/// The first position at or after `from` where a call of tar begins.
pub open spec fn tar_site_from(line: Seq<char>, from: int) -> Option<int>
    decreases line.len() - from,
{
    if from >= line.len() {
        None
    } else if is_tar_site(line, from) {
        Some(from)
    } else {
        tar_site_from(line, from + 1)
    }
}

pub open spec fn tar_setting_text(options: Seq<char>) -> Seq<char> {
    "TAR_OPTIONS='"@ + options + "' "@
}

pub fn show_tar_setting(options: &str) -> (r: String)
    ensures
        r@ == tar_setting_text(options@),
{
    concat3("TAR_OPTIONS='", options, "' ")
}

/// A line with options set for the only call of tar in it.
pub open spec fn tar_line(line: Seq<char>, options: Seq<char>) -> Option<Seq<char>> {
    match tar_site_from(line, 0) {
        Some(p) => if tar_site_from(line, p + 1) is None {
            Some(line.take(p) + tar_setting_text(options) + line.skip(p))
        } else {
            None
        },
        None => None,
    }
}

fn find_tar_site(chars: &Vec<char>, from: usize) -> (r: Option<usize>)
    requires
        from <= chars@.len(),
    ensures
        match r {
            Some(p) => p < chars@.len() && tar_site_from(chars@, from as int) == Some(p as int),
            None => tar_site_from(chars@, from as int) is None,
        },
{
    let long = chars_of("/usr/bin/tar ");
    let short = chars_of("tar ");
    let mut p: usize = from;
    while p < chars.len()
        invariant
            long@ == "/usr/bin/tar "@,
            short@ == "tar "@,
            from <= p <= chars@.len(),
            tar_site_from(chars@, from as int) == tar_site_from(chars@, p as int),
        decreases chars.len() - p,
    {
        let free = if p == 0 {
            true
        } else {
            let c = chars[p - 1];
            c.is_whitespace() || c == ';' || c == '&' || c == '|' || c == '('
        };
        if stands_at_chars(chars, &long, p) || (stands_at_chars(chars, &short, p) && free) {
            return Some(p);
        }
        p += 1;
    }
    None
}

pub fn shell_tar_line_replacement(line: &str, tar_options: &str) -> (r: Option<String>)
    ensures
        r.deep_view() == tar_line(line@, tar_options@),
{
    let chars = chars_of(line);
    let total: usize = chars.len();
    match find_tar_site(&chars, 0) {
        Some(p) => {
            if find_tar_site(&chars, p + 1).is_some() {
                return None;
            }
            assert(line@.subrange(0, p as int) =~= line@.take(p as int));
            assert(line@.subrange(p as int, line@.len() as int) =~= line@.skip(p as int));
            Some(
                concat3(
                    text_between(&chars, 0, p).as_str(),
                    show_tar_setting(tar_options).as_str(),
                    text_between(&chars, p, total).as_str(),
                ),
            )
        },
        None => None,
    }
}

/// A line of a script, and what would stand in its place.
#[verifier::ext_equal]
pub struct ScriptSiteView {
    pub script: int,
    pub line: Seq<char>,
    pub replacement: Seq<char>,
}

/// The lines of a script, up to the first `n`, that call tar once and are no comments.
pub open spec fn with_script_sites(
    sites: Seq<ScriptSiteView>,
    script: int,
    lines: Seq<Seq<char>>,
    options: Seq<char>,
    n: int,
) -> Seq<ScriptSiteView>
    decreases n,
{
    if n <= 0 {
        sites
    } else {
        let before = with_script_sites(sites, script, lines, options, n - 1);
        let line = lines[n - 1];
        if begins_with(trimmed_start(line, CharClass::White), "#"@) {
            before
        } else {
            match tar_line(line, options) {
                Some(replacement) => before.push(ScriptSiteView { script, line, replacement }),
                None => before,
            }
        }
    }
}

/// The calls of tar in the first `n` scripts, or nothing where one of them cannot be read.
pub open spec fn script_sites(scripts: Seq<PatchTarget>, options: Seq<char>, n: int) -> Option<
    Seq<ScriptSiteView>,
>
    decreases n,
{
    if n <= 0 {
        Some(Seq::empty())
    } else {
        match script_sites(scripts, options, n - 1) {
            None => None,
            Some(before) => match scripts[n - 1] {
                PatchTarget::NotAFile => Some(before),
                _ => match target_text(scripts[n - 1]) {
                    Some(text) => Some(
                        with_script_sites(
                            before,
                            n - 1,
                            lines_of(text),
                            options,
                            lines_of(text).len() as int,
                        ),
                    ),
                    None => None,
                },
            },
        }
    }
}

struct ScriptSite {
    script: usize,
    line: String,
    replacement: String,
}

spec fn view_site(site: ScriptSite) -> ScriptSiteView {
    ScriptSiteView {
        script: site.script as int,
        line: site.line@,
        replacement: site.replacement@,
    }
}

spec fn view_sites(sites: Seq<ScriptSite>) -> Seq<ScriptSiteView> {
    sites.map_values(|site: ScriptSite| view_site(site))
}

fn push_script_sites(sites: &mut Vec<ScriptSite>, script: usize, text: &str, options: &str)
    ensures
        view_sites(final(sites)@) == with_script_sites(
            view_sites(old(sites)@),
            script as int,
            lines_of(text@),
            options@,
            lines_of(text@).len() as int,
        ),
{
    let ghost start = view_sites(sites@);
    let own = lines(text);
    assert(own.deep_view().len() == own@.len());
    let mut n: usize = 0;
    while n < own.len()
        invariant
            own.deep_view() == lines_of(text@),
            n <= own@.len(),
            view_sites(sites@) == with_script_sites(
                start,
                script as int,
                lines_of(text@),
                options@,
                n as int,
            ),
        decreases own.len() - n,
    {
        assert(lines_of(text@)[n as int] == own@[n as int]@);
        let line = own[n].as_str();
        if !crate::text::starts_with(trim_start(line, CharClass::White).as_str(), "#") {
            if let Some(replacement) = shell_tar_line_replacement(line, options) {
                let ghost had = view_sites(sites@);
                let site = ScriptSite { script, line: own[n].clone(), replacement };
                let ghost view = view_site(site);
                sites.push(site);
                assert(view_sites(sites@) =~= had.push(view));
            }
        }
        n += 1;
    }
}

proof fn lemma_script_sites_fail(scripts: Seq<PatchTarget>, options: Seq<char>, n: int, m: int)
    requires
        n <= m,
        script_sites(scripts, options, n) is None,
    ensures
        script_sites(scripts, options, m) is None,
    decreases m - n,
{
    if n < m {
        lemma_script_sites_fail(scripts, options, n, m - 1);
        assert(n >= 1);
    }
}

proof fn lemma_site_scripts(
    sites: Seq<ScriptSiteView>,
    script: int,
    lines: Seq<Seq<char>>,
    options: Seq<char>,
    n: int,
    bound: int,
)
    requires
        0 <= script < bound,
        forall|k: int| 0 <= k < sites.len() ==> 0 <= (#[trigger] sites[k]).script < bound,
    ensures
        forall|k: int|
            0 <= k < with_script_sites(sites, script, lines, options, n).len() ==> 0 <= (
            #[trigger] with_script_sites(sites, script, lines, options, n)[k]).script < bound,
    decreases n,
{
    if n > 0 {
        lemma_site_scripts(sites, script, lines, options, n - 1, bound);
        let before = with_script_sites(sites, script, lines, options, n - 1);
        let after = with_script_sites(sites, script, lines, options, n);
        assert forall|k: int| 0 <= k < after.len() implies 0 <= (#[trigger] after[k]).script < bound by {
            if k < before.len() {
                assert(after[k] == before[k]);
            }
        }
    }
}

/// The patch of the only call of tar in the scripts that the build command names.
pub open spec fn shell_archive(
    files: PatchFiles,
    paths: Seq<Seq<char>>,
    options: Seq<char>,
) -> Option<ProjectPatchView> {
    match script_sites(files.scripts@, options, paths.len() as int) {
        Some(sites) => if sites.len() == 1 {
            replace_patch(
                files.scripts@[sites[0].script],
                paths[sites[0].script],
                sites[0].line,
                sites[0].replacement,
            )
        } else {
            None
        },
        None => None,
    }
}

pub fn shell_archive_patch(files: &PatchFiles, paths: &Vec<String>, tar_options: &str) -> (r: Option<
    ProjectPatch,
>)
    requires
        files.scripts@.len() == paths@.len(),
    ensures
        r.deep_view() == shell_archive(*files, paths.deep_view(), tar_options@),
{
    let mut sites: Vec<ScriptSite> = Vec::new();
    let mut n: usize = 0;
    assert(paths.deep_view().len() == paths@.len());
    assert(view_sites(sites@) =~= Seq::<ScriptSiteView>::empty());
    while n < paths.len()
        invariant
            files.scripts@.len() == paths@.len(),
            paths.deep_view().len() == paths@.len(),
            n <= paths@.len(),
            script_sites(files.scripts@, tar_options@, n as int) == Some(view_sites(sites@)),
            forall|k: int|
                0 <= k < view_sites(sites@).len() ==> 0 <= (#[trigger] view_sites(sites@)[k]).script
                    < paths@.len(),
        decreases paths.len() - n,
    {
        match &files.scripts[n] {
            PatchTarget::NotAFile => {},
            target => {
                match read_target(target) {
                    Some(text) => {
                        proof {
                            lemma_site_scripts(
                                view_sites(sites@),
                                n as int,
                                lines_of(text@),
                                tar_options@,
                                lines_of(text@).len() as int,
                                paths@.len() as int,
                            );
                        }
                        push_script_sites(&mut sites, n, text.as_str(), tar_options);
                    },
                    None => {
                        proof {
                            lemma_script_sites_fail(
                                files.scripts@,
                                tar_options@,
                                n + 1,
                                paths@.len() as int,
                            );
                        }
                        return None;
                    },
                }
            },
        }
        n += 1;
    }
    assert(view_sites(sites@).len() == sites@.len());
    if sites.len() != 1 {
        return None;
    }
    assert(view_sites(sites@)[0] == view_site(sites@[0]));
    let site = &sites[0];
    assert(paths.deep_view()[site.script as int] == paths@[site.script as int]@);
    replace_text_patch(
        &files.scripts[site.script],
        paths[site.script].as_str(),
        site.line.as_str(),
        site.replacement.as_str(),
    )
}

pub open spec fn or_patch(a: Option<ProjectPatchView>, b: Option<ProjectPatchView>) -> Option<
    ProjectPatchView,
> {
    if a is Some {
        a
    } else {
        b
    }
}

pub open spec fn patch_if(wanted: bool, patch: Option<ProjectPatchView>) -> Option<ProjectPatchView> {
    if wanted {
        patch
    } else {
        None
    }
}

/// The patch that sets options for tar: first where the build command points to, then wherever
/// there is a place.
pub open spec fn archive_patch(
    files: PatchFiles,
    command: Seq<Seq<char>>,
    id: Seq<char>,
    options: Seq<char>,
    make_body: Seq<char>,
) -> Option<ProjectPatchView> {
    let hint = command_hint(command);
    let paths = scripts_of(command, command.len() as int);
    let make = archive_makefile(files, hint, id, make_body);
    let cmake = cmake_archive(files, id, options);
    let meson = meson_archive(files, id, options);
    or_patch(
        patch_if(occurs(hint, "make"@), make),
        or_patch(
            patch_if(occurs(hint, "cmake"@), cmake),
            or_patch(
                patch_if(occurs(hint, "meson"@), meson),
                or_patch(
                    shell_archive(files, paths, options),
                    or_patch(cmake, or_patch(meson, make)),
                ),
            ),
        ),
    )
}

pub fn archive_project_patch(
    files: &PatchFiles,
    config: &Config,
    id: &str,
    tar_options: &str,
    make_body: &str,
) -> (r: Option<ProjectPatch>)
    requires
        reads_scripts(*files, *config),
    ensures
        r.deep_view() == archive_patch(
            *files,
            config.build.command.deep_view(),
            id@,
            tar_options@,
            make_body@,
        ),
{
    assert(config.build.command.deep_view().len() == config.build.command@.len());
    let hint = build_command_hint(config);
    if contains(hint.as_str(), "make") {
        let patch = archive_makefile_patch(files, hint.as_str(), id, make_body);
        if patch.is_some() {
            return patch;
        }
    }
    if contains(hint.as_str(), "cmake") {
        let patch = cmake_archive_patch(files, id, tar_options);
        if patch.is_some() {
            return patch;
        }
    }
    if contains(hint.as_str(), "meson") {
        let patch = meson_archive_patch(files, id, tar_options);
        if patch.is_some() {
            return patch;
        }
    }
    let paths = command_shell_scripts(config);
    assert(paths.deep_view().len() == paths@.len());
    let patch = shell_archive_patch(files, &paths, tar_options);
    if patch.is_some() {
        return patch;
    }
    let patch = cmake_archive_patch(files, id, tar_options);
    if patch.is_some() {
        return patch;
    }
    let patch = meson_archive_patch(files, id, tar_options);
    if patch.is_some() {
        return patch;
    }
    archive_makefile_patch(files, hint.as_str(), id, make_body)
}

/// Whether `files` hold what stands at the path of each script that the build command names.
pub open spec fn reads_scripts(files: PatchFiles, config: Config) -> bool {
    files.scripts@.len() == scripts_of(
        config.build.command.deep_view(),
        config.build.command@.len() as int,
    ).len()
}

pub open spec fn mtime_options_text(epoch: Seq<char>) -> Seq<char> {
    "--mtime=@"@ + epoch + " --clamp-mtime"@
}

pub fn show_mtime_options(epoch: &str) -> (r: String)
    ensures
        r@ == mtime_options_text(epoch@),
{
    concat3("--mtime=@", epoch, " --clamp-mtime")
}

pub open spec fn mtime_body_text(id: Seq<char>, epoch: Seq<char>) -> Seq<char> {
    "# ReproBisect candidate: "@
        + id
        + "\n# Normalize GNU tar member timestamps.\nREPROBISECT_ARCHIVE_EPOCH ?= "@
        + epoch
        + "\nTAR_OPTIONS := --mtime=@$(REPROBISECT_ARCHIVE_EPOCH) --clamp-mtime $(TAR_OPTIONS)\nexport TAR_OPTIONS\n"@
}

pub fn show_mtime_body(id: &str, epoch: &str) -> (r: String)
    ensures
        r@ == mtime_body_text(id@, epoch@),
{
    concat5(
        "# ReproBisect candidate: ",
        id,
        "\n# Normalize GNU tar member timestamps.\nREPROBISECT_ARCHIVE_EPOCH ?= ",
        epoch,
        "\nTAR_OPTIONS := --mtime=@$(REPROBISECT_ARCHIVE_EPOCH) --clamp-mtime $(TAR_OPTIONS)\nexport TAR_OPTIONS\n",
    )
}

/// The patch that gives the members of archives one time.
pub open spec fn archive_mtime(files: PatchFiles, command: Seq<Seq<char>>, id: Seq<char>, epoch: Seq<char>) -> Option<
    ProjectPatchView,
> {
    archive_patch(files, command, id, mtime_options_text(epoch), mtime_body_text(id, epoch))
}

pub fn archive_mtime_project_patch(files: &PatchFiles, config: &Config, id: &str, epoch: &str) -> (r:
    Option<ProjectPatch>)
    requires
        reads_scripts(*files, *config),
    ensures
        r.deep_view() == archive_mtime(*files, config.build.command.deep_view(), id@, epoch@),
{
    archive_project_patch(
        files,
        config,
        id,
        show_mtime_options(epoch).as_str(),
        show_mtime_body(id, epoch).as_str(),
    )
}

pub open spec fn mode_body_text(id: Seq<char>) -> Seq<char> {
    "# ReproBisect candidate: "@
        + id
        + "\n# Normalize GNU tar member permissions independent of ambient umask.\nTAR_OPTIONS := --mode=u+rwX,go+rX,go-w $(TAR_OPTIONS)\nexport TAR_OPTIONS\n"@
}

pub fn show_mode_body(id: &str) -> (r: String)
    ensures
        r@ == mode_body_text(id@),
{
    concat3(
        "# ReproBisect candidate: ",
        id,
        "\n# Normalize GNU tar member permissions independent of ambient umask.\nTAR_OPTIONS := --mode=u+rwX,go+rX,go-w $(TAR_OPTIONS)\nexport TAR_OPTIONS\n",
    )
}

/// The patch that gives the members of archives permissions that do not depend on the umask.
pub open spec fn archive_mode(files: PatchFiles, command: Seq<Seq<char>>, id: Seq<char>) -> Option<
    ProjectPatchView,
> {
    archive_patch(files, command, id, "--mode=u+rwX,go+rX,go-w"@, mode_body_text(id))
}

pub fn archive_mode_project_patch(files: &PatchFiles, config: &Config, id: &str) -> (r: Option<
    ProjectPatch,
>)
    requires
        reads_scripts(*files, *config),
    ensures
        r.deep_view() == archive_mode(*files, config.build.command.deep_view(), id@),
{
    archive_project_patch(
        files,
        config,
        id,
        "--mode=u+rwX,go+rX,go-w",
        show_mode_body(id).as_str(),
    )
}

pub open spec fn cmake_block_text(
    id: Seq<char>,
    path_kind: Seq<char>,
    flags: Seq<char>,
) -> Seq<char> {
    "# ReproBisect candidate: "@
        + id
        + "\n# Normalize embedded "@
        + path_kind
        + " paths for C/C++ targets\nset(CMAKE_C_FLAGS \"${CMAKE_C_FLAGS} "@
        + flags
        + "\")\nset(CMAKE_CXX_FLAGS \"${CMAKE_CXX_FLAGS} "@
        + flags
        + "\")\n"@
}

pub fn show_cmake_block(id: &str, path_kind: &str, flags: &str) -> (r: String)
    ensures
        r@ == cmake_block_text(id@, path_kind@, flags@),
{
    let mut text = "# ReproBisect candidate: ".to_owned();
    text.push_str(id);
    text.push_str("\n# Normalize embedded ");
    text.push_str(path_kind);
    text.push_str(" paths for C/C++ targets\nset(CMAKE_C_FLAGS \"${CMAKE_C_FLAGS} ");
    text.push_str(flags);
    text.push_str("\")\nset(CMAKE_CXX_FLAGS \"${CMAKE_CXX_FLAGS} ");
    text.push_str(flags);
    text.push_str("\")\n");
    text
}

pub open spec fn cmake_path(
    files: PatchFiles,
    id: Seq<char>,
    path_kind: Seq<char>,
    flags: Seq<char>,
) -> Option<ProjectPatchView> {
    append_patch(files.cmake, "CMakeLists.txt"@, id, cmake_block_text(id, path_kind, flags))
}

pub fn cmake_path_patch(files: &PatchFiles, id: &str, path_kind: &str, gcc_append: &str) -> (r: Option<
    ProjectPatch,
>)
    ensures
        r.deep_view() == cmake_path(*files, id@, path_kind@, gcc_append@),
{
    append_existing_patch(
        &files.cmake,
        "CMakeLists.txt",
        id,
        show_cmake_block(id, path_kind, gcc_append).as_str(),
    )
}

/// How far a scan for the end of the project call has come: whether it began, how deep the
/// parentheses are, in which quotes it is and whether the next character is escaped.
#[derive(Clone, Copy, PartialEq, Eq, Structural)]
pub struct MesonScan {
    pub started: bool,
    pub depth: u128,
    pub quote: Option<char>,
    pub escaped: bool,
}

/// A scan of one line from a position on: how far it has come, and whether the call ended.
pub open spec fn scan_line(line: Seq<char>, i: int, scan: MesonScan) -> (MesonScan, bool)
    decreases line.len() + 8 - i,
{
    if i < 0 || i >= line.len() {
        (scan, false)
    } else {
        let c = line[i];
        if scan.escaped {
            scan_line(line, i + 1, MesonScan { escaped: false, ..scan })
        } else if scan.quote is Some {
            if c == '\\' {
                scan_line(line, i + 1, MesonScan { escaped: true, ..scan })
            } else if scan.quote == Some(c) {
                scan_line(line, i + 1, MesonScan { quote: None, ..scan })
            } else {
                scan_line(line, i + 1, scan)
            }
        } else if c == '#' {
            (scan, false)
        } else if c == '\'' || c == '"' {
            scan_line(line, i + 1, MesonScan { quote: Some(c), ..scan })
        } else if !scan.started {
            if stands_at(line, "project("@, i) {
                scan_line(line, i + 8, MesonScan { started: true, depth: 1, ..scan })
            } else {
                scan_line(line, i + 1, scan)
            }
        } else if c == '(' {
            scan_line(line, i + 1, MesonScan { depth: (scan.depth + 1) as u128, ..scan })
        } else if c == ')' {
            if scan.depth == 1 {
                (scan, true)
            } else {
                scan_line(line, i + 1, MesonScan { depth: (scan.depth - 1) as u128, ..scan })
            }
        } else {
            scan_line(line, i + 1, scan)
        }
    }
}

/// The number of the line on which the project call ends, from line `k` on.
pub open spec fn project_end_from(lines: Seq<Seq<char>>, k: int, scan: MesonScan) -> Option<int>
    decreases lines.len() - k,
{
    if k >= lines.len() {
        None
    } else {
        let after = scan_line(lines[k], 0, scan);
        if after.1 {
            Some(k + 1)
        } else {
            project_end_from(lines, k + 1, after.0)
        }
    }
}

pub open spec fn fresh_scan() -> MesonScan {
    MesonScan { started: false, depth: 0, quote: None, escaped: false }
}

/// The number of the line on which the project call of a Meson file ends.
pub open spec fn project_end(text: Seq<char>) -> Option<int> {
    project_end_from(lines_of(text), 0, fresh_scan())
}

/// How many characters the first `k` lines have.
spec fn total_len(lines: Seq<Seq<char>>, k: int) -> nat
    decreases k,
{
    if k <= 0 {
        0
    } else {
        total_len(lines, k - 1) + lines[k - 1].len()
    }
}

proof fn lemma_lines_len(s: Seq<char>, start: int, from: int)
    requires
        0 <= start <= from <= s.len(),
    ensures
        total_len(lines_from(s, start, from), lines_from(s, start, from).len() as int) <= s.len()
            - start,
    decreases s.len() - from,
{
    let lines = lines_from(s, start, from);
    if from >= s.len() {
        if start < s.len() {
            assert(lines[0].len() == s.len() - start);
            assert(total_len(lines, 1) == total_len(lines, 0) + lines[0].len());
        }
    } else if s[from] == '\n' {
        let rest = lines_from(s, from + 1, from + 1);
        lemma_lines_len(s, from + 1, from + 1);
        lemma_total_len_shift(lines[0], rest, rest.len() as int);
        assert(lines =~= seq![lines[0]] + rest);
    } else {
        lemma_lines_len(s, start, from + 1);
    }
}

proof fn lemma_total_len_shift(first: Seq<char>, rest: Seq<Seq<char>>, k: int)
    requires
        0 <= k <= rest.len(),
    ensures
        total_len(seq![first] + rest, k + 1) == first.len() + total_len(rest, k),
    decreases k,
{
    if k > 0 {
        lemma_total_len_shift(first, rest, k - 1);
        assert((seq![first] + rest)[k] == rest[k - 1]);
    } else {
        assert((seq![first] + rest)[0] == first);
        assert(total_len(seq![first] + rest, 0) == 0);
    }
}

proof fn lemma_total_len_monotone(lines: Seq<Seq<char>>, a: int, b: int)
    requires
        a <= b,
    ensures
        total_len(lines, a) <= total_len(lines, b),
    decreases b - a,
{
    if a < b {
        lemma_total_len_monotone(lines, a, b - 1);
    }
}

fn scan_meson_line(chars: &Vec<char>, scan: MesonScan, Ghost(bound): Ghost<int>) -> (r: (
    MesonScan,
    bool,
))
    requires
        scan.depth <= bound,
        bound + chars@.len() <= usize::MAX,
        scan.started ==> scan.depth >= 1,
    ensures
        r == scan_line(chars@, 0, scan),
        r.0.depth <= bound + chars@.len(),
        r.0.started ==> r.0.depth >= 1,
{
    let opening = chars_of("project(");
    proof {
        reveal_strlit("project(");
    }
    let mut state = scan;
    let mut i: usize = 0;
    while i < chars.len()
        invariant
            opening@ == "project("@,
            opening@.len() == 8,
            i <= chars@.len(),
            0 <= bound,
            bound + chars@.len() <= usize::MAX,
            state.depth <= bound + i,
            state.started ==> state.depth >= 1,
            scan_line(chars@, 0, scan) == scan_line(chars@, i as int, state),
        decreases chars.len() - i,
    {
        let c = chars[i];
        if state.escaped {
            state.escaped = false;
        } else if let Some(active) = state.quote {
            if c == '\\' {
                state.escaped = true;
            } else if c == active {
                state.quote = None;
            }
        } else if c == '#' {
            return (state, false);
        } else if c == '\'' || c == '"' {
            state.quote = Some(c);
        } else if !state.started {
            if stands_at_chars(chars, &opening, i) {
                state.started = true;
                state.depth = 1;
                i += 8;
                continue ;
            }
        } else if c == '(' {
            state.depth = state.depth + 1;
        } else if c == ')' {
            if state.depth == 1 {
                return (state, true);
            }
            state.depth = state.depth - 1;
        }
        i += 1;
    }
    (state, false)
}

pub fn meson_project_end_line(text: &str) -> (r: Option<usize>)
    ensures
        match r {
            Some(line) => project_end(text@) == Some(line as int),
            None => project_end(text@) is None,
        },
{
    let own = lines(text);
    let ghost all = lines_of(text@);
    let whole: usize = chars_of(text).len();
    proof {
        lemma_lines_len(text@, 0, 0);
    }
    assert(own.deep_view().len() == own@.len());
    let mut scan = MesonScan { started: false, depth: 0, quote: None, escaped: false };
    let mut k: usize = 0;
    while k < own.len()
        invariant
            own.deep_view() == all,
            all == lines_of(text@),
            own@.len() == all.len(),
            total_len(all, all.len() as int) <= whole,
            k <= own@.len(),
            scan.depth <= total_len(all, k as int),
            scan.started ==> scan.depth >= 1,
            project_end(text@) == project_end_from(all, k as int, scan),
        decreases own.len() - k,
    {
        assert(all[k as int] == own@[k as int]@);
        let chars = chars_of(own[k].as_str());
        proof {
            lemma_total_len_monotone(all, k + 1, all.len() as int);
            assert(total_len(all, k + 1) == total_len(all, k as int) + chars@.len());
        }
        let after = scan_meson_line(&chars, scan, Ghost(total_len(all, k as int) as int));
        if after.1 {
            return Some(k + 1);
        }
        scan = after.0;
        k += 1;
    }
    None
}

/// Each word of a text between two marks.
pub open spec fn wrapped_words(s: Seq<char>, before: Seq<char>, after: Seq<char>) -> Seq<Seq<char>> {
    words_of(s).map_values(|w: Seq<char>| before + w + after)
}

pub open spec fn meson_block_text(
    id: Seq<char>,
    path_kind: Seq<char>,
    flags: Seq<char>,
) -> Seq<char> {
    "# ReproBisect candidate: "@
        + id
        + "\n# Normalize embedded "@
        + path_kind
        + " paths before targets are declared\nadd_project_arguments("@
        + flags
        + ", language : 'c')\nadd_project_arguments("@
        + flags
        + ", language : 'cpp')\n"@
}

pub fn show_meson_block(id: &str, path_kind: &str, flags: &str) -> (r: String)
    ensures
        r@ == meson_block_text(id@, path_kind@, flags@),
{
    let mut text = "# ReproBisect candidate: ".to_owned();
    text.push_str(id);
    text.push_str("\n# Normalize embedded ");
    text.push_str(path_kind);
    text.push_str(" paths before targets are declared\nadd_project_arguments(");
    text.push_str(flags);
    text.push_str(", language : 'c')\nadd_project_arguments(");
    text.push_str(flags);
    text.push_str(", language : 'cpp')\n");
    text
}

pub open spec fn meson_path(
    files: PatchFiles,
    id: Seq<char>,
    path_kind: Seq<char>,
    flags: Seq<char>,
) -> Option<ProjectPatchView> {
    let wrapped = wrapped_words(flags, "'"@, "'"@);
    match target_text(files.meson) {
        Some(text) => match project_end(text) {
            Some(line) => insert_patch(
                files.meson,
                "meson.build"@,
                id,
                line as usize,
                meson_block_text(id, path_kind, joined(wrapped, ", "@, wrapped.len() as int)),
            ),
            None => None,
        },
        None => None,
    }
}

pub fn meson_path_patch(files: &PatchFiles, id: &str, path_kind: &str, gcc_append: &str) -> (r: Option<
    ProjectPatch,
>)
    ensures
        r.deep_view() == meson_path(*files, id@, path_kind@, gcc_append@),
{
    let text = match read_target(&files.meson) {
        Some(text) => text,
        None => {
            return None;
        },
    };
    let line: usize = match meson_project_end_line(text.as_str()) {
        Some(line) => line,
        None => {
            return None;
        },
    };
    let own = words(gcc_append);
    let ghost wanted = wrapped_words(gcc_append@, "'"@, "'"@);
    assert(own.deep_view().len() == own@.len());
    let mut wrapped: Vec<String> = Vec::new();
    let mut i: usize = 0;
    while i < own.len()
        invariant
            own.deep_view() == words_of(gcc_append@),
            wanted == wrapped_words(gcc_append@, "'"@, "'"@),
            i <= own@.len(),
            wrapped@.len() == i,
            forall|k: int| 0 <= k < i ==> (#[trigger] wrapped@[k])@ == wanted[k],
        decreases own.len() - i,
    {
        assert(words_of(gcc_append@)[i as int] == own@[i as int]@);
        wrapped.push(concat3("'", own[i].as_str(), "'"));
        i += 1;
    }
    assert(wrapped.deep_view() =~= wanted);
    insert_after_line_patch(
        &files.meson,
        "meson.build",
        id,
        line,
        show_meson_block(id, path_kind, join(&wrapped, ", ").as_str()).as_str(),
    )
}

/// Whether a Cargo project has no configuration of its own yet.
pub open spec fn cargo_is_open(files: PatchFiles) -> bool {
    files.cargo_manifest && !files.cargo_config && !(files.cargo_config_toml is Present)
}

/// The flags of rustc as lines of a list.
pub open spec fn flag_lines(flags: Seq<char>) -> Seq<Seq<char>> {
    words_of(flags).map_values(|w: Seq<char>| "    "@ + debug_text(w) + ","@)
}

pub open spec fn cargo_block_text(
    id: Seq<char>,
    path_kind: Seq<char>,
    flags: Seq<char>,
) -> Seq<char> {
    "# ReproBisect candidate: "@
        + id
        + "\n# Normalize embedded "@
        + path_kind
        + " paths\n[build]\nrustflags = [\n"@
        + flags
        + "\n]\n"@
}

pub fn show_cargo_block(id: &str, path_kind: &str, flags: &str) -> (r: String)
    ensures
        r@ == cargo_block_text(id@, path_kind@, flags@),
{
    let mut text = "# ReproBisect candidate: ".to_owned();
    text.push_str(id);
    text.push_str("\n# Normalize embedded ");
    text.push_str(path_kind);
    text.push_str(" paths\n[build]\nrustflags = [\n");
    text.push_str(flags);
    text.push_str("\n]\n");
    text
}

pub open spec fn cargo_path(
    files: PatchFiles,
    id: Seq<char>,
    path_kind: Seq<char>,
    flags: Seq<char>,
) -> Option<ProjectPatchView> {
    let list = flag_lines(flags);
    patch_if(
        cargo_is_open(files),
        create_patch(
            files.cargo_config_toml is Absent,
            ".cargo/config.toml"@,
            cargo_block_text(id, path_kind, joined(list, "\n"@, list.len() as int)),
        ),
    )
}

pub fn cargo_path_patch(files: &PatchFiles, id: &str, path_kind: &str, rust_append: &str) -> (r: Option<
    ProjectPatch,
>)
    ensures
        r.deep_view() == cargo_path(*files, id@, path_kind@, rust_append@),
{
    if !files.cargo_manifest || files.cargo_config || files.cargo_config_toml
        == PathState::Present {
        return None;
    }
    let own = words(rust_append);
    let ghost wanted = flag_lines(rust_append@);
    assert(own.deep_view().len() == own@.len());
    let mut list: Vec<String> = Vec::new();
    let mut i: usize = 0;
    while i < own.len()
        invariant
            own.deep_view() == words_of(rust_append@),
            wanted == flag_lines(rust_append@),
            i <= own@.len(),
            list@.len() == i,
            forall|k: int| 0 <= k < i ==> (#[trigger] list@[k])@ == wanted[k],
        decreases own.len() - i,
    {
        assert(words_of(rust_append@)[i as int] == own@[i as int]@);
        list.push(concat3("    ", quoted(own[i].as_str()).as_str(), ","));
        i += 1;
    }
    assert(list.deep_view() =~= wanted);
    create_file_patch(
        files.cargo_config_toml == PathState::Absent,
        ".cargo/config.toml",
        show_cargo_block(id, path_kind, join(&list, "\n").as_str()),
    )
}

pub open spec fn make_block_text(
    id: Seq<char>,
    path_kind: Seq<char>,
    gcc: Seq<char>,
    rust: Seq<char>,
) -> Seq<char> {
    "# ReproBisect candidate: "@
        + id
        + "\n# Normalize embedded "@
        + path_kind
        + " paths\nREPROBISECT_PREFIX_MAP_FLAGS := "@
        + gcc
        + "\nREPROBISECT_RUST_PREFIX_MAP_FLAGS := "@
        + rust
        + "\nCFLAGS += $(REPROBISECT_PREFIX_MAP_FLAGS)\nCXXFLAGS += $(REPROBISECT_PREFIX_MAP_FLAGS)\nRUSTFLAGS += $(REPROBISECT_RUST_PREFIX_MAP_FLAGS)\nexport CFLAGS CXXFLAGS RUSTFLAGS\n"@
}

pub fn show_make_block(id: &str, path_kind: &str, gcc: &str, rust: &str) -> (r: String)
    ensures
        r@ == make_block_text(id@, path_kind@, gcc@, rust@),
{
    let mut text = "# ReproBisect candidate: ".to_owned();
    text.push_str(id);
    text.push_str("\n# Normalize embedded ");
    text.push_str(path_kind);
    text.push_str(" paths\nREPROBISECT_PREFIX_MAP_FLAGS := ");
    text.push_str(gcc);
    text.push_str("\nREPROBISECT_RUST_PREFIX_MAP_FLAGS := ");
    text.push_str(rust);
    text.push_str("\nCFLAGS += $(REPROBISECT_PREFIX_MAP_FLAGS)\nCXXFLAGS += $(REPROBISECT_PREFIX_MAP_FLAGS)\nRUSTFLAGS += $(REPROBISECT_RUST_PREFIX_MAP_FLAGS)\nexport CFLAGS CXXFLAGS RUSTFLAGS\n");
    text
}

pub open spec fn plain_make_block_text(
    id: Seq<char>,
    gcc: Seq<char>,
    rust: Seq<char>,
) -> Seq<char> {
    "# ReproBisect candidate: "@
        + id
        + "\nREPROBISECT_PREFIX_MAP_FLAGS := "@
        + gcc
        + "\nREPROBISECT_RUST_PREFIX_MAP_FLAGS := "@
        + rust
        + "\nCFLAGS += $(REPROBISECT_PREFIX_MAP_FLAGS)\nCXXFLAGS += $(REPROBISECT_PREFIX_MAP_FLAGS)\nRUSTFLAGS += $(REPROBISECT_RUST_PREFIX_MAP_FLAGS)\nexport CFLAGS CXXFLAGS RUSTFLAGS\n"@
}

pub fn show_plain_make_block(id: &str, gcc: &str, rust: &str) -> (r: String)
    ensures
        r@ == plain_make_block_text(id@, gcc@, rust@),
{
    let mut text = "# ReproBisect candidate: ".to_owned();
    text.push_str(id);
    text.push_str("\nREPROBISECT_PREFIX_MAP_FLAGS := ");
    text.push_str(gcc);
    text.push_str("\nREPROBISECT_RUST_PREFIX_MAP_FLAGS := ");
    text.push_str(rust);
    text.push_str("\nCFLAGS += $(REPROBISECT_PREFIX_MAP_FLAGS)\nCXXFLAGS += $(REPROBISECT_PREFIX_MAP_FLAGS)\nRUSTFLAGS += $(REPROBISECT_RUST_PREFIX_MAP_FLAGS)\nexport CFLAGS CXXFLAGS RUSTFLAGS\n");
    text
}

/// The patch that keeps a path out of what compilers write: first where the build command points
/// to, then wherever there is a place.
pub open spec fn path_patch(
    files: PatchFiles,
    command: Seq<Seq<char>>,
    id: Seq<char>,
    path_kind: Seq<char>,
    gcc: Seq<char>,
    rust: Seq<char>,
) -> Option<ProjectPatchView> {
    let hint = command_hint(command);
    let cargo = cargo_path(files, id, path_kind, rust);
    let meson = meson_path(files, id, path_kind, gcc);
    let cmake = cmake_path(files, id, path_kind, gcc);
    or_patch(
        patch_if(occurs(hint, "cargo"@), cargo),
        or_patch(
            patch_if(occurs(hint, "meson"@), meson),
            or_patch(
                patch_if(occurs(hint, "cmake"@), cmake),
                or_patch(
                    patch_if(
                        occurs(hint, "make"@),
                        makefile_patch(files, id, make_block_text(id, path_kind, gcc, rust)),
                    ),
                    or_patch(
                        makefile_patch(files, id, plain_make_block_text(id, gcc, rust)),
                        or_patch(cmake, or_patch(meson, cargo)),
                    ),
                ),
            ),
        ),
    )
}

pub fn path_project_patch(
    files: &PatchFiles,
    config: &Config,
    id: &str,
    path_kind: &str,
    gcc_append: &str,
    rust_append: &str,
) -> (r: Option<ProjectPatch>)
    ensures
        r.deep_view() == path_patch(
            *files,
            config.build.command.deep_view(),
            id@,
            path_kind@,
            gcc_append@,
            rust_append@,
        ),
{
    let hint = build_command_hint(config);
    if contains(hint.as_str(), "cargo") {
        let patch = cargo_path_patch(files, id, path_kind, rust_append);
        if patch.is_some() {
            return patch;
        }
    }
    if contains(hint.as_str(), "meson") {
        let patch = meson_path_patch(files, id, path_kind, gcc_append);
        if patch.is_some() {
            return patch;
        }
    }
    if contains(hint.as_str(), "cmake") {
        let patch = cmake_path_patch(files, id, path_kind, gcc_append);
        if patch.is_some() {
            return patch;
        }
    }
    if contains(hint.as_str(), "make") {
        let patch = makefile_append_patch(
            files,
            id,
            show_make_block(id, path_kind, gcc_append, rust_append).as_str(),
        );
        if patch.is_some() {
            return patch;
        }
    }
    let patch = makefile_append_patch(
        files,
        id,
        show_plain_make_block(id, gcc_append, rust_append).as_str(),
    );
    if patch.is_some() {
        return patch;
    }
    let patch = cmake_path_patch(files, id, path_kind, gcc_append);
    if patch.is_some() {
        return patch;
    }
    let patch = meson_path_patch(files, id, path_kind, gcc_append);
    if patch.is_some() {
        return patch;
    }
    cargo_path_patch(files, id, path_kind, rust_append)
}

pub open spec fn cargo_epoch_block_text(id: Seq<char>, value: Seq<char>) -> Seq<char> {
    "# ReproBisect candidate: "@
        + id
        + "\n[env]\nSOURCE_DATE_EPOCH = { value = "@
        + debug_text(value)
        + ", force = true }\n"@
}

pub fn show_cargo_epoch_block(id: &str, value: &str) -> (r: String)
    ensures
        r@ == cargo_epoch_block_text(id@, value@),
{
    concat5(
        "# ReproBisect candidate: ",
        id,
        "\n[env]\nSOURCE_DATE_EPOCH = { value = ",
        quoted(value).as_str(),
        ", force = true }\n",
    )
}

pub open spec fn make_epoch_block_text(id: Seq<char>, value: Seq<char>) -> Seq<char> {
    "# ReproBisect candidate: "@
        + id
        + "\n# Pin deterministic build epoch\noverride SOURCE_DATE_EPOCH := "@
        + value
        + "\nexport SOURCE_DATE_EPOCH\n"@
}

pub fn show_make_epoch_block(id: &str, value: &str) -> (r: String)
    ensures
        r@ == make_epoch_block_text(id@, value@),
{
    concat5(
        "# ReproBisect candidate: ",
        id,
        "\n# Pin deterministic build epoch\noverride SOURCE_DATE_EPOCH := ",
        value,
        "\nexport SOURCE_DATE_EPOCH\n",
    )
}

/// The patch that pins the build timestamp.
pub open spec fn epoch_patch(
    files: PatchFiles,
    command: Seq<Seq<char>>,
    id: Seq<char>,
    value: Seq<char>,
) -> Option<ProjectPatchView> {
    if occurs(command_hint(command), "cargo"@) && cargo_is_open(files) {
        create_patch(
            files.cargo_config_toml is Absent,
            ".cargo/config.toml"@,
            cargo_epoch_block_text(id, value),
        )
    } else {
        makefile_patch(files, id, make_epoch_block_text(id, value))
    }
}

pub fn source_date_epoch_project_patch(files: &PatchFiles, config: &Config, id: &str, value: &str) -> (r:
    Option<ProjectPatch>)
    ensures
        r.deep_view() == epoch_patch(*files, config.build.command.deep_view(), id@, value@),
{
    let hint = build_command_hint(config);
    if contains(hint.as_str(), "cargo") && files.cargo_manifest && !files.cargo_config
        && files.cargo_config_toml != PathState::Present {
        return create_file_patch(
            files.cargo_config_toml == PathState::Absent,
            ".cargo/config.toml",
            show_cargo_epoch_block(id, value),
        );
    }
    makefile_append_patch(files, id, show_make_epoch_block(id, value).as_str())
}

/// Where the line after the `left`-th line end from `i` on begins.
pub open spec fn line_end_from(text: Seq<char>, i: int, left: int) -> Option<int>
    decreases text.len() - i,
{
    if i >= text.len() {
        if left == 1 && text.len() > 0 {
            Some(text.len() as int)
        } else {
            None
        }
    } else if text[i] == '\n' {
        if left == 1 {
            Some(i + 1)
        } else {
            line_end_from(text, i + 1, left - 1)
        }
    } else {
        line_end_from(text, i + 1, left)
    }
}

/// Where the text after line `line_number` begins.
pub open spec fn insertion_point(text: Seq<char>, line_number: int) -> Option<int> {
    if line_number == 0 {
        Some(0)
    } else {
        line_end_from(text, 0, line_number)
    }
}

pub fn insertion_offset_after_line(text: &str, line_number: usize) -> (r: Option<usize>)
    ensures
        match r {
            Some(at) => at <= text@.len() && insertion_point(text@, line_number as int) == Some(
                at as int,
            ),
            None => insertion_point(text@, line_number as int) is None,
        },
{
    if line_number == 0 {
        return Some(0);
    }
    let chars = chars_of(text);
    let total: usize = chars.len();
    let mut left: usize = line_number;
    let mut i: usize = 0;
    while i < total
        invariant
            chars@ == text@,
            total == chars@.len(),
            i <= total,
            line_number >= 1,
            left >= 1,
            line_end_from(text@, 0, line_number as int) == line_end_from(
                text@,
                i as int,
                left as int,
            ),
        decreases total - i,
    {
        if chars[i] == '\n' {
            if left == 1 {
                return Some(i + 1);
            }
            left -= 1;
        }
        i += 1;
    }
    if left == 1 && total > 0 {
        Some(total)
    } else {
        None
    }
}

/// `text` with a block at a position, after a line end where it is the end of the text and there
/// is none.
pub open spec fn with_block(text: Seq<char>, at: int, block: Seq<char>) -> Seq<char> {
    if at == text.len() && !finishes_with(text, "\n"@) {
        text.take(at) + "\n"@ + block + text.skip(at)
    } else {
        text.take(at) + block + text.skip(at)
    }
}

pub open spec fn now_exists_text(path: Seq<char>) -> Seq<char> {
    "project patch target "@ + path + " now exists; refusing to overwrite it"@
}

pub fn show_now_exists(path: &str) -> (r: String)
    ensures
        r@ == now_exists_text(path@),
{
    concat3("project patch target ", path, " now exists; refusing to overwrite it")
}

pub open spec fn no_stat_text(path: Seq<char>, cause: Seq<char>) -> Seq<char> {
    "cannot stat project patch target "@ + path + ": "@ + cause
}

pub fn show_no_stat(path: &str, cause: &str) -> (r: String)
    ensures
        r@ == no_stat_text(path@, cause@),
{
    let mut text = concat3("cannot stat project patch target ", path, ": ");
    text.push_str(cause);
    text
}

pub open spec fn not_regular_text(path: Seq<char>) -> Seq<char> {
    "project patch target "@ + path + " is not a regular file"@
}

pub fn show_not_regular(path: &str) -> (r: String)
    ensures
        r@ == not_regular_text(path@),
{
    concat3("project patch target ", path, " is not a regular file")
}

/// A file that holds no text cannot be read as one.
pub open spec fn no_text_text(path: Seq<char>) -> Seq<char> {
    "cannot read project patch target "@ + path + ": stream did not contain valid UTF-8"@
}

pub fn show_no_text(path: &str) -> (r: String)
    ensures
        r@ == no_text_text(path@),
{
    concat3(
        "cannot read project patch target ",
        path,
        ": stream did not contain valid UTF-8",
    )
}

pub open spec fn stale_text(path: Seq<char>, expected: Seq<char>, actual: Seq<char>) -> Seq<char> {
    "project patch target "@
        + path
        + " changed (expected sha256 "@
        + expected
        + ", got "@
        + actual
        + "); refusing to apply stale patch"@
}

pub fn show_stale(path: &str, expected: &str, actual: &str) -> (r: String)
    ensures
        r@ == stale_text(path@, expected@, actual@),
{
    let mut text = "project patch target ".to_owned();
    text.push_str(path);
    text.push_str(" changed (expected sha256 ");
    text.push_str(expected);
    text.push_str(", got ");
    text.push_str(actual);
    text.push_str("); refusing to apply stale patch");
    text
}

pub open spec fn bad_line_text(line_number: usize, path: Seq<char>) -> Seq<char> {
    "project patch line "@ + decimal_of(line_number as int) + " is no longer valid for "@ + path
}

pub fn show_bad_line(line_number: usize, path: &str) -> (r: String)
    ensures
        r@ == bad_line_text(line_number, path@),
{
    let mut text = "project patch line ".to_owned();
    text.push_str(decimal(line_number as u128).as_str());
    text.push_str(" is no longer valid for ");
    text.push_str(path);
    text
}

pub open spec fn other_sites_text(path: Seq<char>) -> Seq<char> {
    "project patch target "@ + path + " no longer contains exactly one expected replacement site"@
}

pub fn show_other_sites(path: &str) -> (r: String)
    ensures
        r@ == other_sites_text(path@),
{
    concat3(
        "project patch target ",
        path,
        " no longer contains exactly one expected replacement site",
    )
}

/// Why an existing file below `root` cannot be patched.
pub open spec fn precondition_problem(
    root: Seq<char>,
    patch: ProjectPatchView,
    target: PatchTarget,
) -> Option<Seq<char>> {
    match target {
        PatchTarget::Absent { cause } => Some(
            no_stat_text(path_from(root, patch.path), cause@),
        ),
        PatchTarget::NotAFile => Some(not_regular_text(patch.path)),
        _ => match patch.expected_sha256 {
            None => Some("existing-file patch is missing expected_sha256"@),
            Some(expected) => match target {
                PatchTarget::File(bytes) => if digest_text(bytes@) != expected {
                    Some(stale_text(patch.path, expected, digest_text(bytes@)))
                } else {
                    None
                },
                PatchTarget::Unreadable { problem } => Some(problem@),
                _ => None,
            },
        },
    }
}

fn verify_project_patch_precondition(root: &str, patch: &ProjectPatch, target: &PatchTarget) -> (r:
    Option<String>)
    ensures
        r.deep_view() == precondition_problem(root@, patch.deep_view(), *target),
{
    match target {
        PatchTarget::Absent { cause } => {
            let path = join_path(root, patch.path.as_str());
            Some(show_no_stat(path.as_str(), cause.as_str()))
        },
        PatchTarget::NotAFile => Some(show_not_regular(patch.path.as_str())),
        _ => match &patch.expected_sha256 {
            None => Some("existing-file patch is missing expected_sha256".to_owned()),
            Some(expected) => match target {
                PatchTarget::File(bytes) => {
                    let actual = sha256_bytes(bytes.as_slice());
                    if !same(actual.as_str(), expected.as_str()) {
                        Some(show_stale(patch.path.as_str(), expected.as_str(), actual.as_str()))
                    } else {
                        None
                    }
                },
                PatchTarget::Unreadable { problem } => Some(problem.clone()),
                _ => None,
            },
        },
    }
}

/// The text of a file with a patch applied to it, or why it cannot be.
pub open spec fn edited_text(patch: ProjectPatchView, text: Seq<char>) -> Result<Seq<char>, Seq<char>> {
    match patch.operation {
        ProjectPatchOperationView::InsertAfterLine { line_number, text: block } =>
            match insertion_point(text, line_number as int) {
            Some(at) => Ok(with_block(text, at, block)),
            None => Err(bad_line_text(line_number, patch.path)),
        },
        ProjectPatchOperationView::ReplaceText { expected, replacement } => if match_count(
            text,
            expected,
        ) == 1 {
            Ok(replaced_once(text, expected, replacement))
        } else {
            Err(other_sites_text(patch.path))
        },
        ProjectPatchOperationView::Append { text: block } => Ok(text + block),
        ProjectPatchOperationView::Create { text: block } => Ok(block),
    }
}

/// What a file below `root` holds after a patch, or why it cannot be applied.
pub open spec fn patched(root: Seq<char>, patch: ProjectPatchView, target: PatchTarget) -> Result<
    Seq<u8>,
    Seq<char>,
> {
    match patch.operation {
        ProjectPatchOperationView::Create { text } => if target is Absent {
            Ok(encode_utf8(text))
        } else {
            Err(now_exists_text(patch.path))
        },
        _ => match precondition_problem(root, patch, target) {
            Some(problem) => Err(problem),
            None => match patch.operation {
                ProjectPatchOperationView::Append { text } => Ok(
                    target_bytes(target) + encode_utf8(text),
                ),
                _ => match target_text(target) {
                    Some(text) => match edited_text(patch, text) {
                        Ok(edited) => Ok(encode_utf8(edited)),
                        Err(problem) => Err(problem),
                    },
                    None => Err(no_text_text(path_from(root, patch.path))),
                },
            },
        },
    }
}

fn edit_text(patch: &ProjectPatch, text: &str) -> (r: Result<String, String>)
    ensures
        edited_text(patch.deep_view(), text@) == match r {
            Ok(edited) => Ok::<Seq<char>, Seq<char>>(edited@),
            Err(problem) => Err::<Seq<char>, Seq<char>>(problem@),
        },
{
    match &patch.operation {
        ProjectPatchOperation::InsertAfterLine { line_number, text: block } =>
            match insertion_offset_after_line(text, *line_number) {
            Some(at) => {
                let chars = chars_of(text);
                let total: usize = chars.len();
                assert(text@.subrange(0, at as int) =~= text@.take(at as int));
                assert(text@.subrange(at as int, text@.len() as int) =~= text@.skip(at as int));
                let mut edited = text_between(&chars, 0, at);
                if at == total && !ends_with(text, "\n") {
                    edited.push_str("\n");
                }
                edited.push_str(block.as_str());
                edited.push_str(text_between(&chars, at, total).as_str());
                Ok(edited)
            },
            None => Err(show_bad_line(*line_number, patch.path.as_str())),
        },
        ProjectPatchOperation::ReplaceText { expected, replacement } => if occurs_once(
            text,
            expected.as_str(),
        ) {
            Ok(replace_once(text, expected.as_str(), replacement.as_str()))
        } else {
            Err(show_other_sites(patch.path.as_str()))
        },
        ProjectPatchOperation::Append { text: block } => Ok(concat(text, block.as_str())),
        ProjectPatchOperation::Create { text: block } => Ok(block.clone()),
    }
}

pub open spec fn bytes_or_problem(r: Result<Vec<u8>, String>) -> Result<Seq<u8>, Seq<char>> {
    match r {
        Ok(bytes) => Ok(bytes@),
        Err(problem) => Err(problem@),
    }
}

/// What the file at the path of a patch below `root` holds after it, given what stands there now.
pub fn apply_project_patch(root: &str, patch: &ProjectPatch, target: &PatchTarget) -> (r: Result<
    Vec<u8>,
    String,
>)
    ensures
        bytes_or_problem(r) == patched(root@, patch.deep_view(), *target),
{
    if let ProjectPatchOperation::Create { text } = &patch.operation {
        return match target {
            PatchTarget::Absent { .. } => Ok(copy_bytes(text.as_str().as_bytes())),
            _ => Err(show_now_exists(patch.path.as_str())),
        };
    }
    if let Some(problem) = verify_project_patch_precondition(root, patch, target) {
        return Err(problem);
    }
    if let ProjectPatchOperation::Append { text } = &patch.operation {
        let mut bytes: Vec<u8> = match target {
            PatchTarget::File(bytes) => copy_bytes(bytes.as_slice()),
            _ => Vec::new(),
        };
        let mut added = copy_bytes(text.as_str().as_bytes());
        bytes.append(&mut added);
        return Ok(bytes);
    }
    match read_target(target) {
        Some(text) => match edit_text(patch, text.as_str()) {
            Ok(edited) => Ok(copy_bytes(edited.as_str().as_bytes())),
            Err(problem) => Err(problem),
        },
        None => Err(show_no_text(join_path(root, patch.path.as_str()).as_str())),
    }
}

/// An appending patch leaves what the file held where it was.
pub proof fn law_appending_keeps_the_file(
    root: Seq<char>,
    patch: ProjectPatchView,
    target: PatchTarget,
)
    requires
        patch.operation is Append,
        patched(root, patch, target) is Ok,
    ensures
        begins_with(patched(root, patch, target)->Ok_0, target_bytes(target)),
{
    let block = patch.operation->Append_text;
    let old = target_bytes(target);
    assert((old + encode_utf8(block)).subrange(0, old.len() as int) =~= old);
}

/// A patch is never applied to a file that changed since it was made.
pub proof fn law_stale_patches_are_refused(
    root: Seq<char>,
    patch: ProjectPatchView,
    target: PatchTarget,
)
    requires
        !(patch.operation is Create),
        patch.expected_sha256 != Some(digest_text(target_bytes(target))),
    ensures
        patched(root, patch, target) is Err,
{
}

/// A file that exists is never overwritten by a patch that creates one.
pub proof fn law_creating_overwrites_nothing(
    root: Seq<char>,
    patch: ProjectPatchView,
    target: PatchTarget,
)
    requires
        patch.operation is Create,
        !(target is Absent),
    ensures
        patched(root, patch, target) is Err,
{
}

/// A replacing patch changes one site and nothing before or after it.
pub proof fn law_replacing_changes_one_site(
    text: Seq<char>,
    expected: Seq<char>,
    replacement: Seq<char>,
)
    requires
        match_count(text, expected) == 1,
    ensures
        exists|before: Seq<char>, after: Seq<char>|
            text == before + expected + after && replaced_once(text, expected, replacement)
                == #[trigger] (before + replacement + after),
{
    lemma_first_from(text, expected, 0);
    assert(first_from(text, expected, 0) is Some) by {
        if expected.len() == 0 {
            assert(text.len() == 0);
            assert(text.subrange(0, 0) =~= expected);
        }
    }
    let at = first_from(text, expected, 0)->0;
    let before = text.take(at);
    let after = text.skip(at + expected.len());
    assert(text =~= before + expected + after) by {
        assert(text.subrange(at, at + expected.len()) =~= expected);
    }
    assert(replaced_once(text, expected, replacement) == before + replacement + after);
}

/// A patch that appends or replaces can be applied to the file it was made for.
pub proof fn law_patches_fit_the_file_they_were_made_for(
    root: Seq<char>,
    target: PatchTarget,
    path: Seq<char>,
    id: Seq<char>,
    block: Seq<char>,
    expected: Seq<char>,
    replacement: Seq<char>,
)
    ensures
        append_patch(target, path, id, block) matches Some(patch) ==> patched(root, patch, target) is Ok,
        replace_patch(target, path, expected, replacement) matches Some(patch) ==> patched(
            root,
            patch,
            target,
        ) is Ok,
{
}

/// Every line of a text has a place after it.
proof fn lemma_line_has_an_end(s: Seq<char>, start: int, from: int, line: int)
    requires
        0 <= start <= from <= s.len(),
        1 <= line <= lines_from(s, start, from).len(),
        s.len() > 0,
    ensures
        line_end_from(s, from, line) is Some,
    decreases s.len() - from,
{
    if from >= s.len() {
    } else if s[from] == '\n' {
        let rest = lines_from(s, from + 1, from + 1);
        assert(lines_from(s, start, from).len() == 1 + rest.len());
        if line > 1 {
            lemma_line_has_an_end(s, from + 1, from + 1, line - 1);
        }
    } else {
        lemma_line_has_an_end(s, start, from + 1, line);
    }
}

/// A patch that inserts after a line can be applied to the file it was made for, if that is not
/// empty.
pub proof fn law_insertions_fit_the_file_they_were_made_for(
    root: Seq<char>,
    target: PatchTarget,
    path: Seq<char>,
    id: Seq<char>,
    line_number: usize,
    block: Seq<char>,
)
    requires
        target_text(target) matches Some(text) ==> text.len() > 0,
    ensures
        insert_patch(target, path, id, line_number, block) matches Some(patch) ==> patched(
            root,
            patch,
            target,
        ) is Ok,
{
    if let Some(patch) = insert_patch(target, path, id, line_number, block) {
        let text = target_text(target)->0;
        lemma_some_line(text, 0, 0);
        lemma_line_has_an_end(text, 0, 0, line_number as int);
    }
}

/// A text that is not empty has a line.
proof fn lemma_some_line(s: Seq<char>, start: int, from: int)
    requires
        0 <= start <= from <= s.len(),
        start < s.len(),
    ensures
        lines_from(s, start, from).len() >= 1,
    decreases s.len() - from,
{
    if from < s.len() && s[from] != '\n' {
        lemma_some_line(s, start, from + 1);
    }
}

} // verus!
