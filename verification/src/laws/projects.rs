//! What is told of a project from its files, and how it is proposed to be built.
use vstd::prelude::*;

use crate::init::{
    argument_end, argument_start, autotools_plan_for, bazel_plan_for, cargo_name_in,
    cargo_plan_for, clean_option, cleaned, cmake_plan_for, detected_plan, digit_from,
    ends_argument, file_from, first_argument, go_plan_in, go_version_in, gradle_plan_for, has,
    has_main, is_plausible, kinds_in, make_plan_for, maven_plan_for, meson_plan_for,
    node_plan_for, plan_in, plausible_from, rule_in, rust_version_in, selected_kind,
    sure_outputs, target_from, text_at, version_end, version_in, with_discovered, with_kind,
    InitPlanView, ProjectFilesView, ProjectKind,
};
use crate::laws::texts::law_trimming_takes_what_was_put_around;
use crate::laws::wording::lemma_holds;
use crate::output_discovery::OutputCandidateView;
use crate::text::{in_class, is_white, occurs, trimmed, trimmed_end, CharClass};

verus! {

/// Whether a file of this name is among the files of a project.
pub open spec fn is_there(f: ProjectFilesView, name: Seq<char>) -> bool {
    exists|i: int| 0 <= i < f.files.len() && (#[trigger] f.files[i]).0 == name
}

proof fn lemma_file_from(
    files: Seq<(Seq<char>, Option<Seq<char>>)>,
    name: Seq<char>,
    from: int,
)
    requires
        0 <= from <= files.len(),
    ensures
        match file_from(files, name, from) {
            Some(text) => exists|i: int|
                from <= i < files.len() && (#[trigger] files[i]).0 == name && files[i].1 == text
                    && forall|j: int| from <= j < i ==> (#[trigger] files[j]).0 != name,
            None => forall|i: int| from <= i < files.len() ==> (#[trigger] files[i]).0 != name,
        },
    decreases files.len() - from,
{
    if from < files.len() {
        lemma_file_from(files, name, from + 1);
        if files[from].0 == name {
            assert(files[from].1 == file_from(files, name, from)->0);
        } else if file_from(files, name, from + 1) is Some {
            let text = file_from(files, name, from + 1)->0;
            let i = choose|i: int|
                from < i < files.len() && (#[trigger] files[i]).0 == name && files[i].1 == text
                    && forall|j: int| from < j < i ==> (#[trigger] files[j]).0 != name;
            assert(files[i].0 == name && files[i].1 == text);
            assert forall|j: int| from <= j < i implies (#[trigger] files[j]).0 != name by {
                if j == from {
                }
            }
        }
    }
}

/// A file is found exactly if it is there, with the text of the first of its name.
pub proof fn law_files_are_found_by_name(f: ProjectFilesView, name: Seq<char>)
    ensures
        has(f, name) <==> is_there(f, name),
        text_at(f, name) is Some ==> is_there(f, name),
        f.files.len() > 0 && f.files[0].0 == name ==> text_at(f, name) == f.files[0].1,
{
    lemma_file_from(f.files, name, 0);
}

/// Whether the files of a project tell a build system.
pub open spec fn tells(f: ProjectFilesView, kind: ProjectKind) -> bool {
    match kind {
        ProjectKind::Cargo => is_there(f, "Cargo.toml"@),
        ProjectKind::Go => is_there(f, "go.mod"@),
        ProjectKind::NodePnpm => is_there(f, "package.json"@) && is_there(f, "pnpm-lock.yaml"@),
        ProjectKind::NodeNpm => is_there(f, "package.json"@) && !is_there(f, "pnpm-lock.yaml"@),
        ProjectKind::Maven => is_there(f, "pom.xml"@),
        ProjectKind::Gradle => is_there(f, "gradlew"@) || is_there(f, "build.gradle"@) || is_there(
            f,
            "build.gradle.kts"@,
        ) || is_there(f, "settings.gradle"@) || is_there(f, "settings.gradle.kts"@),
        ProjectKind::Bazel => is_there(f, "MODULE.bazel"@) || is_there(f, "WORKSPACE"@) || is_there(
            f,
            "WORKSPACE.bazel"@,
        ) || is_there(f, "BUILD"@) || is_there(f, "BUILD.bazel"@),
        ProjectKind::Meson => is_there(f, "meson.build"@),
        ProjectKind::CMake => is_there(f, "CMakeLists.txt"@),
        ProjectKind::Autotools => is_there(f, "configure.ac"@) || is_there(f, "configure.in"@)
            || is_there(f, "configure"@),
        ProjectKind::Python => is_there(f, "pyproject.toml"@) || is_there(f, "setup.py"@)
            || is_there(f, "setup.cfg"@),
        ProjectKind::Make => is_there(f, "GNUmakefile"@) || is_there(f, "Makefile"@) || is_there(
            f,
            "makefile"@,
        ),
        ProjectKind::Generic => false,
    }
}

/// Where a build system stands among the others: one that packages before one that only compiles.
pub open spec fn rank(kind: ProjectKind) -> int {
    match kind {
        ProjectKind::Cargo => 0,
        ProjectKind::Go => 1,
        ProjectKind::NodePnpm => 2,
        ProjectKind::NodeNpm => 2,
        ProjectKind::Maven => 3,
        ProjectKind::Gradle => 4,
        ProjectKind::Bazel => 5,
        ProjectKind::Meson => 6,
        ProjectKind::CMake => 7,
        ProjectKind::Autotools => 8,
        ProjectKind::Python => 9,
        ProjectKind::Make => 10,
        ProjectKind::Generic => 11,
    }
}

/// Whether the kinds found so far are those below `bound` that the files tell, in their order.
#[verifier::opaque]
pub open spec fn are_told(f: ProjectFilesView, kinds: Seq<ProjectKind>, bound: int) -> bool {
    &&& forall|i: int|
        0 <= i < kinds.len() ==> tells(f, #[trigger] kinds[i]) && rank(kinds[i]) < bound
    &&& forall|i: int, j: int|
        0 <= i < j < kinds.len() ==> rank(#[trigger] kinds[i]) < rank(#[trigger] kinds[j])
    &&& forall|kind: ProjectKind|
        tells(f, kind) && #[trigger] rank(kind) < bound ==> kinds.contains(kind)
}

proof fn lemma_told_more(
    f: ProjectFilesView,
    kinds: Seq<ProjectKind>,
    found: bool,
    kind: ProjectKind,
)
    requires
        are_told(f, kinds, rank(kind)),
        found <==> tells(f, kind),
        kind is NodePnpm ==> !tells(f, ProjectKind::NodeNpm),
        kind is NodeNpm ==> !tells(f, ProjectKind::NodePnpm),
    ensures
        are_told(f, with_kind(kinds, found, kind), rank(kind) + 1),
{
    reveal(are_told);
    let more = with_kind(kinds, found, kind);
    assert forall|other: ProjectKind|
        tells(f, other) && #[trigger] rank(other) < rank(kind) + 1 implies more.contains(other) by {
        if rank(other) < rank(kind) {
            assert(kinds.contains(other));
            let i = choose|i: int| 0 <= i < kinds.len() && kinds[i] == other;
            assert(more[i] == other);
        } else {
            assert(more[kinds.len() as int] == kind);
        }
    }
    assert forall|i: int, j: int| 0 <= i < j < more.len() implies rank(#[trigger] more[i]) < rank(
        #[trigger] more[j],
    ) by {
        assert(more[i] == kinds[i]);
        if j < kinds.len() {
            assert(more[j] == kinds[j]);
        }
    }
    assert forall|i: int| 0 <= i < more.len() implies tells(f, #[trigger] more[i]) && rank(more[i])
        < rank(kind) + 1 by {
        if i < kinds.len() {
            assert(more[i] == kinds[i]);
        }
    }
}

proof fn lemma_told(f: ProjectFilesView)
    ensures
        are_told(f, kinds_in(f), 11),
{
    reveal(kinds_in);
    assert forall|name: Seq<char>| #[trigger] has(f, name) <==> is_there(f, name) by {
        law_files_are_found_by_name(f, name);
    }
    let k0: Seq<ProjectKind> = Seq::empty();
    assert(are_told(f, k0, 0)) by {
        reveal(are_told);
    }
    let k1 = with_kind(k0, has(f, "Cargo.toml"@), ProjectKind::Cargo);
    lemma_told_more(f, k0, has(f, "Cargo.toml"@), ProjectKind::Cargo);
    let k2 = with_kind(k1, has(f, "go.mod"@), ProjectKind::Go);
    lemma_told_more(f, k1, has(f, "go.mod"@), ProjectKind::Go);
    let node = has(f, "package.json"@);
    let own = if has(f, "pnpm-lock.yaml"@) {
        ProjectKind::NodePnpm
    } else {
        ProjectKind::NodeNpm
    };
    let k3 = with_kind(k2, node, own);
    lemma_told_more(f, k2, node, own);
    let k4 = with_kind(k3, has(f, "pom.xml"@), ProjectKind::Maven);
    lemma_told_more(f, k3, has(f, "pom.xml"@), ProjectKind::Maven);
    let gradle = has(f, "gradlew"@) || has(f, "build.gradle"@) || has(f, "build.gradle.kts"@) || has(
        f,
        "settings.gradle"@,
    ) || has(f, "settings.gradle.kts"@);
    let k5 = with_kind(k4, gradle, ProjectKind::Gradle);
    lemma_told_more(f, k4, gradle, ProjectKind::Gradle);
    let bazel = has(f, "MODULE.bazel"@) || has(f, "WORKSPACE"@) || has(f, "WORKSPACE.bazel"@) || has(
        f,
        "BUILD"@,
    ) || has(f, "BUILD.bazel"@);
    let k6 = with_kind(k5, bazel, ProjectKind::Bazel);
    lemma_told_more(f, k5, bazel, ProjectKind::Bazel);
    let k7 = with_kind(k6, has(f, "meson.build"@), ProjectKind::Meson);
    lemma_told_more(f, k6, has(f, "meson.build"@), ProjectKind::Meson);
    let k8 = with_kind(k7, has(f, "CMakeLists.txt"@), ProjectKind::CMake);
    lemma_told_more(f, k7, has(f, "CMakeLists.txt"@), ProjectKind::CMake);
    let autotools = has(f, "configure.ac"@) || has(f, "configure.in"@) || has(f, "configure"@);
    let k9 = with_kind(k8, autotools, ProjectKind::Autotools);
    lemma_told_more(f, k8, autotools, ProjectKind::Autotools);
    let python = has(f, "pyproject.toml"@) || has(f, "setup.py"@) || has(f, "setup.cfg"@);
    let k10 = with_kind(k9, python, ProjectKind::Python);
    lemma_told_more(f, k9, python, ProjectKind::Python);
    let make = has(f, "GNUmakefile"@) || has(f, "Makefile"@) || has(f, "makefile"@);
    let k11 = with_kind(k10, make, ProjectKind::Make);
    lemma_told_more(f, k10, make, ProjectKind::Make);
    assert(kinds_in(f) == k11);
}

/// The build systems of a project are those that its files tell, each once and in a fixed order; the one
/// that is proposed comes first in it.
pub proof fn law_build_systems_are_told_by_files(f: ProjectFilesView, kind: ProjectKind)
    ensures
        kinds_in(f).contains(kind) <==> tells(f, kind),
        are_told(f, kinds_in(f), 11),
        tells(f, kind) ==> rank(selected_kind(kinds_in(f))) <= rank(kind),
        selected_kind(kinds_in(f)) is Generic || tells(f, selected_kind(kinds_in(f))),
{
    reveal(are_told);
    lemma_told(f);
    let k11 = kinds_in(f);
    if k11.contains(kind) {
        let i = choose|i: int| 0 <= i < k11.len() && k11[i] == kind;
        assert(tells(f, k11[i]));
    }
    if tells(f, kind) {
        assert(rank(kind) < 11);
        assert(k11.contains(kind));
        let i = choose|i: int| 0 <= i < k11.len() && k11[i] == kind;
        assert(k11[i] == kind);
        if i > 0 {
            assert(rank(k11[0]) < rank(k11[i]));
        }
    }
    if k11.len() > 0 {
        assert(tells(f, k11[0]));
    }
}

proof fn lemma_digit_from(s: Seq<char>, from: int)
    requires
        0 <= from <= s.len(),
    ensures
        match digit_from(s, from) {
            Some(at) => from <= at < s.len() && '0' <= s[at] <= '9' && forall|i: int|
                from <= i < at ==> !('0' <= #[trigger] s[i] <= '9'),
            None => forall|i: int| from <= i < s.len() ==> !('0' <= #[trigger] s[i] <= '9'),
        },
    decreases s.len() - from,
{
    if from < s.len() {
        lemma_digit_from(s, from + 1);
    }
}

proof fn lemma_version_end(s: Seq<char>, from: int)
    requires
        0 <= from <= s.len(),
    ensures
        from <= version_end(s, from) <= s.len(),
        forall|i: int|
            from <= i < version_end(s, from) ==> '0' <= #[trigger] s[i] <= '9' || s[i] == '.',
        version_end(s, from) < s.len() ==> !('0' <= s[version_end(s, from)] <= '9'
            || s[version_end(s, from)] == '.'),
    decreases s.len() - from,
{
    if from < s.len() {
        lemma_version_end(s, from + 1);
    }
}

proof fn lemma_trimmed_end(s: Seq<char>, class: CharClass)
    ensures
        trimmed_end(s, class).len() <= s.len(),
        trimmed_end(s, class) == s.take(trimmed_end(s, class).len() as int),
        trimmed_end(s, class).len() > 0 ==> !in_class(class, trimmed_end(s, class).last()),
        s.len() > 0 && !in_class(class, s[0]) ==> trimmed_end(s, class).len() > 0,
    decreases s.len(),
{
    if s.len() > 0 && in_class(class, s.last()) {
        let rest = s.drop_last();
        lemma_trimmed_end(rest, class);
        let n = trimmed_end(s, class).len() as int;
        assert(rest.take(n) =~= s.take(n));
        if !in_class(class, s[0]) {
            assert(rest.len() > 0);
            assert(rest[0] == s[0]);
        }
    } else {
        assert(s.take(s.len() as int) =~= s);
    }
}

/// The version in a text begins at its first digit and goes on through digits and dots, without the dots
/// at its end. There is none exactly if there is no digit.
pub proof fn law_versions_begin_at_the_first_digit(input: Seq<char>)
    ensures
        ({
            let text = trimmed(input, CharClass::White);
            match version_in(input) {
                Some(version) => {
                    &&& version.len() > 0
                    &&& '0' <= version[0] <= '9'
                    &&& version.last() != '.'
                    &&& forall|i: int|
                        0 <= i < version.len() ==> '0' <= #[trigger] version[i] <= '9'
                            || version[i] == '.'
                    &&& occurs(text, version)
                },
                None => forall|i: int|
                    0 <= i < text.len() ==> !('0' <= #[trigger] text[i] <= '9'),
            }
        }),
{
    let text = trimmed(input, CharClass::White);
    lemma_digit_from(text, 0);
    if let Some(start) = digit_from(text, 0) {
        let end = version_end(text, start);
        lemma_version_end(text, start);
        assert(end > start);
        let whole = text.subrange(start, end);
        let version = trimmed_end(whole, CharClass::One('.'));
        lemma_trimmed_end(whole, CharClass::One('.'));
        assert(whole[0] == text[start]);
        let n = version.len() as int;
        assert(version[0] == whole[0]);
        assert forall|i: int| 0 <= i < n implies '0' <= #[trigger] version[i] <= '9' || version[i]
            == '.' by {
            assert(version[i] == whole[i]);
            assert(whole[i] == text[start + i]);
        }
        assert(text =~= text.take(start) + version + text.skip(start + n)) by {
            assert forall|i: int| start <= i < start + n implies text[i] == version[i - start] by {
                assert(version[i - start] == whole[i - start]);
            }
        }
        lemma_holds(text, text.take(start), version, text.skip(start + n));
    }
}

/// A name that is taken over holds nothing but letters, digits and the marks of file names; a name of
/// these alone is taken over as it is.
pub proof fn law_names_are_taken_over_clean(input: Seq<char>, i: int)
    ensures
        0 <= i < cleaned(input).len() ==> is_name_char(cleaned(input)[i]),
        input.len() > 0 && (forall|k: int| 0 <= k < input.len() ==> is_name_char(#[trigger] input[k]))
            ==> cleaned(input) == input && clean_option(Some(input)) == Some(input),
        clean_option(Some(input)) matches Some(name) ==> name == cleaned(input) && name.len() > 0,
        clean_option(None) is None,
{
    if input.len() > 0 && forall|k: int| 0 <= k < input.len() ==> is_name_char(#[trigger] input[k]) {
        let none: Seq<char> = Seq::empty();
        assert(none + input + none =~= input);
        assert(is_name_char(input[0]));
        assert(is_name_char(input[input.len() - 1]));
        law_trimming_takes_what_was_put_around(none, input, none, CharClass::White);
        law_trimming_takes_what_was_put_around(none, input, none, CharClass::Quote);
        assert(cleaned(input) =~= input);
    }
}

/// Whether a character may stand in the name of a file as it is taken over.
pub open spec fn is_name_char(c: char) -> bool {
    'a' <= c <= 'z' || 'A' <= c <= 'Z' || '0' <= c <= '9' || c == '.' || c == '_' || c == '+' || c
        == '-'
}

proof fn lemma_argument_start(s: Seq<char>, from: int, end: int)
    requires
        0 <= from <= end <= s.len(),
        forall|i: int| from <= i < end ==> ends_argument(#[trigger] s[i]),
        end < s.len() ==> !ends_argument(s[end]),
    ensures
        argument_start(s, from) == end,
    decreases end - from,
{
    if from < end {
        assert(ends_argument(s[from]));
        lemma_argument_start(s, from + 1, end);
    }
}

proof fn lemma_argument_end(s: Seq<char>, from: int, end: int)
    requires
        0 <= from <= end <= s.len(),
        forall|i: int| from <= i < end ==> !ends_argument(#[trigger] s[i]),
        end < s.len() ==> ends_argument(s[end]),
    ensures
        argument_end(s, from) == end,
    decreases end - from,
{
    if from < end {
        assert(!ends_argument(s[from]));
        lemma_argument_end(s, from + 1, end);
    }
}

/// The first argument of a call is the name behind the white space, up to white space, a comma or the
/// bracket.
pub proof fn law_first_arguments_read_back(space: Seq<char>, name: Seq<char>, rest: Seq<char>)
    requires
        forall|i: int| 0 <= i < space.len() ==> is_white(#[trigger] space[i]),
        name.len() > 0,
        forall|i: int| 0 <= i < name.len() ==> is_name_char(#[trigger] name[i]),
        rest.len() > 0 ==> is_white(rest[0]) || rest[0] == ')' || rest[0] == ',',
    ensures
        first_argument(space + name + rest) == Some(name),
{
    let all = space + name + rest;
    let n = space.len() as int;
    let m = n + name.len();
    assert forall|i: int| 0 <= i < n implies ends_argument(#[trigger] all[i]) by {
        assert(all[i] == space[i]);
    }
    assert forall|i: int| n <= i < m implies !ends_argument(#[trigger] all[i]) by {
        assert(all[i] == name[i - n]);
        assert(is_name_char(name[i - n]));
    }
    assert(all[n] == name[0]);
    lemma_argument_start(all, 0, n);
    if m < all.len() {
        assert(all[m] == rest[0]);
    }
    lemma_argument_end(all, n, m);
    assert(all.subrange(n, m) =~= name);
    let none: Seq<char> = Seq::empty();
    assert(none + name + none =~= name);
    assert(is_name_char(name[0]) && is_name_char(name[name.len() - 1]));
    law_trimming_takes_what_was_put_around(none, name, none, CharClass::Quote);
}

/// A Cargo project is built for release, in the image of its own Rust version and with its lock file if
/// it has one. Its output is the binary that its manifest names; without one the proposal is not sure.
pub proof fn law_cargo_projects(manifest: Option<crate::toml_tree::TomlView>, locked: bool)
    ensures
        ({
            let plan = cargo_plan_for(manifest, locked);
            let named = manifest is Some && cargo_name_in(manifest->0) is Some;
            let name = cargo_name_in(manifest->0)->0;
            &&& named ==> plan.outputs == seq!["target/release/"@ + name]
            &&& !named ==> plan.outputs == seq!["target/release/app"@]
            &&& plan.confidence is High <==> named && name != "app"@
            &&& !(plan.confidence is Low)
            &&& plan.image == "rust:"@ + rust_version_in(manifest)
            &&& plan.command.contains("--locked"@) <==> locked
            &&& plan.command[0] == "cargo"@ && plan.command[1] == "build"@ && plan.command[2]
                == "--release"@
        }),
{
    reveal_strlit("cargo");
    reveal_strlit("build");
    reveal_strlit("--release");
    reveal_strlit("--locked");
    reveal_strlit("target/release/");
    reveal_strlit("app");
    reveal_strlit("target/release/app");
    assert("target/release/"@ + "app"@ =~= "target/release/app"@);
    let plan = cargo_plan_for(manifest, locked);
    assert("cargo"@.len() == 5 && "build"@.len() == 5 && "--release"@.len() == 9 && "--locked"@.len()
        == 8);
    if locked {
        assert(plan.command[3] == "--locked"@);
    }
}

/// A Go project is built as a program exactly if one of its sources is a main package, else as a test
/// binary; what the command writes is the output.
pub proof fn law_go_projects(f: ProjectFilesView)
    ensures
        ({
            let plan = go_plan_in(f);
            &&& plan.confidence is High <==> has_main(f.go_sources)
            &&& plan.image == "golang:"@ + go_version_in(f)
            &&& plan.outputs.len() == 1
            &&& plan.outputs[0] == if has_main(f.go_sources) {
                "build/reprobisect-app"@
            } else {
                "build/reprobisect-package.test"@
            }
        }),
{
}

/// What is built by a named target is the output, and it is surer than a default.
pub proof fn law_named_targets_are_the_output(target: Seq<char>, wrapper: bool)
    ensures
        bazel_plan_for(Some(target)).outputs == seq!["bazel-bin/"@ + target],
        bazel_plan_for(Some(target)).command.last() == "//:"@ + target,
        bazel_plan_for(Some(target)).confidence is Medium,
        bazel_plan_for(None).confidence is Low,
        bazel_plan_for(None).outputs == seq!["bazel-bin/app"@],
        gradle_plan_for(wrapper).confidence is Low,
        wrapper <==> gradle_plan_for(wrapper).command[0] == "sh"@,
{
    reveal_strlit("sh");
    reveal_strlit("gradle");
    assert("sh"@.len() == 2 && "gradle"@.len() == 6);
}

/// CMake, Meson, Autotools and Make projects deliver the target that their build file names.
pub proof fn law_compiled_projects_deliver_their_target(
    text: Seq<char>,
    name: Seq<char>,
    configured: bool,
)
    ensures
        clean_option(crate::init::argument_of(text, "add_executable"@)) == Some(name)
            ==> cmake_plan_for(Some(text)).outputs == seq!["build/"@ + name] && cmake_plan_for(
            Some(text),
        ).confidence is High,
        clean_option(crate::init::quoted_argument_of(text, "executable"@)) == Some(name)
            ==> meson_plan_for(Some(text)).outputs == seq!["build/"@ + name] && meson_plan_for(
            Some(text),
        ).confidence is High,
        clean_option(
            crate::init::assigned_from(crate::text::lines_of(text), "bin_PROGRAMS"@, 0),
        ) == Some(name) ==> autotools_plan_for(Some(text), configured).outputs == seq![name]
            && autotools_plan_for(Some(text), configured).confidence is Medium,
        clean_option(target_from(crate::text::lines_of(text), None, 0)) == Some(name)
            ==> make_plan_for(text).outputs == seq![name] && make_plan_for(text).confidence
            is Medium,
        cmake_plan_for(None).confidence is Low && meson_plan_for(None).confidence is Low,
        autotools_plan_for(None, configured).confidence is Low,
        clean_option(target_from(crate::text::lines_of(text), None, 0)) is None ==> make_plan_for(
            text,
        ).confidence is Low,
{
}

/// A Maven project delivers the jar that its artifact and version name, where it states both.
pub proof fn law_maven_projects_deliver_their_jar(pom: Seq<char>)
    ensures
        ({
            let artifact = crate::init::cleaned_element(pom, "artifactId"@);
            let version = crate::init::cleaned_element(pom, "version"@);
            let plan = maven_plan_for(pom);
            &&& plan.confidence is Medium <==> artifact is Some && version is Some
            &&& plan.confidence is Low <==> artifact is None || version is None
            &&& artifact is Some && version is Some ==> plan.outputs == seq![
                "target/"@ + artifact->0 + "-"@ + version->0 + ".jar"@,
            ]
        }),
{
}

/// A Node project is installed from its lock file where the package manager has one, and built before it
/// is packed exactly if it has a build script.
pub proof fn law_node_projects(pnpm: bool, locked: bool, built: bool)
    ensures
        ({
            let plan = node_plan_for(pnpm, locked, built);
            let script = plan.command[2];
            &&& plan.outputs == seq!["build/reprobisect-package.tgz"@]
            &&& pnpm ==> occurs(script, "pnpm install --frozen-lockfile"@) && occurs(
                script,
                "pnpm pack"@,
            ) && plan.detected_project == "Node.js / pnpm"@
            &&& !pnpm && locked ==> occurs(script, "npm ci"@)
            &&& !pnpm && !locked ==> occurs(script, "npm install"@)
            &&& pnpm && built ==> occurs(script, "pnpm run build"@)
            &&& !pnpm && built ==> occurs(script, "npm run build"@)
            &&& !pnpm ==> plan.detected_project == "Node.js / npm"@
        }),
{
    let start = "rm -rf /tmp/reprobisect-package && mkdir -p /tmp/reprobisect-package build && "@;
    let install = if pnpm {
        "corepack enable && pnpm install --frozen-lockfile"@
    } else if locked {
        "npm ci"@
    } else {
        "npm install"@
    };
    let build = if !built {
        ""@
    } else if pnpm {
        " && pnpm run build"@
    } else {
        " && npm run build"@
    };
    let pack = if pnpm {
        "pnpm pack --pack-destination /tmp/reprobisect-package >/dev/null"@
    } else {
        "npm pack --pack-destination /tmp/reprobisect-package >/dev/null"@
    };
    let copy = " && cp \"$(find /tmp/reprobisect-package -maxdepth 1 -type f -name '*.tgz' | sort | head -n 1)\" build/reprobisect-package.tgz"@;
    let script = crate::init::node_script(pnpm, locked, built);
    let rest = build + " && "@ + pack + copy;
    assert(script =~= start + install + rest);
    reveal_strlit("corepack enable && pnpm install --frozen-lockfile");
    reveal_strlit("corepack enable && ");
    reveal_strlit("pnpm install --frozen-lockfile");
    reveal_strlit(" && pnpm run build");
    reveal_strlit(" && npm run build");
    reveal_strlit(" && ");
    reveal_strlit("pnpm run build");
    reveal_strlit("npm run build");
    reveal_strlit("pnpm pack --pack-destination /tmp/reprobisect-package >/dev/null");
    reveal_strlit("pnpm pack");
    reveal_strlit(" --pack-destination /tmp/reprobisect-package >/dev/null");
    lemma_holds(script, start, install, rest);
    if pnpm {
        assert(install =~= "corepack enable && "@ + "pnpm install --frozen-lockfile"@);
        lemma_holds(
            script,
            start + "corepack enable && "@,
            "pnpm install --frozen-lockfile"@,
            rest,
        );
        let tail = " --pack-destination /tmp/reprobisect-package >/dev/null"@;
        assert(pack =~= "pnpm pack"@ + tail);
        lemma_holds(script, start + install + build + " && "@, "pnpm pack"@, tail + copy);
    }
    if built {
        let own = if pnpm {
            "pnpm run build"@
        } else {
            "npm run build"@
        };
        assert(build =~= " && "@ + own);
        lemma_holds(script, start + install + " && "@, own, " && "@ + pack + copy);
    }
}

proof fn lemma_plausible(list: Seq<Seq<char>>, from: int)
    requires
        0 <= from <= list.len(),
    ensures
        match plausible_from(list, from) {
            Some(word) => exists|i: int|
                from <= i < list.len() && #[trigger] list[i] == word && is_plausible(word)
                    && forall|j: int| from <= j < i ==> !is_plausible(#[trigger] list[j]),
            None => forall|j: int| from <= j < list.len() ==> !is_plausible(#[trigger] list[j]),
        },
    decreases list.len() - from,
{
    if from < list.len() {
        lemma_plausible(list, from + 1);
        if is_plausible(list[from]) {
            assert(list[from] == plausible_from(list, from)->0);
        } else if plausible_from(list, from + 1) is Some {
            let word = plausible_from(list, from + 1)->0;
            let i = choose|i: int|
                from < i < list.len() && #[trigger] list[i] == word && is_plausible(word)
                    && forall|j: int| from < j < i ==> !is_plausible(#[trigger] list[j]);
            assert(list[i] == word);
            assert forall|j: int| from <= j < i implies !is_plausible(#[trigger] list[j]) by {
                if j == from {
                }
            }
        }
    }
}

/// The target of a makefile is that of its first rule that may name a file. Only where there is none, it
/// is the first such word behind the last rule for everything.
pub proof fn law_make_targets_are_the_first_that_name_a_file(
    list: Seq<Seq<char>>,
    fallback: Option<Seq<char>>,
    from: int,
)
    requires
        0 <= from <= list.len(),
        fallback is Some ==> is_plausible(fallback->0),
    ensures
        target_from(list, fallback, from) matches Some(target) ==> is_plausible(target),
        forall|i: int|
            from <= i < list.len() && names_file(#[trigger] list[i]) && (forall|j: int|
                from <= j < i ==> !names_file(#[trigger] list[j])) ==> (rule_in(list[i]) matches Some(
                (target, right),
            ) && target_from(list, fallback, from) == Some(target)),
        is_plausible("all"@) == false,
    decreases list.len() - from,
{
    if from < list.len() {
        match rule_in(list[from]) {
            None => {
                law_make_targets_are_the_first_that_name_a_file(list, fallback, from + 1);
            },
            Some((target, right)) => {
                if target == "all"@ {
                    let next = plausible_from(crate::text::words_of(right), 0);
                    lemma_plausible(crate::text::words_of(right), 0);
                    law_make_targets_are_the_first_that_name_a_file(list, next, from + 1);
                } else if !is_plausible(target) {
                    law_make_targets_are_the_first_that_name_a_file(list, fallback, from + 1);
                }
            },
        }
        assert forall|i: int|
            from <= i < list.len() && names_file(#[trigger] list[i]) && (forall|j: int|
                from <= j < i ==> !names_file(#[trigger] list[j])) implies (rule_in(list[i]) matches Some(
            (target, right),
        ) && target_from(list, fallback, from) == Some(target)) by {
            if i > from {
                assert(!names_file(list[from]));
            }
        }
    }
}

/// Whether a line is a rule whose target may be a file.
pub open spec fn names_file(line: Seq<char>) -> bool {
    rule_in(line) matches Some((target, right)) && is_plausible(target)
}

proof fn lemma_sure(candidates: Seq<OutputCandidateView>, n: int, i: int)
    requires
        0 <= i < n <= candidates.len(),
        candidates[i].confidence is High,
    ensures
        sure_outputs(candidates, n).contains(candidates[i].path),
    decreases n,
{
    let rest = sure_outputs(candidates, n - 1);
    let all = sure_outputs(candidates, n);
    if i < n - 1 {
        lemma_sure(candidates, n - 1, i);
        let k = choose|k: int| 0 <= k < rest.len() && rest[k] == candidates[i].path;
        assert(all[k] == candidates[i].path);
    } else {
        assert(all[rest.len() as int] == candidates[i].path);
    }
}

/// Every sure proposal is adopted as an output; without one the plan stays as it is.
pub proof fn law_sure_proposals_are_adopted(
    plan: InitPlanView,
    candidates: Seq<OutputCandidateView>,
    i: int,
)
    requires
        0 <= i < candidates.len(),
    ensures
        candidates[i].confidence is High ==> with_discovered(plan, candidates).outputs.contains(
            candidates[i].path,
        ),
        (forall|k: int| 0 <= k < candidates.len() ==> !((#[trigger] candidates[k]).confidence is High))
            ==> with_discovered(plan, candidates) == plan,
{
    if candidates[i].confidence is High {
        lemma_sure(candidates, candidates.len() as int, i);
    }
    lemma_none_sure(candidates, candidates.len() as int);
}

proof fn lemma_none_sure(candidates: Seq<OutputCandidateView>, n: int)
    requires
        0 <= n <= candidates.len(),
    ensures
        (forall|k: int| 0 <= k < n ==> !((#[trigger] candidates[k]).confidence is High))
            ==> sure_outputs(candidates, n).len() == 0,
    decreases n,
{
    if n > 0 {
        lemma_none_sure(candidates, n - 1);
        assert(candidates[n - 1].confidence is High || !(candidates[n - 1].confidence is High));
    }
}

/// A project with one build system gets the plan of that one; with several the plan is of the first and
/// is not sure.
pub proof fn law_the_plan_is_of_the_selected_build_system(f: ProjectFilesView)
    ensures
        ({
            let own = plan_in(f, selected_kind(kinds_in(f)));
            let plan = detected_plan(f);
            &&& kinds_in(f).len() <= 1 ==> plan == own
            &&& plan.image == own.image && plan.command == own.command && plan.outputs
                == own.outputs && plan.detected_project == own.detected_project
            &&& kinds_in(f).len() > 1 ==> !(plan.confidence is High) && (own.confidence is Low
                <==> plan.confidence is Low)
        }),
{
}

} // verus!
