//! Which files of a build are proposed as its outputs.
use vstd::prelude::*;

use crate::artifact::generic::lower_extension;
use crate::laws::artifacts::{begins_so, ends_so};
use crate::model::ArtifactType;
use crate::ordering::{file_name_of, is_same_path};
use crate::output_discovery::{
    candidate_of, candidates_in, changed_count, descends, detected_in, is_changed,
    is_executable, may_be_output, placed_score, rating, slashed, source_extension, stamp_from,
    FileStamp,
};
use crate::text::{begins_with, finishes_with, lower, occurs};

verus! {

/// Whether `file` is the first of `files` at `path`.
pub open spec fn is_first_file(
    files: Seq<(String, FileStamp)>,
    path: Seq<char>,
    from: int,
    i: int,
) -> bool {
    &&& from <= i < files.len()
    &&& is_same_path(files[i].0@, path)
    &&& forall|j: int| from <= j < i ==> !is_same_path((#[trigger] files[j]).0@, path)
}

proof fn lemma_stamp(files: Seq<(String, FileStamp)>, path: Seq<char>, from: int)
    requires
        0 <= from <= files.len(),
    ensures
        match stamp_from(files, path, from) {
            Some(stamp) => exists|i: int|
                is_first_file(files, path, from, i) && (#[trigger] files[i]).1 == stamp,
            None => forall|j: int|
                from <= j < files.len() ==> !is_same_path((#[trigger] files[j]).0@, path),
        },
    decreases files.len() - from,
{
    if from < files.len() {
        if is_same_path(files[from].0@, path) {
            assert(is_first_file(files, path, from, from));
            assert(files[from].1 == stamp_from(files, path, from)->0);
        } else {
            lemma_stamp(files, path, from + 1);
            if stamp_from(files, path, from + 1) is Some {
                let stamp = stamp_from(files, path, from + 1)->0;
                let i = choose|i: int|
                    is_first_file(files, path, from + 1, i) && (#[trigger] files[i]).1 == stamp;
                assert(is_first_file(files, path, from, i));
                assert(files[i].1 == stamp);
            }
        }
    }
}

/// A file has changed exactly if it was not there before or was there with another stamp.
pub proof fn law_changed_files_are_new_or_stamped_anew(
    before: Seq<(String, FileStamp)>,
    file: (String, FileStamp),
)
    ensures
        !is_changed(before, file) <==> exists|i: int|
            is_first_file(before, file.0@, 0, i) && (#[trigger] before[i]).1 == file.1,
{
    lemma_stamp(before, file.0@, 0);
    if exists|i: int|
        is_first_file(before, file.0@, 0, i) && (#[trigger] before[i]).1 == file.1 {
        let i = choose|i: int|
            is_first_file(before, file.0@, 0, i) && (#[trigger] before[i]).1 == file.1;
        assert(is_same_path(before[i].0@, file.0@));
        let stamp = stamp_from(before, file.0@, 0)->0;
        let k = choose|k: int|
            is_first_file(before, file.0@, 0, k) && (#[trigger] before[k]).1 == stamp;
        assert(is_first_file(before, file.0@, 0, k));
        if k < i {
            assert(!is_same_path(before[k].0@, file.0@));
        }
        if i < k {
            assert(!is_same_path(before[i].0@, file.0@));
        }
    }
}

/// The directories of version control, of caches, of packages and of editors are left out, but for one
/// that is searched itself; no file is.
pub proof fn law_tool_directories_are_left_out(depth: nat, directory: bool, name: Seq<char>)
    ensures
        !descends(depth, directory, name) <==> depth > 0 && directory && (name == ".git"@ || name
            == ".reprobisect"@ || name == "node_modules"@ || name == ".venv"@ || name == "venv"@
            || name == "__pycache__"@ || name == ".pytest_cache"@ || name == ".mypy_cache"@ || name
            == ".idea"@ || name == ".vscode"@),
{
}

/// A file may be run exactly if one of its three permissions to do so is set.
pub proof fn law_a_file_may_be_run_with_one_permission(mode: u32)
    ensures
        is_executable(mode) <==> mode & 0o100 != 0 || mode & 0o010 != 0 || mode & 0o001 != 0,
{
    assert(mode & 0o001 != 0 <==> mode % 2 == 1) by (bit_vector);
    assert(mode & 0o010 != 0 <==> (mode / 8) % 2 == 1) by (bit_vector);
    assert(mode & 0o100 != 0 <==> (mode / 64) % 2 == 1) by (bit_vector);
}

/// Whether a path begins in a directory for what a build delivers.
pub open spec fn is_delivered(path: Seq<char>) -> bool {
    let value = slashed(path);
    begins_so(value, "target/release/"@) || begins_so(value, "dist/"@) || begins_so(value, "bin/"@)
        || begins_so(value, "out/"@) || begins_so(value, "bazel-bin/"@) || begins_so(
        value,
        "build/bin/"@,
    ) || begins_so(value, "build/libs/"@)
}

/// Whether a path lies in a directory for what a build leaves behind on its way.
pub open spec fn is_left_behind(path: Seq<char>) -> bool {
    let value = slashed(path);
    begins_so(value, "CMakeFiles/"@) || occurs(value, "/CMakeFiles/"@) || occurs(
        value,
        "/incremental/"@,
    ) || occurs(value, "/build/"@) || occurs(value, "/deps/"@) || occurs(value, "/tmp/"@) || occurs(
        value,
        "/classes/"@,
    ) || occurs(value, "/generated/"@)
}

/// Whether the name of a file begins with a dot.
pub open spec fn has_dot_name(path: Seq<char>) -> bool {
    file_name_of(path) matches Some(name) && name.len() > 0 && name[0] == '.'
}

/// Where a file lies raises or lowers its score: a place for delivered files by ten, one for
/// intermediate files by minus thirty-five, a hidden name by minus twenty.
pub proof fn law_places_change_the_score(path: Seq<char>, base: int)
    ensures
        placed_score(path, base) - base == (if is_delivered(path) {
            10int
        } else {
            0
        }) + (if is_left_behind(path) {
            -35int
        } else {
            0
        }) + (if has_dot_name(path) {
            -20int
        } else {
            0
        }),
{
    let value = slashed(path);
    assert forall|text: Seq<char>| #[trigger]
        begins_with(value, text) <==> begins_so(value, text) by {
        if value.len() >= text.len() {
            assert(value.subrange(0, text.len() as int) =~= value.take(text.len() as int));
        }
    }
    if let Some(name) = file_name_of(path) {
        reveal_strlit(".");
        if name.len() > 0 {
            let head = name.subrange(0, 1);
            assert(head[0] == name[0]);
            assert(head =~= "."@ <==> name[0] == '.');
        }
    }
}

/// Whether a name is one of a shared library, with or without a version behind its ending.
pub open spec fn is_shared_name(path: Seq<char>) -> bool {
    lower_extension(path) == "so"@ || occurs(lower(path), ".so."@)
}

/// The points of a rating.
pub open spec fn points_of(r: Option<(Seq<char>, int)>) -> int {
    match r {
        Some((kind, points)) => points,
        None => 0,
    }
}

/// What a rating calls the file.
pub open spec fn kind_of(r: Option<(Seq<char>, int)>) -> Seq<char> {
    match r {
        Some((kind, points)) => kind,
        None => Seq::empty(),
    }
}

/// Programs and packages are rated by their kind: packages for delivery above programs, programs above
/// libraries, libraries above plain archives, and those above single compressed files.
pub proof fn law_ratings_go_by_kind(path: Seq<char>, mode: u32, other: Seq<char>)
    ensures
        points_of(rating(path, ArtifactType::PythonWheel, mode)) == 96,
        points_of(rating(path, ArtifactType::Deb, mode)) == 96,
        points_of(rating(path, ArtifactType::Elf, mode)) == if is_shared_name(path) {
            88int
        } else {
            95int
        },
        kind_of(rating(path, ArtifactType::Elf, mode)) == if is_shared_name(path) {
            "ELF shared library"@
        } else {
            "ELF executable"@
        },
        rating(path, ArtifactType::Jar, mode) == Some(("JAR package"@, 94int)),
        rating(path, ArtifactType::OciImage, mode) == Some(("OCI image archive"@, 94int)),
        rating(path, ArtifactType::PeCoff, mode) == Some(("PE/COFF binary"@, 92int)),
        rating(path, ArtifactType::MachO, mode) == Some(("Mach-O binary"@, 92int)),
        rating(path, ArtifactType::Wasm, mode) == Some(("WebAssembly module"@, 88int)),
        rating(path, ArtifactType::Ar, mode) == Some(("static/archive library"@, 82int)),
        rating(path, ArtifactType::Zip, mode) == Some(("ZIP archive"@, 80int)),
        rating(path, ArtifactType::Tar, mode) == Some(("TAR archive"@, 80int)),
        points_of(rating(path, ArtifactType::Gzip, mode)) == if ends_so(lower(path), ".tar.gz"@)
            || ends_so(lower(path), ".tgz"@) {
            84int
        } else {
            68int
        },
        rating(path, ArtifactType::Generic, mode) is Some && !(lower_extension(path) == "rpm"@
            || lower_extension(path) == "apk"@ || lower_extension(path) == "gem"@
            || lower_extension(path) == "nupkg"@ || lower_extension(path) == "crate"@
            || is_shared_name(path) || lower_extension(path) == "dylib"@ || lower_extension(path)
            == "dll"@ || lower_extension(path) == "a"@ || lower_extension(path) == "lib"@
            || lower_extension(path) == "exe"@ || lower_extension(path) == "bin"@) ==> (mode & 0o111)
            != 0 && !source_extension(lower_extension(path)) && points_of(rating(
            path,
            ArtifactType::Generic,
            mode,
        )) == 72,
        lower_extension(path) == "crate"@ || lower_extension(path) == "rpm"@ || lower_extension(
            path,
        ) == "apk"@ || lower_extension(path) == "gem"@ || lower_extension(path) == "nupkg"@
            ==> rating(path, ArtifactType::Generic, mode) == Some(("package archive"@, 88int)),
{
    let name = lower(path);
    assert forall|text: Seq<char>| #[trigger]
        finishes_with(name, text) <==> ends_so(name, text) by {
        if name.len() >= text.len() {
            assert(name.subrange(name.len() - text.len(), name.len() as int) =~= name.skip(
                name.len() - text.len(),
            ));
        }
    }
    law_a_file_may_be_run_with_one_permission(mode);
    assert(mode & 0o111 != 0 <==> (mode & 0o100 != 0 || mode & 0o010 != 0 || mode & 0o001 != 0))
        by (bit_vector);
}

/// A file is proposed exactly if it is not empty, is no intermediate file, has a rating, and keeps at
/// least fifty-five points where it lies. It is proposed with the confidence of its points.
pub proof fn law_proposals_keep_enough_points(
    path: Seq<char>,
    stamp: FileStamp,
    content: Option<Seq<u8>>,
)
    ensures
        ({
            let own = rating(path, detected_in(path, content), stamp.mode);
            let points = placed_score(path, points_of(own));
            let proposal = candidate_of(path, stamp, content);
            &&& proposal is Some <==> stamp.size_bytes > 0 && may_be_output(path, 1) && own is Some
                && points >= 55
            &&& proposal matches Some(c) ==> {
                &&& c.path == path && c.kind == kind_of(own) && c.score == points && c.size_bytes
                    == stamp.size_bytes
                &&& c.confidence is High <==> points >= 90
                &&& c.confidence is Medium <==> 70 <= points < 90
                &&& c.confidence is Low <==> points < 70
            }
        }),
{
}

/// Every changed file that can be proposed is proposed, and as many files are counted as changed.
pub proof fn law_every_changed_file_is_considered(
    before: Seq<(String, FileStamp)>,
    after: Seq<(String, FileStamp)>,
    contents: Seq<Option<Seq<u8>>>,
    n: int,
    k: int,
)
    requires
        0 <= k < n <= after.len(),
        contents.len() == after.len(),
    ensures
        is_changed(before, after[k]) && candidate_of(after[k].0@, after[k].1, contents[k]) is Some
            ==> candidates_in(before, after, contents, n).contains(
            candidate_of(after[k].0@, after[k].1, contents[k])->0,
        ),
        is_changed(before, after[k]) ==> changed_count(before, after, n) >= 1,
        (forall|i: int| 0 <= i < n ==> is_changed(before, #[trigger] after[i])) ==> changed_count(
            before,
            after,
            n,
        ) == n,
        (forall|i: int| 0 <= i < n ==> !is_changed(before, #[trigger] after[i])) ==> changed_count(
            before,
            after,
            n,
        ) == 0,
    decreases n,
{
    lemma_all_changed(before, after, n);
    let rest = candidates_in(before, after, contents, n - 1);
    let all = candidates_in(before, after, contents, n);
    if k < n - 1 {
        law_every_changed_file_is_considered(before, after, contents, n - 1, k);
        let own = candidate_of(after[k].0@, after[k].1, contents[k])->0;
        if rest.contains(own) {
            let i = choose|i: int| 0 <= i < rest.len() && rest[i] == own;
            assert(all[i] == own);
        }
    } else if is_changed(before, after[k]) && candidate_of(after[k].0@, after[k].1, contents[k])
        is Some {
        assert(all[rest.len() as int] == candidate_of(after[k].0@, after[k].1, contents[k])->0);
    }
}

proof fn lemma_all_changed(
    before: Seq<(String, FileStamp)>,
    after: Seq<(String, FileStamp)>,
    n: int,
)
    requires
        0 <= n <= after.len(),
    ensures
        (forall|i: int| 0 <= i < n ==> is_changed(before, #[trigger] after[i])) ==> changed_count(
            before,
            after,
            n,
        ) == n,
        (forall|i: int| 0 <= i < n ==> !is_changed(before, #[trigger] after[i])) ==> changed_count(
            before,
            after,
            n,
        ) == 0,
    decreases n,
{
    if n > 0 {
        lemma_all_changed(before, after, n - 1);
        assert(is_changed(before, after[n - 1]) || !is_changed(before, after[n - 1]));
    }
}

} // verus!
