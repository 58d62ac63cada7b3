//! What a project patch does to a file, where it goes and when it is made.
use vstd::prelude::*;
use vstd::utf8::{decode_utf8, encode_utf8, valid_utf8};

use crate::digest::digest_text;
use crate::engine::patch::{
    append_patch, bare_mark_text, candidate_mark_text, cargo_block_text, cargo_epoch_block_text,
    cargo_path, cmake_block_text, cmake_path, command_hint, create_patch, edited_text,
    epoch_patch, insert_patch, insertion_point, is_tar_site, line_end_from, make_block_text,
    make_epoch_block_text, makefile_patch, meson_block_text, meson_path, mode_body_text,
    mtime_body_text, mtime_options_text, patched, path_patch, plain_make_block_text,
    replace_patch, tar_line, tar_setting_text, tar_site_from, target_bytes, target_text,
    with_block, PatchFiles, PatchTarget, ProjectPatchOperationView, ProjectPatchView,
};
use crate::laws::wording::lemma_holds;
use crate::text::{char_count, debug_text, finishes_with, match_count, occurs, stands_at};

verus! {

/// Every block that goes into a file bears the mark of its candidate.
pub proof fn law_blocks_bear_the_mark_of_their_candidate(
    id: Seq<char>,
    kind: Seq<char>,
    gcc: Seq<char>,
    rust: Seq<char>,
    value: Seq<char>,
)
    ensures
        occurs(make_block_text(id, kind, gcc, rust), candidate_mark_text(id)),
        occurs(plain_make_block_text(id, gcc, rust), candidate_mark_text(id)),
        occurs(cmake_block_text(id, kind, gcc), candidate_mark_text(id)),
        occurs(meson_block_text(id, kind, gcc), candidate_mark_text(id)),
        occurs(cargo_block_text(id, kind, rust), candidate_mark_text(id)),
        occurs(cargo_epoch_block_text(id, value), candidate_mark_text(id)),
        occurs(make_epoch_block_text(id, value), candidate_mark_text(id)),
        occurs(mtime_body_text(id, value), candidate_mark_text(id)),
        occurs(mode_body_text(id), candidate_mark_text(id)),
        candidate_mark_text(id) == "# ReproBisect candidate: "@ + id,
        bare_mark_text(id) == "ReproBisect candidate: "@ + id,
{
    let none = Seq::<char>::empty();
    let mark = "# ReproBisect candidate: "@ + id;
    let n = mark.len() as int;
    assert(make_block_text(id, kind, gcc, rust).take(n) =~= mark);
    lemma_start(make_block_text(id, kind, gcc, rust), mark);
    assert(plain_make_block_text(id, gcc, rust).take(n) =~= mark);
    lemma_start(plain_make_block_text(id, gcc, rust), mark);
    assert(cmake_block_text(id, kind, gcc).take(n) =~= mark);
    lemma_start(cmake_block_text(id, kind, gcc), mark);
    assert(meson_block_text(id, kind, gcc).take(n) =~= mark);
    lemma_start(meson_block_text(id, kind, gcc), mark);
    assert(cargo_block_text(id, kind, rust).take(n) =~= mark);
    lemma_start(cargo_block_text(id, kind, rust), mark);
    assert(cargo_epoch_block_text(id, value).take(n) =~= mark);
    lemma_start(cargo_epoch_block_text(id, value), mark);
    assert(make_epoch_block_text(id, value).take(n) =~= mark);
    lemma_start(make_epoch_block_text(id, value), mark);
    assert(mtime_body_text(id, value).take(n) =~= mark);
    lemma_start(mtime_body_text(id, value), mark);
    assert(mode_body_text(id).take(n) =~= mark);
    lemma_start(mode_body_text(id), mark);
}

proof fn lemma_start(all: Seq<char>, wording: Seq<char>)
    requires
        wording.len() <= all.len(),
        all.take(wording.len() as int) == wording,
    ensures
        occurs(all, wording),
{
    assert(all.subrange(0, wording.len() as int) =~= wording);
    assert(stands_at(all, wording, 0));
}

/// The blocks against embedded paths hand the flags to the C and the C++ compiler, and to rustc where
/// they can.
pub proof fn law_path_blocks_hand_the_flags_to_all_compilers(
    id: Seq<char>,
    kind: Seq<char>,
    gcc: Seq<char>,
    rust: Seq<char>,
)
    ensures
        occurs(
            make_block_text(id, kind, gcc, rust),
            "REPROBISECT_PREFIX_MAP_FLAGS := "@ + gcc + "\nREPROBISECT_RUST_PREFIX_MAP_FLAGS := "@
                + rust + "\nCFLAGS += $(REPROBISECT_PREFIX_MAP_FLAGS)\nCXXFLAGS += $(REPROBISECT_PREFIX_MAP_FLAGS)\nRUSTFLAGS += $(REPROBISECT_RUST_PREFIX_MAP_FLAGS)\nexport CFLAGS CXXFLAGS RUSTFLAGS\n"@,
        ),
        occurs(
            plain_make_block_text(id, gcc, rust),
            "REPROBISECT_PREFIX_MAP_FLAGS := "@ + gcc + "\nREPROBISECT_RUST_PREFIX_MAP_FLAGS := "@
                + rust + "\nCFLAGS += $(REPROBISECT_PREFIX_MAP_FLAGS)\nCXXFLAGS += $(REPROBISECT_PREFIX_MAP_FLAGS)\nRUSTFLAGS += $(REPROBISECT_RUST_PREFIX_MAP_FLAGS)\nexport CFLAGS CXXFLAGS RUSTFLAGS\n"@,
        ),
        occurs(
            cmake_block_text(id, kind, gcc),
            "set(CMAKE_C_FLAGS \"${CMAKE_C_FLAGS} "@ + gcc + "\")\n"@,
        ),
        occurs(
            cmake_block_text(id, kind, gcc),
            "set(CMAKE_CXX_FLAGS \"${CMAKE_CXX_FLAGS} "@ + gcc + "\")\n"@,
        ),
        occurs(
            meson_block_text(id, kind, gcc),
            "add_project_arguments("@ + gcc + ", language : 'c')\n"@,
        ),
        occurs(
            meson_block_text(id, kind, gcc),
            "add_project_arguments("@ + gcc + ", language : 'cpp')\n"@,
        ),
        occurs(cargo_block_text(id, kind, rust), "[build]\nrustflags = [\n"@ + rust + "\n]\n"@),
{
    let none = Seq::<char>::empty();
    let mark = "# ReproBisect candidate: "@ + id;
    let head = mark + "\n# Normalize embedded "@ + kind;
    let tail =
        "\nCFLAGS += $(REPROBISECT_PREFIX_MAP_FLAGS)\nCXXFLAGS += $(REPROBISECT_PREFIX_MAP_FLAGS)\nRUSTFLAGS += $(REPROBISECT_RUST_PREFIX_MAP_FLAGS)\nexport CFLAGS CXXFLAGS RUSTFLAGS\n"@;
    let flags = "REPROBISECT_PREFIX_MAP_FLAGS := "@ + gcc
        + "\nREPROBISECT_RUST_PREFIX_MAP_FLAGS := "@ + rust + tail;
    reveal_strlit(" paths\nREPROBISECT_PREFIX_MAP_FLAGS := ");
    reveal_strlit("\nREPROBISECT_PREFIX_MAP_FLAGS := ");
    reveal_strlit("REPROBISECT_PREFIX_MAP_FLAGS := ");
    reveal_strlit(" paths\n");
    reveal_strlit("\n");
    assert(" paths\nREPROBISECT_PREFIX_MAP_FLAGS := "@ =~= " paths\n"@
        + "REPROBISECT_PREFIX_MAP_FLAGS := "@);
    assert("\nREPROBISECT_PREFIX_MAP_FLAGS := "@ =~= "\n"@ + "REPROBISECT_PREFIX_MAP_FLAGS := "@);
    lemma_holds(make_block_text(id, kind, gcc, rust), head + " paths\n"@, flags, none);
    lemma_holds(plain_make_block_text(id, gcc, rust), mark + "\n"@, flags, none);
    lemma_cmake_block(id, kind, gcc);
    lemma_meson_block(id, kind, gcc);
    reveal_strlit(" paths\n[build]\nrustflags = [\n");
    reveal_strlit("[build]\nrustflags = [\n");
    assert(" paths\n[build]\nrustflags = [\n"@ =~= " paths\n"@ + "[build]\nrustflags = [\n"@);
    lemma_holds(
        cargo_block_text(id, kind, rust),
        head + " paths\n"@,
        "[build]\nrustflags = [\n"@ + rust + "\n]\n"@,
        none,
    );
}

proof fn lemma_cmake_block(id: Seq<char>, kind: Seq<char>, gcc: Seq<char>)
    ensures
        occurs(
            cmake_block_text(id, kind, gcc),
            "set(CMAKE_C_FLAGS \"${CMAKE_C_FLAGS} "@ + gcc + "\")\n"@,
        ),
        occurs(
            cmake_block_text(id, kind, gcc),
            "set(CMAKE_CXX_FLAGS \"${CMAKE_CXX_FLAGS} "@ + gcc + "\")\n"@,
        ),
{
    let none = Seq::<char>::empty();
    let head = "# ReproBisect candidate: "@ + id + "\n# Normalize embedded "@ + kind;
    let line = " paths for C/C++ targets\n"@;
    let c = "set(CMAKE_C_FLAGS \"${CMAKE_C_FLAGS} "@;
    let cxx = "set(CMAKE_CXX_FLAGS \"${CMAKE_CXX_FLAGS} "@;
    let end = "\")\n"@;
    reveal_strlit(" paths for C/C++ targets\nset(CMAKE_C_FLAGS \"${CMAKE_C_FLAGS} ");
    reveal_strlit(" paths for C/C++ targets\n");
    reveal_strlit("set(CMAKE_C_FLAGS \"${CMAKE_C_FLAGS} ");
    reveal_strlit("\")\nset(CMAKE_CXX_FLAGS \"${CMAKE_CXX_FLAGS} ");
    reveal_strlit("set(CMAKE_CXX_FLAGS \"${CMAKE_CXX_FLAGS} ");
    reveal_strlit("\")\n");
    assert(" paths for C/C++ targets\nset(CMAKE_C_FLAGS \"${CMAKE_C_FLAGS} "@ =~= line + c);
    assert("\")\nset(CMAKE_CXX_FLAGS \"${CMAKE_CXX_FLAGS} "@ =~= end + cxx);
    let all = cmake_block_text(id, kind, gcc);
    lemma_holds(all, head + line, c + gcc + end, cxx + gcc + end);
    lemma_holds(all, head + line + (c + gcc + end), cxx + gcc + end, none);
}

proof fn lemma_meson_block(id: Seq<char>, kind: Seq<char>, gcc: Seq<char>)
    ensures
        occurs(
            meson_block_text(id, kind, gcc),
            "add_project_arguments("@ + gcc + ", language : 'c')\n"@,
        ),
        occurs(
            meson_block_text(id, kind, gcc),
            "add_project_arguments("@ + gcc + ", language : 'cpp')\n"@,
        ),
{
    let none = Seq::<char>::empty();
    let head = "# ReproBisect candidate: "@ + id + "\n# Normalize embedded "@ + kind;
    let line = " paths before targets are declared\n"@;
    let call = "add_project_arguments("@;
    let c = ", language : 'c')\n"@;
    let cpp = ", language : 'cpp')\n"@;
    reveal_strlit(" paths before targets are declared\nadd_project_arguments(");
    reveal_strlit(" paths before targets are declared\n");
    reveal_strlit("add_project_arguments(");
    reveal_strlit(", language : 'c')\nadd_project_arguments(");
    reveal_strlit(", language : 'c')\n");
    assert(" paths before targets are declared\nadd_project_arguments("@ =~= line + call);
    assert(", language : 'c')\nadd_project_arguments("@ =~= c + call);
    let all = meson_block_text(id, kind, gcc);
    lemma_holds(all, head + line, call + gcc + c, call + gcc + cpp);
    lemma_holds(all, head + line + (call + gcc + c), call + gcc + cpp, none);
}

/// The blocks against timestamps and modes pin the value that they are given.
pub proof fn law_pinning_blocks_hold_their_value(id: Seq<char>, value: Seq<char>)
    ensures
        occurs(
            make_epoch_block_text(id, value),
            "override SOURCE_DATE_EPOCH := "@ + value + "\nexport SOURCE_DATE_EPOCH\n"@,
        ),
        occurs(
            cargo_epoch_block_text(id, value),
            "[env]\nSOURCE_DATE_EPOCH = { value = "@ + debug_text(value) + ", force = true }\n"@,
        ),
        occurs(
            mtime_body_text(id, value),
            "REPROBISECT_ARCHIVE_EPOCH ?= "@ + value
                + "\nTAR_OPTIONS := --mtime=@$(REPROBISECT_ARCHIVE_EPOCH) --clamp-mtime $(TAR_OPTIONS)\nexport TAR_OPTIONS\n"@,
        ),
        mtime_options_text(value) == "--mtime=@"@ + value + " --clamp-mtime"@,
        tar_setting_text(value) == "TAR_OPTIONS='"@ + value + "' "@,
{
    let none = Seq::<char>::empty();
    let mark = "# ReproBisect candidate: "@ + id;
    reveal_strlit("\n# Pin deterministic build epoch\noverride SOURCE_DATE_EPOCH := ");
    reveal_strlit("\n# Pin deterministic build epoch\n");
    reveal_strlit("override SOURCE_DATE_EPOCH := ");
    assert("\n# Pin deterministic build epoch\noverride SOURCE_DATE_EPOCH := "@
        =~= "\n# Pin deterministic build epoch\n"@ + "override SOURCE_DATE_EPOCH := "@);
    lemma_holds(
        make_epoch_block_text(id, value),
        mark + "\n# Pin deterministic build epoch\n"@,
        "override SOURCE_DATE_EPOCH := "@ + value + "\nexport SOURCE_DATE_EPOCH\n"@,
        none,
    );
    reveal_strlit("\n[env]\nSOURCE_DATE_EPOCH = { value = ");
    reveal_strlit("[env]\nSOURCE_DATE_EPOCH = { value = ");
    reveal_strlit("\n");
    assert("\n[env]\nSOURCE_DATE_EPOCH = { value = "@ =~= "\n"@
        + "[env]\nSOURCE_DATE_EPOCH = { value = "@);
    lemma_holds(
        cargo_epoch_block_text(id, value),
        mark + "\n"@,
        "[env]\nSOURCE_DATE_EPOCH = { value = "@ + debug_text(value) + ", force = true }\n"@,
        none,
    );
    reveal_strlit("\n# Normalize GNU tar member timestamps.\nREPROBISECT_ARCHIVE_EPOCH ?= ");
    reveal_strlit("\n# Normalize GNU tar member timestamps.\n");
    reveal_strlit("REPROBISECT_ARCHIVE_EPOCH ?= ");
    assert("\n# Normalize GNU tar member timestamps.\nREPROBISECT_ARCHIVE_EPOCH ?= "@
        =~= "\n# Normalize GNU tar member timestamps.\n"@ + "REPROBISECT_ARCHIVE_EPOCH ?= "@);
    lemma_holds(
        mtime_body_text(id, value),
        mark + "\n# Normalize GNU tar member timestamps.\n"@,
        "REPROBISECT_ARCHIVE_EPOCH ?= "@ + value
            + "\nTAR_OPTIONS := --mtime=@$(REPROBISECT_ARCHIVE_EPOCH) --clamp-mtime $(TAR_OPTIONS)\nexport TAR_OPTIONS\n"@,
        none,
    );
}

proof fn lemma_encode_sum(a: Seq<char>, b: Seq<char>)
    ensures
        encode_utf8(a + b) == encode_utf8(a) + encode_utf8(b),
    decreases a.len(),
{
    if a.len() == 0 {
        assert(a + b =~= b);
        assert(encode_utf8(a) + encode_utf8(b) =~= encode_utf8(b));
    } else {
        let rest = a.drop_first();
        lemma_encode_sum(rest, b);
        assert((a + b).drop_first() =~= rest + b);
        assert((a + b)[0] == a[0]);
        assert(encode_utf8(a + b) =~= encode_utf8(a) + encode_utf8(b));
    }
}

/// A patch that appends is made exactly for a text without the mark of the candidate. It holds for the
/// file as it is, and applying it puts the block behind the file, after an empty line.
pub proof fn law_appending_puts_the_block_behind_the_file(
    root: Seq<char>,
    target: PatchTarget,
    path: Seq<char>,
    id: Seq<char>,
    block: Seq<char>,
)
    ensures
        append_patch(target, path, id, block) is Some <==> target is File && valid_utf8(
            target_bytes(target),
        ) && !occurs(decode_utf8(target_bytes(target)), "# ReproBisect candidate: "@ + id),
        append_patch(target, path, id, block) matches Some(patch) ==> {
            let text = decode_utf8(target_bytes(target));
            &&& patch.path == path
            &&& patch.expected_sha256 == Some(digest_text(target_bytes(target)))
            &&& patched(root, patch, target) == Ok::<Seq<u8>, Seq<char>>(
                encode_utf8(
                    text + (if finishes_with(text, "\n"@) {
                        "\n"@
                    } else {
                        "\n\n"@
                    }) + block,
                ),
            )
        },
{
    broadcast use vstd::utf8::group_utf8_lib;

    if let Some(patch) = append_patch(target, path, id, block) {
        let text = decode_utf8(target_bytes(target));
        let gap = if finishes_with(text, "\n"@) {
            "\n"@
        } else {
            "\n\n"@
        };
        assert(encode_utf8(text) == target_bytes(target));
        lemma_encode_sum(text, gap + block);
        assert(text + gap + block =~= text + (gap + block));
    }
}

/// A file that bears the mark of a candidate is not patched for it again.
pub proof fn law_a_patched_file_is_not_patched_again(
    target: PatchTarget,
    path: Seq<char>,
    id: Seq<char>,
    before: Seq<char>,
    block: Seq<char>,
    after: Seq<char>,
    line: usize,
)
    requires
        target_text(target) == Some(before + block + after),
        occurs(block, "# ReproBisect candidate: "@ + id),
    ensures
        append_patch(target, path, id, block) is None,
        insert_patch(target, path, id, line, block) is None,
{
    let mark = "# ReproBisect candidate: "@ + id;
    let all = before + block + after;
    let at = choose|at: int| #[trigger] stands_at(block, mark, at);
    assert(all.subrange(before.len() + at, before.len() + at + mark.len()) =~= block.subrange(
        at,
        at + mark.len(),
    ));
    assert(stands_at(all, mark, before.len() + at));
}

proof fn lemma_line_end(text: Seq<char>, i: int, left: int)
    requires
        0 <= i <= text.len(),
        left >= 1,
    ensures
        match line_end_from(text, i, left) {
            Some(at) => {
                &&& i <= at <= text.len()
                &&& (at > i && text[at - 1] == '\n' && char_count(text, '\n', at) == char_count(
                    text,
                    '\n',
                    i,
                ) + left) || (at == text.len() && char_count(text, '\n', at) == char_count(
                    text,
                    '\n',
                    i,
                ) + left - 1)
            },
            None => char_count(text, '\n', text.len() as int) < char_count(text, '\n', i) + left,
        },
    decreases text.len() - i,
{
    if i < text.len() {
        if text[i] == '\n' {
            if left > 1 {
                lemma_line_end(text, i + 1, left - 1);
            }
        } else {
            lemma_line_end(text, i + 1, left);
        }
    }
}

/// An insertion after a line goes behind exactly so many line ends, or to the end of a last line that
/// has none.
pub proof fn law_insertions_go_behind_their_line(text: Seq<char>, line: int)
    requires
        line >= 1,
    ensures
        match insertion_point(text, line) {
            Some(at) => 0 <= at <= text.len() && ((at > 0 && text[at - 1] == '\n' && char_count(
                text,
                '\n',
                at,
            ) == line) || (at == text.len() && char_count(text, '\n', at) == line - 1)),
            None => text.len() == 0 || char_count(text, '\n', text.len() as int) < line,
        },
        insertion_point(text, 0) == Some(0int),
{
    lemma_line_end(text, 0, line);
}

/// An inserted block stands between what was before and what was behind, which stay as they were.
pub proof fn law_insertions_keep_the_rest(text: Seq<char>, at: int, block: Seq<char>)
    requires
        0 <= at <= text.len(),
    ensures
        with_block(text, at, block) == text.take(at) + (if at == text.len() && !finishes_with(
            text,
            "\n"@,
        ) {
            "\n"@
        } else {
            Seq::empty()
        }) + block + text.skip(at),
{
    let none = Seq::<char>::empty();
    assert(text.take(at) + none =~= text.take(at));
}

/// A patch that inserts, replaces or creates holds for the file as it is and says what it was made for.
pub proof fn law_patches_say_what_they_were_made_for(
    target: PatchTarget,
    path: Seq<char>,
    id: Seq<char>,
    line: usize,
    block: Seq<char>,
    expected: Seq<char>,
    replacement: Seq<char>,
    absent: bool,
)
    ensures
        insert_patch(target, path, id, line, block) matches Some(p) ==> p.path == path
            && p.expected_sha256 == Some(digest_text(target_bytes(target))) && p.operation == (
        ProjectPatchOperationView::InsertAfterLine { line_number: line, text: block }),
        replace_patch(target, path, expected, replacement) matches Some(p) ==> p.path == path
            && p.expected_sha256 == Some(digest_text(target_bytes(target))) && p.operation == (
        ProjectPatchOperationView::ReplaceText { expected, replacement }) && expected.len() > 0
            && expected != replacement && match_count(
            decode_utf8(target_bytes(target)),
            expected,
        ) == 1,
        create_patch(absent, path, block) is Some <==> absent,
        create_patch(absent, path, block) matches Some(p) ==> p.path == path && p.expected_sha256
            is None && p.operation == (ProjectPatchOperationView::Create { text: block }),
{
}

/// A patch against paths goes to the file of the build system that the build command names, if that can
/// be patched: Cargo before Meson before CMake before Make.
pub proof fn law_path_patches_follow_the_build_command(
    files: PatchFiles,
    command: Seq<Seq<char>>,
    id: Seq<char>,
    kind: Seq<char>,
    gcc: Seq<char>,
    rust: Seq<char>,
)
    ensures
        ({
            let hint = command_hint(command);
            let p = path_patch(files, command, id, kind, gcc, rust);
            let cargo = cargo_path(files, id, kind, rust);
            let meson = meson_path(files, id, kind, gcc);
            let cmake = cmake_path(files, id, kind, gcc);
            let make = makefile_patch(files, id, make_block_text(id, kind, gcc, rust));
            &&& occurs(hint, "cargo"@) && cargo is Some ==> p == cargo
            &&& !occurs(hint, "cargo"@) && occurs(hint, "meson"@) && meson is Some ==> p == meson
            &&& !occurs(hint, "cargo"@) && !occurs(hint, "meson"@) && occurs(hint, "cmake"@)
                && cmake is Some ==> p == cmake
            &&& !occurs(hint, "cargo"@) && !occurs(hint, "meson"@) && !occurs(hint, "cmake"@)
                && occurs(hint, "make"@) && make is Some ==> p == make
            &&& p is Some ==> p->0.path == ".cargo/config.toml"@ || p->0.path == "meson.build"@
                || p->0.path == "CMakeLists.txt"@ || p->0.path == "Makefile"@
            &&& p is None ==> cargo is None && meson is None && cmake is None && make is None
        }),
{
}

/// A patch that pins the timestamp goes to the configuration of Cargo where the build command names it
/// and none is there, and else to the Makefile.
pub proof fn law_timestamp_patches_follow_the_build_command(
    files: PatchFiles,
    command: Seq<Seq<char>>,
    id: Seq<char>,
    value: Seq<char>,
)
    ensures
        epoch_patch(files, command, id, value) matches Some(p) ==> {
            ||| p.path == ".cargo/config.toml"@ && occurs(command_hint(command), "cargo"@)
                && files.cargo_manifest && p.operation == (ProjectPatchOperationView::Create {
                text: cargo_epoch_block_text(id, value),
            })
            ||| p.path == "Makefile"@ && p.operation is Append
        },
{
}

proof fn lemma_tar_site(line: Seq<char>, from: int)
    requires
        0 <= from,
    ensures
        match tar_site_from(line, from) {
            Some(p) => from <= p < line.len() && is_tar_site(line, p) && forall|k: int|
                from <= k < p ==> !#[trigger] is_tar_site(line, k),
            None => forall|k: int| from <= k < line.len() ==> !#[trigger] is_tar_site(line, k),
        },
    decreases line.len() - from,
{
    if from < line.len() && !is_tar_site(line, from) {
        lemma_tar_site(line, from + 1);
    }
}

/// Options for tar are put in front of the only call of tar on a line, and nothing else is changed. A
/// line with no call, or with several, is left alone.
pub proof fn law_tar_options_go_in_front_of_the_only_call(line: Seq<char>, options: Seq<char>, p: int)
    requires
        0 <= p < line.len(),
        is_tar_site(line, p),
    ensures
        ({
            let alone = forall|k: int|
                0 <= k < line.len() && k != p ==> !#[trigger] is_tar_site(line, k);
            &&& alone ==> tar_line(line, options) == Some(
                line.take(p) + "TAR_OPTIONS='"@ + options + "' "@ + line.skip(p),
            )
            &&& !alone ==> tar_line(line, options) is None
        }),
{
    lemma_tar_site(line, 0);
    let q = tar_site_from(line, 0)->0;
    lemma_tar_site(line, q + 1);
    assert(line.take(p) + ("TAR_OPTIONS='"@ + options + "' "@) + line.skip(p) =~= line.take(p)
        + "TAR_OPTIONS='"@ + options + "' "@ + line.skip(p));
}

/// A call of tar is the word at the beginning of a command, or its full path.
pub proof fn law_tar_is_called_at_the_beginning_of_a_command(line: Seq<char>, p: int)
    ensures
        is_tar_site(line, p) ==> stands_at(line, "tar "@, p) || stands_at(
            line,
            "/usr/bin/tar "@,
            p,
        ),
        stands_at(line, "/usr/bin/tar "@, p) ==> is_tar_site(line, p),
        stands_at(line, "tar "@, 0) ==> is_tar_site(line, 0),
        p > 0 && stands_at(line, "tar "@, p) && (line[p - 1] == ' ' || line[p - 1] == ';' || line[p
            - 1] == '|' || line[p - 1] == '&' || line[p - 1] == '(') ==> is_tar_site(line, p),
        p > 0 && stands_at(line, "tar "@, p) && ('a' <= line[p - 1] <= 'z' || line[p - 1] == '/'
            || line[p - 1] == '-') && !stands_at(line, "/usr/bin/tar "@, p) ==> !is_tar_site(
            line,
            p,
        ),
{
}

/// What an edit makes of a text: the appended block behind it, the inserted one at its place, the
/// replaced text at its only site.
pub proof fn law_edits_do_what_the_operation_says(patch: ProjectPatchView, text: Seq<char>)
    ensures
        match patch.operation {
            ProjectPatchOperationView::Append { text: block } => edited_text(patch, text) == Ok::<
                Seq<char>,
                Seq<char>,
            >(text + block),
            ProjectPatchOperationView::ReplaceText { expected, replacement } => (edited_text(
                patch,
                text,
            ) is Ok <==> match_count(text, expected) == 1),
            ProjectPatchOperationView::InsertAfterLine { line_number, text: block } => (edited_text(
                patch,
                text,
            ) is Ok <==> insertion_point(text, line_number as int) is Some),
            ProjectPatchOperationView::Create { text: block } => edited_text(patch, text) == Ok::<
                Seq<char>,
                Seq<char>,
            >(block),
        },
{
}

} // verus!
