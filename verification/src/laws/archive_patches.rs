//! Where a project calls `tar`, and which of its files a patch for archives changes.
use vstd::prelude::*;

use crate::engine::patch::{
    archive_makefile, archive_patch, bare_word, cmake_archive, command_hint, literal_sites,
    meson_archive, mentions_tar, names_script, script_sites, scripts_of, shell_archive,
    target_text, unique_site, with_scripts, PatchFiles,
};
use crate::laws::configuration::{law_accepted_paths_stay_inside, stays_inside};
use crate::text::{match_count, occurs};

verus! {

/// How many sites there are before the candidate at `n`.
pub open spec fn sites_before(text: Seq<char>, candidates: Seq<(Seq<char>, Seq<char>)>, n: int) -> int
    decreases n,
{
    if n <= 0 {
        0
    } else {
        sites_before(text, candidates, n - 1) + match_count(text, candidates[n - 1].0) as int
    }
}

proof fn lemma_sites(text: Seq<char>, candidates: Seq<(Seq<char>, Seq<char>)>, n: int)
    requires
        0 <= n <= candidates.len(),
    ensures
        literal_sites(text, candidates, n).len() == sites_before(text, candidates, n),
        forall|i: int|
            0 <= i < literal_sites(text, candidates, n).len() ==> exists|k: int|
                0 <= k < n && #[trigger] candidates[k] == #[trigger] literal_sites(
                    text,
                    candidates,
                    n,
                )[i] && match_count(text, candidates[k].0) > 0,
    decreases n,
{
    if n > 0 {
        lemma_sites(text, candidates, n - 1);
        let before = literal_sites(text, candidates, n - 1);
        let all = literal_sites(text, candidates, n);
        assert forall|i: int| 0 <= i < all.len() implies exists|k: int|
            0 <= k < n && #[trigger] candidates[k] == #[trigger] all[i] && match_count(
                text,
                candidates[k].0,
            ) > 0 by {
            if i < before.len() {
                assert(all[i] == before[i]);
                let k = choose|k: int|
                    0 <= k < n - 1 && #[trigger] candidates[k] == before[i] && match_count(
                        text,
                        candidates[k].0,
                    ) > 0;
                assert(candidates[k] == all[i]);
            } else {
                assert(candidates[n - 1] == all[i]);
            }
        }
    }
}

proof fn lemma_sites_grow(text: Seq<char>, candidates: Seq<(Seq<char>, Seq<char>)>, j: int, n: int)
    requires
        0 <= j < n <= candidates.len(),
    ensures
        0 <= sites_before(text, candidates, j),
        sites_before(text, candidates, n) >= sites_before(text, candidates, j) + match_count(
            text,
            candidates[j].0,
        ),
    decreases n,
{
    lemma_sites_natural(text, candidates, j);
    if j < n - 1 {
        lemma_sites_grow(text, candidates, j, n - 1);
    }
}

proof fn lemma_sites_natural(text: Seq<char>, candidates: Seq<(Seq<char>, Seq<char>)>, n: int)
    ensures
        0 <= sites_before(text, candidates, n),
    decreases n,
{
    if n > 0 {
        lemma_sites_natural(text, candidates, n - 1);
    }
}

/// A site is taken only if it is one of the candidates, stands in the text once, and is the only one that
/// does; a candidate that stands in the text twice spoils every choice.
pub proof fn law_only_the_single_site_is_taken(
    text: Seq<char>,
    candidates: Seq<(Seq<char>, Seq<char>)>,
    j: int,
)
    requires
        0 <= j < candidates.len(),
    ensures
        unique_site(text, candidates) matches Some(site) ==> exists|k: int|
            0 <= k < candidates.len() && #[trigger] candidates[k] == site && match_count(
                text,
                site.0,
            ) == 1,
        match_count(text, candidates[j].0) > 1 ==> unique_site(text, candidates) is None,
        unique_site(text, candidates) is Some && match_count(text, candidates[j].0) > 0
            ==> unique_site(text, candidates) == Some(candidates[j]),
{
    let n = candidates.len() as int;
    lemma_sites(text, candidates, n);
    lemma_sites_grow(text, candidates, j, n);
    let sites = literal_sites(text, candidates, n);
    if sites.len() == 1 {
        let k = choose|k: int|
            0 <= k < n && #[trigger] candidates[k] == sites[0] && match_count(text, candidates[k].0)
                > 0;
        assert(candidates[k] == sites[0]);
        lemma_sites_grow(text, candidates, k, n);
        if match_count(text, candidates[j].0) > 0 && j != k {
            if j < k {
                lemma_sites_grow(text, candidates, j, k);
            } else {
                lemma_sites_grow(text, candidates, k, j);
            }
        }
    }
}

/// The patch for archives goes to the makefile, to CMake or to Meson where the build command calls them,
/// next to the script that it calls, and last to the file that there is.
pub proof fn law_archive_patches_follow_the_build_command(
    files: PatchFiles,
    command: Seq<Seq<char>>,
    id: Seq<char>,
    options: Seq<char>,
    body: Seq<char>,
)
    ensures
        ({
            let hint = command_hint(command);
            let make = archive_makefile(files, hint, id, body);
            let cmake = cmake_archive(files, id, options);
            let meson = meson_archive(files, id, options);
            let shell = shell_archive(
                files,
                scripts_of(command, command.len() as int),
                options,
            );
            let patch = archive_patch(files, command, id, options, body);
            &&& occurs(hint, "make"@) && make is Some ==> patch == make
            &&& make is None && occurs(hint, "cmake"@) && cmake is Some ==> patch == cmake
            &&& make is None && cmake is None && occurs(hint, "meson"@) && meson is Some ==> patch
                == meson
            &&& patch is None <==> make is None && cmake is None && meson is None && shell is None
            &&& patch is Some ==> patch == make || patch == cmake || patch == meson || patch
                == shell
            &&& !occurs(hint, "make"@) && !occurs(hint, "cmake"@) && !occurs(hint, "meson"@)
                && shell is Some ==> patch == shell
        }),
{
}

/// A makefile is patched for archives only if the build calls make and the makefile calls tar.
pub proof fn law_makefiles_need_a_call_of_tar(
    files: PatchFiles,
    hint: Seq<char>,
    id: Seq<char>,
    body: Seq<char>,
)
    ensures
        archive_makefile(files, hint, id, body) is Some ==> occurs(hint, "make"@) && target_text(
            files.makefile,
        ) is Some && mentions_tar(target_text(files.makefile)->0),
{
}

/// Scripts are patched only where exactly one line of all of them calls tar: that line is replaced, in its
/// own script.
pub proof fn law_scripts_need_a_single_call_of_tar(
    files: PatchFiles,
    paths: Seq<Seq<char>>,
    options: Seq<char>,
)
    ensures
        shell_archive(files, paths, options) is Some ==> (script_sites(
            files.scripts@,
            options,
            paths.len() as int,
        ) matches Some(sites) && sites.len() == 1 && shell_archive(files, paths, options)
            == crate::engine::patch::replace_patch(
            files.scripts@[sites[0].script],
            paths[sites[0].script],
            sites[0].line,
            sites[0].replacement,
        )),
{
}

proof fn lemma_scripts(scripts: Seq<Seq<char>>, words: Seq<Seq<char>>, n: int)
    requires
        0 <= n <= words.len(),
        forall|i: int| 0 <= i < scripts.len() ==> is_project_script(#[trigger] scripts[i]),
    ensures
        forall|i: int|
            0 <= i < with_scripts(scripts, words, n).len() ==> is_project_script(
                #[trigger] with_scripts(scripts, words, n)[i],
            ),
    decreases n,
{
    if n > 0 {
        lemma_scripts(scripts, words, n - 1);
        let word = bare_word(words[n - 1]);
        law_accepted_paths_stay_inside(""@, word);
        if word.len() >= 3 {
            assert(word.subrange(word.len() - 3, word.len() as int) =~= word.skip(word.len() - 3));
        }
        reveal_strlit(".sh");
        assert(".sh"@.len() == 3);
        let before = with_scripts(scripts, words, n - 1);
        let now = with_scripts(scripts, words, n);
        assert forall|i: int| 0 <= i < now.len() implies is_project_script(#[trigger] now[i]) by {
            if i < before.len() {
                assert(now[i] == before[i]);
            } else {
                assert(now[i] == word);
                assert(names_script(word));
            }
        }
    }
}

/// Whether a path is that of a shell script inside the project.
pub open spec fn is_project_script(path: Seq<char>) -> bool {
    path.len() >= 3 && path.skip(path.len() - 3) == ".sh"@ && stays_inside(path)
}

/// Only shell scripts inside the project are taken from a command.
pub proof fn law_scripts_lie_inside_the_project(words: Seq<Seq<char>>, i: int)
    requires
        0 <= i < with_scripts(Seq::empty(), words, words.len() as int).len(),
    ensures
        is_project_script(with_scripts(Seq::empty(), words, words.len() as int)[i]),
{
    lemma_scripts(Seq::empty(), words, words.len() as int);
}

} // verus!
