//! Which configurations and manifests are accepted, and what environment they make.
use vstd::prelude::*;

use crate::config::{
    binding_problem, bindings_problem, caches_problem, conflict_problem, config_problem,
    has_parent_component, id_before, images_problem, is_ecosystem_label, is_safe_executable,
    is_simple_container_path, is_variable_name, listed_before, outputs_problem,
    relative_path_problem, target_before, variable_problem, variables_problem, variant_problem,
    variants_problem, Config, DependencyVariantConfig, ProjectFacts, VariantFiles,
};
use crate::environment::{
    entries_added, is_ordered, keys_removed, lemma_same_key, manifest_environment,
    named_variables, umask_value, EnvironmentManifest,
};
use crate::model::ControlledEnvironmentView;
use crate::numbers::decimal_of;
use crate::ordering::{
    before, components_of, is_same_path, key_of, lemma_before_irreflexive,
    lemma_text_key_injective, Order,
};
use crate::string_map::{
    increasing, lemma_found, lemma_place, lemma_with_entry, lemma_without_entry, lists_key,
    place_of, value_at, with_entry, Entries, ListEntries,
};
use crate::text::is_blank;

verus! {

/// Whether a path stays below the root it is seen from: relative, and without a way up.
pub open spec fn stays_inside(path: Seq<char>) -> bool {
    !(path.len() > 0 && path[0] == '/') && forall|i: int|
        0 <= i < components_of(path).len() ==> #[trigger] components_of(path)[i] != seq!['.', '.']
}

/// A path is accepted exactly if it stays below the project root.
pub proof fn law_accepted_paths_stay_inside(field: Seq<char>, path: Seq<char>)
    ensures
        relative_path_problem(field, path) is None <==> stays_inside(path),
{
    if has_parent_component(path) {
        let i = choose|i: int|
            0 <= i < components_of(path).len() && #[trigger] components_of(path)[i] == seq![
                '.',
                '.',
            ];
        assert(components_of(path)[i] == seq!['.', '.']);
    }
}

proof fn lemma_outputs(outputs: Seq<String>, i: int)
    requires
        0 <= i <= outputs.len(),
    ensures
        outputs_problem(outputs, i) is None <==> forall|k: int|
            i <= k < outputs.len() ==> stays_inside((#[trigger] outputs[k])@),
    decreases outputs.len() - i,
{
    if i < outputs.len() {
        lemma_outputs(outputs, i + 1);
        law_accepted_paths_stay_inside("build.outputs"@, outputs[i]@);
        if outputs_problem(outputs, i) is None {
            assert forall|k: int| i <= k < outputs.len() implies stays_inside(
                (#[trigger] outputs[k])@,
            ) by {
                if k == i {
                }
            }
        }
    }
}

/// Whether alternative images are named, other than the image of the build and than each other.
pub open spec fn are_other_images(base: Seq<char>, images: Seq<String>) -> bool {
    &&& forall|k: int|
        0 <= k < images.len() ==> !is_blank((#[trigger] images[k])@) && images[k]@ != base
    &&& forall|j: int, k: int|
        0 <= j < k < images.len() ==> (#[trigger] images[j])@ != (#[trigger] images[k])@
}

proof fn lemma_images(base: Seq<char>, images: Seq<String>, i: int)
    requires
        0 <= i <= images.len(),
    ensures
        images_problem(base, images, i) is None <==> forall|k: int|
            i <= k < images.len() ==> !is_blank((#[trigger] images[k])@) && images[k]@ != base
                && !listed_before(images, k, images[k]@),
    decreases images.len() - i,
{
    if i < images.len() {
        lemma_images(base, images, i + 1);
    }
}

proof fn lemma_other_images(base: Seq<char>, images: Seq<String>)
    ensures
        images_problem(base, images, 0) is None <==> are_other_images(base, images),
{
    lemma_images(base, images, 0);
    if images_problem(base, images, 0) is None {
        assert forall|j: int, k: int| 0 <= j < k < images.len() implies (#[trigger] images[j])@ != (
        #[trigger] images[k])@ by {
            assert(!listed_before(images, k, images[k]@));
        }
    }
    if are_other_images(base, images) {
        assert forall|k: int| 0 <= k < images.len() implies !is_blank((#[trigger] images[k])@)
            && images[k]@ != base && !listed_before(images, k, images[k]@) by {}
    }
}

/// Whether every varied tool is a known one, with two different safe executables.
pub open spec fn are_tool_pairs(entries: ListEntries) -> bool {
    forall|k: int|
        0 <= k < entries.len() ==> {
            let key = (#[trigger] entries[k]).0;
            let values = entries[k].1;
            &&& key == "CC"@ || key == "CXX"@ || key == "LD"@ || key == "AR"@ || key == "RANLIB"@
                || key == "RUSTC"@
            &&& values.len() == 2
            &&& values[0] != values[1]
            &&& is_safe_executable(values[0])
            &&& is_safe_executable(values[1])
        }
}

proof fn lemma_bindings(entries: ListEntries, i: int)
    requires
        0 <= i <= entries.len(),
    ensures
        bindings_problem(entries, i) is None <==> forall|k: int|
            i <= k < entries.len() ==> binding_problem((#[trigger] entries[k]).0, entries[k].1)
                is None,
    decreases entries.len() - i,
{
    if i < entries.len() {
        lemma_bindings(entries, i + 1);
        if bindings_problem(entries, i) is None {
            assert forall|k: int| i <= k < entries.len() implies binding_problem(
                (#[trigger] entries[k]).0,
                entries[k].1,
            ) is None by {
                if k > i {
                }
            }
        }
    }
}

proof fn lemma_tool_pairs(entries: ListEntries)
    ensures
        bindings_problem(entries, 0) is None <==> are_tool_pairs(entries),
{
    lemma_bindings(entries, 0);
    if bindings_problem(entries, 0) is None {
        assert forall|k: int| 0 <= k < entries.len() implies ({
            let key = (#[trigger] entries[k]).0;
            let values = entries[k].1;
            &&& key == "CC"@ || key == "CXX"@ || key == "LD"@ || key == "AR"@ || key == "RANLIB"@
                || key == "RUSTC"@
            &&& values.len() == 2
            &&& values[0] != values[1]
            &&& is_safe_executable(values[0])
            &&& is_safe_executable(values[1])
        }) by {
            assert(binding_problem(entries[k].0, entries[k].1) is None);
        }
    }
}

/// Whether every varied variable has a proper name that no built-in experiment uses, and two different
/// values.
pub open spec fn are_variable_pairs(entries: ListEntries) -> bool {
    forall|k: int|
        0 <= k < entries.len() ==> {
            let key = (#[trigger] entries[k]).0;
            let values = entries[k].1;
            &&& is_variable_name(key)
            &&& key != "SOURCE_DATE_EPOCH"@ && key != "TZ"@ && key != "LANG"@ && key != "LC_ALL"@
                && key != "REPROBISECT_CPU_COUNT"@
            &&& values.len() == 2
            &&& values[0] != values[1]
        }
}

proof fn lemma_variables(entries: ListEntries, i: int)
    requires
        0 <= i <= entries.len(),
    ensures
        variables_problem(entries, i) is None <==> forall|k: int|
            i <= k < entries.len() ==> variable_problem((#[trigger] entries[k]).0, entries[k].1)
                is None,
    decreases entries.len() - i,
{
    if i < entries.len() {
        lemma_variables(entries, i + 1);
        if variables_problem(entries, i) is None {
            assert forall|k: int| i <= k < entries.len() implies variable_problem(
                (#[trigger] entries[k]).0,
                entries[k].1,
            ) is None by {
                if k > i {
                }
            }
        }
    }
}

proof fn lemma_variable_pairs(entries: ListEntries)
    ensures
        variables_problem(entries, 0) is None <==> are_variable_pairs(entries),
{
    lemma_variables(entries, 0);
    if variables_problem(entries, 0) is None {
        assert forall|k: int| 0 <= k < entries.len() implies ({
            let key = (#[trigger] entries[k]).0;
            let values = entries[k].1;
            &&& is_variable_name(key)
            &&& key != "SOURCE_DATE_EPOCH"@ && key != "TZ"@ && key != "LANG"@ && key != "LC_ALL"@
                && key != "REPROBISECT_CPU_COUNT"@
            &&& values.len() == 2
            &&& values[0] != values[1]
        }) by {
            assert(variable_problem(entries[k].0, entries[k].1) is None);
        }
    }
}

/// Whether dependency variants have names of their own, replace different files of the project by other
/// files of the project, and all of these are regular files.
pub open spec fn are_file_pairs(
    variants: Seq<DependencyVariantConfig>,
    files: Seq<VariantFiles>,
) -> bool {
    &&& forall|k: int|
        0 <= k < variants.len() ==> {
            let v = #[trigger] variants[k];
            &&& !is_blank(v.id@)
            &&& stays_inside(v.target@)
            &&& stays_inside(v.variant_file@)
            &&& !is_same_path(v.target@, v.variant_file@)
            &&& files[k].target is Regular
            &&& files[k].variant_file is Regular
        }
    &&& forall|j: int, k: int|
        0 <= j < k < variants.len() ==> (#[trigger] variants[j]).id@ != (#[trigger] variants[k]).id@
            && !is_same_path(variants[j].target@, variants[k].target@)
}

proof fn lemma_variants(
    variants: Seq<DependencyVariantConfig>,
    files: Seq<VariantFiles>,
    i: int,
)
    requires
        0 <= i <= variants.len(),
    ensures
        variants_problem(variants, files, i) is None <==> forall|k: int|
            i <= k < variants.len() ==> #[trigger] variant_problem(variants, files, k) is None,
    decreases variants.len() - i,
{
    if i < variants.len() {
        lemma_variants(variants, files, i + 1);
        if variants_problem(variants, files, i) is None {
            assert forall|k: int| i <= k < variants.len() implies #[trigger] variant_problem(
                variants,
                files,
                k,
            ) is None by {
                if k > i {
                }
            }
        }
    }
}

proof fn lemma_one_variant(
    variants: Seq<DependencyVariantConfig>,
    files: Seq<VariantFiles>,
    k: int,
)
    requires
        0 <= k < variants.len(),
    ensures
        variant_problem(variants, files, k) is None <==> {
            let v = variants[k];
            &&& !is_blank(v.id@)
            &&& stays_inside(v.target@)
            &&& stays_inside(v.variant_file@)
            &&& !is_same_path(v.target@, v.variant_file@)
            &&& files[k].target is Regular
            &&& files[k].variant_file is Regular
            &&& !id_before(variants, k, v.id@)
            &&& !target_before(variants, k, v.target@)
        },
{
    let v = variants[k];
    law_accepted_paths_stay_inside("experiments.dependency_variants.target"@, v.target@);
    law_accepted_paths_stay_inside(
        "experiments.dependency_variants.variant_file"@,
        v.variant_file@,
    );
}

proof fn lemma_file_pairs(variants: Seq<DependencyVariantConfig>, files: Seq<VariantFiles>)
    ensures
        variants_problem(variants, files, 0) is None <==> are_file_pairs(variants, files),
{
    lemma_variants(variants, files, 0);
    assert forall|k: int| 0 <= k < variants.len() implies (#[trigger] variant_problem(
        variants,
        files,
        k,
    ) is None <==> {
        let v = variants[k];
        &&& !is_blank(v.id@)
        &&& stays_inside(v.target@)
        &&& stays_inside(v.variant_file@)
        &&& !is_same_path(v.target@, v.variant_file@)
        &&& files[k].target is Regular
        &&& files[k].variant_file is Regular
        &&& !id_before(variants, k, v.id@)
        &&& !target_before(variants, k, v.target@)
    }) by {
        lemma_one_variant(variants, files, k);
    }
    if variants_problem(variants, files, 0) is None {
        assert forall|k: int| 0 <= k < variants.len() implies ({
            let v = #[trigger] variants[k];
            &&& !is_blank(v.id@)
            &&& stays_inside(v.target@)
            &&& stays_inside(v.variant_file@)
            &&& !is_same_path(v.target@, v.variant_file@)
            &&& files[k].target is Regular
            &&& files[k].variant_file is Regular
        }) by {
            assert(variant_problem(variants, files, k) is None);
        }
        assert forall|j: int, k: int| 0 <= j < k < variants.len() implies (
        #[trigger] variants[j]).id@ != (#[trigger] variants[k]).id@ && !is_same_path(
            variants[j].target@,
            variants[k].target@,
        ) by {
            assert(variant_problem(variants, files, k) is None);
        }
    }
    if are_file_pairs(variants, files) {
        assert forall|k: int| 0 <= k < variants.len() implies #[trigger] variant_problem(
            variants,
            files,
            k,
        ) is None by {
            let v = variants[k];
            assert(!is_blank(v.id@));
        }
    }
}

proof fn lemma_conflicts(bindings: ListEntries, variables: ListEntries, i: int)
    requires
        0 <= i <= bindings.len(),
    ensures
        conflict_problem(bindings, variables, i) is None <==> forall|k: int|
            i <= k < bindings.len() ==> !lists_key(variables, (#[trigger] bindings[k]).0),
    decreases bindings.len() - i,
{
    if i < bindings.len() {
        lemma_conflicts(bindings, variables, i + 1);
    }
}

proof fn lemma_caches(entries: Entries, i: int)
    requires
        0 <= i <= entries.len(),
    ensures
        caches_problem(entries, i) is None <==> forall|k: int|
            i <= k < entries.len() ==> is_ecosystem_label((#[trigger] entries[k]).0)
                && is_simple_container_path(entries[k].1),
    decreases entries.len() - i,
{
    if i < entries.len() {
        lemma_caches(entries, i + 1);
    }
}

/// A configuration is accepted exactly if it says how to build something, keeps every number within its
/// bounds, stays inside the project, and varies known tools, free variables, other images and other
/// files, each between two different values and through one experiment alone.
pub proof fn law_accepted_configurations_can_be_run(c: Config, facts: ProjectFacts)
    ensures
        config_problem(c, facts) is None <==> {
            let e = c.experiments;
            &&& !is_blank(c.build.image@)
            &&& c.build.command@.len() > 0
            &&& c.build.outputs@.len() > 0
            &&& forall|k: int|
                0 <= k < c.build.outputs@.len() ==> stays_inside((#[trigger] c.build.outputs@[k])@)
            &&& stays_inside(c.build.working_directory@)
            &&& 2 <= e.control_runs <= 32
            &&& 1 <= e.intervention_runs <= 32
            &&& e.confirmation_runs <= 1
            &&& 3 <= e.stochastic_runs <= 1024
            &&& 0 < e.stochastic_alpha_bits < 0x3ff0_0000_0000_0000
            &&& 2 <= e.interaction_runs <= 32
            &&& 2 <= e.comparison_runs <= 32
            &&& 2 <= e.comparison_subset_runs <= 32
            &&& 2 <= e.max_interaction_variables <= 32
            &&& c.build.timeout_seconds > 0
            &&& 65_536 <= c.build.log_capture_max_bytes <= 16_777_216
            &&& e.image_variants@.len() <= 4
            &&& are_other_images(c.build.image@, e.image_variants@)
            &&& are_tool_pairs(e.toolchain_variables.deep_view())
            &&& e.dependency_variants@.len() <= 8
            &&& are_file_pairs(e.dependency_variants@, facts.dependency_files@)
            &&& e.dependency_cache_paths.deep_view().len() <= 16
            &&& forall|k: int|
                0 <= k < e.dependency_cache_paths.deep_view().len() ==> is_ecosystem_label(
                    (#[trigger] e.dependency_cache_paths.deep_view()[k]).0,
                ) && is_simple_container_path(e.dependency_cache_paths.deep_view()[k].1)
            &&& 1_048_576 <= e.syscall_trace_max_bytes <= 536_870_912
            &&& 1 <= e.dependency_cache_max_files <= 100_000
            &&& 1_048_576 <= e.dependency_cache_max_bytes <= 4_294_967_296
            &&& forall|k: int|
                0 <= k < e.toolchain_variables.deep_view().len() ==> !lists_key(
                    e.environment_variables.deep_view(),
                    (#[trigger] e.toolchain_variables.deep_view()[k]).0,
                )
            &&& are_variable_pairs(e.environment_variables.deep_view())
            &&& facts.root_is_directory
        },
{
    let e = c.experiments;
    lemma_outputs(c.build.outputs@, 0);
    law_accepted_paths_stay_inside("build.working_directory"@, c.build.working_directory@);
    lemma_other_images(c.build.image@, e.image_variants@);
    lemma_tool_pairs(e.toolchain_variables.deep_view());
    lemma_file_pairs(e.dependency_variants@, facts.dependency_files@);
    lemma_caches(e.dependency_cache_paths.deep_view(), 0);
    lemma_conflicts(
        e.toolchain_variables.deep_view(),
        e.environment_variables.deep_view(),
        0,
    );
    lemma_variable_pairs(e.environment_variables.deep_view());
}

/// A mask that is written in three octal digits is read as that mask, with or without its sign; a mask
/// above 777 is refused.
pub proof fn law_masks_are_read_as_octal(digits: Seq<char>)
    requires
        digits.len() == 3,
        forall|i: int| 0 <= i < 3 ==> '0' <= #[trigger] digits[i] <= '7',
    ensures
        ({
            let value = 64 * (digits[0] as int - '0' as int) + 8 * (digits[1] as int - '0' as int)
                + (digits[2] as int - '0' as int);
            &&& umask_value(digits) == Ok::<u32, Seq<char>>(value as u32)
            &&& umask_value("0o"@ + digits) == Ok::<u32, Seq<char>>(value as u32)
            &&& 0 <= value <= 511
        }),
{
    reveal_strlit("0o");
    if crate::text::begins_with(digits, "0o"@) {
        assert(digits.subrange(0, 2)[1] == "0o"@[1]);
        assert(digits[1] == 'o');
    }
    let all = "0o"@ + digits;
    assert(all.subrange(0, 2) =~= "0o"@);
    assert(all.skip(2) =~= digits);
    let two = digits.drop_last();
    let one = two.drop_last();
    let none = one.drop_last();
    assert(none.len() == 0);
    assert(crate::numbers::value_of(none, 8) == 0);
    assert(one.last() == digits[0] && two.last() == digits[1] && digits.last() == digits[2]);
    assert(crate::numbers::value_of(one, 8) == digits[0] as int - '0' as int);
    assert(crate::numbers::value_of(two, 8) == 8 * (digits[0] as int - '0' as int) + (
    digits[1] as int - '0' as int));
    assert('0' <= digits[0] <= '7' && '0' <= digits[1] <= '7' && '0' <= digits[2] <= '7');
}

proof fn lemma_removed(entries: Entries, keys: Seq<String>, n: int, k: Seq<char>)
    requires
        increasing(Order::Text, entries),
        0 <= n <= keys.len(),
    ensures
        increasing(Order::Text, keys_removed(Order::Text, entries, keys, n)),
        value_at(Order::Text, keys_removed(Order::Text, entries, keys, n), k) == if exists|i: int|
            0 <= i < n && (#[trigger] keys[i])@ == k {
            None
        } else {
            value_at(Order::Text, entries, k)
        },
    decreases n,
{
    if n > 0 {
        lemma_removed(entries, keys, n - 1, k);
        let earlier = keys_removed(Order::Text, entries, keys, n - 1);
        lemma_without_entry(Order::Text, earlier, keys[n - 1]@);
        lemma_text_key_injective(keys[n - 1]@, k);
        if exists|i: int| 0 <= i < n - 1 && (#[trigger] keys[i])@ == k {
            let i = choose|i: int| 0 <= i < n - 1 && (#[trigger] keys[i])@ == k;
            assert(keys[i]@ == k);
        }
    }
}

proof fn lemma_added(order: Order, entries: Entries, added: Entries, n: int, k: Seq<char>)
    requires
        increasing(order, entries),
        increasing(order, added),
        0 <= n <= added.len(),
    ensures
        increasing(order, entries_added(order, entries, added, n)),
        (forall|i: int| 0 <= i < n ==> key_of(order, (#[trigger] added[i]).0) != key_of(order, k))
            ==> value_at(order, entries_added(order, entries, added, n), k) == value_at(
            order,
            entries,
            k,
        ),
        forall|i: int|
            0 <= i < n && key_of(order, (#[trigger] added[i]).0) == key_of(order, k) ==> value_at(
                order,
                entries_added(order, entries, added, n),
                k,
            ) == Some(added[i].1),
    decreases n,
{
    if n > 0 {
        lemma_added(order, entries, added, n - 1, k);
        let earlier = entries_added(order, entries, added, n - 1);
        let own = added[n - 1];
        lemma_with_entry(order, earlier, own.0, own.1);
        let after = entries_added(order, entries, added, n);
        if key_of(order, own.0) == key_of(order, k) {
            lemma_same_key(order, after, own.0, k);
        }
        assert forall|i: int| 0 <= i < n - 1 implies key_of(order, (#[trigger] added[i]).0)
            != key_of(order, own.0) by {
            assert(before(key_of(order, added[i].0), key_of(order, added[n - 1].0)));
            lemma_before_irreflexive(key_of(order, own.0));
        }
    }
}

pub proof fn lemma_all_added(order: Order, entries: Entries, added: Entries, k: Seq<char>)
    requires
        increasing(order, entries),
        increasing(order, added),
    ensures
        increasing(order, entries_added(order, entries, added, added.len() as int)),
        value_at(order, entries_added(order, entries, added, added.len() as int), k) == match value_at(
            order,
            added,
            k,
        ) {
            Some(value) => Some(value),
            None => value_at(order, entries, k),
        },
{
    lemma_added(order, entries, added, added.len() as int, k);
    if value_at(order, added, k) is Some {
        lemma_place(order, added, k);
        let at = place_of(order, added, k);
        assert(key_of(order, added[at].0) == key_of(order, k));
    } else {
        assert forall|i: int| 0 <= i < added.len() implies key_of(order, (#[trigger] added[i]).0)
            != key_of(order, k) by {
            if key_of(order, added[i].0) == key_of(order, k) {
                lemma_found(order, added, i, k);
            }
        }
    }
}

/// What a manifest says of a variable by name: the timestamp, the time zone and the locale.
pub open spec fn named_value(m: EnvironmentManifest, k: Seq<char>) -> Option<Seq<char>> {
    if k == "SOURCE_DATE_EPOCH"@ && m.source_date_epoch is Some {
        Some(decimal_of(m.source_date_epoch->0 as int))
    } else if k == "TZ"@ && m.timezone is Some {
        Some(m.timezone->0@)
    } else if (k == "LANG"@ || k == "LC_ALL"@) && m.locale is Some {
        Some(m.locale->0@)
    } else {
        None
    }
}

pub proof fn lemma_text_entry(entries: Entries, key: Seq<char>, value: Seq<char>, k: Seq<char>)
    requires
        increasing(Order::Text, entries),
    ensures
        increasing(Order::Text, with_entry(Order::Text, entries, key, value)),
        value_at(Order::Text, with_entry(Order::Text, entries, key, value), k) == if k == key {
            Some(value)
        } else {
            value_at(Order::Text, entries, k)
        },
{
    lemma_with_entry(Order::Text, entries, key, value);
    lemma_text_key_injective(k, key);
}

proof fn lemma_named(m: EnvironmentManifest, entries: Entries, k: Seq<char>)
    requires
        increasing(Order::Text, entries),
    ensures
        increasing(Order::Text, named_variables(m, entries)),
        value_at(Order::Text, named_variables(m, entries), k) == match named_value(m, k) {
            Some(value) => Some(value),
            None => value_at(Order::Text, entries, k),
        },
{
    reveal_strlit("SOURCE_DATE_EPOCH");
    reveal_strlit("TZ");
    reveal_strlit("LANG");
    reveal_strlit("LC_ALL");
    assert("SOURCE_DATE_EPOCH"@.len() == 17 && "TZ"@.len() == 2 && "LANG"@.len() == 4
        && "LC_ALL"@.len() == 6);
    let a = match m.source_date_epoch {
        Some(epoch) => with_entry(
            Order::Text,
            entries,
            "SOURCE_DATE_EPOCH"@,
            decimal_of(epoch as int),
        ),
        None => entries,
    };
    if let Some(epoch) = m.source_date_epoch {
        lemma_text_entry(entries, "SOURCE_DATE_EPOCH"@, decimal_of(epoch as int), k);
    }
    let b = match m.timezone {
        Some(timezone) => with_entry(Order::Text, a, "TZ"@, timezone@),
        None => a,
    };
    if let Some(timezone) = m.timezone {
        lemma_text_entry(a, "TZ"@, timezone@, k);
    }
    if let Some(locale) = m.locale {
        lemma_text_entry(b, "LANG"@, locale@, k);
        lemma_text_entry(with_entry(Order::Text, b, "LANG"@, locale@), "LC_ALL"@, locale@, k);
    }
}

/// A manifest makes an environment of the baseline: what it sets has the value it gives, what it unsets
/// is gone, and everything else is as in the baseline. A variable that is set under its own name
/// outweighs the named settings.
pub proof fn law_manifests_set_unset_and_keep(
    m: EnvironmentManifest,
    b: ControlledEnvironmentView,
    image: Seq<char>,
    k: Seq<char>,
)
    requires
        is_ordered(b),
        increasing(Order::Text, m.variables.deep_view()),
        increasing(Order::Text, m.toolchain.deep_view()),
        increasing(Order::Path, m.dependency_overrides.deep_view()),
    ensures
        ({
            let e = manifest_environment(m, b, image);
            let unset = exists|i: int|
                0 <= i < m.unset_variables@.len() && (#[trigger] m.unset_variables@[i])@ == k;
            let untooled = exists|i: int|
                0 <= i < m.unset_toolchain@.len() && (#[trigger] m.unset_toolchain@[i])@ == k;
            &&& value_at(Order::Text, e.environment, k) == if value_at(
                Order::Text,
                m.variables.deep_view(),
                k,
            ) is Some {
                value_at(Order::Text, m.variables.deep_view(), k)
            } else if unset {
                None
            } else if named_value(m, k) is Some {
                named_value(m, k)
            } else {
                value_at(Order::Text, b.environment, k)
            }
            &&& value_at(Order::Text, e.toolchain_bindings, k) == if value_at(
                Order::Text,
                m.toolchain.deep_view(),
                k,
            ) is Some {
                value_at(Order::Text, m.toolchain.deep_view(), k)
            } else if untooled {
                None
            } else {
                value_at(Order::Text, b.toolchain_bindings, k)
            }
            &&& value_at(Order::Path, e.source_file_overrides, k) == if value_at(
                Order::Path,
                m.dependency_overrides.deep_view(),
                k,
            ) is Some {
                value_at(Order::Path, m.dependency_overrides.deep_view(), k)
            } else {
                value_at(Order::Path, b.source_file_overrides, k)
            }
            &&& m.image is None ==> e.image_override == b.image_override
            &&& m.image matches Some(own) ==> e.image_override == if own@ == image {
                None
            } else {
                Some(own@)
            }
            &&& e.container_source_path == if m.source_path is Some {
                m.source_path->0@
            } else {
                b.container_source_path
            }
            &&& e.container_work_path == if m.build_path is Some {
                m.build_path->0@
            } else {
                b.container_work_path
            }
            &&& e.source_copy_order == if m.source_copy_order is Some {
                m.source_copy_order->0
            } else {
                b.source_copy_order
            }
            &&& e.hostname == if m.hostname is Some {
                Some(m.hostname->0@)
            } else {
                b.hostname
            }
            &&& e.cpu_count == if m.cpu_count is Some {
                m.cpu_count
            } else {
                b.cpu_count
            }
            &&& e.source_mtime_epoch == if m.source_mtime_epoch is Some {
                m.source_mtime_epoch
            } else {
                b.source_mtime_epoch
            }
            &&& m.umask is None ==> e.umask == b.umask
            &&& m.umask is Some && umask_value(m.umask->0@) is Ok ==> e.umask == Some(
                umask_value(m.umask->0@)->Ok_0,
            )
            &&& e.network_mode == if m.network_mode is Some {
                m.network_mode->0@
            } else {
                b.network_mode
            }
            &&& e.dependency_cache_paths == b.dependency_cache_paths && e.network_trace
                == b.network_trace
        }),
{
    let variables = keys_removed(
        Order::Text,
        named_variables(m, b.environment),
        m.unset_variables@,
        m.unset_variables@.len() as int,
    );
    let bindings = keys_removed(
        Order::Text,
        b.toolchain_bindings,
        m.unset_toolchain@,
        m.unset_toolchain@.len() as int,
    );
    lemma_named(m, b.environment, k);
    lemma_removed(
        named_variables(m, b.environment),
        m.unset_variables@,
        m.unset_variables@.len() as int,
        k,
    );
    lemma_all_added(Order::Text, variables, m.variables.deep_view(), k);
    lemma_removed(b.toolchain_bindings, m.unset_toolchain@, m.unset_toolchain@.len() as int, k);
    lemma_all_added(Order::Text, bindings, m.toolchain.deep_view(), k);
    lemma_all_added(
        Order::Path,
        b.source_file_overrides,
        m.dependency_overrides.deep_view(),
        k,
    );
}

} // verus!
