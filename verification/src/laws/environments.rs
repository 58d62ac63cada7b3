//! Which environment manifests are accepted, and how two environments are told apart.
use vstd::prelude::*;

use crate::config::{
    is_safe_executable, is_toolchain_key, is_variable_name, listed_before, VariantFiles,
};
use crate::environment::{
    container_path_problem, delta_if, environment_deltas, is_hostname, joint_entries,
    keyed_deltas, leading_deltas, manifest_problem, octal_mask, overrides_problem,
    set_toolchain_problem, set_variables_problem, setting_change, setting_deltas,
    setting_entries, setting_order, settings_problem, trailing_deltas, umask_value,
    unset_toolchain_problem, unset_variables_problem, EnvironmentChangeView,
    EnvironmentDeltaView, EnvironmentManifest, KeyedSetting,
};
use crate::laws::configuration::{law_accepted_paths_stay_inside, stays_inside};
use crate::model::{ControlledEnvironmentView, SourceCopyOrder};
use crate::numbers::decimal_of;
use crate::ordering::Order;
use crate::string_map::{value_at, Entries};
use crate::text::is_blank;

verus! {

/// Whether a path may stand in the options of a container.
pub open spec fn is_container_path(path: Seq<char>) -> bool {
    &&& path.len() > 0
    &&& path[0] == '/'
    &&& forall|i: int| 0 <= i < path.len() ==> #[trigger] path[i] != ',' && path[i] != '\0'
}

proof fn lemma_container_path(field: Seq<char>, path: Seq<char>)
    ensures
        container_path_problem(field, path) is None <==> is_container_path(path),
{
    if is_container_path(path) {
        assert(!crate::text::has_char(path, ','));
        assert(!crate::text::has_char(path, '\0'));
    } else if crate::ordering::is_rooted(path) {
        let i = choose|i: int|
            0 <= i < path.len() && !(#[trigger] path[i] != ',' && path[i] != '\0');
        assert(path[i] == ',' || path[i] == '\0');
    }
}

/// The settings of a manifest are accepted exactly if each one that is given can be used: a named image,
/// absolute paths, times that are not negative, a time zone and a locale that are not empty, a host name,
/// one to 1024 processors, an octal mask, and a network that is the default one or none.
pub proof fn law_usable_settings_are_accepted(m: EnvironmentManifest)
    ensures
        settings_problem(m) is None <==> {
            &&& m.image is Some ==> !is_blank(m.image->0@)
            &&& m.source_path is Some ==> is_container_path(m.source_path->0@)
            &&& m.build_path is Some ==> is_container_path(m.build_path->0@)
            &&& m.source_date_epoch is Some ==> m.source_date_epoch->0 >= 0
            &&& m.source_mtime_epoch is Some ==> m.source_mtime_epoch->0 >= 0
            &&& m.timezone is Some ==> m.timezone->0@.len() > 0
            &&& m.locale is Some ==> m.locale->0@.len() > 0
            &&& m.hostname is Some ==> is_hostname(m.hostname->0@)
            &&& m.cpu_count is Some ==> 1 <= m.cpu_count->0 <= 1024
            &&& m.umask is Some ==> umask_value(m.umask->0@) is Ok
            &&& m.network_mode is Some ==> m.network_mode->0@ == "default"@ || m.network_mode->0@
                == "none"@
        },
{
    if m.source_path is Some {
        lemma_container_path("source_path"@, m.source_path->0@);
    }
    if m.build_path is Some {
        lemma_container_path("build_path"@, m.build_path->0@);
    }
}

proof fn lemma_unset_variables(m: EnvironmentManifest, i: int)
    requires
        0 <= i <= m.unset_variables@.len(),
    ensures
        unset_variables_problem(m, i) is None <==> forall|k: int|
            i <= k < m.unset_variables@.len() ==> is_variable_name((#[trigger] m.unset_variables@[k])@)
                && !listed_before(m.unset_variables@, k, m.unset_variables@[k]@) && value_at(Order::Text, m.variables.deep_view(), m.unset_variables@[k]@) is None,
    decreases m.unset_variables@.len() - i,
{
    if i < m.unset_variables@.len() {
        lemma_unset_variables(m, i + 1);
    }
}

proof fn lemma_unset_tools(m: EnvironmentManifest, i: int)
    requires
        0 <= i <= m.unset_toolchain@.len(),
    ensures
        unset_toolchain_problem(m, i) is None <==> forall|k: int|
            i <= k < m.unset_toolchain@.len() ==> is_toolchain_key((#[trigger] m.unset_toolchain@[k])@)
                && !listed_before(m.unset_toolchain@, k, m.unset_toolchain@[k]@) && value_at(Order::Text, m.toolchain.deep_view(), m.unset_toolchain@[k]@) is None,
    decreases m.unset_toolchain@.len() - i,
{
    if i < m.unset_toolchain@.len() {
        lemma_unset_tools(m, i + 1);
    }
}

proof fn lemma_set_variables(entries: Entries, i: int)
    requires
        0 <= i <= entries.len(),
    ensures
        set_variables_problem(entries, i) is None <==> forall|k: int|
            i <= k < entries.len() ==> is_variable_name((#[trigger] entries[k]).0),
    decreases entries.len() - i,
{
    if i < entries.len() {
        lemma_set_variables(entries, i + 1);
    }
}

proof fn lemma_set_tools(entries: Entries, i: int)
    requires
        0 <= i <= entries.len(),
    ensures
        set_toolchain_problem(entries, i) is None <==> forall|k: int|
            i <= k < entries.len() ==> is_toolchain_key((#[trigger] entries[k]).0)
                && is_safe_executable(entries[k].1),
    decreases entries.len() - i,
{
    if i < entries.len() {
        lemma_set_tools(entries, i + 1);
    }
}

proof fn lemma_overrides(entries: Entries, files: Seq<VariantFiles>, i: int)
    requires
        0 <= i <= entries.len(),
    ensures
        overrides_problem(entries, files, i) is None <==> forall|k: int|
            i <= k < entries.len() ==> stays_inside((#[trigger] entries[k]).0) && stays_inside(
                entries[k].1,
            ) && files[k].target is Regular && files[k].variant_file is Regular,
    decreases entries.len() - i,
{
    if i < entries.len() {
        lemma_overrides(entries, files, i + 1);
        law_accepted_paths_stay_inside("dependency_overrides target"@, entries[i].0);
        law_accepted_paths_stay_inside("dependency_overrides variant"@, entries[i].1);
        if overrides_problem(entries, files, i) is None {
            assert forall|k: int| i <= k < entries.len() implies stays_inside(
                (#[trigger] entries[k]).0,
            ) && stays_inside(entries[k].1) && files[k].target is Regular && files[k].variant_file
                is Regular by {
                if k > i {
                }
            }
        }
    }
}

/// Whether no text is listed twice.
pub open spec fn are_distinct(list: Seq<String>) -> bool {
    forall|j: int, k: int|
        0 <= j < k < list.len() ==> (#[trigger] list[j])@ != (#[trigger] list[k])@
}

/// A manifest is accepted exactly if its settings can be used, what it unsets is named once and not set
/// too, its variables have proper names, its tools are known and safe, and its replaced files are regular
/// files of the project.
pub proof fn law_consistent_manifests_are_accepted(m: EnvironmentManifest, files: Seq<VariantFiles>)
    ensures
        manifest_problem(m, files) is None <==> {
            let variables = m.variables.deep_view();
            let tools = m.toolchain.deep_view();
            let overrides = m.dependency_overrides.deep_view();
            &&& settings_problem(m) is None
            &&& are_distinct(m.unset_variables@)
            &&& are_distinct(m.unset_toolchain@)
            &&& forall|k: int|
                0 <= k < m.unset_variables@.len() ==> is_variable_name(
                    (#[trigger] m.unset_variables@[k])@,
                ) && value_at(Order::Text, variables, m.unset_variables@[k]@) is None
            &&& forall|k: int|
                0 <= k < variables.len() ==> is_variable_name((#[trigger] variables[k]).0)
            &&& forall|k: int|
                0 <= k < m.unset_toolchain@.len() ==> is_toolchain_key(
                    (#[trigger] m.unset_toolchain@[k])@,
                ) && value_at(Order::Text, tools, m.unset_toolchain@[k]@) is None
            &&& forall|k: int|
                0 <= k < tools.len() ==> is_toolchain_key((#[trigger] tools[k]).0)
                    && is_safe_executable(tools[k].1)
            &&& forall|k: int|
                0 <= k < overrides.len() ==> stays_inside((#[trigger] overrides[k]).0)
                    && stays_inside(overrides[k].1) && files[k].target is Regular
                    && files[k].variant_file is Regular
        },
{
    lemma_unset_variables(m, 0);
    lemma_unset_tools(m, 0);
    lemma_set_variables(m.variables.deep_view(), 0);
    lemma_set_tools(m.toolchain.deep_view(), 0);
    lemma_overrides(m.dependency_overrides.deep_view(), files, 0);
    lemma_distinct(m.unset_variables@);
    lemma_distinct(m.unset_toolchain@);
}

proof fn lemma_distinct(list: Seq<String>)
    ensures
        are_distinct(list) <==> forall|k: int|
            0 <= k < list.len() ==> !listed_before(list, k, (#[trigger] list[k])@),
{
    if !are_distinct(list) {
        let (j, k) = choose|j: int, k: int|
            0 <= j < k < list.len() && (#[trigger] list[j])@ == (#[trigger] list[k])@;
        assert(listed_before(list, k, list[k]@));
    }
}

/// What the record of a change says of the values before and after it, and of the change itself: the
/// good environment is where it begins, the bad one where it leads.
pub open spec fn leads_from_to(
    d: EnvironmentDeltaView,
    good: ControlledEnvironmentView,
    bad: ControlledEnvironmentView,
) -> bool {
    let from = d.record.baseline_value;
    let to = d.record.variant_value;
    match d.change {
        EnvironmentChangeView::ImageOverride(v) => {
            &&& d.record.variable == "build_image"@
            &&& v == bad.image_override && v != good.image_override
            &&& v is Some ==> to == v->0
            &&& good.image_override is Some ==> from == good.image_override->0
        },
        EnvironmentChangeView::SourcePath(v) => {
            &&& d.record.variable == "source_path"@
            &&& v == to && to == bad.container_source_path && from == good.container_source_path
        },
        EnvironmentChangeView::BuildPath(v) => {
            &&& d.record.variable == "build_path"@
            &&& v == to && to == bad.container_work_path && from == good.container_work_path
        },
        EnvironmentChangeView::SourceCopyOrder(v) => {
            &&& d.record.variable == "directory_order"@
            &&& v == bad.source_copy_order && v != good.source_copy_order
            &&& v is Sorted ==> to == "sorted"@ && from == "reverse"@
            &&& v is Reverse ==> to == "reverse"@ && from == "sorted"@
        },
        EnvironmentChangeView::EnvironmentVariable(k, v) => {
            let was = value_at(Order::Text, good.environment, k);
            &&& d.record.variable == "environment:"@ + k
            &&& v == value_at(Order::Text, bad.environment, k) && v != was
            &&& to == (if v is Some {
                v->0
            } else {
                "<unset>"@
            })
            &&& from == (if was is Some {
                was->0
            } else {
                "<unset>"@
            })
        },
        EnvironmentChangeView::ToolchainBinding(k, v) => {
            let was = value_at(Order::Text, good.toolchain_bindings, k);
            &&& d.record.variable == "toolchain:"@ + k
            &&& v == value_at(Order::Text, bad.toolchain_bindings, k) && v != was
            &&& to == (if v is Some {
                v->0
            } else {
                "<unset>"@
            })
            &&& from == (if was is Some {
                was->0
            } else {
                "<unset>"@
            })
        },
        EnvironmentChangeView::SourceOverride(k, v) => {
            let was = value_at(Order::Path, good.source_file_overrides, k);
            &&& d.record.variable == "dependency:"@ + k
            &&& v == value_at(Order::Path, bad.source_file_overrides, k) && v != was
            &&& to == (if v is Some {
                v->0
            } else {
                "<original>"@
            })
            &&& from == (if was is Some {
                was->0
            } else {
                "<original>"@
            })
        },
        EnvironmentChangeView::Hostname(v) => {
            &&& d.record.variable == "hostname"@
            &&& v == bad.hostname && v != good.hostname
            &&& v is Some ==> to == v->0
            &&& good.hostname is Some ==> from == good.hostname->0
        },
        EnvironmentChangeView::CpuCount(v) => {
            &&& d.record.variable == "cpu_count"@
            &&& v == bad.cpu_count && v != good.cpu_count
            &&& v is Some ==> to == decimal_of(v->0 as int)
            &&& good.cpu_count is Some ==> from == decimal_of(good.cpu_count->0 as int)
        },
        EnvironmentChangeView::SourceMtime(v) => {
            &&& d.record.variable == "source_mtime"@
            &&& v == bad.source_mtime_epoch && v != good.source_mtime_epoch
            &&& v is Some ==> to == decimal_of(v->0 as int)
            &&& good.source_mtime_epoch is Some ==> from == decimal_of(
                good.source_mtime_epoch->0 as int,
            )
        },
        EnvironmentChangeView::Umask(v) => {
            &&& d.record.variable == "umask"@
            &&& v == bad.umask && v != good.umask
            &&& v is Some ==> to == octal_mask(v->0)
            &&& good.umask is Some ==> from == octal_mask(good.umask->0)
        },
        EnvironmentChangeView::NetworkMode(v) => {
            &&& d.record.variable == "network_access"@
            &&& v == to && to == bad.network_mode && from == good.network_mode && from != to
        },
    }
}

/// Whether all these changes lead from the good environment to the bad one.
#[verifier::opaque]
pub open spec fn all_lead(
    deltas: Seq<EnvironmentDeltaView>,
    good: ControlledEnvironmentView,
    bad: ControlledEnvironmentView,
) -> bool {
    forall|i: int| 0 <= i < deltas.len() ==> leads_from_to(#[trigger] deltas[i], good, bad)
}

proof fn lemma_all_joined(
    a: Seq<EnvironmentDeltaView>,
    b: Seq<EnvironmentDeltaView>,
    good: ControlledEnvironmentView,
    bad: ControlledEnvironmentView,
)
    requires
        all_lead(a, good, bad),
        all_lead(b, good, bad),
    ensures
        all_lead(a + b, good, bad),
{
    reveal(all_lead);
    assert forall|i: int| 0 <= i < (a + b).len() implies leads_from_to(
        #[trigger] (a + b)[i],
        good,
        bad,
    ) by {
        if i < a.len() {
            assert((a + b)[i] == a[i]);
        } else {
            assert((a + b)[i] == b[i - a.len()]);
        }
    }
}

proof fn lemma_one_leads(
    differs: bool,
    d: EnvironmentDeltaView,
    good: ControlledEnvironmentView,
    bad: ControlledEnvironmentView,
)
    requires
        differs ==> leads_from_to(d, good, bad),
    ensures
        all_lead(delta_if(differs, d), good, bad),
{
    reveal(all_lead);
}

proof fn lemma_keyed_lead(
    setting: KeyedSetting,
    good: ControlledEnvironmentView,
    bad: ControlledEnvironmentView,
    keys: Entries,
    n: int,
)
    requires
        0 <= n <= keys.len(),
    ensures
        all_lead(
            keyed_deltas(
                setting,
                setting_entries(setting, good),
                setting_entries(setting, bad),
                keys,
                n,
            ),
            good,
            bad,
        ),
    decreases n,
{
    if n > 0 {
        lemma_keyed_lead(setting, good, bad, keys, n - 1);
        let left = setting_entries(setting, good);
        let right = setting_entries(setting, bad);
        let key = keys[n - 1].0;
        let was = value_at(setting_order(setting), left, key);
        let is = value_at(setting_order(setting), right, key);
        let differs = !crate::environment::same_setting(setting, was, is);
        let d = crate::environment::delta_of(
            crate::environment::setting_prefix(setting) + key,
            crate::environment::shown(was, crate::environment::setting_absent(setting)),
            crate::environment::shown(is, crate::environment::setting_absent(setting)),
            setting_change(setting, key, is),
        );
        lemma_one_leads(differs, d, good, bad);
        lemma_all_joined(
            keyed_deltas(setting, left, right, keys, n - 1),
            delta_if(differs, d),
            good,
            bad,
        );
    } else {
        reveal(all_lead);
    }
}

/// Every change between two environments is told from the good value to the bad one, under the name of
/// the setting that it changes.
pub proof fn law_changes_lead_from_good_to_bad(
    good: ControlledEnvironmentView,
    bad: ControlledEnvironmentView,
    i: int,
)
    requires
        0 <= i < environment_deltas(good, bad).len(),
    ensures
        leads_from_to(environment_deltas(good, bad)[i], good, bad),
{
    let v = setting_deltas(KeyedSetting::Variable, good, bad);
    let t = setting_deltas(KeyedSetting::Binding, good, bad);
    let o = setting_deltas(KeyedSetting::Override, good, bad);
    let kv = joint_entries(KeyedSetting::Variable, good.environment, bad.environment);
    let kt = joint_entries(KeyedSetting::Binding, good.toolchain_bindings, bad.toolchain_bindings);
    let ko = joint_entries(
        KeyedSetting::Override,
        good.source_file_overrides,
        bad.source_file_overrides,
    );
    lemma_keyed_lead(KeyedSetting::Variable, good, bad, kv, kv.len() as int);
    lemma_keyed_lead(KeyedSetting::Binding, good, bad, kt, kt.len() as int);
    lemma_keyed_lead(KeyedSetting::Override, good, bad, ko, ko.len() as int);
    let lead = leading_deltas(good, bad);
    let trail = trailing_deltas(good, bad);
    lemma_leading(good, bad);
    lemma_trailing(good, bad);
    lemma_all_joined(lead, v, good, bad);
    lemma_all_joined(lead + v, t, good, bad);
    lemma_all_joined(lead + v + t, o, good, bad);
    lemma_all_joined(lead + v + t + o, trail, good, bad);
    reveal(all_lead);
}

proof fn lemma_leading(good: ControlledEnvironmentView, bad: ControlledEnvironmentView)
    ensures
        all_lead(leading_deltas(good, bad), good, bad),
{
    reveal(all_lead);
    let all = leading_deltas(good, bad);
    assert forall|i: int| 0 <= i < all.len() implies leads_from_to(#[trigger] all[i], good, bad) by {
    }
}

proof fn lemma_trailing(good: ControlledEnvironmentView, bad: ControlledEnvironmentView)
    ensures
        all_lead(trailing_deltas(good, bad), good, bad),
{
    reveal(all_lead);
    let all = trailing_deltas(good, bad);
    assert forall|i: int| 0 <= i < all.len() implies leads_from_to(#[trigger] all[i], good, bad) by {
    }
}

} // verus!
