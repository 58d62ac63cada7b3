//! What the controls run in, and which experiments a configuration asks for.
use vstd::prelude::*;

use crate::config::{Config, DependencyVariantConfig};
use crate::engine::interventions::{
    baseline_of, build_path_plan, cpu_plan, date_epoch_plan, dependency_plans, hostname_plan,
    image_plans, locale_plan, mtime_plan, network_plan, order_plan, own_overrides,
    pinned_variables, plan_if, plans_of, source_path_plan, timezone_plan, toolchain_plans,
    umask_plan, variable_plans, with_baselines, PlannedInterventionView,
};
use crate::laws::configuration::lemma_text_entry;
use crate::model::{ControlledEnvironmentView, InterventionKind};
use crate::numbers::decimal_of;
use crate::ordering::{is_same_path, key_of, Order};
use crate::string_map::{increasing, lemma_with_entry, value_at, with_entry, Entries, ListEntries};

verus! {

proof fn lemma_baselines(entries: Entries, lists: ListEntries, n: int, k: Seq<char>)
    requires
        increasing(Order::Text, entries),
        0 <= n <= lists.len(),
    ensures
        increasing(Order::Text, with_baselines(entries, lists, n)),
        (forall|i: int| 0 <= i < n ==> (#[trigger] lists[i]).0 != k) ==> value_at(
            Order::Text,
            with_baselines(entries, lists, n),
            k,
        ) == value_at(Order::Text, entries, k),
        forall|i: int|
            0 <= i < n && (#[trigger] lists[i]).0 == k && (forall|j: int|
                i < j < n ==> (#[trigger] lists[j]).0 != k) ==> value_at(
                Order::Text,
                with_baselines(entries, lists, n),
                k,
            ) == Some(lists[i].1[0]),
    decreases n,
{
    if n > 0 {
        lemma_baselines(entries, lists, n - 1, k);
        lemma_text_entry(
            with_baselines(entries, lists, n - 1),
            lists[n - 1].0,
            lists[n - 1].1[0],
            k,
        );
    }
}

proof fn lemma_overrides(variants: Seq<DependencyVariantConfig>, n: int, i: int)
    requires
        0 <= i < n <= variants.len(),
    ensures
        increasing(Order::Path, own_overrides(variants, n)),
        value_at(Order::Path, own_overrides(variants, n), variants[i].target@) matches Some(own)
            && is_same_path(own, variants[i].target@),
    decreases n,
{
    let last = variants[n - 1].target@;
    if n > 1 {
        lemma_overrides(variants, n - 1, if i < n - 1 {
            i
        } else {
            0
        });
    }
    assert(increasing(Order::Path, own_overrides(variants, n - 1)));
    lemma_with_entry(Order::Path, own_overrides(variants, n - 1), last, last);
    if key_of(Order::Path, variants[i].target@) == key_of(Order::Path, last) {
        crate::environment::lemma_same_key(
            Order::Path,
            own_overrides(variants, n),
            last,
            variants[i].target@,
        );
    }
}

proof fn lemma_pinned(k: Seq<char>)
    ensures
        increasing(Order::Text, pinned_variables()),
        value_at(Order::Text, pinned_variables(), k) == if k == "LANG"@ || k == "LC_ALL"@ {
            Some("C"@)
        } else if k == "TZ"@ {
            Some("UTC"@)
        } else if k == "SOURCE_DATE_EPOCH"@ {
            Some("946684800"@)
        } else {
            None
        },
{
    reveal_strlit("SOURCE_DATE_EPOCH");
    reveal_strlit("TZ");
    reveal_strlit("LANG");
    reveal_strlit("LC_ALL");
    assert("SOURCE_DATE_EPOCH"@.len() == 17 && "TZ"@.len() == 2 && "LANG"@.len() == 4
        && "LC_ALL"@.len() == 6);
    let none: Entries = Seq::empty();
    let a = with_entry(Order::Text, none, "SOURCE_DATE_EPOCH"@, "946684800"@);
    let b = with_entry(Order::Text, a, "TZ"@, "UTC"@);
    let c = with_entry(Order::Text, b, "LANG"@, "C"@);
    lemma_text_entry(none, "SOURCE_DATE_EPOCH"@, "946684800"@, k);
    lemma_text_entry(a, "TZ"@, "UTC"@, k);
    lemma_text_entry(b, "LANG"@, "C"@, k);
    lemma_text_entry(c, "LC_ALL"@, "C"@, k);
    assert(value_at(Order::Text, none, k) is None) by {
        if value_at(Order::Text, none, k) is Some {
            crate::string_map::lemma_place(Order::Text, none, k);
        }
    }
}

/// The controls run with pinned time, time zone and locale, with the first value of everything that is
/// varied, with every replaced file as it is, and limit processors, file times and the mask only where
/// these are varied.
pub proof fn law_controls_run_with_first_values(config: Config, k: Seq<char>)
    ensures
        ({
            let b = baseline_of(config);
            let e = config.experiments;
            let variables = e.environment_variables.deep_view();
            let tools = e.toolchain_variables.deep_view();
            &&& increasing(Order::Text, b.environment)
            &&& increasing(Order::Text, b.toolchain_bindings)
            &&& (forall|i: int| 0 <= i < variables.len() ==> (#[trigger] variables[i]).0 != k)
                ==> value_at(Order::Text, b.environment, k) == if k == "LANG"@ || k == "LC_ALL"@ {
                Some("C"@)
            } else if k == "TZ"@ {
                Some("UTC"@)
            } else if k == "SOURCE_DATE_EPOCH"@ {
                Some("946684800"@)
            } else {
                None
            }
            &&& forall|i: int|
                0 <= i < variables.len() && (#[trigger] variables[i]).0 == k && (forall|j: int|
                    i < j < variables.len() ==> (#[trigger] variables[j]).0 != k) ==> value_at(
                    Order::Text,
                    b.environment,
                    k,
                ) == Some(variables[i].1[0])
            &&& forall|i: int|
                0 <= i < tools.len() && (#[trigger] tools[i]).0 == k && (forall|j: int|
                    i < j < tools.len() ==> (#[trigger] tools[j]).0 != k) ==> value_at(
                    Order::Text,
                    b.toolchain_bindings,
                    k,
                ) == Some(tools[i].1[0])
            &&& (forall|i: int| 0 <= i < tools.len() ==> (#[trigger] tools[i]).0 != k)
                ==> value_at(Order::Text, b.toolchain_bindings, k) is None
            &&& forall|i: int|
                0 <= i < e.dependency_variants@.len() ==> (value_at(
                    Order::Path,
                    b.source_file_overrides,
                    (#[trigger] e.dependency_variants@[i]).target@,
                ) matches Some(own) && is_same_path(own, e.dependency_variants@[i].target@))
            &&& b.image_override is None
            &&& b.container_source_path == "/src"@ && b.container_work_path == "/workspace"@
            &&& b.source_copy_order is Sorted
            &&& b.network_mode == "default"@
            &&& b.hostname == Some("reprobisect-control"@)
            &&& b.cpu_count == if e.dimensions.cpu_count {
                Some(1u32)
            } else {
                None
            }
            &&& b.source_mtime_epoch == if e.dimensions.source_mtime {
                Some(946_684_800i64)
            } else {
                None
            }
            &&& b.umask == if e.dimensions.umask {
                Some(0o022u32)
            } else {
                None
            }
            &&& b.network_trace == e.network_trace && b.file_input_trace == e.file_input_trace
            &&& b.runtime_dependency_provenance == e.runtime_dependency_provenance
            &&& b.dependency_cache_paths == e.dependency_cache_paths.deep_view()
        }),
{
    let e = config.experiments;
    let none: Entries = Seq::empty();
    let tools = e.toolchain_variables.deep_view();
    let variables = e.environment_variables.deep_view();
    lemma_pinned(k);
    lemma_baselines(pinned_variables(), variables, variables.len() as int, k);
    lemma_baselines(none, tools, tools.len() as int, k);
    assert(value_at(Order::Text, none, k) is None) by {
        if value_at(Order::Text, none, k) is Some {
            crate::string_map::lemma_place(Order::Text, none, k);
        }
    }
    assert forall|i: int| 0 <= i < e.dependency_variants@.len() implies (value_at(
        Order::Path,
        baseline_of(config).source_file_overrides,
        (#[trigger] e.dependency_variants@[i]).target@,
    ) matches Some(own) && is_same_path(own, e.dependency_variants@[i].target@)) by {
        lemma_overrides(e.dependency_variants@, e.dependency_variants@.len() as int, i);
    }
}

/// Whether some plan is as `p` says.
#[verifier::opaque]
pub open spec fn some_plan(
    plans: Seq<PlannedInterventionView>,
    p: spec_fn(PlannedInterventionView) -> bool,
) -> bool {
    exists|i: int| 0 <= i < plans.len() && p(#[trigger] plans[i])
}

proof fn lemma_joined(
    a: Seq<PlannedInterventionView>,
    b: Seq<PlannedInterventionView>,
    p: spec_fn(PlannedInterventionView) -> bool,
)
    ensures
        some_plan(a + b, p) <==> some_plan(a, p) || some_plan(b, p),
{
    reveal(some_plan);
    if some_plan(a, p) {
        let i = choose|i: int| 0 <= i < a.len() && p(#[trigger] a[i]);
        assert((a + b)[i] == a[i]);
    }
    if some_plan(b, p) {
        let i = choose|i: int| 0 <= i < b.len() && p(#[trigger] b[i]);
        assert((a + b)[a.len() + i] == b[i]);
    }
    if some_plan(a + b, p) {
        let i = choose|i: int| 0 <= i < (a + b).len() && p(#[trigger] (a + b)[i]);
        if i < a.len() {
            assert(a[i] == (a + b)[i]);
        } else {
            assert(b[i - a.len()] == (a + b)[i]);
        }
    }
}

proof fn lemma_if_wanted(
    wanted: bool,
    plan: PlannedInterventionView,
    p: spec_fn(PlannedInterventionView) -> bool,
)
    ensures
        some_plan(plan_if(wanted, plan), p) <==> wanted && p(plan),
{
    reveal(some_plan);
    if wanted {
        assert(plan_if(wanted, plan)[0] == plan);
    }
}

proof fn lemma_shown(
    plans: Seq<PlannedInterventionView>,
    i: int,
    p: spec_fn(PlannedInterventionView) -> bool,
)
    requires
        0 <= i < plans.len(),
        p(plans[i]),
    ensures
        some_plan(plans, p),
{
    reveal(some_plan);
}

proof fn lemma_not_shown(
    plans: Seq<PlannedInterventionView>,
    p: spec_fn(PlannedInterventionView) -> bool,
)
    requires
        forall|i: int| 0 <= i < plans.len() ==> !p(#[trigger] plans[i]),
    ensures
        !some_plan(plans, p),
{
    reveal(some_plan);
}

proof fn lemma_kind_shown(plans: Seq<PlannedInterventionView>, own: InterventionKind)
    requires
        forall|i: int| 0 <= i < plans.len() ==> (#[trigger] plans[i]).intervention.kind == own,
    ensures
        forall|kind: InterventionKind| #[trigger]
            some_plan(plans, of_kind(kind)) <==> kind == own && plans.len() > 0,
{
    reveal(some_plan);
    assert forall|kind: InterventionKind| #[trigger]
        some_plan(plans, of_kind(kind)) <==> kind == own && plans.len() > 0 by {
        if kind == own && plans.len() > 0 {
            assert(of_kind(kind)(plans[0]));
        }
    }
}

/// That a plan has a given kind.
pub open spec fn of_kind(kind: InterventionKind) -> spec_fn(PlannedInterventionView) -> bool {
    |p: PlannedInterventionView| p.intervention.kind == kind
}

proof fn lemma_eight_joined(
    a: Seq<PlannedInterventionView>,
    b: Seq<PlannedInterventionView>,
    c: Seq<PlannedInterventionView>,
    d: Seq<PlannedInterventionView>,
    e: Seq<PlannedInterventionView>,
    f: Seq<PlannedInterventionView>,
    g: Seq<PlannedInterventionView>,
    h: Seq<PlannedInterventionView>,
    p: spec_fn(PlannedInterventionView) -> bool,
)
    ensures
        some_plan(a + b + c + d + e + f + g + h, p) <==> {
            ||| some_plan(a, p)
            ||| some_plan(b, p)
            ||| some_plan(c, p)
            ||| some_plan(d, p)
            ||| some_plan(e, p)
            ||| some_plan(f, p)
            ||| some_plan(g, p)
            ||| some_plan(h, p)
        },
{
    lemma_joined(a, b, p);
    lemma_joined(a + b, c, p);
    lemma_joined(a + b + c, d, p);
    lemma_joined(a + b + c + d, e, p);
    lemma_joined(a + b + c + d + e, f, p);
    lemma_joined(a + b + c + d + e + f, g, p);
    lemma_joined(a + b + c + d + e + f + g, h, p);
}

proof fn lemma_parts(
    config: Config,
    b: ControlledEnvironmentView,
    p: spec_fn(PlannedInterventionView) -> bool,
)
    ensures
        ({
            let e = config.experiments;
            let d = e.dimensions;
            some_plan(plans_of(config, b), p) <==> {
                ||| some_plan(image_plans(config, b, e.image_variants@.len() as int), p)
                ||| some_plan(
                    toolchain_plans(
                        e.toolchain_variables.deep_view(),
                        b,
                        e.toolchain_variables.deep_view().len() as int,
                    ),
                    p,
                )
                ||| some_plan(
                    dependency_plans(e.dependency_variants@, b, e.dependency_variants@.len() as int),
                    p,
                )
                ||| d.network_access && p(network_plan(b))
                ||| d.source_path && p(source_path_plan(b))
                ||| d.build_path && p(build_path_plan(b))
                ||| d.source_date_epoch && p(date_epoch_plan(b))
                ||| d.source_mtime && p(mtime_plan(b))
                ||| d.timezone && p(timezone_plan(b))
                ||| d.locale && p(locale_plan(b))
                ||| d.hostname && p(hostname_plan(b))
                ||| d.cpu_count && p(cpu_plan(b))
                ||| d.umask && p(umask_plan(b))
                ||| d.directory_order && p(order_plan(b))
                ||| some_plan(
                    variable_plans(
                        e.environment_variables.deep_view(),
                        b,
                        e.environment_variables.deep_view().len() as int,
                    ),
                    p,
                )
            }
        }),
{
    let e = config.experiments;
    let d = e.dimensions;
    lemma_eight_joined(
        image_plans(config, b, e.image_variants@.len() as int),
        toolchain_plans(
            e.toolchain_variables.deep_view(),
            b,
            e.toolchain_variables.deep_view().len() as int,
        ),
        dependency_plans(e.dependency_variants@, b, e.dependency_variants@.len() as int),
        plan_if(d.network_access, network_plan(b)),
        plan_if(d.source_path, source_path_plan(b)),
        plan_if(d.build_path, build_path_plan(b)),
        plan_if(d.source_date_epoch, date_epoch_plan(b)),
        plan_if(d.source_mtime, mtime_plan(b)),
        p,
    );
    lemma_eight_joined(
        image_plans(config, b, e.image_variants@.len() as int) + toolchain_plans(
            e.toolchain_variables.deep_view(),
            b,
            e.toolchain_variables.deep_view().len() as int,
        ) + dependency_plans(e.dependency_variants@, b, e.dependency_variants@.len() as int) + plan_if(d.network_access, network_plan(b)) + plan_if(d.source_path, source_path_plan(b)) + plan_if(d.build_path, build_path_plan(b)) + plan_if(d.source_date_epoch, date_epoch_plan(b)) + plan_if(d.source_mtime, mtime_plan(b)),
        plan_if(d.timezone, timezone_plan(b)),
        plan_if(d.locale, locale_plan(b)),
        plan_if(d.hostname, hostname_plan(b)),
        plan_if(d.cpu_count, cpu_plan(b)),
        plan_if(d.umask, umask_plan(b)),
        plan_if(d.directory_order, order_plan(b)),
        variable_plans(
            e.environment_variables.deep_view(),
            b,
            e.environment_variables.deep_view().len() as int,
        ),
        p,
    );
    lemma_if_wanted(d.network_access, network_plan(b), p);
    lemma_if_wanted(d.source_path, source_path_plan(b), p);
    lemma_if_wanted(d.build_path, build_path_plan(b), p);
    lemma_if_wanted(d.source_date_epoch, date_epoch_plan(b), p);
    lemma_if_wanted(d.source_mtime, mtime_plan(b), p);
    lemma_if_wanted(d.timezone, timezone_plan(b), p);
    lemma_if_wanted(d.locale, locale_plan(b), p);
    lemma_if_wanted(d.hostname, hostname_plan(b), p);
    lemma_if_wanted(d.cpu_count, cpu_plan(b), p);
    lemma_if_wanted(d.umask, umask_plan(b), p);
    lemma_if_wanted(d.directory_order, order_plan(b), p);
}

proof fn lemma_image_family(config: Config, b: ControlledEnvironmentView, n: int)
    requires
        0 <= n <= config.experiments.image_variants@.len(),
    ensures
        image_plans(config, b, n).len() == n,
        forall|i: int|
            0 <= i < n ==> {
                let plan = (#[trigger] image_plans(config, b, n)[i]).intervention;
                &&& plan.kind is BuildImage
                &&& plan.baseline_value == config.build.image@
                &&& plan.variant_value == config.experiments.image_variants@[i]@
            },
    decreases n,
{
    if n > 0 {
        lemma_image_family(config, b, n - 1);
        let had = image_plans(config, b, n - 1);
        assert(image_plans(config, b, n).drop_last() =~= had);
        assert forall|i: int| 0 <= i < n implies ({
            let plan = (#[trigger] image_plans(config, b, n)[i]).intervention;
            &&& plan.kind is BuildImage
            &&& plan.baseline_value == config.build.image@
            &&& plan.variant_value == config.experiments.image_variants@[i]@
        }) by {
            if i < n - 1 {
                assert(image_plans(config, b, n)[i] == had[i]);
            }
        }
    }
}

proof fn lemma_tool_family(lists: ListEntries, b: ControlledEnvironmentView, n: int)
    requires
        0 <= n <= lists.len(),
    ensures
        toolchain_plans(lists, b, n).len() == n,
        forall|i: int|
            0 <= i < n ==> {
                let plan = (#[trigger] toolchain_plans(lists, b, n)[i]).intervention;
                &&& plan.kind is ToolchainExecutable
                &&& plan.variable == "toolchain:"@ + lists[i].0
                &&& plan.baseline_value == lists[i].1[0]
                &&& plan.variant_value == lists[i].1[1]
            },
    decreases n,
{
    if n > 0 {
        lemma_tool_family(lists, b, n - 1);
        let had = toolchain_plans(lists, b, n - 1);
        assert forall|i: int| 0 <= i < n implies ({
            let plan = (#[trigger] toolchain_plans(lists, b, n)[i]).intervention;
            &&& plan.kind is ToolchainExecutable
            &&& plan.variable == "toolchain:"@ + lists[i].0
            &&& plan.baseline_value == lists[i].1[0]
            &&& plan.variant_value == lists[i].1[1]
        }) by {
            if i < n - 1 {
                assert(toolchain_plans(lists, b, n)[i] == had[i]);
            }
        }
    }
}

proof fn lemma_variable_family(lists: ListEntries, b: ControlledEnvironmentView, n: int)
    requires
        0 <= n <= lists.len(),
    ensures
        variable_plans(lists, b, n).len() == n,
        forall|i: int|
            0 <= i < n ==> {
                let plan = (#[trigger] variable_plans(lists, b, n)[i]).intervention;
                &&& plan.kind is EnvironmentVariable
                &&& plan.variable == lists[i].0
                &&& plan.baseline_value == lists[i].1[0]
                &&& plan.variant_value == lists[i].1[1]
            },
    decreases n,
{
    if n > 0 {
        lemma_variable_family(lists, b, n - 1);
        let had = variable_plans(lists, b, n - 1);
        assert forall|i: int| 0 <= i < n implies ({
            let plan = (#[trigger] variable_plans(lists, b, n)[i]).intervention;
            &&& plan.kind is EnvironmentVariable
            &&& plan.variable == lists[i].0
            &&& plan.baseline_value == lists[i].1[0]
            &&& plan.variant_value == lists[i].1[1]
        }) by {
            if i < n - 1 {
                assert(variable_plans(lists, b, n)[i] == had[i]);
            }
        }
    }
}

proof fn lemma_file_family(
    variants: Seq<DependencyVariantConfig>,
    b: ControlledEnvironmentView,
    n: int,
)
    requires
        0 <= n <= variants.len(),
    ensures
        dependency_plans(variants, b, n).len() == n,
        forall|i: int|
            0 <= i < n ==> {
                let plan = (#[trigger] dependency_plans(variants, b, n)[i]).intervention;
                &&& plan.kind is DependencyFile
                &&& plan.variable == "dependency:"@ + variants[i].target@
                &&& plan.baseline_value == variants[i].target@
                &&& plan.variant_value == variants[i].variant_file@
            },
    decreases n,
{
    if n > 0 {
        lemma_file_family(variants, b, n - 1);
        let had = dependency_plans(variants, b, n - 1);
        assert forall|i: int| 0 <= i < n implies ({
            let plan = (#[trigger] dependency_plans(variants, b, n)[i]).intervention;
            &&& plan.kind is DependencyFile
            &&& plan.variable == "dependency:"@ + variants[i].target@
            &&& plan.baseline_value == variants[i].target@
            &&& plan.variant_value == variants[i].variant_file@
        }) by {
            if i < n - 1 {
                assert(dependency_plans(variants, b, n)[i] == had[i]);
            }
        }
    }
}

/// An experiment of a built-in dimension is planned exactly if that dimension is asked for, an
/// experiment on a tool, a variable, an image or a file exactly if one is configured.
pub proof fn law_planned_kinds_are_those_asked_for(
    config: Config,
    b: ControlledEnvironmentView,
    kind: InterventionKind,
)
    ensures
        some_plan(plans_of(config, b), of_kind(kind))
            <==> match kind {
            InterventionKind::BuildImage => config.experiments.image_variants@.len() > 0,
            InterventionKind::ToolchainExecutable => {
                config.experiments.toolchain_variables.deep_view().len() > 0
            },
            InterventionKind::DependencyFile => config.experiments.dependency_variants@.len() > 0,
            InterventionKind::NetworkAccess => config.experiments.dimensions.network_access,
            InterventionKind::SourcePath => config.experiments.dimensions.source_path,
            InterventionKind::BuildPath => config.experiments.dimensions.build_path,
            InterventionKind::SourceDateEpoch => config.experiments.dimensions.source_date_epoch,
            InterventionKind::SourceMtime => config.experiments.dimensions.source_mtime,
            InterventionKind::Timezone => config.experiments.dimensions.timezone,
            InterventionKind::Locale => config.experiments.dimensions.locale,
            InterventionKind::Hostname => config.experiments.dimensions.hostname,
            InterventionKind::CpuCount => config.experiments.dimensions.cpu_count,
            InterventionKind::Umask => config.experiments.dimensions.umask,
            InterventionKind::DirectoryOrder => config.experiments.dimensions.directory_order,
            InterventionKind::EnvironmentVariable => {
                config.experiments.environment_variables.deep_view().len() > 0
            },
        },
{
    let e = config.experiments;
    let tools = e.toolchain_variables.deep_view();
    let variables = e.environment_variables.deep_view();
    let images = image_plans(config, b, e.image_variants@.len() as int);
    let files = dependency_plans(e.dependency_variants@, b, e.dependency_variants@.len() as int);
    lemma_parts(config, b, of_kind(kind));
    lemma_image_family(config, b, e.image_variants@.len() as int);
    lemma_tool_family(tools, b, tools.len() as int);
    lemma_file_family(e.dependency_variants@, b, e.dependency_variants@.len() as int);
    lemma_variable_family(variables, b, variables.len() as int);
    lemma_kind_shown(images, InterventionKind::BuildImage);
    lemma_kind_shown(
        toolchain_plans(tools, b, tools.len() as int),
        InterventionKind::ToolchainExecutable,
    );
    lemma_kind_shown(files, InterventionKind::DependencyFile);
    lemma_kind_shown(
        variable_plans(variables, b, variables.len() as int),
        InterventionKind::EnvironmentVariable,
    );
}

/// Every configured image, tool, file and variable gets an experiment that goes from what the build
/// uses, or from the first value, to the other one.
pub proof fn law_everything_configured_is_planned(config: Config, b: ControlledEnvironmentView, i: int)
    ensures
        ({
            let e = config.experiments;
            let plans = plans_of(config, b);
            let tools = e.toolchain_variables.deep_view();
            let variables = e.environment_variables.deep_view();
            &&& 0 <= i < e.image_variants@.len() ==> some_plan(
                plans,
                |p: PlannedInterventionView|
                    p.intervention.kind is BuildImage && p.intervention.baseline_value
                        == config.build.image@ && p.intervention.variant_value
                        == e.image_variants@[i]@,
            )
            &&& 0 <= i < tools.len() ==> some_plan(
                plans,
                |p: PlannedInterventionView|
                    p.intervention.kind is ToolchainExecutable && p.intervention.variable
                        == "toolchain:"@ + tools[i].0 && p.intervention.baseline_value
                        == tools[i].1[0] && p.intervention.variant_value == tools[i].1[1],
            )
            &&& 0 <= i < e.dependency_variants@.len() ==> some_plan(
                plans,
                |p: PlannedInterventionView|
                    p.intervention.kind is DependencyFile && p.intervention.baseline_value
                        == e.dependency_variants@[i].target@ && p.intervention.variant_value
                        == e.dependency_variants@[i].variant_file@,
            )
            &&& 0 <= i < variables.len() ==> some_plan(
                plans,
                |p: PlannedInterventionView|
                    p.intervention.kind is EnvironmentVariable && p.intervention.variable
                        == variables[i].0 && p.intervention.baseline_value == variables[i].1[0]
                        && p.intervention.variant_value == variables[i].1[1],
            )
        }),
{
    let e = config.experiments;
    let tools = e.toolchain_variables.deep_view();
    let variables = e.environment_variables.deep_view();
    let p_image = |p: PlannedInterventionView|
        p.intervention.kind is BuildImage && p.intervention.baseline_value == config.build.image@
            && p.intervention.variant_value == e.image_variants@[i]@;
    let p_tool = |p: PlannedInterventionView|
        p.intervention.kind is ToolchainExecutable && p.intervention.variable == "toolchain:"@
            + tools[i].0 && p.intervention.baseline_value == tools[i].1[0]
            && p.intervention.variant_value == tools[i].1[1];
    let p_file = |p: PlannedInterventionView|
        p.intervention.kind is DependencyFile && p.intervention.baseline_value
            == e.dependency_variants@[i].target@ && p.intervention.variant_value
            == e.dependency_variants@[i].variant_file@;
    let p_variable = |p: PlannedInterventionView|
        p.intervention.kind is EnvironmentVariable && p.intervention.variable == variables[i].0
            && p.intervention.baseline_value == variables[i].1[0] && p.intervention.variant_value
            == variables[i].1[1];
    lemma_parts(config, b, p_image);
    lemma_parts(config, b, p_tool);
    lemma_parts(config, b, p_file);
    lemma_parts(config, b, p_variable);
    lemma_image_family(config, b, e.image_variants@.len() as int);
    lemma_tool_family(tools, b, tools.len() as int);
    lemma_file_family(e.dependency_variants@, b, e.dependency_variants@.len() as int);
    lemma_variable_family(variables, b, variables.len() as int);
    if 0 <= i < e.image_variants@.len() {
        lemma_shown(image_plans(config, b, e.image_variants@.len() as int), i, p_image);
    }
    if 0 <= i < tools.len() {
        lemma_shown(toolchain_plans(tools, b, tools.len() as int), i, p_tool);
    }
    if 0 <= i < e.dependency_variants@.len() {
        lemma_shown(
            dependency_plans(e.dependency_variants@, b, e.dependency_variants@.len() as int),
            i,
            p_file,
        );
    }
    if 0 <= i < variables.len() {
        lemma_shown(variable_plans(variables, b, variables.len() as int), i, p_variable);
    }
}

/// Whether a plan for a built-in dimension goes from what the controls run with to another value.
pub open spec fn leaves_the_baseline(p: PlannedInterventionView, b: ControlledEnvironmentView) -> bool {
    let from = p.intervention.baseline_value;
    let to = p.intervention.variant_value;
    match p.intervention.kind {
        InterventionKind::NetworkAccess => from == b.network_mode && to == "none"@,
        InterventionKind::SourcePath => from == b.container_source_path && to
            == "/opt/reprobisect/source"@,
        InterventionKind::BuildPath => from == b.container_work_path && to
            == "/opt/reprobisect/build"@,
        InterventionKind::SourceDateEpoch => from == "946684800"@ && to == "1577836800"@
            && p.intervention.variable == "SOURCE_DATE_EPOCH"@,
        InterventionKind::SourceMtime => from == decimal_of(946_684_800) && to == decimal_of(
            1_577_836_800,
        ) && p.environment.source_mtime_epoch == Some(1_577_836_800i64),
        InterventionKind::Timezone => from == "UTC"@ && to == "HST10"@ && p.intervention.variable
            == "TZ"@,
        InterventionKind::Locale => from == "C"@ && to == "C.UTF-8"@,
        InterventionKind::Hostname => b.hostname == Some(from) && to == "reprobisect-variant"@,
        InterventionKind::CpuCount => from == "1"@ && to == "2"@ && p.environment.cpu_count == Some(
            2u32,
        ),
        InterventionKind::Umask => p.environment.umask == Some(0o077u32),
        InterventionKind::DirectoryOrder => from == "sorted"@ && to == "reverse"@
            && p.environment.source_copy_order is Reverse,
        _ => true,
    }
}

/// Every planned experiment on a built-in dimension goes from what the controls run with to the other
/// value that the dimension has.
pub proof fn law_plans_leave_the_baseline(config: Config, i: int)
    requires
        0 <= i < plans_of(config, baseline_of(config)).len(),
    ensures
        leaves_the_baseline(plans_of(config, baseline_of(config))[i], baseline_of(config)),
{
    let b = baseline_of(config);
    let e = config.experiments;
    let tools = e.toolchain_variables.deep_view();
    let variables = e.environment_variables.deep_view();
    let p = |p: PlannedInterventionView| !leaves_the_baseline(p, b);
    lemma_parts(config, b, p);
    lemma_image_family(config, b, e.image_variants@.len() as int);
    lemma_tool_family(tools, b, tools.len() as int);
    lemma_file_family(e.dependency_variants@, b, e.dependency_variants@.len() as int);
    lemma_variable_family(variables, b, variables.len() as int);
    lemma_not_shown(image_plans(config, b, e.image_variants@.len() as int), p);
    lemma_not_shown(toolchain_plans(tools, b, tools.len() as int), p);
    lemma_not_shown(
        dependency_plans(e.dependency_variants@, b, e.dependency_variants@.len() as int),
        p,
    );
    lemma_not_shown(variable_plans(variables, b, variables.len() as int), p);
    if p(plans_of(config, b)[i]) {
        lemma_shown(plans_of(config, b), i, p);
    }
}

} // verus!
