//! The baseline environment and the controlled departures from it.
use vstd::prelude::*;

use crate::config::{config_problem, id_before, variants_problem, Config, DependencyVariantConfig};
use crate::config::{ProjectFacts, VariantFiles};
use crate::environment::{copy_order_name, is_ordered, lemma_same_key, octal_mask, same_setting};
use crate::environment::{setting_entries, setting_order, KeyedSetting};
use crate::model::{
    ControlledEnvironment, ControlledEnvironmentView, Intervention, InterventionKind,
    InterventionView, SourceCopyOrder,
};
use crate::numbers::{decimal, decimal_of, law_written_numbers_read_back, padded_digits};
use crate::numbers::signed_decimal;
use crate::ordering::{before, is_same_path, key_of, lemma_before_irreflexive};
use crate::ordering::{lemma_text_key_injective, same_path, text_key, Order};
use crate::string_map::{increasing, keys_increase, lemma_found, lemma_place, lemma_with_entry};
use crate::string_map::{list_keys, place_of, same_entries, value_at};
use crate::string_map::{with_entry, Entries, ListEntries, ListMap, PathMap, StringMap};
use crate::text::{concat, concat3, concat5, lemma_same_start, same, same_option};

verus! {

pub const BASELINE_SOURCE_DATE_EPOCH: &'static str = "946684800";

pub const VARIANT_SOURCE_DATE_EPOCH: &'static str = "1577836800";

pub const BASELINE_SOURCE_MTIME_EPOCH: i64 = 946_684_800;

pub const VARIANT_SOURCE_MTIME_EPOCH: i64 = 1_577_836_800;

pub const BASELINE_UMASK: u32 = 0o022;

pub const VARIANT_UMASK: u32 = 0o077;

/// An intervention and the environment it makes of the baseline.
#[derive(Debug, PartialEq)]
pub struct PlannedIntervention {
    pub intervention: Intervention,
    pub environment: ControlledEnvironment,
}

#[verifier::ext_equal]
pub struct PlannedInterventionView {
    pub intervention: InterventionView,
    pub environment: ControlledEnvironmentView,
}

impl DeepView for PlannedIntervention {
    type V = PlannedInterventionView;

    open spec fn deep_view(&self) -> PlannedInterventionView {
        PlannedInterventionView {
            intervention: self.intervention.deep_view(),
            environment: self.environment.deep_view(),
        }
    }
}

impl Clone for PlannedIntervention {
    fn clone(&self) -> (r: PlannedIntervention)
        ensures
            r.deep_view() == self.deep_view(),
    {
        PlannedIntervention {
            intervention: self.intervention.clone(),
            environment: self.environment.clone(),
        }
    }
}

/// Whether every varied variable and binding has a baseline value.
pub open spec fn baselines_are_given(config: Config) -> bool {
    &&& forall|i: int|
        0 <= i < config.experiments.environment_variables.deep_view().len() ==> (
        #[trigger] config.experiments.environment_variables.deep_view()[i]).1.len() >= 1
    &&& forall|i: int|
        0 <= i < config.experiments.toolchain_variables.deep_view().len() ==> (
        #[trigger] config.experiments.toolchain_variables.deep_view()[i]).1.len() >= 1
}

/// Whether every varied variable and binding has a baseline and a variant value.
pub open spec fn values_are_paired(config: Config) -> bool {
    &&& forall|i: int|
        0 <= i < config.experiments.environment_variables.deep_view().len() ==> (
        #[trigger] config.experiments.environment_variables.deep_view()[i]).1.len() >= 2
    &&& forall|i: int|
        0 <= i < config.experiments.toolchain_variables.deep_view().len() ==> (
        #[trigger] config.experiments.toolchain_variables.deep_view()[i]).1.len() >= 2
}

/// `entries` after the first `n` keys of `lists` have been given their baseline values.
pub open spec fn with_baselines(entries: Entries, lists: ListEntries, n: int) -> Entries
    decreases n,
{
    if n <= 0 {
        entries
    } else {
        with_entry(
            Order::Text,
            with_baselines(entries, lists, n - 1),
            lists[n - 1].0,
            lists[n - 1].1[0],
        )
    }
}

/// The first `n` dependency targets, each replaced by itself.
pub open spec fn own_overrides(variants: Seq<DependencyVariantConfig>, n: int) -> Entries
    decreases n,
{
    if n <= 0 {
        Seq::empty()
    } else {
        with_entry(
            Order::Path,
            own_overrides(variants, n - 1),
            variants[n - 1].target@,
            variants[n - 1].target@,
        )
    }
}

/// The variables that every baseline pins.
pub open spec fn pinned_variables() -> Entries {
    with_entry(
        Order::Text,
        with_entry(
            Order::Text,
            with_entry(
                Order::Text,
                with_entry(
                    Order::Text,
                    Seq::empty(),
                    "SOURCE_DATE_EPOCH"@,
                    BASELINE_SOURCE_DATE_EPOCH@,
                ),
                "TZ"@,
                "UTC"@,
            ),
            "LANG"@,
            "C"@,
        ),
        "LC_ALL"@,
        "C"@,
    )
}

/// The environment in which the controls run.
pub open spec fn baseline_of(config: Config) -> ControlledEnvironmentView {
    let e = config.experiments;
    ControlledEnvironmentView {
        image_override: None,
        container_source_path: "/src"@,
        container_work_path: "/workspace"@,
        source_copy_order: SourceCopyOrder::Sorted,
        environment: with_baselines(
            pinned_variables(),
            e.environment_variables.deep_view(),
            e.environment_variables.deep_view().len() as int,
        ),
        toolchain_bindings: with_baselines(
            Seq::empty(),
            e.toolchain_variables.deep_view(),
            e.toolchain_variables.deep_view().len() as int,
        ),
        source_file_overrides: own_overrides(
            e.dependency_variants@,
            e.dependency_variants@.len() as int,
        ),
        hostname: Some("reprobisect-control"@),
        cpu_count: if e.dimensions.cpu_count {
            Some(1)
        } else {
            None
        },
        source_mtime_epoch: if e.dimensions.source_mtime {
            Some(BASELINE_SOURCE_MTIME_EPOCH)
        } else {
            None
        },
        umask: if e.dimensions.umask {
            Some(BASELINE_UMASK)
        } else {
            None
        },
        network_mode: "default"@,
        network_trace: e.network_trace,
        file_input_trace: e.file_input_trace,
        syscall_trace_max_bytes: e.syscall_trace_max_bytes,
        runtime_dependency_provenance: e.runtime_dependency_provenance,
        dependency_cache_paths: e.dependency_cache_paths.deep_view(),
        dependency_cache_max_files: e.dependency_cache_max_files,
        dependency_cache_max_bytes: e.dependency_cache_max_bytes,
    }
}

fn add_baselines(map: &mut StringMap, lists: &ListMap)
    requires
        forall|i: int|
            0 <= i < lists.deep_view().len() ==> (#[trigger] lists.deep_view()[i]).1.len() >= 1,
    ensures
        final(map).deep_view() == with_baselines(
            old(map).deep_view(),
            lists.deep_view(),
            lists.deep_view().len() as int,
        ),
{
    let ghost had = map.deep_view();
    let entries = lists.entries();
    let mut n: usize = 0;
    while n < entries.len()
        invariant
            entries.deep_view() == lists.deep_view(),
            forall|i: int|
                0 <= i < lists.deep_view().len() ==> (#[trigger] lists.deep_view()[i]).1.len() >= 1,
            n <= entries@.len(),
            map.deep_view() == with_baselines(had, lists.deep_view(), n as int),
        decreases entries.len() - n,
    {
        assert(lists.deep_view()[n as int].0 == entries@[n as int].0@);
        assert(lists.deep_view()[n as int].1 == entries@[n as int].1.deep_view());
        assert(lists.deep_view()[n as int].1[0] == entries@[n as int].1@[0]@);
        map.insert(entries[n].0.clone(), entries[n].1[0].clone());
        n += 1;
    }
}

/// The environment in which the controls run. Dependency targets are rewritten in every run, the
/// baseline included, so that an intervention does not differ merely by the write.
pub fn baseline_environment(config: &Config) -> (r: ControlledEnvironment)
    requires
        baselines_are_given(*config),
    ensures
        r.deep_view() == baseline_of(*config),
{
    let e = &config.experiments;
    let mut environment = StringMap::new();
    environment.insert(
        "SOURCE_DATE_EPOCH".to_owned(),
        BASELINE_SOURCE_DATE_EPOCH.to_owned(),
    );
    environment.insert("TZ".to_owned(), "UTC".to_owned());
    environment.insert("LANG".to_owned(), "C".to_owned());
    environment.insert("LC_ALL".to_owned(), "C".to_owned());
    add_baselines(&mut environment, &e.environment_variables);
    let mut toolchain_bindings = StringMap::new();
    add_baselines(&mut toolchain_bindings, &e.toolchain_variables);
    let mut source_file_overrides = PathMap::new();
    let mut n: usize = 0;
    while n < e.dependency_variants.len()
        invariant
            n <= e.dependency_variants@.len(),
            source_file_overrides.deep_view() == own_overrides(e.dependency_variants@, n as int),
        decreases e.dependency_variants.len() - n,
    {
        let target = &e.dependency_variants[n].target;
        source_file_overrides.insert(target.clone(), target.clone());
        n += 1;
    }
    ControlledEnvironment {
        image_override: None,
        container_source_path: "/src".to_owned(),
        container_work_path: "/workspace".to_owned(),
        source_copy_order: SourceCopyOrder::Sorted,
        environment,
        toolchain_bindings,
        source_file_overrides,
        hostname: Some("reprobisect-control".to_owned()),
        cpu_count: if e.dimensions.cpu_count {
            Some(1)
        } else {
            None
        },
        source_mtime_epoch: if e.dimensions.source_mtime {
            Some(BASELINE_SOURCE_MTIME_EPOCH)
        } else {
            None
        },
        umask: if e.dimensions.umask {
            Some(BASELINE_UMASK)
        } else {
            None
        },
        network_mode: "default".to_owned(),
        network_trace: e.network_trace,
        file_input_trace: e.file_input_trace,
        syscall_trace_max_bytes: e.syscall_trace_max_bytes,
        runtime_dependency_provenance: e.runtime_dependency_provenance,
        dependency_cache_paths: e.dependency_cache_paths.clone(),
        dependency_cache_max_files: e.dependency_cache_max_files,
        dependency_cache_max_bytes: e.dependency_cache_max_bytes,
    }
}

pub open spec fn plan_of(
    id: Seq<char>,
    kind: InterventionKind,
    variable: Seq<char>,
    baseline_value: Seq<char>,
    variant_value: Seq<char>,
    description: Seq<char>,
    environment: ControlledEnvironmentView,
) -> PlannedInterventionView {
    PlannedInterventionView {
        intervention: InterventionView {
            id,
            kind,
            variable,
            baseline_value,
            variant_value,
            description,
        },
        environment,
    }
}

pub open spec fn plan_if(wanted: bool, plan: PlannedInterventionView) -> Seq<
    PlannedInterventionView,
> {
    if wanted {
        seq![plan]
    } else {
        Seq::empty()
    }
}

/// One plan for each of the first `n` alternative images.
pub open spec fn image_plans(
    config: Config,
    baseline: ControlledEnvironmentView,
    n: int,
) -> Seq<PlannedInterventionView>
    decreases n,
{
    if n <= 0 {
        Seq::empty()
    } else {
        let image = config.experiments.image_variants@[n - 1]@;
        image_plans(config, baseline, n - 1).push(
            plan_of(
                "build-image-"@ + decimal_of(n),
                InterventionKind::BuildImage,
                "build_image"@,
                config.build.image@,
                image,
                "rebuild the identical source snapshot in an alternative container/toolchain image"@,
                ControlledEnvironmentView { image_override: Some(image), ..baseline },
            ),
        )
    }
}

/// One plan for each of the first `n` toolchain bindings.
pub open spec fn toolchain_plans(
    lists: ListEntries,
    baseline: ControlledEnvironmentView,
    n: int,
) -> Seq<PlannedInterventionView>
    decreases n,
{
    if n <= 0 {
        Seq::empty()
    } else {
        let key = lists[n - 1].0;
        let values = lists[n - 1].1;
        toolchain_plans(lists, baseline, n - 1).push(
            plan_of(
                "toolchain-"@ + key,
                InterventionKind::ToolchainExecutable,
                "toolchain:"@ + key,
                values[0],
                values[1],
                "change only the "@ + key
                    + " executable binding inside the same resolved build image"@,
                ControlledEnvironmentView {
                    toolchain_bindings: with_entry(
                        Order::Text,
                        baseline.toolchain_bindings,
                        key,
                        values[1],
                    ),
                    ..baseline
                },
            ),
        )
    }
}

/// One plan for each of the first `n` dependency variants.
pub open spec fn dependency_plans(
    variants: Seq<DependencyVariantConfig>,
    baseline: ControlledEnvironmentView,
    n: int,
) -> Seq<PlannedInterventionView>
    decreases n,
{
    if n <= 0 {
        Seq::empty()
    } else {
        let v = variants[n - 1];
        dependency_plans(variants, baseline, n - 1).push(
            plan_of(
                "dependency-"@ + v.id@,
                InterventionKind::DependencyFile,
                "dependency:"@ + v.target@,
                v.target@,
                v.variant_file@,
                "replace dependency declaration "@ + v.target@ + " with controlled variant "@
                    + v.variant_file@ + " in the fresh workspace"@,
                ControlledEnvironmentView {
                    source_file_overrides: with_entry(
                        Order::Path,
                        baseline.source_file_overrides,
                        v.target@,
                        v.variant_file@,
                    ),
                    ..baseline
                },
            ),
        )
    }
}

/// One plan for each of the first `n` configured environment variables.
pub open spec fn variable_plans(
    lists: ListEntries,
    baseline: ControlledEnvironmentView,
    n: int,
) -> Seq<PlannedInterventionView>
    decreases n,
{
    if n <= 0 {
        Seq::empty()
    } else {
        let key = lists[n - 1].0;
        let values = lists[n - 1].1;
        variable_plans(lists, baseline, n - 1).push(
            plan_of(
                "env-"@ + key,
                InterventionKind::EnvironmentVariable,
                key,
                values[0],
                values[1],
                "change configured environment variable "@ + key,
                ControlledEnvironmentView {
                    environment: with_entry(
                        Order::Text,
                        baseline.environment,
                        key,
                        values[1],
                    ),
                    ..baseline
                },
            ),
        )
    }
}

pub open spec fn network_plan(b: ControlledEnvironmentView) -> PlannedInterventionView {
    plan_of(
        "network-none"@,
        InterventionKind::NetworkAccess,
        "network_access"@,
        "default"@,
        "none"@,
        "disable container networking to test whether the build or artifact depends on network availability"@,
        ControlledEnvironmentView { network_mode: "none"@, ..b },
    )
}

pub open spec fn source_path_plan(b: ControlledEnvironmentView) -> PlannedInterventionView {
    plan_of(
        "source-path"@,
        InterventionKind::SourcePath,
        "source_path"@,
        b.container_source_path,
        "/opt/reprobisect/source"@,
        "expose the same source snapshot at a different in-container source path"@,
        ControlledEnvironmentView { container_source_path: "/opt/reprobisect/source"@, ..b },
    )
}

pub open spec fn build_path_plan(b: ControlledEnvironmentView) -> PlannedInterventionView {
    plan_of(
        "build-path"@,
        InterventionKind::BuildPath,
        "build_path"@,
        b.container_work_path,
        "/opt/reprobisect/build"@,
        "rebuild from a different in-container workspace path"@,
        ControlledEnvironmentView { container_work_path: "/opt/reprobisect/build"@, ..b },
    )
}

pub open spec fn date_epoch_plan(b: ControlledEnvironmentView) -> PlannedInterventionView {
    plan_of(
        "source-date-epoch"@,
        InterventionKind::SourceDateEpoch,
        "SOURCE_DATE_EPOCH"@,
        BASELINE_SOURCE_DATE_EPOCH@,
        VARIANT_SOURCE_DATE_EPOCH@,
        "change the standardized build timestamp input"@,
        ControlledEnvironmentView {
            environment: with_entry(
                Order::Text,
                b.environment,
                "SOURCE_DATE_EPOCH"@,
                VARIANT_SOURCE_DATE_EPOCH@,
            ),
            ..b
        },
    )
}

pub open spec fn mtime_plan(b: ControlledEnvironmentView) -> PlannedInterventionView {
    plan_of(
        "source-mtime"@,
        InterventionKind::SourceMtime,
        "source_mtime"@,
        decimal_of(BASELINE_SOURCE_MTIME_EPOCH as int),
        decimal_of(VARIANT_SOURCE_MTIME_EPOCH as int),
        "change copied source-tree mtimes while keeping source bytes fixed"@,
        ControlledEnvironmentView { source_mtime_epoch: Some(VARIANT_SOURCE_MTIME_EPOCH), ..b },
    )
}

pub open spec fn timezone_plan(b: ControlledEnvironmentView) -> PlannedInterventionView {
    plan_of(
        "timezone"@,
        InterventionKind::Timezone,
        "TZ"@,
        "UTC"@,
        "HST10"@,
        "change process timezone while keeping source and toolchain fixed"@,
        ControlledEnvironmentView {
            environment: with_entry(Order::Text, b.environment, "TZ"@, "HST10"@),
            ..b
        },
    )
}

pub open spec fn locale_plan(b: ControlledEnvironmentView) -> PlannedInterventionView {
    plan_of(
        "locale"@,
        InterventionKind::Locale,
        "locale"@,
        "C"@,
        "C.UTF-8"@,
        "change process locale while keeping other controlled inputs fixed"@,
        ControlledEnvironmentView {
            environment: with_entry(
                Order::Text,
                with_entry(Order::Text, b.environment, "LANG"@, "C.UTF-8"@),
                "LC_ALL"@,
                "C.UTF-8"@,
            ),
            ..b
        },
    )
}

pub open spec fn hostname_plan(b: ControlledEnvironmentView) -> PlannedInterventionView {
    plan_of(
        "hostname"@,
        InterventionKind::Hostname,
        "hostname"@,
        match b.hostname {
            Some(name) => name,
            None => "<default>"@,
        },
        "reprobisect-variant"@,
        "change the container hostname"@,
        ControlledEnvironmentView { hostname: Some("reprobisect-variant"@), ..b },
    )
}

pub open spec fn cpu_plan(b: ControlledEnvironmentView) -> PlannedInterventionView {
    plan_of(
        "cpu-count"@,
        InterventionKind::CpuCount,
        "cpu_count"@,
        "1"@,
        "2"@,
        "change the container CPU quota and REPROBISECT_CPU_COUNT hint"@,
        ControlledEnvironmentView { cpu_count: Some(2), ..b },
    )
}

pub open spec fn umask_plan(b: ControlledEnvironmentView) -> PlannedInterventionView {
    plan_of(
        "umask"@,
        InterventionKind::Umask,
        "umask"@,
        octal_mask(BASELINE_UMASK),
        octal_mask(VARIANT_UMASK),
        "change the process file-creation mask"@,
        ControlledEnvironmentView { umask: Some(VARIANT_UMASK), ..b },
    )
}

pub open spec fn order_plan(b: ControlledEnvironmentView) -> PlannedInterventionView {
    plan_of(
        "directory-order"@,
        InterventionKind::DirectoryOrder,
        "directory_order"@,
        "sorted"@,
        "reverse"@,
        "materialize the fresh source snapshot in reverse lexical creation order as a best-effort filesystem enumeration perturbation"@,
        ControlledEnvironmentView { source_copy_order: SourceCopyOrder::Reverse, ..b },
    )
}

/// All interventions that a configuration asks for, in the order in which they are tried.
pub open spec fn plans_of(config: Config, b: ControlledEnvironmentView) -> Seq<
    PlannedInterventionView,
> {
    let e = config.experiments;
    let d = e.dimensions;
    image_plans(config, b, e.image_variants@.len() as int) + toolchain_plans(
        e.toolchain_variables.deep_view(),
        b,
        e.toolchain_variables.deep_view().len() as int,
    ) + dependency_plans(e.dependency_variants@, b, e.dependency_variants@.len() as int) + plan_if(
        d.network_access,
        network_plan(b),
    ) + plan_if(d.source_path, source_path_plan(b)) + plan_if(d.build_path, build_path_plan(b))
        + plan_if(d.source_date_epoch, date_epoch_plan(b)) + plan_if(
        d.source_mtime,
        mtime_plan(b),
    ) + plan_if(d.timezone, timezone_plan(b)) + plan_if(d.locale, locale_plan(b)) + plan_if(
        d.hostname,
        hostname_plan(b),
    ) + plan_if(d.cpu_count, cpu_plan(b)) + plan_if(d.umask, umask_plan(b)) + plan_if(
        d.directory_order,
        order_plan(b),
    ) + variable_plans(
        e.environment_variables.deep_view(),
        b,
        e.environment_variables.deep_view().len() as int,
    )
}

fn push_plan(
    planned: &mut Vec<PlannedIntervention>,
    id: String,
    kind: InterventionKind,
    variable: String,
    baseline_value: String,
    variant_value: String,
    description: String,
    environment: ControlledEnvironment,
)
    ensures
        final(planned).deep_view() == old(planned).deep_view().push(
            plan_of(
                id@,
                kind,
                variable@,
                baseline_value@,
                variant_value@,
                description@,
                environment.deep_view(),
            ),
        ),
{
    let ghost had = planned.deep_view();
    let plan = PlannedIntervention {
        intervention: Intervention {
            id,
            kind,
            variable,
            baseline_value,
            variant_value,
            description,
        },
        environment,
    };
    let ghost view = plan.deep_view();
    planned.push(plan);
    assert(planned.deep_view() =~= had.push(view));
}

fn plan_images(
    planned: &mut Vec<PlannedIntervention>,
    config: &Config,
    baseline: &ControlledEnvironment,
)
    ensures
        final(planned).deep_view() == old(planned).deep_view() + image_plans(
            *config,
            baseline.deep_view(),
            config.experiments.image_variants@.len() as int,
        ),
{
    let ghost had = planned.deep_view();
    let images = &config.experiments.image_variants;
    let mut n: usize = 0;
    assert(had + image_plans(*config, baseline.deep_view(), 0) =~= had);
    while n < images.len()
        invariant
            images@ == config.experiments.image_variants@,
            n <= images@.len(),
            planned.deep_view() == had + image_plans(*config, baseline.deep_view(), n as int),
        decreases images.len() - n,
    {
        let mut environment = baseline.clone();
        environment.image_override = Some(images[n].clone());
        n += 1;
        push_plan(
            planned,
            concat("build-image-", decimal(n as u128).as_str()),
            InterventionKind::BuildImage,
            "build_image".to_owned(),
            config.build.image.clone(),
            images[n - 1].clone(),
            "rebuild the identical source snapshot in an alternative container/toolchain image".to_owned(),
            environment,
        );
        assert(planned.deep_view() =~= had + image_plans(
            *config,
            baseline.deep_view(),
            n as int,
        ));
    }
}

fn plan_toolchain(
    planned: &mut Vec<PlannedIntervention>,
    lists: &ListMap,
    baseline: &ControlledEnvironment,
)
    requires
        forall|i: int|
            0 <= i < lists.deep_view().len() ==> (#[trigger] lists.deep_view()[i]).1.len() >= 2,
    ensures
        final(planned).deep_view() == old(planned).deep_view() + toolchain_plans(
            lists.deep_view(),
            baseline.deep_view(),
            lists.deep_view().len() as int,
        ),
{
    let ghost had = planned.deep_view();
    let entries = lists.entries();
    let mut n: usize = 0;
    assert(had + toolchain_plans(lists.deep_view(), baseline.deep_view(), 0) =~= had);
    while n < entries.len()
        invariant
            entries.deep_view() == lists.deep_view(),
            forall|i: int|
                0 <= i < lists.deep_view().len() ==> (#[trigger] lists.deep_view()[i]).1.len() >= 2,
            n <= entries@.len(),
            planned.deep_view() == had + toolchain_plans(
                lists.deep_view(),
                baseline.deep_view(),
                n as int,
            ),
        decreases entries.len() - n,
    {
        assert(lists.deep_view()[n as int].0 == entries@[n as int].0@);
        assert(lists.deep_view()[n as int].1 == entries@[n as int].1.deep_view());
        assert(lists.deep_view()[n as int].1[0] == entries@[n as int].1@[0]@);
        assert(lists.deep_view()[n as int].1[1] == entries@[n as int].1@[1]@);
        let key = &entries[n].0;
        let values = &entries[n].1;
        let mut environment = baseline.clone();
        environment.toolchain_bindings.insert(key.clone(), values[1].clone());
        push_plan(
            planned,
            concat("toolchain-", key.as_str()),
            InterventionKind::ToolchainExecutable,
            concat("toolchain:", key.as_str()),
            values[0].clone(),
            values[1].clone(),
            concat3(
                "change only the ",
                key.as_str(),
                " executable binding inside the same resolved build image",
            ),
            environment,
        );
        n += 1;
        assert(planned.deep_view() =~= had + toolchain_plans(
            lists.deep_view(),
            baseline.deep_view(),
            n as int,
        ));
    }
}

fn plan_dependencies(
    planned: &mut Vec<PlannedIntervention>,
    variants: &Vec<DependencyVariantConfig>,
    baseline: &ControlledEnvironment,
)
    ensures
        final(planned).deep_view() == old(planned).deep_view() + dependency_plans(
            variants@,
            baseline.deep_view(),
            variants@.len() as int,
        ),
{
    let ghost had = planned.deep_view();
    let mut n: usize = 0;
    assert(had + dependency_plans(variants@, baseline.deep_view(), 0) =~= had);
    while n < variants.len()
        invariant
            n <= variants@.len(),
            planned.deep_view() == had + dependency_plans(
                variants@,
                baseline.deep_view(),
                n as int,
            ),
        decreases variants.len() - n,
    {
        let v = &variants[n];
        let mut environment = baseline.clone();
        environment.source_file_overrides.insert(v.target.clone(), v.variant_file.clone());
        push_plan(
            planned,
            concat("dependency-", v.id.as_str()),
            InterventionKind::DependencyFile,
            concat("dependency:", v.target.as_str()),
            v.target.clone(),
            v.variant_file.clone(),
            concat5(
                "replace dependency declaration ",
                v.target.as_str(),
                " with controlled variant ",
                v.variant_file.as_str(),
                " in the fresh workspace",
            ),
            environment,
        );
        n += 1;
        assert(planned.deep_view() =~= had + dependency_plans(
            variants@,
            baseline.deep_view(),
            n as int,
        ));
    }
}

fn plan_variables(
    planned: &mut Vec<PlannedIntervention>,
    lists: &ListMap,
    baseline: &ControlledEnvironment,
)
    requires
        forall|i: int|
            0 <= i < lists.deep_view().len() ==> (#[trigger] lists.deep_view()[i]).1.len() >= 2,
    ensures
        final(planned).deep_view() == old(planned).deep_view() + variable_plans(
            lists.deep_view(),
            baseline.deep_view(),
            lists.deep_view().len() as int,
        ),
{
    let ghost had = planned.deep_view();
    let entries = lists.entries();
    let mut n: usize = 0;
    assert(had + variable_plans(lists.deep_view(), baseline.deep_view(), 0) =~= had);
    while n < entries.len()
        invariant
            entries.deep_view() == lists.deep_view(),
            forall|i: int|
                0 <= i < lists.deep_view().len() ==> (#[trigger] lists.deep_view()[i]).1.len() >= 2,
            n <= entries@.len(),
            planned.deep_view() == had + variable_plans(
                lists.deep_view(),
                baseline.deep_view(),
                n as int,
            ),
        decreases entries.len() - n,
    {
        assert(lists.deep_view()[n as int].0 == entries@[n as int].0@);
        assert(lists.deep_view()[n as int].1 == entries@[n as int].1.deep_view());
        assert(lists.deep_view()[n as int].1[0] == entries@[n as int].1@[0]@);
        assert(lists.deep_view()[n as int].1[1] == entries@[n as int].1@[1]@);
        let key = &entries[n].0;
        let values = &entries[n].1;
        let mut environment = baseline.clone();
        environment.environment.insert(key.clone(), values[1].clone());
        push_plan(
            planned,
            concat("env-", key.as_str()),
            InterventionKind::EnvironmentVariable,
            key.clone(),
            values[0].clone(),
            values[1].clone(),
            concat("change configured environment variable ", key.as_str()),
            environment,
        );
        n += 1;
        assert(planned.deep_view() =~= had + variable_plans(
            lists.deep_view(),
            baseline.deep_view(),
            n as int,
        ));
    }
}

fn push_network_plan(planned: &mut Vec<PlannedIntervention>, wanted: bool, baseline: &ControlledEnvironment)
    ensures
        final(planned).deep_view() == old(planned).deep_view() + plan_if(
            wanted,
            network_plan(baseline.deep_view()),
        ),
{
    let ghost had = planned.deep_view();
    if wanted {
        let mut environment = baseline.clone();
        environment.network_mode = "none".to_owned();
        push_plan(
            planned,
            "network-none".to_owned(),
            InterventionKind::NetworkAccess,
            "network_access".to_owned(),
            "default".to_owned(),
            "none".to_owned(),
            "disable container networking to test whether the build or artifact depends on network availability".to_owned(),
            environment,
        );
    }
    assert(planned.deep_view() =~= had + plan_if(wanted, network_plan(baseline.deep_view())));
}

fn push_source_path_plan(planned: &mut Vec<PlannedIntervention>, wanted: bool, baseline: &ControlledEnvironment)
    ensures
        final(planned).deep_view() == old(planned).deep_view() + plan_if(
            wanted,
            source_path_plan(baseline.deep_view()),
        ),
{
    let ghost had = planned.deep_view();
    if wanted {
        let mut environment = baseline.clone();
        environment.container_source_path = "/opt/reprobisect/source".to_owned();
        push_plan(
            planned,
            "source-path".to_owned(),
            InterventionKind::SourcePath,
            "source_path".to_owned(),
            baseline.container_source_path.clone(),
            "/opt/reprobisect/source".to_owned(),
            "expose the same source snapshot at a different in-container source path".to_owned(),
            environment,
        );
    }
    assert(planned.deep_view() =~= had + plan_if(wanted, source_path_plan(baseline.deep_view())));
}

fn push_build_path_plan(planned: &mut Vec<PlannedIntervention>, wanted: bool, baseline: &ControlledEnvironment)
    ensures
        final(planned).deep_view() == old(planned).deep_view() + plan_if(
            wanted,
            build_path_plan(baseline.deep_view()),
        ),
{
    let ghost had = planned.deep_view();
    if wanted {
        let mut environment = baseline.clone();
        environment.container_work_path = "/opt/reprobisect/build".to_owned();
        push_plan(
            planned,
            "build-path".to_owned(),
            InterventionKind::BuildPath,
            "build_path".to_owned(),
            baseline.container_work_path.clone(),
            "/opt/reprobisect/build".to_owned(),
            "rebuild from a different in-container workspace path".to_owned(),
            environment,
        );
    }
    assert(planned.deep_view() =~= had + plan_if(wanted, build_path_plan(baseline.deep_view())));
}

fn push_date_epoch_plan(planned: &mut Vec<PlannedIntervention>, wanted: bool, baseline: &ControlledEnvironment)
    ensures
        final(planned).deep_view() == old(planned).deep_view() + plan_if(
            wanted,
            date_epoch_plan(baseline.deep_view()),
        ),
{
    let ghost had = planned.deep_view();
    if wanted {
        let mut environment = baseline.clone();
        environment.environment.insert(
            "SOURCE_DATE_EPOCH".to_owned(),
            VARIANT_SOURCE_DATE_EPOCH.to_owned(),
        );
        push_plan(
            planned,
            "source-date-epoch".to_owned(),
            InterventionKind::SourceDateEpoch,
            "SOURCE_DATE_EPOCH".to_owned(),
            BASELINE_SOURCE_DATE_EPOCH.to_owned(),
            VARIANT_SOURCE_DATE_EPOCH.to_owned(),
            "change the standardized build timestamp input".to_owned(),
            environment,
        );
    }
    assert(planned.deep_view() =~= had + plan_if(wanted, date_epoch_plan(baseline.deep_view())));
}

fn push_mtime_plan(planned: &mut Vec<PlannedIntervention>, wanted: bool, baseline: &ControlledEnvironment)
    ensures
        final(planned).deep_view() == old(planned).deep_view() + plan_if(
            wanted,
            mtime_plan(baseline.deep_view()),
        ),
{
    let ghost had = planned.deep_view();
    if wanted {
        let mut environment = baseline.clone();
        environment.source_mtime_epoch = Some(VARIANT_SOURCE_MTIME_EPOCH);
        push_plan(
            planned,
            "source-mtime".to_owned(),
            InterventionKind::SourceMtime,
            "source_mtime".to_owned(),
            signed_decimal(BASELINE_SOURCE_MTIME_EPOCH),
            signed_decimal(VARIANT_SOURCE_MTIME_EPOCH),
            "change copied source-tree mtimes while keeping source bytes fixed".to_owned(),
            environment,
        );
    }
    assert(planned.deep_view() =~= had + plan_if(wanted, mtime_plan(baseline.deep_view())));
}

fn push_timezone_plan(planned: &mut Vec<PlannedIntervention>, wanted: bool, baseline: &ControlledEnvironment)
    ensures
        final(planned).deep_view() == old(planned).deep_view() + plan_if(
            wanted,
            timezone_plan(baseline.deep_view()),
        ),
{
    let ghost had = planned.deep_view();
    if wanted {
        let mut environment = baseline.clone();
        environment.environment.insert("TZ".to_owned(), "HST10".to_owned());
        push_plan(
            planned,
            "timezone".to_owned(),
            InterventionKind::Timezone,
            "TZ".to_owned(),
            "UTC".to_owned(),
            "HST10".to_owned(),
            "change process timezone while keeping source and toolchain fixed".to_owned(),
            environment,
        );
    }
    assert(planned.deep_view() =~= had + plan_if(wanted, timezone_plan(baseline.deep_view())));
}

fn push_locale_plan(planned: &mut Vec<PlannedIntervention>, wanted: bool, baseline: &ControlledEnvironment)
    ensures
        final(planned).deep_view() == old(planned).deep_view() + plan_if(
            wanted,
            locale_plan(baseline.deep_view()),
        ),
{
    let ghost had = planned.deep_view();
    if wanted {
        let mut environment = baseline.clone();
        environment.environment.insert("LANG".to_owned(), "C.UTF-8".to_owned());
        environment.environment.insert("LC_ALL".to_owned(), "C.UTF-8".to_owned());
        push_plan(
            planned,
            "locale".to_owned(),
            InterventionKind::Locale,
            "locale".to_owned(),
            "C".to_owned(),
            "C.UTF-8".to_owned(),
            "change process locale while keeping other controlled inputs fixed".to_owned(),
            environment,
        );
    }
    assert(planned.deep_view() =~= had + plan_if(wanted, locale_plan(baseline.deep_view())));
}

fn push_hostname_plan(planned: &mut Vec<PlannedIntervention>, wanted: bool, baseline: &ControlledEnvironment)
    ensures
        final(planned).deep_view() == old(planned).deep_view() + plan_if(
            wanted,
            hostname_plan(baseline.deep_view()),
        ),
{
    let ghost had = planned.deep_view();
    if wanted {
        let mut environment = baseline.clone();
        environment.hostname = Some("reprobisect-variant".to_owned());
        push_plan(
            planned,
            "hostname".to_owned(),
            InterventionKind::Hostname,
            "hostname".to_owned(),
            match &baseline.hostname {
                Some(name) => name.clone(),
                None => "<default>".to_owned(),
            },
            "reprobisect-variant".to_owned(),
            "change the container hostname".to_owned(),
            environment,
        );
    }
    assert(planned.deep_view() =~= had + plan_if(wanted, hostname_plan(baseline.deep_view())));
}

fn push_cpu_plan(planned: &mut Vec<PlannedIntervention>, wanted: bool, baseline: &ControlledEnvironment)
    ensures
        final(planned).deep_view() == old(planned).deep_view() + plan_if(
            wanted,
            cpu_plan(baseline.deep_view()),
        ),
{
    let ghost had = planned.deep_view();
    if wanted {
        let mut environment = baseline.clone();
        environment.cpu_count = Some(2);
        push_plan(
            planned,
            "cpu-count".to_owned(),
            InterventionKind::CpuCount,
            "cpu_count".to_owned(),
            "1".to_owned(),
            "2".to_owned(),
            "change the container CPU quota and REPROBISECT_CPU_COUNT hint".to_owned(),
            environment,
        );
    }
    assert(planned.deep_view() =~= had + plan_if(wanted, cpu_plan(baseline.deep_view())));
}

fn push_umask_plan(planned: &mut Vec<PlannedIntervention>, wanted: bool, baseline: &ControlledEnvironment)
    ensures
        final(planned).deep_view() == old(planned).deep_view() + plan_if(
            wanted,
            umask_plan(baseline.deep_view()),
        ),
{
    let ghost had = planned.deep_view();
    if wanted {
        let mut environment = baseline.clone();
        environment.umask = Some(VARIANT_UMASK);
        push_plan(
            planned,
            "umask".to_owned(),
            InterventionKind::Umask,
            "umask".to_owned(),
            padded_digits(BASELINE_UMASK as u128, 8, 3),
            padded_digits(VARIANT_UMASK as u128, 8, 3),
            "change the process file-creation mask".to_owned(),
            environment,
        );
    }
    assert(planned.deep_view() =~= had + plan_if(wanted, umask_plan(baseline.deep_view())));
}

fn push_order_plan(planned: &mut Vec<PlannedIntervention>, wanted: bool, baseline: &ControlledEnvironment)
    ensures
        final(planned).deep_view() == old(planned).deep_view() + plan_if(
            wanted,
            order_plan(baseline.deep_view()),
        ),
{
    let ghost had = planned.deep_view();
    if wanted {
        let mut environment = baseline.clone();
        environment.source_copy_order = SourceCopyOrder::Reverse;
        push_plan(
            planned,
            "directory-order".to_owned(),
            InterventionKind::DirectoryOrder,
            "directory_order".to_owned(),
            "sorted".to_owned(),
            "reverse".to_owned(),
            "materialize the fresh source snapshot in reverse lexical creation order as a best-effort filesystem enumeration perturbation".to_owned(),
            environment,
        );
    }
    assert(planned.deep_view() =~= had + plan_if(wanted, order_plan(baseline.deep_view())));
}

/// All interventions that a configuration asks for, in the order in which they are tried.
pub fn plan_interventions(config: &Config, baseline: &ControlledEnvironment) -> (r: Vec<
    PlannedIntervention,
>)
    requires
        values_are_paired(*config),
    ensures
        r.deep_view() == plans_of(*config, baseline.deep_view()),
{
    let mut planned: Vec<PlannedIntervention> = Vec::new();
    assert(planned.deep_view() =~= Seq::<PlannedInterventionView>::empty());
    plan_images(&mut planned, config, baseline);
    assert(planned.deep_view() =~= image_plans(
        *config,
        baseline.deep_view(),
        config.experiments.image_variants@.len() as int,
    ));
    plan_toolchain(&mut planned, &config.experiments.toolchain_variables, baseline);
    plan_dependencies(&mut planned, &config.experiments.dependency_variants, baseline);
    let dimensions = &config.experiments.dimensions;
    push_network_plan(&mut planned, dimensions.network_access, baseline);
    push_source_path_plan(&mut planned, dimensions.source_path, baseline);
    push_build_path_plan(&mut planned, dimensions.build_path, baseline);
    push_date_epoch_plan(&mut planned, dimensions.source_date_epoch, baseline);
    push_mtime_plan(&mut planned, dimensions.source_mtime, baseline);
    push_timezone_plan(&mut planned, dimensions.timezone, baseline);
    push_locale_plan(&mut planned, dimensions.locale, baseline);
    push_hostname_plan(&mut planned, dimensions.hostname, baseline);
    push_cpu_plan(&mut planned, dimensions.cpu_count, baseline);
    push_umask_plan(&mut planned, dimensions.umask, baseline);
    push_order_plan(&mut planned, dimensions.directory_order, baseline);
    plan_variables(&mut planned, &config.experiments.environment_variables, baseline);
    planned
}

/// Whether an intervention may be combined with others in the search for interactions.
pub open spec fn is_eligible(kind: InterventionKind) -> bool {
    !(kind is CpuCount || kind is BuildImage || kind is ToolchainExecutable || kind
        is DependencyFile || kind is NetworkAccess)
}

pub fn eligible_for_interaction_search(intervention: &PlannedIntervention) -> (r: bool)
    ensures
        r == is_eligible(intervention.intervention.kind),
{
    match intervention.intervention.kind {
        InterventionKind::CpuCount
        | InterventionKind::BuildImage
        | InterventionKind::ToolchainExecutable
        | InterventionKind::DependencyFile
        | InterventionKind::NetworkAccess => false,
        _ => true,
    }
}


/// The planned value where it departs from the baseline, else what there was.
pub open spec fn departed<T>(combined: T, planned: T, baseline: T) -> T {
    if planned != baseline {
        planned
    } else {
        combined
    }
}

/// `combined` with the first `n` planned entries that depart from the baseline.
pub open spec fn departures_added(
    setting: KeyedSetting,
    combined: Entries,
    baseline: Entries,
    planned: Entries,
    n: int,
) -> Entries
    decreases n,
{
    if n <= 0 {
        combined
    } else {
        let earlier = departures_added(setting, combined, baseline, planned, n - 1);
        let order = setting_order(setting);
        if same_setting(
            setting,
            value_at(order, baseline, planned[n - 1].0),
            Some(planned[n - 1].1),
        ) {
            earlier
        } else {
            with_entry(order, earlier, planned[n - 1].0, planned[n - 1].1)
        }
    }
}

/// `combined` with every departure of `planned` from the baseline.
pub open spec fn absorbed(
    combined: ControlledEnvironmentView,
    planned: ControlledEnvironmentView,
    baseline: ControlledEnvironmentView,
) -> ControlledEnvironmentView {
    ControlledEnvironmentView {
        image_override: departed(combined.image_override, planned.image_override, baseline.image_override),
        container_source_path: departed(combined.container_source_path, planned.container_source_path, baseline.container_source_path),
        container_work_path: departed(combined.container_work_path, planned.container_work_path, baseline.container_work_path),
        source_copy_order: departed(combined.source_copy_order, planned.source_copy_order, baseline.source_copy_order),
        environment: departures_added(
            KeyedSetting::Variable,
            combined.environment,
            baseline.environment,
            planned.environment,
            planned.environment.len() as int,
        ),
        toolchain_bindings: departures_added(
            KeyedSetting::Binding,
            combined.toolchain_bindings,
            baseline.toolchain_bindings,
            planned.toolchain_bindings,
            planned.toolchain_bindings.len() as int,
        ),
        source_file_overrides: departures_added(
            KeyedSetting::Override,
            combined.source_file_overrides,
            baseline.source_file_overrides,
            planned.source_file_overrides,
            planned.source_file_overrides.len() as int,
        ),
        hostname: departed(combined.hostname, planned.hostname, baseline.hostname),
        cpu_count: departed(combined.cpu_count, planned.cpu_count, baseline.cpu_count),
        source_mtime_epoch: departed(combined.source_mtime_epoch, planned.source_mtime_epoch, baseline.source_mtime_epoch),
        umask: departed(combined.umask, planned.umask, baseline.umask),
        network_mode: departed(combined.network_mode, planned.network_mode, baseline.network_mode),
        network_trace: departed(combined.network_trace, planned.network_trace, baseline.network_trace),
        file_input_trace: departed(combined.file_input_trace, planned.file_input_trace, baseline.file_input_trace),
        syscall_trace_max_bytes: departed(combined.syscall_trace_max_bytes, planned.syscall_trace_max_bytes, baseline.syscall_trace_max_bytes),
        runtime_dependency_provenance: departed(combined.runtime_dependency_provenance, planned.runtime_dependency_provenance, baseline.runtime_dependency_provenance),
        dependency_cache_paths: departed(combined.dependency_cache_paths, planned.dependency_cache_paths, baseline.dependency_cache_paths),
        dependency_cache_max_files: departed(combined.dependency_cache_max_files, planned.dependency_cache_max_files, baseline.dependency_cache_max_files),
        dependency_cache_max_bytes: departed(combined.dependency_cache_max_bytes, planned.dependency_cache_max_bytes, baseline.dependency_cache_max_bytes),
    }
}

/// The baseline with the departures of the first `n` plans, later ones over earlier ones.
pub open spec fn combination(
    baseline: ControlledEnvironmentView,
    plans: Seq<PlannedInterventionView>,
    n: int,
) -> ControlledEnvironmentView
    decreases n,
{
    if n <= 0 {
        baseline
    } else {
        absorbed(combination(baseline, plans, n - 1), plans[n - 1].environment, baseline)
    }
}

fn add_departures(
    setting: KeyedSetting,
    combined: &mut StringMap,
    baseline: &StringMap,
    planned: &StringMap,
)
    requires
        !(setting is Override),
    ensures
        final(combined).deep_view() == departures_added(
            setting,
            old(combined).deep_view(),
            baseline.deep_view(),
            planned.deep_view(),
            planned.deep_view().len() as int,
        ),
{
    let ghost had = combined.deep_view();
    let entries = planned.entries();
    let mut n: usize = 0;
    while n < entries.len()
        invariant
            !(setting is Override),
            entries.deep_view() == planned.deep_view(),
            n <= entries@.len(),
            combined.deep_view() == departures_added(
                setting,
                had,
                baseline.deep_view(),
                planned.deep_view(),
                n as int,
            ),
        decreases entries.len() - n,
    {
        assert(planned.deep_view()[n as int].0 == entries@[n as int].0@);
        assert(planned.deep_view()[n as int].1 == entries@[n as int].1@);
        let departs = match baseline.get(entries[n].0.as_str()) {
            Some(value) => !same(value.as_str(), entries[n].1.as_str()),
            None => true,
        };
        if departs {
            combined.insert(entries[n].0.clone(), entries[n].1.clone());
        }
        n += 1;
    }
}

fn add_path_departures(combined: &mut PathMap, baseline: &PathMap, planned: &PathMap)
    ensures
        final(combined).deep_view() == departures_added(
            KeyedSetting::Override,
            old(combined).deep_view(),
            baseline.deep_view(),
            planned.deep_view(),
            planned.deep_view().len() as int,
        ),
{
    let ghost had = combined.deep_view();
    let entries = planned.entries();
    let mut n: usize = 0;
    while n < entries.len()
        invariant
            entries.deep_view() == planned.deep_view(),
            n <= entries@.len(),
            combined.deep_view() == departures_added(
                KeyedSetting::Override,
                had,
                baseline.deep_view(),
                planned.deep_view(),
                n as int,
            ),
        decreases entries.len() - n,
    {
        assert(planned.deep_view()[n as int].0 == entries@[n as int].0@);
        assert(planned.deep_view()[n as int].1 == entries@[n as int].1@);
        let departs = match baseline.get(entries[n].0.as_str()) {
            Some(value) => !same_path(value.as_str(), entries[n].1.as_str()),
            None => true,
        };
        if departs {
            combined.insert(entries[n].0.clone(), entries[n].1.clone());
        }
        n += 1;
    }
}

fn depart_text(combined: String, planned: &String, baseline: &String) -> (r: String)
    ensures
        r@ == departed(combined@, planned@, baseline@),
{
    if *planned != *baseline {
        planned.clone()
    } else {
        combined
    }
}

fn depart_option_text(
    combined: Option<String>,
    planned: &Option<String>,
    baseline: &Option<String>,
) -> (r: Option<String>)
    ensures
        r.deep_view() == departed(combined.deep_view(), planned.deep_view(), baseline.deep_view()),
{
    if same_option(planned, baseline) {
        combined
    } else {
        planned.clone()
    }
}

fn depart_map(combined: StringMap, planned: &StringMap, baseline: &StringMap) -> (r: StringMap)
    ensures
        r.deep_view() == departed(combined.deep_view(), planned.deep_view(), baseline.deep_view()),
{
    if same_entries(planned.entries(), baseline.entries()) {
        combined
    } else {
        planned.clone()
    }
}

fn depart_order(combined: SourceCopyOrder, planned: SourceCopyOrder, baseline: SourceCopyOrder) -> (r: SourceCopyOrder)
    ensures
        r == departed(combined, planned, baseline),
{
    if planned != baseline {
        planned
    } else {
        combined
    }
}

fn depart_count(combined: Option<u32>, planned: Option<u32>, baseline: Option<u32>) -> (r: Option<u32>)
    ensures
        r == departed(combined, planned, baseline),
{
    if planned != baseline {
        planned
    } else {
        combined
    }
}

fn depart_epoch(combined: Option<i64>, planned: Option<i64>, baseline: Option<i64>) -> (r: Option<i64>)
    ensures
        r == departed(combined, planned, baseline),
{
    if planned != baseline {
        planned
    } else {
        combined
    }
}

fn depart_flag(combined: bool, planned: bool, baseline: bool) -> (r: bool)
    ensures
        r == departed(combined, planned, baseline),
{
    if planned != baseline {
        planned
    } else {
        combined
    }
}

fn depart_bytes(combined: u64, planned: u64, baseline: u64) -> (r: u64)
    ensures
        r == departed(combined, planned, baseline),
{
    if planned != baseline {
        planned
    } else {
        combined
    }
}

fn depart_files(combined: usize, planned: usize, baseline: usize) -> (r: usize)
    ensures
        r == departed(combined, planned, baseline),
{
    if planned != baseline {
        planned
    } else {
        combined
    }
}

fn absorb(
    combined: ControlledEnvironment,
    planned: &ControlledEnvironment,
    baseline: &ControlledEnvironment,
) -> (r: ControlledEnvironment)
    ensures
        r.deep_view() == absorbed(
            combined.deep_view(),
            planned.deep_view(),
            baseline.deep_view(),
        ),
{
    let mut environment = combined.environment;
    add_departures(
        KeyedSetting::Variable,
        &mut environment,
        &baseline.environment,
        &planned.environment,
    );
    let mut toolchain_bindings = combined.toolchain_bindings;
    add_departures(
        KeyedSetting::Binding,
        &mut toolchain_bindings,
        &baseline.toolchain_bindings,
        &planned.toolchain_bindings,
    );
    let mut source_file_overrides = combined.source_file_overrides;
    add_path_departures(
        &mut source_file_overrides,
        &baseline.source_file_overrides,
        &planned.source_file_overrides,
    );
    ControlledEnvironment {
        image_override: depart_option_text(
            combined.image_override,
            &planned.image_override,
            &baseline.image_override,
        ),
        container_source_path: depart_text(
            combined.container_source_path,
            &planned.container_source_path,
            &baseline.container_source_path,
        ),
        container_work_path: depart_text(
            combined.container_work_path,
            &planned.container_work_path,
            &baseline.container_work_path,
        ),
        source_copy_order: depart_order(
            combined.source_copy_order,
            planned.source_copy_order,
            baseline.source_copy_order,
        ),
        environment,
        toolchain_bindings,
        source_file_overrides,
        hostname: depart_option_text(
            combined.hostname,
            &planned.hostname,
            &baseline.hostname,
        ),
        cpu_count: depart_count(
            combined.cpu_count,
            planned.cpu_count,
            baseline.cpu_count,
        ),
        source_mtime_epoch: depart_epoch(
            combined.source_mtime_epoch,
            planned.source_mtime_epoch,
            baseline.source_mtime_epoch,
        ),
        umask: depart_count(
            combined.umask,
            planned.umask,
            baseline.umask,
        ),
        network_mode: depart_text(
            combined.network_mode,
            &planned.network_mode,
            &baseline.network_mode,
        ),
        network_trace: depart_flag(
            combined.network_trace,
            planned.network_trace,
            baseline.network_trace,
        ),
        file_input_trace: depart_flag(
            combined.file_input_trace,
            planned.file_input_trace,
            baseline.file_input_trace,
        ),
        syscall_trace_max_bytes: depart_bytes(
            combined.syscall_trace_max_bytes,
            planned.syscall_trace_max_bytes,
            baseline.syscall_trace_max_bytes,
        ),
        runtime_dependency_provenance: depart_flag(
            combined.runtime_dependency_provenance,
            planned.runtime_dependency_provenance,
            baseline.runtime_dependency_provenance,
        ),
        dependency_cache_paths: depart_map(
            combined.dependency_cache_paths,
            &planned.dependency_cache_paths,
            &baseline.dependency_cache_paths,
        ),
        dependency_cache_max_files: depart_files(
            combined.dependency_cache_max_files,
            planned.dependency_cache_max_files,
            baseline.dependency_cache_max_files,
        ),
        dependency_cache_max_bytes: depart_bytes(
            combined.dependency_cache_max_bytes,
            planned.dependency_cache_max_bytes,
            baseline.dependency_cache_max_bytes,
        ),
    }
}

/// The baseline with the departures of all `interventions`.
pub fn combine_interventions(
    baseline: &ControlledEnvironment,
    interventions: &[PlannedIntervention],
) -> (r: ControlledEnvironment)
    ensures
        r.deep_view() == combination(
            baseline.deep_view(),
            interventions.deep_view(),
            interventions@.len() as int,
        ),
{
    let mut combined = baseline.clone();
    let mut n: usize = 0;
    while n < interventions.len()
        invariant
            n <= interventions@.len(),
            combined.deep_view() == combination(
                baseline.deep_view(),
                interventions.deep_view(),
                n as int,
            ),
        decreases interventions.len() - n,
    {
        assert(interventions.deep_view()[n as int] == interventions@[n as int].deep_view());
        combined = absorb(combined, &interventions[n].environment, baseline);
        n += 1;
    }
    combined
}

/// A combination reverts nothing: a setting that no plan changes keeps its baseline value, and one
/// that a plan changes keeps that plan's value unless a later plan changes it too.
pub proof fn law_combination_reverts_nothing(
    baseline: ControlledEnvironmentView,
    plans: Seq<PlannedInterventionView>,
    n: int,
    i: int,
)
    requires
        0 <= n <= plans.len(),
    ensures
        ({
            let combined = combination(baseline, plans, n);
            &&& (forall|j: int|
                0 <= j < n ==> (#[trigger] plans[j]).environment.image_override == baseline.image_override)
                ==> combined.image_override == baseline.image_override
            &&& 0 <= i < n && plans[i].environment.image_override != baseline.image_override && (forall|j: int|
                i < j < n ==> (#[trigger] plans[j]).environment.image_override == baseline.image_override)
                ==> combined.image_override == plans[i].environment.image_override
            &&& (forall|j: int|
                0 <= j < n ==> (#[trigger] plans[j]).environment.container_source_path == baseline.container_source_path)
                ==> combined.container_source_path == baseline.container_source_path
            &&& 0 <= i < n && plans[i].environment.container_source_path != baseline.container_source_path && (forall|j: int|
                i < j < n ==> (#[trigger] plans[j]).environment.container_source_path == baseline.container_source_path)
                ==> combined.container_source_path == plans[i].environment.container_source_path
            &&& (forall|j: int|
                0 <= j < n ==> (#[trigger] plans[j]).environment.container_work_path == baseline.container_work_path)
                ==> combined.container_work_path == baseline.container_work_path
            &&& 0 <= i < n && plans[i].environment.container_work_path != baseline.container_work_path && (forall|j: int|
                i < j < n ==> (#[trigger] plans[j]).environment.container_work_path == baseline.container_work_path)
                ==> combined.container_work_path == plans[i].environment.container_work_path
            &&& (forall|j: int|
                0 <= j < n ==> (#[trigger] plans[j]).environment.source_copy_order == baseline.source_copy_order)
                ==> combined.source_copy_order == baseline.source_copy_order
            &&& 0 <= i < n && plans[i].environment.source_copy_order != baseline.source_copy_order && (forall|j: int|
                i < j < n ==> (#[trigger] plans[j]).environment.source_copy_order == baseline.source_copy_order)
                ==> combined.source_copy_order == plans[i].environment.source_copy_order
            &&& (forall|j: int|
                0 <= j < n ==> (#[trigger] plans[j]).environment.hostname == baseline.hostname)
                ==> combined.hostname == baseline.hostname
            &&& 0 <= i < n && plans[i].environment.hostname != baseline.hostname && (forall|j: int|
                i < j < n ==> (#[trigger] plans[j]).environment.hostname == baseline.hostname)
                ==> combined.hostname == plans[i].environment.hostname
            &&& (forall|j: int|
                0 <= j < n ==> (#[trigger] plans[j]).environment.cpu_count == baseline.cpu_count)
                ==> combined.cpu_count == baseline.cpu_count
            &&& 0 <= i < n && plans[i].environment.cpu_count != baseline.cpu_count && (forall|j: int|
                i < j < n ==> (#[trigger] plans[j]).environment.cpu_count == baseline.cpu_count)
                ==> combined.cpu_count == plans[i].environment.cpu_count
            &&& (forall|j: int|
                0 <= j < n ==> (#[trigger] plans[j]).environment.source_mtime_epoch == baseline.source_mtime_epoch)
                ==> combined.source_mtime_epoch == baseline.source_mtime_epoch
            &&& 0 <= i < n && plans[i].environment.source_mtime_epoch != baseline.source_mtime_epoch && (forall|j: int|
                i < j < n ==> (#[trigger] plans[j]).environment.source_mtime_epoch == baseline.source_mtime_epoch)
                ==> combined.source_mtime_epoch == plans[i].environment.source_mtime_epoch
            &&& (forall|j: int|
                0 <= j < n ==> (#[trigger] plans[j]).environment.umask == baseline.umask)
                ==> combined.umask == baseline.umask
            &&& 0 <= i < n && plans[i].environment.umask != baseline.umask && (forall|j: int|
                i < j < n ==> (#[trigger] plans[j]).environment.umask == baseline.umask)
                ==> combined.umask == plans[i].environment.umask
            &&& (forall|j: int|
                0 <= j < n ==> (#[trigger] plans[j]).environment.network_mode == baseline.network_mode)
                ==> combined.network_mode == baseline.network_mode
            &&& 0 <= i < n && plans[i].environment.network_mode != baseline.network_mode && (forall|j: int|
                i < j < n ==> (#[trigger] plans[j]).environment.network_mode == baseline.network_mode)
                ==> combined.network_mode == plans[i].environment.network_mode
            &&& (forall|j: int|
                0 <= j < n ==> (#[trigger] plans[j]).environment.network_trace == baseline.network_trace)
                ==> combined.network_trace == baseline.network_trace
            &&& 0 <= i < n && plans[i].environment.network_trace != baseline.network_trace && (forall|j: int|
                i < j < n ==> (#[trigger] plans[j]).environment.network_trace == baseline.network_trace)
                ==> combined.network_trace == plans[i].environment.network_trace
            &&& (forall|j: int|
                0 <= j < n ==> (#[trigger] plans[j]).environment.file_input_trace == baseline.file_input_trace)
                ==> combined.file_input_trace == baseline.file_input_trace
            &&& 0 <= i < n && plans[i].environment.file_input_trace != baseline.file_input_trace && (forall|j: int|
                i < j < n ==> (#[trigger] plans[j]).environment.file_input_trace == baseline.file_input_trace)
                ==> combined.file_input_trace == plans[i].environment.file_input_trace
            &&& (forall|j: int|
                0 <= j < n ==> (#[trigger] plans[j]).environment.syscall_trace_max_bytes == baseline.syscall_trace_max_bytes)
                ==> combined.syscall_trace_max_bytes == baseline.syscall_trace_max_bytes
            &&& 0 <= i < n && plans[i].environment.syscall_trace_max_bytes != baseline.syscall_trace_max_bytes && (forall|j: int|
                i < j < n ==> (#[trigger] plans[j]).environment.syscall_trace_max_bytes == baseline.syscall_trace_max_bytes)
                ==> combined.syscall_trace_max_bytes == plans[i].environment.syscall_trace_max_bytes
            &&& (forall|j: int|
                0 <= j < n ==> (#[trigger] plans[j]).environment.runtime_dependency_provenance == baseline.runtime_dependency_provenance)
                ==> combined.runtime_dependency_provenance == baseline.runtime_dependency_provenance
            &&& 0 <= i < n && plans[i].environment.runtime_dependency_provenance != baseline.runtime_dependency_provenance && (forall|j: int|
                i < j < n ==> (#[trigger] plans[j]).environment.runtime_dependency_provenance == baseline.runtime_dependency_provenance)
                ==> combined.runtime_dependency_provenance == plans[i].environment.runtime_dependency_provenance
            &&& (forall|j: int|
                0 <= j < n ==> (#[trigger] plans[j]).environment.dependency_cache_paths == baseline.dependency_cache_paths)
                ==> combined.dependency_cache_paths == baseline.dependency_cache_paths
            &&& 0 <= i < n && plans[i].environment.dependency_cache_paths != baseline.dependency_cache_paths && (forall|j: int|
                i < j < n ==> (#[trigger] plans[j]).environment.dependency_cache_paths == baseline.dependency_cache_paths)
                ==> combined.dependency_cache_paths == plans[i].environment.dependency_cache_paths
            &&& (forall|j: int|
                0 <= j < n ==> (#[trigger] plans[j]).environment.dependency_cache_max_files == baseline.dependency_cache_max_files)
                ==> combined.dependency_cache_max_files == baseline.dependency_cache_max_files
            &&& 0 <= i < n && plans[i].environment.dependency_cache_max_files != baseline.dependency_cache_max_files && (forall|j: int|
                i < j < n ==> (#[trigger] plans[j]).environment.dependency_cache_max_files == baseline.dependency_cache_max_files)
                ==> combined.dependency_cache_max_files == plans[i].environment.dependency_cache_max_files
            &&& (forall|j: int|
                0 <= j < n ==> (#[trigger] plans[j]).environment.dependency_cache_max_bytes == baseline.dependency_cache_max_bytes)
                ==> combined.dependency_cache_max_bytes == baseline.dependency_cache_max_bytes
            &&& 0 <= i < n && plans[i].environment.dependency_cache_max_bytes != baseline.dependency_cache_max_bytes && (forall|j: int|
                i < j < n ==> (#[trigger] plans[j]).environment.dependency_cache_max_bytes == baseline.dependency_cache_max_bytes)
                ==> combined.dependency_cache_max_bytes == plans[i].environment.dependency_cache_max_bytes
        }),
    decreases n,
{
    if n > 0 {
        law_combination_reverts_nothing(baseline, plans, n - 1, i);
        let last = plans[n - 1];
    }
}

/// Whether a plan gives `k` a value that differs from the baseline's.
pub open spec fn departs_at(
    setting: KeyedSetting,
    baseline: Entries,
    planned: Entries,
    k: Seq<char>,
) -> bool {
    let order = setting_order(setting);
    value_at(order, planned, k) is Some && !same_setting(
        setting,
        value_at(order, baseline, k),
        value_at(order, planned, k),
    )
}

proof fn lemma_departures_added(
    setting: KeyedSetting,
    combined: Entries,
    baseline: Entries,
    planned: Entries,
    n: int,
    k: Seq<char>,
)
    requires
        increasing(setting_order(setting), combined),
        increasing(setting_order(setting), planned),
        0 <= n <= planned.len(),
    ensures
        ({
            let order = setting_order(setting);
            let after = departures_added(setting, combined, baseline, planned, n);
            &&& increasing(order, after)
            &&& (forall|m: int|
                0 <= m < n ==> key_of(order, (#[trigger] planned[m]).0) != key_of(order, k))
                ==> value_at(order, after, k) == value_at(order, combined, k)
            &&& forall|m: int|
                0 <= m < n && key_of(order, (#[trigger] planned[m]).0) == key_of(order, k)
                    ==> value_at(order, after, k) == if same_setting(
                    setting,
                    value_at(order, baseline, k),
                    Some(planned[m].1),
                ) {
                    value_at(order, combined, k)
                } else {
                    Some(planned[m].1)
                }
        }),
    decreases n,
{
    if n > 0 {
        let order = setting_order(setting);
        lemma_departures_added(setting, combined, baseline, planned, n - 1, k);
        let earlier = departures_added(setting, combined, baseline, planned, n - 1);
        let key = planned[n - 1].0;
        lemma_with_entry(order, earlier, key, planned[n - 1].1);
        let after = departures_added(setting, combined, baseline, planned, n);
        if key_of(order, key) == key_of(order, k) {
            lemma_same_key(order, baseline, key, k);
            lemma_same_key(order, after, key, k);
        }
        assert forall|m: int| 0 <= m < n - 1 implies key_of(order, (#[trigger] planned[m]).0)
            != key_of(order, key) by {
            assert(before(key_of(order, planned[m].0), key_of(order, planned[n - 1].0)));
            lemma_before_irreflexive(key_of(order, key));
        }
    }
}

/// The same of single environment variables, toolchain bindings and replaced files: one that no plan
/// changes keeps its baseline value, and one that a plan changes keeps that plan's value unless a
/// later plan changes it too.
pub proof fn law_combination_reverts_no_entry(
    setting: KeyedSetting,
    baseline: ControlledEnvironmentView,
    plans: Seq<PlannedInterventionView>,
    n: int,
    i: int,
    k: Seq<char>,
)
    requires
        0 <= n <= plans.len(),
        increasing(setting_order(setting), setting_entries(setting, baseline)),
        forall|j: int|
            0 <= j < plans.len() ==> increasing(
                setting_order(setting),
                setting_entries(setting, (#[trigger] plans[j]).environment),
            ),
    ensures
        ({
            let order = setting_order(setting);
            let own = setting_entries(setting, baseline);
            let combined = setting_entries(setting, combination(baseline, plans, n));
            &&& increasing(order, combined)
            &&& (forall|j: int|
                0 <= j < n ==> !departs_at(
                    setting,
                    own,
                    setting_entries(setting, (#[trigger] plans[j]).environment),
                    k,
                )) ==> value_at(order, combined, k) == value_at(order, own, k)
            &&& 0 <= i < n && departs_at(
                setting,
                own,
                setting_entries(setting, plans[i].environment),
                k,
            ) && (forall|j: int|
                i < j < n ==> !departs_at(
                    setting,
                    own,
                    setting_entries(setting, (#[trigger] plans[j]).environment),
                    k,
                )) ==> value_at(order, combined, k) == value_at(
                order,
                setting_entries(setting, plans[i].environment),
                k,
            )
        }),
    decreases n,
{
    if n > 0 {
        law_combination_reverts_no_entry(setting, baseline, plans, n - 1, i, k);
        let order = setting_order(setting);
        let earlier = setting_entries(setting, combination(baseline, plans, n - 1));
        let planned = setting_entries(setting, plans[n - 1].environment);
        lemma_departures_added(
            setting,
            earlier,
            setting_entries(setting, baseline),
            planned,
            planned.len() as int,
            k,
        );
        if value_at(order, planned, k) is Some {
            lemma_place(order, planned, k);
            let at = place_of(order, planned, k);
            assert(key_of(order, planned[at].0) == key_of(order, k));
        } else {
            assert forall|m: int| 0 <= m < planned.len() implies key_of(
                order,
                (#[trigger] planned[m]).0,
            ) != key_of(order, k) by {
                if key_of(order, planned[m].0) == key_of(order, k) {
                    lemma_found(order, planned, m, k);
                }
            }
        }
    }
}

/// Whether `k` is a variable that an intervention on environment variables names.
pub open spec fn names_variable(intervention: InterventionView, k: Seq<char>) -> bool {
    if intervention.kind is Locale {
        k == "LANG"@ || k == "LC_ALL"@
    } else {
        k == intervention.variable
    }
}

/// Whether `e` is `b` with the setting that the intervention names given its variant value, and
/// nothing else changed.
pub open spec fn varies_as_named(
    intervention: InterventionView,
    b: ControlledEnvironmentView,
    e: ControlledEnvironmentView,
) -> bool {
    let variant = intervention.variant_value;
    match intervention.kind {
        InterventionKind::BuildImage => e == (ControlledEnvironmentView {
            image_override: Some(variant),
            ..b
        }),
        InterventionKind::ToolchainExecutable => {
            &&& e == (ControlledEnvironmentView { toolchain_bindings: e.toolchain_bindings, ..b })
            &&& increasing(Order::Text, e.toolchain_bindings)
            &&& forall|k: Seq<char>| #[trigger]
                value_at(Order::Text, e.toolchain_bindings, k) == if intervention.variable
                    == "toolchain:"@ + k {
                    Some(variant)
                } else {
                    value_at(Order::Text, b.toolchain_bindings, k)
                }
        },
        InterventionKind::DependencyFile => {
            &&& e == (ControlledEnvironmentView {
                source_file_overrides: e.source_file_overrides,
                ..b
            })
            &&& intervention.variable == "dependency:"@ + intervention.baseline_value
            &&& increasing(Order::Path, e.source_file_overrides)
            &&& forall|k: Seq<char>| #[trigger]
                value_at(Order::Path, e.source_file_overrides, k) == if is_same_path(
                    intervention.baseline_value,
                    k,
                ) {
                    Some(variant)
                } else {
                    value_at(Order::Path, b.source_file_overrides, k)
                }
        },
        InterventionKind::NetworkAccess => e == (ControlledEnvironmentView {
            network_mode: variant,
            ..b
        }),
        InterventionKind::SourcePath => e == (ControlledEnvironmentView {
            container_source_path: variant,
            ..b
        }),
        InterventionKind::BuildPath => e == (ControlledEnvironmentView {
            container_work_path: variant,
            ..b
        }),
        InterventionKind::SourceMtime => {
            &&& e == (ControlledEnvironmentView { source_mtime_epoch: e.source_mtime_epoch, ..b })
            &&& e.source_mtime_epoch is Some
            &&& decimal_of(e.source_mtime_epoch->0 as int) == variant
        },
        InterventionKind::Hostname => e == (ControlledEnvironmentView {
            hostname: Some(variant),
            ..b
        }),
        InterventionKind::CpuCount => {
            &&& e == (ControlledEnvironmentView { cpu_count: e.cpu_count, ..b })
            &&& e.cpu_count is Some
            &&& decimal_of(e.cpu_count->0 as int) == variant
        },
        InterventionKind::Umask => {
            &&& e == (ControlledEnvironmentView { umask: e.umask, ..b })
            &&& e.umask is Some
            &&& octal_mask(e.umask->0) == variant
        },
        InterventionKind::DirectoryOrder => {
            &&& e == (ControlledEnvironmentView { source_copy_order: e.source_copy_order, ..b })
            &&& copy_order_name(e.source_copy_order) == variant
        },
        InterventionKind::SourceDateEpoch
        | InterventionKind::Timezone
        | InterventionKind::Locale
        | InterventionKind::EnvironmentVariable => {
            &&& e == (ControlledEnvironmentView { environment: e.environment, ..b })
            &&& increasing(Order::Text, e.environment)
            &&& forall|k: Seq<char>| #[trigger]
                value_at(Order::Text, e.environment, k) == if names_variable(intervention, k) {
                    Some(variant)
                } else {
                    value_at(Order::Text, b.environment, k)
                }
        },
    }
}

/// The place of an intervention's family among the families of a plan, told from its identifier.
pub open spec fn id_rank(id: Seq<char>) -> int {
    if id[0] == 'b' {
        if id[6] == 'i' {
            0
        } else {
            5
        }
    } else if id[0] == 't' {
        if id[1] == 'o' {
            1
        } else {
            8
        }
    } else if id[0] == 'd' {
        if id[1] == 'e' {
            2
        } else {
            13
        }
    } else if id[0] == 'n' {
        3
    } else if id[0] == 's' {
        if id[7] == 'p' {
            4
        } else if id[7] == 'd' {
            6
        } else {
            7
        }
    } else if id[0] == 'l' {
        9
    } else if id[0] == 'h' {
        10
    } else if id[0] == 'c' {
        11
    } else if id[0] == 'u' {
        12
    } else {
        14
    }
}

pub open spec fn ids_differ(plans: Seq<PlannedInterventionView>) -> bool {
    forall|i: int, j: int|
        0 <= i < j < plans.len() ==> (#[trigger] plans[i]).intervention.id != (
        #[trigger] plans[j]).intervention.id
}

/// Whether every plan varies as it says, the plans come from the first `rank` families, and, where
/// `unique` holds, no two have the same identifier.
#[verifier::opaque]
pub open spec fn in_order(
    plans: Seq<PlannedInterventionView>,
    b: ControlledEnvironmentView,
    rank: int,
    unique: bool,
) -> bool {
    &&& forall|i: int|
        0 <= i < plans.len() ==> varies_as_named(
            (#[trigger] plans[i]).intervention,
            b,
            plans[i].environment,
        )
    &&& forall|i: int|
        0 <= i < plans.len() ==> id_rank((#[trigger] plans[i]).intervention.id) < rank
    &&& unique ==> ids_differ(plans)
}

/// The same of one family.
pub open spec fn is_family(
    plans: Seq<PlannedInterventionView>,
    b: ControlledEnvironmentView,
    rank: int,
    unique: bool,
) -> bool {
    &&& forall|i: int|
        0 <= i < plans.len() ==> varies_as_named(
            (#[trigger] plans[i]).intervention,
            b,
            plans[i].environment,
        )
    &&& forall|i: int|
        0 <= i < plans.len() ==> id_rank((#[trigger] plans[i]).intervention.id) == rank
    &&& unique ==> ids_differ(plans)
}

proof fn lemma_family_added(
    plans: Seq<PlannedInterventionView>,
    family: Seq<PlannedInterventionView>,
    b: ControlledEnvironmentView,
    rank: int,
    unique: bool,
)
    requires
        in_order(plans, b, rank, unique),
        is_family(family, b, rank, unique),
    ensures
        in_order(plans + family, b, rank + 1, unique),
{
    reveal(in_order);
    let all = plans + family;
    assert forall|i: int| 0 <= i < all.len() implies varies_as_named(
        (#[trigger] all[i]).intervention,
        b,
        all[i].environment,
    ) && id_rank(all[i].intervention.id) < rank + 1 by {
        if i < plans.len() {
            assert(all[i] == plans[i]);
        } else {
            assert(all[i] == family[i - plans.len()]);
        }
    }
    if unique {
        assert forall|i: int, j: int| 0 <= i < j < all.len() implies (
        #[trigger] all[i]).intervention.id != (#[trigger] all[j]).intervention.id by {
            if j < plans.len() {
                assert(plans[i].intervention.id != plans[j].intervention.id);
            } else if i < plans.len() {
                assert(id_rank(plans[i].intervention.id) < rank);
                assert(id_rank(family[j - plans.len()].intervention.id) == rank);
            } else {
                assert(family[i - plans.len()].intervention.id != family[j
                    - plans.len()].intervention.id);
            }
        }
    }
}

/// One more plan that stands alone in its family.
proof fn lemma_plan_added(
    plans: Seq<PlannedInterventionView>,
    wanted: bool,
    plan: PlannedInterventionView,
    b: ControlledEnvironmentView,
    rank: int,
    unique: bool,
)
    requires
        in_order(plans, b, rank, unique),
        varies_as_named(plan.intervention, b, plan.environment),
        id_rank(plan.intervention.id) == rank,
    ensures
        in_order(plans + plan_if(wanted, plan), b, rank + 1, unique),
{
    lemma_family_added(plans, plan_if(wanted, plan), b, rank, unique);
}

proof fn lemma_image_plans(config: Config, b: ControlledEnvironmentView, n: int)
    requires
        0 <= n,
    ensures
        is_family(image_plans(config, b, n), b, 0, true),
        image_plans(config, b, n).len() == n,
        forall|i: int|
            0 <= i < n ==> (#[trigger] image_plans(config, b, n)[i]).intervention.id
                == "build-image-"@ + decimal_of(i + 1),
    decreases n,
{
    if n > 0 {
        lemma_image_plans(config, b, n - 1);
        reveal_strlit("build-image-");
        let plans = image_plans(config, b, n);
        assert forall|i: int, j: int| 0 <= i < j < plans.len() implies (
        #[trigger] plans[i]).intervention.id != (#[trigger] plans[j]).intervention.id by {
            lemma_decimals_differ(i + 1, j + 1);
            lemma_same_start("build-image-"@, decimal_of(i + 1), decimal_of(j + 1));
        }
    }
}

proof fn lemma_decimals_differ(i: int, j: int)
    requires
        0 <= i < j,
    ensures
        decimal_of(i) != decimal_of(j),
{
    law_written_numbers_read_back(i as nat, 10, j);
    law_written_numbers_read_back(j as nat, 10, j);
}

proof fn lemma_keys_differ(lists: ListEntries, i: int, j: int)
    requires
        keys_increase(list_keys(lists)),
        0 <= i < j < lists.len(),
    ensures
        lists[i].0 != lists[j].0,
{
    let keys = list_keys(lists);
    assert(before(text_key(keys[i]), text_key(keys[j])));
    lemma_before_irreflexive(text_key(keys[i]));
}

proof fn lemma_text_entry(entries: Entries, key: Seq<char>, value: Seq<char>)
    requires
        increasing(Order::Text, entries),
    ensures
        increasing(Order::Text, with_entry(Order::Text, entries, key, value)),
        forall|k: Seq<char>| #[trigger]
            value_at(Order::Text, with_entry(Order::Text, entries, key, value), k) == if k == key {
                Some(value)
            } else {
                value_at(Order::Text, entries, k)
            },
{
    lemma_with_entry(Order::Text, entries, key, value);
    assert forall|k: Seq<char>| #[trigger]
        value_at(Order::Text, with_entry(Order::Text, entries, key, value), k) == if k == key {
            Some(value)
        } else {
            value_at(Order::Text, entries, k)
        } by {
        lemma_text_key_injective(k, key);
    }
}

proof fn lemma_toolchain_plans(lists: ListEntries, b: ControlledEnvironmentView, n: int, unique: bool)
    requires
        0 <= n <= lists.len(),
        is_ordered(b),
        unique ==> keys_increase(list_keys(lists)),
    ensures
        is_family(toolchain_plans(lists, b, n), b, 1, unique),
        toolchain_plans(lists, b, n).len() == n,
        forall|i: int|
            0 <= i < n ==> (#[trigger] toolchain_plans(lists, b, n)[i]).intervention.id
                == "toolchain-"@ + lists[i].0,
    decreases n,
{
    if n > 0 {
        lemma_toolchain_plans(lists, b, n - 1, unique);
        reveal_strlit("toolchain-");
        let key = lists[n - 1].0;
        let plans = toolchain_plans(lists, b, n);
        let last = plans[n - 1];
        lemma_text_entry(b.toolchain_bindings, key, lists[n - 1].1[1]);
        assert forall|k: Seq<char>| #[trigger]
            value_at(Order::Text, last.environment.toolchain_bindings, k) == if last.intervention.variable
            == "toolchain:"@ + k {
            Some(lists[n - 1].1[1])
        } else {
            value_at(Order::Text, b.toolchain_bindings, k)
        } by {
            lemma_same_start("toolchain:"@, key, k);
        }
        if unique {
            assert forall|i: int, j: int| 0 <= i < j < plans.len() implies (
            #[trigger] plans[i]).intervention.id != (#[trigger] plans[j]).intervention.id by {
                lemma_keys_differ(lists, i, j);
                lemma_same_start("toolchain-"@, lists[i].0, lists[j].0);
            }
        }
    }
}

proof fn lemma_variable_plans(lists: ListEntries, b: ControlledEnvironmentView, n: int, unique: bool)
    requires
        0 <= n <= lists.len(),
        is_ordered(b),
        unique ==> keys_increase(list_keys(lists)),
    ensures
        is_family(variable_plans(lists, b, n), b, 14, unique),
        variable_plans(lists, b, n).len() == n,
        forall|i: int|
            0 <= i < n ==> (#[trigger] variable_plans(lists, b, n)[i]).intervention.id == "env-"@
                + lists[i].0,
    decreases n,
{
    if n > 0 {
        lemma_variable_plans(lists, b, n - 1, unique);
        reveal_strlit("env-");
        let plans = variable_plans(lists, b, n);
        lemma_text_entry(b.environment, lists[n - 1].0, lists[n - 1].1[1]);
        if unique {
            assert forall|i: int, j: int| 0 <= i < j < plans.len() implies (
            #[trigger] plans[i]).intervention.id != (#[trigger] plans[j]).intervention.id by {
                lemma_keys_differ(lists, i, j);
                lemma_same_start("env-"@, lists[i].0, lists[j].0);
            }
        }
    }
}

/// Whether no two dependency variants have the same identifier.
pub open spec fn variants_differ(variants: Seq<DependencyVariantConfig>) -> bool {
    forall|i: int, j: int|
        0 <= i < j < variants.len() ==> (#[trigger] variants[i]).id@ != (#[trigger] variants[j]).id@
}

proof fn lemma_dependency_plans(
    variants: Seq<DependencyVariantConfig>,
    b: ControlledEnvironmentView,
    n: int,
    unique: bool,
)
    requires
        0 <= n <= variants.len(),
        is_ordered(b),
        unique ==> variants_differ(variants),
    ensures
        is_family(dependency_plans(variants, b, n), b, 2, unique),
        dependency_plans(variants, b, n).len() == n,
        forall|i: int|
            0 <= i < n ==> (#[trigger] dependency_plans(variants, b, n)[i]).intervention.id
                == "dependency-"@ + variants[i].id@,
    decreases n,
{
    if n > 0 {
        lemma_dependency_plans(variants, b, n - 1, unique);
        reveal_strlit("dependency-");
        let plans = dependency_plans(variants, b, n);
        let v = variants[n - 1];
        let entries = plans[n - 1].environment.source_file_overrides;
        lemma_with_entry(Order::Path, b.source_file_overrides, v.target@, v.variant_file@);
        assert forall|k: Seq<char>| #[trigger] value_at(Order::Path, entries, k) == if is_same_path(
            v.target@,
            k,
        ) {
            Some(v.variant_file@)
        } else {
            value_at(Order::Path, b.source_file_overrides, k)
        } by {
            if is_same_path(v.target@, k) {
                lemma_same_key(Order::Path, entries, v.target@, k);
            }
        }
        if unique {
            assert forall|i: int, j: int| 0 <= i < j < plans.len() implies (
            #[trigger] plans[i]).intervention.id != (#[trigger] plans[j]).intervention.id by {
                lemma_same_start("dependency-"@, variants[i].id@, variants[j].id@);
            }
        }
    }
}

/// Whether the keyed settings of a configuration can be told apart by name.
pub open spec fn names_are_unique(config: Config) -> bool {
    let e = config.experiments;
    &&& keys_increase(list_keys(e.toolchain_variables.deep_view()))
    &&& keys_increase(list_keys(e.environment_variables.deep_view()))
    &&& variants_differ(e.dependency_variants@)
}

/// The plans that stand alone do what their kinds say.
proof fn lemma_single_plans(b: ControlledEnvironmentView)
    requires
        is_ordered(b),
    ensures
        varies_as_named(date_epoch_plan(b).intervention, b, date_epoch_plan(b).environment),
        varies_as_named(timezone_plan(b).intervention, b, timezone_plan(b).environment),
        varies_as_named(locale_plan(b).intervention, b, locale_plan(b).environment),
        varies_as_named(cpu_plan(b).intervention, b, cpu_plan(b).environment),
        varies_as_named(order_plan(b).intervention, b, order_plan(b).environment),
{
    lemma_text_entry(b.environment, "SOURCE_DATE_EPOCH"@, VARIANT_SOURCE_DATE_EPOCH@);
    lemma_text_entry(b.environment, "TZ"@, "HST10"@);
    lemma_text_entry(b.environment, "LANG"@, "C.UTF-8"@);
    lemma_text_entry(
        with_entry(Order::Text, b.environment, "LANG"@, "C.UTF-8"@),
        "LC_ALL"@,
        "C.UTF-8"@,
    );
    reveal_strlit("2");
    assert(decimal_of(2) =~= "2"@) by {
        reveal_with_fuel(crate::numbers::digits_of, 2);
    }
}

proof fn lemma_plans_in_order(config: Config, b: ControlledEnvironmentView)
    requires
        is_ordered(b),
    ensures
        in_order(plans_of(config, b), b, 15, names_are_unique(config)),
{
    let e = config.experiments;
    let d = e.dimensions;
    let unique = names_are_unique(config);
    let bindings = e.toolchain_variables.deep_view();
    let variables = e.environment_variables.deep_view();
    let p0 = image_plans(config, b, e.image_variants@.len() as int);
    lemma_image_plans(config, b, e.image_variants@.len() as int);
    assert(in_order(p0, b, 1, unique)) by {
        reveal(in_order);
    }
    lemma_toolchain_plans(bindings, b, bindings.len() as int, unique);
    let p1 = p0 + toolchain_plans(bindings, b, bindings.len() as int);
    lemma_family_added(p0, toolchain_plans(bindings, b, bindings.len() as int), b, 1, unique);
    lemma_dependency_plans(e.dependency_variants@, b, e.dependency_variants@.len() as int, unique);
    let dependencies = dependency_plans(
        e.dependency_variants@,
        b,
        e.dependency_variants@.len() as int,
    );
    lemma_family_added(p1, dependencies, b, 2, unique);
    lemma_single_plans(b);
    lemma_single_ids(b);
    let p2 = p1 + dependencies;
    lemma_plan_added(p2, d.network_access, network_plan(b), b, 3, unique);
    let p3 = p2 + plan_if(d.network_access, network_plan(b));
    lemma_plan_added(p3, d.source_path, source_path_plan(b), b, 4, unique);
    let p4 = p3 + plan_if(d.source_path, source_path_plan(b));
    lemma_plan_added(p4, d.build_path, build_path_plan(b), b, 5, unique);
    let p5 = p4 + plan_if(d.build_path, build_path_plan(b));
    lemma_plan_added(p5, d.source_date_epoch, date_epoch_plan(b), b, 6, unique);
    let p6 = p5 + plan_if(d.source_date_epoch, date_epoch_plan(b));
    lemma_plan_added(p6, d.source_mtime, mtime_plan(b), b, 7, unique);
    let p7 = p6 + plan_if(d.source_mtime, mtime_plan(b));
    lemma_plan_added(p7, d.timezone, timezone_plan(b), b, 8, unique);
    let p8 = p7 + plan_if(d.timezone, timezone_plan(b));
    lemma_plan_added(p8, d.locale, locale_plan(b), b, 9, unique);
    let p9 = p8 + plan_if(d.locale, locale_plan(b));
    lemma_plan_added(p9, d.hostname, hostname_plan(b), b, 10, unique);
    let p10 = p9 + plan_if(d.hostname, hostname_plan(b));
    lemma_plan_added(p10, d.cpu_count, cpu_plan(b), b, 11, unique);
    let p11 = p10 + plan_if(d.cpu_count, cpu_plan(b));
    lemma_plan_added(p11, d.umask, umask_plan(b), b, 12, unique);
    let p12 = p11 + plan_if(d.umask, umask_plan(b));
    lemma_plan_added(p12, d.directory_order, order_plan(b), b, 13, unique);
    let p13 = p12 + plan_if(d.directory_order, order_plan(b));
    lemma_variable_plans(variables, b, variables.len() as int, unique);
    lemma_family_added(p13, variable_plans(variables, b, variables.len() as int), b, 14, unique);
}

proof fn lemma_single_ids(b: ControlledEnvironmentView)
    ensures
        id_rank(network_plan(b).intervention.id) == 3,
        id_rank(source_path_plan(b).intervention.id) == 4,
        id_rank(build_path_plan(b).intervention.id) == 5,
        id_rank(date_epoch_plan(b).intervention.id) == 6,
        id_rank(mtime_plan(b).intervention.id) == 7,
        id_rank(timezone_plan(b).intervention.id) == 8,
        id_rank(locale_plan(b).intervention.id) == 9,
        id_rank(hostname_plan(b).intervention.id) == 10,
        id_rank(cpu_plan(b).intervention.id) == 11,
        id_rank(umask_plan(b).intervention.id) == 12,
        id_rank(order_plan(b).intervention.id) == 13,
{
    reveal_strlit("network-none");
    reveal_strlit("source-path");
    reveal_strlit("build-path");
    reveal_strlit("source-date-epoch");
    reveal_strlit("source-mtime");
    reveal_strlit("timezone");
    reveal_strlit("locale");
    reveal_strlit("hostname");
    reveal_strlit("cpu-count");
    reveal_strlit("umask");
    reveal_strlit("directory-order");
}

/// Every planned intervention gives the setting that it names its variant value and leaves all other
/// settings of the baseline alone.
pub proof fn law_plans_vary_one_setting(config: Config, b: ControlledEnvironmentView)
    requires
        is_ordered(b),
    ensures
        forall|i: int|
            0 <= i < plans_of(config, b).len() ==> varies_as_named(
                (#[trigger] plans_of(config, b)[i]).intervention,
                b,
                plans_of(config, b)[i].environment,
            ),
{
    lemma_plans_in_order(config, b);
    reveal(in_order);
}

proof fn lemma_variants_differ(
    variants: Seq<DependencyVariantConfig>,
    files: Seq<VariantFiles>,
    i: int,
    j: int,
)
    requires
        0 <= i <= j < variants.len(),
        variants_problem(variants, files, i) is None,
    ensures
        !id_before(variants, j, variants[j].id@),
    decreases j - i,
{
    if i < j {
        lemma_variants_differ(variants, files, i + 1, j);
    }
}

/// The interventions of a configuration without problems have different identifiers.
pub proof fn law_plan_ids_differ(config: Config, facts: ProjectFacts, b: ControlledEnvironmentView)
    requires
        config_problem(config, facts) is None,
        keys_increase(list_keys(config.experiments.toolchain_variables.deep_view())),
        keys_increase(list_keys(config.experiments.environment_variables.deep_view())),
        is_ordered(b),
    ensures
        ids_differ(plans_of(config, b)),
{
    let variants = config.experiments.dependency_variants@;
    assert(variants_problem(variants, facts.dependency_files@, 0) is None);
    assert forall|i: int, j: int| 0 <= i < j < variants.len() implies (#[trigger] variants[i]).id@
        != (#[trigger] variants[j]).id@ by {
        lemma_variants_differ(variants, facts.dependency_files@, 0, j);
    }
    lemma_plans_in_order(config, b);
    reveal(in_order);
}

} // verus!
