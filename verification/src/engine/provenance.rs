//! What the records kept beside a build say about its inputs, one line for each finding.
use vstd::prelude::*;

use crate::environment::{add_entries, entries_added};
use crate::model::{
    BuildFailure, BuildRun, DependencyCacheSummary, DependencyNetworkCorrelation,
    DependencyResolutionRecord, InterventionResult, NetworkTraceSummary, ProcessActivitySummary,
    ProcessTraceSummary, RuntimeDependencyProvenance, SourceOverrideRecord, ToolchainBindingProbe,
    ToolchainProbe,
};
use crate::numbers::{decimal, decimal_of};
use crate::ordering::Order;
use crate::string_map::{value_at, with_entry, Entries, StringMap};
use crate::text::{begins_with, bool_text, concat, concat3, concat5, debug_option, debug_text};
use crate::text::{join, joined, or_text, push_line, quoted, quoted_option, same, same_option};
use crate::text::{show_bool, strip_prefix, value_or};

verus! {

/// Each name with its count, separated by commas.
pub open spec fn counts_text(counts: Seq<(String, usize)>) -> Seq<char> {
    let parts = Seq::new(
        counts.len(),
        |i: int| counts[i].0@ + ":"@ + decimal_of(counts[i].1 as int),
    );
    joined(parts, ","@, parts.len() as int)
}

pub fn show_counts(counts: &Vec<(String, usize)>) -> (r: String)
    ensures
        r@ == counts_text(counts@),
{
    let ghost parts = Seq::new(
        counts@.len(),
        |i: int| counts@[i].0@ + ":"@ + decimal_of(counts@[i].1 as int),
    );
    let mut list: Vec<String> = Vec::new();
    let mut i: usize = 0;
    while i < counts.len()
        invariant
            i <= counts@.len(),
            list@.len() == i,
            parts == Seq::new(
                counts@.len(),
                |i: int| counts@[i].0@ + ":"@ + decimal_of(counts@[i].1 as int),
            ),
            forall|k: int| 0 <= k < i ==> (#[trigger] list@[k])@ == parts[k],
        decreases counts.len() - i,
    {
        list.push(concat3(counts[i].0.as_str(), ":", decimal(counts[i].1 as u128).as_str()));
        i += 1;
    }
    assert(list.deep_view() =~= parts);
    join(&list, ",")
}

/// What a network trace saw, with every endpoint left out.
pub open spec fn network_text(t: NetworkTraceSummary) -> Seq<char> {
    "redacted network syscall trace observed socket="@
        + decimal_of(t.socket_calls as int)
        + " connect="@
        + decimal_of(t.connect_calls as int)
        + " (success="@
        + decimal_of(t.successful_connects as int)
        + " failed="@
        + decimal_of(t.failed_connects as int)
        + ") sendto="@
        + decimal_of(t.sendto_calls as int)
        + " recvfrom="@
        + decimal_of(t.recvfrom_calls as int)
        + " families=["@
        + joined(t.address_families.deep_view(), ","@, t.address_families@.len() as int)
        + "] scopes=["@
        + counts_text(t.endpoint_scopes@)
        + "] successful_scopes=["@
        + counts_text(t.successful_endpoint_scopes@)
        + "] parsed_bytes="@
        + decimal_of(t.parsed_bytes as int)
        + " truncated="@
        + bool_text(t.trace_truncated)
}

pub fn show_network(t: &NetworkTraceSummary) -> (r: String)
    ensures
        r@ == network_text(*t),
{
    let mut text = "redacted network syscall trace observed socket=".to_owned();
    text.push_str(decimal(t.socket_calls as u128).as_str());
    text.push_str(" connect=");
    text.push_str(decimal(t.connect_calls as u128).as_str());
    text.push_str(" (success=");
    text.push_str(decimal(t.successful_connects as u128).as_str());
    text.push_str(" failed=");
    text.push_str(decimal(t.failed_connects as u128).as_str());
    text.push_str(") sendto=");
    text.push_str(decimal(t.sendto_calls as u128).as_str());
    text.push_str(" recvfrom=");
    text.push_str(decimal(t.recvfrom_calls as u128).as_str());
    text.push_str(" families=[");
    text.push_str(join(&t.address_families, ",").as_str());
    text.push_str("] scopes=[");
    text.push_str(show_counts(&t.endpoint_scopes).as_str());
    text.push_str("] successful_scopes=[");
    text.push_str(show_counts(&t.successful_endpoint_scopes).as_str());
    text.push_str("] parsed_bytes=");
    text.push_str(decimal(t.parsed_bytes as u128).as_str());
    text.push_str(" truncated=");
    text.push_str(show_bool(t.trace_truncated).as_str());
    text
}

pub open spec fn with_network(lines: Seq<Seq<char>>, t: NetworkTraceSummary) -> Seq<Seq<char>> {
    if !t.attempted {
        lines
    } else if t.tracer_available {
        lines.push(network_text(t))
    } else {
        match t.error {
            Some(error) => lines.push("network trace limitation: "@ + error@),
            None => lines,
        }
    }
}

fn push_network(lines: &mut Vec<String>, t: &NetworkTraceSummary)
    ensures
        final(lines).deep_view() == with_network(old(lines).deep_view(), *t),
{
    if t.attempted {
        if t.tracer_available {
            push_line(lines, show_network(t));
        } else if let Some(error) = &t.error {
            push_line(lines, concat("network trace limitation: ", error.as_str()));
        }
    }
}

pub open spec fn with_run_networks(
    lines: Seq<Seq<char>>,
    items: Seq<BuildRun>,
    n: int,
) -> Seq<Seq<char>>
    decreases n,
{
    if n <= 0 {
        lines
    } else {
        with_network(with_run_networks(lines, items, n - 1), items[n - 1].network_trace)
    }
}

pub fn push_run_networks(lines: &mut Vec<String>, items: &Vec<BuildRun>)
    ensures
        final(lines).deep_view() == with_run_networks(
            old(lines).deep_view(),
            items@,
            items@.len() as int,
        ),
{
    let ghost start = lines.deep_view();
    let mut n: usize = 0;
    while n < items.len()
        invariant
            n <= items@.len(),
            lines.deep_view() == with_run_networks(start, items@, n as int),
        decreases items.len() - n,
    {
        push_network(lines, &items[n].network_trace);
        n += 1;
    }
}

pub open spec fn with_failure_networks(
    lines: Seq<Seq<char>>,
    items: Seq<BuildFailure>,
    n: int,
) -> Seq<Seq<char>>
    decreases n,
{
    if n <= 0 {
        lines
    } else {
        with_network(with_failure_networks(lines, items, n - 1), items[n - 1].network_trace)
    }
}

pub fn push_failure_networks(lines: &mut Vec<String>, items: &Vec<BuildFailure>)
    ensures
        final(lines).deep_view() == with_failure_networks(
            old(lines).deep_view(),
            items@,
            items@.len() as int,
        ),
{
    let ghost start = lines.deep_view();
    let mut n: usize = 0;
    while n < items.len()
        invariant
            n <= items@.len(),
            lines.deep_view() == with_failure_networks(start, items@, n as int),
        decreases items.len() - n,
    {
        push_network(lines, &items[n].network_trace);
        n += 1;
    }
}

/// What the network traces of an experiment saw.
pub open spec fn with_networks(lines: Seq<Seq<char>>, result: InterventionResult) -> Seq<Seq<char>> {
    let a = with_run_networks(lines, result.runs@, result.runs@.len() as int);
    let b = with_failure_networks(
        a,
        result.build_failures@,
        result.build_failures@.len() as int,
    );
    match result.confirmation_run {
        Some(run) => with_network(b, run.network_trace),
        None => b,
    }
}

pub fn push_networks(lines: &mut Vec<String>, result: &InterventionResult)
    ensures
        final(lines).deep_view() == with_networks(old(lines).deep_view(), *result),
{
    push_run_networks(lines, &result.runs);
    push_failure_networks(lines, &result.build_failures);
    if let Some(run) = &result.confirmation_run {
        push_network(lines, &run.network_trace);
    }
}

/// One of the things that a traced process is counted for.
#[derive(Clone, Copy)]
pub enum Activity {
    DependencyReads,
    CacheReads,
    OutputWrites,
    NonlocalEvents,
}

pub open spec fn activity_of(p: ProcessActivitySummary, kind: Activity) -> usize {
    match kind {
        Activity::DependencyReads => p.dependency_reads,
        Activity::CacheReads => p.cache_reads,
        Activity::OutputWrites => p.output_writes,
        Activity::NonlocalEvents => p.successful_nonlocal_network_events,
    }
}

/// How often the first `n` processes did something.
pub open spec fn activity_total(processes: Seq<ProcessActivitySummary>, kind: Activity, n: int) -> int
    decreases n,
{
    if n <= 0 {
        0
    } else {
        activity_total(processes, kind, n - 1) + activity_of(processes[n - 1], kind)
    }
}

fn count_activity(processes: &Vec<ProcessActivitySummary>, kind: Activity) -> (r: u128)
    ensures
        r == activity_total(processes@, kind, processes@.len() as int),
{
    let mut total: u128 = 0;
    let mut n: usize = 0;
    while n < processes.len()
        invariant
            n <= processes@.len(),
            total == activity_total(processes@, kind, n as int),
            total <= n * usize::MAX,
        decreases processes.len() - n,
    {
        let p = &processes[n];
        let own: usize = match kind {
            Activity::DependencyReads => p.dependency_reads,
            Activity::CacheReads => p.cache_reads,
            Activity::OutputWrites => p.output_writes,
            Activity::NonlocalEvents => p.successful_nonlocal_network_events,
        };
        assert(n * usize::MAX + usize::MAX == (n + 1) * usize::MAX) by (nonlinear_arith);
        assert((n + 1) * usize::MAX <= u128::MAX) by (nonlinear_arith)
            requires
                n + 1 <= usize::MAX,
        ;
        total = total + own as u128;
        n += 1;
    }
    total
}

pub open spec fn activity_text(processes: Seq<ProcessActivitySummary>, kind: Activity) -> Seq<char> {
    decimal_of(activity_total(processes, kind, processes.len() as int))
}

fn show_activity(processes: &Vec<ProcessActivitySummary>, kind: Activity) -> (r: String)
    ensures
        r@ == activity_text(processes@, kind),
{
    decimal(count_activity(processes, kind))
}

/// What a process trace saw, with every path left out.
pub open spec fn process_text(t: ProcessTraceSummary) -> Seq<char> {
    "redacted process/file trace: processes="@
        + decimal_of(t.processes@.len() as int)
        + " dependency_reads="@
        + activity_text(t.processes@, Activity::DependencyReads)
        + " cache_reads="@
        + activity_text(t.processes@, Activity::CacheReads)
        + " output_writes="@
        + activity_text(t.processes@, Activity::OutputWrites)
        + " successful_nonlocal_events="@
        + activity_text(t.processes@, Activity::NonlocalEvents)
        + " same_process(dependency+output="@
        + decimal_of(t.same_process_dependency_output as int)
        + " cache+output="@
        + decimal_of(t.same_process_cache_output as int)
        + " network+cache="@
        + decimal_of(t.same_process_network_cache as int)
        + " network+cache+output="@
        + decimal_of(t.same_process_network_cache_output as int)
        + ") parsed_bytes="@
        + decimal_of(t.parsed_bytes as int)
        + " truncated="@
        + bool_text(t.truncated)
        + " (same-process co-occurrence is not byte-level taint tracking)"@
}

pub fn show_process(t: &ProcessTraceSummary) -> (r: String)
    ensures
        r@ == process_text(*t),
{
    let mut text = "redacted process/file trace: processes=".to_owned();
    text.push_str(decimal(t.processes.len() as u128).as_str());
    text.push_str(" dependency_reads=");
    text.push_str(show_activity(&t.processes, Activity::DependencyReads).as_str());
    text.push_str(" cache_reads=");
    text.push_str(show_activity(&t.processes, Activity::CacheReads).as_str());
    text.push_str(" output_writes=");
    text.push_str(show_activity(&t.processes, Activity::OutputWrites).as_str());
    text.push_str(" successful_nonlocal_events=");
    text.push_str(show_activity(&t.processes, Activity::NonlocalEvents).as_str());
    text.push_str(" same_process(dependency+output=");
    text.push_str(decimal(t.same_process_dependency_output as u128).as_str());
    text.push_str(" cache+output=");
    text.push_str(decimal(t.same_process_cache_output as u128).as_str());
    text.push_str(" network+cache=");
    text.push_str(decimal(t.same_process_network_cache as u128).as_str());
    text.push_str(" network+cache+output=");
    text.push_str(decimal(t.same_process_network_cache_output as u128).as_str());
    text.push_str(") parsed_bytes=");
    text.push_str(decimal(t.parsed_bytes as u128).as_str());
    text.push_str(" truncated=");
    text.push_str(show_bool(t.truncated).as_str());
    text.push_str(" (same-process co-occurrence is not byte-level taint tracking)");
    text
}

pub open spec fn with_process(lines: Seq<Seq<char>>, t: ProcessTraceSummary) -> Seq<Seq<char>> {
    if !t.attempted {
        lines
    } else if t.tracer_available {
        lines.push(process_text(t))
    } else {
        match t.error {
            Some(error) => lines.push("process/file trace limitation: "@ + error@),
            None => lines,
        }
    }
}

fn push_process(lines: &mut Vec<String>, t: &ProcessTraceSummary)
    ensures
        final(lines).deep_view() == with_process(old(lines).deep_view(), *t),
{
    if t.attempted {
        if t.tracer_available {
            push_line(lines, show_process(t));
        } else if let Some(error) = &t.error {
            push_line(lines, concat("process/file trace limitation: ", error.as_str()));
        }
    }
}

pub open spec fn with_run_processes(
    lines: Seq<Seq<char>>,
    items: Seq<BuildRun>,
    n: int,
) -> Seq<Seq<char>>
    decreases n,
{
    if n <= 0 {
        lines
    } else {
        with_process(with_run_processes(lines, items, n - 1), items[n - 1].process_trace)
    }
}

pub fn push_run_processes(lines: &mut Vec<String>, items: &Vec<BuildRun>)
    ensures
        final(lines).deep_view() == with_run_processes(
            old(lines).deep_view(),
            items@,
            items@.len() as int,
        ),
{
    let ghost start = lines.deep_view();
    let mut n: usize = 0;
    while n < items.len()
        invariant
            n <= items@.len(),
            lines.deep_view() == with_run_processes(start, items@, n as int),
        decreases items.len() - n,
    {
        push_process(lines, &items[n].process_trace);
        n += 1;
    }
}

pub open spec fn with_failure_processes(
    lines: Seq<Seq<char>>,
    items: Seq<BuildFailure>,
    n: int,
) -> Seq<Seq<char>>
    decreases n,
{
    if n <= 0 {
        lines
    } else {
        with_process(with_failure_processes(lines, items, n - 1), items[n - 1].process_trace)
    }
}

pub fn push_failure_processes(lines: &mut Vec<String>, items: &Vec<BuildFailure>)
    ensures
        final(lines).deep_view() == with_failure_processes(
            old(lines).deep_view(),
            items@,
            items@.len() as int,
        ),
{
    let ghost start = lines.deep_view();
    let mut n: usize = 0;
    while n < items.len()
        invariant
            n <= items@.len(),
            lines.deep_view() == with_failure_processes(start, items@, n as int),
        decreases items.len() - n,
    {
        push_process(lines, &items[n].process_trace);
        n += 1;
    }
}

/// What the process traces of an experiment saw.
pub open spec fn with_processes(lines: Seq<Seq<char>>, result: InterventionResult) -> Seq<Seq<char>> {
    let a = with_run_processes(lines, result.runs@, result.runs@.len() as int);
    let b = with_failure_processes(
        a,
        result.build_failures@,
        result.build_failures@.len() as int,
    );
    match result.confirmation_run {
        Some(run) => with_process(b, run.process_trace),
        None => b,
    }
}

pub fn push_processes(lines: &mut Vec<String>, result: &InterventionResult)
    ensures
        final(lines).deep_view() == with_processes(old(lines).deep_view(), *result),
{
    push_run_processes(lines, &result.runs);
    push_failure_processes(lines, &result.build_failures);
    if let Some(run) = &result.confirmation_run {
        push_process(lines, &run.process_trace);
    }
}

pub open spec fn resolution_text(d: DependencyResolutionRecord) -> Seq<char> {
    "post-build "@
        + d.ecosystem@
        + " resolution "@
        + d.path@
        + ": parsed="@
        + bool_text(d.parsed)
        + " packages="@
        + decimal_of(d.package_count as int)
        + " normalized_sha256="@
        + or_text(d.normalized_sha256.deep_view(), "<unavailable>"@)
}

pub fn show_resolution(d: &DependencyResolutionRecord) -> (r: String)
    ensures
        r@ == resolution_text(*d),
{
    let mut text = "post-build ".to_owned();
    text.push_str(d.ecosystem.as_str());
    text.push_str(" resolution ");
    text.push_str(d.path.as_str());
    text.push_str(": parsed=");
    text.push_str(show_bool(d.parsed).as_str());
    text.push_str(" packages=");
    text.push_str(decimal(d.package_count as u128).as_str());
    text.push_str(" normalized_sha256=");
    text.push_str(value_or(&d.normalized_sha256, "<unavailable>"));
    text
}

pub open spec fn with_resolutions(
    lines: Seq<Seq<char>>,
    items: Seq<DependencyResolutionRecord>,
    n: int,
) -> Seq<Seq<char>>
    decreases n,
{
    if n <= 0 {
        lines
    } else {
        with_resolutions(lines, items, n - 1).push(resolution_text(items[n - 1]))
    }
}

pub fn push_resolutions(lines: &mut Vec<String>, items: &Vec<DependencyResolutionRecord>)
    ensures
        final(lines).deep_view() == with_resolutions(
            old(lines).deep_view(),
            items@,
            items@.len() as int,
        ),
{
    let ghost start = lines.deep_view();
    let mut n: usize = 0;
    while n < items.len()
        invariant
            n <= items@.len(),
            lines.deep_view() == with_resolutions(start, items@, n as int),
        decreases items.len() - n,
    {
        push_line(lines, show_resolution(&items[n]));
        n += 1;
    }
}

pub open spec fn cache_text(c: DependencyCacheSummary) -> Seq<char> {
    "redacted "@
        + c.ecosystem@
        + " dependency-cache content: before(files="@
        + decimal_of(c.before_file_count as int)
        + " bytes="@
        + decimal_of(c.before_total_bytes as int)
        + " aggregate_sha256="@
        + or_text(c.before_aggregate_sha256.deep_view(), "<unavailable>"@)
        + " truncated="@
        + bool_text(c.before_truncated)
        + ") after(files="@
        + decimal_of(c.after_file_count as int)
        + " bytes="@
        + decimal_of(c.after_total_bytes as int)
        + " aggregate_sha256="@
        + or_text(c.after_aggregate_sha256.deep_view(), "<unavailable>"@)
        + " truncated="@
        + bool_text(c.after_truncated)
        + ") complete="@
        + bool_text(c.comparison_complete)
        + " changed="@
        + bool_text(c.changed_during_build)
        + " observed_change="@
        + bool_text(c.observed_change)
        + " bounds(files="@
        + decimal_of(c.max_files as int)
        + " bytes="@
        + decimal_of(c.max_bytes as int)
        + ")"@
}

pub fn show_cache(c: &DependencyCacheSummary) -> (r: String)
    ensures
        r@ == cache_text(*c),
{
    let mut text = "redacted ".to_owned();
    text.push_str(c.ecosystem.as_str());
    text.push_str(" dependency-cache content: before(files=");
    text.push_str(decimal(c.before_file_count as u128).as_str());
    text.push_str(" bytes=");
    text.push_str(decimal(c.before_total_bytes as u128).as_str());
    text.push_str(" aggregate_sha256=");
    text.push_str(value_or(&c.before_aggregate_sha256, "<unavailable>"));
    text.push_str(" truncated=");
    text.push_str(show_bool(c.before_truncated).as_str());
    text.push_str(") after(files=");
    text.push_str(decimal(c.after_file_count as u128).as_str());
    text.push_str(" bytes=");
    text.push_str(decimal(c.after_total_bytes as u128).as_str());
    text.push_str(" aggregate_sha256=");
    text.push_str(value_or(&c.after_aggregate_sha256, "<unavailable>"));
    text.push_str(" truncated=");
    text.push_str(show_bool(c.after_truncated).as_str());
    text.push_str(") complete=");
    text.push_str(show_bool(c.comparison_complete).as_str());
    text.push_str(" changed=");
    text.push_str(show_bool(c.changed_during_build).as_str());
    text.push_str(" observed_change=");
    text.push_str(show_bool(c.observed_change).as_str());
    text.push_str(" bounds(files=");
    text.push_str(decimal(c.max_files as u128).as_str());
    text.push_str(" bytes=");
    text.push_str(decimal(c.max_bytes as u128).as_str());
    text.push_str(")");
    text
}

pub open spec fn with_caches(
    lines: Seq<Seq<char>>,
    items: Seq<DependencyCacheSummary>,
    n: int,
) -> Seq<Seq<char>>
    decreases n,
{
    if n <= 0 {
        lines
    } else {
        with_caches(lines, items, n - 1).push(cache_text(items[n - 1]))
    }
}

pub fn push_caches(lines: &mut Vec<String>, items: &Vec<DependencyCacheSummary>)
    ensures
        final(lines).deep_view() == with_caches(
            old(lines).deep_view(),
            items@,
            items@.len() as int,
        ),
{
    let ghost start = lines.deep_view();
    let mut n: usize = 0;
    while n < items.len()
        invariant
            n <= items@.len(),
            lines.deep_view() == with_caches(start, items@, n as int),
        decreases items.len() - n,
    {
        push_line(lines, show_cache(&items[n]));
        n += 1;
    }
}

pub open spec fn correlation_text(c: DependencyNetworkCorrelation) -> Seq<char> {
    "network/cache build-window co-occurrence: trace_available="@
        + bool_text(c.network_trace_available)
        + " successful_nonlocal_events="@
        + decimal_of(c.successful_nonlocal_network_events as int)
        + " complete_cache_mutations="@
        + decimal_of(c.complete_cache_mutations as int)
        + " incomplete_cache_observations="@
        + decimal_of(c.incomplete_cache_observations as int)
        + " cooccurrence="@
        + bool_text(c.build_window_cooccurrence)
        + " (co-occurrence does not identify byte origin)"@
}

pub fn show_correlation(c: &DependencyNetworkCorrelation) -> (r: String)
    ensures
        r@ == correlation_text(*c),
{
    let mut text = "network/cache build-window co-occurrence: trace_available=".to_owned();
    text.push_str(show_bool(c.network_trace_available).as_str());
    text.push_str(" successful_nonlocal_events=");
    text.push_str(decimal(c.successful_nonlocal_network_events as u128).as_str());
    text.push_str(" complete_cache_mutations=");
    text.push_str(decimal(c.complete_cache_mutations as u128).as_str());
    text.push_str(" incomplete_cache_observations=");
    text.push_str(decimal(c.incomplete_cache_observations as u128).as_str());
    text.push_str(" cooccurrence=");
    text.push_str(show_bool(c.build_window_cooccurrence).as_str());
    text.push_str(" (co-occurrence does not identify byte origin)");
    text
}

/// What was found out about dependencies after a build.
pub open spec fn with_dependency(lines: Seq<Seq<char>>, d: RuntimeDependencyProvenance) -> Seq<
    Seq<char>,
> {
    if !d.attempted {
        lines
    } else {
        let a = with_resolutions(
            lines,
            d.dependency_resolutions@,
            d.dependency_resolutions@.len() as int,
        );
        let b = with_caches(a, d.cache_summaries@, d.cache_summaries@.len() as int);
        let c = if d.network_cache_correlation.attempted {
            b.push(correlation_text(d.network_cache_correlation))
        } else {
            b
        };
        match d.error {
            Some(error) => c.push("runtime dependency provenance limitation: "@ + error@),
            None => c,
        }
    }
}

fn push_dependency(lines: &mut Vec<String>, d: &RuntimeDependencyProvenance)
    ensures
        final(lines).deep_view() == with_dependency(old(lines).deep_view(), *d),
{
    if d.attempted {
        push_resolutions(lines, &d.dependency_resolutions);
        push_caches(lines, &d.cache_summaries);
        if d.network_cache_correlation.attempted {
            push_line(lines, show_correlation(&d.network_cache_correlation));
        }
        if let Some(error) = &d.error {
            push_line(lines, concat("runtime dependency provenance limitation: ", error.as_str()));
        }
    }
}

pub open spec fn with_run_dependencies(
    lines: Seq<Seq<char>>,
    items: Seq<BuildRun>,
    n: int,
) -> Seq<Seq<char>>
    decreases n,
{
    if n <= 0 {
        lines
    } else {
        with_dependency(with_run_dependencies(lines, items, n - 1), items[n - 1].runtime_dependency_provenance)
    }
}

pub fn push_run_dependencies(lines: &mut Vec<String>, items: &Vec<BuildRun>)
    ensures
        final(lines).deep_view() == with_run_dependencies(
            old(lines).deep_view(),
            items@,
            items@.len() as int,
        ),
{
    let ghost start = lines.deep_view();
    let mut n: usize = 0;
    while n < items.len()
        invariant
            n <= items@.len(),
            lines.deep_view() == with_run_dependencies(start, items@, n as int),
        decreases items.len() - n,
    {
        push_dependency(lines, &items[n].runtime_dependency_provenance);
        n += 1;
    }
}

pub open spec fn with_failure_dependencies(
    lines: Seq<Seq<char>>,
    items: Seq<BuildFailure>,
    n: int,
) -> Seq<Seq<char>>
    decreases n,
{
    if n <= 0 {
        lines
    } else {
        with_dependency(with_failure_dependencies(lines, items, n - 1), items[n - 1].runtime_dependency_provenance)
    }
}

pub fn push_failure_dependencies(lines: &mut Vec<String>, items: &Vec<BuildFailure>)
    ensures
        final(lines).deep_view() == with_failure_dependencies(
            old(lines).deep_view(),
            items@,
            items@.len() as int,
        ),
{
    let ghost start = lines.deep_view();
    let mut n: usize = 0;
    while n < items.len()
        invariant
            n <= items@.len(),
            lines.deep_view() == with_failure_dependencies(start, items@, n as int),
        decreases items.len() - n,
    {
        push_dependency(lines, &items[n].runtime_dependency_provenance);
        n += 1;
    }
}

/// What was found out about dependencies after the builds of an experiment.
pub open spec fn with_dependencies(lines: Seq<Seq<char>>, result: InterventionResult) -> Seq<Seq<char>> {
    let a = with_run_dependencies(lines, result.runs@, result.runs@.len() as int);
    let b = with_failure_dependencies(
        a,
        result.build_failures@,
        result.build_failures@.len() as int,
    );
    match result.confirmation_run {
        Some(run) => with_dependency(b, run.runtime_dependency_provenance),
        None => b,
    }
}

pub fn push_dependencies(lines: &mut Vec<String>, result: &InterventionResult)
    ensures
        final(lines).deep_view() == with_dependencies(old(lines).deep_view(), *result),
{
    push_run_dependencies(lines, &result.runs);
    push_failure_dependencies(lines, &result.build_failures);
    if let Some(run) = &result.confirmation_run {
        push_dependency(lines, &run.runtime_dependency_provenance);
    }
}

pub open spec fn override_used_text(o: SourceOverrideRecord) -> Seq<char> {
    "fresh-workspace dependency override "@
        + o.target@
        + " <- "@
        + o.variant_source@
        + " changed declaration sha256 "@
        + o.baseline_sha256@
        + " -> "@
        + o.variant_sha256@
}

pub fn show_override_used(o: &SourceOverrideRecord) -> (r: String)
    ensures
        r@ == override_used_text(*o),
{
    let mut text = "fresh-workspace dependency override ".to_owned();
    text.push_str(o.target.as_str());
    text.push_str(" <- ");
    text.push_str(o.variant_source.as_str());
    text.push_str(" changed declaration sha256 ");
    text.push_str(o.baseline_sha256.as_str());
    text.push_str(" -> ");
    text.push_str(o.variant_sha256.as_str());
    text
}

pub open spec fn with_overrides(
    lines: Seq<Seq<char>>,
    items: Seq<SourceOverrideRecord>,
    n: int,
) -> Seq<Seq<char>>
    decreases n,
{
    if n <= 0 {
        lines
    } else {
        with_overrides(lines, items, n - 1).push(override_used_text(items[n - 1]))
    }
}

pub fn push_overrides(lines: &mut Vec<String>, items: &Vec<SourceOverrideRecord>)
    ensures
        final(lines).deep_view() == with_overrides(
            old(lines).deep_view(),
            items@,
            items@.len() as int,
        ),
{
    let ghost start = lines.deep_view();
    let mut n: usize = 0;
    while n < items.len()
        invariant
            n <= items@.len(),
            lines.deep_view() == with_overrides(start, items@, n as int),
        decreases items.len() - n,
    {
        push_line(lines, show_override_used(&items[n]));
        n += 1;
    }
}

pub open spec fn with_run_overrides(
    lines: Seq<Seq<char>>,
    items: Seq<BuildRun>,
    n: int,
) -> Seq<Seq<char>>
    decreases n,
{
    if n <= 0 {
        lines
    } else {
        with_overrides_of(with_run_overrides(lines, items, n - 1), items[n - 1].source_overrides)
    }
}

pub fn push_run_overrides(lines: &mut Vec<String>, items: &Vec<BuildRun>)
    ensures
        final(lines).deep_view() == with_run_overrides(
            old(lines).deep_view(),
            items@,
            items@.len() as int,
        ),
{
    let ghost start = lines.deep_view();
    let mut n: usize = 0;
    while n < items.len()
        invariant
            n <= items@.len(),
            lines.deep_view() == with_run_overrides(start, items@, n as int),
        decreases items.len() - n,
    {
        push_overrides_of(lines, &items[n].source_overrides);
        n += 1;
    }
}

pub open spec fn with_overrides_of(lines: Seq<Seq<char>>, overrides: Vec<SourceOverrideRecord>) -> Seq<
    Seq<char>,
> {
    with_overrides(lines, overrides@, overrides@.len() as int)
}

fn push_overrides_of(lines: &mut Vec<String>, overrides: &Vec<SourceOverrideRecord>)
    ensures
        final(lines).deep_view() == with_overrides_of(old(lines).deep_view(), *overrides),
{
    push_overrides(lines, overrides);
}

pub open spec fn override_failed_text(o: SourceOverrideRecord) -> Seq<char> {
    "failed variant used dependency override "@
        + o.target@
        + " <- "@
        + o.variant_source@
        + " with sha256 "@
        + o.baseline_sha256@
        + " -> "@
        + o.variant_sha256@
}

pub fn show_override_failed(o: &SourceOverrideRecord) -> (r: String)
    ensures
        r@ == override_failed_text(*o),
{
    let mut text = "failed variant used dependency override ".to_owned();
    text.push_str(o.target.as_str());
    text.push_str(" <- ");
    text.push_str(o.variant_source.as_str());
    text.push_str(" with sha256 ");
    text.push_str(o.baseline_sha256.as_str());
    text.push_str(" -> ");
    text.push_str(o.variant_sha256.as_str());
    text
}

pub open spec fn with_failed_overrides(
    lines: Seq<Seq<char>>,
    items: Seq<SourceOverrideRecord>,
    n: int,
) -> Seq<Seq<char>>
    decreases n,
{
    if n <= 0 {
        lines
    } else {
        with_failed_overrides(lines, items, n - 1).push(override_failed_text(items[n - 1]))
    }
}

pub fn push_failed_overrides(lines: &mut Vec<String>, items: &Vec<SourceOverrideRecord>)
    ensures
        final(lines).deep_view() == with_failed_overrides(
            old(lines).deep_view(),
            items@,
            items@.len() as int,
        ),
{
    let ghost start = lines.deep_view();
    let mut n: usize = 0;
    while n < items.len()
        invariant
            n <= items@.len(),
            lines.deep_view() == with_failed_overrides(start, items@, n as int),
        decreases items.len() - n,
    {
        push_line(lines, show_override_failed(&items[n]));
        n += 1;
    }
}

pub open spec fn with_failed_overrides_of(
    lines: Seq<Seq<char>>,
    overrides: Vec<SourceOverrideRecord>,
) -> Seq<Seq<char>> {
    with_failed_overrides(lines, overrides@, overrides@.len() as int)
}

fn push_failed_overrides_of(lines: &mut Vec<String>, overrides: &Vec<SourceOverrideRecord>)
    ensures
        final(lines).deep_view() == with_failed_overrides_of(old(lines).deep_view(), *overrides),
{
    push_failed_overrides(lines, overrides);
}

pub open spec fn with_failure_overrides(
    lines: Seq<Seq<char>>,
    items: Seq<BuildFailure>,
    n: int,
) -> Seq<Seq<char>>
    decreases n,
{
    if n <= 0 {
        lines
    } else {
        with_failed_overrides_of(with_failure_overrides(lines, items, n - 1), items[n - 1].source_overrides)
    }
}

pub fn push_failure_overrides(lines: &mut Vec<String>, items: &Vec<BuildFailure>)
    ensures
        final(lines).deep_view() == with_failure_overrides(
            old(lines).deep_view(),
            items@,
            items@.len() as int,
        ),
{
    let ghost start = lines.deep_view();
    let mut n: usize = 0;
    while n < items.len()
        invariant
            n <= items@.len(),
            lines.deep_view() == with_failure_overrides(start, items@, n as int),
        decreases items.len() - n,
    {
        push_failed_overrides_of(lines, &items[n].source_overrides);
        n += 1;
    }
}

/// Which files were put in the place of others.
pub open spec fn with_dependency_overrides(lines: Seq<Seq<char>>, result: InterventionResult) -> Seq<
    Seq<char>,
> {
    with_failure_overrides(
        with_run_overrides(lines, result.runs@, result.runs@.len() as int),
        result.build_failures@,
        result.build_failures@.len() as int,
    )
}

pub fn push_dependency_overrides(lines: &mut Vec<String>, result: &InterventionResult)
    ensures
        final(lines).deep_view() == with_dependency_overrides(old(lines).deep_view(), *result),
{
    push_run_overrides(lines, &result.runs);
    push_failure_overrides(lines, &result.build_failures);
}

/// The variable of a binding, without the mark that tells bindings from other settings.
pub open spec fn bound_variable(variable: Seq<char>) -> Seq<char> {
    if begins_with(variable, "toolchain:"@) {
        variable.skip("toolchain:"@.len() as int)
    } else {
        variable
    }
}

fn unbind_variable(variable: &str) -> (r: String)
    ensures
        r@ == bound_variable(variable@),
{
    match strip_prefix(variable, "toolchain:") {
        Some(rest) => rest,
        None => variable.to_owned(),
    }
}

/// The first probe of a variable, at or after `from`; only one with a path if `resolved`.
pub open spec fn probe_at(
    bindings: Seq<ToolchainBindingProbe>,
    variable: Seq<char>,
    resolved: bool,
    from: int,
) -> Option<ToolchainBindingProbe>
    decreases bindings.len() - from,
{
    if from >= bindings.len() {
        None
    } else if bindings[from].variable@ == variable && (resolved
        ==> bindings[from].resolved_path is Some) {
        Some(bindings[from])
    } else {
        probe_at(bindings, variable, resolved, from + 1)
    }
}

pub open spec fn points_at(found: Option<&ToolchainBindingProbe>) -> Option<ToolchainBindingProbe> {
    match found {
        Some(probe) => Some(*probe),
        None => None,
    }
}

fn find_probe<'a>(
    bindings: &'a Vec<ToolchainBindingProbe>,
    variable: &str,
    resolved: bool,
) -> (r: Option<&'a ToolchainBindingProbe>)
    ensures
        points_at(r) == probe_at(bindings@, variable@, resolved, 0),
{
    let mut i: usize = 0;
    while i < bindings.len()
        invariant
            i <= bindings@.len(),
            probe_at(bindings@, variable@, resolved, 0) == probe_at(
                bindings@,
                variable@,
                resolved,
                i as int,
            ),
        decreases bindings.len() - i,
    {
        if same(bindings[i].variable.as_str(), variable) && (!resolved
            || bindings[i].resolved_path.is_some()) {
            return Some(&bindings[i]);
        }
        i += 1;
    }
    None
}

/// The first probe of a variable with a path among the runs from `from` on.
pub open spec fn resolved_in(runs: Seq<BuildRun>, variable: Seq<char>, from: int) -> Option<
    ToolchainBindingProbe,
>
    decreases runs.len() - from,
{
    if from >= runs.len() {
        None
    } else {
        match probe_at(runs[from].toolchain_provenance.bindings@, variable, true, 0) {
            Some(probe) => Some(probe),
            None => resolved_in(runs, variable, from + 1),
        }
    }
}

fn find_resolved<'a>(runs: &'a Vec<BuildRun>, variable: &str) -> (r: Option<
    &'a ToolchainBindingProbe,
>)
    ensures
        points_at(r) == resolved_in(runs@, variable@, 0),
{
    let mut i: usize = 0;
    while i < runs.len()
        invariant
            i <= runs@.len(),
            resolved_in(runs@, variable@, 0) == resolved_in(runs@, variable@, i as int),
        decreases runs.len() - i,
    {
        let found = find_probe(&runs[i].toolchain_provenance.bindings, variable, true);
        if found.is_some() {
            return found;
        }
        i += 1;
    }
    None
}

/// Whether a run was seen to invoke the tool that a variable is bound to.
pub open spec fn was_invoked(run: BuildRun, variable: Seq<char>) -> bool {
    exists|i: int|
        0 <= i < run.toolchain_provenance.bindings@.len() && (
        #[trigger] run.toolchain_provenance.bindings@[i]).variable@ == variable
            && run.toolchain_provenance.bindings@[i].invocation_count > 0
}

fn check_invoked(run: &BuildRun, variable: &str) -> (r: bool)
    ensures
        r == was_invoked(*run, variable@),
{
    let bindings = &run.toolchain_provenance.bindings;
    let mut i: usize = 0;
    while i < bindings.len()
        invariant
            *bindings == run.toolchain_provenance.bindings,
            i <= bindings@.len(),
            forall|k: int|
                0 <= k < i ==> !((#[trigger] bindings@[k]).variable@ == variable@
                    && bindings@[k].invocation_count > 0),
        decreases bindings.len() - i,
    {
        if same(bindings[i].variable.as_str(), variable) && bindings[i].invocation_count > 0 {
            assert(run.toolchain_provenance.bindings@[i as int].variable@ == variable@);
            return true;
        }
        i += 1;
    }
    false
}

/// Whether the controlled tool was seen to run in the baseline and in a variant.
pub open spec fn invoked_on_both_sides(result: InterventionResult) -> bool {
    let variable = bound_variable(result.intervention.variable@);
    (match result.confirmation_run {
        Some(run) => was_invoked(run, variable),
        None => false,
    }) && exists|i: int| 0 <= i < result.runs@.len() && was_invoked(#[trigger] result.runs@[i], variable)
}

pub fn toolchain_binding_invoked_on_both_sides(result: &InterventionResult) -> (r: bool)
    ensures
        r == invoked_on_both_sides(*result),
{
    let variable = unbind_variable(result.intervention.variable.as_str());
    let baseline = match &result.confirmation_run {
        Some(run) => check_invoked(run, variable.as_str()),
        None => false,
    };
    if !baseline {
        return false;
    }
    let mut i: usize = 0;
    while i < result.runs.len()
        invariant
            i <= result.runs@.len(),
            forall|k: int|
                0 <= k < i ==> !was_invoked(#[trigger] result.runs@[k], variable@),
            variable@ == bound_variable(result.intervention.variable@),
            match result.confirmation_run {
                Some(run) => was_invoked(run, variable@),
                None => false,
            },
        decreases result.runs.len() - i,
    {
        if check_invoked(&result.runs[i], variable.as_str()) {
            assert(was_invoked(result.runs@[i as int], variable@));
            return true;
        }
        i += 1;
    }
    false
}

/// Whether two probes of a binding show that it selects something else.
pub open spec fn probes_differ(left: ToolchainBindingProbe, right: ToolchainBindingProbe) -> bool {
    left.configured_value@ != right.configured_value@ || left.resolved_path.deep_view()
        != right.resolved_path.deep_view() || left.version.deep_view() != right.version.deep_view()
}

/// Whether the tool ran on both sides and was another one.
pub open spec fn binding_confirmed(result: InterventionResult) -> bool {
    let variable = bound_variable(result.intervention.variable@);
    match (
        match result.confirmation_run {
            Some(run) => probe_at(run.toolchain_provenance.bindings@, variable, true, 0),
            None => None,
        },
        resolved_in(result.runs@, variable, 0),
    ) {
        (Some(left), Some(right)) => left.invocation_count > 0 && right.invocation_count > 0
            && probes_differ(left, right),
        _ => false,
    }
}

pub fn toolchain_binding_confirmed(result: &InterventionResult) -> (r: bool)
    ensures
        r == binding_confirmed(*result),
{
    let variable = unbind_variable(result.intervention.variable.as_str());
    let baseline = match &result.confirmation_run {
        Some(run) => find_probe(&run.toolchain_provenance.bindings, variable.as_str(), true),
        None => None,
    };
    let variant = find_resolved(&result.runs, variable.as_str());
    match (baseline, variant) {
        (Some(left), Some(right)) => left.invocation_count > 0 && right.invocation_count > 0 && (
        !same(left.configured_value.as_str(), right.configured_value.as_str()) || !same_option(
            &left.resolved_path,
            &right.resolved_path,
        ) || !same_option(&left.version, &right.version)),
        _ => false,
    }
}

/// Whether some override of this target changed the file.
pub open spec fn override_changes(run: BuildRun, target: Seq<char>) -> bool {
    exists|i: int|
        0 <= i < run.source_overrides@.len() && (#[trigger] run.source_overrides@[i]).target@
            == target && run.source_overrides@[i].baseline_sha256@
            != run.source_overrides@[i].variant_sha256@
}

fn check_override(run: &BuildRun, target: &str) -> (r: bool)
    ensures
        r == override_changes(*run, target@),
{
    let mut i: usize = 0;
    while i < run.source_overrides.len()
        invariant
            i <= run.source_overrides@.len(),
            forall|k: int|
                0 <= k < i ==> !((#[trigger] run.source_overrides@[k]).target@ == target@
                    && run.source_overrides@[k].baseline_sha256@
                    != run.source_overrides@[k].variant_sha256@),
        decreases run.source_overrides.len() - i,
    {
        let record = &run.source_overrides[i];
        if same(record.target.as_str(), target) && !same(
            record.baseline_sha256.as_str(),
            record.variant_sha256.as_str(),
        ) {
            assert(run.source_overrides@[i as int].target@ == target@);
            return true;
        }
        i += 1;
    }
    false
}

/// Whether some run was seen to build with another dependency file.
pub open spec fn override_confirmed(result: InterventionResult) -> bool {
    let variable = result.intervention.variable@;
    begins_with(variable, "dependency:"@) && exists|i: int|
        0 <= i < result.runs@.len() && override_changes(
            #[trigger] result.runs@[i],
            variable.skip("dependency:"@.len() as int),
        )
}

pub fn dependency_override_confirmed(result: &InterventionResult) -> (r: bool)
    ensures
        r == override_confirmed(*result),
{
    match strip_prefix(result.intervention.variable.as_str(), "dependency:") {
        None => false,
        Some(target) => {
            let mut i: usize = 0;
            while i < result.runs.len()
                invariant
                    i <= result.runs@.len(),
                    begins_with(result.intervention.variable@, "dependency:"@),
                    target@ == result.intervention.variable@.skip("dependency:"@.len() as int),
                    forall|k: int|
                        0 <= k < i ==> !override_changes(#[trigger] result.runs@[k], target@),
                decreases result.runs.len() - i,
            {
                if check_override(&result.runs[i], target.as_str()) {
                    assert(override_changes(result.runs@[i as int], target@));
                    return true;
                }
                i += 1;
            }
            false
        },
    }
}

pub open spec fn binding_text(
    side: Seq<char>,
    variable: Seq<char>,
    p: ToolchainBindingProbe,
) -> Seq<char> {
    side
        + " "@
        + variable
        + " binding resolved as configured="@
        + debug_text(p.configured_value@)
        + ", path="@
        + debug_option(p.resolved_path.deep_view())
        + ", version="@
        + debug_option(p.version.deep_view())
        + ", observed_invocations="@
        + decimal_of(p.invocation_count as int)
}

pub fn show_binding(side: &str, variable: &str, p: &ToolchainBindingProbe) -> (r: String)
    ensures
        r@ == binding_text(side@, variable@, *p),
{
    let mut text = side.to_owned();
    text.push_str(" ");
    text.push_str(variable);
    text.push_str(" binding resolved as configured=");
    text.push_str(quoted(p.configured_value.as_str()).as_str());
    text.push_str(", path=");
    text.push_str(quoted_option(&p.resolved_path).as_str());
    text.push_str(", version=");
    text.push_str(quoted_option(&p.version).as_str());
    text.push_str(", observed_invocations=");
    text.push_str(decimal(p.invocation_count as u128).as_str());
    text
}

pub open spec fn probe_limit_text(variable: Seq<char>, error: Seq<char>) -> Seq<char> {
    "variant "@ + variable + " probe limitation: "@ + error
}

pub fn show_probe_limit(variable: &str, error: &str) -> (r: String)
    ensures
        r@ == probe_limit_text(variable@, error@),
{
    let mut text = "variant ".to_owned();
    text.push_str(variable);
    text.push_str(" probe limitation: ");
    text.push_str(error);
    text
}

/// What the first probe of a variable in a varied run says.
pub open spec fn with_variant_binding(lines: Seq<Seq<char>>, run: BuildRun, variable: Seq<char>) -> Seq<
    Seq<char>,
> {
    match probe_at(run.toolchain_provenance.bindings@, variable, false, 0) {
        Some(probe) => {
            let a = lines.push(binding_text("variant"@, variable, probe));
            match probe.error {
                Some(error) => a.push(probe_limit_text(variable, error@)),
                None => a,
            }
        },
        None => lines,
    }
}

fn push_variant_binding(lines: &mut Vec<String>, run: &BuildRun, variable: &str)
    ensures
        final(lines).deep_view() == with_variant_binding(old(lines).deep_view(), *run, variable@),
{
    if let Some(probe) = find_probe(&run.toolchain_provenance.bindings, variable, false) {
        push_line(lines, show_binding("variant", variable, probe));
        if let Some(error) = &probe.error {
            push_line(lines, show_probe_limit(variable, error.as_str()));
        }
    }
}

pub open spec fn with_variant_bindings(
    lines: Seq<Seq<char>>,
    items: Seq<BuildRun>,
    variable: Seq<char>,
    n: int,
) -> Seq<Seq<char>>
    decreases n,
{
    if n <= 0 {
        lines
    } else {
        with_variant_binding(with_variant_bindings(lines, items, variable, n - 1), items[n - 1], variable)
    }
}

pub fn push_variant_bindings(lines: &mut Vec<String>, items: &Vec<BuildRun>, variable: &str)
    ensures
        final(lines).deep_view() == with_variant_bindings(
            old(lines).deep_view(),
            items@,
            variable@,
            items@.len() as int,
        ),
{
    let ghost start = lines.deep_view();
    let mut n: usize = 0;
    while n < items.len()
        invariant
            n <= items@.len(),
            lines.deep_view() == with_variant_bindings(start, items@, variable@, n as int),
        decreases items.len() - n,
    {
        push_variant_binding(lines, &items[n], variable);
        n += 1;
    }
}

/// What the probes of the controlled binding say.
pub open spec fn with_bindings(lines: Seq<Seq<char>>, result: InterventionResult) -> Seq<Seq<char>> {
    let variable = bound_variable(result.intervention.variable@);
    let a = match result.confirmation_run {
        Some(run) => match probe_at(run.toolchain_provenance.bindings@, variable, false, 0) {
            Some(probe) => lines.push(binding_text("baseline"@, variable, probe)),
            None => lines,
        },
        None => lines,
    };
    with_variant_bindings(a, result.runs@, variable, result.runs@.len() as int)
}

pub fn push_bindings(lines: &mut Vec<String>, result: &InterventionResult)
    ensures
        final(lines).deep_view() == with_bindings(old(lines).deep_view(), *result),
{
    let variable = unbind_variable(result.intervention.variable.as_str());
    if let Some(run) = &result.confirmation_run {
        if let Some(probe) = find_probe(
            &run.toolchain_provenance.bindings,
            variable.as_str(),
            false,
        ) {
            push_line(lines, show_binding("baseline", variable.as_str(), probe));
        }
    }
    push_variant_bindings(lines, &result.runs, variable.as_str());
}

/// The version that the last of the first `n` probes of each tool gave.
pub open spec fn tool_versions(probes: Seq<ToolchainProbe>, n: int) -> Entries
    decreases n,
{
    if n <= 0 {
        Seq::empty()
    } else {
        with_entry(
            Order::Text,
            tool_versions(probes, n - 1),
            probes[n - 1].tool@,
            probes[n - 1].version@,
        )
    }
}

fn collect_versions(probes: &Vec<ToolchainProbe>) -> (r: StringMap)
    ensures
        r.deep_view() == tool_versions(probes@, probes@.len() as int),
{
    let mut versions = StringMap::new();
    let mut n: usize = 0;
    while n < probes.len()
        invariant
            n <= probes@.len(),
            versions.deep_view() == tool_versions(probes@, n as int),
        decreases probes.len() - n,
    {
        versions.insert(probes[n].tool.clone(), probes[n].version.clone());
        n += 1;
    }
    versions
}

pub open spec fn tool_change_text(
    tool: Seq<char>,
    a: Option<Seq<char>>,
    b: Option<Seq<char>>,
) -> Seq<char> {
    "toolchain probe "@ + tool + ": "@ + debug_option(a) + " -> "@ + debug_option(b)
}

pub fn show_tool_change(tool: &str, a: &Option<String>, b: &Option<String>) -> (r: String)
    ensures
        r@ == tool_change_text(tool@, a.deep_view(), b.deep_view()),
{
    let mut text = "toolchain probe ".to_owned();
    text.push_str(tool);
    text.push_str(": ");
    text.push_str(quoted_option(a).as_str());
    text.push_str(" -> ");
    text.push_str(quoted_option(b).as_str());
    text
}

/// What the first `n` of some tools are on either side, where that differs.
pub open spec fn with_tool_changes(
    lines: Seq<Seq<char>>,
    left: Entries,
    right: Entries,
    tools: Entries,
    n: int,
) -> Seq<Seq<char>>
    decreases n,
{
    if n <= 0 {
        lines
    } else {
        let before = with_tool_changes(lines, left, right, tools, n - 1);
        let tool = tools[n - 1].0;
        let a = value_at(Order::Text, left, tool);
        let b = value_at(Order::Text, right, tool);
        if a != b {
            before.push(tool_change_text(tool, a, b))
        } else {
            before
        }
    }
}

fn push_tool_changes(lines: &mut Vec<String>, left: &StringMap, right: &StringMap)
    ensures
        ({
            let tools = entries_added(
                Order::Text,
                left.deep_view(),
                right.deep_view(),
                right.deep_view().len() as int,
            );
            final(lines).deep_view() == with_tool_changes(
                old(lines).deep_view(),
                left.deep_view(),
                right.deep_view(),
                tools,
                tools.len() as int,
            )
        }),
{
    let ghost start = lines.deep_view();
    let mut all = left.clone();
    add_entries(&mut all, right);
    let entries = all.entries();
    let ghost tools = all.deep_view();
    let mut n: usize = 0;
    while n < entries.len()
        invariant
            entries.deep_view() == tools,
            n <= entries@.len(),
            lines.deep_view() == with_tool_changes(
                start,
                left.deep_view(),
                right.deep_view(),
                tools,
                n as int,
            ),
        decreases entries.len() - n,
    {
        assert(tools[n as int].0 == entries@[n as int].0@);
        let tool = entries[n].0.as_str();
        let a = crate::environment::owned(left.get(tool));
        let b = crate::environment::owned(right.get(tool));
        if !same_option(&a, &b) {
            push_line(lines, show_tool_change(tool, &a, &b));
        }
        n += 1;
    }
}

pub open spec fn variant_tool_text(p: ToolchainProbe) -> Seq<char> {
    "variant toolchain "@ + p.tool@ + ": "@ + p.version@
}

pub fn show_variant_tool(p: &ToolchainProbe) -> (r: String)
    ensures
        r@ == variant_tool_text(*p),
{
    let mut text = "variant toolchain ".to_owned();
    text.push_str(p.tool.as_str());
    text.push_str(": ");
    text.push_str(p.version.as_str());
    text
}

pub open spec fn with_variant_tools(
    lines: Seq<Seq<char>>,
    items: Seq<ToolchainProbe>,
    n: int,
) -> Seq<Seq<char>>
    decreases n,
{
    if n <= 0 {
        lines
    } else {
        with_variant_tools(lines, items, n - 1).push(variant_tool_text(items[n - 1]))
    }
}

pub fn push_variant_tools(lines: &mut Vec<String>, items: &Vec<ToolchainProbe>)
    ensures
        final(lines).deep_view() == with_variant_tools(
            old(lines).deep_view(),
            items@,
            items@.len() as int,
        ),
{
    let ghost start = lines.deep_view();
    let mut n: usize = 0;
    while n < items.len()
        invariant
            n <= items@.len(),
            lines.deep_view() == with_variant_tools(start, items@, n as int),
        decreases items.len() - n,
    {
        push_line(lines, show_variant_tool(&items[n]));
        n += 1;
    }
}

pub open spec fn image_text(side: Seq<char>, run: BuildRun) -> Seq<char> {
    side + " image "@ + debug_text(run.image@) + " resolved to "@ + run.resolved_image_id@
}

pub fn show_image(side: &str, run: &BuildRun) -> (r: String)
    ensures
        r@ == image_text(side@, *run),
{
    concat5(
        side,
        " image ",
        quoted(run.image.as_str()).as_str(),
        " resolved to ",
        run.resolved_image_id.as_str(),
    )
}

/// What the images of an experiment hold.
pub open spec fn with_images(lines: Seq<Seq<char>>, result: InterventionResult) -> Seq<Seq<char>> {
    if result.runs@.len() == 0 {
        lines
    } else {
        let variant = result.runs@[0];
        let a = lines.push(image_text("variant"@, variant));
        let probes = variant.toolchain_provenance.probes@;
        let b = match result.confirmation_run {
            Some(baseline) => {
                let left = tool_versions(
                    baseline.toolchain_provenance.probes@,
                    baseline.toolchain_provenance.probes@.len() as int,
                );
                let right = tool_versions(probes, probes.len() as int);
                let tools = entries_added(Order::Text, left, right, right.len() as int);
                with_tool_changes(
                    a.push(image_text("baseline"@, baseline)),
                    left,
                    right,
                    tools,
                    tools.len() as int,
                )
            },
            None => with_variant_tools(a, probes, probes.len() as int),
        };
        match variant.toolchain_provenance.error {
            Some(error) => b.push("variant toolchain probe limitation: "@ + error@),
            None => b,
        }
    }
}

pub fn push_images(lines: &mut Vec<String>, result: &InterventionResult)
    ensures
        final(lines).deep_view() == with_images(old(lines).deep_view(), *result),
{
    if result.runs.len() == 0 {
        return ;
    }
    let variant = &result.runs[0];
    push_line(lines, show_image("variant", variant));
    match &result.confirmation_run {
        Some(baseline) => {
            push_line(lines, show_image("baseline", baseline));
            let left = collect_versions(&baseline.toolchain_provenance.probes);
            let right = collect_versions(&variant.toolchain_provenance.probes);
            push_tool_changes(lines, &left, &right);
        },
        None => {
            push_variant_tools(lines, &variant.toolchain_provenance.probes);
        },
    }
    if let Some(error) = &variant.toolchain_provenance.error {
        push_line(lines, concat("variant toolchain probe limitation: ", error.as_str()));
    }
}

} // verus!
