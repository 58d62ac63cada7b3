//! What the lines on tools, networks and dependencies say.
use vstd::prelude::*;

use crate::engine::provenance::{
    activity_of, activity_total, binding_text, cache_text, correlation_text, counts_text,
    image_text, network_text, override_used_text, process_text, probes_differ, tool_change_text,
    tool_versions, with_network, with_tool_changes, Activity,
};
use crate::laws::configuration::lemma_text_entry;
use crate::laws::wording::lemma_holds;
use crate::model::{
    BuildRun, DependencyCacheSummary, DependencyNetworkCorrelation, NetworkTraceSummary,
    ProcessActivitySummary, ProcessTraceSummary, SourceOverrideRecord, ToolchainBindingProbe,
    ToolchainProbe,
};
use crate::numbers::decimal_of;
use crate::ordering::Order;
use crate::string_map::{increasing, value_at, Entries};
use crate::text::{bool_text, debug_option, debug_text, joined, occurs, or_text, stands_at};

verus! {

proof fn lemma_goes_on(s: Seq<char>, more: Seq<char>, wording: Seq<char>)
    requires
        occurs(s, wording),
    ensures
        occurs(s + more, wording),
{
    let at = choose|at: int| #[trigger] stands_at(s, wording, at);
    assert((s + more).subrange(at, at + wording.len()) =~= s.subrange(at, at + wording.len()));
    assert(stands_at(s + more, wording, at));
}

/// The line on a network trace tells how many sockets were opened, how many connections succeeded and
/// failed, and whom they reached.
pub proof fn law_network_lines_tell_their_counts(t: NetworkTraceSummary)
    ensures
        occurs(
            network_text(t),
            "redacted network syscall trace observed socket="@ + decimal_of(t.socket_calls as int),
        ),
        occurs(
            network_text(t),
            " connect="@ + decimal_of(t.connect_calls as int) + " (success="@ + decimal_of(t.successful_connects as int) + " failed="@ + decimal_of(t.failed_connects as int),
        ),
        occurs(
            network_text(t),
            ") sendto="@ + decimal_of(t.sendto_calls as int) + " recvfrom="@ + decimal_of(t.recvfrom_calls as int),
        ),
        occurs(
            network_text(t),
            "] scopes=["@ + counts_text(t.endpoint_scopes@) + "] successful_scopes=["@ + counts_text(t.successful_endpoint_scopes@),
        ),
        occurs(
            network_text(t),
            " truncated="@ + bool_text(t.trace_truncated),
        ),
{
    let p0 = "redacted network syscall trace observed socket="@;
    let p1 = decimal_of(t.socket_calls as int);
    let p2 = " connect="@;
    let p3 = decimal_of(t.connect_calls as int);
    let p4 = " (success="@;
    let p5 = decimal_of(t.successful_connects as int);
    let p6 = " failed="@;
    let p7 = decimal_of(t.failed_connects as int);
    let p8 = ") sendto="@;
    let p9 = decimal_of(t.sendto_calls as int);
    let p10 = " recvfrom="@;
    let p11 = decimal_of(t.recvfrom_calls as int);
    let p12 = " families=["@;
    let p13 = joined(t.address_families.deep_view(), ","@, t.address_families@.len() as int);
    let p14 = "] scopes=["@;
    let p15 = counts_text(t.endpoint_scopes@);
    let p16 = "] successful_scopes=["@;
    let p17 = counts_text(t.successful_endpoint_scopes@);
    let p18 = "] parsed_bytes="@;
    let p19 = decimal_of(t.parsed_bytes as int);
    let p20 = " truncated="@;
    let p21 = bool_text(t.trace_truncated);
    let s0 = p0;
    let s1 = s0 + p1;
    let s2 = s1 + p2;
    let s3 = s2 + p3;
    let s4 = s3 + p4;
    let s5 = s4 + p5;
    let s6 = s5 + p6;
    let s7 = s6 + p7;
    let s8 = s7 + p8;
    let s9 = s8 + p9;
    let s10 = s9 + p10;
    let s11 = s10 + p11;
    let s12 = s11 + p12;
    let s13 = s12 + p13;
    let s14 = s13 + p14;
    let s15 = s14 + p15;
    let s16 = s15 + p16;
    let s17 = s16 + p17;
    let s18 = s17 + p18;
    let s19 = s18 + p19;
    let s20 = s19 + p20;
    let s21 = s20 + p21;
    let w0 = p0 + p1;
    lemma_holds(s1, Seq::empty(), w0, Seq::empty());
    lemma_goes_on(s1, p2, w0);
    lemma_goes_on(s2, p3, w0);
    lemma_goes_on(s3, p4, w0);
    lemma_goes_on(s4, p5, w0);
    lemma_goes_on(s5, p6, w0);
    lemma_goes_on(s6, p7, w0);
    lemma_goes_on(s7, p8, w0);
    lemma_goes_on(s8, p9, w0);
    lemma_goes_on(s9, p10, w0);
    lemma_goes_on(s10, p11, w0);
    lemma_goes_on(s11, p12, w0);
    lemma_goes_on(s12, p13, w0);
    lemma_goes_on(s13, p14, w0);
    lemma_goes_on(s14, p15, w0);
    lemma_goes_on(s15, p16, w0);
    lemma_goes_on(s16, p17, w0);
    lemma_goes_on(s17, p18, w0);
    lemma_goes_on(s18, p19, w0);
    lemma_goes_on(s19, p20, w0);
    lemma_goes_on(s20, p21, w0);
    let w1 = p2 + p3 + p4 + p5 + p6 + p7;
    lemma_holds(s7, s1, w1, Seq::empty());
    lemma_goes_on(s7, p8, w1);
    lemma_goes_on(s8, p9, w1);
    lemma_goes_on(s9, p10, w1);
    lemma_goes_on(s10, p11, w1);
    lemma_goes_on(s11, p12, w1);
    lemma_goes_on(s12, p13, w1);
    lemma_goes_on(s13, p14, w1);
    lemma_goes_on(s14, p15, w1);
    lemma_goes_on(s15, p16, w1);
    lemma_goes_on(s16, p17, w1);
    lemma_goes_on(s17, p18, w1);
    lemma_goes_on(s18, p19, w1);
    lemma_goes_on(s19, p20, w1);
    lemma_goes_on(s20, p21, w1);
    let w2 = p8 + p9 + p10 + p11;
    lemma_holds(s11, s7, w2, Seq::empty());
    lemma_goes_on(s11, p12, w2);
    lemma_goes_on(s12, p13, w2);
    lemma_goes_on(s13, p14, w2);
    lemma_goes_on(s14, p15, w2);
    lemma_goes_on(s15, p16, w2);
    lemma_goes_on(s16, p17, w2);
    lemma_goes_on(s17, p18, w2);
    lemma_goes_on(s18, p19, w2);
    lemma_goes_on(s19, p20, w2);
    lemma_goes_on(s20, p21, w2);
    let w3 = p14 + p15 + p16 + p17;
    lemma_holds(s17, s13, w3, Seq::empty());
    lemma_goes_on(s17, p18, w3);
    lemma_goes_on(s18, p19, w3);
    lemma_goes_on(s19, p20, w3);
    lemma_goes_on(s20, p21, w3);
    let w4 = p20 + p21;
    lemma_holds(s21, s19, w4, Seq::empty());
}

/// A trace that was not attempted is not told; one that was is told with what it saw, or with why it saw
/// nothing.
pub proof fn law_traces_are_told_if_attempted(lines: Seq<Seq<char>>, t: NetworkTraceSummary)
    ensures
        !t.attempted ==> with_network(lines, t) == lines,
        t.attempted && t.tracer_available ==> with_network(lines, t) == lines.push(network_text(t)),
        t.attempted && !t.tracer_available && t.error is Some ==> with_network(lines, t).len()
            == lines.len() + 1 && occurs(with_network(lines, t).last(), t.error->0@),
        t.attempted && !t.tracer_available && t.error is None ==> with_network(lines, t) == lines,
{
    if t.error is Some {
        lemma_holds(
            "network trace limitation: "@ + t.error->0@,
            "network trace limitation: "@,
            t.error->0@,
            Seq::empty(),
        );
    }
}

/// What processes did is added up over all of them.
pub proof fn law_activities_are_added_up(
    processes: Seq<ProcessActivitySummary>,
    own: ProcessActivitySummary,
    kind: Activity,
)
    ensures
        activity_total(processes.push(own), kind, processes.len() as int + 1) == activity_total(
            processes,
            kind,
            processes.len() as int,
        ) + activity_of(own, kind),
        activity_total(Seq::empty(), kind, 0) == 0,
        activity_of(own, Activity::DependencyReads) == own.dependency_reads,
        activity_of(own, Activity::CacheReads) == own.cache_reads,
        activity_of(own, Activity::OutputWrites) == own.output_writes,
        activity_of(own, Activity::NonlocalEvents) == own.successful_nonlocal_network_events,
{
    lemma_total_prefix(processes, processes.push(own), kind, processes.len() as int);
}

proof fn lemma_total_prefix(
    a: Seq<ProcessActivitySummary>,
    b: Seq<ProcessActivitySummary>,
    kind: Activity,
    n: int,
)
    requires
        0 <= n <= a.len(),
        n <= b.len(),
        forall|i: int| 0 <= i < n ==> a[i] == #[trigger] b[i],
    ensures
        activity_total(a, kind, n) == activity_total(b, kind, n),
    decreases n,
{
    if n > 0 {
        lemma_total_prefix(a, b, kind, n - 1);
        assert(a[n - 1] == b[n - 1]);
    }
}

/// The line on processes tells how many there were, what they read and wrote, and how often one of them
/// did two things.
pub proof fn law_process_lines_tell_their_counts(t: ProcessTraceSummary)
    ensures
        occurs(
            process_text(t),
            "redacted process/file trace: processes="@ + decimal_of(t.processes@.len() as int),
        ),
        occurs(
            process_text(t),
            " dependency_reads="@ + decimal_of(
            activity_total(t.processes@, Activity::DependencyReads, t.processes@.len() as int),
        ),
        ),
        occurs(
            process_text(t),
            " cache_reads="@ + decimal_of(
            activity_total(t.processes@, Activity::CacheReads, t.processes@.len() as int),
        ),
        ),
        occurs(
            process_text(t),
            " output_writes="@ + decimal_of(
            activity_total(t.processes@, Activity::OutputWrites, t.processes@.len() as int),
        ),
        ),
        occurs(
            process_text(t),
            " successful_nonlocal_events="@ + decimal_of(
            activity_total(t.processes@, Activity::NonlocalEvents, t.processes@.len() as int),
        ),
        ),
        occurs(
            process_text(t),
            " same_process(dependency+output="@ + decimal_of(t.same_process_dependency_output as int),
        ),
        occurs(
            process_text(t),
            " cache+output="@ + decimal_of(t.same_process_cache_output as int),
        ),
        occurs(
            process_text(t),
            " network+cache="@ + decimal_of(t.same_process_network_cache as int),
        ),
        occurs(
            process_text(t),
            " network+cache+output="@ + decimal_of(t.same_process_network_cache_output as int),
        ),
{
    let p0 = "redacted process/file trace: processes="@;
    let p1 = decimal_of(t.processes@.len() as int);
    let p2 = " dependency_reads="@;
    let p3 = decimal_of(
            activity_total(t.processes@, Activity::DependencyReads, t.processes@.len() as int),
        );
    let p4 = " cache_reads="@;
    let p5 = decimal_of(
            activity_total(t.processes@, Activity::CacheReads, t.processes@.len() as int),
        );
    let p6 = " output_writes="@;
    let p7 = decimal_of(
            activity_total(t.processes@, Activity::OutputWrites, t.processes@.len() as int),
        );
    let p8 = " successful_nonlocal_events="@;
    let p9 = decimal_of(
            activity_total(t.processes@, Activity::NonlocalEvents, t.processes@.len() as int),
        );
    let p10 = " same_process(dependency+output="@;
    let p11 = decimal_of(t.same_process_dependency_output as int);
    let p12 = " cache+output="@;
    let p13 = decimal_of(t.same_process_cache_output as int);
    let p14 = " network+cache="@;
    let p15 = decimal_of(t.same_process_network_cache as int);
    let p16 = " network+cache+output="@;
    let p17 = decimal_of(t.same_process_network_cache_output as int);
    let p18 = ") parsed_bytes="@;
    let p19 = decimal_of(t.parsed_bytes as int);
    let p20 = " truncated="@;
    let p21 = bool_text(t.truncated);
    let p22 = " (same-process co-occurrence is not byte-level taint tracking)"@;
    let s0 = p0;
    let s1 = s0 + p1;
    let s2 = s1 + p2;
    let s3 = s2 + p3;
    let s4 = s3 + p4;
    let s5 = s4 + p5;
    let s6 = s5 + p6;
    let s7 = s6 + p7;
    let s8 = s7 + p8;
    let s9 = s8 + p9;
    let s10 = s9 + p10;
    let s11 = s10 + p11;
    let s12 = s11 + p12;
    let s13 = s12 + p13;
    let s14 = s13 + p14;
    let s15 = s14 + p15;
    let s16 = s15 + p16;
    let s17 = s16 + p17;
    let s18 = s17 + p18;
    let s19 = s18 + p19;
    let s20 = s19 + p20;
    let s21 = s20 + p21;
    let s22 = s21 + p22;
    let w0 = p0 + p1;
    lemma_holds(s1, Seq::empty(), w0, Seq::empty());
    lemma_goes_on(s1, p2, w0);
    lemma_goes_on(s2, p3, w0);
    lemma_goes_on(s3, p4, w0);
    lemma_goes_on(s4, p5, w0);
    lemma_goes_on(s5, p6, w0);
    lemma_goes_on(s6, p7, w0);
    lemma_goes_on(s7, p8, w0);
    lemma_goes_on(s8, p9, w0);
    lemma_goes_on(s9, p10, w0);
    lemma_goes_on(s10, p11, w0);
    lemma_goes_on(s11, p12, w0);
    lemma_goes_on(s12, p13, w0);
    lemma_goes_on(s13, p14, w0);
    lemma_goes_on(s14, p15, w0);
    lemma_goes_on(s15, p16, w0);
    lemma_goes_on(s16, p17, w0);
    lemma_goes_on(s17, p18, w0);
    lemma_goes_on(s18, p19, w0);
    lemma_goes_on(s19, p20, w0);
    lemma_goes_on(s20, p21, w0);
    lemma_goes_on(s21, p22, w0);
    let w1 = p2 + p3;
    lemma_holds(s3, s1, w1, Seq::empty());
    lemma_goes_on(s3, p4, w1);
    lemma_goes_on(s4, p5, w1);
    lemma_goes_on(s5, p6, w1);
    lemma_goes_on(s6, p7, w1);
    lemma_goes_on(s7, p8, w1);
    lemma_goes_on(s8, p9, w1);
    lemma_goes_on(s9, p10, w1);
    lemma_goes_on(s10, p11, w1);
    lemma_goes_on(s11, p12, w1);
    lemma_goes_on(s12, p13, w1);
    lemma_goes_on(s13, p14, w1);
    lemma_goes_on(s14, p15, w1);
    lemma_goes_on(s15, p16, w1);
    lemma_goes_on(s16, p17, w1);
    lemma_goes_on(s17, p18, w1);
    lemma_goes_on(s18, p19, w1);
    lemma_goes_on(s19, p20, w1);
    lemma_goes_on(s20, p21, w1);
    lemma_goes_on(s21, p22, w1);
    let w2 = p4 + p5;
    lemma_holds(s5, s3, w2, Seq::empty());
    lemma_goes_on(s5, p6, w2);
    lemma_goes_on(s6, p7, w2);
    lemma_goes_on(s7, p8, w2);
    lemma_goes_on(s8, p9, w2);
    lemma_goes_on(s9, p10, w2);
    lemma_goes_on(s10, p11, w2);
    lemma_goes_on(s11, p12, w2);
    lemma_goes_on(s12, p13, w2);
    lemma_goes_on(s13, p14, w2);
    lemma_goes_on(s14, p15, w2);
    lemma_goes_on(s15, p16, w2);
    lemma_goes_on(s16, p17, w2);
    lemma_goes_on(s17, p18, w2);
    lemma_goes_on(s18, p19, w2);
    lemma_goes_on(s19, p20, w2);
    lemma_goes_on(s20, p21, w2);
    lemma_goes_on(s21, p22, w2);
    let w3 = p6 + p7;
    lemma_holds(s7, s5, w3, Seq::empty());
    lemma_goes_on(s7, p8, w3);
    lemma_goes_on(s8, p9, w3);
    lemma_goes_on(s9, p10, w3);
    lemma_goes_on(s10, p11, w3);
    lemma_goes_on(s11, p12, w3);
    lemma_goes_on(s12, p13, w3);
    lemma_goes_on(s13, p14, w3);
    lemma_goes_on(s14, p15, w3);
    lemma_goes_on(s15, p16, w3);
    lemma_goes_on(s16, p17, w3);
    lemma_goes_on(s17, p18, w3);
    lemma_goes_on(s18, p19, w3);
    lemma_goes_on(s19, p20, w3);
    lemma_goes_on(s20, p21, w3);
    lemma_goes_on(s21, p22, w3);
    let w4 = p8 + p9;
    lemma_holds(s9, s7, w4, Seq::empty());
    lemma_goes_on(s9, p10, w4);
    lemma_goes_on(s10, p11, w4);
    lemma_goes_on(s11, p12, w4);
    lemma_goes_on(s12, p13, w4);
    lemma_goes_on(s13, p14, w4);
    lemma_goes_on(s14, p15, w4);
    lemma_goes_on(s15, p16, w4);
    lemma_goes_on(s16, p17, w4);
    lemma_goes_on(s17, p18, w4);
    lemma_goes_on(s18, p19, w4);
    lemma_goes_on(s19, p20, w4);
    lemma_goes_on(s20, p21, w4);
    lemma_goes_on(s21, p22, w4);
    let w5 = p10 + p11;
    lemma_holds(s11, s9, w5, Seq::empty());
    lemma_goes_on(s11, p12, w5);
    lemma_goes_on(s12, p13, w5);
    lemma_goes_on(s13, p14, w5);
    lemma_goes_on(s14, p15, w5);
    lemma_goes_on(s15, p16, w5);
    lemma_goes_on(s16, p17, w5);
    lemma_goes_on(s17, p18, w5);
    lemma_goes_on(s18, p19, w5);
    lemma_goes_on(s19, p20, w5);
    lemma_goes_on(s20, p21, w5);
    lemma_goes_on(s21, p22, w5);
    let w6 = p12 + p13;
    lemma_holds(s13, s11, w6, Seq::empty());
    lemma_goes_on(s13, p14, w6);
    lemma_goes_on(s14, p15, w6);
    lemma_goes_on(s15, p16, w6);
    lemma_goes_on(s16, p17, w6);
    lemma_goes_on(s17, p18, w6);
    lemma_goes_on(s18, p19, w6);
    lemma_goes_on(s19, p20, w6);
    lemma_goes_on(s20, p21, w6);
    lemma_goes_on(s21, p22, w6);
    let w7 = p14 + p15;
    lemma_holds(s15, s13, w7, Seq::empty());
    lemma_goes_on(s15, p16, w7);
    lemma_goes_on(s16, p17, w7);
    lemma_goes_on(s17, p18, w7);
    lemma_goes_on(s18, p19, w7);
    lemma_goes_on(s19, p20, w7);
    lemma_goes_on(s20, p21, w7);
    lemma_goes_on(s21, p22, w7);
    let w8 = p16 + p17;
    lemma_holds(s17, s15, w8, Seq::empty());
    lemma_goes_on(s17, p18, w8);
    lemma_goes_on(s18, p19, w8);
    lemma_goes_on(s19, p20, w8);
    lemma_goes_on(s20, p21, w8);
    lemma_goes_on(s21, p22, w8);
}

/// The line on a replaced file tells which file came in its place, and the digest before and after.
pub proof fn law_replacement_lines_tell_both_files(o: SourceOverrideRecord)
    ensures
        occurs(override_used_text(o), o.target@ + " <- "@ + o.variant_source@),
        occurs(override_used_text(o), o.baseline_sha256@ + " -> "@ + o.variant_sha256@),
{
    let files = o.target@ + " <- "@ + o.variant_source@;
    let digests = o.baseline_sha256@ + " -> "@ + o.variant_sha256@;
    let all = override_used_text(o);
    lemma_holds(
        all,
        "fresh-workspace dependency override "@,
        files,
        " changed declaration sha256 "@ + digests,
    );
    lemma_holds(
        all,
        "fresh-workspace dependency override "@ + files + " changed declaration sha256 "@,
        digests,
        Seq::empty(),
    );
}

/// The line on a changed tool tells its version in the baseline and, behind an arrow, the one in the
/// variant.
pub proof fn law_tool_lines_tell_both_versions(
    tool: Seq<char>,
    a: Option<Seq<char>>,
    b: Option<Seq<char>>,
)
    ensures
        occurs(
            tool_change_text(tool, a, b),
            tool + ": "@ + debug_option(a) + " -> "@ + debug_option(b),
        ),
{
    lemma_holds(
        tool_change_text(tool, a, b),
        "toolchain probe "@,
        tool + ": "@ + debug_option(a) + " -> "@ + debug_option(b),
        Seq::empty(),
    );
}

proof fn lemma_tool_versions(probes: Seq<ToolchainProbe>, n: int, tool: Seq<char>)
    requires
        0 <= n <= probes.len(),
    ensures
        increasing(Order::Text, tool_versions(probes, n)),
        value_at(Order::Text, tool_versions(probes, n), tool) is None <==> forall|i: int|
            0 <= i < n ==> (#[trigger] probes[i]).tool@ != tool,
        forall|i: int|
            0 <= i < n && (#[trigger] probes[i]).tool@ == tool && (forall|j: int|
                i < j < n ==> (#[trigger] probes[j]).tool@ != tool) ==> value_at(
                Order::Text,
                tool_versions(probes, n),
                tool,
            ) == Some(probes[i].version@),
    decreases n,
{
    if n > 0 {
        lemma_tool_versions(probes, n - 1, tool);
        lemma_text_entry(
            tool_versions(probes, n - 1),
            probes[n - 1].tool@,
            probes[n - 1].version@,
            tool,
        );
    } else {
        let none: Entries = Seq::empty();
        if value_at(Order::Text, none, tool) is Some {
            crate::string_map::lemma_place(Order::Text, none, tool);
        }
    }
}

/// The version of a tool is the one that the last probe of it saw.
pub proof fn law_the_last_probe_tells_the_version(probes: Seq<ToolchainProbe>, i: int)
    requires
        0 <= i < probes.len(),
        forall|j: int| i < j < probes.len() ==> (#[trigger] probes[j]).tool@ != probes[i].tool@,
    ensures
        value_at(
            Order::Text,
            tool_versions(probes, probes.len() as int),
            probes[i].tool@,
        ) == Some(probes[i].version@),
{
    lemma_tool_versions(probes, probes.len() as int, probes[i].tool@);
}

/// A tool is told exactly if its version differs between the two sides.
pub proof fn law_only_changed_tools_are_told(
    lines: Seq<Seq<char>>,
    left: Entries,
    right: Entries,
    tools: Entries,
    n: int,
    i: int,
)
    requires
        0 <= i < n <= tools.len(),
    ensures
        value_at(Order::Text, left, tools[i].0) != value_at(Order::Text, right, tools[i].0)
            ==> with_tool_changes(lines, left, right, tools, n).contains(
            tool_change_text(
                tools[i].0,
                value_at(Order::Text, left, tools[i].0),
                value_at(Order::Text, right, tools[i].0),
            ),
        ),
        left == right ==> with_tool_changes(lines, left, right, tools, n) == lines,
    decreases n,
{
    lemma_same_tools(lines, left, tools, n);
    let before = with_tool_changes(lines, left, right, tools, n - 1);
    let now = with_tool_changes(lines, left, right, tools, n);
    let own = tool_change_text(
        tools[i].0,
        value_at(Order::Text, left, tools[i].0),
        value_at(Order::Text, right, tools[i].0),
    );
    if i < n - 1 {
        law_only_changed_tools_are_told(lines, left, right, tools, n - 1, i);
        if before.contains(own) {
            let k = choose|k: int| 0 <= k < before.len() && before[k] == own;
            assert(now[k] == own);
        }
    } else if value_at(Order::Text, left, tools[i].0) != value_at(Order::Text, right, tools[i].0) {
        assert(now[before.len() as int] == own);
    }
}

proof fn lemma_same_tools(lines: Seq<Seq<char>>, both: Entries, tools: Entries, n: int)
    requires
        0 <= n <= tools.len(),
    ensures
        with_tool_changes(lines, both, both, tools, n) == lines,
    decreases n,
{
    if n > 0 {
        lemma_same_tools(lines, both, tools, n - 1);
    }
}

/// The line on an image names the side, the image and what it was resolved to; that on a bound tool what
/// was configured and how often it was called.
pub proof fn law_image_and_binding_lines(
    side: Seq<char>,
    run: BuildRun,
    variable: Seq<char>,
    p: ToolchainBindingProbe,
)
    ensures
        occurs(
            image_text(side, run),
            side + " image "@ + debug_text(run.image@) + " resolved to "@ + run.resolved_image_id@,
        ),
        occurs(binding_text(side, variable, p), side + " "@ + variable + " binding"@),
        occurs(binding_text(side, variable, p), "configured="@ + debug_text(p.configured_value@)),
        occurs(
            binding_text(side, variable, p),
            ", observed_invocations="@ + decimal_of(p.invocation_count as int),
        ),
{
    let image = image_text(side, run);
    lemma_holds(image, Seq::empty(), image, Seq::empty());
    let all = binding_text(side, variable, p);
    let head = side + " "@ + variable + " binding"@;
    let configured = "configured="@ + debug_text(p.configured_value@);
    let middle = ", path="@ + debug_option(p.resolved_path.deep_view()) + ", version="@
        + debug_option(p.version.deep_view());
    let calls = ", observed_invocations="@ + decimal_of(p.invocation_count as int);
    reveal_strlit(" binding resolved as configured=");
    reveal_strlit(" binding");
    reveal_strlit(" resolved as ");
    reveal_strlit("configured=");
    assert(" binding resolved as configured="@ =~= " binding"@ + " resolved as "@ + "configured="@);
    assert(all =~= head + " resolved as "@ + configured + middle + calls);
    lemma_holds(all, Seq::empty(), head, " resolved as "@ + configured + middle + calls);
    lemma_holds(all, head + " resolved as "@, configured, middle + calls);
    lemma_holds(all, head + " resolved as "@ + configured + middle, calls, Seq::empty());
}

/// Two bindings of a tool agree exactly if what was configured, where it was found and its version agree.
pub proof fn law_bindings_agree(a: ToolchainBindingProbe, b: ToolchainBindingProbe)
    ensures
        !probes_differ(a, b) <==> a.configured_value@ == b.configured_value@
            && a.resolved_path.deep_view() == b.resolved_path.deep_view() && a.version.deep_view()
            == b.version.deep_view(),
        probes_differ(a, b) == probes_differ(b, a),
{
}

/// The line on a dependency cache tells files and bytes before the build and after it, each on its side.
pub proof fn law_cache_lines_tell_both_sides(c: DependencyCacheSummary)
    ensures
        occurs(
            cache_text(c),
            " dependency-cache content: before(files="@ + decimal_of(c.before_file_count as int) + " bytes="@ + decimal_of(c.before_total_bytes as int),
        ),
        occurs(
            cache_text(c),
            ") after(files="@ + decimal_of(c.after_file_count as int) + " bytes="@ + decimal_of(c.after_total_bytes as int),
        ),
{
    let p0 = "redacted "@;
    let p1 = c.ecosystem@;
    let p2 = " dependency-cache content: before(files="@;
    let p3 = decimal_of(c.before_file_count as int);
    let p4 = " bytes="@;
    let p5 = decimal_of(c.before_total_bytes as int);
    let p6 = " aggregate_sha256="@;
    let p7 = or_text(c.before_aggregate_sha256.deep_view(), "<unavailable>"@);
    let p8 = " truncated="@;
    let p9 = bool_text(c.before_truncated);
    let p10 = ") after(files="@;
    let p11 = decimal_of(c.after_file_count as int);
    let p12 = " bytes="@;
    let p13 = decimal_of(c.after_total_bytes as int);
    let p14 = " aggregate_sha256="@;
    let p15 = or_text(c.after_aggregate_sha256.deep_view(), "<unavailable>"@);
    let p16 = " truncated="@;
    let p17 = bool_text(c.after_truncated);
    let p18 = ") complete="@;
    let p19 = bool_text(c.comparison_complete);
    let p20 = " changed="@;
    let p21 = bool_text(c.changed_during_build);
    let p22 = " observed_change="@;
    let p23 = bool_text(c.observed_change);
    let p24 = " bounds(files="@;
    let p25 = decimal_of(c.max_files as int);
    let p26 = " bytes="@;
    let p27 = decimal_of(c.max_bytes as int);
    let p28 = ")"@;
    let s0 = p0;
    let s1 = s0 + p1;
    let s2 = s1 + p2;
    let s3 = s2 + p3;
    let s4 = s3 + p4;
    let s5 = s4 + p5;
    let s6 = s5 + p6;
    let s7 = s6 + p7;
    let s8 = s7 + p8;
    let s9 = s8 + p9;
    let s10 = s9 + p10;
    let s11 = s10 + p11;
    let s12 = s11 + p12;
    let s13 = s12 + p13;
    let s14 = s13 + p14;
    let s15 = s14 + p15;
    let s16 = s15 + p16;
    let s17 = s16 + p17;
    let s18 = s17 + p18;
    let s19 = s18 + p19;
    let s20 = s19 + p20;
    let s21 = s20 + p21;
    let s22 = s21 + p22;
    let s23 = s22 + p23;
    let s24 = s23 + p24;
    let s25 = s24 + p25;
    let s26 = s25 + p26;
    let s27 = s26 + p27;
    let s28 = s27 + p28;
    let w0 = p2 + p3 + p4 + p5;
    lemma_holds(s5, s1, w0, Seq::empty());
    lemma_goes_on(s5, p6, w0);
    lemma_goes_on(s6, p7, w0);
    lemma_goes_on(s7, p8, w0);
    lemma_goes_on(s8, p9, w0);
    lemma_goes_on(s9, p10, w0);
    lemma_goes_on(s10, p11, w0);
    lemma_goes_on(s11, p12, w0);
    lemma_goes_on(s12, p13, w0);
    lemma_goes_on(s13, p14, w0);
    lemma_goes_on(s14, p15, w0);
    lemma_goes_on(s15, p16, w0);
    lemma_goes_on(s16, p17, w0);
    lemma_goes_on(s17, p18, w0);
    lemma_goes_on(s18, p19, w0);
    lemma_goes_on(s19, p20, w0);
    lemma_goes_on(s20, p21, w0);
    lemma_goes_on(s21, p22, w0);
    lemma_goes_on(s22, p23, w0);
    lemma_goes_on(s23, p24, w0);
    lemma_goes_on(s24, p25, w0);
    lemma_goes_on(s25, p26, w0);
    lemma_goes_on(s26, p27, w0);
    lemma_goes_on(s27, p28, w0);
    let w1 = p10 + p11 + p12 + p13;
    lemma_holds(s13, s9, w1, Seq::empty());
    lemma_goes_on(s13, p14, w1);
    lemma_goes_on(s14, p15, w1);
    lemma_goes_on(s15, p16, w1);
    lemma_goes_on(s16, p17, w1);
    lemma_goes_on(s17, p18, w1);
    lemma_goes_on(s18, p19, w1);
    lemma_goes_on(s19, p20, w1);
    lemma_goes_on(s20, p21, w1);
    lemma_goes_on(s21, p22, w1);
    lemma_goes_on(s22, p23, w1);
    lemma_goes_on(s23, p24, w1);
    lemma_goes_on(s24, p25, w1);
    lemma_goes_on(s25, p26, w1);
    lemma_goes_on(s26, p27, w1);
    lemma_goes_on(s27, p28, w1);
}

/// The line on a dependency cache tells whether the comparison was complete, whether the cache changed, and
/// whether a change was seen.
pub proof fn law_cache_lines_tell_changes(c: DependencyCacheSummary)
    ensures
        occurs(
            cache_text(c),
            ") complete="@ + bool_text(c.comparison_complete),
        ),
        occurs(
            cache_text(c),
            " changed="@ + bool_text(c.changed_during_build),
        ),
        occurs(
            cache_text(c),
            " observed_change="@ + bool_text(c.observed_change),
        ),
{
    let p0 = "redacted "@;
    let p1 = c.ecosystem@;
    let p2 = " dependency-cache content: before(files="@;
    let p3 = decimal_of(c.before_file_count as int);
    let p4 = " bytes="@;
    let p5 = decimal_of(c.before_total_bytes as int);
    let p6 = " aggregate_sha256="@;
    let p7 = or_text(c.before_aggregate_sha256.deep_view(), "<unavailable>"@);
    let p8 = " truncated="@;
    let p9 = bool_text(c.before_truncated);
    let p10 = ") after(files="@;
    let p11 = decimal_of(c.after_file_count as int);
    let p12 = " bytes="@;
    let p13 = decimal_of(c.after_total_bytes as int);
    let p14 = " aggregate_sha256="@;
    let p15 = or_text(c.after_aggregate_sha256.deep_view(), "<unavailable>"@);
    let p16 = " truncated="@;
    let p17 = bool_text(c.after_truncated);
    let p18 = ") complete="@;
    let p19 = bool_text(c.comparison_complete);
    let p20 = " changed="@;
    let p21 = bool_text(c.changed_during_build);
    let p22 = " observed_change="@;
    let p23 = bool_text(c.observed_change);
    let p24 = " bounds(files="@;
    let p25 = decimal_of(c.max_files as int);
    let p26 = " bytes="@;
    let p27 = decimal_of(c.max_bytes as int);
    let p28 = ")"@;
    let s0 = p0;
    let s1 = s0 + p1;
    let s2 = s1 + p2;
    let s3 = s2 + p3;
    let s4 = s3 + p4;
    let s5 = s4 + p5;
    let s6 = s5 + p6;
    let s7 = s6 + p7;
    let s8 = s7 + p8;
    let s9 = s8 + p9;
    let s10 = s9 + p10;
    let s11 = s10 + p11;
    let s12 = s11 + p12;
    let s13 = s12 + p13;
    let s14 = s13 + p14;
    let s15 = s14 + p15;
    let s16 = s15 + p16;
    let s17 = s16 + p17;
    let s18 = s17 + p18;
    let s19 = s18 + p19;
    let s20 = s19 + p20;
    let s21 = s20 + p21;
    let s22 = s21 + p22;
    let s23 = s22 + p23;
    let s24 = s23 + p24;
    let s25 = s24 + p25;
    let s26 = s25 + p26;
    let s27 = s26 + p27;
    let s28 = s27 + p28;
    let w0 = p18 + p19;
    lemma_holds(s19, s17, w0, Seq::empty());
    lemma_goes_on(s19, p20, w0);
    lemma_goes_on(s20, p21, w0);
    lemma_goes_on(s21, p22, w0);
    lemma_goes_on(s22, p23, w0);
    lemma_goes_on(s23, p24, w0);
    lemma_goes_on(s24, p25, w0);
    lemma_goes_on(s25, p26, w0);
    lemma_goes_on(s26, p27, w0);
    lemma_goes_on(s27, p28, w0);
    let w1 = p20 + p21;
    lemma_holds(s21, s19, w1, Seq::empty());
    lemma_goes_on(s21, p22, w1);
    lemma_goes_on(s22, p23, w1);
    lemma_goes_on(s23, p24, w1);
    lemma_goes_on(s24, p25, w1);
    lemma_goes_on(s25, p26, w1);
    lemma_goes_on(s26, p27, w1);
    lemma_goes_on(s27, p28, w1);
    let w2 = p22 + p23;
    lemma_holds(s23, s21, w2, Seq::empty());
    lemma_goes_on(s23, p24, w2);
    lemma_goes_on(s24, p25, w2);
    lemma_goes_on(s25, p26, w2);
    lemma_goes_on(s26, p27, w2);
    lemma_goes_on(s27, p28, w2);
}

/// The line on network and cache tells how many connections and how many changes of a cache fell into the
/// build, and whether both did.
pub proof fn law_correlation_lines_tell_their_counts(c: DependencyNetworkCorrelation)
    ensures
        occurs(
            correlation_text(c),
            " successful_nonlocal_events="@ + decimal_of(
                c.successful_nonlocal_network_events as int,
            ) + " complete_cache_mutations="@ + decimal_of(c.complete_cache_mutations as int)
                + " incomplete_cache_observations="@ + decimal_of(
                c.incomplete_cache_observations as int,
            ) + " cooccurrence="@ + bool_text(c.build_window_cooccurrence),
        ),
{
    let told = " successful_nonlocal_events="@ + decimal_of(
        c.successful_nonlocal_network_events as int,
    ) + " complete_cache_mutations="@ + decimal_of(c.complete_cache_mutations as int)
        + " incomplete_cache_observations="@ + decimal_of(c.incomplete_cache_observations as int)
        + " cooccurrence="@ + bool_text(c.build_window_cooccurrence);
    lemma_holds(
        correlation_text(c),
        "network/cache build-window co-occurrence: trace_available="@ + bool_text(
            c.network_trace_available,
        ),
        told,
        " (co-occurrence does not identify byte origin)"@,
    );
}

} // verus!
