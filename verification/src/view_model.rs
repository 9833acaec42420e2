//! What the process views show: the figure of each process under a metric,
//! the order of the list, and which layout the choices select.

use vstd::prelude::*;

use crate::doubles::{exact_limit, f64_round_trip, f64_value, lemma_f64_value_exact, saturated};
use crate::decimal::{decimal, decimal_chars};
use crate::memory::{format_bytes, format_bytes_text, ProcessMemoryEntry};
use crate::text::push_chars;
use crate::sorting::{sort_desc_by_keys, sorted_by_key_desc, stably_sorted_desc};
use crate::types::{GroupMode, MemoryMetric, MemoryTab, ViewMode};

verus! {

/// The figure of a process under a metric, in bytes.
pub open spec fn metric_figure(e: ProcessMemoryEntry, metric: MemoryMetric) -> u64 {
    match metric {
        MemoryMetric::WorkingSet => e.working_set_bytes,
        MemoryMetric::PrivateWs => e.private_bytes,
        MemoryMetric::GpuDedicated => e.gpu_dedicated_bytes,
        MemoryMetric::GpuShared => e.gpu_shared_bytes,
    }
}

/// The figure as the views size and order by it: converted to `f64` and back.
pub open spec fn metric_key(metric: MemoryMetric) -> spec_fn(ProcessMemoryEntry) -> u64 {
    |e: ProcessMemoryEntry| saturated(f64_value(metric_figure(e, metric) as nat))
}

/// The figure of a process under a metric.
pub fn metric_field(p: &ProcessMemoryEntry, metric: MemoryMetric) -> (v: u64)
    ensures
        v == metric_figure(*p, metric),
{
    match metric {
        MemoryMetric::WorkingSet => p.working_set_bytes,
        MemoryMetric::PrivateWs => p.private_bytes,
        MemoryMetric::GpuDedicated => p.gpu_dedicated_bytes,
        MemoryMetric::GpuShared => p.gpu_shared_bytes,
    }
}

/// The figure of a process under a metric after its round trip through `f64`.
pub fn metric_bytes(p: &ProcessMemoryEntry, metric: MemoryMetric) -> (v: u64)
    ensures
        v == metric_key(metric)(*p),
        metric == MemoryMetric::WorkingSet ==> v == saturated(f64_value(p.working_set_bytes as nat)),
        metric == MemoryMetric::PrivateWs ==> v == saturated(f64_value(p.private_bytes as nat)),
        metric == MemoryMetric::GpuDedicated ==> v == saturated(f64_value(p.gpu_dedicated_bytes as nat)),
        metric == MemoryMetric::GpuShared ==> v == saturated(f64_value(p.gpu_shared_bytes as nat)),
{
    f64_round_trip(metric_field(p, metric))
}

/// The key of each metric is the field the metric names, through `f64`.
pub proof fn lemma_metric_key_reads_named_field(e: ProcessMemoryEntry)
    ensures
        metric_key(MemoryMetric::WorkingSet)(e) == saturated(f64_value(e.working_set_bytes as nat)),
        metric_key(MemoryMetric::PrivateWs)(e) == saturated(f64_value(e.private_bytes as nat)),
        metric_key(MemoryMetric::GpuDedicated)(e) == saturated(f64_value(e.gpu_dedicated_bytes as nat)),
        metric_key(MemoryMetric::GpuShared)(e) == saturated(f64_value(e.gpu_shared_bytes as nat)),
{
}

/// Ordered by a metric, processes whose figures are below 2^53 (where the
/// conversion to `f64` is exact) come in descending order of the field the
/// metric names.
pub proof fn lemma_sorted_by_named_field(out: Seq<ProcessMemoryEntry>, metric: MemoryMetric)
    requires
        sorted_by_key_desc(out, metric_key(metric)),
    ensures
        forall|i: int, j: int| 0 <= i < j < out.len()
            && (#[trigger] out[i]).working_set_bytes < exact_limit() && (#[trigger] out[j]).working_set_bytes < exact_limit()
            && metric == MemoryMetric::WorkingSet ==> out[i].working_set_bytes >= out[j].working_set_bytes,
        forall|i: int, j: int| 0 <= i < j < out.len()
            && (#[trigger] out[i]).private_bytes < exact_limit() && (#[trigger] out[j]).private_bytes < exact_limit()
            && metric == MemoryMetric::PrivateWs ==> out[i].private_bytes >= out[j].private_bytes,
        forall|i: int, j: int| 0 <= i < j < out.len()
            && (#[trigger] out[i]).gpu_dedicated_bytes < exact_limit() && (#[trigger] out[j]).gpu_dedicated_bytes < exact_limit()
            && metric == MemoryMetric::GpuDedicated ==> out[i].gpu_dedicated_bytes >= out[j].gpu_dedicated_bytes,
        forall|i: int, j: int| 0 <= i < j < out.len()
            && (#[trigger] out[i]).gpu_shared_bytes < exact_limit() && (#[trigger] out[j]).gpu_shared_bytes < exact_limit()
            && metric == MemoryMetric::GpuShared ==> out[i].gpu_shared_bytes >= out[j].gpu_shared_bytes,
{
    assert forall|i: int, j: int| 0 <= i < j < out.len()
        && metric_figure(out[i], metric) < exact_limit() && metric_figure(out[j], metric) < exact_limit()
        implies metric_figure(out[i], metric) >= metric_figure(out[j], metric) by {
        lemma_f64_value_exact(metric_figure(out[i], metric) as nat);
        lemma_f64_value_exact(metric_figure(out[j], metric) as nat);
        assert(metric_key(metric)(out[i]) >= metric_key(metric)(out[j]));
    }
}

/// Orders processes by the metric, largest first; processes with the same
/// figure keep their order.
pub fn sort_processes(processes: &mut Vec<ProcessMemoryEntry>, metric: MemoryMetric)
    ensures
        stably_sorted_desc(final(processes)@, old(processes)@, metric_key(metric)),
        forall|i: int, j: int| 0 <= i < j < final(processes)@.len()
            && metric_figure(#[trigger] final(processes)@[i], metric) < exact_limit()
            && metric_figure(#[trigger] final(processes)@[j], metric) < exact_limit()
            ==> metric_figure(final(processes)@[i], metric) >= metric_figure(final(processes)@[j], metric),
{
    let mut items: Vec<ProcessMemoryEntry> = Vec::new();
    std::mem::swap(&mut items, processes);
    let mut keys: Vec<u64> = Vec::new();
    let mut i: usize = 0;
    while i < items.len()
        invariant
            i <= items@.len(),
            keys@.len() == i,
            forall|j: int| 0 <= j < i ==> keys@[j] == metric_key(metric)(items@[j]),
        decreases items@.len() - i,
    {
        keys.push(metric_bytes(&items[i], metric));
        i = i + 1;
    }
    let sorted = sort_desc_by_keys(items, keys, Ghost(metric_key(metric)));
    proof {
        lemma_sorted_by_named_field(sorted@, metric);
    }
    *processes = sorted;
}

/// The most rows the process list shows.
pub const LIST_ROW_LIMIT: usize = 150;

/// The rows of the process list: the processes ordered by the metric, largest
/// first, cut after the row limit.
pub fn list_rows(processes: Vec<ProcessMemoryEntry>, metric: MemoryMetric) -> (rows: Vec<ProcessMemoryEntry>)
    ensures
        exists|sorted: Seq<ProcessMemoryEntry>| {
            &&& stably_sorted_desc(sorted, processes@, metric_key(metric))
            &&& rows@ == sorted.take(if sorted.len() < LIST_ROW_LIMIT { sorted.len() as int } else { LIST_ROW_LIMIT as int })
        },
{
    let mut rows = processes;
    sort_processes(&mut rows, metric);
    let ghost sorted = rows@;
    if rows.len() > LIST_ROW_LIMIT {
        rows.truncate(LIST_ROW_LIMIT);
    }
    assert(rows@ =~= sorted.take(if sorted.len() < LIST_ROW_LIMIT { sorted.len() as int } else { LIST_ROW_LIMIT as int }));
    rows
}

/// The four ways the content area can be drawn.
#[derive(Debug, Clone, Copy, PartialEq, Eq, Structural)]
pub enum ContentLayout {
    IndividualTreemap,
    GroupedTreemap,
    IndividualList,
    GroupedList,
}

/// The layout the view and group modes select: grouping by name and by
/// category share the grouped layouts.
pub fn content_layout(view_mode: ViewMode, group_mode: GroupMode) -> (layout: ContentLayout)
    ensures
        layout == match view_mode {
            ViewMode::Treemap => if group_mode == GroupMode::Individual {
                ContentLayout::IndividualTreemap
            } else {
                ContentLayout::GroupedTreemap
            },
            ViewMode::List => if group_mode == GroupMode::Individual {
                ContentLayout::IndividualList
            } else {
                ContentLayout::GroupedList
            },
        },
{
    match view_mode {
        ViewMode::Treemap => match group_mode {
            GroupMode::Individual => ContentLayout::IndividualTreemap,
            GroupMode::ByName | GroupMode::ByCategory => ContentLayout::GroupedTreemap,
        },
        ViewMode::List => match group_mode {
            GroupMode::Individual => ContentLayout::IndividualList,
            GroupMode::ByName | GroupMode::ByCategory => ContentLayout::GroupedList,
        },
    }
}

/// The summed figures of a group of processes.
#[derive(Debug, Clone, Copy, PartialEq, Eq, Structural)]
pub struct GroupTotals {
    pub total_working_set: u64,
    pub total_private: u64,
    pub total_gpu_dedicated: u64,
    pub total_gpu_shared: u64,
}

/// The summed figure of a group under a metric, in bytes.
pub open spec fn group_figure(t: GroupTotals, metric: MemoryMetric) -> u64 {
    match metric {
        MemoryMetric::WorkingSet => t.total_working_set,
        MemoryMetric::PrivateWs => t.total_private,
        MemoryMetric::GpuDedicated => t.total_gpu_dedicated,
        MemoryMetric::GpuShared => t.total_gpu_shared,
    }
}

/// The group figure as the views size and order by it: through `f64` and back.
pub open spec fn group_key(t: GroupTotals, metric: MemoryMetric) -> u64 {
    saturated(f64_value(group_figure(t, metric) as nat))
}

/// The summed figure of a group under a metric.
pub fn group_metric_field(t: &GroupTotals, metric: MemoryMetric) -> (v: u64)
    ensures
        v == group_figure(*t, metric),
{
    match metric {
        MemoryMetric::WorkingSet => t.total_working_set,
        MemoryMetric::PrivateWs => t.total_private,
        MemoryMetric::GpuDedicated => t.total_gpu_dedicated,
        MemoryMetric::GpuShared => t.total_gpu_shared,
    }
}

/// The summed figure of a group after its round trip through `f64`.
pub fn group_metric_bytes(t: &GroupTotals, metric: MemoryMetric) -> (v: u64)
    ensures
        v == group_key(*t, metric),
        metric == MemoryMetric::WorkingSet ==> v == saturated(f64_value(t.total_working_set as nat)),
        metric == MemoryMetric::PrivateWs ==> v == saturated(f64_value(t.total_private as nat)),
        metric == MemoryMetric::GpuDedicated ==> v == saturated(f64_value(t.total_gpu_dedicated as nat)),
        metric == MemoryMetric::GpuShared ==> v == saturated(f64_value(t.total_gpu_shared as nat)),
{
    f64_round_trip(group_metric_field(t, metric))
}

/// The key of each metric is the group total the metric names, through `f64`.
pub proof fn lemma_group_key_reads_named_field(t: GroupTotals)
    ensures
        group_key(t, MemoryMetric::WorkingSet) == saturated(f64_value(t.total_working_set as nat)),
        group_key(t, MemoryMetric::PrivateWs) == saturated(f64_value(t.total_private as nat)),
        group_key(t, MemoryMetric::GpuDedicated) == saturated(f64_value(t.total_gpu_dedicated as nat)),
        group_key(t, MemoryMetric::GpuShared) == saturated(f64_value(t.total_gpu_shared as nat)),
{
}

/// The positions `0..n`, in order.
pub open spec fn positions(n: nat) -> Seq<usize> {
    Seq::new(n, |i: int| i as usize)
}

/// The order of groups by position: the key of position `i` is the key of `totals[i]`.
pub open spec fn position_key(totals: Seq<GroupTotals>, metric: MemoryMetric) -> spec_fn(usize) -> u64 {
    |i: usize| group_key(totals[i as int], metric)
}

/// The order in which the grouped list shows the groups: their positions
/// ordered by the metric, largest first, equal figures in their given order.
pub fn group_order(totals: &Vec<GroupTotals>, metric: MemoryMetric) -> (order: Vec<usize>)
    ensures
        stably_sorted_desc(order@, positions(totals@.len()), position_key(totals@, metric)),
        forall|i: int| 0 <= i < order@.len() ==> (#[trigger] order@[i]) < totals@.len(),
        forall|i: int, j: int| 0 <= i < j < order@.len()
            && group_figure(totals@[#[trigger] order@[i] as int], metric) < exact_limit()
            && group_figure(totals@[#[trigger] order@[j] as int], metric) < exact_limit()
            ==> group_figure(totals@[order@[i] as int], metric) >= group_figure(totals@[order@[j] as int], metric),
        forall|i: int, j: int| 0 <= i < j < order@.len()
            && totals@[#[trigger] order@[i] as int].total_private < exact_limit()
            && totals@[#[trigger] order@[j] as int].total_private < exact_limit()
            && metric == MemoryMetric::PrivateWs
            ==> totals@[order@[i] as int].total_private >= totals@[order@[j] as int].total_private,
        forall|i: int, j: int| 0 <= i < j < order@.len()
            && totals@[#[trigger] order@[i] as int].total_working_set < exact_limit()
            && totals@[#[trigger] order@[j] as int].total_working_set < exact_limit()
            && metric == MemoryMetric::WorkingSet
            ==> totals@[order@[i] as int].total_working_set >= totals@[order@[j] as int].total_working_set,
        forall|i: int, j: int| 0 <= i < j < order@.len()
            && totals@[#[trigger] order@[i] as int].total_gpu_dedicated < exact_limit()
            && totals@[#[trigger] order@[j] as int].total_gpu_dedicated < exact_limit()
            && metric == MemoryMetric::GpuDedicated
            ==> totals@[order@[i] as int].total_gpu_dedicated >= totals@[order@[j] as int].total_gpu_dedicated,
        forall|i: int, j: int| 0 <= i < j < order@.len()
            && totals@[#[trigger] order@[i] as int].total_gpu_shared < exact_limit()
            && totals@[#[trigger] order@[j] as int].total_gpu_shared < exact_limit()
            && metric == MemoryMetric::GpuShared
            ==> totals@[order@[i] as int].total_gpu_shared >= totals@[order@[j] as int].total_gpu_shared,
{
    let mut idx: Vec<usize> = Vec::new();
    let mut keys: Vec<u64> = Vec::new();
    let mut i: usize = 0;
    while i < totals.len()
        invariant
            i <= totals@.len(),
            idx@ == positions(i as nat),
            keys@.len() == i,
            forall|j: int| 0 <= j < i ==> keys@[j] == position_key(totals@, metric)(idx@[j]),
        decreases totals@.len() - i,
    {
        idx.push(i);
        keys.push(group_metric_bytes(&totals[i], metric));
        proof {
            assert(idx@ =~= positions((i + 1) as nat));
        }
        i = i + 1;
    }
    let order = sort_desc_by_keys(idx, keys, Ghost(position_key(totals@, metric)));
    proof {
        lemma_group_order_by_named_total(order@, totals@, metric);
    }
    order
}

/// Ordered by a metric, groups whose totals are below 2^53 (where the
/// conversion to `f64` is exact) come in descending order of the total the
/// metric names, and the order holds each position once.
pub proof fn lemma_group_order_by_named_total(order: Seq<usize>, totals: Seq<GroupTotals>, metric: MemoryMetric)
    requires
        stably_sorted_desc(order, positions(totals.len()), position_key(totals, metric)),
    ensures
        forall|i: int| 0 <= i < order.len() ==> (#[trigger] order[i]) < totals.len(),
        forall|i: int, j: int| 0 <= i < j < order.len()
            && group_figure(totals[#[trigger] order[i] as int], metric) < exact_limit()
            && group_figure(totals[#[trigger] order[j] as int], metric) < exact_limit()
            ==> group_figure(totals[order[i] as int], metric) >= group_figure(totals[order[j] as int], metric),
{
    broadcast use vstd::seq_lib::group_to_multiset_ensures;
    crate::sorting::lemma_stable_sort_is_permutation(order, positions(totals.len()), position_key(totals, metric));
    assert forall|i: int| 0 <= i < order.len() implies (#[trigger] order[i]) < totals.len() by {
        assert(order.contains(order[i]));
        assert(order.to_multiset().count(order[i]) > 0);
        assert(positions(totals.len()).contains(order[i]));
    }
    assert forall|i: int, j: int| 0 <= i < j < order.len()
        && group_figure(totals[order[i] as int], metric) < exact_limit()
        && group_figure(totals[order[j] as int], metric) < exact_limit()
        implies group_figure(totals[order[i] as int], metric) >= group_figure(totals[order[j] as int], metric) by {
        lemma_f64_value_exact(group_figure(totals[order[i] as int], metric) as nat);
        lemma_f64_value_exact(group_figure(totals[order[j] as int], metric) as nat);
        assert(position_key(totals, metric)(order[i]) >= position_key(totals, metric)(order[j]));
    }
}

/// The details of a group when it is selected: its title, then its RAM figures
/// on the RAM tab or its GPU figures on the GPU tab, then its process count.
pub open spec fn group_info_text(tab: MemoryTab, title: Seq<char>, count: nat, t: GroupTotals) -> Seq<char> {
    match tab {
        MemoryTab::SystemRam => title + " | Total WS: "@ + format_bytes_text(t.total_working_set as nat)
            + " | Total Private: "@ + format_bytes_text(t.total_private as nat)
            + " | Count: "@ + decimal(count),
        MemoryTab::GpuVram => title + " | Total Dedicated VRAM: "@ + format_bytes_text(t.total_gpu_dedicated as nat)
            + " | Total Shared: "@ + format_bytes_text(t.total_gpu_shared as nat)
            + " | Count: "@ + decimal(count),
    }
}

/// The details of a group of `count` processes.
pub fn group_info(tab: MemoryTab, title: &str, count: usize, totals: &GroupTotals) -> (text: String)
    ensures
        text@ == group_info_text(tab, title@, count as nat, *totals),
{
    let mut s = String::new();
    s.append(title);
    match tab {
        MemoryTab::SystemRam => {
            s.append(" | Total WS: ");
            s.append(format_bytes(totals.total_working_set).as_str());
            s.append(" | Total Private: ");
            s.append(format_bytes(totals.total_private).as_str());
        },
        MemoryTab::GpuVram => {
            s.append(" | Total Dedicated VRAM: ");
            s.append(format_bytes(totals.total_gpu_dedicated).as_str());
            s.append(" | Total Shared: ");
            s.append(format_bytes(totals.total_gpu_shared).as_str());
        },
    }
    s.append(" | Count: ");
    push_chars(&mut s, &decimal_chars(count as u64));
    assert(s@ =~= group_info_text(tab, title@, count as nat, *totals));
    s
}

} // verus!
