use nanai_lite_rammap::memory::ProcessMemoryEntry;
use nanai_lite_rammap::types::{GroupMode, MemoryMetric, ViewMode};
use nanai_lite_rammap::view_model::{
    content_layout, list_rows, metric_bytes, metric_field, sort_processes, ContentLayout, LIST_ROW_LIMIT,
};

fn entry(pid: u32, ws: u64, private: u64, ded: u64, shared: u64) -> ProcessMemoryEntry {
    ProcessMemoryEntry {
        pid,
        name: format!("p{}.exe", pid),
        working_set_bytes: ws,
        private_bytes: private,
        gpu_dedicated_bytes: ded,
        gpu_shared_bytes: shared,
    }
}

#[test]
fn metric_picks_the_field() {
    let e = entry(1, 10, 20, 30, 40);
    assert_eq!(metric_field(&e, MemoryMetric::WorkingSet), 10);
    assert_eq!(metric_field(&e, MemoryMetric::PrivateWs), 20);
    assert_eq!(metric_field(&e, MemoryMetric::GpuDedicated), 30);
    assert_eq!(metric_field(&e, MemoryMetric::GpuShared), 40);
}

#[test]
fn metric_bytes_round_trips_through_f64() {
    for v in [0u64, 1, 12345, (1 << 53) - 1, (1 << 53) + 1, (1 << 60) + 12345, u64::MAX, u64::MAX - 1024] {
        let e = entry(1, v, 0, 0, 0);
        assert_eq!(metric_bytes(&e, MemoryMetric::WorkingSet), (v as f64) as u64, "value {}", v);
    }
}

#[test]
fn sort_processes_is_stable_and_descending() {
    let mut ps = vec![entry(1, 0, 5, 0, 0), entry(2, 0, 9, 0, 0), entry(3, 0, 5, 0, 0), entry(4, 0, 1, 0, 0)];
    sort_processes(&mut ps, MemoryMetric::PrivateWs);
    let pids: Vec<u32> = ps.iter().map(|p| p.pid).collect();
    assert_eq!(pids, vec![2, 1, 3, 4]);
    let mut ps = vec![entry(1, 0, 0, 0, 3), entry(2, 0, 0, 0, 3)];
    sort_processes(&mut ps, MemoryMetric::GpuShared);
    assert_eq!(ps[0].pid, 1);
}

#[test]
fn values_equal_as_f64_keep_their_order() {
    let a = (1u64 << 60) + 1;
    let b = (1u64 << 60) + 2;
    let mut ps = vec![entry(1, a, 0, 0, 0), entry(2, b, 0, 0, 0)];
    sort_processes(&mut ps, MemoryMetric::WorkingSet);
    assert_eq!(ps[0].pid, 1);
    assert_eq!(ps[1].pid, 2);
}

#[test]
fn list_rows_are_cut_after_the_limit() {
    let ps: Vec<ProcessMemoryEntry> = (0..200u32).map(|i| entry(i, i as u64, 0, 0, 0)).collect();
    let rows = list_rows(ps, MemoryMetric::WorkingSet);
    assert_eq!(LIST_ROW_LIMIT, 150);
    assert_eq!(rows.len(), 150);
    assert_eq!(rows[0].pid, 199);
    assert_eq!(rows[149].pid, 50);
    let few = list_rows(vec![entry(1, 1, 0, 0, 0), entry(2, 2, 0, 0, 0)], MemoryMetric::WorkingSet);
    assert_eq!(few.len(), 2);
    assert_eq!(few[0].pid, 2);
}

#[test]
fn layouts_follow_view_and_group_modes() {
    assert_eq!(content_layout(ViewMode::Treemap, GroupMode::Individual), ContentLayout::IndividualTreemap);
    assert_eq!(content_layout(ViewMode::Treemap, GroupMode::ByName), ContentLayout::GroupedTreemap);
    assert_eq!(content_layout(ViewMode::Treemap, GroupMode::ByCategory), ContentLayout::GroupedTreemap);
    assert_eq!(content_layout(ViewMode::List, GroupMode::Individual), ContentLayout::IndividualList);
    assert_eq!(content_layout(ViewMode::List, GroupMode::ByName), ContentLayout::GroupedList);
    assert_eq!(content_layout(ViewMode::List, GroupMode::ByCategory), ContentLayout::GroupedList);
}

use nanai_lite_rammap::types::MemoryTab;
use nanai_lite_rammap::view_model::{group_info, group_metric_bytes, group_metric_field, group_order, GroupTotals};

fn totals(ws: u64, private: u64, ded: u64, shared: u64) -> GroupTotals {
    GroupTotals { total_working_set: ws, total_private: private, total_gpu_dedicated: ded, total_gpu_shared: shared }
}

#[test]
fn group_figures_follow_the_metric() {
    let t = totals(1, 2, 3, 4);
    assert_eq!(group_metric_field(&t, MemoryMetric::WorkingSet), 1);
    assert_eq!(group_metric_field(&t, MemoryMetric::PrivateWs), 2);
    assert_eq!(group_metric_field(&t, MemoryMetric::GpuDedicated), 3);
    assert_eq!(group_metric_field(&t, MemoryMetric::GpuShared), 4);
    let big = totals(u64::MAX, 0, 0, 0);
    assert_eq!(group_metric_bytes(&big, MemoryMetric::WorkingSet), u64::MAX);
    let odd = totals((1 << 54) + 1, 0, 0, 0);
    assert_eq!(group_metric_bytes(&odd, MemoryMetric::WorkingSet), 1 << 54);
}

#[test]
fn group_order_is_stable_and_descending() {
    let ts = vec![totals(5, 0, 0, 0), totals(9, 0, 0, 0), totals(5, 0, 0, 0), totals(0, 0, 0, 0), totals(9, 0, 0, 0)];
    assert_eq!(group_order(&ts, MemoryMetric::WorkingSet), vec![1, 4, 0, 2, 3]);
    assert_eq!(group_order(&ts, MemoryMetric::GpuShared), vec![0, 1, 2, 3, 4]);
    assert!(group_order(&Vec::new(), MemoryMetric::WorkingSet).is_empty());
}

#[test]
fn group_info_shows_tab_figures() {
    let t = totals(2 * 1073741824, 1048576, 512 * 1048576, 0);
    assert_eq!(
        group_info(MemoryTab::SystemRam, "chrome.exe", 12, &t),
        "chrome.exe | Total WS: 2.00 GB | Total Private: 1.0 MB | Count: 12"
    );
    assert_eq!(
        group_info(MemoryTab::GpuVram, "Games", 1, &t),
        "Games | Total Dedicated VRAM: 512.0 MB | Total Shared: 0 B | Count: 1"
    );
}
