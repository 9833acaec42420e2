use std::collections::HashMap;

use nanai_lite_rammap::app_core::{apply_gpu_memory, find_by_pid, process_ids, RammapAction, RammapApp};
use nanai_lite_rammap::gpu::{AdapterLuid, GpuAdapterInfo, ProcessGpuMemory};
use nanai_lite_rammap::memory::{ProcessMemoryEntry, SystemMemorySummary};
use nanai_lite_rammap::types::{GroupMode, MemoryMetric, MemoryTab, RammapMessage, ViewMode};

fn entry(pid: u32, name: &str, ws: u64) -> ProcessMemoryEntry {
    ProcessMemoryEntry {
        pid,
        name: name.to_string(),
        working_set_bytes: ws,
        private_bytes: ws / 2,
        gpu_dedicated_bytes: 0,
        gpu_shared_bytes: 0,
    }
}

fn adapter(name: &str, dedicated_usage: u64, dedicated: u64, shared_usage: u64, shared: u64) -> GpuAdapterInfo {
    GpuAdapterInfo {
        name: name.to_string(),
        luid: AdapterLuid { low_part: 1, high_part: 0 },
        dedicated_vram_bytes: dedicated,
        shared_ram_bytes: shared,
        dedicated_usage_bytes: dedicated_usage,
        dedicated_budget_bytes: 0,
        shared_usage_bytes: shared_usage,
        shared_budget_bytes: 0,
    }
}

fn app_with(processes: Vec<ProcessMemoryEntry>) -> RammapApp {
    RammapApp::new(SystemMemorySummary::default(), Vec::new(), processes)
}

#[test]
fn new_app_starts_on_ram_treemap_by_name() {
    let app = app_with(vec![entry(1, "a.exe", 1)]);
    assert_eq!(app.tab, MemoryTab::SystemRam);
    assert_eq!(app.view_mode, ViewMode::Treemap);
    assert_eq!(app.group_mode, GroupMode::ByName);
    assert_eq!(app.metric, MemoryMetric::WorkingSet);
    assert!(app.search_query.is_empty());
    assert!(app.selected_process.is_none());
    assert!(app.selected_group_title.is_none());
    assert_eq!(app.processes.len(), 1);
}

#[test]
fn switching_tabs_fits_the_metric() {
    let mut app = app_with(Vec::new());
    assert_eq!(app.update_message(RammapMessage::SetTab(MemoryTab::GpuVram)), RammapAction::Show);
    assert_eq!(app.tab, MemoryTab::GpuVram);
    assert_eq!(app.metric, MemoryMetric::GpuDedicated);
    app.update_message(RammapMessage::ToggleMetric);
    assert_eq!(app.metric, MemoryMetric::GpuShared);
    app.update_message(RammapMessage::SetTab(MemoryTab::GpuVram));
    assert_eq!(app.metric, MemoryMetric::GpuShared);
    app.update_message(RammapMessage::SetTab(MemoryTab::SystemRam));
    assert_eq!(app.metric, MemoryMetric::WorkingSet);
}

#[test]
fn toggling_twice_restores_the_metric() {
    let mut app = app_with(Vec::new());
    app.update_message(RammapMessage::ToggleMetric);
    assert_eq!(app.metric, MemoryMetric::PrivateWs);
    app.update_message(RammapMessage::ToggleMetric);
    assert_eq!(app.metric, MemoryMetric::WorkingSet);
    app.update_message(RammapMessage::SetTab(MemoryTab::GpuVram));
    app.update_message(RammapMessage::ToggleMetric);
    app.update_message(RammapMessage::ToggleMetric);
    assert_eq!(app.metric, MemoryMetric::GpuDedicated);
}

#[test]
fn a_ram_metric_is_kept_when_staying_on_ram() {
    let mut app = app_with(Vec::new());
    app.update_message(RammapMessage::ToggleMetric);
    app.update_message(RammapMessage::SetTab(MemoryTab::SystemRam));
    assert_eq!(app.metric, MemoryMetric::PrivateWs);
}

#[test]
fn plain_messages_set_their_field() {
    let mut app = app_with(vec![entry(1, "a.exe", 1)]);
    app.update_message(RammapMessage::SearchChanged("chr".to_string()));
    assert_eq!(app.search_query, "chr");
    app.update_message(RammapMessage::SetViewMode(ViewMode::List));
    assert_eq!(app.view_mode, ViewMode::List);
    app.update_message(RammapMessage::SetGroupMode(GroupMode::ByCategory));
    assert_eq!(app.group_mode, GroupMode::ByCategory);
    app.update_message(RammapMessage::SelectProcess(Some(entry(1, "a.exe", 1)), Some("Browsers".to_string())));
    assert_eq!(app.selected_process.as_ref().unwrap().pid, 1);
    assert_eq!(app.selected_group_title.as_deref(), Some("Browsers"));
    assert_eq!(app.tab, MemoryTab::SystemRam);
}

#[test]
fn refresh_asks_for_collection_and_reselects_by_pid() {
    let mut app = app_with(vec![entry(1, "a.exe", 1), entry(2, "b.exe", 2)]);
    app.update_message(RammapMessage::SelectProcess(Some(entry(2, "b.exe", 2)), None));
    assert_eq!(app.update_message(RammapMessage::Refresh), RammapAction::Collect);
    assert_eq!(app.processes.len(), 2);
    app.apply_refresh(
        SystemMemorySummary::default(),
        Vec::new(),
        vec![entry(3, "c.exe", 3), entry(2, "b.exe", 99), entry(2, "dup.exe", 5)],
    );
    let sel = app.selected_process.as_ref().unwrap();
    assert_eq!(sel.pid, 2);
    assert_eq!(sel.working_set_bytes, 99);
    assert_eq!(sel.name, "b.exe");
    app.apply_refresh(SystemMemorySummary::default(), Vec::new(), vec![entry(3, "c.exe", 3)]);
    assert!(app.selected_process.is_none());
    assert_eq!(app.processes.len(), 1);
}

#[test]
fn find_by_pid_returns_first_match() {
    let ps = vec![entry(5, "x", 1), entry(6, "y", 2), entry(6, "z", 3)];
    assert_eq!(find_by_pid(&ps, 6).unwrap().name, "y");
    assert!(find_by_pid(&ps, 7).is_none());
}

#[test]
fn gpu_memory_is_merged_by_pid() {
    let mut ps = vec![entry(5, "x", 1), entry(6, "y", 2)];
    assert_eq!(process_ids(&ps), vec![5, 6]);
    let mut map = HashMap::new();
    map.insert(6u32, ProcessGpuMemory { dedicated_bytes: 10, shared_bytes: 20 });
    map.insert(9u32, ProcessGpuMemory { dedicated_bytes: 1, shared_bytes: 1 });
    apply_gpu_memory(&mut ps, &map);
    assert_eq!(ps[0].gpu_dedicated_bytes, 0);
    assert_eq!(ps[1].gpu_dedicated_bytes, 10);
    assert_eq!(ps[1].gpu_shared_bytes, 20);
    assert_eq!(ps[1].name, "y");
    assert_eq!(ps[1].working_set_bytes, 2);
}

#[test]
fn search_matches_name_pid_and_category() {
    let mut app = app_with(vec![entry(101, "Chrome.exe", 1), entry(2024, "Code.exe", 2), entry(7, "game.exe", 3)]);
    let labels = vec!["Browser".to_string(), "Development".to_string(), "Games".to_string()];
    let all = app.filtered_processes(&labels);
    assert_eq!(all.len(), 3);
    app.update_message(RammapMessage::SearchChanged("CHROME".to_string()));
    let found = app.filtered_processes(&labels);
    assert_eq!(found.len(), 1);
    assert_eq!(found[0].pid, 101);
    app.update_message(RammapMessage::SearchChanged("02".to_string()));
    let found = app.filtered_processes(&labels);
    assert_eq!(found.len(), 1);
    assert_eq!(found[0].pid, 2024);
    app.update_message(RammapMessage::SearchChanged("gam".to_string()));
    let found = app.filtered_processes(&labels);
    assert_eq!(found.len(), 1);
    assert_eq!(found[0].pid, 7);
    app.update_message(RammapMessage::SearchChanged("e".to_string()));
    assert_eq!(app.filtered_processes(&labels).len(), 3);
    app.update_message(RammapMessage::SearchChanged("zzz".to_string()));
    assert!(app.filtered_processes(&labels).is_empty());
}

#[test]
fn metric_labels() {
    let mut app = app_with(Vec::new());
    assert_eq!(app.metric_label(), "Metric: Working Set");
    app.update_message(RammapMessage::ToggleMetric);
    assert_eq!(app.metric_label(), "Metric: Private (Commit)");
    app.update_message(RammapMessage::SetTab(MemoryTab::GpuVram));
    assert_eq!(app.metric_label(), "Metric: Dedicated VRAM");
    app.update_message(RammapMessage::ToggleMetric);
    assert_eq!(app.metric_label(), "Metric: Shared GPU Memory");
}

#[test]
fn subtitle_on_ram_tab() {
    let mut summary = SystemMemorySummary::default();
    summary.process_count = 213;
    summary.total_phys_bytes = 16 * 1073741824;
    summary.used_phys_bytes = 9 * 1073741824 + 536870912;
    summary.memory_load_pct = 59;
    summary.commit_total_bytes = 20 * 1073741824;
    summary.commit_limit_bytes = 32 * 1073741824;
    let app = RammapApp::new(summary, Vec::new(), Vec::new());
    assert_eq!(
        app.subtitle(),
        "Processes: 213 | Physical RAM: 16.00 GB (Used: 9.50 GB / 59%) | Commit: 20.00 GB / 32.00 GB"
    );
}

#[test]
fn subtitle_on_gpu_tab() {
    let mut summary = SystemMemorySummary::default();
    summary.process_count = 5;
    let mut app = RammapApp::new(summary, Vec::new(), Vec::new());
    app.update_message(RammapMessage::SetTab(MemoryTab::GpuVram));
    assert_eq!(app.subtitle(), "Processes: 5 | GPU: No DirectX 11/12 GPU detected");
    let mut summary = SystemMemorySummary::default();
    summary.process_count = 5;
    let adapters = vec![
        adapter("RTX", 1073741824, 8 * 1073741824, 1048576, 16 * 1073741824),
        adapter("iGPU", 0, 512 * 1048576, 2048, 1073741824),
    ];
    app.apply_refresh(summary, adapters, Vec::new());
    assert_eq!(
        app.subtitle(),
        "Processes: 5 | GPU 0: RTX | Dedicated VRAM: 1.00 GB / 8.00 GB | Shared: 1.0 MB / 16.00 GB | GPU 1: iGPU | Dedicated VRAM: 0 B / 512.0 MB | Shared: 2 KB / 1.00 GB"
    );
}

#[test]
fn selection_text_prefers_group_then_process() {
    let mut app = app_with(Vec::new());
    assert_eq!(
        app.selection_text("Other"),
        "💡 Click any 2D tile or table row to inspect details. Switch between System RAM and GPU VRAM tabs above."
    );
    let mut p = entry(42, "game.exe", 2048);
    p.gpu_dedicated_bytes = 1073741824;
    p.gpu_shared_bytes = 0;
    app.update_message(RammapMessage::SelectProcess(Some(p.clone()), None));
    assert_eq!(
        app.selection_text("Games"),
        "🎯 [42] game.exe (Games) | WS: 2 KB | Private: 1 KB | GPU VRAM: 1.00 GB | GPU Shared: 0 B"
    );
    app.update_message(RammapMessage::SelectProcess(Some(p), Some("Games | Total WS: 2 KB".to_string())));
    assert_eq!(app.selection_text("Games"), "🎯 Selected Group: Games | Total WS: 2 KB");
}

#[test]
fn longer_search_narrows_and_case_does_not_matter() {
    let mut app = app_with(vec![
        entry(101, "Chrome.exe", 1),
        entry(2024, "Code.exe", 2),
        entry(7, "cobalt.exe", 3),
        entry(8, "notepad.exe", 4),
    ]);
    let labels = vec!["Browser".to_string(), "Development".to_string(), "Other".to_string(), "Other".to_string()];
    let pids = |found: Vec<ProcessMemoryEntry>| found.iter().map(|p| p.pid).collect::<Vec<u32>>();
    app.update_message(RammapMessage::SearchChanged("co".to_string()));
    let short = pids(app.filtered_processes(&labels));
    app.update_message(RammapMessage::SearchChanged("COD".to_string()));
    let long = pids(app.filtered_processes(&labels));
    app.update_message(RammapMessage::SearchChanged("cod".to_string()));
    let long_lower = pids(app.filtered_processes(&labels));
    assert_eq!(short, vec![2024, 7]);
    assert_eq!(long, vec![2024]);
    assert_eq!(long, long_lower);
    assert!(long.iter().all(|p| short.contains(p)));
    app.update_message(RammapMessage::SearchChanged(String::new()));
    assert_eq!(pids(app.filtered_processes(&labels)), vec![101, 2024, 7, 8]);
}
