use nanai_lite_rammap::memory::{
    entries_from_samples, is_listed_pid, process_list, sort_by_working_set, MemoryCounters,
    MemoryStatusReading, PerformanceReading, ProcessMemoryEntry, ProcessSample, SystemMemorySummary,
};

fn utf16(s: &str) -> Vec<u16> {
    s.encode_utf16().collect()
}

fn sample(pid: u32, name: &str, counters: Option<(u64, u64)>) -> ProcessSample {
    let mut exe_file = utf16(name);
    exe_file.push(0);
    exe_file.extend_from_slice(&[0x41, 0x42, 0]);
    ProcessSample {
        pid,
        exe_file,
        counters: counters.map(|(working_set, private_usage)| MemoryCounters { working_set, private_usage }),
    }
}

fn entry(pid: u32, name: &str, ws: u64) -> ProcessMemoryEntry {
    ProcessMemoryEntry {
        pid,
        name: name.to_string(),
        working_set_bytes: ws,
        private_bytes: 0,
        gpu_dedicated_bytes: 0,
        gpu_shared_bytes: 0,
    }
}

#[test]
fn summary_converts_pages_and_saturates_used_memory() {
    let memory = MemoryStatusReading {
        total_phys: 16_000,
        avail_phys: 6_000,
        memory_load: 62,
        total_page_file: 20_000,
        avail_page_file: 9_000,
    };
    let performance = PerformanceReading {
        page_size: 4096,
        commit_total: 10,
        commit_limit: 20,
        kernel_paged: 3,
        kernel_nonpaged: 4,
        process_count: 123,
    };
    let s = SystemMemorySummary::from_readings(Some(memory), Some(performance));
    assert_eq!(s.total_phys_bytes, 16_000);
    assert_eq!(s.avail_phys_bytes, 6_000);
    assert_eq!(s.used_phys_bytes, 10_000);
    assert_eq!(s.memory_load_pct, 62);
    assert_eq!(s.total_page_file_bytes, 20_000);
    assert_eq!(s.avail_page_file_bytes, 9_000);
    assert_eq!(s.commit_total_bytes, 40_960);
    assert_eq!(s.commit_limit_bytes, 81_920);
    assert_eq!(s.paged_pool_bytes, 12_288);
    assert_eq!(s.nonpaged_pool_bytes, 16_384);
    assert_eq!(s.process_count, 123);

    let odd = MemoryStatusReading { total_phys: 5, avail_phys: 9, ..memory };
    let s = SystemMemorySummary::from_readings(Some(odd), None);
    assert_eq!(s.used_phys_bytes, 0);
    assert_eq!(s.commit_total_bytes, 0);
    assert_eq!(s.process_count, 0);
}

#[test]
fn summary_of_failed_readings_is_zero() {
    let s = SystemMemorySummary::from_readings(None, None);
    assert_eq!(s.total_phys_bytes, 0);
    assert_eq!(s.used_phys_bytes, 0);
    assert_eq!(s.commit_limit_bytes, 0);
    assert_eq!(s.process_count, 0);
    let e = SystemMemorySummary::default();
    assert_eq!(e.nonpaged_pool_bytes, 0);
    assert_eq!(e.memory_load_pct, 0);
}

#[test]
fn entry_name_stops_at_the_first_nul() {
    let mut exe = utf16("chrome.exe");
    exe.push(0);
    exe.extend_from_slice(&utf16("garbage"));
    let e = ProcessMemoryEntry::from_counters(42, &exe, 100, 50);
    assert_eq!(e.pid, 42);
    assert_eq!(e.name, "chrome.exe");
    assert_eq!(e.working_set_bytes, 100);
    assert_eq!(e.private_bytes, 50);
    assert_eq!(e.gpu_dedicated_bytes, 0);
    assert_eq!(e.gpu_shared_bytes, 0);

    let whole = ProcessMemoryEntry::from_counters(1, &utf16("Code.exe"), 1, 1);
    assert_eq!(whole.name, "Code.exe");
    let lossy = ProcessMemoryEntry::from_counters(1, &[0xD800, 0x61, 0], 1, 1);
    assert_eq!(lossy.name, "\u{FFFD}a");
    let pair = ProcessMemoryEntry::from_counters(1, &[0xD83D, 0xDE00, 0xDC00, 0x62, 0], 1, 1);
    assert_eq!(pair.name, "\u{1F600}\u{FFFD}b");
}

#[test]
fn idle_process_is_not_listed() {
    assert!(!is_listed_pid(0));
    assert!(is_listed_pid(4));
}

#[test]
fn entries_skip_idle_and_unreadable_processes() {
    let samples = vec![
        sample(0, "Idle", Some((10, 10))),
        sample(4, "System", Some((20, 1))),
        sample(8, "locked.exe", None),
        sample(12, "app.exe", Some((5, 2))),
    ];
    let entries = entries_from_samples(&samples);
    assert_eq!(entries.len(), 2);
    assert_eq!(entries[0].pid, 4);
    assert_eq!(entries[0].name, "System");
    assert_eq!(entries[1].pid, 12);
    assert_eq!(entries[1].private_bytes, 2);
}

#[test]
fn process_list_orders_by_working_set_stably() {
    let samples = vec![
        sample(0, "Idle", Some((1000, 0))),
        sample(1, "a.exe", Some((10, 0))),
        sample(2, "b.exe", Some((30, 0))),
        sample(3, "c.exe", Some((10, 0))),
        sample(4, "d.exe", None),
        sample(5, "e.exe", Some((30, 0))),
        sample(6, "f.exe", Some((20, 0))),
    ];
    let list = process_list(&samples);
    let pids: Vec<u32> = list.iter().map(|e| e.pid).collect();
    assert_eq!(pids, vec![2, 5, 6, 1, 3]);
    assert!(list.iter().all(|e| e.pid != 0));
}

#[test]
fn sort_by_working_set_keeps_every_entry() {
    let entries = vec![entry(1, "x", 5), entry(2, "y", 7), entry(3, "z", 5), entry(4, "w", 9)];
    let sorted = sort_by_working_set(entries);
    let pids: Vec<u32> = sorted.iter().map(|e| e.pid).collect();
    assert_eq!(pids, vec![4, 2, 1, 3]);
    let mut names: Vec<&str> = sorted.iter().map(|e| e.name.as_str()).collect();
    names.sort();
    assert_eq!(names, vec!["w", "x", "y", "z"]);
    assert!(sort_by_working_set(Vec::new()).is_empty());
}

#[test]
fn entry_clone_keeps_every_field() {
    let e = ProcessMemoryEntry {
        pid: 7,
        name: "game.exe".to_string(),
        working_set_bytes: 1,
        private_bytes: 2,
        gpu_dedicated_bytes: 3,
        gpu_shared_bytes: 4,
    };
    let c = e.clone();
    assert_eq!(c.pid, 7);
    assert_eq!(c.name, "game.exe");
    assert_eq!(c.working_set_bytes, 1);
    assert_eq!(c.private_bytes, 2);
    assert_eq!(c.gpu_dedicated_bytes, 3);
    assert_eq!(c.gpu_shared_bytes, 4);
}

#[test]
fn defaults_are_empty() {
    let e = ProcessMemoryEntry::default();
    assert_eq!(e.pid, 0);
    assert!(e.name.is_empty());
    assert_eq!(e.working_set_bytes + e.private_bytes + e.gpu_dedicated_bytes + e.gpu_shared_bytes, 0);
    let g = nanai_lite_rammap::gpu::GpuAdapterInfo::default();
    assert!(g.name.is_empty());
    assert_eq!(g.luid, nanai_lite_rammap::gpu::AdapterLuid { low_part: 0, high_part: 0 });
    assert_eq!(g.dedicated_vram_bytes + g.shared_budget_bytes, 0);
    let m = nanai_lite_rammap::gpu::ProcessGpuMemory::default();
    assert_eq!(m.dedicated_bytes + m.shared_bytes, 0);
    let i = nanai_lite_rammap::gpu::D3DKMT_QUERYSTATISTICS_PROCESS_SEGMENT_GROUP_INFORMATION::default();
    assert_eq!(i.budget + i.requested + i.usage + i.demoted, 0);
}
