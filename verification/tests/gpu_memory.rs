use nanai_lite_rammap::gpu::{
    gpu_memory_map, gpu_query_targets, is_software_adapter, process_gpu_memory,
    segment_usage, total_segment_usage, AdapterDescription, AdapterLuid,
    D3DKMT_QUERYSTATISTICS_PROCESS_SEGMENT_GROUP_INFORMATION, GpuAdapterInfo, ProcessGpuMemory,
    ProcessGpuAnswers, SegmentQuery, VideoMemoryReading,
};

fn result_bytes(budget: u64, requested: u64, usage: u64, demoted: u64) -> Vec<u8> {
    let mut v = Vec::new();
    v.extend_from_slice(&budget.to_le_bytes());
    v.extend_from_slice(&requested.to_le_bytes());
    v.extend_from_slice(&usage.to_le_bytes());
    v.extend_from_slice(&demoted.to_le_bytes());
    v.resize(320, 0xAA);
    v
}

fn query(status: i32, requested: u64, usage: u64) -> SegmentQuery {
    SegmentQuery { status, result: result_bytes(999, requested, usage, 7) }
}

fn description(name: &str, flags: u32) -> AdapterDescription {
    let mut description: Vec<u16> = name.encode_utf16().collect();
    description.resize(128, 0);
    AdapterDescription {
        description,
        luid: AdapterLuid { low_part: 0x1234, high_part: -2 },
        dedicated_video_memory: 8 << 30,
        shared_system_memory: 16 << 30,
        flags,
    }
}

#[test]
fn software_adapters_are_skipped() {
    assert!(is_software_adapter(2));
    assert!(is_software_adapter(3));
    assert!(!is_software_adapter(0));
    assert!(!is_software_adapter(1));
    let desc = description("Microsoft Basic Render Driver", 2);
    assert!(GpuAdapterInfo::from_description(&desc, None, None).is_none());
}

#[test]
fn adapter_takes_description_and_readings() {
    let desc = description("NVIDIA GeForce RTX", 0);
    let local = VideoMemoryReading { budget: 7 << 30, current_usage: 1 << 30 };
    let info = GpuAdapterInfo::from_description(&desc, Some(local), None).unwrap();
    assert_eq!(info.name, "NVIDIA GeForce RTX");
    assert_eq!(info.luid, AdapterLuid { low_part: 0x1234, high_part: -2 });
    assert_eq!(info.dedicated_vram_bytes, 8 << 30);
    assert_eq!(info.shared_ram_bytes, 16 << 30);
    assert_eq!(info.dedicated_budget_bytes, 7 << 30);
    assert_eq!(info.dedicated_usage_bytes, 1 << 30);
    assert_eq!(info.shared_budget_bytes, 0);
    assert_eq!(info.shared_usage_bytes, 0);
}

#[test]
fn segment_information_reads_little_endian_fields() {
    let bytes = result_bytes(0x0102030405060708, 2, u64::MAX, 4);
    let info = D3DKMT_QUERYSTATISTICS_PROCESS_SEGMENT_GROUP_INFORMATION::from_le_bytes(&bytes);
    assert_eq!(info.budget, 0x0102030405060708);
    assert_eq!(info.requested, 2);
    assert_eq!(info.usage, u64::MAX);
    assert_eq!(info.demoted, 4);
}

#[test]
fn segment_usage_is_larger_of_usage_and_requested() {
    assert_eq!(segment_usage(&query(0, 100, 40)), 100);
    assert_eq!(segment_usage(&query(0, 10, 40)), 40);
    assert_eq!(segment_usage(&query(5, 10, 40)), 40);
    assert_eq!(segment_usage(&query(-1, 10, 40)), 0);
}

#[test]
fn totals_saturate() {
    let qs = vec![query(0, 0, u64::MAX - 5), query(0, 10, 0), query(-7, 100, 100)];
    assert_eq!(total_segment_usage(&qs), u64::MAX);
    let qs = vec![query(0, 0, 5), query(0, 10, 0), query(-7, 100, 100)];
    assert_eq!(total_segment_usage(&qs), 15);
    assert_eq!(total_segment_usage(&Vec::new()), 0);
}

#[test]
fn targets_skip_idle_and_need_adapters_and_query() {
    let pids = [0, 4, 0, 8, 12];
    assert_eq!(gpu_query_targets(&pids, 2, true), vec![4, 8, 12]);
    assert!(gpu_query_targets(&pids, 0, true).is_empty());
    assert!(gpu_query_targets(&pids, 1, false).is_empty());
}

#[test]
fn map_holds_answered_processes_with_gpu_memory() {
    let targets = vec![4, 8, 12, 16];
    let answers = vec![
        Some(ProcessGpuAnswers { dedicated: vec![query(0, 0, 0)], shared: vec![query(0, 0, 0)] }),
        Some(ProcessGpuAnswers {
            dedicated: vec![query(0, 100, 50), query(0, 1, 2)],
            shared: vec![query(-1, 9, 9), query(0, 3, 0)],
        }),
        Some(ProcessGpuAnswers { dedicated: vec![query(-1, 5, 5)], shared: vec![query(0, 0, 6)] }),
        None,
    ];
    let one = process_gpu_memory(answers[1].as_ref().unwrap());
    assert_eq!(one, ProcessGpuMemory { dedicated_bytes: 102, shared_bytes: 3 });
    let map = gpu_memory_map(&targets, &answers);
    assert_eq!(map.len(), 2);
    assert!(!map.contains_key(&4));
    assert!(!map.contains_key(&16));
    assert_eq!(map[&8], ProcessGpuMemory { dedicated_bytes: 102, shared_bytes: 3 });
    assert_eq!(map[&12], ProcessGpuMemory { dedicated_bytes: 0, shared_bytes: 6 });
}

#[test]
fn map_keys_are_nonzero_asked_ids() {
    let pids = [0, 8, 0, 8];
    let targets = gpu_query_targets(&pids, 1, true);
    assert_eq!(targets, vec![8, 8]);
    let answers = vec![
        Some(ProcessGpuAnswers { dedicated: vec![query(0, 1, 1)], shared: vec![] }),
        Some(ProcessGpuAnswers { dedicated: vec![query(0, 9, 1)], shared: vec![] }),
    ];
    let map = gpu_memory_map(&targets, &answers);
    assert_eq!(map.len(), 1);
    assert_eq!(map[&8], ProcessGpuMemory { dedicated_bytes: 9, shared_bytes: 0 });
    let idle = gpu_memory_map(&vec![0], &vec![Some(ProcessGpuAnswers { dedicated: vec![query(0, 7, 7)], shared: vec![] })]);
    assert!(idle.is_empty());
}
