//! GPU adapters and the GPU memory of each process.

use std::collections::HashMap;
use vstd::prelude::*;

use crate::doubles::saturated;
use crate::text::{nul_terminated_text, string_from_nul_terminated};

verus! {

broadcast use vstd::std_specs::hash::group_hash_axioms;

/// The locally unique identifier of an adapter.
#[derive(Debug, Clone, Copy, PartialEq, Eq, Structural)]
pub struct AdapterLuid {
    pub low_part: u32,
    pub high_part: i32,
}

/// A GPU adapter: its memory sizes and, where the system reports them, the
/// current usage and budget of its dedicated and shared segments.
#[derive(Debug, Clone)]
pub struct GpuAdapterInfo {
    pub name: String,
    pub luid: AdapterLuid,
    pub dedicated_vram_bytes: u64,
    pub shared_ram_bytes: u64,
    pub dedicated_usage_bytes: u64,
    pub dedicated_budget_bytes: u64,
    pub shared_usage_bytes: u64,
    pub shared_budget_bytes: u64,
}

/// The GPU memory a process uses, over all adapters.
#[derive(Debug, Clone, Copy, PartialEq, Eq, Structural)]
pub struct ProcessGpuMemory {
    pub dedicated_bytes: u64,
    pub shared_bytes: u64,
}

/// The statistics of one segment group of one process, as the kernel
/// statistics query lays them out.
#[allow(non_camel_case_types)]
#[derive(Debug, Clone, Copy, PartialEq, Eq, Structural)]
pub struct D3DKMT_QUERYSTATISTICS_PROCESS_SEGMENT_GROUP_INFORMATION {
    pub budget: u64,
    pub requested: u64,
    pub usage: u64,
    pub demoted: u64,
}

/// What the adapter enumeration reports of an adapter.
#[derive(Debug)]
pub struct AdapterDescription {
    /// The NUL-terminated UTF-16 description.
    pub description: Vec<u16>,
    pub luid: AdapterLuid,
    pub dedicated_video_memory: u64,
    pub shared_system_memory: u64,
    pub flags: u32,
}

/// Budget and current usage of one memory segment group of an adapter.
#[derive(Debug, Clone, Copy, PartialEq, Eq, Structural)]
pub struct VideoMemoryReading {
    pub budget: u64,
    pub current_usage: u64,
}

impl Default for GpuAdapterInfo {
    /// An unnamed adapter with a zero identifier and no memory.
    fn default() -> (a: Self)
        ensures
            a.name@ == Seq::<char>::empty(),
            a.luid == (AdapterLuid { low_part: 0, high_part: 0 }),
            a.dedicated_vram_bytes == 0,
            a.shared_ram_bytes == 0,
            a.dedicated_usage_bytes == 0,
            a.dedicated_budget_bytes == 0,
            a.shared_usage_bytes == 0,
            a.shared_budget_bytes == 0,
    {
        GpuAdapterInfo {
            name: String::new(),
            luid: AdapterLuid { low_part: 0, high_part: 0 },
            dedicated_vram_bytes: 0,
            shared_ram_bytes: 0,
            dedicated_usage_bytes: 0,
            dedicated_budget_bytes: 0,
            shared_usage_bytes: 0,
            shared_budget_bytes: 0,
        }
    }
}

impl Default for ProcessGpuMemory {
    /// No GPU memory.
    fn default() -> (m: Self)
        ensures
            m == (ProcessGpuMemory { dedicated_bytes: 0, shared_bytes: 0 }),
    {
        ProcessGpuMemory { dedicated_bytes: 0, shared_bytes: 0 }
    }
}

impl Default for D3DKMT_QUERYSTATISTICS_PROCESS_SEGMENT_GROUP_INFORMATION {
    /// All four fields zero.
    fn default() -> (i: Self)
        ensures
            i == (D3DKMT_QUERYSTATISTICS_PROCESS_SEGMENT_GROUP_INFORMATION { budget: 0, requested: 0, usage: 0, demoted: 0 }),
    {
        D3DKMT_QUERYSTATISTICS_PROCESS_SEGMENT_GROUP_INFORMATION { budget: 0, requested: 0, usage: 0, demoted: 0 }
    }
}

/// The software-adapter flag of an adapter description.
pub open spec fn software_flag(flags: u32) -> bool {
    flags & 2u32 != 0
}

/// Whether the flags mark a software adapter (such as the basic render driver).
pub fn is_software_adapter(flags: u32) -> (b: bool)
    ensures
        b == software_flag(flags),
{
    flags & 2 != 0
}

impl GpuAdapterInfo {
    /// The adapter entry for a description; `None` for a software adapter.
    /// A segment group whose reading failed keeps a zero usage and budget.
    pub fn from_description(
        desc: &AdapterDescription,
        local: Option<VideoMemoryReading>,
        non_local: Option<VideoMemoryReading>,
    ) -> (info: Option<GpuAdapterInfo>)
        ensures
            info is Some <==> !software_flag(desc.flags),
            info matches Some(a) ==> {
                &&& a.name@ == nul_terminated_text(desc.description@)
                &&& a.luid == desc.luid
                &&& a.dedicated_vram_bytes == desc.dedicated_video_memory
                &&& a.shared_ram_bytes == desc.shared_system_memory
                &&& a.dedicated_budget_bytes == (match local { Some(r) => r.budget, None => 0 })
                &&& a.dedicated_usage_bytes == (match local { Some(r) => r.current_usage, None => 0 })
                &&& a.shared_budget_bytes == (match non_local { Some(r) => r.budget, None => 0 })
                &&& a.shared_usage_bytes == (match non_local { Some(r) => r.current_usage, None => 0 })
            },
    {
        if is_software_adapter(desc.flags) {
            return None;
        }
        let mut info = GpuAdapterInfo {
            name: string_from_nul_terminated(desc.description.as_slice()),
            luid: desc.luid,
            dedicated_vram_bytes: desc.dedicated_video_memory,
            shared_ram_bytes: desc.shared_system_memory,
            dedicated_usage_bytes: 0,
            dedicated_budget_bytes: 0,
            shared_usage_bytes: 0,
            shared_budget_bytes: 0,
        };
        if let Some(r) = local {
            info.dedicated_budget_bytes = r.budget;
            info.dedicated_usage_bytes = r.current_usage;
        }
        if let Some(r) = non_local {
            info.shared_budget_bytes = r.budget;
            info.shared_usage_bytes = r.current_usage;
        }
        Some(info)
    }
}

/// The little-endian 64-bit value of the eight bytes from `offset` on.
pub open spec fn le_u64_at(bytes: Seq<u8>, offset: int) -> nat {
    (bytes[offset] as nat)
        + 0x100 * (bytes[offset + 1] as nat)
        + 0x1_0000 * (bytes[offset + 2] as nat)
        + 0x100_0000 * (bytes[offset + 3] as nat)
        + 0x1_0000_0000 * (bytes[offset + 4] as nat)
        + 0x100_0000_0000 * (bytes[offset + 5] as nat)
        + 0x1_0000_0000_0000 * (bytes[offset + 6] as nat)
        + 0x100_0000_0000_0000 * (bytes[offset + 7] as nat)
}

fn read_le_u64(bytes: &[u8], offset: usize) -> (v: u64)
    requires
        offset + 8 <= bytes@.len(),
    ensures
        v == le_u64_at(bytes@, offset as int),
{
    (bytes[offset] as u64)
        + 0x100 * (bytes[offset + 1] as u64)
        + 0x1_0000 * (bytes[offset + 2] as u64)
        + 0x100_0000 * (bytes[offset + 3] as u64)
        + 0x1_0000_0000 * (bytes[offset + 4] as u64)
        + 0x100_0000_0000 * (bytes[offset + 5] as u64)
        + 0x1_0000_0000_0000 * (bytes[offset + 6] as u64)
        + 0x100_0000_0000_0000 * (bytes[offset + 7] as u64)
}

impl D3DKMT_QUERYSTATISTICS_PROCESS_SEGMENT_GROUP_INFORMATION {
    /// Reads the four little-endian fields (budget, requested, usage, demoted)
    /// from the start of a query result.
    pub fn from_le_bytes(bytes: &[u8]) -> (info: Self)
        requires
            bytes@.len() >= 32,
        ensures
            info.budget == le_u64_at(bytes@, 0),
            info.requested == le_u64_at(bytes@, 8),
            info.usage == le_u64_at(bytes@, 16),
            info.demoted == le_u64_at(bytes@, 24),
    {
        D3DKMT_QUERYSTATISTICS_PROCESS_SEGMENT_GROUP_INFORMATION {
            budget: read_le_u64(bytes, 0),
            requested: read_le_u64(bytes, 8),
            usage: read_le_u64(bytes, 16),
            demoted: read_le_u64(bytes, 24),
        }
    }
}

/// The answer of one kernel statistics query for one segment group of one
/// process on one adapter: its status and the raw result it filled in.
#[derive(Debug)]
pub struct SegmentQuery {
    pub status: i32,
    pub result: Vec<u8>,
}

/// A query result holds the segment group statistics.
pub open spec fn well_formed_query(q: SegmentQuery) -> bool {
    q.result@.len() >= 32
}

/// The bytes a query attributes to the process: the larger of the usage and
/// the requested size when the query succeeded (a nonnegative status), else none.
pub open spec fn segment_usage_value(q: SegmentQuery) -> nat {
    if q.status < 0 {
        0
    } else {
        let requested = le_u64_at(q.result@, 8);
        let usage = le_u64_at(q.result@, 16);
        if usage >= requested { usage } else { requested }
    }
}

/// The sum of what the queries attribute to the process.
pub open spec fn segment_usage_sum(qs: Seq<SegmentQuery>) -> nat
    decreases qs.len(),
{
    if qs.len() == 0 {
        0
    } else {
        segment_usage_sum(qs.drop_last()) + segment_usage_value(qs.last())
    }
}

/// What one query attributes to the process.
pub fn segment_usage(q: &SegmentQuery) -> (v: u64)
    requires
        well_formed_query(*q),
    ensures
        v == segment_usage_value(*q),
        q.status < 0 ==> v == 0,
        q.status >= 0 ==> v >= le_u64_at(q.result@, 8) && v >= le_u64_at(q.result@, 16)
            && (v == le_u64_at(q.result@, 8) || v == le_u64_at(q.result@, 16)),
{
    if q.status >= 0 {
        let info = D3DKMT_QUERYSTATISTICS_PROCESS_SEGMENT_GROUP_INFORMATION::from_le_bytes(q.result.as_slice());
        if info.usage >= info.requested { info.usage } else { info.requested }
    } else {
        0
    }
}

/// The saturating total of what the queries attribute to the process.
pub fn total_segment_usage(qs: &Vec<SegmentQuery>) -> (total: u64)
    requires
        forall|i: int| 0 <= i < qs@.len() ==> well_formed_query(#[trigger] qs@[i]),
    ensures
        total == saturated(segment_usage_sum(qs@)),
{
    let mut total: u64 = 0;
    let mut i: usize = 0;
    while i < qs.len()
        invariant
            i <= qs@.len(),
            forall|j: int| 0 <= j < qs@.len() ==> well_formed_query(#[trigger] qs@[j]),
            total == saturated(segment_usage_sum(qs@.take(i as int))),
        decreases qs@.len() - i,
    {
        let v = segment_usage(&qs[i]);
        proof {
            assert(qs@.take(i + 1).drop_last() =~= qs@.take(i as int));
        }
        total = total.saturating_add(v);
        i = i + 1;
    }
    proof {
        assert(qs@.take(qs@.len() as int) =~= qs@);
    }
    total
}

/// The answers for one process that could be opened: one query per adapter
/// for the dedicated segment group, one per adapter for the shared one.
#[derive(Debug)]
pub struct ProcessGpuAnswers {
    pub dedicated: Vec<SegmentQuery>,
    pub shared: Vec<SegmentQuery>,
}

pub open spec fn well_formed_answers(a: ProcessGpuAnswers) -> bool {
    &&& forall|i: int| 0 <= i < a.dedicated@.len() ==> well_formed_query(#[trigger] a.dedicated@[i])
    &&& forall|i: int| 0 <= i < a.shared@.len() ==> well_formed_query(#[trigger] a.shared@[i])
}

/// Every answer present holds well-formed query results.
pub open spec fn well_formed_answer_list(answers: Seq<Option<ProcessGpuAnswers>>) -> bool {
    forall|i: int| 0 <= i < answers.len() && (#[trigger] answers[i]) is Some ==> well_formed_answers(answers[i]->0)
}

/// The GPU memory the answers of a process add up to.
pub open spec fn answers_usage(a: ProcessGpuAnswers) -> ProcessGpuMemory {
    ProcessGpuMemory {
        dedicated_bytes: saturated(segment_usage_sum(a.dedicated@)),
        shared_bytes: saturated(segment_usage_sum(a.shared@)),
    }
}

/// Whether a process uses any GPU memory at all.
pub open spec fn uses_gpu_memory(m: ProcessGpuMemory) -> bool {
    m.dedicated_bytes > 0 || m.shared_bytes > 0
}

/// The map from process id to GPU memory, where `answers[i]` is what the
/// queries for `targets[i]` gave (none when the process could not be opened):
/// every answered process other than the idle one that uses some GPU memory,
/// a later answer for the same id replacing an earlier one.
pub open spec fn answered_usage_map(targets: Seq<u32>, answers: Seq<Option<ProcessGpuAnswers>>) -> Map<u32, ProcessGpuMemory>
    decreases answers.len(),
{
    if answers.len() == 0 {
        Map::empty()
    } else {
        let n = answers.len() - 1;
        let m = answered_usage_map(targets.take(n), answers.drop_last());
        match answers.last() {
            Some(a) => {
                let u = answers_usage(a);
                if targets[n] != 0 && uses_gpu_memory(u) { m.insert(targets[n], u) } else { m }
            },
            None => m,
        }
    }
}

/// The GPU memory of one process, summed over its answers.
pub fn process_gpu_memory(a: &ProcessGpuAnswers) -> (m: ProcessGpuMemory)
    requires
        well_formed_answers(*a),
    ensures
        m == answers_usage(*a),
        m.dedicated_bytes == saturated(segment_usage_sum(a.dedicated@)),
        m.shared_bytes == saturated(segment_usage_sum(a.shared@)),
{
    ProcessGpuMemory {
        dedicated_bytes: total_segment_usage(&a.dedicated),
        shared_bytes: total_segment_usage(&a.shared),
    }
}

/// The predicate of the processes other than the idle process.
pub open spec fn nonzero_pid() -> spec_fn(u32) -> bool {
    |pid: u32| pid != 0
}

/// The processes to query: none without adapters or without the statistics
/// query, else every given process but the idle process (id 0), in order.
pub fn gpu_query_targets(pids: &[u32], adapter_count: usize, query_available: bool) -> (targets: Vec<u32>)
    ensures
        targets@ == (if adapter_count == 0 || !query_available {
            Seq::<u32>::empty()
        } else {
            pids@.filter(nonzero_pid())
        }),
        forall|i: int| 0 <= i < targets@.len() ==> (#[trigger] targets@[i]) != 0 && pids@.contains(targets@[i]),
        adapter_count > 0 && query_available ==> forall|k: int| 0 <= k < pids@.len() && (#[trigger] pids@[k]) != 0
            ==> targets@.contains(pids@[k]),
{
    proof {
        lemma_targets_exclude_idle(pids@);
        assert forall|i: int| 0 <= i < pids@.filter(nonzero_pid()).len()
            implies pids@.contains(#[trigger] pids@.filter(nonzero_pid())[i]) by {
            assert(pids@.filter(nonzero_pid()).contains(pids@.filter(nonzero_pid())[i]));
            pids@.lemma_filter_contains_rev(nonzero_pid(), pids@.filter(nonzero_pid())[i]);
        }
        assert forall|k: int| 0 <= k < pids@.len() && (#[trigger] pids@[k]) != 0
            implies pids@.filter(nonzero_pid()).contains(pids@[k]) by {
            pids@.lemma_filter_contains(nonzero_pid(), k);
        }
    }
    let mut targets: Vec<u32> = Vec::new();
    if adapter_count == 0 || !query_available {
        return targets;
    }
    let mut i: usize = 0;
    while i < pids.len()
        invariant
            i <= pids@.len(),
            targets@ == pids@.take(i as int).filter(nonzero_pid()),
        decreases pids@.len() - i,
    {
        proof {
            assert(pids@.take(i + 1) =~= pids@.take(i as int).push(pids@[i as int]));
            crate::sorting::lemma_filter_push(pids@.take(i as int), pids@[i as int], nonzero_pid());
            assert(nonzero_pid()(pids@[i as int]) == (pids@[i as int] != 0));
        }
        if pids[i] != 0 {
            targets.push(pids[i]);
        }
        i = i + 1;
    }
    proof {
        assert(pids@.take(pids@.len() as int) =~= pids@);
    }
    targets
}

/// The GPU memory of the queried processes, by process id: `answers[i]` is
/// what the queries for `targets[i]` gave, none where the process could not be
/// opened. Only asked ids other than 0 whose process uses GPU memory are keys.
pub fn gpu_memory_map(targets: &Vec<u32>, answers: &Vec<Option<ProcessGpuAnswers>>) -> (map: HashMap<u32, ProcessGpuMemory>)
    requires
        targets@.len() == answers@.len(),
        well_formed_answer_list(answers@),
    ensures
        map@ == answered_usage_map(targets@, answers@),
        forall|pid: u32| #[trigger] map@.contains_key(pid) ==> {
            &&& pid != 0
            &&& targets@.contains(pid)
            &&& uses_gpu_memory(map@[pid])
            &&& exists|i: int| 0 <= i < answers@.len() && targets@[i] == pid && answers@[i] is Some && {
                let a = answers@[i]->0;
                &&& map@[pid].dedicated_bytes == saturated(segment_usage_sum(a.dedicated@))
                &&& map@[pid].shared_bytes == saturated(segment_usage_sum(a.shared@))
            }
        },
        forall|i: int| 0 <= i < answers@.len() && targets@[i] != 0 && (#[trigger] answers@[i]) is Some
            && (saturated(segment_usage_sum(answers@[i]->0.dedicated@)) > 0
                || saturated(segment_usage_sum(answers@[i]->0.shared@)) > 0)
            ==> map@.contains_key(targets@[i]),
{
    let mut map: HashMap<u32, ProcessGpuMemory> = HashMap::new();
    let mut i: usize = 0;
    while i < answers.len()
        invariant
            i <= answers@.len(),
            targets@.len() == answers@.len(),
            well_formed_answer_list(answers@),
            map@ == answered_usage_map(targets@.take(i as int), answers@.take(i as int)),
        decreases answers@.len() - i,
    {
        proof {
            assert(answers@.take(i + 1).drop_last() =~= answers@.take(i as int));
            assert(targets@.take(i + 1).take(i as int) =~= targets@.take(i as int));
            assert(answers@.take(i + 1).last() == answers@[i as int]);
            assert(targets@.take(i + 1)[i as int] == targets@[i as int]);
        }
        match &answers[i] {
            Some(a) => {
                let usage = process_gpu_memory(a);
                if targets[i] != 0 && (usage.dedicated_bytes > 0 || usage.shared_bytes > 0) {
                    map.insert(targets[i], usage);
                }
            },
            None => {},
        }
        i = i + 1;
    }
    proof {
        assert(answers@.take(answers@.len() as int) =~= answers@);
        assert(targets@.take(answers@.len() as int) =~= targets@);
        lemma_answered_map_keys(targets@, answers@);
        lemma_answered_map_covers(targets@, answers@);
    }
    map
}

/// The idle process (id 0) is never queried.
pub proof fn lemma_targets_exclude_idle(pids: Seq<u32>)
    ensures
        forall|i: int| 0 <= i < pids.filter(nonzero_pid()).len() ==> #[trigger] pids.filter(nonzero_pid())[i] != 0,
{
    assert forall|i: int| 0 <= i < pids.filter(nonzero_pid()).len() implies #[trigger] pids.filter(nonzero_pid())[i] != 0 by {
        pids.lemma_filter_pred(nonzero_pid(), i);
    }
}

/// The map holds only asked ids other than 0 whose process uses some GPU
/// memory, each with the usage of an answer given for that id.
pub proof fn lemma_answered_map_keys(targets: Seq<u32>, answers: Seq<Option<ProcessGpuAnswers>>)
    requires
        targets.len() == answers.len(),
    ensures
        forall|pid: u32| #[trigger] answered_usage_map(targets, answers).contains_key(pid) ==> {
            &&& pid != 0
            &&& targets.contains(pid)
            &&& uses_gpu_memory(answered_usage_map(targets, answers)[pid])
            &&& exists|i: int| 0 <= i < answers.len() && targets[i] == pid && answers[i] is Some
                && answered_usage_map(targets, answers)[pid] == answers_usage(answers[i]->0)
        },
    decreases answers.len(),
{
    if answers.len() > 0 {
        let n = answers.len() - 1;
        let pre_t = targets.take(n);
        let pre_a = answers.drop_last();
        lemma_answered_map_keys(pre_t, pre_a);
        let m = answered_usage_map(targets, answers);
        assert forall|pid: u32| #[trigger] m.contains_key(pid) implies {
            &&& pid != 0
            &&& targets.contains(pid)
            &&& uses_gpu_memory(m[pid])
            &&& exists|i: int| 0 <= i < answers.len() && targets[i] == pid && answers[i] is Some
                && m[pid] == answers_usage(answers[i]->0)
        } by {
            let added = match answers.last() {
                Some(a) => targets[n] != 0 && uses_gpu_memory(answers_usage(a)),
                None => false,
            };
            if added && pid == targets[n] {
                assert(answers[n] == answers.last());
                assert(targets.contains(targets[n]));
            } else {
                assert(answered_usage_map(pre_t, pre_a).contains_key(pid));
                let i = choose|i: int| 0 <= i < pre_a.len() && pre_t[i] == pid && pre_a[i] is Some
                    && answered_usage_map(pre_t, pre_a)[pid] == answers_usage(pre_a[i]->0);
                assert(targets[i] == pre_t[i] && answers[i] == pre_a[i]);
                assert(targets.contains(targets[i]));
            }
        }
    }
}

/// Every answered process other than the idle one whose dedicated or shared
/// total is above zero has an entry in the map.
pub proof fn lemma_answered_map_covers(targets: Seq<u32>, answers: Seq<Option<ProcessGpuAnswers>>)
    requires
        targets.len() == answers.len(),
    ensures
        forall|i: int| 0 <= i < answers.len() && targets[i] != 0 && (#[trigger] answers[i]) is Some
            && (saturated(segment_usage_sum(answers[i]->0.dedicated@)) > 0
                || saturated(segment_usage_sum(answers[i]->0.shared@)) > 0)
            ==> answered_usage_map(targets, answers).contains_key(targets[i]),
    decreases answers.len(),
{
    if answers.len() > 0 {
        let n = answers.len() - 1;
        let pre_t = targets.take(n);
        let pre_a = answers.drop_last();
        lemma_answered_map_covers(pre_t, pre_a);
        assert forall|i: int| 0 <= i < answers.len() && targets[i] != 0 && (#[trigger] answers[i]) is Some
            && (saturated(segment_usage_sum(answers[i]->0.dedicated@)) > 0
                || saturated(segment_usage_sum(answers[i]->0.shared@)) > 0)
            implies answered_usage_map(targets, answers).contains_key(targets[i]) by {
            if i < n {
                assert(pre_a[i] == answers[i] && pre_t[i] == targets[i]);
                assert(answered_usage_map(pre_t, pre_a).contains_key(targets[i]));
            } else {
                assert(answers.last() == answers[i]);
            }
        }
    }
}

/// The keys of the map are ids that were asked for and are not 0, when the
/// targets are those `gpu_query_targets` chose among `pids`.
pub proof fn lemma_map_keys_are_asked_pids(pids: Seq<u32>, targets: Seq<u32>, answers: Seq<Option<ProcessGpuAnswers>>)
    requires
        targets == pids.filter(nonzero_pid()),
        targets.len() == answers.len(),
    ensures
        forall|pid: u32| #[trigger] answered_usage_map(targets, answers).contains_key(pid) ==> pid != 0 && pids.contains(pid),
{
    lemma_answered_map_keys(targets, answers);
    assert forall|pid: u32| #[trigger] answered_usage_map(targets, answers).contains_key(pid) implies pid != 0 && pids.contains(pid) by {
        pids.lemma_filter_contains_rev(nonzero_pid(), pid);
    }
}

} // verus!
