//! System and per-process memory figures, and their human-readable sizes.

use vstd::prelude::*;

use crate::decimal::{decimal, decimal_chars, digit, digit_char};
use crate::doubles::{f64_value, f64_value_of, rounded_ratio};
use crate::sorting::{lemma_filter_push, lemma_stable_sort_is_permutation, sort_desc_by_keys, sorted_by_key_desc, stably_sorted_desc};
use crate::text::{nul_terminated_text, push_char, push_chars, string_from_nul_terminated};

verus! {

/// Bytes in a kilobyte, as the size texts count them.
pub open spec fn kib() -> nat { 1024 }

/// Bytes in a megabyte.
pub open spec fn mib() -> nat { 1024 * 1024 }

/// Bytes in a gigabyte.
pub open spec fn gib() -> nat { 1024 * 1024 * 1024 }

/// `q / 100` printed with two decimals.
pub open spec fn two_decimals(q: nat) -> Seq<char> {
    decimal(q / 100) + seq!['.', digit_char((q / 10) % 10), digit_char(q % 10)]
}

/// `q / 10` printed with one decimal.
pub open spec fn one_decimal(q: nat) -> Seq<char> {
    decimal(q / 10) + seq!['.', digit_char(q % 10)]
}

/// The text of a byte count: with `b` the count as an `f64`, gigabytes with
/// two decimals from 1 GiB on, megabytes with one decimal from 1 MiB on,
/// whole kilobytes from 1 KiB on, and the exact count of bytes below that.
/// Each decimal is rounded to the nearest, ties to an even last digit.
pub open spec fn format_bytes_text(bytes: nat) -> Seq<char> {
    let b = f64_value(bytes);
    if b >= gib() {
        two_decimals(rounded_ratio(b, 100, gib())) + seq![' ', 'G', 'B']
    } else if b >= mib() {
        one_decimal(rounded_ratio(b, 10, mib())) + seq![' ', 'M', 'B']
    } else if b >= kib() {
        decimal(rounded_ratio(b, 1, kib())) + seq![' ', 'K', 'B']
    } else {
        decimal(bytes) + seq![' ', 'B']
    }
}

/// `x * mult / unit` rounded to the nearest integer, ties to even.
fn rounded_quotient(x: u128, mult: u128, unit: u128) -> (q: u128)
    requires
        unit > 0,
        x * mult <= 0xffff_ffff_ffff_ffff_ffff_ffff,
        unit <= 0x4000_0000,
    ensures
        q == rounded_ratio(x as nat, mult as nat, unit as nat),
        q <= (x * mult) / (unit as int) + 1,
{
    let p = x * mult;
    let q = p / unit;
    let r = p % unit;
    if 2 * r > unit || (2 * r == unit && q % 2 == 1) {
        q + 1
    } else {
        q
    }
}

/// Formats a byte count the way the memory views print sizes.
pub fn format_bytes(bytes: u64) -> (s: String)
    ensures
        s@ == format_bytes_text(bytes as nat),
{
    let b = f64_value_of(bytes);
    let mut s = String::new();
    if b >= 0x4000_0000 {
        let q = rounded_quotient(b, 100, 0x4000_0000);
        assert(q < 0x1_0000_0000_0000) by {
            assert(b * 100 / 0x4000_0000 <= 0x4_0000_0000_0000_0000 * 100 / 0x4000_0000) by (nonlinear_arith)
                requires b <= 0x4_0000_0000_0000_0000;
        }
        let q = q as u64;
        push_chars(&mut s, &decimal_chars(q / 100));
        push_char(&mut s, '.');
        push_char(&mut s, digit((q / 10) % 10));
        push_char(&mut s, digit(q % 10));
        push_char(&mut s, ' ');
        push_char(&mut s, 'G');
        push_char(&mut s, 'B');
    } else if b >= 0x10_0000 {
        let q = rounded_quotient(b, 10, 0x10_0000);
        assert(q < 0x1_0000_0000) by {
            assert(b * 10 / 0x10_0000 <= 0x4000_0000 * 10 / 0x10_0000) by (nonlinear_arith)
                requires b < 0x4000_0000;
        }
        let q = q as u64;
        push_chars(&mut s, &decimal_chars(q / 10));
        push_char(&mut s, '.');
        push_char(&mut s, digit(q % 10));
        push_char(&mut s, ' ');
        push_char(&mut s, 'M');
        push_char(&mut s, 'B');
    } else if b >= 0x400 {
        let q = rounded_quotient(b, 1, 0x400);
        assert(q < 0x1_0000_0000) by {
            assert(b * 1 / 0x400 <= 0x10_0000) by (nonlinear_arith)
                requires b < 0x10_0000;
        }
        let q = q as u64;
        push_chars(&mut s, &decimal_chars(q));
        push_char(&mut s, ' ');
        push_char(&mut s, 'K');
        push_char(&mut s, 'B');
    } else {
        push_chars(&mut s, &decimal_chars(bytes));
        push_char(&mut s, ' ');
        push_char(&mut s, 'B');
    }
    assert(s@ =~= format_bytes_text(bytes as nat));
    s
}

/// Physical memory, page file and commit figures of the whole system.
#[derive(Debug, Clone)]
pub struct SystemMemorySummary {
    pub total_phys_bytes: u64,
    pub avail_phys_bytes: u64,
    pub used_phys_bytes: u64,
    pub memory_load_pct: u32,
    pub total_page_file_bytes: u64,
    pub avail_page_file_bytes: u64,
    pub commit_total_bytes: u64,
    pub commit_limit_bytes: u64,
    pub paged_pool_bytes: u64,
    pub nonpaged_pool_bytes: u64,
    pub process_count: u32,
}

/// The memory status the system reports (bytes, except the load in percent).
#[derive(Debug, Clone, Copy)]
pub struct MemoryStatusReading {
    pub total_phys: u64,
    pub avail_phys: u64,
    pub memory_load: u32,
    pub total_page_file: u64,
    pub avail_page_file: u64,
}

/// The performance information the system reports; every size but
/// `page_size` counts pages.
#[derive(Debug, Clone, Copy)]
pub struct PerformanceReading {
    pub page_size: u64,
    pub commit_total: u64,
    pub commit_limit: u64,
    pub kernel_paged: u64,
    pub kernel_nonpaged: u64,
    pub process_count: u32,
}

impl PerformanceReading {
    /// Every page count converts to bytes within 64 bits.
    pub open spec fn fits_in_bytes(self) -> bool {
        &&& self.commit_total * self.page_size <= u64::MAX
        &&& self.commit_limit * self.page_size <= u64::MAX
        &&& self.kernel_paged * self.page_size <= u64::MAX
        &&& self.kernel_nonpaged * self.page_size <= u64::MAX
    }
}

impl Default for SystemMemorySummary {
    /// A summary with every figure zero.
    fn default() -> (s: Self)
        ensures
            s.is_empty(),
    {
        SystemMemorySummary {
            total_phys_bytes: 0,
            avail_phys_bytes: 0,
            used_phys_bytes: 0,
            memory_load_pct: 0,
            total_page_file_bytes: 0,
            avail_page_file_bytes: 0,
            commit_total_bytes: 0,
            commit_limit_bytes: 0,
            paged_pool_bytes: 0,
            nonpaged_pool_bytes: 0,
            process_count: 0,
        }
    }
}

impl SystemMemorySummary {
    /// Every figure is zero.
    pub open spec fn is_empty(self) -> bool {
        &&& self.total_phys_bytes == 0
        &&& self.avail_phys_bytes == 0
        &&& self.used_phys_bytes == 0
        &&& self.memory_load_pct == 0
        &&& self.total_page_file_bytes == 0
        &&& self.avail_page_file_bytes == 0
        &&& self.commit_total_bytes == 0
        &&& self.commit_limit_bytes == 0
        &&& self.paged_pool_bytes == 0
        &&& self.nonpaged_pool_bytes == 0
        &&& self.process_count == 0
    }

    /// The figures taken from a memory status reading, as they are.
    pub open spec fn has_memory_status(self, m: MemoryStatusReading) -> bool {
        &&& self.total_phys_bytes == m.total_phys
        &&& self.avail_phys_bytes == m.avail_phys
        &&& self.used_phys_bytes == (if m.total_phys >= m.avail_phys {
            m.total_phys - m.avail_phys
        } else {
            0
        })
        &&& self.memory_load_pct == m.memory_load
        &&& self.total_page_file_bytes == m.total_page_file
        &&& self.avail_page_file_bytes == m.avail_page_file
    }

    /// The figures taken from a performance reading, page counts turned into bytes.
    pub open spec fn has_performance(self, p: PerformanceReading) -> bool {
        &&& self.commit_total_bytes == p.commit_total * p.page_size
        &&& self.commit_limit_bytes == p.commit_limit * p.page_size
        &&& self.paged_pool_bytes == p.kernel_paged * p.page_size
        &&& self.nonpaged_pool_bytes == p.kernel_nonpaged * p.page_size
        &&& self.process_count == p.process_count
    }

    /// Builds the summary from what the system answered; a reading that
    /// failed leaves its figures at zero.
    pub fn from_readings(
        memory: Option<MemoryStatusReading>,
        performance: Option<PerformanceReading>,
    ) -> (s: Self)
        requires
            performance matches Some(p) ==> p.fits_in_bytes(),
        ensures
            match memory {
                Some(m) => s.has_memory_status(m),
                None => {
                    &&& s.total_phys_bytes == 0
                    &&& s.avail_phys_bytes == 0
                    &&& s.used_phys_bytes == 0
                    &&& s.memory_load_pct == 0
                    &&& s.total_page_file_bytes == 0
                    &&& s.avail_page_file_bytes == 0
                },
            },
            match performance {
                Some(p) => s.has_performance(p),
                None => {
                    &&& s.commit_total_bytes == 0
                    &&& s.commit_limit_bytes == 0
                    &&& s.paged_pool_bytes == 0
                    &&& s.nonpaged_pool_bytes == 0
                    &&& s.process_count == 0
                },
            },
    {
        let mut s = SystemMemorySummary::default();
        if let Some(m) = memory {
            s.total_phys_bytes = m.total_phys;
            s.avail_phys_bytes = m.avail_phys;
            s.used_phys_bytes = m.total_phys.saturating_sub(m.avail_phys);
            s.memory_load_pct = m.memory_load;
            s.total_page_file_bytes = m.total_page_file;
            s.avail_page_file_bytes = m.avail_page_file;
        }
        if let Some(p) = performance {
            s.commit_total_bytes = p.commit_total * p.page_size;
            s.commit_limit_bytes = p.commit_limit * p.page_size;
            s.paged_pool_bytes = p.kernel_paged * p.page_size;
            s.nonpaged_pool_bytes = p.kernel_nonpaged * p.page_size;
            s.process_count = p.process_count;
        }
        s
    }
}

/// Memory use of one process.
#[derive(Debug)]
pub struct ProcessMemoryEntry {
    pub pid: u32,
    pub name: String,
    pub working_set_bytes: u64,
    pub private_bytes: u64,
    pub gpu_dedicated_bytes: u64,
    pub gpu_shared_bytes: u64,
}

impl Clone for ProcessMemoryEntry {
    fn clone(&self) -> (e: Self)
        ensures
            e == *self,
    {
        ProcessMemoryEntry {
            pid: self.pid,
            name: self.name.clone(),
            working_set_bytes: self.working_set_bytes,
            private_bytes: self.private_bytes,
            gpu_dedicated_bytes: self.gpu_dedicated_bytes,
            gpu_shared_bytes: self.gpu_shared_bytes,
        }
    }
}

impl Default for ProcessMemoryEntry {
    /// An entry with id 0, an empty name and no memory.
    fn default() -> (e: Self)
        ensures
            e.pid == 0,
            e.name@ == Seq::<char>::empty(),
            e.working_set_bytes == 0,
            e.private_bytes == 0,
            e.gpu_dedicated_bytes == 0,
            e.gpu_shared_bytes == 0,
    {
        ProcessMemoryEntry {
            pid: 0,
            name: String::new(),
            working_set_bytes: 0,
            private_bytes: 0,
            gpu_dedicated_bytes: 0,
            gpu_shared_bytes: 0,
        }
    }
}

impl ProcessMemoryEntry {
    /// The entry for a process whose counters were read: its name from the
    /// NUL-terminated executable file name, no GPU memory yet.
    pub fn from_counters(pid: u32, exe_file: &[u16], working_set_bytes: u64, private_bytes: u64) -> (e: Self)
        ensures
            e.pid == pid,
            e.name@ == nul_terminated_text(exe_file@),
            e.working_set_bytes == working_set_bytes,
            e.private_bytes == private_bytes,
            e.gpu_dedicated_bytes == 0,
            e.gpu_shared_bytes == 0,
    {
        ProcessMemoryEntry {
            pid,
            name: string_from_nul_terminated(exe_file),
            working_set_bytes,
            private_bytes,
            gpu_dedicated_bytes: 0,
            gpu_shared_bytes: 0,
        }
    }
}

/// Whether the process snapshot entry with this id is one whose memory is read.
pub fn is_listed_pid(pid: u32) -> (b: bool)
    ensures
        b == (pid != 0),
{
    pid != 0
}

/// The working set and private commit of a process, in bytes.
#[derive(Debug, Clone, Copy)]
pub struct MemoryCounters {
    pub working_set: u64,
    pub private_usage: u64,
}

/// One process of the system snapshot: its id, its NUL-terminated executable
/// file name, and its counters where they could be read.
#[derive(Debug)]
pub struct ProcessSample {
    pub pid: u32,
    pub exe_file: Vec<u16>,
    pub counters: Option<MemoryCounters>,
}

/// A sample that makes an entry of the process list.
pub open spec fn is_listed(s: ProcessSample) -> bool {
    s.pid != 0 && s.counters is Some
}

/// `e` is the entry made of sample `s`.
pub open spec fn entry_of_sample(e: ProcessMemoryEntry, s: ProcessSample) -> bool {
    &&& e.pid == s.pid
    &&& e.name@ == nul_terminated_text(s.exe_file@)
    &&& e.working_set_bytes == s.counters->0.working_set
    &&& e.private_bytes == s.counters->0.private_usage
    &&& e.gpu_dedicated_bytes == 0
    &&& e.gpu_shared_bytes == 0
}

/// The entry carries the id, name and counters of the sample.
pub open spec fn sample_fields(e: ProcessMemoryEntry, s: ProcessSample) -> bool {
    &&& e.pid == s.pid
    &&& e.name@ == nul_terminated_text(s.exe_file@)
    &&& s.counters matches Some(c) && e.working_set_bytes == c.working_set && e.private_bytes == c.private_usage
}

/// The entry is made of a sample with a nonzero id and readable counters.
pub open spec fn made_of_listed_sample(e: ProcessMemoryEntry, samples: Seq<ProcessSample>) -> bool {
    exists|k: int| 0 <= k < samples.len() && (#[trigger] samples[k]).pid != 0 && samples[k].counters is Some
        && sample_fields(e, samples[k])
}

/// The predicate of the samples that make entries.
pub open spec fn listed() -> spec_fn(ProcessSample) -> bool {
    |s: ProcessSample| is_listed(s)
}

/// The samples that make entries, in snapshot order.
pub open spec fn listed_samples(samples: Seq<ProcessSample>) -> Seq<ProcessSample> {
    samples.filter(listed())
}

/// The sort key of the process list.
pub open spec fn by_working_set() -> spec_fn(ProcessMemoryEntry) -> u64 {
    |e: ProcessMemoryEntry| e.working_set_bytes
}

/// One entry per listed sample, in the order of the samples.
pub fn entries_from_samples(samples: &Vec<ProcessSample>) -> (entries: Vec<ProcessMemoryEntry>)
    ensures
        entries@.len() == listed_samples(samples@).len(),
        forall|i: int| 0 <= i < entries@.len() ==>
            #[trigger] entry_of_sample(entries@[i], listed_samples(samples@)[i]),
{
    let mut entries: Vec<ProcessMemoryEntry> = Vec::new();
    let mut i: usize = 0;
    while i < samples.len()
        invariant
            i <= samples@.len(),
            entries@.len() == listed_samples(samples@.take(i as int)).len(),
            forall|j: int| 0 <= j < entries@.len() ==>
                #[trigger] entry_of_sample(entries@[j], listed_samples(samples@.take(i as int))[j]),
        decreases samples@.len() - i,
    {
        let s = &samples[i];
        proof {
            assert(samples@.take(i + 1) =~= samples@.take(i as int).push(samples@[i as int]));
            lemma_filter_push(samples@.take(i as int), samples@[i as int], listed());
        }
        if is_listed_pid(s.pid) {
            if let Some(c) = s.counters {
                let e = ProcessMemoryEntry::from_counters(s.pid, s.exe_file.as_slice(), c.working_set, c.private_usage);
                entries.push(e);
            }
        }
        i = i + 1;
    }
    proof {
        assert(samples@.take(samples@.len() as int) =~= samples@);
    }
    entries
}

/// Orders entries by working set, largest first; entries with equal working
/// sets keep their order.
pub fn sort_by_working_set(entries: Vec<ProcessMemoryEntry>) -> (sorted: Vec<ProcessMemoryEntry>)
    ensures
        stably_sorted_desc(sorted@, entries@, by_working_set()),
        forall|i: int, j: int| 0 <= i < j < sorted@.len()
            ==> (#[trigger] sorted@[i]).working_set_bytes >= (#[trigger] sorted@[j]).working_set_bytes,
{
    let mut keys: Vec<u64> = Vec::new();
    let mut i: usize = 0;
    while i < entries.len()
        invariant
            i <= entries@.len(),
            keys@.len() == i,
            forall|j: int| 0 <= j < i ==> keys@[j] == entries@[j].working_set_bytes,
        decreases entries@.len() - i,
    {
        keys.push(entries[i].working_set_bytes);
        i = i + 1;
    }
    let sorted = sort_desc_by_keys(entries, keys, Ghost(by_working_set()));
    proof {
        lemma_working_set_order(sorted@);
    }
    sorted
}

/// A list sorted by the process list's key is in descending order of working
/// set, whatever the other figures are.
pub proof fn lemma_working_set_order(list: Seq<ProcessMemoryEntry>)
    requires
        sorted_by_key_desc(list, by_working_set()),
    ensures
        forall|i: int, j: int| 0 <= i < j < list.len()
            ==> (#[trigger] list[i]).working_set_bytes >= (#[trigger] list[j]).working_set_bytes,
{
    assert forall|i: int, j: int| 0 <= i < j < list.len()
        implies (#[trigger] list[i]).working_set_bytes >= (#[trigger] list[j]).working_set_bytes by {
        assert(by_working_set()(list[i]) >= by_working_set()(list[j]));
    }
}

/// The process list of a snapshot: an entry for every sample with a nonzero
/// id and readable counters, ordered by working set, largest first, samples
/// with equal working sets in snapshot order.
pub fn process_list(samples: &Vec<ProcessSample>) -> (list: Vec<ProcessMemoryEntry>)
    ensures
        exists|entries: Seq<ProcessMemoryEntry>| {
            &&& entries.len() == listed_samples(samples@).len()
            &&& forall|i: int| 0 <= i < entries.len() ==>
                #[trigger] entry_of_sample(entries[i], listed_samples(samples@)[i])
            &&& stably_sorted_desc(list@, entries, by_working_set())
        },
        forall|i: int| 0 <= i < list@.len() ==> (#[trigger] list@[i]).pid != 0,
        forall|i: int, j: int| 0 <= i < j < list@.len()
            ==> (#[trigger] list@[i]).working_set_bytes >= (#[trigger] list@[j]).working_set_bytes,
        forall|k: int| 0 <= k < samples@.len() && (#[trigger] samples@[k]).pid != 0 && samples@[k].counters is Some
            ==> exists|i: int| 0 <= i < list@.len() && sample_fields(#[trigger] list@[i], samples@[k]),
        forall|i: int| 0 <= i < list@.len() ==> made_of_listed_sample(#[trigger] list@[i], samples@),
{
    let entries = entries_from_samples(samples);
    let ghost unsorted = entries@;
    let list = sort_by_working_set(entries);
    assert(stably_sorted_desc(list@, unsorted, by_working_set()));
    proof {
        broadcast use vstd::seq_lib::group_to_multiset_ensures;
        lemma_stable_sort_is_permutation(list@, unsorted, by_working_set());
        let listed_seq = listed_samples(samples@);
        assert forall|i: int| 0 <= i < list@.len() implies (#[trigger] list@[i]).pid != 0 by {
            assert(list@.contains(list@[i]));
            assert(list@.to_multiset().count(list@[i]) > 0);
            assert(unsorted.contains(list@[i]));
            let k = choose|k: int| 0 <= k < unsorted.len() && unsorted[k] == list@[i];
            assert(entry_of_sample(unsorted[k], listed_seq[k]));
            samples@.lemma_filter_pred(listed(), k);
        }
        assert forall|k: int| 0 <= k < samples@.len() && (#[trigger] samples@[k]).pid != 0 && samples@[k].counters is Some
            implies exists|i: int| 0 <= i < list@.len() && sample_fields(#[trigger] list@[i], samples@[k]) by {
            samples@.lemma_filter_contains(listed(), k);
            assert(listed_seq.contains(samples@[k]));
            let j = choose|j: int| 0 <= j < listed_seq.len() && listed_seq[j] == samples@[k];
            assert(entry_of_sample(unsorted[j], listed_seq[j]));
            assert(unsorted.contains(unsorted[j]));
            assert(unsorted.to_multiset().count(unsorted[j]) > 0);
            assert(list@.contains(unsorted[j]));
            let i = choose|i: int| 0 <= i < list@.len() && list@[i] == unsorted[j];
            assert(sample_fields(list@[i], samples@[k]));
        }
        assert forall|i: int| 0 <= i < list@.len() implies made_of_listed_sample(#[trigger] list@[i], samples@) by {
            assert(list@.contains(list@[i]));
            assert(list@.to_multiset().count(list@[i]) > 0);
            assert(unsorted.contains(list@[i]));
            let j = choose|j: int| 0 <= j < unsorted.len() && unsorted[j] == list@[i];
            assert(entry_of_sample(unsorted[j], listed_seq[j]));
            samples@.lemma_filter_pred(listed(), j);
            assert(listed_seq.contains(listed_seq[j]));
            samples@.lemma_filter_contains_rev(listed(), listed_seq[j]);
            let k = choose|k: int| 0 <= k < samples@.len() && samples@[k] == listed_seq[j];
            assert(sample_fields(list@[i], samples@[k]));
        }
    }
    list
}

} // verus!
