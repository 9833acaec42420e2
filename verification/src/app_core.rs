//! The state of the viewer and how each message changes it.

use std::collections::HashMap;
use vstd::prelude::*;

use crate::gpu::{GpuAdapterInfo, ProcessGpuMemory};
use crate::memory::{ProcessMemoryEntry, SystemMemorySummary};
use crate::decimal::{decimal, decimal_chars};
use crate::text::{
    ascii_lowercase, chars_of, contains_text, is_ascii_text, lowercase, text_contains, to_lowercase,
};
use crate::types::{GroupMode, MemoryMetric, MemoryTab, RammapMessage, ViewMode};

verus! {

broadcast use vstd::std_specs::hash::group_hash_axioms;

/// The viewer: the figures last collected and the user's choices.
pub struct RammapApp {
    pub tab: MemoryTab,
    pub summary: SystemMemorySummary,
    pub gpu_adapters: Vec<GpuAdapterInfo>,
    pub processes: Vec<ProcessMemoryEntry>,
    pub search_query: String,
    pub view_mode: ViewMode,
    pub group_mode: GroupMode,
    pub metric: MemoryMetric,
    pub selected_process: Option<ProcessMemoryEntry>,
    pub selected_group_title: Option<String>,
}

/// What the host has to do after a message.
#[derive(Debug, Clone, Copy, PartialEq, Eq, Structural)]
pub enum RammapAction {
    /// Nothing beyond showing the new state.
    Show,
    /// Collect the system, adapter and process figures anew and hand them to
    /// `apply_refresh`.
    Collect,
}

/// The metrics that belong to a tab: the RAM figures on the RAM tab, the GPU
/// figures on the GPU tab.
pub open spec fn metric_fits_tab(tab: MemoryTab, metric: MemoryMetric) -> bool {
    match tab {
        MemoryTab::SystemRam => metric == MemoryMetric::WorkingSet || metric == MemoryMetric::PrivateWs,
        MemoryTab::GpuVram => metric == MemoryMetric::GpuDedicated || metric == MemoryMetric::GpuShared,
    }
}

/// The metric after switching to `tab`: kept where it fits the tab, else the
/// first metric of the tab.
pub open spec fn metric_after_tab(tab: MemoryTab, metric: MemoryMetric) -> MemoryMetric {
    if tab == MemoryTab::GpuVram && metric != MemoryMetric::GpuDedicated && metric != MemoryMetric::GpuShared {
        MemoryMetric::GpuDedicated
    } else if tab == MemoryTab::SystemRam && (metric == MemoryMetric::GpuDedicated || metric == MemoryMetric::GpuShared) {
        MemoryMetric::WorkingSet
    } else {
        metric
    }
}

/// The metric after a toggle: the other metric of the tab.
pub open spec fn toggled_metric(tab: MemoryTab, metric: MemoryMetric) -> MemoryMetric {
    match tab {
        MemoryTab::SystemRam => if metric == MemoryMetric::WorkingSet {
            MemoryMetric::PrivateWs
        } else {
            MemoryMetric::WorkingSet
        },
        MemoryTab::GpuVram => if metric == MemoryMetric::GpuDedicated {
            MemoryMetric::GpuShared
        } else {
            MemoryMetric::GpuDedicated
        },
    }
}

/// The first process with the given id.
pub open spec fn first_with_pid(ps: Seq<ProcessMemoryEntry>, pid: u32) -> Option<ProcessMemoryEntry>
    decreases ps.len(),
{
    if ps.len() == 0 {
        None
    } else if ps[0].pid == pid {
        Some(ps[0])
    } else {
        first_with_pid(ps.drop_first(), pid)
    }
}

/// The selection after the process list changed: the first process with the
/// selected process's id, or none.
pub open spec fn reselected(selected: Option<ProcessMemoryEntry>, ps: Seq<ProcessMemoryEntry>) -> Option<ProcessMemoryEntry> {
    match selected {
        Some(p) => first_with_pid(ps, p.pid),
        None => None,
    }
}

/// `e` with the GPU memory the map holds for its process, if any.
pub open spec fn with_gpu_memory(e: ProcessMemoryEntry, m: Map<u32, ProcessGpuMemory>) -> ProcessMemoryEntry {
    if m.contains_key(e.pid) {
        ProcessMemoryEntry {
            gpu_dedicated_bytes: m[e.pid].dedicated_bytes,
            gpu_shared_bytes: m[e.pid].shared_bytes,
            ..e
        }
    } else {
        e
    }
}

/// The ids of the processes, in order.
pub fn process_ids(processes: &Vec<ProcessMemoryEntry>) -> (pids: Vec<u32>)
    ensures
        pids@ == processes@.map_values(|e: ProcessMemoryEntry| e.pid),
{
    let mut pids: Vec<u32> = Vec::new();
    let mut i: usize = 0;
    while i < processes.len()
        invariant
            i <= processes@.len(),
            pids@ == processes@.take(i as int).map_values(|e: ProcessMemoryEntry| e.pid),
        decreases processes@.len() - i,
    {
        pids.push(processes[i].pid);
        proof {
            assert(processes@.take(i + 1).map_values(|e: ProcessMemoryEntry| e.pid)
                =~= processes@.take(i as int).map_values(|e: ProcessMemoryEntry| e.pid).push(processes@[i as int].pid));
        }
        i = i + 1;
    }
    proof {
        assert(processes@.take(processes@.len() as int) =~= processes@);
    }
    pids
}

/// Puts the GPU memory of each process, where the map has it, into its entry.
pub fn apply_gpu_memory(processes: &mut Vec<ProcessMemoryEntry>, gpu_map: &HashMap<u32, ProcessGpuMemory>)
    ensures
        final(processes)@.len() == old(processes)@.len(),
        forall|i: int| 0 <= i < old(processes)@.len() ==>
            #[trigger] final(processes)@[i] == with_gpu_memory(old(processes)@[i], gpu_map@),
        forall|i: int| 0 <= i < old(processes)@.len() ==> {
            let before = old(processes)@[i];
            let after = #[trigger] final(processes)@[i];
            &&& after.pid == before.pid
            &&& after.name == before.name
            &&& after.working_set_bytes == before.working_set_bytes
            &&& after.private_bytes == before.private_bytes
            &&& gpu_map@.contains_key(before.pid) ==> after.gpu_dedicated_bytes == gpu_map@[before.pid].dedicated_bytes
                && after.gpu_shared_bytes == gpu_map@[before.pid].shared_bytes
            &&& !gpu_map@.contains_key(before.pid) ==> after.gpu_dedicated_bytes == before.gpu_dedicated_bytes
                && after.gpu_shared_bytes == before.gpu_shared_bytes
        },
{
    let ghost start = processes@;
    let mut i: usize = 0;
    while i < processes.len()
        invariant
            processes@.len() == start.len(),
            i <= start.len(),
            forall|j: int| 0 <= j < i ==> #[trigger] processes@[j] == with_gpu_memory(start[j], gpu_map@),
            forall|j: int| i <= j < start.len() ==> #[trigger] processes@[j] == start[j],
        decreases start.len() - i,
    {
        let pid = processes[i].pid;
        match gpu_map.get(&pid) {
            Some(gpu) => {
                let mut e = processes[i].clone();
                e.gpu_dedicated_bytes = gpu.dedicated_bytes;
                e.gpu_shared_bytes = gpu.shared_bytes;
                processes.set(i, e);
            },
            None => {},
        }
        i = i + 1;
    }
}

/// A process matches a lowercased search text when the text is empty or
/// occurs in its lowercased name, its id, or its lowercased category label.
pub open spec fn matches_search(e: ProcessMemoryEntry, label: Seq<char>, query: Seq<char>) -> bool {
    ||| query.len() == 0
    ||| contains_text(lowercase(e.name@), query)
    ||| contains_text(decimal(e.pid as nat), query)
    ||| contains_text(lowercase(label), query)
}

/// The processes that match, in order; `labels[i]` is the category label of `ps[i]`.
pub open spec fn search_results(ps: Seq<ProcessMemoryEntry>, labels: Seq<String>, query: Seq<char>) -> Seq<ProcessMemoryEntry>
    decreases ps.len(),
{
    if ps.len() == 0 {
        Seq::empty()
    } else {
        let rest = search_results(ps.drop_last(), labels.take(ps.len() - 1), query);
        if matches_search(ps.last(), labels[ps.len() - 1]@, query) {
            rest.push(ps.last())
        } else {
            rest
        }
    }
}

/// Whether a process matches the lowercased search text.
fn process_matches(p: &ProcessMemoryEntry, label: &String, query: &Vec<char>) -> (b: bool)
    ensures
        b == matches_search(*p, label@, query@),
{
    if query.len() == 0 {
        return true;
    }
    let name = to_lowercase(p.name.as_str());
    if text_contains(&chars_of(name.as_str()), query) {
        return true;
    }
    if text_contains(&decimal_chars(p.pid as u64), query) {
        return true;
    }
    let category = to_lowercase(label.as_str());
    text_contains(&chars_of(category.as_str()), query)
}

impl RammapApp {
    /// The metric fits the tab.
    pub open spec fn well_formed(&self) -> bool {
        metric_fits_tab(self.tab, self.metric)
    }

    /// The viewer on freshly collected figures: RAM tab, treemap grouped by
    /// name, sized by working set, no search and no selection.
    pub fn new(
        summary: SystemMemorySummary,
        gpu_adapters: Vec<GpuAdapterInfo>,
        processes: Vec<ProcessMemoryEntry>,
    ) -> (app: Self)
        ensures
            app.well_formed(),
            app.tab == MemoryTab::SystemRam,
            app.summary == summary,
            app.gpu_adapters == gpu_adapters,
            app.processes == processes,
            app.search_query@ == Seq::<char>::empty(),
            app.view_mode == ViewMode::Treemap,
            app.group_mode == GroupMode::ByName,
            app.metric == MemoryMetric::WorkingSet,
            app.selected_process is None,
            app.selected_group_title is None,
    {
        RammapApp {
            tab: MemoryTab::SystemRam,
            summary,
            gpu_adapters,
            processes,
            search_query: String::new(),
            view_mode: ViewMode::Treemap,
            group_mode: GroupMode::ByName,
            metric: MemoryMetric::WorkingSet,
            selected_process: None,
            selected_group_title: None,
        }
    }

    /// Applies a message. A refresh changes nothing here and asks the host to
    /// collect the figures and hand them to `apply_refresh`.
    pub fn update_message(&mut self, message: RammapMessage) -> (action: RammapAction)
        ensures
            old(self).well_formed() ==> final(self).well_formed(),
            action == (if message is Refresh { RammapAction::Collect } else { RammapAction::Show }),
            message matches RammapMessage::SetTab(t) ==> final(self).tab == t,
            message matches RammapMessage::SetTab(t) ==> (t == MemoryTab::SystemRam
                && (old(self).metric == MemoryMetric::GpuDedicated || old(self).metric == MemoryMetric::GpuShared)
                ==> final(self).metric == MemoryMetric::WorkingSet),
            message matches RammapMessage::SetTab(t) ==> (t == MemoryTab::GpuVram
                && (old(self).metric == MemoryMetric::WorkingSet || old(self).metric == MemoryMetric::PrivateWs)
                ==> final(self).metric == MemoryMetric::GpuDedicated),
            message matches RammapMessage::SetTab(t) ==> (metric_fits_tab(t, old(self).metric)
                ==> final(self).metric == old(self).metric),
            message is ToggleMetric ==> final(self).tab == old(self).tab,
            message is ToggleMetric && metric_fits_tab(old(self).tab, old(self).metric)
                ==> final(self).metric != old(self).metric,
            message is ToggleMetric ==> (old(self).tab == MemoryTab::SystemRam ==> (
                final(self).metric == MemoryMetric::WorkingSet || final(self).metric == MemoryMetric::PrivateWs)),
            message is ToggleMetric ==> (old(self).tab == MemoryTab::GpuVram ==> (
                final(self).metric == MemoryMetric::GpuDedicated || final(self).metric == MemoryMetric::GpuShared)),
            match message {
                RammapMessage::Refresh => *final(self) == *old(self),
                RammapMessage::SetTab(tab) => *final(self) == (RammapApp {
                    tab,
                    metric: metric_after_tab(tab, old(self).metric),
                    ..*old(self)
                }),
                RammapMessage::SearchChanged(query) => *final(self) == (RammapApp {
                    search_query: query,
                    ..*old(self)
                }),
                RammapMessage::SetViewMode(mode) => *final(self) == (RammapApp { view_mode: mode, ..*old(self) }),
                RammapMessage::SetGroupMode(mode) => *final(self) == (RammapApp { group_mode: mode, ..*old(self) }),
                RammapMessage::ToggleMetric => *final(self) == (RammapApp {
                    metric: toggled_metric(old(self).tab, old(self).metric),
                    ..*old(self)
                }),
                RammapMessage::SelectProcess(process, title) => *final(self) == (RammapApp {
                    selected_process: process,
                    selected_group_title: title,
                    ..*old(self)
                }),
            },
    {
        match message {
            RammapMessage::Refresh => {
                return RammapAction::Collect;
            },
            RammapMessage::SetTab(tab) => {
                self.tab = tab;
                if tab == MemoryTab::GpuVram && self.metric != MemoryMetric::GpuDedicated
                    && self.metric != MemoryMetric::GpuShared {
                    self.metric = MemoryMetric::GpuDedicated;
                } else if tab == MemoryTab::SystemRam && (self.metric == MemoryMetric::GpuDedicated
                    || self.metric == MemoryMetric::GpuShared) {
                    self.metric = MemoryMetric::WorkingSet;
                }
            },
            RammapMessage::SearchChanged(query) => self.search_query = query,
            RammapMessage::SetViewMode(mode) => self.view_mode = mode,
            RammapMessage::SetGroupMode(mode) => self.group_mode = mode,
            RammapMessage::ToggleMetric => {
                self.metric = match self.tab {
                    MemoryTab::SystemRam => match self.metric {
                        MemoryMetric::WorkingSet => MemoryMetric::PrivateWs,
                        _ => MemoryMetric::WorkingSet,
                    },
                    MemoryTab::GpuVram => match self.metric {
                        MemoryMetric::GpuDedicated => MemoryMetric::GpuShared,
                        _ => MemoryMetric::GpuDedicated,
                    },
                };
            },
            RammapMessage::SelectProcess(process, group_title) => {
                self.selected_process = process;
                self.selected_group_title = group_title;
            },
        }
        RammapAction::Show
    }

    /// The processes the search text selects, in list order, given the
    /// category label of each process.
    pub fn filtered_processes(&self, category_labels: &Vec<String>) -> (found: Vec<ProcessMemoryEntry>)
        requires
            category_labels@.len() == self.processes@.len(),
        ensures
            found@ == search_results(self.processes@, category_labels@, lowercase(self.search_query@)),
            is_ascii_text(self.search_query@) ==> found@ == search_results(
                self.processes@,
                category_labels@,
                ascii_lowercase(self.search_query@),
            ),
            self.search_query@.len() == 0 ==> found@ == self.processes@,
            is_subsequence(found@, self.processes@),
            forall|i: int| 0 <= i < self.processes@.len()
                && contains_text(lowercase(category_labels@[i]@), lowercase(self.search_query@))
                ==> found@.contains(#[trigger] self.processes@[i]),
            forall|i: int| 0 <= i < self.processes@.len()
                && contains_text(lowercase(self.processes@[i].name@), lowercase(self.search_query@))
                ==> found@.contains(#[trigger] self.processes@[i]),
            forall|i: int| 0 <= i < self.processes@.len()
                && contains_text(decimal(self.processes@[i].pid as nat), lowercase(self.search_query@))
                ==> found@.contains(#[trigger] self.processes@[i]),
            forall|r: ProcessMemoryEntry| #[trigger] found@.contains(r) ==>
                exists|i: int| 0 <= i < self.processes@.len() && self.processes@[i] == r && {
                    let q = lowercase(self.search_query@);
                    ||| q.len() == 0
                    ||| contains_text(lowercase(self.processes@[i].name@), q)
                    ||| contains_text(decimal(self.processes@[i].pid as nat), q)
                    ||| contains_text(lowercase(category_labels@[i]@), q)
                },
    {
        proof {
            lemma_search_membership(self.processes@, category_labels@, lowercase(self.search_query@));
            lemma_search_keeps_order(self.processes@, category_labels@, lowercase(self.search_query@));
        }
        let query_text = to_lowercase(self.search_query.as_str());
        proof {
            if self.search_query@.len() == 0 {
                assert(query_text@ =~= Seq::<char>::empty());
                lemma_empty_search_keeps_all(self.processes@, category_labels@);
            }
        }
        let query = chars_of(query_text.as_str());
        let ghost ps = self.processes@;
        let ghost labels = category_labels@;
        let mut found: Vec<ProcessMemoryEntry> = Vec::new();
        let mut i: usize = 0;
        while i < self.processes.len()
            invariant
                ps == self.processes@,
                labels == category_labels@,
                labels.len() == ps.len(),
                query@ == lowercase(self.search_query@),
                i <= ps.len(),
                found@ == search_results(ps.take(i as int), labels.take(i as int), query@),
            decreases ps.len() - i,
        {
            proof {
                assert(ps.take(i + 1).drop_last() =~= ps.take(i as int));
                assert(labels.take(i + 1).take(i as int) =~= labels.take(i as int));
                assert(ps.take(i + 1).last() == ps[i as int]);
                assert(labels.take(i + 1)[i as int] == labels[i as int]);
            }
            let p = &self.processes[i];
            if process_matches(p, &category_labels[i], &query) {
                found.push(p.clone());
            }
            i = i + 1;
        }
        proof {
            assert(ps.take(ps.len() as int) =~= ps);
            assert(labels.take(ps.len() as int) =~= labels);
        }
        found
    }

    /// Takes freshly collected figures; a selected process stays selected as
    /// the first new entry with its id, or is dropped when none has it.
    pub fn apply_refresh(
        &mut self,
        summary: SystemMemorySummary,
        gpu_adapters: Vec<GpuAdapterInfo>,
        processes: Vec<ProcessMemoryEntry>,
    )
        ensures
            final(self).summary == summary,
            final(self).gpu_adapters == gpu_adapters,
            final(self).processes == processes,
            final(self).selected_process == reselected(old(self).selected_process, processes@),
            old(self).selected_process matches Some(p) ==> (final(self).selected_process matches Some(e) ==>
                exists|k: int| 0 <= k < processes@.len() && processes@[k] == e && e.pid == p.pid
                    && forall|j: int| 0 <= j < k ==> (#[trigger] processes@[j]).pid != p.pid),
            old(self).selected_process matches Some(p) ==> (final(self).selected_process is None ==>
                forall|j: int| 0 <= j < processes@.len() ==> (#[trigger] processes@[j]).pid != p.pid),
            old(self).selected_process is None ==> final(self).selected_process is None,
            final(self).tab == old(self).tab,
            final(self).search_query == old(self).search_query,
            final(self).view_mode == old(self).view_mode,
            final(self).group_mode == old(self).group_mode,
            final(self).metric == old(self).metric,
            final(self).selected_group_title == old(self).selected_group_title,
            old(self).well_formed() ==> final(self).well_formed(),
    {
        self.summary = summary;
        self.gpu_adapters = gpu_adapters;
        self.processes = processes;
        let selected = match &self.selected_process {
            Some(sel) => find_by_pid(&self.processes, sel.pid),
            None => None,
        };
        self.selected_process = selected;
    }
}

/// A copy of the first process with the given id, if any.
pub fn find_by_pid(processes: &Vec<ProcessMemoryEntry>, pid: u32) -> (found: Option<ProcessMemoryEntry>)
    ensures
        found == first_with_pid(processes@, pid),
        found matches Some(e) ==> exists|k: int| 0 <= k < processes@.len() && processes@[k] == e
            && e.pid == pid && forall|j: int| 0 <= j < k ==> (#[trigger] processes@[j]).pid != pid,
        found is None ==> forall|j: int| 0 <= j < processes@.len() ==> (#[trigger] processes@[j]).pid != pid,
{
    proof {
        lemma_first_with_pid(processes@, pid);
    }
    let mut i: usize = 0;
    proof {
        assert(processes@.skip(0) =~= processes@);
    }
    while i < processes.len()
        invariant
            i <= processes@.len(),
            first_with_pid(processes@, pid) == first_with_pid(processes@.skip(i as int), pid),
        decreases processes@.len() - i,
    {
        proof {
            assert(processes@.skip(i as int).drop_first() =~= processes@.skip(i + 1));
            assert(processes@.skip(i as int)[0] == processes@[i as int]);
        }
        if processes[i].pid == pid {
            proof {
                lemma_first_with_pid(processes@, pid);
            }
            return Some(processes[i].clone());
        }
        i = i + 1;
    }
    None
}

/// Switching to a tab always leaves a metric of that tab.
pub proof fn lemma_tab_switch_fits(tab: MemoryTab, metric: MemoryMetric)
    ensures
        metric_fits_tab(tab, metric_after_tab(tab, metric)),
{
}

/// Switching to the RAM tab from a GPU metric gives the working set, and
/// switching to the GPU tab from a RAM metric gives dedicated VRAM.
pub proof fn lemma_tab_switch_from_other_tab(metric: MemoryMetric)
    ensures
        !metric_fits_tab(MemoryTab::SystemRam, metric) ==> metric_after_tab(MemoryTab::SystemRam, metric) == MemoryMetric::WorkingSet,
        !metric_fits_tab(MemoryTab::GpuVram, metric) ==> metric_after_tab(MemoryTab::GpuVram, metric) == MemoryMetric::GpuDedicated,
        metric == MemoryMetric::GpuDedicated ==> metric_after_tab(MemoryTab::SystemRam, metric) == MemoryMetric::WorkingSet,
        metric == MemoryMetric::GpuShared ==> metric_after_tab(MemoryTab::SystemRam, metric) == MemoryMetric::WorkingSet,
        metric == MemoryMetric::WorkingSet ==> metric_after_tab(MemoryTab::GpuVram, metric) == MemoryMetric::GpuDedicated,
        metric == MemoryMetric::PrivateWs ==> metric_after_tab(MemoryTab::GpuVram, metric) == MemoryMetric::GpuDedicated,
{
}

/// A toggle on the RAM tab swaps the working set and the private commit, and
/// one on the GPU tab swaps dedicated and shared VRAM.
pub proof fn lemma_toggle_swaps(metric: MemoryMetric)
    ensures
        toggled_metric(MemoryTab::SystemRam, MemoryMetric::WorkingSet) == MemoryMetric::PrivateWs,
        toggled_metric(MemoryTab::SystemRam, MemoryMetric::PrivateWs) == MemoryMetric::WorkingSet,
        toggled_metric(MemoryTab::GpuVram, MemoryMetric::GpuDedicated) == MemoryMetric::GpuShared,
        toggled_metric(MemoryTab::GpuVram, MemoryMetric::GpuShared) == MemoryMetric::GpuDedicated,
        !metric_fits_tab(MemoryTab::SystemRam, metric) ==> toggled_metric(MemoryTab::SystemRam, metric) == MemoryMetric::WorkingSet,
        !metric_fits_tab(MemoryTab::GpuVram, metric) ==> toggled_metric(MemoryTab::GpuVram, metric) == MemoryMetric::GpuDedicated,
{
}

/// Switching to a tab keeps a metric that already belongs to it.
pub proof fn lemma_tab_switch_keeps_fitting_metric(tab: MemoryTab, metric: MemoryMetric)
    requires
        metric_fits_tab(tab, metric),
    ensures
        metric_after_tab(tab, metric) == metric,
{
}

/// Switching to the same tab twice does what switching once does.
pub proof fn lemma_tab_switch_idempotent(tab: MemoryTab, metric: MemoryMetric)
    ensures
        metric_after_tab(tab, metric_after_tab(tab, metric)) == metric_after_tab(tab, metric),
{
}

/// A toggle always leaves a metric of the current tab.
pub proof fn lemma_toggle_fits(tab: MemoryTab, metric: MemoryMetric)
    ensures
        metric_fits_tab(tab, toggled_metric(tab, metric)),
{
}

/// Toggling twice gives back a metric of the current tab.
pub proof fn lemma_toggle_twice(tab: MemoryTab, metric: MemoryMetric)
    requires
        metric_fits_tab(tab, metric),
    ensures
        toggled_metric(tab, toggled_metric(tab, metric)) == metric,
{
}

/// The first process with an id is found at a position before which no
/// process has that id, and none is found only when no process has it.
pub proof fn lemma_first_with_pid(ps: Seq<ProcessMemoryEntry>, pid: u32)
    ensures
        first_with_pid(ps, pid) matches Some(e) ==> exists|k: int| 0 <= k < ps.len() && ps[k] == e
            && e.pid == pid && forall|j: int| 0 <= j < k ==> (#[trigger] ps[j]).pid != pid,
        first_with_pid(ps, pid) is None ==> forall|j: int| 0 <= j < ps.len() ==> (#[trigger] ps[j]).pid != pid,
    decreases ps.len(),
{
    if ps.len() > 0 {
        if ps[0].pid == pid {
            assert(ps[0] == ps[0]);
        } else {
            let rest = ps.drop_first();
            lemma_first_with_pid(rest, pid);
            if let Some(e) = first_with_pid(ps, pid) {
                let k = choose|k: int| 0 <= k < rest.len() && rest[k] == e
                    && e.pid == pid && forall|j: int| 0 <= j < k ==> (#[trigger] rest[j]).pid != pid;
                assert(ps[k + 1] == e);
                assert forall|j: int| 0 <= j < k + 1 implies (#[trigger] ps[j]).pid != pid by {
                    if j > 0 {
                        assert(ps[j] == rest[j - 1]);
                    }
                }
            } else {
                assert forall|j: int| 0 <= j < ps.len() implies (#[trigger] ps[j]).pid != pid by {
                    if j > 0 {
                        assert(ps[j] == rest[j - 1]);
                    }
                }
            }
        }
    }
}

/// After a refresh the selection, if any, is a process of the new list with
/// the id that was selected, and it is dropped only when no process has that id.
pub proof fn lemma_reselection(p: ProcessMemoryEntry, ps: Seq<ProcessMemoryEntry>)
    ensures
        reselected(Some(p), ps) matches Some(q) ==> q.pid == p.pid && ps.contains(q),
        reselected(Some(p), ps) is None <==> (forall|i: int| 0 <= i < ps.len() ==> ps[i].pid != p.pid),
    decreases ps.len(),
{
    if ps.len() > 0 && ps[0].pid != p.pid {
        lemma_reselection(p, ps.drop_first());
        if let Some(q) = reselected(Some(p), ps) {
            let k = choose|k: int| 0 <= k < ps.drop_first().len() && ps.drop_first()[k] == q;
            assert(ps[k + 1] == q);
        }
        if reselected(Some(p), ps) is None {
            assert forall|i: int| 0 <= i < ps.len() implies ps[i].pid != p.pid by {
                if i > 0 {
                    assert(ps.drop_first()[i - 1] == ps[i]);
                }
            }
        } else {
            assert(!(forall|i: int| 0 <= i < ps.drop_first().len() ==> ps.drop_first()[i].pid != p.pid));
            let i = choose|i: int| 0 <= i < ps.drop_first().len() && ps.drop_first()[i].pid == p.pid;
            assert(ps[i + 1].pid == p.pid);
        }
    } else if ps.len() > 0 {
        assert(ps[0] == ps[0]);
        assert(ps.contains(ps[0]));
    }
}

/// An empty search text selects every process, in order.
pub proof fn lemma_empty_search_keeps_all(ps: Seq<ProcessMemoryEntry>, labels: Seq<String>)
    requires
        labels.len() == ps.len(),
    ensures
        search_results(ps, labels, Seq::empty()) == ps,
    decreases ps.len(),
{
    if ps.len() > 0 {
        lemma_empty_search_keeps_all(ps.drop_last(), labels.take(ps.len() - 1));
        assert(ps.drop_last().push(ps.last()) =~= ps);
    }
}

/// The search only drops processes: every result is a process of the list,
/// and there are no more results than processes.
pub proof fn lemma_search_selects_from_list(ps: Seq<ProcessMemoryEntry>, labels: Seq<String>, query: Seq<char>)
    requires
        labels.len() == ps.len(),
    ensures
        search_results(ps, labels, query).len() <= ps.len(),
        forall|i: int| 0 <= i < search_results(ps, labels, query).len()
            ==> ps.contains(#[trigger] search_results(ps, labels, query)[i]),
    decreases ps.len(),
{
    if ps.len() > 0 {
        let rest = search_results(ps.drop_last(), labels.take(ps.len() - 1), query);
        lemma_search_selects_from_list(ps.drop_last(), labels.take(ps.len() - 1), query);
        assert forall|i: int| 0 <= i < search_results(ps, labels, query).len()
            implies ps.contains(#[trigger] search_results(ps, labels, query)[i]) by {
            if i < rest.len() {
                assert(ps.drop_last().contains(rest[i]));
                let k = choose|k: int| 0 <= k < ps.drop_last().len() && ps.drop_last()[k] == rest[i];
                assert(ps[k] == rest[i]);
            } else {
                assert(ps[ps.len() - 1] == ps.last());
            }
        }
    }
}

/// `idx` picks the elements of `s` out of `t`, at increasing positions.
pub open spec fn embeds<T>(idx: Seq<int>, s: Seq<T>, t: Seq<T>) -> bool {
    &&& idx.len() == s.len()
    &&& forall|i: int| 0 <= i < idx.len() ==> 0 <= #[trigger] idx[i] < t.len() && t[idx[i]] == s[i]
    &&& forall|i: int, j: int| 0 <= i < j < idx.len() ==> idx[i] < idx[j]
}

/// `s` is `t` with some elements left out, the others in their order.
pub open spec fn is_subsequence<T>(s: Seq<T>, t: Seq<T>) -> bool {
    exists|idx: Seq<int>| #[trigger] embeds(idx, s, t)
}

proof fn lemma_contains_transitive(hay: Seq<char>, mid: Seq<char>, needle: Seq<char>)
    requires
        contains_text(hay, mid),
        contains_text(mid, needle),
    ensures
        contains_text(hay, needle),
{
    let i = choose|i: int| 0 <= i <= hay.len() - mid.len() && #[trigger] hay.subrange(i, i + mid.len()) == mid;
    let j = choose|j: int| 0 <= j <= mid.len() - needle.len() && #[trigger] mid.subrange(j, j + needle.len()) == needle;
    assert(hay.subrange(i + j, i + j + needle.len()) =~= needle) by {
        assert forall|k: int| 0 <= k < needle.len() implies hay.subrange(i + j, i + j + needle.len())[k] == needle[k] by {
            assert(hay.subrange(i, i + mid.len())[j + k] == mid[j + k]);
            assert(mid.subrange(j, j + needle.len())[k] == needle[k]);
        }
    }
}

proof fn lemma_match_monotone(e: ProcessMemoryEntry, label: Seq<char>, short: Seq<char>, long: Seq<char>)
    requires
        contains_text(long, short),
        matches_search(e, label, long),
    ensures
        matches_search(e, label, short),
{
    if short.len() > 0 {
        if contains_text(lowercase(e.name@), long) {
            lemma_contains_transitive(lowercase(e.name@), long, short);
        } else if contains_text(decimal(e.pid as nat), long) {
            lemma_contains_transitive(decimal(e.pid as nat), long, short);
        } else if contains_text(lowercase(label), long) {
            lemma_contains_transitive(lowercase(label), long, short);
        }
    }
}

/// The search keeps exactly the processes it should: a process is among the
/// results when the text is empty or occurs in its lowercased name, in its
/// id, or in its lowercased category label; and every result is such a process
/// of the list.
pub proof fn lemma_search_membership(ps: Seq<ProcessMemoryEntry>, labels: Seq<String>, q: Seq<char>)
    requires
        labels.len() == ps.len(),
    ensures
        forall|i: int| 0 <= i < ps.len() && q.len() == 0
            ==> search_results(ps, labels, q).contains(#[trigger] ps[i]),
        forall|i: int| 0 <= i < ps.len() && contains_text(lowercase(labels[i]@), q)
            ==> search_results(ps, labels, q).contains(#[trigger] ps[i]),
        forall|i: int| 0 <= i < ps.len() && contains_text(lowercase(ps[i].name@), q)
            ==> search_results(ps, labels, q).contains(#[trigger] ps[i]),
        forall|i: int| 0 <= i < ps.len() && contains_text(decimal(ps[i].pid as nat), q)
            ==> search_results(ps, labels, q).contains(#[trigger] ps[i]),
        forall|r: ProcessMemoryEntry| #[trigger] search_results(ps, labels, q).contains(r) ==>
            exists|i: int| 0 <= i < ps.len() && ps[i] == r && {
                ||| q.len() == 0
                ||| contains_text(lowercase(ps[i].name@), q)
                ||| contains_text(decimal(ps[i].pid as nat), q)
                ||| contains_text(lowercase(labels[i]@), q)
            },
    decreases ps.len(),
{
    if ps.len() > 0 {
        let n = ps.len() - 1;
        let pre = ps.drop_last();
        let pre_labels = labels.take(n);
        lemma_search_membership(pre, pre_labels, q);
        let rest = search_results(pre, pre_labels, q);
        let res = search_results(ps, labels, q);
        assert forall|i: int| 0 <= i < ps.len() && matches_search(ps[i], labels[i]@, q)
            implies res.contains(ps[i]) by {
            if i < n {
                assert(pre[i] == ps[i]);
                assert(pre_labels[i] == labels[i]);
                assert(rest.contains(pre[i]));
                let k = choose|k: int| 0 <= k < rest.len() && rest[k] == pre[i];
                assert(res[k] == rest[k]);
            } else {
                assert(res[res.len() - 1] == ps.last());
            }
        }
        assert forall|r: ProcessMemoryEntry| #[trigger] res.contains(r) implies
            exists|i: int| 0 <= i < ps.len() && ps[i] == r && matches_search(ps[i], labels[i]@, q) by {
            let k = choose|k: int| 0 <= k < res.len() && res[k] == r;
            if k < rest.len() {
                assert(res[k] == rest[k]);
                assert(rest.contains(r));
                let i = choose|i: int| 0 <= i < pre.len() && pre[i] == r && {
                    ||| q.len() == 0
                    ||| contains_text(lowercase(pre[i].name@), q)
                    ||| contains_text(decimal(pre[i].pid as nat), q)
                    ||| contains_text(lowercase(pre_labels[i]@), q)
                };
                assert(ps[i] == pre[i] && labels[i] == pre_labels[i]);
            } else {
                assert(r == ps[n]);
            }
        }
    }
}

/// The search keeps processes in list order: its results are a subsequence
/// of the list.
pub proof fn lemma_search_keeps_order(ps: Seq<ProcessMemoryEntry>, labels: Seq<String>, q: Seq<char>)
    requires
        labels.len() == ps.len(),
    ensures
        is_subsequence(search_results(ps, labels, q), ps),
    decreases ps.len(),
{
    if ps.len() == 0 {
        assert(embeds(Seq::<int>::empty(), search_results(ps, labels, q), ps));
    } else {
        let n = ps.len() - 1;
        let pre = ps.drop_last();
        let pre_labels = labels.take(n);
        lemma_search_keeps_order(pre, pre_labels, q);
        let rest = search_results(pre, pre_labels, q);
        let idx = choose|idx: Seq<int>| #[trigger] embeds(idx, rest, pre);
        let res = search_results(ps, labels, q);
        if matches_search(ps.last(), labels[n]@, q) {
            let idx2 = idx.push(n);
            assert(embeds(idx2, res, ps));
        } else {
            assert(embeds(idx, res, ps));
        }
    }
}

/// A search text that contains another selects no process the other does
/// not: its results are a subsequence of the other's.
pub proof fn lemma_search_monotone(ps: Seq<ProcessMemoryEntry>, labels: Seq<String>, short: Seq<char>, long: Seq<char>)
    requires
        labels.len() == ps.len(),
        contains_text(long, short),
    ensures
        is_subsequence(search_results(ps, labels, long), search_results(ps, labels, short)),
    decreases ps.len(),
{
    if ps.len() == 0 {
        assert(embeds(Seq::<int>::empty(), search_results(ps, labels, long), search_results(ps, labels, short)));
    } else {
        let pre = ps.drop_last();
        let pre_labels = labels.take(ps.len() - 1);
        let x = ps.last();
        let label = labels[ps.len() - 1]@;
        lemma_search_monotone(pre, pre_labels, short, long);
        let rest_long = search_results(pre, pre_labels, long);
        let rest_short = search_results(pre, pre_labels, short);
        let idx = choose|idx: Seq<int>| #[trigger] embeds(idx, rest_long, rest_short);
        let rl = search_results(ps, labels, long);
        let rs = search_results(ps, labels, short);
        if matches_search(x, label, long) {
            lemma_match_monotone(x, label, short, long);
            let idx2 = idx.push(rest_short.len() as int);
            assert(embeds(idx2, rl, rs));
        } else {
            assert(embeds(idx, rl, rs));
        }
    }
}

/// For ASCII search texts, letter case makes no difference, and a text whose
/// lowercase contains another's lowercase selects a subsequence of what the
/// other selects.
pub proof fn lemma_ascii_search_narrowing(
    ps: Seq<ProcessMemoryEntry>,
    labels: Seq<String>,
    a: Seq<char>,
    b: Seq<char>,
)
    requires
        labels.len() == ps.len(),
        is_ascii_text(a),
        is_ascii_text(b),
    ensures
        contains_text(ascii_lowercase(b), ascii_lowercase(a)) ==> is_subsequence(
            search_results(ps, labels, ascii_lowercase(b)),
            search_results(ps, labels, ascii_lowercase(a)),
        ),
        ascii_lowercase(a) == ascii_lowercase(b) ==> search_results(ps, labels, ascii_lowercase(a))
            == search_results(ps, labels, ascii_lowercase(b)),
{
    if contains_text(ascii_lowercase(b), ascii_lowercase(a)) {
        lemma_search_monotone(ps, labels, ascii_lowercase(a), ascii_lowercase(b));
    }
}

} // verus!
