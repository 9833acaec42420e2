//! The texts of the viewer's header: the metric button and the subtitle.

use vstd::prelude::*;

use crate::app_core::RammapApp;
use crate::decimal::{decimal, decimal_chars};
use crate::gpu::GpuAdapterInfo;
use crate::memory::{format_bytes, format_bytes_text};
use crate::text::push_chars;
use crate::types::{MemoryMetric, MemoryTab};

verus! {

/// The label of the metric button.
pub open spec fn metric_label_text(metric: MemoryMetric) -> Seq<char> {
    match metric {
        MemoryMetric::WorkingSet => "Metric: Working Set"@,
        MemoryMetric::PrivateWs => "Metric: Private (Commit)"@,
        MemoryMetric::GpuDedicated => "Metric: Dedicated VRAM"@,
        MemoryMetric::GpuShared => "Metric: Shared GPU Memory"@,
    }
}

/// The subtitle part of one adapter, numbered from 0.
pub open spec fn adapter_line(index: nat, g: GpuAdapterInfo) -> Seq<char> {
    "GPU "@ + decimal(index) + ": "@ + g.name@
        + " | Dedicated VRAM: "@ + format_bytes_text(g.dedicated_usage_bytes as nat)
        + " / "@ + format_bytes_text(g.dedicated_vram_bytes as nat)
        + " | Shared: "@ + format_bytes_text(g.shared_usage_bytes as nat)
        + " / "@ + format_bytes_text(g.shared_ram_bytes as nat)
}

/// The adapter parts, joined by " | ".
pub open spec fn adapter_lines(gs: Seq<GpuAdapterInfo>) -> Seq<char>
    decreases gs.len(),
{
    if gs.len() == 0 {
        Seq::empty()
    } else if gs.len() == 1 {
        adapter_line(0, gs[0])
    } else {
        adapter_lines(gs.drop_last()) + " | "@ + adapter_line((gs.len() - 1) as nat, gs.last())
    }
}

/// What the GPU tab says of the adapters.
pub open spec fn gpu_summary_text(gs: Seq<GpuAdapterInfo>) -> Seq<char> {
    if gs.len() == 0 {
        "GPU: No DirectX 11/12 GPU detected"@
    } else {
        adapter_lines(gs)
    }
}

/// The subtitle under the title: the process count, then the RAM and commit
/// figures on the RAM tab or the adapters on the GPU tab.
pub open spec fn subtitle_text(app: RammapApp) -> Seq<char> {
    match app.tab {
        MemoryTab::SystemRam => "Processes: "@ + decimal(app.summary.process_count as nat)
            + " | Physical RAM: "@ + format_bytes_text(app.summary.total_phys_bytes as nat)
            + " (Used: "@ + format_bytes_text(app.summary.used_phys_bytes as nat)
            + " / "@ + decimal(app.summary.memory_load_pct as nat)
            + "%) | Commit: "@ + format_bytes_text(app.summary.commit_total_bytes as nat)
            + " / "@ + format_bytes_text(app.summary.commit_limit_bytes as nat),
        MemoryTab::GpuVram => "Processes: "@ + decimal(app.summary.process_count as nat)
            + " | "@ + gpu_summary_text(app.gpu_adapters@),
    }
}

/// The line beside the search box: the selected group, else the selected
/// process with its category label and figures, else a hint.
pub open spec fn selection_text_of(app: RammapApp, category_label: Seq<char>) -> Seq<char> {
    match app.selected_group_title {
        Some(title) => "🎯 Selected Group: "@ + title@,
        None => match app.selected_process {
            Some(p) => "🎯 ["@ + decimal(p.pid as nat) + "] "@ + p.name@
                + " ("@ + category_label + ") | WS: "@ + format_bytes_text(p.working_set_bytes as nat)
                + " | Private: "@ + format_bytes_text(p.private_bytes as nat)
                + " | GPU VRAM: "@ + format_bytes_text(p.gpu_dedicated_bytes as nat)
                + " | GPU Shared: "@ + format_bytes_text(p.gpu_shared_bytes as nat),
            None => "💡 Click any 2D tile or table row to inspect details. Switch between System RAM and GPU VRAM tabs above."@,
        },
    }
}

fn push_bytes(s: &mut String, bytes: u64)
    ensures
        final(s)@ == old(s)@ + format_bytes_text(bytes as nat),
{
    let text = format_bytes(bytes);
    s.append(text.as_str());
}

fn push_adapter_line(s: &mut String, index: usize, g: &GpuAdapterInfo)
    ensures
        final(s)@ == old(s)@ + adapter_line(index as nat, *g),
{
    let ghost start = s@;
    s.append("GPU ");
    push_chars(s, &decimal_chars(index as u64));
    s.append(": ");
    s.append(g.name.as_str());
    s.append(" | Dedicated VRAM: ");
    push_bytes(s, g.dedicated_usage_bytes);
    s.append(" / ");
    push_bytes(s, g.dedicated_vram_bytes);
    s.append(" | Shared: ");
    push_bytes(s, g.shared_usage_bytes);
    s.append(" / ");
    push_bytes(s, g.shared_ram_bytes);
    assert(s@ =~= start + adapter_line(index as nat, *g));
}

fn push_gpu_summary(s: &mut String, gs: &Vec<GpuAdapterInfo>)
    ensures
        final(s)@ == old(s)@ + gpu_summary_text(gs@),
{
    if gs.len() == 0 {
        s.append("GPU: No DirectX 11/12 GPU detected");
        return;
    }
    let ghost start = s@;
    let mut i: usize = 0;
    while i < gs.len()
        invariant
            0 < gs@.len(),
            i <= gs@.len(),
            s@ == start + adapter_lines(gs@.take(i as int)),
        decreases gs@.len() - i,
    {
        let ghost before = s@;
        proof {
            assert(gs@.take(i + 1).drop_last() =~= gs@.take(i as int));
            assert(gs@.take(i + 1).last() == gs@[i as int]);
        }
        if i > 0 {
            s.append(" | ");
        }
        push_adapter_line(s, i, &gs[i]);
        proof {
            if i == 0 {
                assert(gs@.take(0).len() == 0);
                assert(adapter_lines(gs@.take(0)) == Seq::<char>::empty());
                assert(gs@.take(1)[0] == gs@[0]);
                assert(s@ =~= start + adapter_lines(gs@.take(1)));
            } else {
                assert(s@ =~= start + adapter_lines(gs@.take(i + 1)));
            }
        }
        i = i + 1;
    }
    proof {
        assert(gs@.take(gs@.len() as int) =~= gs@);
    }
}

impl RammapApp {
    /// The label of the metric button.
    pub fn metric_label(&self) -> (label: &'static str)
        ensures
            label@ == metric_label_text(self.metric),
    {
        match self.metric {
            MemoryMetric::WorkingSet => "Metric: Working Set",
            MemoryMetric::PrivateWs => "Metric: Private (Commit)",
            MemoryMetric::GpuDedicated => "Metric: Dedicated VRAM",
            MemoryMetric::GpuShared => "Metric: Shared GPU Memory",
        }
    }

    /// The line beside the search box, given the category label of the
    /// selected process.
    pub fn selection_text(&self, category_label: &str) -> (text: String)
        ensures
            text@ == selection_text_of(*self, category_label@),
    {
        let mut s = String::new();
        match &self.selected_group_title {
            Some(title) => {
                s.append("🎯 Selected Group: ");
                s.append(title.as_str());
            },
            None => match &self.selected_process {
                Some(p) => {
                    s.append("🎯 [");
                    push_chars(&mut s, &decimal_chars(p.pid as u64));
                    s.append("] ");
                    s.append(p.name.as_str());
                    s.append(" (");
                    s.append(category_label);
                    s.append(") | WS: ");
                    push_bytes(&mut s, p.working_set_bytes);
                    s.append(" | Private: ");
                    push_bytes(&mut s, p.private_bytes);
                    s.append(" | GPU VRAM: ");
                    push_bytes(&mut s, p.gpu_dedicated_bytes);
                    s.append(" | GPU Shared: ");
                    push_bytes(&mut s, p.gpu_shared_bytes);
                },
                None => {
                    s.append("💡 Click any 2D tile or table row to inspect details. Switch between System RAM and GPU VRAM tabs above.");
                },
            },
        }
        assert(s@ =~= selection_text_of(*self, category_label@));
        s
    }

    /// The subtitle under the title.
    pub fn subtitle(&self) -> (text: String)
        ensures
            text@ == subtitle_text(*self),
    {
        let mut s = String::new();
        let ghost empty = s@;
        s.append("Processes: ");
        push_chars(&mut s, &decimal_chars(self.summary.process_count as u64));
        match self.tab {
            MemoryTab::SystemRam => {
                s.append(" | Physical RAM: ");
                push_bytes(&mut s, self.summary.total_phys_bytes);
                s.append(" (Used: ");
                push_bytes(&mut s, self.summary.used_phys_bytes);
                s.append(" / ");
                push_chars(&mut s, &decimal_chars(self.summary.memory_load_pct as u64));
                s.append("%) | Commit: ");
                push_bytes(&mut s, self.summary.commit_total_bytes);
                s.append(" / ");
                push_bytes(&mut s, self.summary.commit_limit_bytes);
            },
            MemoryTab::GpuVram => {
                s.append(" | ");
                push_gpu_summary(&mut s, &self.gpu_adapters);
            },
        }
        assert(s@ =~= subtitle_text(*self));
        s
    }
}

} // verus!
