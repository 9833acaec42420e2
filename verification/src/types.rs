//! The choices of the viewer and the messages that change them.

use vstd::prelude::*;

use crate::memory::ProcessMemoryEntry;

verus! {

/// What the viewer is started with.
#[derive(Clone, PartialEq, Default)]
pub struct AppInput;

/// Which memory the viewer shows.
#[derive(Debug, Clone, Copy, PartialEq, Eq, Structural)]
pub enum MemoryTab {
    SystemRam,
    GpuVram,
}

/// How processes are drawn.
#[derive(Debug, Clone, Copy, PartialEq, Eq, Structural)]
pub enum ViewMode {
    Treemap,
    List,
}

/// How processes are put together.
#[derive(Debug, Clone, Copy, PartialEq, Eq, Structural)]
pub enum GroupMode {
    Individual,
    ByName,
    ByCategory,
}

/// The figure by which processes are sized and ordered.
#[derive(Debug, Clone, Copy, PartialEq, Eq, Structural)]
pub enum MemoryMetric {
    WorkingSet,
    PrivateWs,
    GpuDedicated,
    GpuShared,
}

/// What the user asks of the viewer.
#[derive(Debug, Clone)]
pub enum RammapMessage {
    Refresh,
    SetTab(MemoryTab),
    SearchChanged(String),
    SetViewMode(ViewMode),
    SetGroupMode(GroupMode),
    ToggleMetric,
    SelectProcess(Option<ProcessMemoryEntry>, Option<String>),
}

} // verus!
