//! State of the interactive explorer.

pub mod config;
pub mod files;
pub mod forest;
pub mod history;
pub mod laws;
pub mod lineage;
pub mod listing;
pub mod nav;
pub mod pidtable;
pub mod refresh;
pub mod search;
pub mod sorting;
pub mod state;
pub mod stats;
pub mod tree;

use std::time::{Duration, Instant};
use vstd::prelude::*;

use crate::models::{ProcessDetail, ProcessSnapshot};
use crate::system::{CpuTicks, MemoryInfo};
use crate::tui::theme::THEME_COUNT;
use self::config::{ChartConfig, ColumnConfig, CHART_COUNT, COLUMN_COUNT};
use self::history::{history_bounded, CpuShare, ProcessCounters, ProcessHistory};
use self::pidtable::PidTable;

verus! {

/// An entry in the tree-ordered display list.
#[derive(Debug, Clone)]
pub struct TreeEntry {
    pub snapshot_index: usize,
    pub depth: usize,
    pub prefix: String,
}

impl View for TreeEntry {
    type V = (usize, nat, Seq<char>);

    open spec fn view(&self) -> (usize, nat, Seq<char>) {
        (self.snapshot_index, self.depth as nat, self.prefix@)
    }
}

/// A unique open file path with the processes that have it open.
#[derive(Debug, Clone)]
pub struct FileEntry {
    pub path: String,
    pub openers: Vec<FileOpener>,
}

/// A process that has a particular file open.
#[derive(Debug, Clone)]
pub struct FileOpener {
    pub pid: i32,
    pub name: String,
    pub descriptor: i32,
}

impl View for FileOpener {
    type V = (i32, Seq<char>, i32);

    open spec fn view(&self) -> (i32, Seq<char>, i32) {
        (self.pid, self.name@, self.descriptor)
    }
}

impl View for FileEntry {
    type V = (Seq<char>, Seq<(i32, Seq<char>, i32)>);

    open spec fn view(&self) -> (Seq<char>, Seq<(i32, Seq<char>, i32)>) {
        (self.path@, self.openers@.map_values(|o: FileOpener| o@))
    }
}

/// The main view mode (toggled with 'v').
#[derive(Debug, Clone, Copy, PartialEq, Eq, Structural)]
pub enum MainView {
    Processes,
    Files,
}

/// Process list sort field.
#[derive(Debug, Clone, Copy, PartialEq, Eq, Structural)]
pub enum ProcessSortField {
    Unsorted,
    Pid,
    Name,
    Total,
}

/// File list sort field.
#[derive(Debug, Clone, Copy, PartialEq, Eq, Structural)]
pub enum FileSortField {
    ProcessCount,
    Filename,
}

/// Sort direction.
#[derive(Debug, Clone, Copy, PartialEq, Eq, Structural)]
pub enum SortDirection {
    Asc,
    Desc,
}

/// The opposite direction.
pub open spec fn flipped(d: SortDirection) -> SortDirection {
    match d {
        SortDirection::Asc => SortDirection::Desc,
        SortDirection::Desc => SortDirection::Asc,
    }
}

impl SortDirection {
    /// The opposite direction.
    pub fn toggle(self) -> (r: Self)
        ensures
            r == flipped(self),
    {
        match self {
            SortDirection::Asc => SortDirection::Desc,
            SortDirection::Desc => SortDirection::Asc,
        }
    }

    /// The arrow shown next to a sorted column.
    pub fn arrow(self) -> (r: &'static str)
        ensures
            r@ == (if self == SortDirection::Asc { "↑"@ } else { "↓"@ }),
    {
        match self {
            SortDirection::Asc => "↑",
            SortDirection::Desc => "↓",
        }
    }
}

} // verus!

verus! {

/// Current input mode.
#[derive(Debug, Clone, Copy, PartialEq, Eq, Structural)]
pub enum InputMode {
    Normal,
    Search,
    ReverseLookup,
}

/// System-level statistics for the summary header.
#[derive(Debug, Clone)]
pub struct SystemStats {
    /// Per core, the ticks spent in each state since the previous reading.
    pub cpu_usage: Vec<CpuTicks>,
    pub memory: Option<MemoryInfo>,
    pub total_processes: usize,
    pub total_threads: i64,
    pub total_fds: usize,
}

/// The state of the interactive explorer.
pub struct App {
    pub snapshots: Vec<ProcessSnapshot>,

    // CPU% tracking
    pub prev_cpu_times: PidTable<u64>,
    pub prev_refresh: Option<Instant>,
    pub cpu_percentages: PidTable<CpuShare>,
    pub num_cpus: usize,

    // System summary
    pub show_summary: bool,
    pub system_stats: SystemStats,
    pub prev_cpu_ticks: Vec<CpuTicks>,

    // Process view state
    pub filtered_indices: Vec<usize>,
    pub tree_entries: Vec<TreeEntry>,
    pub selected_index: usize,
    pub process_anchor: Option<i32>,

    // File view state
    pub file_entries: Vec<FileEntry>,
    pub filtered_file_indices: Vec<usize>,
    pub file_selected_index: usize,
    pub file_anchor: Option<String>,

    // View state
    pub main_view: MainView,
    pub detail_open: bool,
    pub input_mode: InputMode,
    pub search_text: String,
    pub search_active: bool,
    pub reverse_lookup_text: String,
    pub reverse_results: Vec<ProcessSnapshot>,
    pub should_quit: bool,
    pub show_all: bool,
    pub refresh_interval: Duration,
    pub last_refresh: Instant,
    pub status_message: Option<String>,

    // Sort state
    pub process_sort: ProcessSortField,
    pub process_sort_dir: SortDirection,
    pub file_sort: FileSortField,
    pub file_sort_dir: SortDirection,

    // Column configuration
    pub column_config: ColumnConfig,
    pub config_open: bool,
    pub config_selected: usize,

    // Theme
    pub theme_index: usize,
    pub theme_open: bool,

    // Help
    pub help_open: bool,
    pub help_scroll: usize,

    // Chart config
    pub chart_config: ChartConfig,
    pub chart_config_open: bool,
    pub chart_config_selected: usize,
    pub prev_counters: PidTable<ProcessCounters>,

    // Info panel
    pub info_open: bool,
    pub info_tab: usize,
    pub info_scroll: usize,
    pub info_env_selected: usize,
    pub info_detail: Option<ProcessDetail>,
    pub process_history: PidTable<ProcessHistory<CpuShare>>,

    // Detail overlay state
    pub detail_selected: usize,
    pub detail_h_scroll: usize,
}

impl App {
    /// What every operation keeps: rows point into the lists they show, the
    /// tables hold each pid once, the flag lists have one flag per column or
    /// chart, the theme exists, and no chart window is over-full.
    pub open spec fn wf(&self) -> bool {
        &&& forall|k: int| 0 <= k < self.filtered_indices@.len()
            ==> #[trigger] self.filtered_indices@[k] < self.snapshots@.len()
        &&& forall|k: int| 0 <= k < self.tree_entries@.len()
            ==> #[trigger] self.tree_entries@[k].snapshot_index < self.snapshots@.len()
        &&& forall|k: int| 0 <= k < self.filtered_file_indices@.len()
            ==> #[trigger] self.filtered_file_indices@[k] < self.file_entries@.len()
        &&& self.prev_cpu_times.wf()
        &&& self.cpu_percentages.wf()
        &&& self.prev_counters.wf()
        &&& self.process_history.wf()
        &&& forall|p: i32| #[trigger] self.process_history@.contains_key(p)
            ==> history_bounded(self.process_history@[p]@)
        &&& self.column_config.enabled@.len() == COLUMN_COUNT
        &&& self.chart_config.enabled@.len() == CHART_COUNT
        &&& self.theme_index < THEME_COUNT
    }
}

} // verus!
