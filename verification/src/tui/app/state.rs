//! Building the process and file lists, and keeping the selection on the
//! same process or path across rebuilds.
use std::time::Duration;
use vstd::prelude::*;

use crate::clock;
use crate::error::{error_message, PrexpError};
use crate::models::ProcessSnapshot;
use crate::source::ProcessSource;
use crate::text::push_str;
use super::refresh::{cpu_recorded, history_recorded};
use super::stats::stats_reread;

use super::config::{ChartConfig, ColumnConfig, Column, CHART_COUNT, COLUMN_COUNT, column_pos};
use super::files::{entries_view, file_entries_spec, file_filter_spec, filter_entries, group_files, sort_entries, EntryView};
use super::listing::{
    anchored_file_row, anchored_row, build_process_rows, clamp_selection, find_path_row, find_pid_row,
    path_at, pid_at, process_rows, row_indices,
};
use super::pidtable::PidTable;
use super::{App, FileEntry, FileSortField, InputMode, MainView, ProcessSortField, SortDirection, SystemStats};

verus! {

/// The text of an optional string.
pub open spec fn opt_text(o: Option<String>) -> Option<Seq<char>> {
    match o {
        Some(s) => Some(s@),
        None => None,
    }
}

/// `new` is `old` with the process list rebuilt: the rows of
/// `process_rows`, and the selection on the remembered pid when it is still
/// listed, else on the old row kept within the list.
pub open spec fn process_list_rebuilt(old: App, new: App) -> bool {
    let rows = process_rows(
        old.snapshots@, old.show_all, old.search_text@, old.main_view, old.process_sort, old.process_sort_dir,
    );
    let fi = row_indices(rows);
    let sel = anchored_row(old.snapshots@, fi, old.process_anchor, old.selected_index);
    &&& new.tree_entries@.map_values(|e: super::TreeEntry| e@) == rows
    &&& new.filtered_indices@ == fi
    &&& new.selected_index == sel
    &&& new.process_anchor == pid_at(old.snapshots@, fi, sel)
    &&& new == (App {
        tree_entries: new.tree_entries,
        filtered_indices: new.filtered_indices,
        selected_index: new.selected_index,
        process_anchor: new.process_anchor,
        ..old
    })
}

/// The file entries shown for `a`.
pub open spec fn file_rows(a: App) -> Seq<EntryView> {
    file_entries_spec(a.snapshots@, a.show_all, a.file_sort, a.file_sort_dir)
}

/// The positions of the file entries listed for `a` under its search.
pub open spec fn file_row_indices(a: App) -> Seq<usize> {
    file_filter_spec(
        file_rows(a),
        a.search_text@,
        a.search_text@.len() > 0 && a.main_view == MainView::Files,
    )
}

/// `new` is `old` with the file list rebuilt, the selection kept on the
/// remembered path when it is still listed.
pub open spec fn file_list_rebuilt(old: App, new: App) -> bool {
    let es = file_rows(old);
    let fi = file_row_indices(old);
    let sel = anchored_file_row(es, fi, opt_text(old.file_anchor), old.file_selected_index);
    &&& entries_view(new.file_entries@) == es
    &&& new.filtered_file_indices@ == fi
    &&& new.file_selected_index == sel
    &&& opt_text(new.file_anchor) == path_at(es, fi, sel)
    &&& new == (App {
        file_entries: new.file_entries,
        filtered_file_indices: new.filtered_file_indices,
        file_selected_index: new.file_selected_index,
        file_anchor: new.file_anchor,
        ..old
    })
}

/// Both lists rebuilt, the process list first.
pub open spec fn lists_rebuilt(old: App, new: App) -> bool {
    exists|mid: App| process_list_rebuilt(old, mid) && file_list_rebuilt(mid, new)
}

/// The list of the current view rebuilt under the search.
pub open spec fn view_refiltered(a: App, b: App) -> bool {
    match a.main_view {
        MainView::Processes => process_list_rebuilt(a, b),
        MainView::Files => file_list_rebuilt(a, b),
    }
}

/// The state after recording the snapshots `s` in the histories, with
/// rates over the time since the previous refresh (none on the first).
pub open spec fn history_step(a: App, s: Seq<ProcessSnapshot>, b: App) -> bool {
    exists|elapsed_ns: u64| {
        &&& (a.prev_refresh is None ==> elapsed_ns == 0)
        &&& #[trigger] history_recorded(a, b, s, elapsed_ns)
    }
}

/// The state after a successful refresh that read the snapshots `s`: CPU
/// shares, then histories recorded; `s` installed and both lists rebuilt;
/// the summary re-read when it is shown; the status line cleared.
pub open spec fn refreshed_with(a: App, s: Seq<ProcessSnapshot>, b: App) -> bool {
    exists|m1: App, m2: App, m3: App, m4: App|
        #![trigger cpu_recorded(a, s, m1), history_step(m1, s, m2), installed(m2, s, m3), summary_reread(m3, m4)]
    {
        &&& cpu_recorded(a, s, m1)
        &&& history_step(m1, s, m2)
        &&& installed(m2, s, m3)
        &&& summary_reread(m3, m4)
        &&& b == (App { last_refresh: b.last_refresh, status_message: None, ..m4 })
    }
}

/// The state after installing the snapshots `s`: both lists rebuilt.
pub open spec fn installed(a: App, s: Seq<ProcessSnapshot>, b: App) -> bool {
    &&& b.snapshots@ == s
    &&& lists_rebuilt(App { snapshots: b.snapshots, ..a }, b)
}

/// The state after re-reading the summary when it is shown.
pub open spec fn summary_reread(a: App, b: App) -> bool {
    if a.show_summary { stats_reread(a, b) } else { b == a }
}

/// The state after a refresh: on success (no status line) the snapshots
/// read are recorded and installed, the settings kept and the lists
/// current; on failure only the status line changes, to the error.
#[verifier::opaque]
pub open spec fn refreshed(a: App, b: App) -> bool {
    &&& same_settings(a, b)
    &&& b.status_message is None ==> lists_current(b) && refreshed_with(a, b.snapshots@, b)
    &&& b.status_message is Some ==> exists|e: PrexpError| {
        &&& b.status_message.unwrap()@ == "Refresh failed: "@ + error_message(e)
        &&& b == (App { status_message: b.status_message, ..a })
    }
}

/// The state after showing or hiding the unreadable processes: the flag
/// flipped, the lists rebuilt, and the status line saying which.
#[verifier::opaque]
pub open spec fn show_all_toggled(a: App, b: App) -> bool {
    &&& b.show_all == !a.show_all
    &&& b.status_message is Some
    &&& b.status_message.unwrap()@ == "Show all: "@ + (if b.show_all { "on"@ } else { "off"@ })
    &&& exists|mid: App| {
        &&& lists_rebuilt(App { show_all: !a.show_all, ..a }, mid)
        &&& b == (App { status_message: b.status_message, ..mid })
    }
}

impl App {
    /// The selected process, if any.
    pub fn selected_snapshot(&self) -> (r: Option<&ProcessSnapshot>)
        ensures
            r == (if self.selected_index < self.filtered_indices@.len()
                && self.filtered_indices@[self.selected_index as int] < self.snapshots@.len() {
                Some(&self.snapshots@[self.filtered_indices@[self.selected_index as int] as int])
            } else {
                None
            }),
    {
        if self.selected_index < self.filtered_indices.len() {
            let i = self.filtered_indices[self.selected_index];
            if i < self.snapshots.len() {
                return Some(&self.snapshots[i]);
            }
        }
        None
    }

    /// The selected file entry, if any.
    pub fn selected_file_entry(&self) -> (r: Option<&FileEntry>)
        ensures
            r == (if self.file_selected_index < self.filtered_file_indices@.len()
                && self.filtered_file_indices@[self.file_selected_index as int] < self.file_entries@.len() {
                Some(&self.file_entries@[self.filtered_file_indices@[self.file_selected_index as int] as int])
            } else {
                None
            }),
    {
        if self.file_selected_index < self.filtered_file_indices.len() {
            let i = self.filtered_file_indices[self.file_selected_index];
            if i < self.file_entries.len() {
                return Some(&self.file_entries[i]);
            }
        }
        None
    }

    /// Remembers the pid of the selected process.
    pub fn update_process_anchor(&mut self)
        ensures
            *final(self) == (App {
                process_anchor: pid_at(old(self).snapshots@, old(self).filtered_indices@, old(self).selected_index),
                ..*old(self)
            }),
    {
        let anchor = match self.selected_snapshot() {
            Some(s) => Some(s.pid),
            None => None,
        };
        self.process_anchor = anchor;
    }

    /// Remembers the path of the selected file entry.
    pub fn update_file_anchor(&mut self)
        ensures
            opt_text(final(self).file_anchor) == path_at(
                entries_view(old(self).file_entries@),
                old(self).filtered_file_indices@,
                old(self).file_selected_index,
            ),
            *final(self) == (App { file_anchor: final(self).file_anchor, ..*old(self) }),
    {
        let anchor = match self.selected_file_entry() {
            Some(e) => Some(e.path.clone()),
            None => None,
        };
        self.file_anchor = anchor;
    }

    /// Rebuilds the process list and puts the selection back on the
    /// remembered process.
    pub fn rebuild_process_list(&mut self)
        requires
            old(self).wf(),
        ensures
            final(self).wf(),
            process_list_rebuilt(*old(self), *final(self)),
    {
        let (entries, fi) = build_process_rows(
            &self.snapshots,
            self.show_all,
            &self.search_text,
            self.main_view,
            self.process_sort,
            self.process_sort_dir,
        );
        let sel = match self.process_anchor {
            Some(p) => match find_pid_row(&self.snapshots, &fi, p) {
                Some(k) => k,
                None => clamp_selection(self.selected_index, fi.len()),
            },
            None => clamp_selection(self.selected_index, fi.len()),
        };
        self.tree_entries = entries;
        self.filtered_indices = fi;
        self.selected_index = sel;
        self.update_process_anchor();
    }

    /// Rebuilds the file list and puts the selection back on the remembered
    /// path.
    #[verifier::rlimit(40)]
    pub fn rebuild_file_list(&mut self)
        requires
            old(self).wf(),
        ensures
            final(self).wf(),
            file_list_rebuilt(*old(self), *final(self)),
    {
        let grouped = group_files(&self.snapshots, self.show_all);
        let entries = sort_entries(&grouped, self.file_sort, self.file_sort_dir);
        let active = !self.search_text.as_str().is_empty() && self.main_view == MainView::Files;
        let fi = filter_entries(&entries, &self.search_text, active);
        let sel = match &self.file_anchor {
            Some(p) => match find_path_row(&entries, &fi, p) {
                Some(k) => k,
                None => clamp_selection(self.file_selected_index, fi.len()),
            },
            None => clamp_selection(self.file_selected_index, fi.len()),
        };
        let ghost es = file_rows(*old(self));
        let ghost fis = file_row_indices(*old(self));
        assert(entries_view(entries@) == es);
        assert(fi@ == fis);
        assert(sel == anchored_file_row(es, fis, opt_text(old(self).file_anchor), old(self).file_selected_index));
        self.file_entries = entries;
        self.filtered_file_indices = fi;
        self.file_selected_index = sel;
        self.update_file_anchor();
    }

    /// Rebuilds the process list, then the file list.
    pub fn rebuild_all(&mut self)
        requires
            old(self).wf(),
        ensures
            final(self).wf(),
            lists_rebuilt(*old(self), *final(self)),
    {
        self.rebuild_process_list();
        let ghost mid = *self;
        self.rebuild_file_list();
    }
}

/// Settings that a refresh leaves as they are.
pub open spec fn same_settings(old: App, new: App) -> bool {
    &&& new.show_all == old.show_all
    &&& new.search_text == old.search_text
    &&& new.main_view == old.main_view
    &&& new.process_sort == old.process_sort
    &&& new.process_sort_dir == old.process_sort_dir
    &&& new.file_sort == old.file_sort
    &&& new.file_sort_dir == old.file_sort_dir
    &&& new.column_config == old.column_config
    &&& new.chart_config == old.chart_config
    &&& new.show_summary == old.show_summary
    &&& new.should_quit == old.should_quit
    &&& new.input_mode == old.input_mode
}

/// The lists of `a` are those of its snapshots under its settings.
pub open spec fn lists_current(a: App) -> bool {
    &&& a.filtered_indices@ == row_indices(process_rows(
        a.snapshots@, a.show_all, a.search_text@, a.main_view, a.process_sort, a.process_sort_dir,
    ))
    &&& a.tree_entries@.map_values(|e: super::TreeEntry| e@) == process_rows(
        a.snapshots@, a.show_all, a.search_text@, a.main_view, a.process_sort, a.process_sort_dir,
    )
    &&& entries_view(a.file_entries@) == file_rows(a)
    &&& a.filtered_file_indices@ == file_row_indices(a)
}

impl App {
    /// A fresh explorer refreshing every `refresh_interval`: no processes
    /// yet, the process view in tree order, files by number of processes
    /// descending, every column but the state column, no charts, the first
    /// theme, and one CPU until told otherwise.
    pub fn new(refresh_interval: Duration) -> (app: Self)
        ensures
            app.wf(),
            app.snapshots@.len() == 0,
            app.prev_cpu_times@ == Map::<i32, u64>::empty(),
            app.prev_refresh is None,
            app.cpu_percentages@ == Map::<i32, super::history::CpuShare>::empty(),
            app.num_cpus == 1,
            !app.show_summary,
            app.system_stats.cpu_usage@.len() == 0,
            app.system_stats.memory is None,
            app.system_stats.total_processes == 0,
            app.system_stats.total_threads == 0,
            app.system_stats.total_fds == 0,
            app.prev_cpu_ticks@.len() == 0,
            app.filtered_indices@.len() == 0,
            app.tree_entries@.len() == 0,
            app.selected_index == 0,
            app.process_anchor is None,
            app.file_entries@.len() == 0,
            app.filtered_file_indices@.len() == 0,
            app.file_selected_index == 0,
            app.file_anchor is None,
            app.main_view == MainView::Processes,
            !app.detail_open,
            app.input_mode == InputMode::Normal,
            app.search_text@.len() == 0,
            !app.search_active,
            app.reverse_lookup_text@.len() == 0,
            app.reverse_results@.len() == 0,
            !app.should_quit,
            !app.show_all,
            app.refresh_interval == refresh_interval,
            app.status_message is None,
            app.process_sort == ProcessSortField::Unsorted,
            app.process_sort_dir == SortDirection::Asc,
            app.file_sort == FileSortField::ProcessCount,
            app.file_sort_dir == SortDirection::Desc,
            app.column_config.enabled@ == Seq::new(COLUMN_COUNT as nat, |i: int| i != column_pos(Column::State)),
            !app.config_open,
            app.config_selected == 0,
            app.theme_index == 0,
            !app.theme_open,
            !app.help_open,
            app.help_scroll == 0,
            app.chart_config.enabled@ == Seq::new(CHART_COUNT as nat, |i: int| false),
            !app.chart_config_open,
            app.chart_config_selected == 0,
            app.prev_counters@ == Map::<i32, super::history::ProcessCounters>::empty(),
            !app.info_open,
            app.info_tab == 0,
            app.info_scroll == 0,
            app.info_env_selected == 0,
            app.info_detail is None,
            app.process_history@ == Map::<i32, super::history::ProcessHistory<super::history::CpuShare>>::empty(),
            app.detail_selected == 0,
            app.detail_h_scroll == 0,
    {
        App {
            snapshots: Vec::new(),
            prev_cpu_times: PidTable::new(),
            prev_refresh: None,
            cpu_percentages: PidTable::new(),
            num_cpus: 1,
            show_summary: false,
            system_stats: SystemStats {
                cpu_usage: Vec::new(),
                memory: None,
                total_processes: 0,
                total_threads: 0,
                total_fds: 0,
            },
            prev_cpu_ticks: Vec::new(),
            filtered_indices: Vec::new(),
            tree_entries: Vec::new(),
            selected_index: 0,
            process_anchor: None,
            file_entries: Vec::new(),
            filtered_file_indices: Vec::new(),
            file_selected_index: 0,
            file_anchor: None,
            main_view: MainView::Processes,
            detail_open: false,
            input_mode: InputMode::Normal,
            search_text: String::new(),
            search_active: false,
            reverse_lookup_text: String::new(),
            reverse_results: Vec::new(),
            should_quit: false,
            show_all: false,
            refresh_interval,
            last_refresh: clock::now(),
            status_message: None,
            process_sort: ProcessSortField::Unsorted,
            process_sort_dir: SortDirection::Asc,
            file_sort: FileSortField::ProcessCount,
            file_sort_dir: SortDirection::Desc,
            column_config: ColumnConfig::default(),
            config_open: false,
            config_selected: 0,
            theme_index: 0,
            theme_open: false,
            help_open: false,
            help_scroll: 0,
            chart_config: ChartConfig::default(),
            chart_config_open: false,
            chart_config_selected: 0,
            prev_counters: PidTable::new(),
            info_open: false,
            info_tab: 0,
            info_scroll: 0,
            info_env_selected: 0,
            info_detail: None,
            process_history: PidTable::new(),
            detail_selected: 0,
            detail_h_scroll: 0,
        }
    }

    /// Records the histories of a refresh; rates are over the time since
    /// the previous CPU reading, none when there was none.
    pub fn update_history(&mut self, snapshots: &[ProcessSnapshot])
        requires
            old(self).wf(),
        ensures
            final(self).wf(),
            history_step(*old(self), snapshots@, *final(self)),
    {
        let elapsed_ns: u64 = match &self.prev_refresh {
            Some(prev) => {
                let now = clock::now();
                let n = clock::nanos_between(prev, &now);
                if n > u64::MAX as u128 { u64::MAX } else { n as u64 }
            },
            None => 0,
        };
        self.record_history(snapshots, elapsed_ns);
    }

    /// Takes a new set of snapshots and rebuilds both lists.
    pub fn install_snapshots(&mut self, snapshots: Vec<ProcessSnapshot>)
        requires
            old(self).wf(),
        ensures
            final(self).wf(),
            lists_rebuilt(App { snapshots, ..*old(self) }, *final(self)),
    {
        self.snapshots = snapshots;
        let ghost with_new = *self;
        self.filtered_indices = Vec::new();
        self.tree_entries = Vec::new();
        self.rebuild_process_list();
        let ghost mid = *self;
        self.rebuild_file_list();
        proof {
            assert(process_list_rebuilt(with_new, mid));
            assert(file_list_rebuilt(mid, *self));
        }
    }

    /// Records the snapshots `snapshots` just read: CPU shares and
    /// histories, then the lists, then the summary when it is shown; clears
    /// the status line.
    #[verifier::rlimit(80)]
    fn take_snapshots<S: ProcessSource>(&mut self, snapshots: Vec<ProcessSnapshot>, source: &S)
        requires
            old(self).wf(),
        ensures
            final(self).wf(),
            same_settings(*old(self), *final(self)),
            final(self).status_message is None,
            lists_current(*final(self)),
            refreshed_with(*old(self), snapshots@, *final(self)),
    {
        let ghost read = snapshots@;
        self.compute_cpu_percentages(&snapshots);
        let ghost m1 = *self;
        self.update_history(&snapshots);
        let ghost m2 = *self;
        self.install_snapshots(snapshots);
        let ghost m3 = *self;
        if self.show_summary {
            self.refresh_system_stats(source);
        }
        let ghost m4 = *self;
        self.last_refresh = clock::now();
        self.status_message = None;
        proof {
            assert(lists_current(m3));
            assert(cpu_recorded(*old(self), read, m1));
            assert(history_step(m1, read, m2));
            assert(installed(m2, read, m3));
            assert(summary_reread(m3, m4));
        }
    }

    /// Reads all processes from `source`. On success the CPU shares and
    /// histories are recorded, the lists rebuilt, the summary re-read when it
    /// is shown, and the status line cleared; on failure only the status
    /// line changes, to the error.
    pub fn refresh<S: ProcessSource>(&mut self, source: &S)
        requires
            old(self).wf(),
        ensures
            final(self).wf(),
            refreshed(*old(self), *final(self)),
    {
        proof { reveal(refreshed); }
        match source.snapshot_all() {
            Ok(snapshots) => self.take_snapshots(snapshots, source),
            Err(e) => self.report_refresh_error(&e),
        }
    }

    /// Whether the refresh interval has passed since the last refresh.
    pub fn needs_refresh(&self) -> (b: bool) {
        clock::has_elapsed(&self.last_refresh, &self.refresh_interval)
    }

    /// Shows or hides the processes whose resources could not be read, and
    /// says which in the status line.
    pub fn toggle_show_all(&mut self)
        requires
            old(self).wf(),
        ensures
            final(self).wf(),
            show_all_toggled(*old(self), *final(self)),
    {
        proof { reveal(show_all_toggled); }
        self.show_all = !self.show_all;
        self.rebuild_all();
        let ghost mid = *self;
        let mut msg = String::new();
        push_str(&mut msg, "Show all: ");
        if self.show_all {
            push_str(&mut msg, "on");
        } else {
            push_str(&mut msg, "off");
        }
        self.status_message = Some(msg);
        proof {
            reveal_strlit("on");
            reveal_strlit("off");
        }
    }

    /// Rebuilds the list of the current view under the search.
    pub fn apply_filter(&mut self)
        requires
            old(self).wf(),
        ensures
            final(self).wf(),
            view_refiltered(*old(self), *final(self)),
    {
        match self.main_view {
            MainView::Processes => self.rebuild_process_list(),
            MainView::Files => self.rebuild_file_list(),
        }
    }

    /// Switches between the process and the file view, dropping the search
    /// and the status line.
    pub fn toggle_view(&mut self)
        ensures
            final(self).search_text@.len() == 0,
            *final(self) == (App {
                main_view: if old(self).main_view == MainView::Processes { MainView::Files } else { MainView::Processes },
                search_text: final(self).search_text,
                search_active: false,
                status_message: None,
                ..*old(self)
            }),
    {
        self.main_view = match self.main_view {
            MainView::Processes => MainView::Files,
            MainView::Files => MainView::Processes,
        };
        self.search_text = String::new();
        self.search_active = false;
        self.status_message = None;
    }

    /// Reports a failed refresh in the status line.
    pub fn report_refresh_error(&mut self, e: &PrexpError)
        ensures
            final(self).status_message is Some,
            final(self).status_message.unwrap()@ == "Refresh failed: "@ + error_message(*e),
            *final(self) == (App { status_message: final(self).status_message, ..*old(self) }),
    {
        let mut msg = String::new();
        push_str(&mut msg, "Refresh failed: ");
        let text = e.message();
        push_str(&mut msg, text.as_str());
        self.status_message = Some(msg);
    }
}

} // verus!
