use std::time::Duration;

use prexp::error::PrexpError;
use prexp::models::{
    DiskIo, OpenResource, ProcessActivity, ProcessDetail, ProcessMemory, ProcessSnapshot, ProcessState,
    ResourceKind,
};
use prexp::source::ProcessSource;
use prexp::system::{CpuTicks, DiskCounters, MemoryInfo, NetworkCounters};
use prexp::tui::app::history::{push_sample, CpuShare, ProcessHistory, MAX_SAMPLES};
use prexp::tui::app::pidtable::{pid_listed, PidTable};
use prexp::tui::app::search::next_wrapping;
use prexp::tui::app::{App, InputMode, MainView, ProcessSortField, SortDirection};
use prexp::tui::keys::{apply_command, handle_key, key_command, Command, Effect, Key};
use std::collections::VecDeque;

/// A source that serves a fixed list of processes.
struct FixedSource {
    snapshots: Vec<ProcessSnapshot>,
}

impl ProcessSource for FixedSource {
    fn snapshot_all(&self) -> Result<Vec<ProcessSnapshot>, PrexpError> {
        Ok(self.snapshots.clone())
    }

    fn snapshot_pid(&self, pid: i32) -> Result<ProcessSnapshot, PrexpError> {
        self.snapshots.iter().find(|s| s.pid == pid).cloned().ok_or(PrexpError::ProcessNotFound { pid })
    }

    fn find_by_path(&self, path: &str) -> Result<Vec<ProcessSnapshot>, PrexpError> {
        Ok(self
            .snapshots
            .iter()
            .filter(|s| s.resources.iter().any(|r| r.path.as_deref() == Some(path)))
            .cloned()
            .collect())
    }

    fn cpu_ticks(&self) -> Result<Vec<CpuTicks>, PrexpError> {
        Err(PrexpError::Backend("none".into()))
    }

    fn memory_info(&self) -> Result<MemoryInfo, PrexpError> {
        Err(PrexpError::Backend("none".into()))
    }

    fn network_counters(&self) -> Result<NetworkCounters, PrexpError> {
        Err(PrexpError::Backend("none".into()))
    }

    fn disk_counters(&self) -> Result<DiskCounters, PrexpError> {
        Err(PrexpError::Backend("none".into()))
    }

    fn process_detail(&self, pid: i32, _parent_name: &str) -> Result<ProcessDetail, PrexpError> {
        Err(PrexpError::ProcessNotFound { pid })
    }
}

fn proc(pid: i32, name: &str, paths: &[&str]) -> ProcessSnapshot {
    ProcessSnapshot {
        pid,
        ppid: 1,
        name: name.to_string(),
        state: ProcessState::Running,
        accessible: true,
        memory: ProcessMemory { rss: 1000 * pid as u64, phys: 0 },
        activity: ProcessActivity {
            cpu_time_ns: 10,
            thread_count: 1,
            faults: 0,
            context_switches: 0,
            syscalls_mach: 0,
            syscalls_unix: 0,
        },
        disk_io: DiskIo { bytes_read: 0, bytes_written: 0 },
        resources: paths
            .iter()
            .enumerate()
            .map(|(i, p)| OpenResource { descriptor: i as i32 + 3, kind: ResourceKind::File, path: Some(p.to_string()) })
            .collect(),
    }
}

fn source() -> FixedSource {
    FixedSource {
        snapshots: vec![
            proc(30, "Zeta", &["/tmp/a"]),
            proc(10, "alpha", &["/tmp/a", "/tmp/b"]),
            proc(20, "beta", &["/var/c"]),
        ],
    }
}

/// Waits until the clock has moved on.
fn pause() {
    let start = std::time::Instant::now();
    while start.elapsed() < Duration::from_millis(2) {}
}

fn loaded_app() -> (App, FixedSource) {
    let src = source();
    let mut app = App::new(Duration::from_secs(2));
    app.refresh(&src);
    (app, src)
}

#[test]
fn keys_in_main_list() {
    let (app, _) = loaded_app();
    assert_eq!(key_command(&app, Key::Char('q'), false), Command::Quit);
    assert_eq!(key_command(&app, Key::Char('c'), true), Command::Quit);
    assert_eq!(key_command(&app, Key::Char('c'), false), Command::OpenConfig);
    assert_eq!(key_command(&app, Key::Char('j'), false), Command::MoveDown);
    assert_eq!(key_command(&app, Key::Up, false), Command::MoveUp);
    assert_eq!(key_command(&app, Key::Char('r'), false), Command::StartLookup);
    assert_eq!(key_command(&app, Key::Char('y'), false), Command::Nothing);
    assert_eq!(key_command(&app, Key::Char('%'), false), Command::Nothing);
}

#[test]
fn keys_by_mode_and_overlay() {
    let (mut app, _) = loaded_app();
    app.main_view = MainView::Files;
    assert_eq!(key_command(&app, Key::Char('r'), false), Command::Nothing);
    assert_eq!(key_command(&app, Key::Char('y'), false), Command::YankPath);
    app.info_open = true;
    assert_eq!(key_command(&app, Key::Char('2'), false), Command::InfoTab(1));
    assert_eq!(key_command(&app, Key::Tab, false), Command::InfoNext);
    assert_eq!(key_command(&app, Key::Char('q'), false), Command::CloseInfo);
    app.info_open = false;
    app.help_open = true;
    assert_eq!(key_command(&app, Key::Char('?'), false), Command::CloseHelp);
    app.help_open = false;
    app.input_mode = InputMode::Search;
    assert_eq!(key_command(&app, Key::Char('q'), false), Command::TypeChar('q'));
    assert_eq!(key_command(&app, Key::Enter, false), Command::ConfirmSearch);
    app.input_mode = InputMode::ReverseLookup;
    assert_eq!(key_command(&app, Key::Enter, false), Command::RunLookup);
    assert_eq!(key_command(&app, Key::Esc, false), Command::CancelLookup);
}

#[test]
fn quitting_and_ignored_keys() {
    let (mut app, src) = loaded_app();
    let selected = app.selected_index;
    assert_eq!(handle_key(&mut app, Key::Other, false, &src), Effect::Done);
    assert_eq!(app.selected_index, selected);
    assert!(!app.should_quit);
    assert_eq!(handle_key(&mut app, Key::Char('q'), false, &src), Effect::Done);
    assert!(app.should_quit);
}

#[test]
fn yanking_asks_for_the_clipboard() {
    let (mut app, src) = loaded_app();
    handle_key(&mut app, Key::Char('v'), false, &src);
    assert_eq!(app.main_view, MainView::Files);
    assert_eq!(handle_key(&mut app, Key::Char('y'), false, &src), Effect::CopyPath);
    assert!(app.yank_target().is_some());
    assert_eq!(apply_command(&mut app, Command::YankEnv, &src), Effect::CopyEnv);
}

#[test]
fn typing_a_search_through_keys() {
    let (mut app, src) = loaded_app();
    handle_key(&mut app, Key::Char('/'), false, &src);
    assert_eq!(app.input_mode, InputMode::Search);
    for c in "ZET".chars() {
        handle_key(&mut app, Key::Char(c), false, &src);
    }
    handle_key(&mut app, Key::Backspace, false, &src);
    handle_key(&mut app, Key::Char('T'), false, &src);
    assert_eq!(app.search_text, "ZET");
    handle_key(&mut app, Key::Enter, false, &src);
    assert_eq!(app.input_mode, InputMode::Normal);
    let shown: Vec<i32> = app.filtered_indices.iter().map(|&i| app.snapshots[i].pid).collect();
    assert_eq!(shown, vec![30]);
}

#[test]
fn refresh_and_reset_keys() {
    let (mut app, src) = loaded_app();
    handle_key(&mut app, Key::Char('R'), false, &src);
    assert_eq!(app.status_message.as_deref(), Some("Refreshed"));
    assert_eq!(app.snapshots.len(), 3);
    app.search_text = "alp".to_string();
    app.search_active = true;
    app.apply_filter();
    assert_eq!(app.filtered_indices.len(), 1);
    handle_key(&mut app, Key::Esc, false, &src);
    assert!(app.search_text.is_empty());
    assert!(!app.search_active);
    assert_eq!(app.status_message, None);
    assert_eq!(app.filtered_indices.len(), 3);
}

#[test]
fn overlays_open_and_close() {
    let (mut app, src) = loaded_app();
    handle_key(&mut app, Key::Char('?'), false, &src);
    assert!(app.help_open);
    handle_key(&mut app, Key::Esc, false, &src);
    assert!(!app.help_open);
    handle_key(&mut app, Key::Char('t'), false, &src);
    assert!(app.theme_open);
    handle_key(&mut app, Key::Down, false, &src);
    assert_eq!(app.theme_index, 1);
    handle_key(&mut app, Key::Enter, false, &src);
    assert!(!app.theme_open);
    handle_key(&mut app, Key::Char('c'), false, &src);
    assert!(app.config_open);
    handle_key(&mut app, Key::Char('q'), false, &src);
    assert!(!app.config_open);
    assert!(!app.should_quit);
}

#[test]
fn toggling_twice_restores() {
    let (mut app, _) = loaded_app();
    let view = app.main_view;
    app.toggle_view();
    assert_ne!(app.main_view, view);
    app.toggle_view();
    assert_eq!(app.main_view, view);
    let show_all = app.show_all;
    app.toggle_show_all();
    app.toggle_show_all();
    assert_eq!(app.show_all, show_all);
    assert_eq!(SortDirection::Asc.toggle().toggle(), SortDirection::Asc);
    assert_eq!(SortDirection::Desc.toggle(), SortDirection::Asc);
}

#[test]
fn info_tabs_cycle() {
    let (mut app, _) = loaded_app();
    app.info_open = true;
    let start = app.info_tab;
    for _ in 0..4 {
        app.info_next_tab();
    }
    assert_eq!(app.info_tab, start);
    app.info_prev_tab();
    assert_eq!(app.info_tab, (start + 3) % 4);
    app.info_next_tab();
    assert_eq!(app.info_tab, start);
}

#[test]
fn selection_follows_process_across_refresh() {
    let (mut app, src) = loaded_app();
    app.process_sort = ProcessSortField::Pid;
    app.process_sort_dir = SortDirection::Asc;
    app.rebuild_all();
    app.move_down();
    let pid = app.selected_snapshot().unwrap().pid;
    app.process_sort_dir = SortDirection::Desc;
    app.rebuild_all();
    assert_eq!(app.selected_snapshot().unwrap().pid, pid);
    app.refresh(&src);
    assert_eq!(app.selected_snapshot().unwrap().pid, pid);
    assert!(app.selected_index < app.filtered_indices.len());
}

#[test]
fn sorted_by_pid_and_name() {
    let (mut app, _) = loaded_app();
    app.process_sort = ProcessSortField::Pid;
    app.process_sort_dir = SortDirection::Asc;
    app.rebuild_all();
    let pids: Vec<i32> = app.filtered_indices.iter().map(|&i| app.snapshots[i].pid).collect();
    assert_eq!(pids, vec![10, 20, 30]);
    app.process_sort = ProcessSortField::Name;
    app.rebuild_all();
    let names: Vec<&str> = app.filtered_indices.iter().map(|&i| app.snapshots[i].name.as_str()).collect();
    assert_eq!(names, vec!["alpha", "beta", "Zeta"]);
    app.process_sort_dir = SortDirection::Desc;
    app.rebuild_all();
    let names: Vec<&str> = app.filtered_indices.iter().map(|&i| app.snapshots[i].name.as_str()).collect();
    assert_eq!(names, vec!["Zeta", "beta", "alpha"]);
}

#[test]
fn files_grouped_once_per_path() {
    let (mut app, _) = loaded_app();
    app.toggle_view();
    let mut paths: Vec<&str> = app.file_entries.iter().map(|e| e.path.as_str()).collect();
    let n = paths.len();
    paths.sort();
    paths.dedup();
    assert_eq!(paths.len(), n);
    let a = app.file_entries.iter().find(|e| e.path == "/tmp/a").unwrap();
    let mut openers: Vec<i32> = a.openers.iter().map(|o| o.pid).collect();
    openers.sort();
    assert_eq!(openers, vec![10, 30]);
}

#[test]
fn history_follows_live_processes() {
    let (mut app, mut src) = loaded_app();
    app.refresh(&src);
    let mut seen: Vec<i32> = Vec::new();
    for pid in [10, 20, 30] {
        if app.process_history.contains_key(&pid) {
            seen.push(pid);
        }
    }
    assert_eq!(seen, vec![10, 20, 30]);
    src.snapshots.retain(|s| s.pid != 20);
    app.refresh(&src);
    assert!(!app.process_history.contains_key(&20));
    assert!(app.process_history.contains_key(&10));
    assert_eq!(app.process_history.len(), 2);
    for _ in 0..(MAX_SAMPLES + 5) {
        app.refresh(&src);
    }
    for h in app.process_history.values() {
        assert!(h.cpu.len() <= MAX_SAMPLES);
        assert!(h.memory.len() <= MAX_SAMPLES);
    }
}

#[test]
fn cpu_shares_only_for_seen_processes() {
    let (mut app, mut src) = loaded_app();
    src.snapshots.push(proc(40, "late", &[]));
    pause();
    app.refresh(&src);
    assert!(!app.cpu_percentages.contains_key(&40));
    assert!(app.cpu_percentages.contains_key(&10));
    pause();
    app.refresh(&src);
    assert!(app.cpu_percentages.contains_key(&40));
}

#[test]
fn sample_window_keeps_the_newest() {
    let mut d: VecDeque<u32> = VecDeque::new();
    for i in 0..(MAX_SAMPLES as u32 + 10) {
        push_sample(&mut d, i);
        assert!(d.len() <= MAX_SAMPLES);
        assert_eq!(*d.back().unwrap(), i);
    }
    assert_eq!(d.len(), MAX_SAMPLES);
    assert_eq!(*d.front().unwrap(), 10);

    let mut h: ProcessHistory<CpuShare> = ProcessHistory::new();
    h.push(CpuShare { cpu_ns: 1, elapsed_ns: 2 }, 99);
    assert_eq!(h.cpu.len(), 1);
    assert_eq!(h.memory.back(), Some(&99));
    assert!(h.threads.is_empty());
}

#[test]
fn pid_table_behaves_as_a_map() {
    let mut t: PidTable<u64> = PidTable::new();
    assert!(t.is_empty());
    t.insert(5, 50);
    t.insert(7, 70);
    t.insert(5, 55);
    assert_eq!(t.len(), 2);
    assert_eq!(t.get(&5), Some(&55));
    assert_eq!(t.get(&6), None);
    assert_eq!(t.remove(7), Some(70));
    assert_eq!(t.remove(7), None);
    assert!(!t.contains_key(&7));
    t.insert(8, 80);
    t.insert(9, 90);
    t.retain_pids(&vec![8, 5, 100]);
    assert_eq!(t.len(), 2);
    assert!(t.contains_key(&5) && t.contains_key(&8) && !t.contains_key(&9));
    let mut vals: Vec<u64> = t.values().into_iter().copied().collect();
    vals.sort();
    assert_eq!(vals, vec![55, 80]);
    t.clear();
    assert!(t.is_empty());
    assert!(pid_listed(&vec![1, 2, 3], 2));
    assert!(!pid_listed(&vec![1, 2, 3], 4));
}

#[test]
fn wrapping_index() {
    assert_eq!(next_wrapping(0, 3), 1);
    assert_eq!(next_wrapping(2, 3), 0);
    assert_eq!(next_wrapping(0, 1), 0);
}
