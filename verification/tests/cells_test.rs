use std::time::Duration;

use prexp::models::{DiskIo, OpenResource, ProcessActivity, ProcessMemory, ProcessSnapshot, ProcessState, ResourceKind};
use prexp::tui::app::config::Column;
use prexp::tui::app::{App, FileSortField, InputMode, MainView, ProcessSortField, SortDirection};
use prexp::tui::cells::{cell_text, column_header, file_list_title, header, process_list_title, shown_columns};

fn res(fd: i32, kind: ResourceKind) -> OpenResource {
    OpenResource { descriptor: fd, kind, path: None }
}

fn snap(rss: u64, phys: u64, threads: i32, resources: Vec<OpenResource>) -> ProcessSnapshot {
    ProcessSnapshot {
        pid: 7,
        ppid: 1,
        name: "p".to_string(),
        state: ProcessState::Running,
        accessible: true,
        memory: ProcessMemory { rss, phys },
        activity: ProcessActivity {
            cpu_time_ns: 0,
            thread_count: threads,
            faults: 0,
            context_switches: 0,
            syscalls_mach: 0,
            syscalls_unix: 0,
        },
        disk_io: DiskIo { bytes_read: 0, bytes_written: 0 },
        resources,
    }
}

#[test]
fn row_cells() {
    let s = snap(
        3 * 1024 * 1024,
        0,
        12,
        vec![
            res(0, ResourceKind::File),
            res(1, ResourceKind::Device),
            res(2, ResourceKind::Socket),
            res(3, ResourceKind::Pipe),
            res(4, ResourceKind::Kqueue),
            res(5, ResourceKind::Unknown),
            res(6, ResourceKind::Unknown),
        ],
    );
    assert_eq!(cell_text(&s, Column::Mem), "3.0M");
    assert_eq!(cell_text(&s, Column::Pmem), "-");
    assert_eq!(cell_text(&s, Column::Thr), "12");
    assert_eq!(cell_text(&s, Column::Files), "2");
    assert_eq!(cell_text(&s, Column::Socks), "1");
    assert_eq!(cell_text(&s, Column::Pipes), "1");
    assert_eq!(cell_text(&s, Column::Other), "3");
    assert_eq!(cell_text(&s, Column::Total), "7");
    let s = snap(0, 2048, -1, Vec::new());
    assert_eq!(cell_text(&s, Column::Pmem), "2K");
    assert_eq!(cell_text(&s, Column::Thr), "-1");
    assert_eq!(cell_text(&s, Column::Total), "0");
}

#[test]
fn headers_and_columns() {
    assert_eq!(header("PID", true, SortDirection::Asc), "PID↑");
    assert_eq!(header("NAME", false, SortDirection::Asc), "NAME");
    assert_eq!(column_header(Column::Total, ProcessSortField::Total, SortDirection::Desc), "TOTAL↓");
    assert_eq!(column_header(Column::Total, ProcessSortField::Pid, SortDirection::Desc), "TOTAL");
    assert_eq!(column_header(Column::Mem, ProcessSortField::Total, SortDirection::Desc), "MEM");
    let all = vec![true; 10];
    let cols = shown_columns(&all);
    assert_eq!(cols.len(), 9);
    assert!(!cols.contains(&Column::State));
    let mut some = vec![false; 10];
    some[1] = true;
    some[8] = true;
    some[9] = true;
    assert_eq!(shown_columns(&some), vec![Column::Mem, Column::Total]);
}

#[test]
fn list_titles() {
    let mut app = App::new(Duration::from_secs(1));
    app.process_sort = ProcessSortField::Unsorted;
    assert_eq!(process_list_title(&app), " prexp — 0 processes ");
    app.process_sort = ProcessSortField::Name;
    app.process_sort_dir = SortDirection::Asc;
    assert_eq!(process_list_title(&app), " prexp — 0 processes [name ↑] ");
    app.file_sort = FileSortField::ProcessCount;
    app.file_sort_dir = SortDirection::Desc;
    assert_eq!(file_list_title(&app), " prexp — 0 open files [procs ↓] ");
    app.main_view = MainView::Files;
    app.input_mode = InputMode::Search;
    app.search_text = "log".to_string();
    assert_eq!(file_list_title(&app), " Files [/log] ");
    assert_eq!(process_list_title(&app), " Processes [/log] ");
}
