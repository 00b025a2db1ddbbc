//! The text of the two lists: titles, headers with the sort arrow, and the
//! cells of a process row.
use vstd::prelude::*;

use crate::models::{count_kind, OpenResource, ProcessSnapshot, ResourceKind};
use crate::text::{int_dec, nat_dec, push_i64, push_str, push_u64};
use crate::tui::app::config::{column_at, column_title, Column, COLUMN_COUNT};
use crate::tui::app::sorting::dir_arrow;
use crate::tui::app::{App, FileSortField, InputMode, ProcessSortField, SortDirection};
use crate::tui::format::{format_memory, memory_text};

verus! {

/// A header, with the arrow of the sort direction when its column is the
/// sorted one.
pub open spec fn header_text(label: Seq<char>, sorted: bool, dir: SortDirection) -> Seq<char> {
    if sorted { label + dir_arrow(dir) } else { label }
}

/// The title of the process list: the search being typed, or the number of
/// listed processes and the sort.
pub open spec fn process_title_text(a: App) -> Seq<char> {
    if a.input_mode == InputMode::Search {
        " Processes [/"@ + a.search_text@ + "] "@
    } else {
        let sort = match a.process_sort {
            ProcessSortField::Unsorted => Seq::<char>::empty(),
            ProcessSortField::Pid => " [pid "@ + dir_arrow(a.process_sort_dir) + "]"@,
            ProcessSortField::Name => " [name "@ + dir_arrow(a.process_sort_dir) + "]"@,
            ProcessSortField::Total => " [total "@ + dir_arrow(a.process_sort_dir) + "]"@,
        };
        " prexp — "@ + nat_dec(a.filtered_indices@.len()) + " processes"@ + sort + " "@
    }
}

/// The title of the file list: the search being typed, or the number of
/// listed files and the sort.
pub open spec fn file_title_text(a: App) -> Seq<char> {
    if a.input_mode == InputMode::Search {
        " Files [/"@ + a.search_text@ + "] "@
    } else {
        let sort = match a.file_sort {
            FileSortField::ProcessCount => " [procs "@ + dir_arrow(a.file_sort_dir) + "]"@,
            FileSortField::Filename => " [filename "@ + dir_arrow(a.file_sort_dir) + "]"@,
        };
        " prexp — "@ + nat_dec(a.filtered_file_indices@.len()) + " open files"@ + sort + " "@
    }
}

/// The arrow of a sort direction.
fn push_arrow(out: &mut String, dir: SortDirection)
    ensures
        final(out)@ == old(out)@ + dir_arrow(dir),
{
    push_str(out, dir.arrow());
}

/// A header, with the arrow when its column is the sorted one.
pub fn header(label: &str, sorted: bool, dir: SortDirection) -> (r: String)
    ensures
        r@ == header_text(label@, sorted, dir),
{
    let mut out = String::new();
    push_str(&mut out, label);
    if sorted {
        push_arrow(&mut out, dir);
    }
    out
}

/// The title of the process list.
pub fn process_list_title(app: &App) -> (r: String)
    ensures
        r@ == process_title_text(*app),
{
    let mut out = String::new();
    if app.input_mode == InputMode::Search {
        push_str(&mut out, " Processes [/");
        push_str(&mut out, app.search_text.as_str());
        push_str(&mut out, "] ");
        return out;
    }
    push_str(&mut out, " prexp — ");
    push_u64(&mut out, app.filtered_indices.len() as u64);
    push_str(&mut out, " processes");
    let ghost before = out@;
    match app.process_sort {
        ProcessSortField::Unsorted => {},
        ProcessSortField::Pid => {
            push_str(&mut out, " [pid ");
            push_arrow(&mut out, app.process_sort_dir);
            push_str(&mut out, "]");
        },
        ProcessSortField::Name => {
            push_str(&mut out, " [name ");
            push_arrow(&mut out, app.process_sort_dir);
            push_str(&mut out, "]");
        },
        ProcessSortField::Total => {
            push_str(&mut out, " [total ");
            push_arrow(&mut out, app.process_sort_dir);
            push_str(&mut out, "]");
        },
    }
    push_str(&mut out, " ");
    assert(out@ =~= process_title_text(*app));
    out
}

/// The title of the file list.
pub fn file_list_title(app: &App) -> (r: String)
    ensures
        r@ == file_title_text(*app),
{
    let mut out = String::new();
    if app.input_mode == InputMode::Search {
        push_str(&mut out, " Files [/");
        push_str(&mut out, app.search_text.as_str());
        push_str(&mut out, "] ");
        return out;
    }
    push_str(&mut out, " prexp — ");
    push_u64(&mut out, app.filtered_file_indices.len() as u64);
    push_str(&mut out, " open files");
    match app.file_sort {
        FileSortField::ProcessCount => {
            push_str(&mut out, " [procs ");
            push_arrow(&mut out, app.file_sort_dir);
            push_str(&mut out, "]");
        },
        FileSortField::Filename => {
            push_str(&mut out, " [filename ");
            push_arrow(&mut out, app.file_sort_dir);
            push_str(&mut out, "]");
        },
    }
    push_str(&mut out, " ");
    assert(out@ =~= file_title_text(*app));
    out
}

/// The columns the process list draws after the pid and the name: the
/// enabled ones in order, but the state column, which it never draws.
pub open spec fn drawn_columns(enabled: Seq<bool>) -> Seq<Column>
    decreases enabled.len(),
{
    if enabled.len() == 0 {
        seq![]
    } else {
        let i = enabled.len() - 1;
        let c = column_at(i);
        if enabled.last() && c != Column::State {
            drawn_columns(enabled.drop_last()).push(c)
        } else {
            drawn_columns(enabled.drop_last())
        }
    }
}

/// The columns the process list draws after the pid and the name.
pub fn shown_columns(enabled: &Vec<bool>) -> (r: Vec<Column>)
    requires
        enabled@.len() == COLUMN_COUNT,
    ensures
        r@ == drawn_columns(enabled@),
{
    let all = Column::all();
    let mut r: Vec<Column> = Vec::new();
    let mut i: usize = 0;
    while i < COLUMN_COUNT
        invariant
            i <= COLUMN_COUNT,
            all@.len() == COLUMN_COUNT,
            enabled@.len() == COLUMN_COUNT,
            forall|k: int| 0 <= k < COLUMN_COUNT ==> #[trigger] all@[k] == column_at(k),
            r@ == drawn_columns(enabled@.take(i as int)),
        decreases COLUMN_COUNT - i,
    {
        assert(enabled@.take(i + 1).drop_last() =~= enabled@.take(i as int));
        if enabled[i] && all[i] != Column::State {
            r.push(all[i]);
        }
        i = i + 1;
    }
    assert(enabled@.take(COLUMN_COUNT as int) =~= enabled@);
    r
}

/// The header of a drawn column: its title, with the arrow on the total
/// column when the list is sorted by total.
pub open spec fn column_header_text(c: Column, sort: ProcessSortField, dir: SortDirection) -> Seq<char> {
    header_text(column_title(c), c == Column::Total && sort == ProcessSortField::Total, dir)
}

/// The header of a drawn column.
pub fn column_header(c: Column, sort: ProcessSortField, dir: SortDirection) -> (r: String)
    ensures
        r@ == column_header_text(c, sort, dir),
{
    header(c.label(), c == Column::Total && sort == ProcessSortField::Total, dir)
}

/// Resources of two different kinds are never more than all of them.
proof fn lemma_two_kinds(rs: Seq<OpenResource>, a: ResourceKind, b: ResourceKind)
    requires
        a != b,
    ensures
        count_kind(rs, a) + count_kind(rs, b) <= rs.len(),
    decreases rs.len(),
{
    if rs.len() > 0 {
        lemma_two_kinds(rs.drop_last(), a, b);
    }
}

/// The text of a drawn column of a process row, but the CPU share:
/// memory sizes as `format_memory` writes them (the physical footprint `-`
/// when zero), the thread count, and counts of resources, files counting
/// devices and "other" counting kqueues and unknown descriptors.
pub open spec fn cell_text_of(p: ProcessSnapshot, c: Column) -> Seq<char> {
    let rs = p.resources@;
    match c {
        Column::Mem => memory_text(p.memory.rss),
        Column::Pmem => if p.memory.phys > 0 { memory_text(p.memory.phys) } else { "-"@ },
        Column::Thr => int_dec(p.activity.thread_count as int),
        Column::Files => nat_dec(count_kind(rs, ResourceKind::File) + count_kind(rs, ResourceKind::Device)),
        Column::Socks => nat_dec(count_kind(rs, ResourceKind::Socket)),
        Column::Pipes => nat_dec(count_kind(rs, ResourceKind::Pipe)),
        Column::Other => nat_dec(count_kind(rs, ResourceKind::Kqueue) + count_kind(rs, ResourceKind::Unknown)),
        Column::Total => nat_dec(rs.len()),
        Column::Cpu | Column::State => Seq::empty(),
    }
}

/// The text of a drawn column of a process row, but the CPU share.
pub fn cell_text(p: &ProcessSnapshot, c: Column) -> (r: String)
    requires
        c != Column::Cpu,
        c != Column::State,
    ensures
        r@ == cell_text_of(*p, c),
{
    match c {
        Column::Mem => format_memory(p.memory.rss),
        Column::Pmem => {
            if p.memory.phys > 0 {
                format_memory(p.memory.phys)
            } else {
                let mut out = String::new();
                push_str(&mut out, "-");
                out
            }
        },
        Column::Thr => {
            let mut out = String::new();
            push_i64(&mut out, p.activity.thread_count as i64);
            out
        },
        Column::Files => {
            let _total = p.resources.len();
            proof { lemma_two_kinds(p.resources@, ResourceKind::File, ResourceKind::Device); }
            let n = p.count_by_kind(&ResourceKind::File) + p.count_by_kind(&ResourceKind::Device);
            let mut out = String::new();
            push_u64(&mut out, n as u64);
            out
        },
        Column::Socks => {
            let mut out = String::new();
            push_u64(&mut out, p.count_by_kind(&ResourceKind::Socket) as u64);
            out
        },
        Column::Pipes => {
            let mut out = String::new();
            push_u64(&mut out, p.count_by_kind(&ResourceKind::Pipe) as u64);
            out
        },
        Column::Other => {
            let _total = p.resources.len();
            proof { lemma_two_kinds(p.resources@, ResourceKind::Kqueue, ResourceKind::Unknown); }
            let n = p.count_by_kind(&ResourceKind::Kqueue) + p.count_by_kind(&ResourceKind::Unknown);
            let mut out = String::new();
            push_u64(&mut out, n as u64);
            out
        },
        _ => {
            let mut out = String::new();
            push_u64(&mut out, p.resources.len() as u64);
            out
        },
    }
}

} // verus!
