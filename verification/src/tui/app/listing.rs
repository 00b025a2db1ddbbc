//! Which processes the process list shows, and in what order.
use vstd::prelude::*;

use crate::models::ProcessSnapshot;
use crate::sort::sort_by;
use crate::text::{chars_of, contains_chars, i64_to_string, int_dec, is_infix, lowercase, to_lowercase};

use super::files::EntryView;
use super::sorting::{goes_before, name_keys, sort_snapshot_indices};
use super::tree::{tree_order, tree_over, valid_listing};
use super::{MainView, ProcessSortField, SortDirection, TreeEntry, FileEntry};

verus! {

/// The positions of the processes that are listed: all of them when
/// `show_all`, else those whose resources could be read.
pub open spec fn visible_spec(s: Seq<ProcessSnapshot>, show_all: bool) -> Seq<usize> {
    Seq::new(s.len(), |i: int| i as usize).filter(|i: usize| show_all || s[i as int].accessible)
}

/// A process matches a search when the lowercase query occurs in its
/// lowercase name or in its pid.
pub open spec fn process_matches(p: ProcessSnapshot, query: Seq<char>) -> bool {
    is_infix(lowercase(query), lowercase(p.name@)) || is_infix(lowercase(query), int_dec(p.pid as int))
}

/// The listed processes that match the query, in list order.
pub open spec fn search_matches(s: Seq<ProcessSnapshot>, vis: Seq<usize>, query: Seq<char>) -> Seq<usize> {
    vis.filter(|i: usize| process_matches(s[i as int], query))
}

/// The search results: the matches, sorted unless the sort is `Unsorted`.
pub open spec fn search_order(
    s: Seq<ProcessSnapshot>,
    vis: Seq<usize>,
    query: Seq<char>,
    field: ProcessSortField,
    dir: SortDirection,
) -> Seq<usize> {
    let m = search_matches(s, vis, query);
    if field == ProcessSortField::Unsorted {
        m
    } else {
        sort_by(goes_before(s, field, dir), m)
    }
}

/// The rows of the process list: the search results as a flat list while a
/// search in the process view has text, else the process tree.
pub open spec fn process_rows(
    s: Seq<ProcessSnapshot>,
    show_all: bool,
    query: Seq<char>,
    view: MainView,
    field: ProcessSortField,
    dir: SortDirection,
) -> Seq<(usize, nat, Seq<char>)> {
    let vis = visible_spec(s, show_all);
    if query.len() > 0 && view == MainView::Processes {
        search_order(s, vis, query, field, dir).map_values(|i: usize| (i, 0nat, Seq::<char>::empty()))
    } else {
        tree_order(s, vis, field, dir)
    }
}

/// The snapshot positions of the rows, top to bottom.
pub open spec fn row_indices(rows: Seq<(usize, nat, Seq<char>)>) -> Seq<usize> {
    rows.map_values(|e: (usize, nat, Seq<char>)| e.0)
}

/// The first row whose process has pid `p`, or -1.
pub open spec fn first_pid_pos(s: Seq<ProcessSnapshot>, fi: Seq<usize>, p: i32) -> int
    decreases fi.len(),
{
    if fi.len() == 0 {
        -1
    } else {
        let k = first_pid_pos(s, fi.drop_last(), p);
        if k >= 0 {
            k
        } else if s[fi.last() as int].pid == p {
            fi.len() - 1
        } else {
            -1
        }
    }
}

/// The last row, or 0 for an empty list.
pub open spec fn last_row(n: nat) -> nat {
    if n == 0 { 0 } else { (n - 1) as nat }
}

/// The selection kept within a list of `n` rows.
pub open spec fn clamp_row(sel: usize, n: nat) -> usize {
    if sel <= last_row(n) { sel } else { last_row(n) as usize }
}

/// The process row selected after a rebuild: the row of the remembered pid
/// when it is still listed, else the old row kept within the list.
pub open spec fn anchored_row(s: Seq<ProcessSnapshot>, fi: Seq<usize>, anchor: Option<i32>, sel: usize) -> usize {
    match anchor {
        Some(p) => if first_pid_pos(s, fi, p) >= 0 { first_pid_pos(s, fi, p) as usize } else { clamp_row(sel, fi.len()) },
        None => clamp_row(sel, fi.len()),
    }
}

/// The pid of the selected row, if a row is selected.
pub open spec fn pid_at(s: Seq<ProcessSnapshot>, fi: Seq<usize>, sel: usize) -> Option<i32> {
    if sel < fi.len() && fi[sel as int] < s.len() {
        Some(s[fi[sel as int] as int].pid)
    } else {
        None
    }
}

/// The first row whose file entry has path `p`, or -1.
pub open spec fn first_path_pos(es: Seq<EntryView>, fi: Seq<usize>, p: Seq<char>) -> int
    decreases fi.len(),
{
    if fi.len() == 0 {
        -1
    } else {
        let k = first_path_pos(es, fi.drop_last(), p);
        if k >= 0 {
            k
        } else if es[fi.last() as int].0 == p {
            fi.len() - 1
        } else {
            -1
        }
    }
}

/// The file row selected after a rebuild.
pub open spec fn anchored_file_row(es: Seq<EntryView>, fi: Seq<usize>, anchor: Option<Seq<char>>, sel: usize) -> usize {
    match anchor {
        Some(p) => if first_path_pos(es, fi, p) >= 0 { first_path_pos(es, fi, p) as usize } else { clamp_row(sel, fi.len()) },
        None => clamp_row(sel, fi.len()),
    }
}

/// The path of the selected file row, if a row is selected.
pub open spec fn path_at(es: Seq<EntryView>, fi: Seq<usize>, sel: usize) -> Option<Seq<char>> {
    if sel < fi.len() && fi[sel as int] < es.len() {
        Some(es[fi[sel as int] as int].0)
    } else {
        None
    }
}

/// The positions of the listed processes.
pub fn visible_indices(snapshots: &[ProcessSnapshot], show_all: bool) -> (r: Vec<usize>)
    ensures
        r@ == visible_spec(snapshots@, show_all),
        valid_listing(snapshots@, r@),
{
    let ghost pred = |i: usize| show_all || snapshots@[i as int].accessible;
    let mut r: Vec<usize> = Vec::new();
    let mut i: usize = 0;
    while i < snapshots.len()
        invariant
            i <= snapshots@.len(),
            pred == (|i: usize| show_all || snapshots@[i as int].accessible),
            r@ == Seq::new(i as nat, |k: int| k as usize).filter(pred),
            forall|k: int| 0 <= k < r@.len() ==> #[trigger] r@[k] < i,
        decreases snapshots@.len() - i,
    {
        reveal_with_fuel(Seq::filter, 1);
        if show_all || snapshots[i].accessible {
            r.push(i);
        }
        assert(Seq::new((i + 1) as nat, |k: int| k as usize).drop_last() =~= Seq::new(i as nat, |k: int| k as usize));
        i = i + 1;
    }
    r
}

/// Whether the process matches the query.
pub fn matches_query(p: &ProcessSnapshot, query_lower: &Vec<char>, query: Ghost<Seq<char>>) -> (b: bool)
    requires
        query_lower@ == lowercase(query@),
    ensures
        b == process_matches(*p, query@),
{
    let name = chars_of(to_lowercase(p.name.as_str()).as_str());
    if contains_chars(&name, query_lower) {
        return true;
    }
    let pid = chars_of(i64_to_string(p.pid as i64).as_str());
    contains_chars(&pid, query_lower)
}

/// The listed processes that match the query.
pub fn search_indices(snapshots: &[ProcessSnapshot], vis: &Vec<usize>, query: &String) -> (r: Vec<usize>)
    requires
        valid_listing(snapshots@, vis@),
    ensures
        r@ == search_matches(snapshots@, vis@, query@),
        valid_listing(snapshots@, r@),
{
    let ghost pred = |i: usize| process_matches(snapshots@[i as int], query@);
    let q = chars_of(to_lowercase(query.as_str()).as_str());
    let mut r: Vec<usize> = Vec::new();
    let mut i: usize = 0;
    while i < vis.len()
        invariant
            i <= vis@.len(),
            valid_listing(snapshots@, vis@),
            q@ == lowercase(query@),
            pred == (|i: usize| process_matches(snapshots@[i as int], query@)),
            r@ == vis@.take(i as int).filter(pred),
            valid_listing(snapshots@, r@),
        decreases vis@.len() - i,
    {
        reveal_with_fuel(Seq::filter, 1);
        let x = vis[i];
        if matches_query(&snapshots[x], &q, Ghost(query@)) {
            r.push(x);
        }
        assert(vis@.take(i + 1).drop_last() =~= vis@.take(i as int));
        i = i + 1;
    }
    assert(vis@.take(i as int) =~= vis@);
    r
}

/// The rows of the process list and their snapshot positions.
pub fn build_process_rows(
    snapshots: &[ProcessSnapshot],
    show_all: bool,
    query: &String,
    view: MainView,
    field: ProcessSortField,
    dir: SortDirection,
) -> (r: (Vec<TreeEntry>, Vec<usize>))
    ensures
        r.0@.map_values(|e: TreeEntry| e@) == process_rows(snapshots@, show_all, query@, view, field, dir),
        r.1@ == row_indices(process_rows(snapshots@, show_all, query@, view, field, dir)),
        valid_listing(snapshots@, r.1@),
        forall|k: int| 0 <= k < r.0@.len() ==> #[trigger] r.0@[k].snapshot_index < snapshots@.len(),
{
    let vis = visible_indices(snapshots, show_all);
    let ghost rows = process_rows(snapshots@, show_all, query@, view, field, dir);
    if !query.as_str().is_empty() && view == MainView::Processes {
        let matches = search_indices(snapshots, &vis, query);
        let order = if field == ProcessSortField::Unsorted {
            matches
        } else {
            let keys = if field == ProcessSortField::Name { name_keys(snapshots) } else { Vec::new() };
            let sorted = sort_snapshot_indices(snapshots, &keys, &matches, field, dir);
            proof {
                crate::sort::lemma_sort_by_multiset(goes_before(snapshots@, field, dir), matches@);
            }
            assert(valid_listing(snapshots@, sorted@)) by {
                broadcast use vstd::seq_lib::group_to_multiset_ensures;
                assert forall|k: int| 0 <= k < sorted@.len() implies #[trigger] sorted@[k] < snapshots@.len() by {
                    assert(sorted@.to_multiset().count(sorted@[k]) > 0);
                    assert(matches@.contains(sorted@[k]));
                }
            }
            sorted
        };
        let ghost sv = search_order(snapshots@, vis@, query@, field, dir);
        assert(order@ == sv);
        let mut out: Vec<TreeEntry> = Vec::new();
        let mut fi: Vec<usize> = Vec::new();
        let mut k: usize = 0;
        while k < order.len()
            invariant
                k <= order@.len(),
                valid_listing(snapshots@, order@),
                out@.map_values(|e: TreeEntry| e@) == order@.take(k as int).map_values(
                    |i: usize| (i, 0nat, Seq::<char>::empty()),
                ),
                fi@ == order@.take(k as int),
                forall|m: int| 0 <= m < out@.len() ==> #[trigger] out@[m].snapshot_index < snapshots@.len(),
            decreases order@.len() - k,
        {
            let ghost before = out@;
            let e = TreeEntry { snapshot_index: order[k], depth: 0, prefix: String::new() };
            assert(e@ == (order@[k as int], 0nat, Seq::<char>::empty()));
            out.push(e);
            fi.push(order[k]);
            assert(out@ == before.push(e));
            assert(out@.map_values(|e: TreeEntry| e@) =~= before.map_values(|e: TreeEntry| e@).push(e@));
            assert(order@.take(k + 1) =~= order@.take(k as int).push(order@[k as int]));
            k = k + 1;
            assert(out@.map_values(|e: TreeEntry| e@) =~= order@.take(k as int).map_values(
                |i: usize| (i, 0nat, Seq::<char>::empty()),
            ));
            assert(fi@ =~= order@.take(k as int));
        }
        assert(order@.take(k as int) =~= order@);
        assert(row_indices(rows) =~= order@);
        (out, fi)
    } else {
        let entries = tree_over(snapshots, &vis, field, dir);
        let mut fi: Vec<usize> = Vec::new();
        let mut k: usize = 0;
        while k < entries.len()
            invariant
                k <= entries@.len(),
                forall|m: int| 0 <= m < entries@.len() ==> #[trigger] entries@[m].snapshot_index < snapshots@.len(),
                fi@ == entries@.take(k as int).map_values(|e: TreeEntry| e.snapshot_index),
            decreases entries@.len() - k,
        {
            fi.push(entries[k].snapshot_index);
            k = k + 1;
            assert(fi@ =~= entries@.take(k as int).map_values(|e: TreeEntry| e.snapshot_index));
        }
        assert(entries@.take(k as int) =~= entries@);
        assert(row_indices(rows) =~= fi@);
        (entries, fi)
    }
}

/// The first row whose process has pid `p`.
pub fn find_pid_row(snapshots: &[ProcessSnapshot], fi: &Vec<usize>, p: i32) -> (r: Option<usize>)
    requires
        valid_listing(snapshots@, fi@),
    ensures
        match r {
            Some(k) => k == first_pid_pos(snapshots@, fi@, p),
            None => first_pid_pos(snapshots@, fi@, p) == -1,
        },
{
    let mut k: usize = 0;
    while k < fi.len()
        invariant
            k <= fi@.len(),
            valid_listing(snapshots@, fi@),
            first_pid_pos(snapshots@, fi@.take(k as int), p) == -1,
        decreases fi@.len() - k,
    {
        assert(fi@.take(k + 1).drop_last() =~= fi@.take(k as int));
        if snapshots[fi[k]].pid == p {
            proof { lemma_first_pid_prefix(snapshots@, fi@, p, k + 1); }
            return Some(k);
        }
        k = k + 1;
    }
    assert(fi@.take(k as int) =~= fi@);
    None
}

/// A row found in a prefix of the list is the first in the whole list.
proof fn lemma_first_pid_prefix(s: Seq<ProcessSnapshot>, fi: Seq<usize>, p: i32, n: int)
    requires
        0 <= n <= fi.len(),
        first_pid_pos(s, fi.take(n), p) >= 0,
    ensures
        first_pid_pos(s, fi, p) == first_pid_pos(s, fi.take(n), p),
    decreases fi.len() - n,
{
    if n < fi.len() {
        assert(fi.take(n + 1).drop_last() =~= fi.take(n));
        lemma_first_pid_prefix(s, fi, p, n + 1);
    } else {
        assert(fi.take(n) =~= fi);
    }
}

/// The first row whose file entry has path `p`.
pub fn find_path_row(entries: &Vec<FileEntry>, fi: &Vec<usize>, p: &String) -> (r: Option<usize>)
    requires
        forall|k: int| 0 <= k < fi@.len() ==> #[trigger] fi@[k] < entries@.len(),
    ensures
        match r {
            Some(k) => k == first_path_pos(super::files::entries_view(entries@), fi@, p@),
            None => first_path_pos(super::files::entries_view(entries@), fi@, p@) == -1,
        },
{
    let ghost es = super::files::entries_view(entries@);
    let mut k: usize = 0;
    while k < fi.len()
        invariant
            k <= fi@.len(),
            es == super::files::entries_view(entries@),
            forall|m: int| 0 <= m < fi@.len() ==> #[trigger] fi@[m] < entries@.len(),
            first_path_pos(es, fi@.take(k as int), p@) == -1,
        decreases fi@.len() - k,
    {
        assert(fi@.take(k + 1).drop_last() =~= fi@.take(k as int));
        if entries[fi[k]].path == *p {
            proof { lemma_first_path_prefix(es, fi@, p@, k + 1); }
            return Some(k);
        }
        k = k + 1;
    }
    assert(fi@.take(k as int) =~= fi@);
    None
}

/// A file row found in a prefix of the list is the first in the whole list.
proof fn lemma_first_path_prefix(es: Seq<EntryView>, fi: Seq<usize>, p: Seq<char>, n: int)
    requires
        0 <= n <= fi.len(),
        first_path_pos(es, fi.take(n), p) >= 0,
    ensures
        first_path_pos(es, fi, p) == first_path_pos(es, fi.take(n), p),
    decreases fi.len() - n,
{
    if n < fi.len() {
        assert(fi.take(n + 1).drop_last() =~= fi.take(n));
        lemma_first_path_prefix(es, fi, p, n + 1);
    } else {
        assert(fi.take(n) =~= fi);
    }
}

/// The selection kept within a list of `n` rows.
pub fn clamp_selection(sel: usize, n: usize) -> (r: usize)
    ensures
        r == clamp_row(sel, n as nat),
{
    let last = if n == 0 { 0 } else { n - 1 };
    if sel <= last { sel } else { last }
}

} // verus!
