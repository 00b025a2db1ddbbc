//! What holds of the explorer across its operations.
use vstd::prelude::*;

use crate::models::ProcessSnapshot;
use crate::sort::{lemma_sort_by_multiset, lemma_sort_by_sorted, sorted_by, strict_weak};
use crate::text::{int_dec, is_infix, lemma_lex_lt_total, lex_lt, lowercase, occurs_at};

use super::files::{add_record, entry_before, entry_lt, file_entries_spec, file_name, file_records, group_records, path_pos, EntryView, OpenerView};
use super::listing::{
    anchored_file_row, anchored_row, clamp_row, first_path_pos, first_pid_pos, path_at, process_matches, process_rows, row_indices, search_matches, search_order, visible_spec,
};
use super::refresh::{cpu_shares, cpu_times, history_fold, history_recorded, history_views, pids_of};
use super::sorting::{goes_before, next_file_sort, next_process_sort};
use super::state::{file_list_rebuilt, file_row_indices, history_step, installed, opt_text, process_list_rebuilt, refreshed, summary_reread};
use super::files::{entries_view, file_filter_spec};
use super::refresh::cpu_recorded;
use super::config::{column_pos, Column};
use super::{flipped, App, FileSortField, MainView, ProcessSortField, SortDirection};

verus! {

/// Every process order of the list (by pid, by lowercase name, by number
/// of resources, either direction) is a strict weak order, so the stable
/// sort by it is well defined and sorted.
pub proof fn lemma_process_order_strict_weak(s: Seq<ProcessSnapshot>, field: ProcessSortField, dir: SortDirection)
    ensures
        strict_weak(goes_before(s, field, dir)),
{
    let b = goes_before(s, field, dir);
    assert forall|x: usize| !#[trigger] b(x, x) by {
        lemma_lex_lt_total(lowercase(s[x as int].name@), lowercase(s[x as int].name@), lowercase(s[x as int].name@));
    }
    assert forall|x: usize, y: usize, z: usize| #[trigger] b(x, y) && #[trigger] b(y, z) implies b(x, z) by {
        let (kx, ky, kz) = (lowercase(s[x as int].name@), lowercase(s[y as int].name@), lowercase(s[z as int].name@));
        lemma_lex_lt_total(kx, ky, kz);
        lemma_lex_lt_total(kz, ky, kx);
    }
    assert forall|x: usize, y: usize, z: usize| !#[trigger] b(x, y) && !#[trigger] b(y, z) implies !b(x, z) by {
        let (kx, ky, kz) = (lowercase(s[x as int].name@), lowercase(s[y as int].name@), lowercase(s[z as int].name@));
        lemma_lex_lt_total(kx, ky, kz);
        lemma_lex_lt_total(ky, kz, kx);
        lemma_lex_lt_total(kz, kx, ky);
        lemma_lex_lt_total(ky, kx, kz);
        lemma_lex_lt_total(kz, ky, kx);
        lemma_lex_lt_total(kx, kz, ky);
    }
}

/// The keys of two entries by file name, then full path, compared in
/// every order.
proof fn lemma_name_keys(a: EntryView, b: EntryView, c: EntryView)
    ensures
        !entry_lt(a, a, FileSortField::Filename),
        entry_lt(a, b, FileSortField::Filename) && entry_lt(b, c, FileSortField::Filename)
            ==> entry_lt(a, c, FileSortField::Filename),
        !entry_lt(a, b, FileSortField::Filename) && !entry_lt(b, c, FileSortField::Filename)
            ==> !entry_lt(a, c, FileSortField::Filename),
{
    let (na, nb, nc) = (file_name(a.0), file_name(b.0), file_name(c.0));
    let (pa, pb, pc) = (a.0, b.0, c.0);
    lemma_lex_lt_total(na, nb, nc);
    lemma_lex_lt_total(nb, nc, na);
    lemma_lex_lt_total(nc, na, nb);
    lemma_lex_lt_total(nb, na, nc);
    lemma_lex_lt_total(nc, nb, na);
    lemma_lex_lt_total(na, nc, nb);
    lemma_lex_lt_total(pa, pb, pc);
    lemma_lex_lt_total(pb, pc, pa);
    lemma_lex_lt_total(pc, pa, pb);
    lemma_lex_lt_total(pb, pa, pc);
    lemma_lex_lt_total(pc, pb, pa);
    lemma_lex_lt_total(pa, pc, pb);
}

/// Both file orders (by number of processes, by file name then full
/// path, either direction) are strict weak orders.
pub proof fn lemma_file_order_strict_weak(field: FileSortField, dir: SortDirection)
    ensures
        strict_weak(entry_before(field, dir)),
{
    let b = entry_before(field, dir);
    assert forall|x: EntryView| !#[trigger] b(x, x) by {
        lemma_name_keys(x, x, x);
    }
    assert forall|x: EntryView, y: EntryView, z: EntryView| #[trigger] b(x, y) && #[trigger] b(y, z) implies b(x, z) by {
        lemma_name_keys(x, y, z);
        lemma_name_keys(z, y, x);
    }
    assert forall|x: EntryView, y: EntryView, z: EntryView| !#[trigger] b(x, y) && !#[trigger] b(y, z) implies !b(x, z) by {
        lemma_name_keys(x, y, z);
        lemma_name_keys(z, y, x);
    }
}

/// The file list holds the grouped entries of the listed processes, each
/// once, ordered by the file sort.
pub proof fn lemma_file_rows_sorted(s: Seq<ProcessSnapshot>, show_all: bool, field: FileSortField, dir: SortDirection)
    ensures
        file_entries_spec(s, show_all, field, dir).to_multiset()
            == group_records(file_records(s, show_all)).to_multiset(),
        sorted_by(entry_before(field, dir), file_entries_spec(s, show_all, field, dir)),
{
    let g = group_records(file_records(s, show_all));
    lemma_sort_by_multiset(entry_before(field, dir), g);
    lemma_file_order_strict_weak(field, dir);
    lemma_sort_by_sorted(entry_before(field, dir), g);
}

/// While a search has text in the process view, the list shows exactly the
/// listed processes that match it, each as often as it is listed, every
/// one of them matching, in the order of the sort (the list order when
/// unsorted).
pub proof fn lemma_search_rows(
    s: Seq<ProcessSnapshot>,
    show_all: bool,
    query: Seq<char>,
    field: ProcessSortField,
    dir: SortDirection,
)
    requires
        query.len() > 0,
    ensures
        ({
            let fi = row_indices(process_rows(s, show_all, query, MainView::Processes, field, dir));
            &&& fi.to_multiset() == search_matches(s, visible_spec(s, show_all), query).to_multiset()
            &&& forall|k: int| 0 <= k < fi.len() ==> #[trigger] process_matches(s[fi[k] as int], query)
            &&& field != ProcessSortField::Unsorted ==> sorted_by(goes_before(s, field, dir), fi)
        }),
{
    broadcast use vstd::seq_lib::group_to_multiset_ensures;
    let vis = visible_spec(s, show_all);
    let m = search_matches(s, vis, query);
    let order = search_order(s, vis, query, field, dir);
    let fi = row_indices(process_rows(s, show_all, query, MainView::Processes, field, dir));
    assert(fi =~= order);
    if field != ProcessSortField::Unsorted {
        lemma_sort_by_multiset(goes_before(s, field, dir), m);
        lemma_process_order_strict_weak(s, field, dir);
        lemma_sort_by_sorted(goes_before(s, field, dir), m);
    }
    assert forall|k: int| 0 <= k < fi.len() implies #[trigger] process_matches(s[fi[k] as int], query) by {
        let pred = |i: usize| process_matches(s[i as int], query);
        assert(fi.to_multiset().count(fi[k]) > 0);
        assert(m.contains(fi[k]));
        let j = choose|j: int| 0 <= j < m.len() && m[j] == fi[k];
        vis.lemma_filter_pred(pred, j);
    }
}

/// While a search has text in the process view, a rebuild lists the
/// matches flat: every row at depth 0 with no prefix, in ascending snapshot
/// order when unsorted, and the selection within the list.
pub proof fn lemma_search_rebuild_flat(old: App, new: App)
    requires
        process_list_rebuilt(old, new),
        old.search_text@.len() > 0,
        old.main_view == MainView::Processes,
        old.snapshots@.len() <= usize::MAX,
    ensures
        new.tree_entries@.len() == new.filtered_indices@.len(),
        forall|k: int| 0 <= k < new.tree_entries@.len() ==> (#[trigger] new.tree_entries@[k])@
            == (new.filtered_indices@[k], 0nat, Seq::<char>::empty()),
        old.process_sort == ProcessSortField::Unsorted ==> forall|i: int, j: int|
            0 <= i < j < new.filtered_indices@.len() ==> #[trigger] new.filtered_indices@[i] < #[trigger] new.filtered_indices@[j],
        new.selected_index < new.filtered_indices@.len() || (new.filtered_indices@.len() == 0 && new.selected_index == 0),
{
    let s = old.snapshots@;
    let rows = process_rows(s, old.show_all, old.search_text@, old.main_view, old.process_sort, old.process_sort_dir);
    let fi = new.filtered_indices@;
    assert(fi == row_indices(rows));
    assert(new.tree_entries@.map_values(|e: super::TreeEntry| e@) == rows);
    assert forall|k: int| 0 <= k < new.tree_entries@.len() implies (#[trigger] new.tree_entries@[k])@
        == (fi[k], 0nat, Seq::<char>::empty()) by {
        assert(new.tree_entries@.map_values(|e: super::TreeEntry| e@)[k] == new.tree_entries@[k]@);
    }
    if old.process_sort == ProcessSortField::Unsorted {
        let all = Seq::new(s.len(), |i: int| i as usize);
        let vis = visible_spec(s, old.show_all);
        lemma_filter_ascending(all, |i: usize| old.show_all || s[i as int].accessible);
        lemma_filter_ascending(vis, |i: usize| process_matches(s[i as int], old.search_text@));
        assert(fi =~= search_matches(s, vis, old.search_text@));
    }
    let sel = anchored_row(s, fi, old.process_anchor, old.selected_index);
    assert(new.selected_index == sel);
    if let Some(q) = old.process_anchor {
        lemma_first_pid_pos(s, fi, q);
    }
}

/// Filtering a strictly ascending sequence keeps it strictly ascending,
/// and keeps only its own elements.
proof fn lemma_filter_ascending(v: Seq<usize>, pred: spec_fn(usize) -> bool)
    requires
        forall|i: int, j: int| 0 <= i < j < v.len() ==> #[trigger] v[i] < #[trigger] v[j],
    ensures
        forall|i: int, j: int| 0 <= i < j < v.filter(pred).len()
            ==> #[trigger] v.filter(pred)[i] < #[trigger] v.filter(pred)[j],
        forall|k: int| 0 <= k < v.filter(pred).len() ==> v.contains(#[trigger] v.filter(pred)[k]),
    decreases v.len(),
{
    if v.len() > 0 {
        let d = v.drop_last();
        assert forall|i: int, j: int| 0 <= i < j < d.len() implies #[trigger] d[i] < #[trigger] d[j] by {
            assert(d[i] == v[i] && d[j] == v[j]);
        }
        lemma_filter_ascending(d, pred);
        let fd = d.filter(pred);
        assert forall|k: int| 0 <= k < fd.len() implies fd[k] < v.last() && v.contains(fd[k]) by {
            let j = choose|j: int| 0 <= j < d.len() && d[j] == fd[k];
            assert(v[j] == d[j]);
            assert(v[j] < v[v.len() - 1]);
        }
        assert(v.contains(v.last())) by {
            assert(v[v.len() - 1] == v.last());
        }
        let f = v.filter(pred);
        reveal(Seq::filter);
        if pred(v.last()) {
            assert(f == fd.push(v.last()));
            assert forall|i: int, j: int| 0 <= i < j < f.len() implies #[trigger] f[i] < #[trigger] f[j] by {
                if j == fd.len() {
                    assert(f[i] == fd[i]);
                } else {
                    assert(f[i] == fd[i] && f[j] == fd[j]);
                }
            }
            assert forall|k: int| 0 <= k < f.len() implies v.contains(#[trigger] f[k]) by {
                if k < fd.len() {
                    assert(f[k] == fd[k]);
                }
            }
        } else {
            assert(f == fd);
        }
    }
}

/// What `first_pid_pos` finds: a row with the pid, before which no row
/// has it; -1 exactly when no row has it.
pub proof fn lemma_first_pid_pos(s: Seq<ProcessSnapshot>, fi: Seq<usize>, p: i32)
    ensures
        first_pid_pos(s, fi, p) < fi.len(),
        first_pid_pos(s, fi, p) >= 0 ==> s[fi[first_pid_pos(s, fi, p)] as int].pid == p,
        first_pid_pos(s, fi, p) >= 0 ==> forall|j: int| 0 <= j < first_pid_pos(s, fi, p) ==> #[trigger] s[fi[j] as int].pid != p,
        first_pid_pos(s, fi, p) < 0 <==> forall|j: int| 0 <= j < fi.len() ==> #[trigger] s[fi[j] as int].pid != p,
        first_pid_pos(s, fi, p) >= -1,
    decreases fi.len(),
{
    if fi.len() > 0 {
        let d = fi.drop_last();
        lemma_first_pid_pos(s, d, p);
        assert forall|j: int| 0 <= j < d.len() implies d[j] == fi[j] by {}
    }
}

/// A rebuild keeps the selection on the remembered process when it is
/// still listed; otherwise the selection stays within the list.
pub proof fn lemma_anchor_survives_rebuild(old: App, new: App, p: i32)
    requires
        process_list_rebuilt(old, new),
        new.wf(),
    ensures
        old.process_anchor == Some(p) && (exists|k: int| 0 <= k < new.filtered_indices@.len()
            && #[trigger] old.snapshots@[new.filtered_indices@[k] as int].pid == p)
            ==> new.process_anchor == Some(p) && new.selected_index < new.filtered_indices@.len(),
        new.filtered_indices@.len() > 0 ==> new.selected_index < new.filtered_indices@.len(),
        new.filtered_indices@.len() == 0 ==> new.selected_index == 0 && new.process_anchor is None,
{
    let fi = new.filtered_indices@;
    assert(new.snapshots == old.snapshots);
    let sel = new.selected_index;
    assert(sel == anchored_row(old.snapshots@, fi, old.process_anchor, old.selected_index));
    assert(fi.len() > 0 ==> clamp_row(old.selected_index, fi.len()) < fi.len());
    if old.process_anchor == Some(p) {
        lemma_first_pid_pos(old.snapshots@, fi, p);
        if exists|k: int| 0 <= k < fi.len() && #[trigger] old.snapshots@[fi[k] as int].pid == p {
            let k = choose|k: int| 0 <= k < fi.len() && #[trigger] old.snapshots@[fi[k] as int].pid == p;
            assert(old.snapshots@[fi[k] as int].pid == p);
            assert(first_pid_pos(old.snapshots@, fi, p) >= 0);
            assert(new.filtered_indices.len() == fi.len());
            assert(first_pid_pos(old.snapshots@, fi, p) < usize::MAX);
            assert(sel == first_pid_pos(old.snapshots@, fi, p));
            assert(fi[sel as int] < new.snapshots@.len());
        }
    }
    if let Some(q) = old.process_anchor {
        lemma_first_pid_pos(old.snapshots@, fi, q);
    }
}

/// Cycling the process sort goes through the tree order, pid, name and
/// total, and comes back after four steps; the file sort alternates
/// between the number of processes and the file name.
pub proof fn lemma_sort_cycles(f: ProcessSortField, g: FileSortField)
    ensures
        next_process_sort(next_process_sort(next_process_sort(next_process_sort(f).0).0).0).0 == f,
        next_process_sort(ProcessSortField::Unsorted).0 == ProcessSortField::Pid,
        next_process_sort(ProcessSortField::Pid).0 == ProcessSortField::Name,
        next_process_sort(ProcessSortField::Name).0 == ProcessSortField::Total,
        next_file_sort(next_file_sort(g).0).0 == g,
        next_file_sort(g).0 != g,
{
}

/// Reversing a direction twice gives it back.
pub proof fn lemma_flip_twice(d: SortDirection)
    ensures
        flipped(flipped(d)) == d,
        flipped(d) != d,
{
}

/// Flipping the same flag twice gives the flags back.
pub proof fn lemma_toggle_twice(flags: Seq<bool>, i: int)
    requires
        0 <= i < flags.len(),
    ensures
        flags.update(i, !flags[i]).update(i, !flags.update(i, !flags[i])[i]) == flags,
{
    assert(flags.update(i, !flags[i]).update(i, !flags.update(i, !flags[i])[i]) =~= flags);
}

/// The next and the previous info tab undo each other, and four steps
/// either way come back to the same tab.
pub proof fn lemma_info_tabs_cycle(t: int)
    requires
        0 <= t < 4,
    ensures
        ((t + 1) % 4 + 3) % 4 == t,
        ((t + 3) % 4 + 1) % 4 == t,
        0 <= (t + 1) % 4 < 4,
        0 <= (t + 3) % 4 < 4,
        (((t + 1) % 4 + 1) % 4 + 1) % 4 == (t + 3) % 4,
{
}

/// The pids of the snapshots with one more snapshot.
proof fn lemma_pids_push(s: Seq<ProcessSnapshot>)
    requires
        s.len() > 0,
    ensures
        pids_of(s) == pids_of(s.drop_last()).insert(s.last().pid),
{
    let f = |p: ProcessSnapshot| p.pid;
    assert(s.map_values(f) =~= s.drop_last().map_values(f).push(s.last().pid));
    s.drop_last().map_values(f).lemma_push_to_set_commute(s.last().pid);
}

/// Recording snapshots gives a history and counters to every pid recorded,
/// keeping those there were.
proof fn lemma_fold_domain(
    hist: Map<i32, super::history::HistoryView<super::history::CpuShare>>,
    counters: Map<i32, super::history::ProcessCounters>,
    shares: Map<i32, super::history::CpuShare>,
    charts: Seq<bool>,
    elapsed_ns: u64,
    s: Seq<ProcessSnapshot>,
)
    ensures
        history_fold(hist, counters, shares, charts, elapsed_ns, s).0.dom() == hist.dom().union(pids_of(s)),
        history_fold(hist, counters, shares, charts, elapsed_ns, s).1.dom() == counters.dom().union(pids_of(s)),
    decreases s.len(),
{
    if s.len() == 0 {
        assert(pids_of(s) =~= Set::<i32>::empty());
        assert(hist.dom().union(pids_of(s)) =~= hist.dom());
        assert(counters.dom().union(pids_of(s)) =~= counters.dom());
    } else {
        lemma_fold_domain(hist, counters, shares, charts, elapsed_ns, s.drop_last());
        lemma_pids_push(s);
        let (h, c) = history_fold(hist, counters, shares, charts, elapsed_ns, s);
        assert(h.dom() =~= hist.dom().union(pids_of(s)));
        assert(c.dom() =~= counters.dom().union(pids_of(s)));
    }
}

/// After a refresh records its snapshots, exactly the processes of the
/// refresh have a history and counters: new ones get one, gone ones lose
/// theirs.
pub proof fn lemma_history_tracks_live(old: App, new: App, s: Seq<ProcessSnapshot>, elapsed_ns: u64)
    requires
        history_recorded(old, new, s, elapsed_ns),
    ensures
        new.process_history@.dom() == pids_of(s),
        new.prev_counters@.dom() == pids_of(s),
{
    lemma_fold_domain(
        history_views(old.process_history@),
        old.prev_counters@,
        old.cpu_percentages@,
        old.chart_config.enabled@,
        elapsed_ns,
        s,
    );
    assert(history_views(new.process_history@).dom() == new.process_history@.dom());
    assert(new.process_history@.dom() =~= pids_of(s));
    assert(new.prev_counters@.dom() =~= pids_of(s));
}

/// A CPU share is only given to a process of the refresh that was seen at
/// the previous one, and none at all when no time has passed.
pub proof fn lemma_cpu_shares_domain(prev: Map<i32, u64>, s: Seq<ProcessSnapshot>, elapsed_ns: u64)
    ensures
        forall|p: i32| #[trigger] cpu_shares(prev, s, elapsed_ns).contains_key(p)
            ==> prev.contains_key(p) && pids_of(s).contains(p),
        elapsed_ns == 0 ==> cpu_shares(prev, s, elapsed_ns) == Map::<i32, super::history::CpuShare>::empty(),
    decreases s.len(),
{
    if s.len() > 0 && elapsed_ns > 0 {
        lemma_cpu_shares_domain(prev, s.drop_last(), elapsed_ns);
        lemma_pids_push(s);
        let m = cpu_shares(prev, s.drop_last(), elapsed_ns);
        assert forall|p: i32| #[trigger] cpu_shares(prev, s, elapsed_ns).contains_key(p)
            implies prev.contains_key(p) && pids_of(s).contains(p) by {
            if p != s.last().pid {
                assert(m.contains_key(p));
            }
        }
    }
    if s.len() == 0 {
        assert(pids_of(s) =~= Set::<i32>::empty());
    }
}

/// After a successful refresh, exactly the processes read have a history
/// and counters, and a CPU share is only given to a process read now that
/// was also read at the previous refresh.
pub proof fn lemma_refresh_tracks_live(a: App, b: App)
    requires
        refreshed(a, b),
        b.status_message is None,
    ensures
        b.process_history@.dom() == pids_of(b.snapshots@),
        b.prev_counters@.dom() == pids_of(b.snapshots@),
        forall|p: i32| #[trigger] b.cpu_percentages@.contains_key(p)
            ==> a.prev_cpu_times@.contains_key(p) && pids_of(b.snapshots@).contains(p),
{
    reveal(refreshed);
    let s = b.snapshots@;
    let (m1, m2, m3, m4) = choose|m1: App, m2: App, m3: App, m4: App|
        #![trigger cpu_recorded(a, s, m1), history_step(m1, s, m2), installed(m2, s, m3), summary_reread(m3, m4)]
    {
        &&& cpu_recorded(a, s, m1)
        &&& history_step(m1, s, m2)
        &&& installed(m2, s, m3)
        &&& summary_reread(m3, m4)
        &&& b == (App { last_refresh: b.last_refresh, status_message: None, ..m4 })
    };
    let e = choose|e: u64| (m1.prev_refresh is None ==> e == 0) && #[trigger] history_recorded(m1, m2, s, e);
    lemma_history_tracks_live(m1, m2, s, e);
    let with_new = App { snapshots: m3.snapshots, ..m2 };
    let mid = choose|mid: App| process_list_rebuilt(with_new, mid) && file_list_rebuilt(mid, m3);
    assert(m3.process_history == m2.process_history && m3.prev_counters == m2.prev_counters);
    assert(m3.cpu_percentages == m1.cpu_percentages);
    assert(m4.process_history == m3.process_history && m4.prev_counters == m3.prev_counters);
    assert(m4.cpu_percentages == m3.cpu_percentages && m4.snapshots == m3.snapshots);
    if a.column_config.enabled@[column_pos(Column::Cpu)] {
        let el = choose|el: u64| {
            &&& (a.prev_refresh is None ==> el == 0)
            &&& m1.cpu_percentages@ == cpu_shares(a.prev_cpu_times@, s, el)
            &&& m1.prev_cpu_times@ == cpu_times(s)
            &&& m1.prev_refresh is Some
            &&& m1 == (App {
                cpu_percentages: m1.cpu_percentages,
                prev_cpu_times: m1.prev_cpu_times,
                prev_refresh: m1.prev_refresh,
                ..a
            })
        };
        lemma_cpu_shares_domain(a.prev_cpu_times@, s, el);
    }
}

/// The entries grouped by path have distinct paths, and every record's
/// path has an entry.
pub proof fn lemma_group_paths(rs: Seq<(Seq<char>, OpenerView)>)
    ensures
        forall|i: int, j: int| 0 <= i < j < group_records(rs).len()
            ==> #[trigger] group_records(rs)[i].0 != #[trigger] group_records(rs)[j].0,
        forall|k: int| 0 <= k < rs.len() ==> path_pos(group_records(rs), #[trigger] rs[k].0) >= 0,
    decreases rs.len(),
{
    if rs.len() > 0 {
        let d = rs.drop_last();
        lemma_group_paths(d);
        let g = group_records(d);
        let r = rs.last();
        lemma_path_pos(g, r.0);
        let g2 = add_record(g, r);
        assert forall|i: int, j: int| 0 <= i < j < g2.len() implies #[trigger] g2[i].0 != #[trigger] g2[j].0 by {
            if path_pos(g, r.0) < 0 && j == g.len() {
                assert(g2[i] == g[i]);
            } else if path_pos(g, r.0) >= 0 {
                assert(g2[i].0 == g[i].0 && g2[j].0 == g[j].0);
            } else {
                assert(g2[i] == g[i] && g2[j] == g[j]);
            }
        }
        assert forall|k: int| 0 <= k < rs.len() implies path_pos(g2, #[trigger] rs[k].0) >= 0 by {
            lemma_path_pos(g2, rs[k].0);
            if k < d.len() {
                assert(d[k] == rs[k]);
                lemma_path_pos(g, d[k].0);
                let q = path_pos(g, d[k].0);
                assert(g2[q].0 == g[q].0);
            } else {
                if path_pos(g, r.0) >= 0 {
                    let q = path_pos(g, r.0);
                    assert(g2[q].0 == r.0);
                } else {
                    assert(g2[g.len() as int].0 == r.0);
                }
            }
        }
    }
}

/// The openers of the records with path `p`, in record order.
pub open spec fn openers_of(rs: Seq<(Seq<char>, OpenerView)>, p: Seq<char>) -> Seq<OpenerView>
    decreases rs.len(),
{
    if rs.len() == 0 {
        Seq::empty()
    } else if rs.last().0 == p {
        openers_of(rs.drop_last(), p).push(rs.last().1)
    } else {
        openers_of(rs.drop_last(), p)
    }
}

/// No record with the path, no opener.
proof fn lemma_openers_absent(rs: Seq<(Seq<char>, OpenerView)>, p: Seq<char>)
    requires
        forall|j: int| 0 <= j < rs.len() ==> #[trigger] rs[j].0 != p,
    ensures
        openers_of(rs, p) == Seq::<OpenerView>::empty(),
    decreases rs.len(),
{
    if rs.len() > 0 {
        let d = rs.drop_last();
        assert forall|j: int| 0 <= j < d.len() implies #[trigger] d[j].0 != p by {
            assert(d[j] == rs[j]);
        }
        lemma_openers_absent(d, p);
    }
}

/// Each grouped entry holds exactly the openers of the records with its
/// path, in record order, and its path is that of some record.
pub proof fn lemma_group_openers(rs: Seq<(Seq<char>, OpenerView)>)
    ensures
        forall|k: int| 0 <= k < group_records(rs).len()
            ==> #[trigger] group_records(rs)[k].1 == openers_of(rs, group_records(rs)[k].0),
        forall|k: int| 0 <= k < group_records(rs).len()
            ==> exists|j: int| 0 <= j < rs.len() && rs[j].0 == #[trigger] group_records(rs)[k].0,
    decreases rs.len(),
{
    if rs.len() > 0 {
        let d = rs.drop_last();
        lemma_group_openers(d);
        lemma_group_paths(d);
        lemma_group_paths(rs);
        let g = group_records(d);
        let r = rs.last();
        lemma_path_pos(g, r.0);
        let g2 = group_records(rs);
        assert(g2 == add_record(g, r));
        let q = path_pos(g, r.0);
        if q < 0 {
            assert forall|j: int| 0 <= j < d.len() implies #[trigger] d[j].0 != r.0 by {
                assert(path_pos(g, d[j].0) >= 0);
                lemma_path_pos(g, d[j].0);
            }
            lemma_openers_absent(d, r.0);
        }
        assert forall|k: int| 0 <= k < g2.len() implies #[trigger] g2[k].1 == openers_of(rs, g2[k].0) by {
            if q >= 0 {
                if k != q {
                    assert(g[k].0 != g[q].0);
                }
            } else if k < g.len() {
                assert(g[k].0 != r.0);
            }
        }
        assert forall|k: int| 0 <= k < g2.len() implies exists|j: int| 0 <= j < rs.len() && rs[j].0 == #[trigger] g2[k].0 by {
            if k < g.len() && (q < 0 || k != q) {
                let j = choose|j: int| 0 <= j < d.len() && d[j].0 == g[k].0;
                assert(rs[j] == d[j]);
            } else {
                assert(rs[rs.len() - 1].0 == g2[k].0);
            }
        }
    }
}

/// The file list of the listed processes: one entry per path that some
/// listed process holds, each path once, each with exactly the processes
/// (and descriptors) holding it in snapshot-then-resource order.
pub proof fn lemma_file_rows_openers(s: Seq<ProcessSnapshot>, show_all: bool, field: FileSortField, dir: SortDirection)
    ensures
        ({
            let rs = file_records(s, show_all);
            let f = file_entries_spec(s, show_all, field, dir);
            &&& forall|i: int, j: int| 0 <= i < j < f.len() ==> #[trigger] f[i].0 != #[trigger] f[j].0
            &&& forall|k: int| 0 <= k < f.len() ==> #[trigger] f[k].1 == openers_of(rs, f[k].0)
            &&& forall|k: int| 0 <= k < f.len() ==> exists|j: int| 0 <= j < rs.len() && rs[j].0 == #[trigger] f[k].0
            &&& forall|j: int| 0 <= j < rs.len() ==> exists|k: int| 0 <= k < f.len() && #[trigger] f[k].0 == #[trigger] rs[j].0
        }),
{
    let rs = file_records(s, show_all);
    let g = group_records(rs);
    let f = file_entries_spec(s, show_all, field, dir);
    lemma_file_rows_sorted(s, show_all, field, dir);
    lemma_group_openers(rs);
    lemma_group_paths(rs);
    lemma_same_entries(f, g);
    assert forall|k: int| 0 <= k < f.len() implies #[trigger] f[k].1 == openers_of(rs, f[k].0) by {
        let m = choose|m: int| 0 <= m < g.len() && g[m] == f[k];
    }
    assert forall|k: int| 0 <= k < f.len() implies exists|j: int| 0 <= j < rs.len() && rs[j].0 == #[trigger] f[k].0 by {
        let m = choose|m: int| 0 <= m < g.len() && g[m] == f[k];
        assert(g[m].0 == f[k].0);
    }
    assert forall|j: int| 0 <= j < rs.len() implies exists|k: int| 0 <= k < f.len() && #[trigger] f[k].0 == #[trigger] rs[j].0 by {
        lemma_path_pos(g, rs[j].0);
        let m = path_pos(g, rs[j].0);
        let k = choose|k: int| 0 <= k < f.len() && f[k] == g[m];
    }
}

/// A reordering of entries with distinct paths holds the same entries, and
/// its paths are distinct too.
proof fn lemma_same_entries(f: Seq<EntryView>, g: Seq<EntryView>)
    requires
        f.to_multiset() == g.to_multiset(),
        forall|i: int, j: int| 0 <= i < j < g.len() ==> #[trigger] g[i].0 != #[trigger] g[j].0,
    ensures
        forall|k: int| 0 <= k < f.len() ==> g.contains(#[trigger] f[k]),
        forall|m: int| 0 <= m < g.len() ==> f.contains(#[trigger] g[m]),
        forall|i: int, j: int| 0 <= i < j < f.len() ==> #[trigger] f[i].0 != #[trigger] f[j].0,
{
    assert forall|k: int| 0 <= k < f.len() implies g.contains(#[trigger] f[k]) by {
        f.to_multiset_ensures();
        g.to_multiset_ensures();
        assert(f.contains(f[k]));
        assert(f.to_multiset().count(f[k]) > 0);
        assert(g.to_multiset().count(f[k]) > 0);
        assert(g.contains(f[k]));
    }
    assert forall|m: int| 0 <= m < g.len() implies f.contains(#[trigger] g[m]) by {
        f.to_multiset_ensures();
        g.to_multiset_ensures();
        assert(g.contains(g[m]));
        assert(g.to_multiset().count(g[m]) > 0);
        assert(f.to_multiset().count(g[m]) > 0);
        assert(f.contains(g[m]));
    }
    lemma_distinct_paths_no_dup(g);
    g.lemma_multiset_has_no_duplicates();
    assert forall|x: EntryView| f.to_multiset().contains(x) implies f.to_multiset().count(x) == 1 by {
        assert(g.to_multiset().contains(x));
    }
    f.lemma_multiset_has_no_duplicates_conv();
    lemma_no_dup_paths(f, g);
}

/// Entries with distinct paths are distinct.
proof fn lemma_distinct_paths_no_dup(g: Seq<EntryView>)
    requires
        forall|i: int, j: int| 0 <= i < j < g.len() ==> #[trigger] g[i].0 != #[trigger] g[j].0,
    ensures
        g.no_duplicates(),
{
    assert forall|i: int, j: int| 0 <= i < g.len() && 0 <= j < g.len() && i != j implies g[i] != g[j] by {
        if i < j {
            assert(g[i].0 != g[j].0);
        } else {
            assert(g[j].0 != g[i].0);
        }
    }
}

/// Distinct entries drawn from entries with distinct paths have distinct
/// paths.
proof fn lemma_no_dup_paths(f: Seq<EntryView>, g: Seq<EntryView>)
    requires
        f.no_duplicates(),
        forall|k: int| 0 <= k < f.len() ==> g.contains(#[trigger] f[k]),
        forall|i: int, j: int| 0 <= i < j < g.len() ==> #[trigger] g[i].0 != #[trigger] g[j].0,
    ensures
        forall|i: int, j: int| 0 <= i < j < f.len() ==> #[trigger] f[i].0 != #[trigger] f[j].0,
{
    assert forall|i: int, j: int| 0 <= i < j < f.len() implies #[trigger] f[i].0 != #[trigger] f[j].0 by {
        let mi = choose|m: int| 0 <= m < g.len() && g[m] == f[i];
        let mj = choose|m: int| 0 <= m < g.len() && g[m] == f[j];
        assert(f[i] != f[j]);
        if mi < mj {
            assert(g[mi].0 != g[mj].0);
        } else if mj < mi {
            assert(g[mj].0 != g[mi].0);
        }
    }
}

/// What `path_pos` finds: an entry with the path, -1 exactly when none.
pub proof fn lemma_path_pos(g: Seq<EntryView>, p: Seq<char>)
    ensures
        path_pos(g, p) < g.len(),
        path_pos(g, p) >= 0 ==> g[path_pos(g, p)].0 == p,
        path_pos(g, p) < 0 <==> forall|j: int| 0 <= j < g.len() ==> #[trigger] g[j].0 != p,
        path_pos(g, p) >= -1,
    decreases g.len(),
{
    if g.len() > 0 {
        lemma_path_pos(g.drop_last(), p);
        assert forall|j: int| 0 <= j < g.len() - 1 implies g.drop_last()[j] == g[j] by {}
    }
}

/// What `first_path_pos` finds: a row with the path, before which no row
/// has it; -1 exactly when no row has it.
pub proof fn lemma_first_path_pos(es: Seq<EntryView>, fi: Seq<usize>, p: Seq<char>)
    ensures
        first_path_pos(es, fi, p) < fi.len(),
        first_path_pos(es, fi, p) >= 0 ==> es[fi[first_path_pos(es, fi, p)] as int].0 == p,
        first_path_pos(es, fi, p) < 0 <==> forall|j: int| 0 <= j < fi.len() ==> #[trigger] es[fi[j] as int].0 != p,
        first_path_pos(es, fi, p) >= -1,
    decreases fi.len(),
{
    if fi.len() > 0 {
        let d = fi.drop_last();
        lemma_first_path_pos(es, d, p);
        assert forall|j: int| 0 <= j < d.len() implies d[j] == fi[j] by {}
    }
}

/// A rebuild of the file list leaves the processes as they were and lists
/// every path that a listed process holds, each once, with exactly the
/// processes and descriptors that hold it in snapshot-then-resource order,
/// sorted by the file sort; the search keeps the matching rows; and the
/// selection stays on the remembered path while it is still listed, else
/// keeps its row within the list.
pub proof fn lemma_file_rebuild(old: App, new: App)
    requires
        file_list_rebuilt(old, new),
        new.wf(),
    ensures
        new.snapshots == old.snapshots,
        ({
            let es = entries_view(new.file_entries@);
            let rs = file_records(old.snapshots@, old.show_all);
            &&& forall|i: int, j: int| 0 <= i < j < es.len() ==> #[trigger] es[i].0 != #[trigger] es[j].0
            &&& forall|k: int| 0 <= k < es.len() ==> #[trigger] es[k].1 == openers_of(rs, es[k].0)
            &&& forall|k: int| 0 <= k < es.len() ==> exists|j: int| 0 <= j < rs.len() && rs[j].0 == #[trigger] es[k].0
            &&& forall|j: int| 0 <= j < rs.len() ==> exists|k: int| 0 <= k < es.len() && #[trigger] es[k].0 == #[trigger] rs[j].0
            &&& sorted_by(entry_before(old.file_sort, old.file_sort_dir), es)
            &&& new.filtered_file_indices@ == file_filter_spec(es, old.search_text@,
                old.search_text@.len() > 0 && old.main_view == MainView::Files)
        }),
        forall|p: Seq<char>| opt_text(old.file_anchor) == Some(p) && (exists|k: int| 0 <= k < new.filtered_file_indices@.len()
            && #[trigger] entries_view(new.file_entries@)[new.filtered_file_indices@[k] as int].0 == p)
            ==> opt_text(new.file_anchor) == Some(p),
        (opt_text(old.file_anchor) is None || forall|k: int| 0 <= k < new.filtered_file_indices@.len()
            ==> #[trigger] entries_view(new.file_entries@)[new.filtered_file_indices@[k] as int].0 != opt_text(old.file_anchor)->Some_0)
            ==> new.file_selected_index == clamp_row(old.file_selected_index, new.filtered_file_indices@.len()),
        opt_text(new.file_anchor) == path_at(entries_view(new.file_entries@), new.filtered_file_indices@, new.file_selected_index),
{
    lemma_file_rows_openers(old.snapshots@, old.show_all, old.file_sort, old.file_sort_dir);
    lemma_file_rows_sorted(old.snapshots@, old.show_all, old.file_sort, old.file_sort_dir);
    let es = entries_view(new.file_entries@);
    let fi = new.filtered_file_indices@;
    assert(fi == file_row_indices(old));
    assert(new.file_entries@.len() == es.len());
    if let Some(p) = opt_text(old.file_anchor) {
        lemma_first_path_pos(es, fi, p);
        if exists|k: int| 0 <= k < fi.len() && #[trigger] es[fi[k] as int].0 == p {
            let k = choose|k: int| 0 <= k < fi.len() && #[trigger] es[fi[k] as int].0 == p;
            assert(es[fi[k] as int].0 == p);
            let q = first_path_pos(es, fi, p);
            assert(q >= 0);
            assert(new.filtered_file_indices.len() == fi.len());
            assert(q < usize::MAX);
            assert(new.file_selected_index == q);
            assert(fi[q] < new.file_entries@.len());
        }
    }
}

/// Recording a CPU sample with the CPU column off clears the shares, the
/// times and the time of the last sample. With it on, it keeps the CPU
/// time of every process read, marks the time of the sample, and gives a
/// share only to a process read now that was also read at the previous
/// sample; none at all when there was no previous sample.
pub proof fn lemma_cpu_sample(a: App, s: Seq<ProcessSnapshot>, b: App)
    requires
        cpu_recorded(a, s, b),
    ensures
        !a.column_config.enabled@[column_pos(Column::Cpu)] ==> b.cpu_percentages@ == Map::<i32, super::history::CpuShare>::empty()
            && b.prev_cpu_times@ == Map::<i32, u64>::empty() && b.prev_refresh is None,
        a.column_config.enabled@[column_pos(Column::Cpu)] ==> {
            &&& b.prev_cpu_times@ == cpu_times(s)
            &&& b.prev_refresh is Some
            &&& forall|p: i32| #[trigger] b.cpu_percentages@.contains_key(p)
                ==> a.prev_cpu_times@.contains_key(p) && pids_of(s).contains(p)
            &&& a.prev_refresh is None ==> b.cpu_percentages@ == Map::<i32, super::history::CpuShare>::empty()
        },
        b.snapshots == a.snapshots,
{
    if a.column_config.enabled@[column_pos(Column::Cpu)] {
        let el = choose|el: u64| {
            &&& (a.prev_refresh is None ==> el == 0)
            &&& b.cpu_percentages@ == cpu_shares(a.prev_cpu_times@, s, el)
            &&& b.prev_cpu_times@ == cpu_times(s)
            &&& b.prev_refresh is Some
            &&& b == (App {
                cpu_percentages: b.cpu_percentages,
                prev_cpu_times: b.prev_cpu_times,
                prev_refresh: b.prev_refresh,
                ..a
            })
        };
        lemma_cpu_shares_domain(a.prev_cpu_times@, s, el);
    }
}

/// The CPU share of a process read at the previous refresh is the CPU
/// time it used since then (the cumulative time now less the one then,
/// or zero if the counter went back) over the time that passed; for a pid
/// read twice in one refresh its last reading counts.
pub proof fn lemma_cpu_share_is_delta(prev: Map<i32, u64>, s: Seq<ProcessSnapshot>, elapsed_ns: u64, k: int)
    requires
        0 <= k < s.len(),
        elapsed_ns > 0,
        prev.contains_key(s[k].pid),
        forall|j: int| k < j < s.len() ==> #[trigger] s[j].pid != s[k].pid,
    ensures
        cpu_shares(prev, s, elapsed_ns).contains_key(s[k].pid),
        cpu_shares(prev, s, elapsed_ns)[s[k].pid].elapsed_ns == elapsed_ns,
        s[k].activity.cpu_time_ns >= prev[s[k].pid] ==> cpu_shares(prev, s, elapsed_ns)[s[k].pid].cpu_ns
            + prev[s[k].pid] == s[k].activity.cpu_time_ns,
        s[k].activity.cpu_time_ns < prev[s[k].pid] ==> cpu_shares(prev, s, elapsed_ns)[s[k].pid].cpu_ns == 0,
    decreases s.len(),
{
    if k < s.len() - 1 {
        let d = s.drop_last();
        assert forall|j: int| k < j < d.len() implies #[trigger] d[j].pid != d[k].pid by {
            assert(d[j] == s[j] && d[k] == s[k]);
        }
        assert(d[k] == s[k]);
        lemma_cpu_share_is_delta(prev, d, elapsed_ns, k);
        assert(s.last().pid != s[k].pid);
    }
}

/// The CPU time kept for the next refresh is each process's cumulative
/// CPU time as read now (its last reading when a pid is read twice), and
/// only the pids read now are kept.
pub proof fn lemma_cpu_times_kept(s: Seq<ProcessSnapshot>)
    ensures
        forall|p: i32| #[trigger] cpu_times(s).contains_key(p) <==> exists|k: int| 0 <= k < s.len() && s[k].pid == p,
        forall|k: int| 0 <= k < s.len() && (forall|j: int| k < j < s.len() ==> #[trigger] s[j].pid != s[k].pid)
            ==> #[trigger] cpu_times(s)[s[k].pid] == s[k].activity.cpu_time_ns,
    decreases s.len(),
{
    if s.len() > 0 {
        let d = s.drop_last();
        lemma_cpu_times_kept(d);
        assert forall|p: i32| #[trigger] cpu_times(s).contains_key(p) <==> exists|k: int| 0 <= k < s.len() && s[k].pid == p by {
            if cpu_times(s).contains_key(p) {
                if p != s.last().pid {
                    assert(cpu_times(d).contains_key(p));
                    let k = choose|k: int| 0 <= k < d.len() && d[k].pid == p;
                    assert(s[k] == d[k]);
                } else {
                    assert(s[s.len() - 1].pid == p);
                }
            }
            if exists|k: int| 0 <= k < s.len() && s[k].pid == p {
                let k = choose|k: int| 0 <= k < s.len() && s[k].pid == p;
                if k < d.len() {
                    assert(d[k] == s[k]);
                    assert(cpu_times(d).contains_key(p));
                }
            }
        }
        assert forall|k: int| 0 <= k < s.len() && (forall|j: int| k < j < s.len() ==> #[trigger] s[j].pid != s[k].pid)
            implies #[trigger] cpu_times(s)[s[k].pid] == s[k].activity.cpu_time_ns by {
            if k < d.len() {
                assert(s.last().pid != s[k].pid);
                assert(d[k] == s[k]);
                assert forall|j: int| k < j < d.len() implies #[trigger] d[j].pid != d[k].pid by {
                    assert(d[j] == s[j]);
                }
                assert(cpu_times(d)[d[k].pid] == d[k].activity.cpu_time_ns);
            }
        }
    }
}

/// A process matches a search exactly when the lowercase query occurs
/// somewhere (not only at the start) in its lowercase name, or somewhere in
/// its pid in decimal.
pub proof fn lemma_match_is_substring(p: ProcessSnapshot, query: Seq<char>)
    ensures
        process_matches(p, query) <==> (
            (exists|i: int| 0 <= i && i + lowercase(query).len() <= lowercase(p.name@).len()
                && #[trigger] lowercase(p.name@).subrange(i, i + lowercase(query).len()) == lowercase(query))
            || (exists|i: int| 0 <= i && i + lowercase(query).len() <= int_dec(p.pid as int).len()
                && #[trigger] int_dec(p.pid as int).subrange(i, i + lowercase(query).len()) == lowercase(query))
        ),
{
    let q = lowercase(query);
    let n = lowercase(p.name@);
    let d = int_dec(p.pid as int);
    if exists|i: int| 0 <= i && i + q.len() <= n.len() && #[trigger] n.subrange(i, i + q.len()) == q {
        let i = choose|i: int| 0 <= i && i + q.len() <= n.len() && #[trigger] n.subrange(i, i + q.len()) == q;
        assert(occurs_at(q, n, i));
    }
    if exists|i: int| 0 <= i && i + q.len() <= d.len() && #[trigger] d.subrange(i, i + q.len()) == q {
        let i = choose|i: int| 0 <= i && i + q.len() <= d.len() && #[trigger] d.subrange(i, i + q.len()) == q;
        assert(occurs_at(q, d, i));
    }
    if is_infix(q, n) {
        let i = choose|i: int| occurs_at(q, n, i);
        assert(n.subrange(i, i + q.len()) == q);
    }
    if is_infix(q, d) {
        let i = choose|i: int| occurs_at(q, d, i);
        assert(d.subrange(i, i + q.len()) == q);
    }
}

/// While a search has text, every listed process whose lowercase name
/// holds the lowercase query anywhere is among the rows.
pub proof fn lemma_search_finds_substring(
    s: Seq<ProcessSnapshot>,
    show_all: bool,
    query: Seq<char>,
    field: ProcessSortField,
    dir: SortDirection,
    k: int,
    at: int,
)
    requires
        query.len() > 0,
        0 <= k < s.len(),
        s.len() <= usize::MAX,
        show_all || s[k].accessible,
        0 <= at && at + lowercase(query).len() <= lowercase(s[k].name@).len(),
        lowercase(s[k].name@).subrange(at, at + lowercase(query).len()) == lowercase(query),
    ensures
        row_indices(process_rows(s, show_all, query, MainView::Processes, field, dir)).contains(k as usize),
{
    broadcast use vstd::seq_lib::group_to_multiset_ensures;
    lemma_match_is_substring(s[k], query);
    assert(process_matches(s[k], query));
    let all = Seq::new(s.len(), |i: int| i as usize);
    let vpred = |i: usize| show_all || s[i as int].accessible;
    let vis = visible_spec(s, show_all);
    all.filter_lemma(vpred);
    assert(all[k] == k as usize);
    assert(vis.contains(k as usize));
    let j = choose|j: int| 0 <= j < vis.len() && vis[j] == k as usize;
    let mpred = |i: usize| process_matches(s[i as int], query);
    vis.filter_lemma(mpred);
    let m = search_matches(s, vis, query);
    assert(m.contains(k as usize));
    lemma_search_rows(s, show_all, query, field, dir);
    let fi = row_indices(process_rows(s, show_all, query, MainView::Processes, field, dir));
    assert(m.to_multiset().count(k as usize) > 0);
    assert(fi.to_multiset().count(k as usize) > 0);
}

/// A list sorted by a process order has its keys in order: pids rising
/// (falling when descending) for the pid order and the tree order, numbers
/// of resources rising (falling) for the total, and lowercase names never
/// going back (never going forward) for the name.
pub proof fn lemma_sorted_keys(s: Seq<ProcessSnapshot>, field: ProcessSortField, dir: SortDirection, xs: Seq<usize>)
    requires
        sorted_by(goes_before(s, field, dir), xs),
    ensures
        forall|i: int, j: int| 0 <= i < j < xs.len() ==> {
            let a = s[#[trigger] xs[i] as int];
            let b = s[#[trigger] xs[j] as int];
            &&& (field == ProcessSortField::Pid || field == ProcessSortField::Unsorted) && dir == SortDirection::Asc
                ==> a.pid <= b.pid
            &&& (field == ProcessSortField::Pid || field == ProcessSortField::Unsorted) && dir == SortDirection::Desc
                ==> a.pid >= b.pid
            &&& field == ProcessSortField::Total && dir == SortDirection::Asc ==> a.resources@.len() <= b.resources@.len()
            &&& field == ProcessSortField::Total && dir == SortDirection::Desc ==> a.resources@.len() >= b.resources@.len()
            &&& field == ProcessSortField::Name && dir == SortDirection::Asc ==> !lex_lt(lowercase(b.name@), lowercase(a.name@))
            &&& field == ProcessSortField::Name && dir == SortDirection::Desc ==> !lex_lt(lowercase(a.name@), lowercase(b.name@))
        },
{
    assert forall|i: int, j: int| 0 <= i < j < xs.len() implies {
        let a = s[#[trigger] xs[i] as int];
        let b = s[#[trigger] xs[j] as int];
        &&& (field == ProcessSortField::Pid || field == ProcessSortField::Unsorted) && dir == SortDirection::Asc
            ==> a.pid <= b.pid
        &&& (field == ProcessSortField::Pid || field == ProcessSortField::Unsorted) && dir == SortDirection::Desc
            ==> a.pid >= b.pid
        &&& field == ProcessSortField::Total && dir == SortDirection::Asc ==> a.resources@.len() <= b.resources@.len()
        &&& field == ProcessSortField::Total && dir == SortDirection::Desc ==> a.resources@.len() >= b.resources@.len()
        &&& field == ProcessSortField::Name && dir == SortDirection::Asc ==> !lex_lt(lowercase(b.name@), lowercase(a.name@))
        &&& field == ProcessSortField::Name && dir == SortDirection::Desc ==> !lex_lt(lowercase(a.name@), lowercase(b.name@))
    } by {
        assert(!goes_before(s, field, dir)(xs[j], xs[i]));
    }
}

/// A file list sorted by a file order has its keys in order: numbers of
/// processes rising (falling when descending) for the process count, and
/// file names, then paths, never going back (forward) for the name.
pub proof fn lemma_sorted_file_keys(field: FileSortField, dir: SortDirection, es: Seq<EntryView>)
    requires
        sorted_by(entry_before(field, dir), es),
    ensures
        forall|i: int, j: int| 0 <= i < j < es.len() ==> {
            let a = #[trigger] es[i];
            let b = #[trigger] es[j];
            &&& field == FileSortField::ProcessCount && dir == SortDirection::Asc ==> a.1.len() <= b.1.len()
            &&& field == FileSortField::ProcessCount && dir == SortDirection::Desc ==> a.1.len() >= b.1.len()
            &&& field == FileSortField::Filename && dir == SortDirection::Asc ==> !(lex_lt(file_name(b.0), file_name(a.0))
                || (file_name(b.0) == file_name(a.0) && lex_lt(b.0, a.0)))
            &&& field == FileSortField::Filename && dir == SortDirection::Desc ==> !(lex_lt(file_name(a.0), file_name(b.0))
                || (file_name(a.0) == file_name(b.0) && lex_lt(a.0, b.0)))
        },
{
    assert forall|i: int, j: int| 0 <= i < j < es.len() implies {
        let a = #[trigger] es[i];
        let b = #[trigger] es[j];
        &&& field == FileSortField::ProcessCount && dir == SortDirection::Asc ==> a.1.len() <= b.1.len()
        &&& field == FileSortField::ProcessCount && dir == SortDirection::Desc ==> a.1.len() >= b.1.len()
        &&& field == FileSortField::Filename && dir == SortDirection::Asc ==> !(lex_lt(file_name(b.0), file_name(a.0))
            || (file_name(b.0) == file_name(a.0) && lex_lt(b.0, a.0)))
        &&& field == FileSortField::Filename && dir == SortDirection::Desc ==> !(lex_lt(file_name(a.0), file_name(b.0))
            || (file_name(a.0) == file_name(b.0) && lex_lt(a.0, b.0)))
    } by {
        assert(!entry_before(field, dir)(es[j], es[i]));
    }
}

} // verus!
