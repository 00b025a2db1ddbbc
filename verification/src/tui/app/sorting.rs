//! Ordering of processes for the process list.
use vstd::prelude::*;

use crate::models::ProcessSnapshot;
use crate::sort::{lemma_insert_at, sort_by};
use crate::text::{chars_of, compare_chars, lex_lt, lowercase, to_lowercase, Rank};

use crate::text::push_str;
use super::state::{file_list_rebuilt, process_list_rebuilt};
use super::{flipped, App, FileSortField, MainView, ProcessSortField, SortDirection};

verus! {

/// `a` comes strictly before `b` when ordering ascending by `field`
/// (names compare case-insensitively; `Unsorted` orders by pid).
pub open spec fn key_lt(a: ProcessSnapshot, b: ProcessSnapshot, field: ProcessSortField) -> bool {
    match field {
        ProcessSortField::Name => lex_lt(lowercase(a.name@), lowercase(b.name@)),
        ProcessSortField::Total => a.resources@.len() < b.resources@.len(),
        _ => a.pid < b.pid,
    }
}

/// Snapshot index `x` goes before `y` in the order given by `field` and `dir`.
pub open spec fn goes_before(
    s: Seq<ProcessSnapshot>,
    field: ProcessSortField,
    dir: SortDirection,
) -> spec_fn(usize, usize) -> bool {
    |x: usize, y: usize|
        if dir == SortDirection::Asc {
            key_lt(s[x as int], s[y as int], field)
        } else {
            key_lt(s[y as int], s[x as int], field)
        }
}

/// The lowercase names of the snapshots, as character vectors.
pub open spec fn name_keys_valid(s: Seq<ProcessSnapshot>, keys: Seq<Vec<char>>) -> bool {
    &&& keys.len() == s.len()
    &&& forall|i: int| 0 <= i < s.len() ==> #[trigger] keys[i]@ == lowercase(s[i].name@)
}

/// The lowercase name of every snapshot.
pub fn name_keys(snapshots: &[ProcessSnapshot]) -> (keys: Vec<Vec<char>>)
    ensures
        name_keys_valid(snapshots@, keys@),
{
    let mut keys: Vec<Vec<char>> = Vec::new();
    let mut i: usize = 0;
    while i < snapshots.len()
        invariant
            i <= snapshots@.len(),
            keys@.len() == i,
            forall|k: int| 0 <= k < i ==> #[trigger] keys@[k]@ == lowercase(snapshots@[k].name@),
        decreases snapshots@.len() - i,
    {
        let lower = to_lowercase(snapshots[i].name.as_str());
        keys.push(chars_of(lower.as_str()));
        i = i + 1;
    }
    keys
}

/// Whether `a` comes strictly before `b` ascending by `field`.
pub fn key_lt_exec(
    snapshots: &[ProcessSnapshot],
    keys: &Vec<Vec<char>>,
    a: usize,
    b: usize,
    field: ProcessSortField,
) -> (r: bool)
    requires
        a < snapshots@.len(),
        b < snapshots@.len(),
        field == ProcessSortField::Name ==> name_keys_valid(snapshots@, keys@),
    ensures
        r == key_lt(snapshots@[a as int], snapshots@[b as int], field),
{
    match field {
        ProcessSortField::Name => compare_chars(&keys[a], &keys[b]) == Rank::Before,
        ProcessSortField::Total => snapshots[a].resources.len() < snapshots[b].resources.len(),
        _ => snapshots[a].pid < snapshots[b].pid,
    }
}

/// Whether snapshot index `x` goes before `y`.
pub fn goes_before_exec(
    snapshots: &[ProcessSnapshot],
    keys: &Vec<Vec<char>>,
    x: usize,
    y: usize,
    field: ProcessSortField,
    dir: SortDirection,
) -> (r: bool)
    requires
        x < snapshots@.len(),
        y < snapshots@.len(),
        field == ProcessSortField::Name ==> name_keys_valid(snapshots@, keys@),
    ensures
        r == goes_before(snapshots@, field, dir)(x, y),
{
    match dir {
        SortDirection::Asc => key_lt_exec(snapshots, keys, x, y, field),
        SortDirection::Desc => key_lt_exec(snapshots, keys, y, x, field),
    }
}

/// The indices `xs`, stably sorted by `field` and `dir`.
pub fn sort_snapshot_indices(
    snapshots: &[ProcessSnapshot],
    keys: &Vec<Vec<char>>,
    xs: &Vec<usize>,
    field: ProcessSortField,
    dir: SortDirection,
) -> (r: Vec<usize>)
    requires
        forall|k: int| 0 <= k < xs@.len() ==> #[trigger] xs@[k] < snapshots@.len(),
        field == ProcessSortField::Name ==> name_keys_valid(snapshots@, keys@),
    ensures
        r@ == sort_by(goes_before(snapshots@, field, dir), xs@),
{
    let ghost before = goes_before(snapshots@, field, dir);
    let mut r: Vec<usize> = Vec::new();
    let mut i: usize = 0;
    proof {
        broadcast use vstd::seq_lib::group_to_multiset_ensures;
        assert(xs@.take(0) =~= Seq::<usize>::empty());
        assert(r@ =~= Seq::<usize>::empty());
    }
    while i < xs.len()
        invariant
            i <= xs@.len(),
            before == goes_before(snapshots@, field, dir),
            forall|k: int| 0 <= k < xs@.len() ==> #[trigger] xs@[k] < snapshots@.len(),
            field == ProcessSortField::Name ==> name_keys_valid(snapshots@, keys@),
            r@ == sort_by(before, xs@.take(i as int)),
            r@.to_multiset() == xs@.take(i as int).to_multiset(),
        decreases xs@.len() - i,
    {
        broadcast use vstd::seq_lib::group_to_multiset_ensures;
        let x = xs[i];
        let ghost old_r = r@;
        assert forall|k: int| 0 <= k < old_r.len() implies #[trigger] old_r[k] < snapshots@.len() by {
            assert(old_r.to_multiset().count(old_r[k]) > 0);
            assert(xs@.take(i as int).to_multiset().count(old_r[k]) > 0);
            assert(xs@.take(i as int).contains(old_r[k]));
        }
        let mut p = r.len();
        while p > 0 && goes_before_exec(snapshots, keys, x, r[p - 1], field, dir)
            invariant
                p <= old_r.len(),
                r@ == old_r,
                x < snapshots@.len(),
                forall|k: int| 0 <= k < old_r.len() ==> #[trigger] old_r[k] < snapshots@.len(),
                field == ProcessSortField::Name ==> name_keys_valid(snapshots@, keys@),
                before == goes_before(snapshots@, field, dir),
                forall|k: int| p <= k < old_r.len() ==> before(x, #[trigger] old_r[k]),
            decreases p,
        {
            p = p - 1;
        }
        proof {
            lemma_insert_at(before, x, old_r, p as int);
        }
        r.insert(p, x);
        assert(r@ =~= old_r.take(p as int).push(x) + old_r.skip(p as int));
        assert(xs@.take(i + 1).drop_last() =~= xs@.take(i as int));
        assert(xs@.take(i + 1) =~= xs@.take(i as int).push(x));
        proof {
            crate::sort::lemma_insert_sorted_multiset(before, x, old_r);
        }
        i = i + 1;
    }
    assert(xs@.take(i as int) =~= xs@);
    r
}

/// The arrow of a sort direction.
pub open spec fn dir_arrow(d: SortDirection) -> Seq<char> {
    if d == SortDirection::Asc { "↑"@ } else { "↓"@ }
}

/// The status line naming the sort of the current view.
pub open spec fn sort_status(a: App) -> Seq<char> {
    match a.main_view {
        MainView::Processes => match a.process_sort {
            ProcessSortField::Unsorted => "Sort: tree (unsorted)"@,
            ProcessSortField::Pid => "Sort: PID "@ + dir_arrow(a.process_sort_dir),
            ProcessSortField::Name => "Sort: name "@ + dir_arrow(a.process_sort_dir),
            ProcessSortField::Total => "Sort: total "@ + dir_arrow(a.process_sort_dir),
        },
        MainView::Files => match a.file_sort {
            FileSortField::ProcessCount => "Sort: procs "@ + dir_arrow(a.file_sort_dir),
            FileSortField::Filename => "Sort: filename "@ + dir_arrow(a.file_sort_dir),
        },
    }
}

/// The process sort after `f` and its starting direction: pid, name, total
/// descending, then the tree again.
pub open spec fn next_process_sort(f: ProcessSortField) -> (ProcessSortField, SortDirection) {
    match f {
        ProcessSortField::Unsorted => (ProcessSortField::Pid, SortDirection::Asc),
        ProcessSortField::Pid => (ProcessSortField::Name, SortDirection::Asc),
        ProcessSortField::Name => (ProcessSortField::Total, SortDirection::Desc),
        ProcessSortField::Total => (ProcessSortField::Unsorted, SortDirection::Asc),
    }
}

/// The file sort after `f` and its starting direction.
pub open spec fn next_file_sort(f: FileSortField) -> (FileSortField, SortDirection) {
    match f {
        FileSortField::ProcessCount => (FileSortField::Filename, SortDirection::Asc),
        FileSortField::Filename => (FileSortField::ProcessCount, SortDirection::Desc),
    }
}

/// `new` is `mid` with the list of its view rebuilt and the sort named in
/// the status line.
pub open spec fn resorted(mid: App, new: App) -> bool {
    &&& new.status_message is Some
    &&& new.status_message.unwrap()@ == sort_status(mid)
    &&& exists|rebuilt: App| {
        &&& (mid.main_view == MainView::Processes ==> process_list_rebuilt(mid, rebuilt))
        &&& (mid.main_view == MainView::Files ==> file_list_rebuilt(mid, rebuilt))
        &&& new == (App { status_message: new.status_message, ..rebuilt })
    }
}

/// The state after moving the current view to its next sort: the list
/// re-sorted and the sort named in the status line.
#[verifier::opaque]
pub open spec fn sort_cycled(a: App, b: App) -> bool {
    match a.main_view {
        MainView::Processes => resorted(App {
            process_sort: next_process_sort(a.process_sort).0,
            process_sort_dir: next_process_sort(a.process_sort).1,
            ..a
        }, b),
        MainView::Files => resorted(App {
            file_sort: next_file_sort(a.file_sort).0,
            file_sort_dir: next_file_sort(a.file_sort).1,
            ..a
        }, b),
    }
}

/// The state after reversing the sort of the current view: the list
/// re-sorted the other way and the sort named in the status line; the tree
/// order of the unsorted process list is never reversed.
#[verifier::opaque]
pub open spec fn sort_reversed(a: App, b: App) -> bool {
    match a.main_view {
        MainView::Processes => if a.process_sort == ProcessSortField::Unsorted {
            b == a
        } else {
            resorted(App { process_sort_dir: flipped(a.process_sort_dir), ..a }, b)
        },
        MainView::Files => resorted(App { file_sort_dir: flipped(a.file_sort_dir), ..a }, b),
    }
}

impl App {
    /// The status line naming the sort of the current view.
    pub fn sort_status_text(&self) -> (r: String)
        ensures
            r@ == sort_status(*self),
    {
        let mut msg = String::new();
        match self.main_view {
            MainView::Processes => match self.process_sort {
                ProcessSortField::Unsorted => push_str(&mut msg, "Sort: tree (unsorted)"),
                ProcessSortField::Pid => {
                    push_str(&mut msg, "Sort: PID ");
                    push_str(&mut msg, self.process_sort_dir.arrow());
                },
                ProcessSortField::Name => {
                    push_str(&mut msg, "Sort: name ");
                    push_str(&mut msg, self.process_sort_dir.arrow());
                },
                ProcessSortField::Total => {
                    push_str(&mut msg, "Sort: total ");
                    push_str(&mut msg, self.process_sort_dir.arrow());
                },
            },
            MainView::Files => match self.file_sort {
                FileSortField::ProcessCount => {
                    push_str(&mut msg, "Sort: procs ");
                    push_str(&mut msg, self.file_sort_dir.arrow());
                },
                FileSortField::Filename => {
                    push_str(&mut msg, "Sort: filename ");
                    push_str(&mut msg, self.file_sort_dir.arrow());
                },
            },
        }
        msg
    }

    /// Rebuilds the list of the current view and names its sort in the
    /// status line.
    pub fn resort_current(&mut self)
        requires
            old(self).wf(),
        ensures
            final(self).wf(),
            resorted(*old(self), *final(self)),
    {
        match self.main_view {
            MainView::Processes => self.rebuild_process_list(),
            MainView::Files => self.rebuild_file_list(),
        }
        let ghost rebuilt = *self;
        self.status_message = Some(self.sort_status_text());
        assert(sort_status(rebuilt) == sort_status(*old(self)));
    }

    /// Moves the current view to its next sort, rebuilds its list, and names
    /// the sort in the status line.
    pub fn cycle_sort(&mut self)
        requires
            old(self).wf(),
        ensures
            final(self).wf(),
            sort_cycled(*old(self), *final(self)),
    {
        proof { reveal(sort_cycled); }
        match self.main_view {
            MainView::Processes => {
                let (next_field, default_dir) = match self.process_sort {
                    ProcessSortField::Unsorted => (ProcessSortField::Pid, SortDirection::Asc),
                    ProcessSortField::Pid => (ProcessSortField::Name, SortDirection::Asc),
                    ProcessSortField::Name => (ProcessSortField::Total, SortDirection::Desc),
                    ProcessSortField::Total => (ProcessSortField::Unsorted, SortDirection::Asc),
                };
                self.process_sort = next_field;
                self.process_sort_dir = default_dir;
                self.resort_current();
            },
            MainView::Files => {
                let (next_field, default_dir) = match self.file_sort {
                    FileSortField::ProcessCount => (FileSortField::Filename, SortDirection::Asc),
                    FileSortField::Filename => (FileSortField::ProcessCount, SortDirection::Desc),
                };
                self.file_sort = next_field;
                self.file_sort_dir = default_dir;
                self.resort_current();
            },
        }
    }

    /// Reverses the sort of the current view (not the tree order), rebuilds
    /// its list, and names the sort in the status line.
    pub fn reverse_sort(&mut self)
        requires
            old(self).wf(),
        ensures
            final(self).wf(),
            sort_reversed(*old(self), *final(self)),
    {
        proof { reveal(sort_reversed); }
        match self.main_view {
            MainView::Processes => {
                if self.process_sort != ProcessSortField::Unsorted {
                    self.process_sort_dir = self.process_sort_dir.toggle();
                    self.resort_current();
                }
            },
            MainView::Files => {
                self.file_sort_dir = self.file_sort_dir.toggle();
                self.resort_current();
            },
        }
    }
}

} // verus!
