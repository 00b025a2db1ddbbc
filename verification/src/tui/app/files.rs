//! The file view: every open path with the processes that hold it.
use vstd::prelude::*;

use crate::models::{OpenResource, ProcessSnapshot};
use crate::sort::{lemma_insert_at, sort_by};
use crate::text::{chars_of, compare_chars, is_infix, lex_lt, lowercase, to_lowercase, Rank, contains_chars};

use super::{FileEntry, FileOpener, FileSortField, SortDirection};

verus! {

/// What an opener looks like: pid, process name, descriptor.
pub type OpenerView = (i32, Seq<char>, i32);

/// What a file entry looks like: path and openers.
pub type EntryView = (Seq<char>, Seq<OpenerView>);

/// The (path, opener) records of the resources `rs` of process `p` that have
/// a path.
pub open spec fn resource_records(p: ProcessSnapshot, rs: Seq<OpenResource>) -> Seq<(Seq<char>, OpenerView)>
    decreases rs.len(),
{
    if rs.len() == 0 {
        Seq::empty()
    } else {
        let rest = resource_records(p, rs.drop_last());
        match rs.last().path {
            Some(path) => rest.push((path@, (p.pid, p.name@, rs.last().descriptor))),
            None => rest,
        }
    }
}

/// The (path, opener) records of all listed processes (all of them when
/// `show_all`, else the accessible ones), in snapshot order.
pub open spec fn file_records(s: Seq<ProcessSnapshot>, show_all: bool) -> Seq<(Seq<char>, OpenerView)>
    decreases s.len(),
{
    if s.len() == 0 {
        Seq::empty()
    } else {
        let rest = file_records(s.drop_last(), show_all);
        if show_all || s.last().accessible {
            rest + resource_records(s.last(), s.last().resources@)
        } else {
            rest
        }
    }
}

/// The position of the first entry for path `p`, or -1.
pub open spec fn path_pos(g: Seq<EntryView>, p: Seq<char>) -> int
    decreases g.len(),
{
    if g.len() == 0 {
        -1
    } else {
        let k = path_pos(g.drop_last(), p);
        if k >= 0 {
            k
        } else if g.last().0 == p {
            g.len() - 1
        } else {
            -1
        }
    }
}

/// Adds one record: to the entry of its path if there is one, else as a
/// new entry at the end.
pub open spec fn add_record(g: Seq<EntryView>, r: (Seq<char>, OpenerView)) -> Seq<EntryView> {
    let k = path_pos(g, r.0);
    if k >= 0 {
        g.update(k, (r.0, g[k].1.push(r.1)))
    } else {
        g.push((r.0, seq![r.1]))
    }
}

/// The records grouped by path, paths in order of first appearance.
pub open spec fn group_records(rs: Seq<(Seq<char>, OpenerView)>) -> Seq<EntryView>
    decreases rs.len(),
{
    if rs.len() == 0 {
        Seq::empty()
    } else {
        add_record(group_records(rs.drop_last()), rs.last())
    }
}

/// The part of a path after its last '/' (the whole path when it has none).
pub open spec fn file_name(p: Seq<char>) -> Seq<char>
    decreases p.len(),
{
    if p.len() == 0 {
        p
    } else if p.last() == '/' {
        Seq::empty()
    } else {
        file_name(p.drop_last()).push(p.last())
    }
}

/// Entry `a` comes strictly before `b` ascending by `field`: by number of
/// openers, or by file name and then full path.
pub open spec fn entry_lt(a: EntryView, b: EntryView, field: FileSortField) -> bool {
    match field {
        FileSortField::ProcessCount => a.1.len() < b.1.len(),
        FileSortField::Filename => lex_lt(file_name(a.0), file_name(b.0))
            || (file_name(a.0) == file_name(b.0) && lex_lt(a.0, b.0)),
    }
}

/// The order of file entries for `field` and `dir`.
pub open spec fn entry_before(field: FileSortField, dir: SortDirection) -> spec_fn(EntryView, EntryView) -> bool {
    |a: EntryView, b: EntryView|
        if dir == SortDirection::Asc { entry_lt(a, b, field) } else { entry_lt(b, a, field) }
}

/// The file entries of the listed processes, sorted.
pub open spec fn file_entries_spec(
    s: Seq<ProcessSnapshot>,
    show_all: bool,
    field: FileSortField,
    dir: SortDirection,
) -> Seq<EntryView> {
    sort_by(entry_before(field, dir), group_records(file_records(s, show_all)))
}

/// The part of `p` after its last '/'.
pub fn file_name_of(p: &Vec<char>) -> (r: Vec<char>)
    ensures
        r@ == file_name(p@),
{
    let mut k = p.len();
    assert(p@.take(k as int) =~= p@);
    assert(p@.skip(k as int) =~= Seq::<char>::empty());
    while k > 0 && p[k - 1] != '/'
        invariant
            k <= p@.len(),
            file_name(p@) == file_name(p@.take(k as int)) + p@.skip(k as int),
        decreases k,
    {
        assert(p@.take(k as int).drop_last() =~= p@.take(k - 1));
        assert(p@.skip(k - 1) =~= seq![p@[k - 1]] + p@.skip(k as int));
        assert(file_name(p@.take(k as int)) == file_name(p@.take(k - 1)).push(p@[k - 1]));
        k = k - 1;
    }
    assert(file_name(p@.take(k as int)) =~= Seq::<char>::empty()) by {
        if k > 0 {
            assert(p@.take(k as int).last() == '/');
        }
    }
    let mut r: Vec<char> = Vec::new();
    let mut j = k;
    while j < p.len()
        invariant
            k <= j <= p@.len(),
            r@ == p@.subrange(k as int, j as int),
        decreases p@.len() - j,
    {
        r.push(p[j]);
        j = j + 1;
        assert(r@ =~= p@.subrange(k as int, j as int));
    }
    assert(r@ =~= p@.skip(k as int));
    assert(file_name(p@) =~= r@);
    r
}

fn copy_opener(o: &FileOpener) -> (r: FileOpener)
    ensures
        r@ == o@,
{
    FileOpener { pid: o.pid, name: o.name.clone(), descriptor: o.descriptor }
}

/// A copy of a file entry.
pub fn copy_entry(e: &FileEntry) -> (r: FileEntry)
    ensures
        r@ == e@,
{
    let mut openers: Vec<FileOpener> = Vec::new();
    let mut i: usize = 0;
    while i < e.openers.len()
        invariant
            i <= e.openers@.len(),
            openers@.map_values(|o: FileOpener| o@) == e.openers@.take(i as int).map_values(|o: FileOpener| o@),
        decreases e.openers@.len() - i,
    {
        let ghost prev = openers@;
        let c = copy_opener(&e.openers[i]);
        openers.push(c);
        assert(openers@ == prev.push(c));
        assert(e.openers@.take(i + 1) =~= e.openers@.take(i as int).push(e.openers@[i as int]));
        assert(openers@.map_values(|o: FileOpener| o@) =~= prev.map_values(|o: FileOpener| o@).push(c@));
        assert(e.openers@.take(i + 1).map_values(|o: FileOpener| o@)
            =~= e.openers@.take(i as int).map_values(|o: FileOpener| o@).push(e.openers@[i as int]@));
        i = i + 1;
    }
    assert(e.openers@.take(i as int) =~= e.openers@);
    FileEntry { path: e.path.clone(), openers }
}

/// The view of a list of entries.
pub open spec fn entries_view(es: Seq<FileEntry>) -> Seq<EntryView> {
    es.map_values(|e: FileEntry| e@)
}

fn find_path(entries: &Vec<FileEntry>, path: &String) -> (r: Option<usize>)
    ensures
        match r {
            Some(k) => k as int == path_pos(entries_view(entries@), path@) && k < entries@.len(),
            None => path_pos(entries_view(entries@), path@) == -1,
        },
{
    let mut k: usize = 0;
    while k < entries.len()
        invariant
            k <= entries@.len(),
            path_pos(entries_view(entries@.take(k as int)), path@) == -1,
        decreases entries@.len() - k,
    {
        assert(entries_view(entries@.take(k + 1)).drop_last() =~= entries_view(entries@.take(k as int)));
        if entries[k].path == *path {
            assert(entries_view(entries@.take(k + 1)).last() == entries@[k as int]@);
            assert(path_pos(entries_view(entries@.take(k + 1)), path@) == k);
            assert(entries_view(entries@.take(k + 1)) =~= entries_view(entries@).take(k + 1));
            proof { lemma_path_pos_prefix(entries_view(entries@), path@, k as int + 1); }
            return Some(k);
        }
        k = k + 1;
    }
    assert(entries@.take(k as int) =~= entries@);
    None
}

/// The first position of a path in a prefix that holds it is its first
/// position in the whole list.
proof fn lemma_path_pos_prefix(g: Seq<EntryView>, p: Seq<char>, n: int)
    requires
        0 <= n <= g.len(),
        path_pos(g.take(n), p) >= 0,
    ensures
        path_pos(g, p) == path_pos(g.take(n), p),
    decreases g.len() - n,
{
    if n < g.len() {
        assert(g.take(n + 1).drop_last() =~= g.take(n));
        lemma_path_pos_prefix(g, p, n + 1);
    } else {
        assert(g.take(n) =~= g);
    }
}

proof fn lemma_path_pos_bounds(g: Seq<EntryView>, p: Seq<char>)
    ensures
        -1 <= path_pos(g, p) < g.len(),
        path_pos(g, p) >= 0 ==> g[path_pos(g, p)].0 == p,
    decreases g.len(),
{
    if g.len() > 0 {
        lemma_path_pos_bounds(g.drop_last(), p);
    }
}

/// Adds one opener of `path` to the grouped entries.
fn add_opener(entries: &mut Vec<FileEntry>, path: &String, opener: FileOpener)
    ensures
        entries_view(final(entries)@) == add_record(entries_view(old(entries)@), (path@, opener@)),
{
    proof { lemma_path_pos_bounds(entries_view(entries@), path@); }
    match find_path(entries, path) {
        Some(k) => {
            let mut e = entries.remove(k);
            let ghost ov = e.openers@;
            e.openers.push(opener);
            assert(e.openers@.map_values(|o: FileOpener| o@) =~= ov.map_values(|o: FileOpener| o@).push(opener@));
            entries.insert(k, e);
            assert(entries_view(entries@) =~= add_record(entries_view(old(entries)@), (path@, opener@)));
        },
        None => {
            let mut openers: Vec<FileOpener> = Vec::new();
            openers.push(opener);
            assert(openers@.map_values(|o: FileOpener| o@) =~= seq![opener@]);
            entries.push(FileEntry { path: path.clone(), openers });
            assert(entries_view(entries@) =~= add_record(entries_view(old(entries)@), (path@, opener@)));
        },
    }
}

/// Groups the resources with a path of the listed processes by path.
pub fn group_files(snapshots: &[ProcessSnapshot], show_all: bool) -> (r: Vec<FileEntry>)
    ensures
        entries_view(r@) == group_records(file_records(snapshots@, show_all)),
{
    let mut entries: Vec<FileEntry> = Vec::new();
    let mut i: usize = 0;
    assert(entries_view(entries@) =~= group_records(file_records(snapshots@.take(0), show_all)));
    while i < snapshots.len()
        invariant
            i <= snapshots@.len(),
            entries_view(entries@) == group_records(file_records(snapshots@.take(i as int), show_all)),
        decreases snapshots@.len() - i,
    {
        let snap = &snapshots[i];
        let ghost prior = file_records(snapshots@.take(i as int), show_all);
        assert(snapshots@.take(i + 1).drop_last() =~= snapshots@.take(i as int));
        if show_all || snap.accessible {
            let mut j: usize = 0;
            while j < snap.resources.len()
                invariant
                    j <= snap.resources@.len(),
                    entries_view(entries@) == group_records(prior + resource_records(*snap, snap.resources@.take(j as int))),
                decreases snap.resources@.len() - j,
            {
                let res = &snap.resources[j];
                let ghost recs = resource_records(*snap, snap.resources@.take(j as int));
                assert(snap.resources@.take(j + 1).drop_last() =~= snap.resources@.take(j as int));
                match &res.path {
                    Some(path) => {
                        let opener = FileOpener { pid: snap.pid, name: snap.name.clone(), descriptor: res.descriptor };
                        add_opener(&mut entries, path, opener);
                        let ghost rec = (path@, (snap.pid, snap.name@, res.descriptor));
                        assert((prior + recs.push(rec)).drop_last() =~= prior + recs);
                        assert(prior + recs.push(rec) =~= prior + resource_records(*snap, snap.resources@.take(j + 1)));
                    },
                    None => {
                        assert(recs =~= resource_records(*snap, snap.resources@.take(j + 1)));
                    },
                }
                j = j + 1;
            }
            assert(snap.resources@.take(j as int) =~= snap.resources@);
        }
        i = i + 1;
    }
    assert(snapshots@.take(i as int) =~= snapshots@);
    entries
}

/// Sort keys of one entry: number of openers, file name, path.
struct EntryKey {
    count: usize,
    name: Vec<char>,
    path: Vec<char>,
}

spec fn key_matches(k: EntryKey, e: EntryView) -> bool {
    &&& k.count == e.1.len()
    &&& k.name@ == file_name(e.0)
    &&& k.path@ == e.0
}

fn entry_key(e: &FileEntry) -> (k: EntryKey)
    ensures
        key_matches(k, e@),
{
    let path = chars_of(e.path.as_str());
    let name = file_name_of(&path);
    EntryKey { count: e.openers.len(), name, path }
}

fn entry_lt_exec(a: &EntryKey, b: &EntryKey, field: FileSortField) -> (r: bool)
    ensures
        forall|x: EntryView, y: EntryView| key_matches(*a, x) && key_matches(*b, y) ==> r == entry_lt(x, y, field),
{
    match field {
        FileSortField::ProcessCount => a.count < b.count,
        FileSortField::Filename => match compare_chars(&a.name, &b.name) {
            Rank::Before => true,
            Rank::After => false,
            Rank::Same => compare_chars(&a.path, &b.path) == Rank::Before,
        },
    }
}

fn entry_before_exec(a: &EntryKey, b: &EntryKey, field: FileSortField, dir: SortDirection) -> (r: bool)
    ensures
        forall|x: EntryView, y: EntryView| key_matches(*a, x) && key_matches(*b, y) ==> r == entry_before(field, dir)(x, y),
{
    match dir {
        SortDirection::Asc => entry_lt_exec(a, b, field),
        SortDirection::Desc => entry_lt_exec(b, a, field),
    }
}

/// The entries, stably sorted by `field` and `dir`.
pub fn sort_entries(entries: &Vec<FileEntry>, field: FileSortField, dir: SortDirection) -> (r: Vec<FileEntry>)
    ensures
        entries_view(r@) == sort_by(entry_before(field, dir), entries_view(entries@)),
{
    let ghost g = entries_view(entries@);
    let mut keys: Vec<EntryKey> = Vec::new();
    let mut i: usize = 0;
    while i < entries.len()
        invariant
            i <= entries@.len(),
            g == entries_view(entries@),
            keys@.len() == i,
            forall|k: int| 0 <= k < i ==> key_matches(#[trigger] keys@[k], g[k]),
        decreases entries@.len() - i,
    {
        keys.push(entry_key(&entries[i]));
        i = i + 1;
    }
    let ghost before_i: spec_fn(usize, usize) -> bool = |x: usize, y: usize| entry_before(field, dir)(g[x as int], g[y as int]);
    let mut order: Vec<usize> = Vec::new();
    let mut i: usize = 0;
    proof {
        broadcast use vstd::seq_lib::group_to_multiset_ensures;
    }
    while i < entries.len()
        invariant
            i <= entries@.len(),
            g == entries_view(entries@),
            keys@.len() == entries@.len(),
            forall|k: int| 0 <= k < entries@.len() ==> key_matches(#[trigger] keys@[k], g[k]),
            before_i == (|x: usize, y: usize| entry_before(field, dir)(g[x as int], g[y as int])),
            order@ == sort_by(before_i, Seq::new(i as nat, |k: int| k as usize)),
            forall|k: int| 0 <= k < order@.len() ==> #[trigger] order@[k] < i,
            order@.len() == i,
        decreases entries@.len() - i,
    {
        let ghost old_o = order@;
        let mut p = order.len();
        while p > 0 && entry_before_exec(&keys[i], &keys[order[p - 1]], field, dir)
            invariant
                p <= old_o.len(),
                order@ == old_o,
                i < entries@.len(),
                keys@.len() == entries@.len(),
                forall|k: int| 0 <= k < entries@.len() ==> key_matches(#[trigger] keys@[k], g[k]),
                forall|k: int| 0 <= k < old_o.len() ==> #[trigger] old_o[k] < i,
                before_i == (|x: usize, y: usize| entry_before(field, dir)(g[x as int], g[y as int])),
                forall|k: int| p <= k < old_o.len() ==> before_i(i, #[trigger] old_o[k]),
            decreases p,
        {
            p = p - 1;
        }
        proof {
            lemma_insert_at(before_i, i, old_o, p as int);
            crate::sort::lemma_insert_sorted_multiset(before_i, i, old_o);
        }
        order.insert(p, i);
        assert(order@ =~= old_o.take(p as int).push(i) + old_o.skip(p as int));
        assert(Seq::new((i + 1) as nat, |k: int| k as usize).drop_last() =~= Seq::new(i as nat, |k: int| k as usize));
        i = i + 1;
    }
    let ghost idx = Seq::new(entries@.len(), |k: int| k as usize);
    assert(order@ == sort_by(before_i, idx));
    proof {
        let f = |k: usize| g[k as int];
        assert forall|a: usize, b: usize| #[trigger] before_i(a, b) == entry_before(field, dir)(f(a), f(b)) by {}
        crate::sort::lemma_sort_by_map(before_i, entry_before(field, dir), f, idx);
        assert(idx.map_values(f) =~= g);
    }
    let mut r: Vec<FileEntry> = Vec::new();
    let mut k: usize = 0;
    while k < order.len()
        invariant
            k <= order@.len(),
            order@.len() == entries@.len(),
            forall|m: int| 0 <= m < order@.len() ==> #[trigger] order@[m] < entries@.len(),
            g == entries_view(entries@),
            entries_view(r@) == order@.take(k as int).map_values(|m: usize| g[m as int]),
        decreases order@.len() - k,
    {
        let ghost prev = r@;
        let c = copy_entry(&entries[order[k]]);
        r.push(c);
        assert(r@ == prev.push(c));
        assert(entries_view(r@) =~= entries_view(prev).push(c@));
        assert(order@.take(k + 1) =~= order@.take(k as int).push(order@[k as int]));
        assert(order@.take(k + 1).map_values(|m: usize| g[m as int])
            =~= order@.take(k as int).map_values(|m: usize| g[m as int]).push(g[order@[k as int] as int]));
        k = k + 1;
    }
    assert(order@.take(k as int) =~= order@);
    r
}

/// The positions of the entries whose path contains `query`, ignoring case;
/// all positions when `active` is false.
pub open spec fn file_filter_spec(es: Seq<EntryView>, query: Seq<char>, active: bool) -> Seq<usize> {
    Seq::new(es.len(), |k: int| k as usize).filter(
        |k: usize| !active || is_infix(lowercase(query), lowercase(es[k as int].0)),
    )
}

/// The positions of the entries listed under the search.
pub fn filter_entries(entries: &Vec<FileEntry>, query: &String, active: bool) -> (r: Vec<usize>)
    ensures
        r@ == file_filter_spec(entries_view(entries@), query@, active),
        forall|k: int| 0 <= k < r@.len() ==> #[trigger] r@[k] < entries@.len(),
{
    let ghost es = entries_view(entries@);
    let ghost pred = |k: usize| !active || is_infix(lowercase(query@), lowercase(es[k as int].0));
    let q = chars_of(to_lowercase(query.as_str()).as_str());
    let mut r: Vec<usize> = Vec::new();
    let mut i: usize = 0;
    while i < entries.len()
        invariant
            i <= entries@.len(),
            es == entries_view(entries@),
            q@ == lowercase(query@),
            pred == (|k: usize| !active || is_infix(lowercase(query@), lowercase(es[k as int].0))),
            r@ == Seq::new(i as nat, |k: int| k as usize).filter(pred),
            forall|k: int| 0 <= k < r@.len() ==> #[trigger] r@[k] < i,
        decreases entries@.len() - i,
    {
        reveal_with_fuel(Seq::filter, 1);
        let keep = if !active {
            true
        } else {
            let t = chars_of(to_lowercase(entries[i].path.as_str()).as_str());
            contains_chars(&t, &q)
        };
        assert(keep == pred(i));
        if keep {
            r.push(i);
        }
        assert(Seq::new((i + 1) as nat, |k: int| k as usize).drop_last() =~= Seq::new(i as nat, |k: int| k as usize));
        i = i + 1;
    }
    r
}

} // verus!
