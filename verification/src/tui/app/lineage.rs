//! Ancestry among the listed processes, and the law that the process tree
//! lists every process exactly once when the parent links have no cycle.
use vstd::prelude::*;

use crate::models::ProcessSnapshot;

use crate::sort::{lemma_sort_by_multiset, sort_by};

use super::sorting::goes_before;
use super::forest::Row;
use super::tree::{child_of, child_prefix, is_root, kids_of, pid_present, roots_of, root_order, tree_order, walk, walk_seq};
use super::{ProcessSortField, SortDirection};

verus! {

/// The listed snapshots have pairwise distinct pids.
pub open spec fn distinct_pids(s: Seq<ProcessSnapshot>, vis: Seq<usize>) -> bool {
    forall|a: int, b: int| 0 <= a < vis.len() && 0 <= b < vis.len() && a != b
        ==> #[trigger] s[vis[a] as int].pid != #[trigger] s[vis[b] as int].pid
}

/// `rank` puts every listed parent below its listed children, so following
/// parent links never comes back to a process.
pub open spec fn ranked(s: Seq<ProcessSnapshot>, vis: Seq<usize>, rank: spec_fn(usize) -> nat) -> bool {
    forall|x: usize, y: usize| vis.contains(x) && vis.contains(y) && !is_root(s, vis, x)
        && #[trigger] s[y as int].pid == #[trigger] s[x as int].ppid ==> rank(y) < rank(x)
}

/// The listed parent of a listed non-root snapshot.
pub open spec fn parent_of(s: Seq<ProcessSnapshot>, vis: Seq<usize>, x: usize) -> usize {
    vis[choose|k: int| 0 <= k < vis.len() && #[trigger] s[vis[k] as int].pid == s[x as int].ppid]
}

/// One step up: the listed parent, none for a root.
pub open spec fn up(s: Seq<ProcessSnapshot>, vis: Seq<usize>, x: usize) -> Option<usize> {
    if is_root(s, vis, x) { None } else { Some(parent_of(s, vis, x)) }
}

/// `n` steps up from `x`.
pub open spec fn anc(s: Seq<ProcessSnapshot>, vis: Seq<usize>, x: usize, n: nat) -> Option<usize>
    decreases n,
{
    if n == 0 {
        Some(x)
    } else {
        match anc(s, vis, x, (n - 1) as nat) {
            Some(y) => up(s, vis, y),
            None => None,
        }
    }
}

/// `i` is `x` or one of its ancestors.
pub open spec fn descends(s: Seq<ProcessSnapshot>, vis: Seq<usize>, x: usize, i: usize) -> bool {
    exists|n: nat| #[trigger] anc(s, vis, x, n) == Some(i)
}

/// `x` lies `d` steps below a root.
pub open spec fn at_level(s: Seq<ProcessSnapshot>, vis: Seq<usize>, x: usize, d: nat) -> bool {
    match anc(s, vis, x, d) {
        Some(r) => is_root(s, vis, r),
        None => false,
    }
}

/// The parent of a listed non-root snapshot is listed and has its parent
/// pid.
pub proof fn lemma_parent_of(s: Seq<ProcessSnapshot>, vis: Seq<usize>, x: usize)
    requires
        !is_root(s, vis, x),
    ensures
        vis.contains(parent_of(s, vis, x)),
        s[parent_of(s, vis, x) as int].pid == s[x as int].ppid,
{
    assert(pid_present(s, vis, s[x as int].ppid));
    let k = choose|k: int| 0 <= k < vis.len() && #[trigger] s[vis[k] as int].pid == s[x as int].ppid;
    assert(vis[k] == parent_of(s, vis, x));
}

/// With distinct pids, a listed snapshot with a listed child's parent pid
/// is that child's parent.
pub proof fn lemma_parent_unique(s: Seq<ProcessSnapshot>, vis: Seq<usize>, x: usize, y: usize)
    requires
        distinct_pids(s, vis),
        !is_root(s, vis, x),
        vis.contains(y),
        s[y as int].pid == s[x as int].ppid,
    ensures
        parent_of(s, vis, x) == y,
{
    lemma_parent_of(s, vis, x);
    let p = parent_of(s, vis, x);
    let a = choose|a: int| 0 <= a < vis.len() && vis[a] == p;
    let b = choose|b: int| 0 <= b < vis.len() && vis[b] == y;
    if a != b {
        assert(s[vis[a] as int].pid != s[vis[b] as int].pid);
    }
}

/// Going up `a + c` steps is going up `a`, then `c`.
pub proof fn lemma_anc_compose(s: Seq<ProcessSnapshot>, vis: Seq<usize>, x: usize, a: nat, c: nat)
    ensures
        anc(s, vis, x, a + c) == match anc(s, vis, x, a) {
            Some(y) => anc(s, vis, y, c),
            None => None,
        },
    decreases c,
{
    if c > 0 {
        lemma_anc_compose(s, vis, x, a, (c - 1) as nat);
        assert((a + c - 1) as nat == a + (c - 1) as nat);
    }
}

/// Once there is nothing further up, there stays nothing.
pub proof fn lemma_anc_none(s: Seq<ProcessSnapshot>, vis: Seq<usize>, x: usize, a: nat, b: nat)
    requires
        a <= b,
        anc(s, vis, x, a) is None,
    ensures
        anc(s, vis, x, b) is None,
    decreases b - a,
{
    if a < b {
        lemma_anc_none(s, vis, x, a, (b - 1) as nat);
    }
}

/// What lies up from a listed snapshot is listed, and lower in rank by
/// the number of steps.
pub proof fn lemma_anc_listed(s: Seq<ProcessSnapshot>, vis: Seq<usize>, rank: spec_fn(usize) -> nat, x: usize, n: nat)
    requires
        ranked(s, vis, rank),
        vis.contains(x),
    ensures
        anc(s, vis, x, n) matches Some(y) ==> vis.contains(y) && rank(y) + n <= rank(x),
    decreases n,
{
    if n > 0 {
        lemma_anc_listed(s, vis, rank, x, (n - 1) as nat);
        if let Some(y) = anc(s, vis, x, (n - 1) as nat) {
            if !is_root(s, vis, y) {
                lemma_parent_of(s, vis, y);
                let p = parent_of(s, vis, y);
                assert(s[p as int].pid == s[y as int].ppid);
            }
        }
    }
}

/// Every listed snapshot lies some number of steps below a root.
pub proof fn lemma_root_above(s: Seq<ProcessSnapshot>, vis: Seq<usize>, rank: spec_fn(usize) -> nat, x: usize)
    requires
        ranked(s, vis, rank),
        vis.contains(x),
    ensures
        exists|n: nat| #[trigger] at_level(s, vis, x, n),
    decreases rank(x),
{
    if is_root(s, vis, x) {
        assert(at_level(s, vis, x, 0));
    } else {
        lemma_parent_of(s, vis, x);
        let p = parent_of(s, vis, x);
        assert(s[p as int].pid == s[x as int].ppid);
        lemma_root_above(s, vis, rank, p);
        let n = choose|n: nat| #[trigger] at_level(s, vis, p, n);
        lemma_anc_compose(s, vis, x, 1, n);
        assert(anc(s, vis, x, 0) == Some(x));
        assert(anc(s, vis, x, 1) == up(s, vis, x));
        assert(anc(s, vis, x, 1) == Some(p));
        assert(at_level(s, vis, x, 1 + n));
    }
}

/// Nothing lies further up than the root.
pub proof fn lemma_above_root(s: Seq<ProcessSnapshot>, vis: Seq<usize>, y: usize, d: nat, m: nat)
    requires
        at_level(s, vis, y, d),
        d < m,
    ensures
        anc(s, vis, y, m) is None,
{
    assert(anc(s, vis, y, d + 1) is None);
    lemma_anc_none(s, vis, y, d + 1, m);
}

/// An ancestor lies no deeper than its descendant.
pub proof fn lemma_level_order(s: Seq<ProcessSnapshot>, vis: Seq<usize>, y: usize, d: nat, z: usize, e: nat)
    requires
        at_level(s, vis, y, d),
        at_level(s, vis, z, e),
        descends(s, vis, y, z),
    ensures
        e <= d,
{
    let n = choose|n: nat| #[trigger] anc(s, vis, y, n) == Some(z);
    lemma_anc_compose(s, vis, y, n, e);
    if n + e > d {
        lemma_above_root(s, vis, y, d, n + e);
    }
}

/// Of the snapshots at one level, at most one is `x` or above it.
pub proof fn lemma_level_exclusive(s: Seq<ProcessSnapshot>, vis: Seq<usize>, y1: usize, y2: usize, d: nat, x: usize)
    requires
        at_level(s, vis, y1, d),
        at_level(s, vis, y2, d),
        descends(s, vis, x, y1),
        descends(s, vis, x, y2),
    ensures
        y1 == y2,
{
    let a = choose|n: nat| #[trigger] anc(s, vis, x, n) == Some(y1);
    let b = choose|n: nat| #[trigger] anc(s, vis, x, n) == Some(y2);
    if a < b {
        lemma_anc_compose(s, vis, x, a, (b - a) as nat);
        assert(descends(s, vis, y1, y2));
        lemma_level_order(s, vis, y1, d, y2, d);
        assert(anc(s, vis, y1, (b - a) as nat) == Some(y2));
        lemma_anc_compose(s, vis, y1, (b - a) as nat, d);
        lemma_above_root(s, vis, y1, d, (b - a) as nat + d);
    } else if b < a {
        lemma_anc_compose(s, vis, x, b, (a - b) as nat);
        assert(anc(s, vis, y2, (a - b) as nat) == Some(y1));
        lemma_anc_compose(s, vis, y2, (a - b) as nat, d);
        lemma_above_root(s, vis, y2, d, (a - b) as nat + d);
    }
}

/// The snapshots up from a listed one are distinct and listed, so a path
/// up holds no more steps than there are listed snapshots.
pub proof fn lemma_chain_bound(s: Seq<ProcessSnapshot>, vis: Seq<usize>, rank: spec_fn(usize) -> nat, x: usize, d: nat)
    requires
        ranked(s, vis, rank),
        vis.contains(x),
        anc(s, vis, x, d) is Some,
    ensures
        d + 1 <= vis.len(),
{
    broadcast use vstd::seq_lib::seq_to_set_is_finite;
    let c = Seq::new(d + 1, |k: int| anc(s, vis, x, k as nat)->Some_0);
    assert forall|k: int| 0 <= k < c.len() implies #[trigger] anc(s, vis, x, k as nat) is Some && vis.contains(c[k])
        && rank(c[k]) + k <= rank(x) by {
        if anc(s, vis, x, k as nat) is None {
            lemma_anc_none(s, vis, x, k as nat, d);
        }
        lemma_anc_listed(s, vis, rank, x, k as nat);
    }
    assert(c.no_duplicates()) by {
        assert forall|i: int, j: int| 0 <= i < c.len() && 0 <= j < c.len() && i != j implies c[i] != c[j] by {
            assert(anc(s, vis, x, i as nat) is Some && anc(s, vis, x, j as nat) is Some);
            if i < j {
                lemma_anc_compose(s, vis, x, i as nat, (j - i) as nat);
                assert((i as nat + (j - i) as nat) == j as nat);
                lemma_anc_listed(s, vis, rank, c[i], (j - i) as nat);
            } else {
                lemma_anc_compose(s, vis, x, j as nat, (i - j) as nat);
                assert((j as nat + (i - j) as nat) == i as nat);
                lemma_anc_listed(s, vis, rank, c[j], (i - j) as nat);
            }
        }
    }
    c.unique_seq_to_set();
    vis.lemma_cardinality_of_set();
    assert(c.to_set().subset_of(vis.to_set())) by {
        assert forall|y: usize| c.to_set().contains(y) implies vis.to_set().contains(y) by {
            assert(c.contains(y));
        }
    }
    vstd::set_lib::lemma_len_subset(c.to_set(), vis.to_set());
}

/// Distinct pids make the listing itself free of repeats.
pub proof fn lemma_listing_no_dup(s: Seq<ProcessSnapshot>, vis: Seq<usize>)
    requires
        distinct_pids(s, vis),
    ensures
        vis.no_duplicates(),
{
    assert forall|a: int, b: int| 0 <= a < vis.len() && 0 <= b < vis.len() && a != b implies vis[a] != vis[b] by {
        assert(s[vis[a] as int].pid != s[vis[b] as int].pid);
    }
}

/// A filter keeps a sequence free of repeats.
pub proof fn lemma_filter_no_dup(v: Seq<usize>, pred: spec_fn(usize) -> bool)
    requires
        v.no_duplicates(),
    ensures
        v.filter(pred).no_duplicates(),
    decreases v.len(),
{
    if v.len() > 0 {
        let d = v.drop_last();
        assert forall|a: int, b: int| 0 <= a < d.len() && 0 <= b < d.len() && a != b implies d[a] != d[b] by {
            assert(d[a] == v[a] && d[b] == v[b]);
        }
        lemma_filter_no_dup(d, pred);
        let fd = d.filter(pred);
        reveal(Seq::filter);
        if pred(v.last()) {
            let f = v.filter(pred);
            assert(f == fd.push(v.last()));
            d.filter_lemma(pred);
            assert forall|k: int| 0 <= k < fd.len() implies #[trigger] fd[k] != v.last() by {
                assert(fd.contains(fd[k]));
                d.lemma_filter_contains_rev(pred, fd[k]);
                let j = choose|j: int| 0 <= j < d.len() && d[j] == fd[k];
                assert(v[j] == d[j]);
                assert(v[v.len() - 1] == v.last());
            }
            assert forall|a: int, b: int| 0 <= a < f.len() && 0 <= b < f.len() && a != b implies f[a] != f[b] by {
                if a < fd.len() && b < fd.len() {
                    assert(f[a] == fd[a] && f[b] == fd[b]);
                } else if a < fd.len() {
                    assert(f[a] == fd[a]);
                } else {
                    assert(f[b] == fd[b]);
                }
            }
        } else {
            assert(v.filter(pred) == fd);
        }
    }
}

/// A stable sort keeps a sequence free of repeats.
pub proof fn lemma_sort_no_dup(before: spec_fn(usize, usize) -> bool, xs: Seq<usize>)
    requires
        xs.no_duplicates(),
    ensures
        sort_by(before, xs).no_duplicates(),
{
    let f = sort_by(before, xs);
    lemma_sort_by_multiset(before, xs);
    xs.lemma_multiset_has_no_duplicates();
    assert forall|x: usize| f.to_multiset().contains(x) implies f.to_multiset().count(x) == 1 by {
        assert(xs.to_multiset().contains(x));
    }
    f.lemma_multiset_has_no_duplicates_conv();
}

/// The children listed under a listed snapshot are listed, and it is
/// their parent.
pub proof fn lemma_kid_up(s: Seq<ProcessSnapshot>, vis: Seq<usize>, i: usize, k: usize)
    requires
        distinct_pids(s, vis),
        vis.contains(i),
        kids_of(s, vis, s[i as int].pid).contains(k),
    ensures
        vis.contains(k),
        up(s, vis, k) == Some(i),
{
    broadcast use vstd::seq_lib::group_to_multiset_ensures;
    let pred = child_of(s, vis, s[i as int].pid);
    let f = vis.filter(pred);
    lemma_sort_by_multiset(goes_before(s, ProcessSortField::Pid, SortDirection::Asc), f);
    assert(kids_of(s, vis, s[i as int].pid).to_multiset().count(k) > 0);
    assert(f.to_multiset().count(k) > 0);
    assert(f.contains(k));
    let j = choose|j: int| 0 <= j < f.len() && f[j] == k;
    vis.filter_lemma(pred);
    assert(pred(f[j]));
    vis.lemma_filter_contains_rev(pred, k);
    lemma_parent_unique(s, vis, k, i);
}

/// A listed snapshot whose parent is `i` is among the children listed
/// under `i`.
pub proof fn lemma_up_kid(s: Seq<ProcessSnapshot>, vis: Seq<usize>, i: usize, y: usize)
    requires
        vis.contains(y),
        up(s, vis, y) == Some(i),
    ensures
        kids_of(s, vis, s[i as int].pid).contains(y),
{
    broadcast use vstd::seq_lib::group_to_multiset_ensures;
    lemma_parent_of(s, vis, y);
    let pred = child_of(s, vis, s[i as int].pid);
    let f = vis.filter(pred);
    let j = choose|j: int| 0 <= j < vis.len() && vis[j] == y;
    vis.filter_lemma(pred);
    assert(pred(vis[j]));
    assert(f.contains(y));
    assert(f.to_multiset().count(y) > 0);
    lemma_sort_by_multiset(goes_before(s, ProcessSortField::Pid, SortDirection::Asc), f);
    assert(kids_of(s, vis, s[i as int].pid).to_multiset().count(y) > 0);
}

/// How many rows show snapshot `x`.
pub open spec fn occurrences(w: Seq<Row>, x: usize) -> nat
    decreases w.len(),
{
    if w.len() == 0 {
        0
    } else {
        occurrences(w.drop_last(), x) + if w.last().0 == x { 1nat } else { 0nat }
    }
}

/// Rows of `a + b` showing `x`: those of `a` and those of `b`.
pub proof fn lemma_occurrences_concat(a: Seq<Row>, b: Seq<Row>, x: usize)
    ensures
        occurrences(a + b, x) == occurrences(a, x) + occurrences(b, x),
    decreases b.len(),
{
    if b.len() == 0 {
        assert(a + b =~= a);
    } else {
        lemma_occurrences_concat(a, b.drop_last(), x);
        assert((a + b).drop_last() =~= a + b.drop_last());
        assert((a + b).last() == b.last());
    }
}

/// The subtree walk from a listed snapshot `i` at its level shows each
/// listed snapshot at or below `i` once, and nothing else.
pub proof fn lemma_walk_count(
    s: Seq<ProcessSnapshot>,
    vis: Seq<usize>,
    rank: spec_fn(usize) -> nat,
    i: usize,
    depth: nat,
    pp: Seq<char>,
    last: bool,
)
    requires
        distinct_pids(s, vis),
        ranked(s, vis, rank),
        vis.contains(i),
        at_level(s, vis, i, depth),
    ensures
        forall|x: usize| #[trigger] occurrences(walk(s, vis, i, depth, pp, last), x)
            == if vis.contains(x) && descends(s, vis, x, i) { 1nat } else { 0nat },
    decreases vis.len() - depth, 0int, 0int,
{
    let head: Seq<Row> = seq![(i, depth, super::tree::node_prefix(depth, pp, last))];
    let w = walk(s, vis, i, depth, pp, last);
    assert forall|x: usize| #[trigger] occurrences(head, x) == if x == i { 1nat } else { 0nat } by {
        assert(head.drop_last() =~= Seq::<Row>::empty());
        assert(occurrences(head.drop_last(), x) == 0);
        assert(head.last() == head[0]);
    }
    assert(anc(s, vis, i, 0) == Some(i));
    assert(descends(s, vis, i, i));
    if depth + 1 < vis.len() {
        let kids = kids_of(s, vis, s[i as int].pid);
        let cp = child_prefix(depth, pp, last);
        let t = walk_seq(s, vis, kids, kids.len(), depth + 1, cp);
        lemma_listing_no_dup(s, vis);
        lemma_filter_no_dup(vis, child_of(s, vis, s[i as int].pid));
        lemma_sort_no_dup(goes_before(s, ProcessSortField::Pid, SortDirection::Asc), vis.filter(child_of(s, vis, s[i as int].pid)));
        assert forall|m: int| 0 <= m < kids.len() implies vis.contains(#[trigger] kids[m]) && at_level(s, vis, kids[m], depth + 1) by {
            assert(kids.contains(kids[m]));
            lemma_kid_up(s, vis, i, kids[m]);
            assert(anc(s, vis, kids[m], 0) == Some(kids[m]));
            assert(anc(s, vis, kids[m], 1) == Some(i));
            lemma_anc_compose(s, vis, kids[m], 1, depth);
        }
        lemma_walk_seq_count(s, vis, rank, kids, kids.len(), depth + 1, cp);
        assert(w == head + t);
        assert forall|x: usize| #[trigger] occurrences(w, x)
            == if vis.contains(x) && descends(s, vis, x, i) { 1nat } else { 0nat } by {
            lemma_occurrences_concat(head, t, x);
            if x == i {
                if exists|m: int| 0 <= m < kids.len() && descends(s, vis, x, #[trigger] kids[m]) {
                    let m = choose|m: int| 0 <= m < kids.len() && descends(s, vis, x, #[trigger] kids[m]);
                    lemma_level_order(s, vis, i, depth, kids[m], depth + 1);
                }
            } else {
                if vis.contains(x) && descends(s, vis, x, i) {
                    let n = choose|n: nat| #[trigger] anc(s, vis, x, n) == Some(i);
                    assert(n >= 1);
                    if anc(s, vis, x, (n - 1) as nat) is None {
                        lemma_anc_none(s, vis, x, (n - 1) as nat, n);
                    }
                    let y = anc(s, vis, x, (n - 1) as nat)->Some_0;
                    lemma_anc_compose(s, vis, x, (n - 1) as nat, 1);
                    assert((n - 1) as nat + 1 == n);
                    assert(anc(s, vis, y, 0) == Some(y));
                    assert(up(s, vis, y) == Some(i));
                    lemma_anc_listed(s, vis, rank, x, (n - 1) as nat);
                    lemma_up_kid(s, vis, i, y);
                    let m = choose|m: int| 0 <= m < kids.len() && kids[m] == y;
                    assert(descends(s, vis, x, kids[m]));
                }
                if exists|m: int| 0 <= m < kids.len() && descends(s, vis, x, #[trigger] kids[m]) {
                    let m = choose|m: int| 0 <= m < kids.len() && descends(s, vis, x, #[trigger] kids[m]);
                    let n = choose|n: nat| #[trigger] anc(s, vis, x, n) == Some(kids[m]);
                    assert(kids.contains(kids[m]));
                    lemma_kid_up(s, vis, i, kids[m]);
                    lemma_anc_compose(s, vis, x, n, 1);
                    assert(anc(s, vis, kids[m], 0) == Some(kids[m]));
                    assert(anc(s, vis, x, n + 1) == Some(i));
                }
            }
        }
    } else {
        assert(w == head);
        assert forall|x: usize| #[trigger] occurrences(w, x)
            == if vis.contains(x) && descends(s, vis, x, i) { 1nat } else { 0nat } by {
            if x != i && vis.contains(x) && descends(s, vis, x, i) {
                let n = choose|n: nat| #[trigger] anc(s, vis, x, n) == Some(i);
                assert(n >= 1);
                lemma_anc_compose(s, vis, x, n, depth);
                lemma_chain_bound(s, vis, rank, x, n + depth);
            }
        }
    }
}

/// The walks of the first `j` of `kids`, all listed at one level and none
/// repeated, show each listed snapshot at or below one of them once, and
/// nothing else.
pub proof fn lemma_walk_seq_count(
    s: Seq<ProcessSnapshot>,
    vis: Seq<usize>,
    rank: spec_fn(usize) -> nat,
    kids: Seq<usize>,
    j: nat,
    depth: nat,
    cp: Seq<char>,
)
    requires
        distinct_pids(s, vis),
        ranked(s, vis, rank),
        kids.no_duplicates(),
        j <= kids.len(),
        forall|m: int| 0 <= m < kids.len() ==> vis.contains(#[trigger] kids[m]) && at_level(s, vis, kids[m], depth),
    ensures
        forall|x: usize| #[trigger] occurrences(walk_seq(s, vis, kids, j, depth, cp), x)
            == if vis.contains(x) && exists|m: int| 0 <= m < j && descends(s, vis, x, #[trigger] kids[m]) { 1nat } else { 0nat },
    decreases vis.len() - depth, 1int, j,
{
    let w = walk_seq(s, vis, kids, j, depth, cp);
    if j == 0 {
        assert(w =~= Seq::<Row>::empty());
    } else {
        let a = walk_seq(s, vis, kids, (j - 1) as nat, depth, cp);
        let b = walk(s, vis, kids[j - 1], depth, cp, j == kids.len());
        lemma_walk_seq_count(s, vis, rank, kids, (j - 1) as nat, depth, cp);
        lemma_walk_count(s, vis, rank, kids[j - 1], depth, cp, j == kids.len());
        assert(w == a + b);
        assert forall|x: usize| #[trigger] occurrences(w, x)
            == if vis.contains(x) && exists|m: int| 0 <= m < j && descends(s, vis, x, #[trigger] kids[m]) { 1nat } else { 0nat } by {
            lemma_occurrences_concat(a, b, x);
            if exists|m: int| 0 <= m < j - 1 && descends(s, vis, x, #[trigger] kids[m]) {
                let m = choose|m: int| 0 <= m < j - 1 && descends(s, vis, x, #[trigger] kids[m]);
                if descends(s, vis, x, kids[j - 1]) {
                    lemma_level_exclusive(s, vis, kids[m], kids[j - 1], depth, x);
                }
            }
            if exists|m: int| 0 <= m < j && descends(s, vis, x, #[trigger] kids[m]) {
                let m = choose|m: int| 0 <= m < j && descends(s, vis, x, #[trigger] kids[m]);
                if m < j - 1 {
                    assert(exists|m2: int| 0 <= m2 < j - 1 && descends(s, vis, x, #[trigger] kids[m2]));
                }
            }
        }
    }
}

/// When the listed snapshots have distinct pids and their parent links
/// have no cycle (some ranking puts every listed parent below its
/// children), the process tree shows every listed snapshot exactly once
/// and nothing else.
pub proof fn lemma_tree_lists_each_once(
    s: Seq<ProcessSnapshot>,
    vis: Seq<usize>,
    field: ProcessSortField,
    dir: SortDirection,
)
    requires
        distinct_pids(s, vis),
        exists|rank: spec_fn(usize) -> nat| ranked(s, vis, rank),
    ensures
        forall|x: usize| #[trigger] occurrences(tree_order(s, vis, field, dir), x) == if vis.contains(x) { 1nat } else { 0nat },
{
    broadcast use vstd::seq_lib::group_to_multiset_ensures;
    let rank = choose|rank: spec_fn(usize) -> nat| ranked(s, vis, rank);
    let pred = |i: usize| is_root(s, vis, i);
    let f = vis.filter(pred);
    let roots = roots_of(s, vis, field, dir);
    assert(roots == sort_by(root_order(s, field, dir), f));
    lemma_sort_by_multiset(root_order(s, field, dir), f);
    lemma_listing_no_dup(s, vis);
    lemma_filter_no_dup(vis, pred);
    lemma_sort_no_dup(root_order(s, field, dir), f);
    assert forall|m: int| 0 <= m < roots.len() implies vis.contains(#[trigger] roots[m]) && at_level(s, vis, roots[m], 0) by {
        assert(roots.to_multiset().count(roots[m]) > 0);
        assert(f.contains(roots[m]));
        vis.lemma_filter_contains_rev(pred, roots[m]);
        let j = choose|j: int| 0 <= j < f.len() && f[j] == roots[m];
        vis.lemma_filter_pred(pred, j);
    }
    lemma_walk_seq_count(s, vis, rank, roots, roots.len(), 0, Seq::empty());
    assert forall|x: usize| #[trigger] occurrences(tree_order(s, vis, field, dir), x) == if vis.contains(x) { 1nat } else { 0nat } by {
        if vis.contains(x) {
            lemma_root_above(s, vis, rank, x);
            let n = choose|n: nat| #[trigger] at_level(s, vis, x, n);
            let r = anc(s, vis, x, n)->Some_0;
            lemma_anc_listed(s, vis, rank, x, n);
            let j = choose|j: int| 0 <= j < vis.len() && vis[j] == r;
            vis.filter_lemma(pred);
            assert(pred(vis[j]));
            assert(f.contains(r));
            assert(f.to_multiset().count(r) > 0);
            assert(roots.contains(r));
            let m = choose|m: int| 0 <= m < roots.len() && roots[m] == r;
            assert(descends(s, vis, x, roots[m]));
        }
    }
}

/// Every row of the subtree walk from a listed snapshot at its level shows
/// a listed snapshot exactly as many steps below a root as its depth.
pub proof fn lemma_walk_levels(
    s: Seq<ProcessSnapshot>,
    vis: Seq<usize>,
    i: usize,
    depth: nat,
    pp: Seq<char>,
    last: bool,
)
    requires
        distinct_pids(s, vis),
        vis.contains(i),
        at_level(s, vis, i, depth),
    ensures
        forall|k: int| 0 <= k < walk(s, vis, i, depth, pp, last).len()
            ==> vis.contains((#[trigger] walk(s, vis, i, depth, pp, last)[k]).0)
            && at_level(s, vis, walk(s, vis, i, depth, pp, last)[k].0, walk(s, vis, i, depth, pp, last)[k].1),
    decreases vis.len() - depth, 0int, 0int,
{
    let head: Seq<Row> = seq![(i, depth, super::tree::node_prefix(depth, pp, last))];
    let w = walk(s, vis, i, depth, pp, last);
    if depth + 1 < vis.len() {
        let kids = kids_of(s, vis, s[i as int].pid);
        let cp = child_prefix(depth, pp, last);
        let t = walk_seq(s, vis, kids, kids.len(), depth + 1, cp);
        assert forall|m: int| 0 <= m < kids.len() implies vis.contains(#[trigger] kids[m]) && at_level(s, vis, kids[m], depth + 1) by {
            assert(kids.contains(kids[m]));
            lemma_kid_up(s, vis, i, kids[m]);
            assert(anc(s, vis, kids[m], 0) == Some(kids[m]));
            assert(anc(s, vis, kids[m], 1) == Some(i));
            lemma_anc_compose(s, vis, kids[m], 1, depth);
        }
        lemma_walk_seq_levels(s, vis, kids, kids.len(), depth + 1, cp);
        assert(w == head + t);
        assert forall|k: int| 0 <= k < w.len() implies vis.contains((#[trigger] w[k]).0) && at_level(s, vis, w[k].0, w[k].1) by {
            if k > 0 {
                assert(w[k] == t[k - 1]);
            }
        }
    } else {
        assert(w == head);
    }
}

/// Every row of the walks of `kids`, all listed at one level, shows a
/// listed snapshot exactly as many steps below a root as its depth.
pub proof fn lemma_walk_seq_levels(
    s: Seq<ProcessSnapshot>,
    vis: Seq<usize>,
    kids: Seq<usize>,
    j: nat,
    depth: nat,
    cp: Seq<char>,
)
    requires
        distinct_pids(s, vis),
        j <= kids.len(),
        forall|m: int| 0 <= m < kids.len() ==> vis.contains(#[trigger] kids[m]) && at_level(s, vis, kids[m], depth),
    ensures
        forall|k: int| 0 <= k < walk_seq(s, vis, kids, j, depth, cp).len()
            ==> vis.contains((#[trigger] walk_seq(s, vis, kids, j, depth, cp)[k]).0)
            && at_level(s, vis, walk_seq(s, vis, kids, j, depth, cp)[k].0, walk_seq(s, vis, kids, j, depth, cp)[k].1),
    decreases vis.len() - depth, 1int, j,
{
    let w = walk_seq(s, vis, kids, j, depth, cp);
    if j > 0 {
        let a = walk_seq(s, vis, kids, (j - 1) as nat, depth, cp);
        let b = walk(s, vis, kids[j - 1], depth, cp, j == kids.len());
        lemma_walk_seq_levels(s, vis, kids, (j - 1) as nat, depth, cp);
        lemma_walk_levels(s, vis, kids[j - 1], depth, cp, j == kids.len());
        assert(w == a + b);
        assert forall|k: int| 0 <= k < w.len() implies vis.contains((#[trigger] w[k]).0) && at_level(s, vis, w[k].0, w[k].1) by {
            if k < a.len() {
                assert(w[k] == a[k]);
            } else {
                assert(w[k] == b[k - a.len()]);
            }
        }
    }
}

/// With distinct pids among the listed snapshots, every row of the process
/// tree shows a listed snapshot whose depth is its number of steps below a
/// root; so a row is at depth 0 exactly when it shows a root.
pub proof fn lemma_tree_depths(s: Seq<ProcessSnapshot>, vis: Seq<usize>, field: ProcessSortField, dir: SortDirection)
    requires
        distinct_pids(s, vis),
    ensures
        forall|k: int| 0 <= k < tree_order(s, vis, field, dir).len() ==> {
            let e = #[trigger] tree_order(s, vis, field, dir)[k];
            &&& vis.contains(e.0)
            &&& at_level(s, vis, e.0, e.1)
            &&& (e.1 == 0 <==> is_root(s, vis, e.0))
        },
{
    broadcast use vstd::seq_lib::group_to_multiset_ensures;
    let pred = |i: usize| is_root(s, vis, i);
    let f = vis.filter(pred);
    let roots = roots_of(s, vis, field, dir);
    lemma_sort_by_multiset(root_order(s, field, dir), f);
    assert forall|m: int| 0 <= m < roots.len() implies vis.contains(#[trigger] roots[m]) && at_level(s, vis, roots[m], 0) by {
        assert(roots.to_multiset().count(roots[m]) > 0);
        assert(f.contains(roots[m]));
        vis.lemma_filter_contains_rev(pred, roots[m]);
        let j = choose|j: int| 0 <= j < f.len() && f[j] == roots[m];
        vis.lemma_filter_pred(pred, j);
    }
    lemma_walk_seq_levels(s, vis, roots, roots.len(), 0, Seq::empty());
    let t = tree_order(s, vis, field, dir);
    assert forall|k: int| 0 <= k < t.len() implies (#[trigger] t[k]).1 == 0 <==> is_root(s, vis, t[k].0) by {
        let e = t[k];
        assert(anc(s, vis, e.0, 0) == Some(e.0));
        if e.1 > 0 && is_root(s, vis, e.0) {
            assert(at_level(s, vis, e.0, 0));
            lemma_above_root(s, vis, e.0, 0, e.1);
        }
    }
}

} // verus!
