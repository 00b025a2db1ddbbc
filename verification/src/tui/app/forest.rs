//! The shape of the process tree: depths, prefixes, parents and roots of
//! the rows that the tree walk draws.
use vstd::prelude::*;

use crate::models::ProcessSnapshot;
use crate::sort::{lemma_sort_by_multiset, lemma_sort_by_sorted, sorted_by};

use super::laws::lemma_process_order_strict_weak;
use super::sorting::goes_before;
use super::tree::{
    child_of, child_prefix, connector, continuation, is_root, kids_of, node_prefix, root_order, roots_of, tree_order, walk,
    walk_seq,
};
use super::{ProcessSortField, SortDirection};

verus! {

/// A drawn row: snapshot position, depth, prefix.
pub type Row = (usize, nat, Seq<char>);

/// The last row before row `k` at depth `d`, or -1.
pub open spec fn last_at(w: Seq<Row>, k: int, d: nat) -> int
    decreases k,
{
    if k <= 0 {
        -1
    } else if w[k - 1].1 == d {
        k - 1
    } else {
        last_at(w, k - 1, d)
    }
}

/// The snapshot positions of the rows at depth `d`, in order.
pub open spec fn rows_at(w: Seq<Row>, d: nat) -> Seq<usize>
    decreases w.len(),
{
    if w.len() == 0 {
        Seq::empty()
    } else if w.last().1 == d {
        rows_at(w.drop_last(), d).push(w.last().0)
    } else {
        rows_at(w.drop_last(), d)
    }
}

/// The prefix that the row `r` hands to its children: nothing at depth 0,
/// else its own prefix with the connector turned into the matching
/// continuation.
pub open spec fn handed(r: Row) -> Seq<char> {
    if r.1 == 0 {
        Seq::empty()
    } else {
        r.2.take(4 * (r.1 - 1)) + continuation(r.2.skip(4 * (r.1 - 1)) == connector(true))
    }
}

/// A child's prefix: what its parent hands down, then a connector.
pub open spec fn branches_from(p: Seq<char>, h: Seq<char>) -> bool {
    p == h + connector(true) || p == h + connector(false)
}

/// Every row of `w` at depth `d` branches from the prefix `cp`.
pub open spec fn tops_branch(w: Seq<Row>, d: nat, cp: Seq<char>) -> bool {
    forall|k: int| 0 <= k < w.len() && (#[trigger] w[k]).1 == d ==> branches_from(w[k].2, cp)
}

/// The rows `w` form a forest drawn from depth `b`: the first row is at
/// depth `b` and none is above it, depth grows by at most one from row to
/// row, each prefix is four characters per level, and every row below
/// depth `b` follows its parent: the last row before it one level up is
/// the process whose pid is its parent pid, and its prefix is what that
/// row hands down followed by a connector.
#[verifier::opaque]
pub open spec fn forest_shape(s: Seq<ProcessSnapshot>, w: Seq<Row>, b: nat) -> bool {
    &&& w.len() > 0 ==> w[0].1 == b
    &&& forall|k: int| 0 <= k < w.len() ==> #[trigger] w[k].1 >= b
    &&& forall|k: int| 0 <= k < w.len() ==> (#[trigger] w[k]).2.len() == 4 * w[k].1
    &&& forall|k: int| 0 <= k < w.len() - 1 ==> #[trigger] w[k + 1].1 <= w[k].1 + 1
    &&& forall|k: int| 0 <= k < w.len() && #[trigger] w[k].1 > b ==> {
        let j = last_at(w, k, (w[k].1 - 1) as nat);
        0 <= j && s[w[j].0 as int].pid == s[w[k].0 as int].ppid && branches_from(w[k].2, handed(w[j]))
    }
}

/// What `last_at` finds: a row at the depth before `k`, after which no row
/// before `k` is at that depth.
pub proof fn lemma_last_at(w: Seq<Row>, k: int, d: nat)
    requires
        0 <= k <= w.len(),
    ensures
        -1 <= last_at(w, k, d) < k,
        last_at(w, k, d) >= 0 ==> w[last_at(w, k, d)].1 == d,
        forall|j: int| last_at(w, k, d) < j < k && 0 <= j ==> #[trigger] w[j].1 != d,
    decreases k,
{
    if k > 0 {
        lemma_last_at(w, k - 1, d);
    }
}

/// `last_at` of rows that extend `a`, at a row within `a`.
pub proof fn lemma_last_at_prefix(a: Seq<Row>, w: Seq<Row>, k: int, d: nat)
    requires
        0 <= k <= a.len() <= w.len(),
        forall|j: int| 0 <= j < a.len() ==> #[trigger] w[j] == a[j],
    ensures
        last_at(w, k, d) == last_at(a, k, d),
    decreases k,
{
    if k > 0 {
        lemma_last_at_prefix(a, w, k - 1, d);
    }
}

/// `last_at` of `a + b` at a row within `b`.
pub proof fn lemma_last_at_concat(a: Seq<Row>, b: Seq<Row>, k: int, d: nat)
    requires
        0 <= k <= b.len(),
    ensures
        last_at(a + b, a.len() + k, d) == if last_at(b, k, d) >= 0 {
            a.len() + last_at(b, k, d)
        } else {
            last_at(a, a.len() as int, d)
        },
    decreases k,
{
    if k > 0 {
        lemma_last_at_concat(a, b, k - 1, d);
        assert((a + b)[a.len() + k - 1] == b[k - 1]);
    } else {
        lemma_last_at_prefix(a, a + b, a.len() as int, d);
    }
}

/// The rows at a depth of `a + b` are those of `a`, then those of `b`.
pub proof fn lemma_rows_at_concat(a: Seq<Row>, b: Seq<Row>, d: nat)
    ensures
        rows_at(a + b, d) == rows_at(a, d) + rows_at(b, d),
    decreases b.len(),
{
    if b.len() == 0 {
        assert(a + b =~= a);
        assert(rows_at(b, d) =~= Seq::<usize>::empty());
        assert(rows_at(a, d) + rows_at(b, d) =~= rows_at(a, d));
    } else {
        lemma_rows_at_concat(a, b.drop_last(), d);
        assert((a + b).drop_last() =~= a + b.drop_last());
        assert((a + b).last() == b.last());
        assert(rows_at(a, d) + rows_at(b.drop_last(), d).push(b.last().0)
            =~= (rows_at(a, d) + rows_at(b.drop_last(), d)).push(b.last().0));
    }
}

/// Two forests drawn from the same depth, one after the other, form one.
pub proof fn lemma_forest_concat(s: Seq<ProcessSnapshot>, a: Seq<Row>, b: Seq<Row>, d: nat)
    requires
        forest_shape(s, a, d),
        forest_shape(s, b, d),
    ensures
        forest_shape(s, a + b, d),
{
    reveal(forest_shape);
    let w = a + b;
    assert forall|k: int| 0 <= k < w.len() implies #[trigger] w[k].1 >= d && w[k].2.len() == 4 * w[k].1 by {
        if k < a.len() {
            assert(w[k] == a[k]);
        } else {
            assert(w[k] == b[k - a.len()]);
        }
    }
    assert forall|k: int| 0 <= k < w.len() - 1 implies #[trigger] w[k + 1].1 <= w[k].1 + 1 by {
        if k + 1 < a.len() {
            assert(w[k] == a[k] && w[k + 1] == a[k + 1]);
        } else if k + 1 == a.len() {
            assert(w[k] == a[k] && w[k + 1] == b[0]);
            assert(a[k].1 >= d && b[0].1 == d);
        } else {
            let kb = k - a.len();
            assert(w[k] == b[kb] && w[k + 1] == b[kb + 1]);
        }
    }
    assert forall|k: int| 0 <= k < w.len() && #[trigger] w[k].1 > d implies ({
        let j = last_at(w, k, (w[k].1 - 1) as nat);
        0 <= j && s[w[j].0 as int].pid == s[w[k].0 as int].ppid && branches_from(w[k].2, handed(w[j]))
    }) by {
        let e = (w[k].1 - 1) as nat;
        if k < a.len() {
            assert(w[k] == a[k]);
            assert(a[k].1 > d);
            lemma_last_at_prefix(a, w, k, e);
            lemma_last_at(a, k, e);
            assert(w[last_at(a, k, e)] == a[last_at(a, k, e)]);
        } else {
            let kb = k - a.len();
            assert(w[k] == b[kb]);
            assert(b[kb].1 > d);
            lemma_last_at_concat(a, b, kb, e);
            lemma_last_at(b, kb, e);
            assert(w[a.len() + last_at(b, kb, e)] == b[last_at(b, kb, e)]);
        }
    }
    if w.len() > 0 {
        if a.len() > 0 {
            assert(w[0] == a[0]);
        } else {
            assert(w[0] == b[0]);
        }
    }
}

/// A row at depth `d` is among the rows at that depth.
pub proof fn lemma_rows_at_member(w: Seq<Row>, k: int, d: nat)
    requires
        0 <= k < w.len(),
        w[k].1 == d,
    ensures
        rows_at(w, d).contains(w[k].0),
    decreases w.len(),
{
    if k == w.len() - 1 {
        let r = rows_at(w, d);
        assert(r[r.len() - 1] == w[k].0);
    } else {
        let dl = w.drop_last();
        assert(dl[k] == w[k]);
        lemma_rows_at_member(dl, k, d);
        let j = choose|j: int| 0 <= j < rows_at(dl, d).len() && rows_at(dl, d)[j] == w[k].0;
        if w.last().1 == d {
            assert(rows_at(w, d)[j] == w[k].0);
        }
    }
}

/// No row at depth `d`, no rows at it.
pub proof fn lemma_rows_at_none(w: Seq<Row>, d: nat)
    requires
        forall|k: int| 0 <= k < w.len() ==> #[trigger] w[k].1 != d,
    ensures
        rows_at(w, d) == Seq::<usize>::empty(),
    decreases w.len(),
{
    if w.len() > 0 {
        let dl = w.drop_last();
        assert forall|k: int| 0 <= k < dl.len() implies #[trigger] dl[k].1 != d by {
            assert(dl[k] == w[k]);
        }
        lemma_rows_at_none(dl, d);
        assert(w[w.len() - 1].1 != d);
    }
}

/// The children of a pid have it as their parent pid.
pub proof fn lemma_kids_parent(s: Seq<ProcessSnapshot>, vis: Seq<usize>, p: i32, x: usize)
    requires
        kids_of(s, vis, p).contains(x),
    ensures
        s[x as int].ppid == p,
        !is_root(s, vis, x),
{
    broadcast use vstd::seq_lib::group_to_multiset_ensures;
    let f = vis.filter(child_of(s, vis, p));
    lemma_sort_by_multiset(goes_before(s, ProcessSortField::Pid, SortDirection::Asc), f);
    assert(kids_of(s, vis, p).to_multiset().count(x) > 0);
    assert(f.to_multiset().count(x) > 0);
    assert(f.contains(x));
    let j = choose|j: int| 0 <= j < f.len() && f[j] == x;
    vis.lemma_filter_pred(child_of(s, vis, p), j);
}

/// A row at depth `d` followed by a forest from `d + 1` whose top rows are
/// its children, branching from what it hands down, is a forest from `d`.
proof fn lemma_forest_under(s: Seq<ProcessSnapshot>, h: Row, t: Seq<Row>, d: nat)
    requires
        h.1 == d,
        h.2.len() == 4 * d,
        forest_shape(s, t, d + 1),
        forall|k: int| 0 <= k < t.len() && (#[trigger] t[k]).1 == d + 1
            ==> s[t[k].0 as int].ppid == s[h.0 as int].pid && branches_from(t[k].2, handed(h)),
    ensures
        forest_shape(s, seq![h] + t, d),
{
    reveal(forest_shape);
    let head = seq![h];
    let w = head + t;
    assert forall|k: int| 0 <= k < w.len() implies #[trigger] w[k].1 >= d && w[k].2.len() == 4 * w[k].1 by {
        if k > 0 {
            assert(w[k] == t[k - 1]);
        }
    }
    assert forall|k: int| 0 <= k < w.len() - 1 implies #[trigger] w[k + 1].1 <= w[k].1 + 1 by {
        assert(w[k + 1] == t[k]);
        if k > 0 {
            let kt = k - 1;
            assert(w[k] == t[kt] && t[k] == t[kt + 1]);
        }
    }
    assert forall|k: int| 0 <= k < w.len() && #[trigger] w[k].1 > d implies ({
        let j = last_at(w, k, (w[k].1 - 1) as nat);
        0 <= j && s[w[j].0 as int].pid == s[w[k].0 as int].ppid && branches_from(w[k].2, handed(w[j]))
    }) by {
        let kt = k - 1;
        assert(w[k] == t[kt]);
        let e = (t[kt].1 - 1) as nat;
        lemma_last_at_concat(head, t, kt, e);
        lemma_last_at(t, kt, e);
        if t[kt].1 > d + 1 {
            assert(w[1 + last_at(t, kt, e)] == t[last_at(t, kt, e)]);
        } else {
            assert(last_at(t, kt, e) < 0);
            assert(last_at(head, 1, e) == 0);
        }
    }
}

/// The subtree of listed snapshot `i` drawn at `depth` is a forest from
/// that depth with `i` as its only top row, drawn first.
pub proof fn lemma_walk_shape(s: Seq<ProcessSnapshot>, vis: Seq<usize>, i: usize, depth: nat, pp: Seq<char>, last: bool)
    requires
        depth == 0 || pp.len() == 4 * (depth - 1),
    ensures
        forest_shape(s, walk(s, vis, i, depth, pp, last), depth),
        walk(s, vis, i, depth, pp, last).len() > 0,
        walk(s, vis, i, depth, pp, last)[0] == (i, depth, node_prefix(depth, pp, last)),
        rows_at(walk(s, vis, i, depth, pp, last), depth) == seq![i],
        forall|k: int| 0 < k < walk(s, vis, i, depth, pp, last).len() ==> (#[trigger] walk(s, vis, i, depth, pp, last)[k]).1 > depth,
    decreases vis.len() - depth, 0int, 0int,
{
    reveal(forest_shape);
    reveal_strlit("└── ");
    reveal_strlit("├── ");
    reveal_strlit("    ");
    reveal_strlit("│   ");
    assert(connector(last).len() == 4);
    assert(continuation(last).len() == 4);
    let head: Seq<Row> = seq![(i, depth, node_prefix(depth, pp, last))];
    let w = walk(s, vis, i, depth, pp, last);
    assert(head[0].2.len() == 4 * depth);
    assert(forest_shape(s, head, depth));
    assert(rows_at(head, depth) =~= seq![i]) by {
        assert(head.drop_last() =~= Seq::<Row>::empty());
        assert(rows_at(head.drop_last(), depth) == Seq::<usize>::empty());
        assert(head.last().1 == depth);
        assert(rows_at(head, depth) == Seq::<usize>::empty().push(i));
    }
    lemma_handed(depth, pp, last);
    if depth + 1 < vis.len() {
        let kids = kids_of(s, vis, s[i as int].pid);
        let cp = child_prefix(depth, pp, last);
        let t = walk_seq(s, vis, kids, kids.len(), depth + 1, cp);
        lemma_walk_seq_shape(s, vis, kids, kids.len(), depth + 1, cp);
        assert(w == head + t);
        assert forall|k: int| 0 <= k < t.len() && (#[trigger] t[k]).1 == depth + 1 implies
            s[t[k].0 as int].ppid == s[i as int].pid && branches_from(t[k].2, handed(head[0])) by {
            lemma_rows_at_member(t, k, depth + 1);
            lemma_kids_parent(s, vis, s[i as int].pid, t[k].0);
        }
        lemma_forest_under(s, head[0], t, depth);
        lemma_rows_at_concat(head, t, depth);
        lemma_rows_at_none(t, depth);
        assert(rows_at(w, depth) =~= seq![i]);
    } else {
        assert(w == head);
    }
}

/// The subtrees of the first `j` children drawn at `depth` form a forest
/// from that depth whose top rows are those children, in order.
pub proof fn lemma_walk_seq_shape(
    s: Seq<ProcessSnapshot>,
    vis: Seq<usize>,
    kids: Seq<usize>,
    j: nat,
    depth: nat,
    cp: Seq<char>,
)
    requires
        depth == 0 || cp.len() == 4 * (depth - 1),
        j <= kids.len(),
    ensures
        forest_shape(s, walk_seq(s, vis, kids, j, depth, cp), depth),
        rows_at(walk_seq(s, vis, kids, j, depth, cp), depth) == kids.take(j as int),
        depth > 0 ==> tops_branch(walk_seq(s, vis, kids, j, depth, cp), depth, cp),
    decreases vis.len() - depth, 1int, j,
{
    let w = walk_seq(s, vis, kids, j, depth, cp);
    if j == 0 {
        reveal(forest_shape);
        assert(w =~= Seq::<Row>::empty());
        assert(kids.take(0) =~= Seq::<usize>::empty());
    } else {
        let a = walk_seq(s, vis, kids, (j - 1) as nat, depth, cp);
        let b = walk(s, vis, kids[j - 1], depth, cp, j == kids.len());
        lemma_walk_seq_shape(s, vis, kids, (j - 1) as nat, depth, cp);
        lemma_walk_shape(s, vis, kids[j - 1], depth, cp, j == kids.len());
        assert(w == a + b);
        lemma_forest_concat(s, a, b, depth);
        lemma_rows_at_concat(a, b, depth);
        assert(kids.take(j as int) =~= kids.take(j - 1) + seq![kids[j - 1]]);
        if depth > 0 {
            lemma_handed(depth, cp, j == kids.len());
            lemma_tops_branch_concat(a, b, depth, cp);
        }
    }
}

/// The process tree of the listed snapshots `vis` is a forest from depth
/// 0: its first row is at depth 0, depth grows by at most one from row to
/// row, every prefix is four characters per level (none at depth 0), and
/// every row below the top follows its parent process, with a prefix made
/// of what the parent's row hands down (its own prefix up to its
/// connector, then "    " under a last child and "│   " under any other)
/// and a connector. Its top rows are
/// exactly the roots, in the root order (ascending pid when unsorted), and
/// each process's children come in ascending pid order.
pub proof fn lemma_tree_shape(
    s: Seq<ProcessSnapshot>,
    vis: Seq<usize>,
    field: ProcessSortField,
    dir: SortDirection,
)
    ensures
        forest_shape(s, tree_order(s, vis, field, dir), 0),
        forall|k: int| 0 <= k < tree_order(s, vis, field, dir).len() && #[trigger] tree_order(s, vis, field, dir)[k].1 == 0
            ==> tree_order(s, vis, field, dir)[k].2 == Seq::<char>::empty(),
        rows_at(tree_order(s, vis, field, dir), 0) == roots_of(s, vis, field, dir),
        forall|k: int| 0 <= k < roots_of(s, vis, field, dir).len()
            ==> is_root(s, vis, #[trigger] roots_of(s, vis, field, dir)[k]),
        roots_of(s, vis, field, dir).to_multiset() == vis.filter(|i: usize| is_root(s, vis, i)).to_multiset(),
        sorted_by(root_order(s, field, dir), roots_of(s, vis, field, dir)),
        forall|p: i32| sorted_by(goes_before(s, ProcessSortField::Pid, SortDirection::Asc), #[trigger] kids_of(s, vis, p)),
{
    broadcast use vstd::seq_lib::group_to_multiset_ensures;
    let roots = roots_of(s, vis, field, dir);
    let t = tree_order(s, vis, field, dir);
    lemma_walk_seq_shape(s, vis, roots, roots.len(), 0, Seq::empty());
    reveal(forest_shape);
    assert(roots.take(roots.len() as int) =~= roots);
    assert forall|k: int| 0 <= k < t.len() && #[trigger] t[k].1 == 0 implies t[k].2 == Seq::<char>::empty() by {
        assert(t[k].2.len() == 0);
    }
    let ord = root_order(s, field, dir);
    let pred = |i: usize| is_root(s, vis, i);
    if field == ProcessSortField::Unsorted {
        lemma_process_order_strict_weak(s, ProcessSortField::Pid, SortDirection::Asc);
    } else {
        lemma_process_order_strict_weak(s, field, dir);
    }
    lemma_sort_by_multiset(ord, vis.filter(pred));
    lemma_sort_by_sorted(ord, vis.filter(pred));
    assert forall|k: int| 0 <= k < roots.len() implies is_root(s, vis, #[trigger] roots[k]) by {
        let f = vis.filter(pred);
        assert(roots.to_multiset().count(roots[k]) > 0);
        assert(f.contains(roots[k]));
        let j = choose|j: int| 0 <= j < f.len() && f[j] == roots[k];
        vis.lemma_filter_pred(pred, j);
    }
    lemma_process_order_strict_weak(s, ProcessSortField::Pid, SortDirection::Asc);
    assert forall|p: i32| sorted_by(goes_before(s, ProcessSortField::Pid, SortDirection::Asc), #[trigger] kids_of(s, vis, p)) by {
        lemma_sort_by_sorted(goes_before(s, ProcessSortField::Pid, SortDirection::Asc), vis.filter(child_of(s, vis, p)));
    }
}

/// The prefix a node hands down is the one it would draw its children
/// from, and a node below the top branches from its parent's prefix.
pub proof fn lemma_handed(depth: nat, pp: Seq<char>, last: bool)
    requires
        depth == 0 || pp.len() == 4 * (depth - 1),
    ensures
        handed((0usize, depth, node_prefix(depth, pp, last))) == child_prefix(depth, pp, last),
        depth > 0 ==> branches_from(node_prefix(depth, pp, last), pp),
{
    reveal_strlit("└── ");
    reveal_strlit("├── ");
    if depth > 0 {
        let np = node_prefix(depth, pp, last);
        let n = 4 * (depth - 1);
        assert(np.take(n) =~= pp);
        assert(np.skip(n) =~= connector(last));
        if !last {
            assert(connector(false)[0] != connector(true)[0]);
        }
    }
}

/// Appending a subtree whose only top row branches from `cp` keeps every
/// top row branching from it.
proof fn lemma_tops_branch_concat(a: Seq<Row>, b: Seq<Row>, d: nat, cp: Seq<char>)
    requires
        tops_branch(a, d, cp),
        b.len() > 0,
        branches_from(b[0].2, cp),
        forall|k: int| 0 < k < b.len() ==> (#[trigger] b[k]).1 > d,
    ensures
        tops_branch(a + b, d, cp),
{
    let w = a + b;
    assert forall|k: int| 0 <= k < w.len() && (#[trigger] w[k]).1 == d implies branches_from(w[k].2, cp) by {
        if k < a.len() {
            assert(w[k] == a[k]);
        } else {
            assert(w[k] == b[k - a.len()]);
        }
    }
}

/// Row `k` has a later sibling: a later row at its depth with only deeper
/// rows in between.
pub open spec fn next_sibling(w: Seq<Row>, k: int) -> bool {
    exists|m: int| k < m < w.len() && #[trigger] w[m].1 == w[k].1
        && forall|l: int| k < l < m ==> #[trigger] w[l].1 > w[k].1
}

/// The prefix ends with the connector of a last child.
pub open spec fn ends_last(p: Seq<char>) -> bool {
    p.len() >= 4 && p.skip(p.len() - 4) == connector(true)
}

/// Every row of `w` deeper than `b` is drawn as a last child exactly when
/// it has no later sibling.
pub open spec fn exact_below(w: Seq<Row>, b: nat) -> bool {
    forall|k: int| 0 <= k < w.len() && (#[trigger] w[k]).1 > b ==> (ends_last(w[k].2) <==> !next_sibling(w, k))
}

/// Every row of `w` at depth `b` is drawn as a last child exactly when it
/// has no later sibling and the list of siblings is complete.
pub open spec fn top_marks(w: Seq<Row>, b: nat, full: bool) -> bool {
    forall|k: int| 0 <= k < w.len() && (#[trigger] w[k]).1 == b ==> (ends_last(w[k].2) <==> (!next_sibling(w, k) && full))
}

/// Siblings within the appended part are those it has on its own.
proof fn lemma_sibling_suffix(a: Seq<Row>, b: Seq<Row>, k: int)
    requires
        0 <= k < b.len(),
    ensures
        next_sibling(a + b, a.len() + k) == next_sibling(b, k),
{
    let w = a + b;
    let n = a.len() as int;
    if next_sibling(b, k) {
        let m = choose|m: int| k < m < b.len() && #[trigger] b[m].1 == b[k].1
            && forall|l: int| k < l < m ==> #[trigger] b[l].1 > b[k].1;
        assert(w[n + m] == b[m] && w[n + k] == b[k]);
        assert forall|l: int| n + k < l < n + m implies #[trigger] w[l].1 > w[n + k].1 by {
            assert(w[l] == b[l - n]);
        }
    }
    if next_sibling(w, n + k) {
        let m = choose|m: int| n + k < m < w.len() && #[trigger] w[m].1 == w[n + k].1
            && forall|l: int| n + k < l < m ==> #[trigger] w[l].1 > w[n + k].1;
        assert(w[m] == b[m - n] && w[n + k] == b[k]);
        assert forall|l: int| k < l < m - n implies #[trigger] b[l].1 > b[k].1 by {
            assert(w[n + l] == b[l]);
        }
    }
}

/// A row of `a` deeper than where `b` starts has the same siblings in
/// `a + b` as in `a`.
proof fn lemma_sibling_prefix_deep(a: Seq<Row>, b: Seq<Row>, k: int)
    requires
        0 <= k < a.len(),
        b.len() > 0,
        b[0].1 < a[k].1,
    ensures
        next_sibling(a + b, k) == next_sibling(a, k),
{
    let w = a + b;
    if next_sibling(a, k) {
        let m = choose|m: int| k < m < a.len() && #[trigger] a[m].1 == a[k].1
            && forall|l: int| k < l < m ==> #[trigger] a[l].1 > a[k].1;
        assert(w[m] == a[m] && w[k] == a[k]);
        assert forall|l: int| k < l < m implies #[trigger] w[l].1 > w[k].1 by {
            assert(w[l] == a[l]);
        }
    }
    if next_sibling(w, k) {
        let m = choose|m: int| k < m < w.len() && #[trigger] w[m].1 == w[k].1
            && forall|l: int| k < l < m ==> #[trigger] w[l].1 > w[k].1;
        if m >= a.len() {
            if m > a.len() {
                assert(w[a.len() as int].1 > w[k].1);
            }
            assert(w[a.len() as int] == b[0]);
            assert(w[k] == a[k]);
        } else {
            assert(w[m] == a[m] && w[k] == a[k]);
            assert forall|l: int| k < l < m implies #[trigger] a[l].1 > a[k].1 by {
                assert(w[l] == a[l]);
            }
        }
    }
}

/// A row of `a` at the depth where `b` starts, with no row of `a` above
/// that depth, has a later sibling in `a + b`.
proof fn lemma_sibling_prefix_top(a: Seq<Row>, b: Seq<Row>, k: int)
    requires
        0 <= k < a.len(),
        b.len() > 0,
        b[0].1 == a[k].1,
        forall|l: int| 0 <= l < a.len() ==> #[trigger] a[l].1 >= a[k].1,
    ensures
        next_sibling(a + b, k),
{
    let w = a + b;
    let d = a[k].1;
    if exists|m: int| k < m < a.len() && #[trigger] a[m].1 == d {
        // the first later row at depth d
        let m0 = choose|m: int| k < m < a.len() && #[trigger] a[m].1 == d;
        lemma_first_at(a, k, m0, d);
        let m = choose|m: int| k < m <= m0 && #[trigger] a[m].1 == d && forall|l: int| k < l < m ==> #[trigger] a[l].1 != d;
        assert(w[m] == a[m] && w[k] == a[k]);
        assert forall|l: int| k < l < m implies #[trigger] w[l].1 > w[k].1 by {
            assert(w[l] == a[l]);
            assert(a[l].1 >= d && a[l].1 != d);
        }
    } else {
        let m = a.len() as int;
        assert(w[m] == b[0] && w[k] == a[k]);
        assert forall|l: int| k < l < m implies #[trigger] w[l].1 > w[k].1 by {
            assert(w[l] == a[l]);
            assert(a[l].1 >= d);
            assert(a[l].1 != d);
        }
    }
}

/// Before a row at depth `d` after `k` there is a first one.
proof fn lemma_first_at(a: Seq<Row>, k: int, m0: int, d: nat)
    requires
        k < m0 < a.len(),
        0 <= k,
        a[m0].1 == d,
    ensures
        exists|m: int| k < m <= m0 && #[trigger] a[m].1 == d && forall|l: int| k < l < m ==> #[trigger] a[l].1 != d,
    decreases m0 - k,
{
    if exists|l: int| k < l < m0 && #[trigger] a[l].1 == d {
        let l = choose|l: int| k < l < m0 && #[trigger] a[l].1 == d;
        lemma_first_at(a, k, l, d);
    } else {
        assert forall|l: int| k < l < m0 implies #[trigger] a[l].1 != d by {}
    }
}

/// A node below the top ends with the last child's connector exactly when
/// it is drawn as a last child.
proof fn lemma_ends_last(depth: nat, pp: Seq<char>, last: bool)
    requires
        depth > 0,
        pp.len() == 4 * (depth - 1),
    ensures
        ends_last(node_prefix(depth, pp, last)) == last,
{
    reveal_strlit("└── ");
    reveal_strlit("├── ");
    let np = node_prefix(depth, pp, last);
    assert(np.skip(np.len() - 4) =~= connector(last));
    if !last {
        assert(connector(false)[0] != connector(true)[0]);
    }
}

/// In the subtree walk from a node, every row below it is drawn as a last
/// child exactly when it has no later sibling.
pub proof fn lemma_walk_marks(s: Seq<ProcessSnapshot>, vis: Seq<usize>, i: usize, depth: nat, pp: Seq<char>, last: bool)
    requires
        depth == 0 || pp.len() == 4 * (depth - 1),
    ensures
        exact_below(walk(s, vis, i, depth, pp, last), depth),
    decreases vis.len() - depth, 0int, 0int,
{
    let head: Seq<Row> = seq![(i, depth, node_prefix(depth, pp, last))];
    let w = walk(s, vis, i, depth, pp, last);
    reveal_strlit("    ");
    reveal_strlit("│   ");
    assert(continuation(last).len() == 4);
    if depth + 1 < vis.len() {
        let kids = kids_of(s, vis, s[i as int].pid);
        let cp = child_prefix(depth, pp, last);
        let t = walk_seq(s, vis, kids, kids.len(), depth + 1, cp);
        lemma_walk_seq_marks(s, vis, kids, kids.len(), depth + 1, cp);
        lemma_walk_seq_shape(s, vis, kids, kids.len(), depth + 1, cp);
        reveal(forest_shape);
        assert(w == head + t);
        assert forall|k: int| 0 <= k < w.len() && (#[trigger] w[k]).1 > depth implies (ends_last(w[k].2) <==> !next_sibling(w, k)) by {
            let kt = k - 1;
            assert(w[k] == t[kt]);
            lemma_sibling_suffix(head, t, kt);
            assert(t[kt].1 >= depth + 1);
        }
    } else {
        assert(w == head);
    }
}

/// In the walks of the first `j` of `kids` at `depth`, every row below
/// that depth is drawn as a last child exactly when it has no later
/// sibling; so is every row at that depth when all of `kids` are drawn.
pub proof fn lemma_walk_seq_marks(
    s: Seq<ProcessSnapshot>,
    vis: Seq<usize>,
    kids: Seq<usize>,
    j: nat,
    depth: nat,
    cp: Seq<char>,
)
    requires
        depth == 0 || cp.len() == 4 * (depth - 1),
        j <= kids.len(),
    ensures
        exact_below(walk_seq(s, vis, kids, j, depth, cp), depth),
        depth > 0 ==> top_marks(walk_seq(s, vis, kids, j, depth, cp), depth, j == kids.len()),
    decreases vis.len() - depth, 1int, j,
{
    let w = walk_seq(s, vis, kids, j, depth, cp);
    if j == 0 {
        assert(w =~= Seq::<Row>::empty());
    } else {
        let last = j == kids.len();
        let a = walk_seq(s, vis, kids, (j - 1) as nat, depth, cp);
        let b = walk(s, vis, kids[j - 1], depth, cp, last);
        lemma_walk_seq_marks(s, vis, kids, (j - 1) as nat, depth, cp);
        lemma_walk_marks(s, vis, kids[j - 1], depth, cp, last);
        lemma_walk_seq_shape(s, vis, kids, (j - 1) as nat, depth, cp);
        lemma_walk_shape(s, vis, kids[j - 1], depth, cp, last);
        lemma_forest_floor(s, a, depth);
        assert(w == a + b);
        if depth > 0 {
            lemma_ends_last(depth, cp, last);
        }
        lemma_marks_concat(a, b, depth, last);
    }
}

/// No row of a forest from depth `d` is above it.
proof fn lemma_forest_floor(s: Seq<ProcessSnapshot>, w: Seq<Row>, d: nat)
    requires
        forest_shape(s, w, d),
    ensures
        forall|k: int| 0 <= k < w.len() ==> #[trigger] w[k].1 >= d,
{
    reveal(forest_shape);
}

/// Appending a subtree drawn at `depth` to walks of earlier siblings keeps
/// the last-child marks exact; its own top row is marked as `last` says.
proof fn lemma_marks_concat(a: Seq<Row>, b: Seq<Row>, depth: nat, last: bool)
    requires
        exact_below(a, depth),
        depth > 0 ==> top_marks(a, depth, false),
        forall|k: int| 0 <= k < a.len() ==> #[trigger] a[k].1 >= depth,
        exact_below(b, depth),
        b.len() > 0,
        b[0].1 == depth,
        forall|k: int| 0 < k < b.len() ==> #[trigger] b[k].1 > depth,
        depth > 0 ==> ends_last(b[0].2) == last,
    ensures
        exact_below(a + b, depth),
        depth > 0 ==> top_marks(a + b, depth, last),
{
    let w = a + b;
    assert forall|k: int| 0 <= k < w.len() && (#[trigger] w[k]).1 >= depth && (w[k].1 > depth || depth > 0)
        implies (ends_last(w[k].2) <==> (!next_sibling(w, k) && (w[k].1 > depth || last))) by {
        if k < a.len() {
            assert(w[k] == a[k]);
            if a[k].1 > depth {
                lemma_sibling_prefix_deep(a, b, k);
            } else {
                lemma_sibling_prefix_top(a, b, k);
            }
        } else {
            let kb = k - a.len();
            assert(w[k] == b[kb]);
            lemma_sibling_suffix(a, b, kb);
            if kb == 0 {
                assert(!next_sibling(b, 0));
            }
        }
    }
    assert forall|k: int| 0 <= k < w.len() implies #[trigger] w[k].1 >= depth by {
        if k < a.len() {
            assert(w[k] == a[k]);
        } else {
            assert(w[k] == b[k - a.len()]);
        }
    }
}

/// In the process tree, a row below the top is drawn as a last child
/// ("└── ") exactly when no later sibling follows it.
pub proof fn lemma_tree_marks(s: Seq<ProcessSnapshot>, vis: Seq<usize>, field: ProcessSortField, dir: SortDirection)
    ensures
        exact_below(tree_order(s, vis, field, dir), 0),
{
    let roots = roots_of(s, vis, field, dir);
    lemma_walk_seq_marks(s, vis, roots, roots.len(), 0, Seq::empty());
}

} // verus!
