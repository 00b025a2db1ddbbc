//! The process tree: roots sorted by the chosen field, children grouped under
//! their parent and sorted by pid, with box-drawing prefixes.
use vstd::prelude::*;

use crate::models::ProcessSnapshot;
use crate::sort::sort_by;
use crate::text::push_str;

use super::sorting::{goes_before, name_keys, sort_snapshot_indices};
use super::{ProcessSortField, SortDirection, TreeEntry};

verus! {

/// Some listed snapshot has pid `p`.
pub open spec fn pid_present(s: Seq<ProcessSnapshot>, vis: Seq<usize>, p: i32) -> bool {
    exists|k: int| 0 <= k < vis.len() && #[trigger] s[vis[k] as int].pid == p
}

/// Snapshot `i` is a root among the listed snapshots `vis`: its parent pid is
/// 0 or belongs to no listed snapshot.
pub open spec fn is_root(s: Seq<ProcessSnapshot>, vis: Seq<usize>, i: usize) -> bool {
    s[i as int].ppid == 0 || !pid_present(s, vis, s[i as int].ppid)
}

/// Listed snapshot `i` is a child of pid `p`.
pub open spec fn child_of(s: Seq<ProcessSnapshot>, vis: Seq<usize>, p: i32) -> spec_fn(usize) -> bool {
    |i: usize| !is_root(s, vis, i) && s[i as int].ppid == p
}

/// The children of pid `p`, in listing order, then stably sorted by pid.
pub open spec fn kids_of(s: Seq<ProcessSnapshot>, vis: Seq<usize>, p: i32) -> Seq<usize> {
    sort_by(goes_before(s, ProcessSortField::Pid, SortDirection::Asc), vis.filter(child_of(s, vis, p)))
}

/// The order of the roots: by pid when unsorted, else by the chosen field.
pub open spec fn root_order(
    s: Seq<ProcessSnapshot>,
    field: ProcessSortField,
    dir: SortDirection,
) -> spec_fn(usize, usize) -> bool {
    if field == ProcessSortField::Unsorted {
        goes_before(s, ProcessSortField::Pid, SortDirection::Asc)
    } else {
        goes_before(s, field, dir)
    }
}

/// The roots among the listed snapshots, in display order.
pub open spec fn roots_of(
    s: Seq<ProcessSnapshot>,
    vis: Seq<usize>,
    field: ProcessSortField,
    dir: SortDirection,
) -> Seq<usize> {
    sort_by(root_order(s, field, dir), vis.filter(|i: usize| is_root(s, vis, i)))
}

/// The connector drawn in front of a node.
pub open spec fn connector(last: bool) -> Seq<char> {
    if last { "└── "@ } else { "├── "@ }
}

/// The continuation drawn under a node for its descendants.
pub open spec fn continuation(last: bool) -> Seq<char> {
    if last { "    "@ } else { "│   "@ }
}

/// The prefix of a node at `depth` whose parent's descendants use `pp`.
pub open spec fn node_prefix(depth: nat, pp: Seq<char>, last: bool) -> Seq<char> {
    if depth == 0 { Seq::empty() } else { pp + connector(last) }
}

/// The prefix handed to the children of such a node.
pub open spec fn child_prefix(depth: nat, pp: Seq<char>, last: bool) -> Seq<char> {
    if depth == 0 { Seq::empty() } else { pp + continuation(last) }
}

/// The entries of the subtree of listed snapshot `i`, depth first. A path
/// of the tree never holds more nodes than are listed, so a node at depth
/// `vis.len() - 1` is drawn without descending further.
pub open spec fn walk(
    s: Seq<ProcessSnapshot>,
    vis: Seq<usize>,
    i: usize,
    depth: nat,
    pp: Seq<char>,
    last: bool,
) -> Seq<(usize, nat, Seq<char>)>
    decreases vis.len() - depth, 0int, 0int,
{
    let head = seq![(i, depth, node_prefix(depth, pp, last))];
    if depth + 1 < vis.len() {
        let kids = kids_of(s, vis, s[i as int].pid);
        head + walk_seq(s, vis, kids, kids.len(), depth + 1, child_prefix(depth, pp, last))
    } else {
        head
    }
}

/// The subtrees of the first `j` of `kids`, in order; the last of `kids`
/// is drawn as the last child.
pub open spec fn walk_seq(
    s: Seq<ProcessSnapshot>,
    vis: Seq<usize>,
    kids: Seq<usize>,
    j: nat,
    depth: nat,
    cp: Seq<char>,
) -> Seq<(usize, nat, Seq<char>)>
    decreases vis.len() - depth, 1int, j,
{
    if j == 0 || j > kids.len() {
        Seq::empty()
    } else {
        walk_seq(s, vis, kids, (j - 1) as nat, depth, cp)
            + walk(s, vis, kids[j - 1], depth, cp, j == kids.len())
    }
}

/// The tree order of the listed snapshots `vis`.
pub open spec fn tree_order(
    s: Seq<ProcessSnapshot>,
    vis: Seq<usize>,
    field: ProcessSortField,
    dir: SortDirection,
) -> Seq<(usize, nat, Seq<char>)> {
    let roots = roots_of(s, vis, field, dir);
    walk_seq(s, vis, roots, roots.len(), 0, Seq::empty())
}

/// The listed indices are valid snapshot indices.
pub open spec fn valid_listing(s: Seq<ProcessSnapshot>, vis: Seq<usize>) -> bool {
    forall|k: int| 0 <= k < vis.len() ==> #[trigger] vis[k] < s.len()
}

fn pid_present_exec(s: &[ProcessSnapshot], vis: &Vec<usize>, p: i32) -> (b: bool)
    requires
        valid_listing(s@, vis@),
    ensures
        b == pid_present(s@, vis@, p),
{
    let mut k: usize = 0;
    while k < vis.len()
        invariant
            k <= vis@.len(),
            valid_listing(s@, vis@),
            forall|m: int| 0 <= m < k ==> #[trigger] s@[vis@[m] as int].pid != p,
        decreases vis@.len() - k,
    {
        if s[vis[k]].pid == p {
            return true;
        }
        k = k + 1;
    }
    false
}

/// Root flags of the listed snapshots.
fn root_flags(s: &[ProcessSnapshot], vis: &Vec<usize>) -> (flags: Vec<bool>)
    requires
        valid_listing(s@, vis@),
    ensures
        flags@.len() == vis@.len(),
        forall|k: int| 0 <= k < vis@.len() ==> #[trigger] flags@[k] == is_root(s@, vis@, vis@[k]),
{
    let mut flags: Vec<bool> = Vec::new();
    let mut k: usize = 0;
    while k < vis.len()
        invariant
            k <= vis@.len(),
            valid_listing(s@, vis@),
            flags@.len() == k,
            forall|m: int| 0 <= m < k ==> #[trigger] flags@[m] == is_root(s@, vis@, vis@[m]),
        decreases vis@.len() - k,
    {
        let i = vis[k];
        let root = s[i].ppid == 0 || !pid_present_exec(s, vis, s[i].ppid);
        flags.push(root);
        k = k + 1;
    }
    flags
}

/// The listed snapshots whose root flag is `want_root` and, when not roots,
/// whose parent is `p`.
fn select(s: &[ProcessSnapshot], vis: &Vec<usize>, flags: &Vec<bool>, want_root: bool, p: i32) -> (r: Vec<usize>)
    requires
        valid_listing(s@, vis@),
        flags@.len() == vis@.len(),
        forall|k: int| 0 <= k < vis@.len() ==> #[trigger] flags@[k] == is_root(s@, vis@, vis@[k]),
    ensures
        want_root ==> r@ == vis@.filter(|i: usize| is_root(s@, vis@, i)),
        !want_root ==> r@ == vis@.filter(child_of(s@, vis@, p)),
        valid_listing(s@, r@),
{
    let ghost pred: spec_fn(usize) -> bool = if want_root {
        |i: usize| is_root(s@, vis@, i)
    } else {
        child_of(s@, vis@, p)
    };
    let mut r: Vec<usize> = Vec::new();
    let mut k: usize = 0;
    while k < vis.len()
        invariant
            k <= vis@.len(),
            valid_listing(s@, vis@),
            flags@.len() == vis@.len(),
            forall|m: int| 0 <= m < vis@.len() ==> #[trigger] flags@[m] == is_root(s@, vis@, vis@[m]),
            pred == (if want_root { |i: usize| is_root(s@, vis@, i) } else { child_of(s@, vis@, p) }),
            r@ == vis@.take(k as int).filter(pred),
            valid_listing(s@, r@),
        decreases vis@.len() - k,
    {
        reveal_with_fuel(Seq::filter, 1);
        let i = vis[k];
        let keep = if want_root { flags[k] } else { !flags[k] && s[i].ppid == p };
        assert(keep == pred(i));
        if keep {
            r.push(i);
        }
        assert(vis@.take(k + 1).drop_last() =~= vis@.take(k as int));
        k = k + 1;
    }
    assert(vis@.take(k as int) =~= vis@);
    r
}

/// Appends the subtree of snapshot `i` to `out`.
fn walk_tree(
    s: &[ProcessSnapshot],
    vis: &Vec<usize>,
    flags: &Vec<bool>,
    keys: &Vec<Vec<char>>,
    i: usize,
    depth: usize,
    pp: &String,
    last: bool,
    out: &mut Vec<TreeEntry>,
)
    requires
        valid_listing(s@, vis@),
        i < s@.len(),
        depth < vis@.len(),
        flags@.len() == vis@.len(),
        forall|k: int| 0 <= k < vis@.len() ==> #[trigger] flags@[k] == is_root(s@, vis@, vis@[k]),
        forall|k: int| 0 <= k < old(out)@.len() ==> #[trigger] old(out)@[k].snapshot_index < s@.len(),
    ensures
        final(out)@.map_values(|e: TreeEntry| e@) == old(out)@.map_values(|e: TreeEntry| e@)
            + walk(s@, vis@, i, depth as nat, pp@, last),
        forall|k: int| 0 <= k < final(out)@.len() ==> #[trigger] final(out)@[k].snapshot_index < s@.len(),
    decreases vis@.len() - depth, 0int,
{
    let ghost start = out@.map_values(|e: TreeEntry| e@);
    let mut prefix = String::new();
    if depth > 0 {
        prefix = pp.clone();
        if last {
            push_str(&mut prefix, "└── ");
        } else {
            push_str(&mut prefix, "├── ");
        }
    }
    assert(prefix@ == node_prefix(depth as nat, pp@, last));
    out.push(TreeEntry { snapshot_index: i, depth, prefix });
    let ghost head = seq![(i, depth as nat, node_prefix(depth as nat, pp@, last))];
    assert(out@.map_values(|e: TreeEntry| e@) =~= start + head);
    let n = vis.len();
    if depth + 1 < n {
        let mut cp = String::new();
        if depth > 0 {
            cp = pp.clone();
            if last {
                push_str(&mut cp, "    ");
            } else {
                push_str(&mut cp, "│   ");
            }
        }
        assert(cp@ == child_prefix(depth as nat, pp@, last));
        let raw = select(s, vis, flags, false, s[i].pid);
        let kids = sort_snapshot_indices(s, keys, &raw, ProcessSortField::Pid, SortDirection::Asc);
        proof {
            crate::sort::lemma_sort_by_multiset(goes_before(s@, ProcessSortField::Pid, SortDirection::Asc), raw@);
        }
        assert(valid_listing(s@, kids@)) by {
            broadcast use vstd::seq_lib::group_to_multiset_ensures;
            assert forall|k: int| 0 <= k < kids@.len() implies #[trigger] kids@[k] < s@.len() by {
                assert(kids@.to_multiset().count(kids@[k]) > 0);
                assert(raw@.contains(kids@[k]));
            }
        }
        let ghost kv = kids_of(s@, vis@, s@[i as int].pid);
        assert(kids@ == kv);
        let mut j: usize = 0;
        while j < kids.len()
            invariant
                valid_listing(s@, vis@),
                valid_listing(s@, kids@),
                kids@ == kv,
                n == vis@.len(),
                j <= kids@.len(),
                depth + 1 < vis@.len(),
                flags@.len() == vis@.len(),
                forall|k: int| 0 <= k < vis@.len() ==> #[trigger] flags@[k] == is_root(s@, vis@, vis@[k]),
                out@.map_values(|e: TreeEntry| e@) == start + head
                    + walk_seq(s@, vis@, kv, j as nat, (depth + 1) as nat, cp@),
                forall|k: int| 0 <= k < out@.len() ==> #[trigger] out@[k].snapshot_index < s@.len(),
            decreases kids@.len() - j,
        {
            let ghost before = out@.map_values(|e: TreeEntry| e@);
            walk_tree(s, vis, flags, keys, kids[j], depth + 1, &cp, j + 1 == kids.len(), out);
            j = j + 1;
            assert(out@.map_values(|e: TreeEntry| e@) =~= start + head
                + walk_seq(s@, vis@, kv, j as nat, (depth + 1) as nat, cp@));
        }
        assert(walk(s@, vis@, i, depth as nat, pp@, last)
            == head + walk_seq(s@, vis@, kv, kv.len(), (depth + 1) as nat, cp@));
        assert(out@.map_values(|e: TreeEntry| e@) =~= start + walk(s@, vis@, i, depth as nat, pp@, last));
    } else {
        assert(out@.map_values(|e: TreeEntry| e@) =~= start + walk(s@, vis@, i, depth as nat, pp@, last));
    }
}

/// The tree order of the listed snapshots `vis`.
pub fn tree_over(
    snapshots: &[ProcessSnapshot],
    vis: &Vec<usize>,
    sort_field: ProcessSortField,
    sort_dir: SortDirection,
) -> (r: Vec<TreeEntry>)
    requires
        valid_listing(snapshots@, vis@),
    ensures
        r@.map_values(|e: TreeEntry| e@) == tree_order(snapshots@, vis@, sort_field, sort_dir),
        forall|k: int| 0 <= k < r@.len() ==> #[trigger] r@[k].snapshot_index < snapshots@.len(),
{
    if vis.len() == 0 {
        proof {
            reveal_with_fuel(Seq::filter, 1);
            let pred = |i: usize| is_root(snapshots@, vis@, i);
            assert(vis@.filter(pred) =~= Seq::<usize>::empty());
        }
        return Vec::new();
    }
    let flags = root_flags(snapshots, vis);
    let keys = if sort_field == ProcessSortField::Name { name_keys(snapshots) } else { Vec::new() };
    let raw_roots = select(snapshots, vis, &flags, true, 0);
    let (field, dir) = if sort_field == ProcessSortField::Unsorted {
        (ProcessSortField::Pid, SortDirection::Asc)
    } else {
        (sort_field, sort_dir)
    };
    let roots = sort_snapshot_indices(snapshots, &keys, &raw_roots, field, dir);
    proof {
        crate::sort::lemma_sort_by_multiset(goes_before(snapshots@, field, dir), raw_roots@);
    }
    assert(valid_listing(snapshots@, roots@)) by {
        broadcast use vstd::seq_lib::group_to_multiset_ensures;
        assert forall|k: int| 0 <= k < roots@.len() implies #[trigger] roots@[k] < snapshots@.len() by {
            assert(roots@.to_multiset().count(roots@[k]) > 0);
            assert(raw_roots@.contains(roots@[k]));
        }
    }
    let ghost rv = roots_of(snapshots@, vis@, sort_field, sort_dir);
    assert(roots@ == rv);
    let mut out: Vec<TreeEntry> = Vec::new();
    let empty = String::new();
    let mut j: usize = 0;
    assert(out@.map_values(|e: TreeEntry| e@) =~= Seq::empty());
    while j < roots.len()
        invariant
            valid_listing(snapshots@, vis@),
            vis@.len() > 0,
            valid_listing(snapshots@, roots@),
            roots@ == rv,
            j <= roots@.len(),
            empty@ == Seq::<char>::empty(),
            flags@.len() == vis@.len(),
            forall|k: int| 0 <= k < vis@.len() ==> #[trigger] flags@[k] == is_root(snapshots@, vis@, vis@[k]),
            out@.map_values(|e: TreeEntry| e@) == walk_seq(snapshots@, vis@, rv, j as nat, 0, Seq::empty()),
            forall|k: int| 0 <= k < out@.len() ==> #[trigger] out@[k].snapshot_index < snapshots@.len(),
        decreases roots@.len() - j,
    {
        walk_tree(snapshots, vis, &flags, &keys, roots[j], 0, &empty, j + 1 == roots.len(), &mut out);
        j = j + 1;
        assert(out@.map_values(|e: TreeEntry| e@) =~= walk_seq(snapshots@, vis@, rv, j as nat, 0, Seq::empty()));
    }
    out
}

/// Build the tree-ordered list of all snapshots, sorting only the root
/// processes by the given field. Children remain grouped under their parent,
/// sorted by pid.
pub fn build_process_tree_sorted(
    snapshots: &[ProcessSnapshot],
    sort_field: ProcessSortField,
    sort_dir: SortDirection,
) -> (r: Vec<TreeEntry>)
    ensures
        r@.map_values(|e: TreeEntry| e@) == tree_order(
            snapshots@,
            Seq::new(snapshots@.len(), |i: int| i as usize),
            sort_field,
            sort_dir,
        ),
{
    let mut all: Vec<usize> = Vec::new();
    let mut i: usize = 0;
    while i < snapshots.len()
        invariant
            i <= snapshots@.len(),
            all@ == Seq::new(i as nat, |k: int| k as usize),
        decreases snapshots@.len() - i,
    {
        all.push(i);
        i = i + 1;
        assert(all@ =~= Seq::new(i as nat, |k: int| k as usize));
    }
    tree_over(snapshots, &all, sort_field, sort_dir)
}

} // verus!
