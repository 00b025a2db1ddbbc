//! A table keyed by process id: a hash map, with the pids it holds also
//! kept in a list so that they can be walked.
use std::collections::HashMap;

use vstd::prelude::*;

verus! {

broadcast use vstd::std_specs::hash::group_hash_axioms;

/// Values keyed by process id.
#[derive(Debug, Clone)]
pub struct PidTable<V> {
    pub map: HashMap<i32, V>,
    pub pids: Vec<i32>,
}

impl<V> View for PidTable<V> {
    type V = Map<i32, V>;

    open spec fn view(&self) -> Map<i32, V> {
        self.map@
    }
}

impl<V> PidTable<V> {
    /// The list holds each pid of the map once, and nothing else.
    pub open spec fn wf(&self) -> bool {
        &&& self.pids@.no_duplicates()
        &&& forall|p: i32| #[trigger] self.map@.contains_key(p) <==> self.pids@.contains(p)
    }

    /// An empty table.
    pub fn new() -> (t: Self)
        ensures
            t.wf(),
            t@ == Map::<i32, V>::empty(),
    {
        PidTable { map: HashMap::new(), pids: Vec::new() }
    }

    /// Whether `pid` has a value.
    pub fn contains_key(&self, pid: &i32) -> (b: bool)
        requires
            self.wf(),
        ensures
            b == self@.contains_key(*pid),
    {
        self.map.contains_key(pid)
    }

    /// The value of `pid`.
    pub fn get(&self, pid: &i32) -> (r: Option<&V>)
        requires
            self.wf(),
        ensures
            r == (if self@.contains_key(*pid) { Some(&self@[*pid]) } else { None }),
    {
        self.map.get(pid)
    }

    /// Number of pids held.
    pub fn len(&self) -> (n: usize)
        requires
            self.wf(),
        ensures
            n == self@.dom().len(),
    {
        self.map.len()
    }

    /// Whether no pid is held.
    pub fn is_empty(&self) -> (b: bool)
        requires
            self.wf(),
        ensures
            b == (self@.dom().len() == 0),
    {
        self.map.len() == 0
    }

    /// The values, in the order of the pid list.
    pub fn values(&self) -> (r: Vec<&V>)
        requires
            self.wf(),
        ensures
            r@.len() == self@.dom().len(),
            r@.len() == self.pids@.len(),
            forall|k: int| 0 <= k < r@.len() ==> self@.contains_key(self.pids@[k])
                && *#[trigger] r@[k] == self@[self.pids@[k]],
    {
        proof { self.lemma_len(); }
        let mut r: Vec<&V> = Vec::new();
        let mut i: usize = 0;
        while i < self.pids.len()
            invariant
                self.wf(),
                i <= self.pids@.len(),
                r@.len() == i,
                forall|k: int| 0 <= k < i ==> self@.contains_key(self.pids@[k]) && *#[trigger] r@[k] == self@[self.pids@[k]],
            decreases self.pids@.len() - i,
        {
            let p = self.pids[i];
            assert(self.pids@.contains(p));
            match self.map.get(&p) {
                Some(v) => r.push(v),
                None => {},
            }
            i = i + 1;
        }
        r
    }

    /// The map holds as many pids as the list.
    proof fn lemma_len(&self)
        requires
            self.wf(),
        ensures
            self@.dom().len() == self.pids@.len(),
    {
        self.pids@.unique_seq_to_set();
        assert(self@.dom() =~= self.pids@.to_set());
    }

    /// Removes every pid.
    pub fn clear(&mut self)
        ensures
            final(self).wf(),
            final(self)@ == Map::<i32, V>::empty(),
    {
        self.map.clear();
        self.pids = Vec::new();
    }

    /// Sets the value of `pid`, replacing any earlier one.
    pub fn insert(&mut self, pid: i32, value: V)
        requires
            old(self).wf(),
        ensures
            final(self).wf(),
            final(self)@ == old(self)@.insert(pid, value),
    {
        if !self.map.contains_key(&pid) {
            self.pids.push(pid);
            proof {
                assert(self.pids@.last() == pid);
                assert forall|a: int, b: int| 0 <= a < self.pids@.len() && 0 <= b < self.pids@.len() && a != b
                    implies self.pids@[a] != self.pids@[b] by {
                    if a == self.pids@.len() - 1 {
                        assert(old(self).pids@.contains(self.pids@[b]));
                    } else if b == self.pids@.len() - 1 {
                        assert(old(self).pids@.contains(self.pids@[a]));
                    } else {
                        assert(old(self).pids@[a] != old(self).pids@[b]);
                    }
                }
                assert forall|p: i32| self.pids@.contains(p) implies p == pid || old(self).pids@.contains(p) by {
                    let k = choose|k: int| 0 <= k < self.pids@.len() && self.pids@[k] == p;
                    if k < old(self).pids@.len() {
                        assert(old(self).pids@[k] == p);
                    }
                }
                assert forall|p: i32| old(self).pids@.contains(p) implies self.pids@.contains(p) by {
                    let k = choose|k: int| 0 <= k < old(self).pids@.len() && old(self).pids@[k] == p;
                    assert(self.pids@[k] == p);
                }
                assert(self.pids@.contains(pid)) by {
                    assert(self.pids@[self.pids@.len() - 1] == pid);
                }
            }
        }
        self.map.insert(pid, value);
    }

    /// Removes `pid`, giving back its value if it had one.
    pub fn remove(&mut self, pid: i32) -> (r: Option<V>)
        requires
            old(self).wf(),
        ensures
            final(self).wf(),
            final(self)@ == old(self)@.remove(pid),
            r == (if old(self)@.contains_key(pid) { Some(old(self)@[pid]) } else { None }),
    {
        let r = self.map.remove(&pid);
        if r.is_some() {
            let mut k: usize = 0;
            while k < self.pids.len() && self.pids[k] != pid
                invariant
                    self.pids@ == old(self).pids@,
                    k <= self.pids@.len(),
                    forall|m: int| 0 <= m < k ==> #[trigger] self.pids@[m] != pid,
                decreases self.pids@.len() - k,
            {
                k = k + 1;
            }
            proof {
                if k == self.pids@.len() {
                    assert(old(self).pids@.contains(pid));
                    let j = choose|j: int| 0 <= j < old(self).pids@.len() && old(self).pids@[j] == pid;
                    assert(self.pids@[j] == pid);
                }
            }
            let ghost before = self.pids@;
            self.pids.remove(k);
            proof {
                let now = self.pids@;
                assert(now =~= before.remove(k as int));
                assert forall|a: int, b: int| 0 <= a < now.len() && 0 <= b < now.len() && a != b implies now[a] != now[b] by {
                    let a2 = if a < k { a } else { a + 1 };
                    let b2 = if b < k { b } else { b + 1 };
                    assert(before[a2] != before[b2]);
                }
                assert forall|p: i32| #[trigger] self.map@.contains_key(p) <==> now.contains(p) by {
                    if now.contains(p) {
                        let j = choose|j: int| 0 <= j < now.len() && now[j] == p;
                        let j2 = if j < k { j } else { j + 1 };
                        assert(before[j2] == p);
                        assert(before.contains(p));
                        assert(j2 != k);
                        assert(p != pid);
                    }
                    if self.map@.contains_key(p) {
                        assert(before.contains(p));
                        let j = choose|j: int| 0 <= j < before.len() && before[j] == p;
                        assert(j != k);
                        if j < k {
                            assert(now[j] == p);
                        } else {
                            assert(now[j - 1] == p);
                        }
                    }
                }
            }
        } else {
            proof {
                assert(old(self)@.remove(pid) =~= old(self)@);
            }
        }
        r
    }

    /// Keeps only the pids listed in `keep`.
    pub fn retain_pids(&mut self, keep: &Vec<i32>)
        requires
            old(self).wf(),
        ensures
            final(self).wf(),
            final(self)@ == old(self)@.restrict(keep@.to_set()),
    {
        let mut order: Vec<i32> = Vec::new();
        let mut i: usize = 0;
        while i < self.pids.len()
            invariant
                self.pids@ == old(self).pids@,
                i <= self.pids@.len(),
                order@ == self.pids@.take(i as int),
            decreases self.pids@.len() - i,
        {
            order.push(self.pids[i]);
            proof { assert(order@ =~= self.pids@.take(i + 1)); }
            i = i + 1;
        }
        proof { assert(order@ =~= old(self).pids@); }
        let mut fresh: PidTable<V> = PidTable::new();
        let mut i: usize = 0;
        while i < order.len()
            invariant
                order@ == old(self).pids@,
                old(self).wf(),
                i <= order@.len(),
                fresh.wf(),
                fresh@ == old(self)@.restrict(order@.take(i as int).to_set().intersect(keep@.to_set())),
                self.map@ == old(self)@.remove_keys(order@.take(i as int).to_set().intersect(keep@.to_set())),
            decreases order@.len() - i,
        {
            let p = order[i];
            let ghost done = order@.take(i as int).to_set().intersect(keep@.to_set());
            let ghost now = order@.take(i + 1).to_set().intersect(keep@.to_set());
            proof {
                assert(order@.take(i + 1) =~= order@.take(i as int).push(p));
                order@.take(i as int).lemma_push_to_set_commute(p);
                assert(!order@.take(i as int).contains(p)) by {
                    if order@.take(i as int).contains(p) {
                        let j = choose|j: int| 0 <= j < i && order@.take(i as int)[j] == p;
                        assert(order@[j] == order@[i as int]);
                    }
                }
                assert(old(self).pids@.contains(p)) by {
                    assert(order@[i as int] == p);
                }
            }
            if pid_listed(keep, p) {
                let v = self.map.remove(&p);
                match v {
                    Some(v) => {
                        fresh.insert(p, v);
                    },
                    None => {
                        proof {
                            assert(old(self)@.contains_key(p));
                            assert(!done.contains(p));
                        }
                    },
                }
                proof {
                    assert(now =~= done.insert(p));
                    assert(fresh@ =~= old(self)@.restrict(now));
                    assert(self.map@ =~= old(self)@.remove_keys(now));
                }
            } else {
                proof {
                    assert(now =~= done);
                }
            }
            i = i + 1;
        }
        proof {
            assert(order@.take(order@.len() as int) =~= order@);
            assert(fresh@ =~= old(self)@.restrict(keep@.to_set()));
        }
        *self = fresh;
    }
}

/// Whether `pid` occurs in `pids`.
pub fn pid_listed(pids: &Vec<i32>, pid: i32) -> (b: bool)
    ensures
        b == pids@.contains(pid),
{
    let mut k: usize = 0;
    while k < pids.len()
        invariant
            k <= pids@.len(),
            forall|m: int| 0 <= m < k ==> pids@[m] != pid,
        decreases pids@.len() - k,
    {
        if pids[k] == pid {
            return true;
        }
        k = k + 1;
    }
    false
}

} // verus!
