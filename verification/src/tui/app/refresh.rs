//! What a refresh records: CPU shares since the previous refresh, and the
//! chart history and counters of every process.
use std::time::Instant;
use vstd::prelude::*;

use crate::clock;
use crate::models::ProcessSnapshot;

use super::config::{Chart, Column, column_pos, chart_pos, CHART_COUNT};
use super::history::{
    empty_history, history_bounded, lemma_window_push, push_sample, window_push, CpuShare, HistoryView,
    ProcessCounters, ProcessHistory, Rate, MAX_SAMPLES,
};
use super::pidtable::PidTable;
use super::App;

verus! {

/// `a - b`, or zero when `b` is larger.
pub open spec fn sat_sub(a: u64, b: u64) -> u64 {
    if a >= b { (a - b) as u64 } else { 0 }
}

/// The CPU share of each process over `elapsed_ns`, for the processes seen
/// at the previous refresh; none when no time has passed.
pub open spec fn cpu_shares(prev: Map<i32, u64>, s: Seq<ProcessSnapshot>, elapsed_ns: u64) -> Map<i32, CpuShare>
    decreases s.len(),
{
    if s.len() == 0 || elapsed_ns == 0 {
        Map::empty()
    } else {
        let m = cpu_shares(prev, s.drop_last(), elapsed_ns);
        let p = s.last();
        if prev.contains_key(p.pid) {
            m.insert(p.pid, CpuShare { cpu_ns: sat_sub(p.activity.cpu_time_ns, prev[p.pid]), elapsed_ns })
        } else {
            m
        }
    }
}

/// The cumulative CPU time of each process.
pub open spec fn cpu_times(s: Seq<ProcessSnapshot>) -> Map<i32, u64>
    decreases s.len(),
{
    if s.len() == 0 {
        Map::empty()
    } else {
        cpu_times(s.drop_last()).insert(s.last().pid, s.last().activity.cpu_time_ns)
    }
}

/// The pids of the snapshots.
pub open spec fn pids_of(s: Seq<ProcessSnapshot>) -> Set<i32> {
    s.map_values(|p: ProcessSnapshot| p.pid).to_set()
}

/// The counters of a process kept for the next refresh.
pub open spec fn counters_of(p: ProcessSnapshot) -> ProcessCounters {
    ProcessCounters {
        faults: p.activity.faults,
        context_switches: p.activity.context_switches,
        syscalls: (p.activity.syscalls_mach + p.activity.syscalls_unix) as i64,
        disk_read: p.disk_io.bytes_read,
        disk_write: p.disk_io.bytes_written,
    }
}

/// How much a counter went up, or zero when it went down.
pub open spec fn rise(cur: int, prev: int) -> u64 {
    if cur > prev { (cur - prev) as u64 } else { 0 }
}

/// The CPU sample of a process that has no share yet.
pub open spec fn zero_share() -> CpuShare {
    CpuShare { cpu_ns: 0, elapsed_ns: 0 }
}

/// A history after one refresh: the CPU share and resident memory always;
/// thread and descriptor counts when their charts are on; and, when time
/// has passed and the previous counters are known, the rates of the charts
/// that are on.
pub open spec fn charted(
    h: HistoryView<CpuShare>,
    charts: Seq<bool>,
    elapsed_ns: u64,
    prev: Option<ProcessCounters>,
    p: ProcessSnapshot,
    share: CpuShare,
) -> HistoryView<CpuShare> {
    let h1 = HistoryView { cpu: window_push(h.cpu, share), memory: window_push(h.memory, p.memory.rss), ..h };
    let h2 = if charts[chart_pos(Chart::ThreadCount)] {
        HistoryView { threads: window_push(h1.threads, p.activity.thread_count as i64), ..h1 }
    } else {
        h1
    };
    let h3 = if charts[chart_pos(Chart::FdCount)] {
        HistoryView { fd_count: window_push(h2.fd_count, p.resources@.len() as usize), ..h2 }
    } else {
        h2
    };
    match prev {
        Some(c) if elapsed_ns > 0 => {
            let h4 = if charts[chart_pos(Chart::PageFaults)] {
                HistoryView {
                    faults_rate: window_push(h3.faults_rate, Rate { delta: rise(p.activity.faults as int, c.faults as int), elapsed_ns }),
                    ..h3
                }
            } else {
                h3
            };
            let h5 = if charts[chart_pos(Chart::ContextSwitches)] {
                HistoryView {
                    csw_rate: window_push(h4.csw_rate, Rate {
                        delta: rise(p.activity.context_switches as int, c.context_switches as int),
                        elapsed_ns,
                    }),
                    ..h4
                }
            } else {
                h4
            };
            let h6 = if charts[chart_pos(Chart::SyscallRate)] {
                HistoryView {
                    syscall_rate: window_push(h5.syscall_rate, Rate {
                        delta: rise(p.activity.syscalls_mach + p.activity.syscalls_unix, c.syscalls as int),
                        elapsed_ns,
                    }),
                    ..h5
                }
            } else {
                h5
            };
            if charts[chart_pos(Chart::DiskIo)] {
                HistoryView {
                    disk_read_rate: window_push(h6.disk_read_rate, Rate { delta: sat_sub(p.disk_io.bytes_read, c.disk_read), elapsed_ns }),
                    disk_write_rate: window_push(h6.disk_write_rate, Rate { delta: sat_sub(p.disk_io.bytes_written, c.disk_write), elapsed_ns }),
                    ..h6
                }
            } else {
                h6
            }
        },
        _ => h3,
    }
}

/// What one refresh adds to a process's history: its CPU share and
/// resident memory always; its thread and descriptor counts when those
/// charts are on; and, when the previous counters are known and time has
/// passed, for each rate chart that is on, how far the counter went up
/// since the previous refresh (zero if it went down) over the time that
/// passed. A chart that is off, or a rate without a previous reading, is
/// left as it was.
pub proof fn lemma_charted_samples(
    h: HistoryView<CpuShare>,
    charts: Seq<bool>,
    elapsed_ns: u64,
    prev: Option<ProcessCounters>,
    p: ProcessSnapshot,
    share: CpuShare,
)
    ensures
        charted(h, charts, elapsed_ns, prev, p, share).cpu.last() == share,
        charted(h, charts, elapsed_ns, prev, p, share).memory.last() == p.memory.rss,
        charts[chart_pos(Chart::ThreadCount)] ==> charted(h, charts, elapsed_ns, prev, p, share).threads.last()
            == p.activity.thread_count as i64,
        !charts[chart_pos(Chart::ThreadCount)] ==> charted(h, charts, elapsed_ns, prev, p, share).threads == h.threads,
        charts[chart_pos(Chart::FdCount)] ==> charted(h, charts, elapsed_ns, prev, p, share).fd_count.last()
            == p.resources@.len() as usize,
        !charts[chart_pos(Chart::FdCount)] ==> charted(h, charts, elapsed_ns, prev, p, share).fd_count == h.fd_count,
        prev is Some && elapsed_ns > 0 && charts[chart_pos(Chart::PageFaults)] ==> {
            let c = prev->Some_0;
            let x = charted(h, charts, elapsed_ns, prev, p, share).faults_rate.last();
            &&& charted(h, charts, elapsed_ns, prev, p, share).faults_rate.len() > 0
            &&& x.elapsed_ns == elapsed_ns
            &&& (p.activity.faults as int) >= (c.faults as int) ==> x.delta + (c.faults as int) == (p.activity.faults as int)
            &&& (p.activity.faults as int) < (c.faults as int) ==> x.delta == 0
        },
        (prev is None || elapsed_ns == 0 || !charts[chart_pos(Chart::PageFaults)]) ==> charted(h, charts, elapsed_ns, prev, p, share).faults_rate == h.faults_rate,
        prev is Some && elapsed_ns > 0 && charts[chart_pos(Chart::ContextSwitches)] ==> {
            let c = prev->Some_0;
            let x = charted(h, charts, elapsed_ns, prev, p, share).csw_rate.last();
            &&& charted(h, charts, elapsed_ns, prev, p, share).csw_rate.len() > 0
            &&& x.elapsed_ns == elapsed_ns
            &&& (p.activity.context_switches as int) >= (c.context_switches as int) ==> x.delta + (c.context_switches as int) == (p.activity.context_switches as int)
            &&& (p.activity.context_switches as int) < (c.context_switches as int) ==> x.delta == 0
        },
        (prev is None || elapsed_ns == 0 || !charts[chart_pos(Chart::ContextSwitches)]) ==> charted(h, charts, elapsed_ns, prev, p, share).csw_rate == h.csw_rate,
        prev is Some && elapsed_ns > 0 && charts[chart_pos(Chart::SyscallRate)] ==> {
            let c = prev->Some_0;
            let x = charted(h, charts, elapsed_ns, prev, p, share).syscall_rate.last();
            &&& charted(h, charts, elapsed_ns, prev, p, share).syscall_rate.len() > 0
            &&& x.elapsed_ns == elapsed_ns
            &&& (p.activity.syscalls_mach + p.activity.syscalls_unix) >= (c.syscalls as int) ==> x.delta + (c.syscalls as int) == (p.activity.syscalls_mach + p.activity.syscalls_unix)
            &&& (p.activity.syscalls_mach + p.activity.syscalls_unix) < (c.syscalls as int) ==> x.delta == 0
        },
        (prev is None || elapsed_ns == 0 || !charts[chart_pos(Chart::SyscallRate)]) ==> charted(h, charts, elapsed_ns, prev, p, share).syscall_rate == h.syscall_rate,
        prev is Some && elapsed_ns > 0 && charts[chart_pos(Chart::DiskIo)] ==> {
            let c = prev->Some_0;
            let x = charted(h, charts, elapsed_ns, prev, p, share).disk_read_rate.last();
            &&& charted(h, charts, elapsed_ns, prev, p, share).disk_read_rate.len() > 0
            &&& x.elapsed_ns == elapsed_ns
            &&& (p.disk_io.bytes_read as int) >= (c.disk_read as int) ==> x.delta + (c.disk_read as int) == (p.disk_io.bytes_read as int)
            &&& (p.disk_io.bytes_read as int) < (c.disk_read as int) ==> x.delta == 0
        },
        (prev is None || elapsed_ns == 0 || !charts[chart_pos(Chart::DiskIo)]) ==> charted(h, charts, elapsed_ns, prev, p, share).disk_read_rate == h.disk_read_rate,
        prev is Some && elapsed_ns > 0 && charts[chart_pos(Chart::DiskIo)] ==> {
            let c = prev->Some_0;
            let x = charted(h, charts, elapsed_ns, prev, p, share).disk_write_rate.last();
            &&& charted(h, charts, elapsed_ns, prev, p, share).disk_write_rate.len() > 0
            &&& x.elapsed_ns == elapsed_ns
            &&& (p.disk_io.bytes_written as int) >= (c.disk_write as int) ==> x.delta + (c.disk_write as int) == (p.disk_io.bytes_written as int)
            &&& (p.disk_io.bytes_written as int) < (c.disk_write as int) ==> x.delta == 0
        },
        (prev is None || elapsed_ns == 0 || !charts[chart_pos(Chart::DiskIo)]) ==> charted(h, charts, elapsed_ns, prev, p, share).disk_write_rate == h.disk_write_rate,
{
}

/// The histories and counters after recording the snapshots one by one; a
/// pid seen twice is recorded twice.
pub open spec fn history_fold(
    hist: Map<i32, HistoryView<CpuShare>>,
    counters: Map<i32, ProcessCounters>,
    shares: Map<i32, CpuShare>,
    charts: Seq<bool>,
    elapsed_ns: u64,
    s: Seq<ProcessSnapshot>,
) -> (Map<i32, HistoryView<CpuShare>>, Map<i32, ProcessCounters>)
    decreases s.len(),
{
    if s.len() == 0 {
        (hist, counters)
    } else {
        let (h, c) = history_fold(hist, counters, shares, charts, elapsed_ns, s.drop_last());
        let p = s.last();
        let base = if h.contains_key(p.pid) { h[p.pid] } else { empty_history() };
        let share = if shares.contains_key(p.pid) { shares[p.pid] } else { zero_share() };
        let prev = if c.contains_key(p.pid) { Some(c[p.pid]) } else { None };
        (h.insert(p.pid, charted(base, charts, elapsed_ns, prev, p, share)), c.insert(p.pid, counters_of(p)))
    }
}

/// `new` holds the histories and counters of `old` after recording the
/// snapshots `s` with rates over `elapsed_ns`, kept to the pids of `s`.
pub open spec fn history_recorded(old: App, new: App, s: Seq<ProcessSnapshot>, elapsed_ns: u64) -> bool {
    let (h, c) = history_fold(
        history_views(old.process_history@),
        old.prev_counters@,
        old.cpu_percentages@,
        old.chart_config.enabled@,
        elapsed_ns,
        s,
    );
    &&& history_views(new.process_history@) == h.restrict(pids_of(s))
    &&& new.prev_counters@ == c.restrict(pids_of(s))
    &&& new == (App { process_history: new.process_history, prev_counters: new.prev_counters, ..old })
}

/// The views of a table of histories.
pub open spec fn history_views(t: Map<i32, ProcessHistory<CpuShare>>) -> Map<i32, HistoryView<CpuShare>> {
    t.map_values(|h: ProcessHistory<CpuShare>| h@)
}

/// Recording a refresh never over-fills a window.
pub proof fn lemma_charted_bounded(
    h: HistoryView<CpuShare>,
    charts: Seq<bool>,
    elapsed_ns: u64,
    prev: Option<ProcessCounters>,
    p: ProcessSnapshot,
    share: CpuShare,
)
    requires
        history_bounded(h),
    ensures
        history_bounded(charted(h, charts, elapsed_ns, prev, p, share)),
{
    let r = Rate { delta: 0, elapsed_ns: 0 };
    lemma_window_push(h.cpu, share);
    lemma_window_push(h.memory, p.memory.rss);
    lemma_window_push(h.threads, p.activity.thread_count as i64);
    lemma_window_push(h.fd_count, p.resources@.len() as usize);
    assert forall|s: Seq<Rate>, v: Rate| s.len() <= MAX_SAMPLES implies #[trigger] window_push(s, v).len() <= MAX_SAMPLES by {
        lemma_window_push(s, v);
    }
}

/// The part of `a` that exceeds `b`, or zero.
fn sat_sub_exec(a: u64, b: u64) -> (r: u64)
    ensures
        r == sat_sub(a, b),
{
    if a >= b { a - b } else { 0 }
}

/// Nanoseconds as a `u64`, saturating at `u64::MAX`.
fn nanos_u64(n: u128) -> (r: u64)
    ensures
        n <= u64::MAX ==> r == n,
        n > u64::MAX ==> r == u64::MAX,
{
    if n > u64::MAX as u128 { u64::MAX } else { n as u64 }
}

/// The counters of a process kept for the next refresh.
pub fn snapshot_counters(p: &ProcessSnapshot) -> (r: ProcessCounters)
    ensures
        r == counters_of(*p),
{
    ProcessCounters {
        faults: p.activity.faults,
        context_switches: p.activity.context_switches,
        syscalls: p.activity.syscalls_mach as i64 + p.activity.syscalls_unix as i64,
        disk_read: p.disk_io.bytes_read,
        disk_write: p.disk_io.bytes_written,
    }
}

/// Records one refresh of process `p` in its history.
pub fn chart_step(
    h: &mut ProcessHistory<CpuShare>,
    charts: &super::config::ChartConfig,
    elapsed_ns: u64,
    prev: Option<ProcessCounters>,
    p: &ProcessSnapshot,
    share: CpuShare,
)
    requires
        charts.enabled@.len() == CHART_COUNT,
    ensures
        final(h)@ == charted(old(h)@, charts.enabled@, elapsed_ns, prev, *p, share),
{
    h.push(share, p.memory.rss);
    if charts.is_enabled(Chart::ThreadCount) {
        push_sample(&mut h.threads, p.activity.thread_count as i64);
    }
    if charts.is_enabled(Chart::FdCount) {
        push_sample(&mut h.fd_count, p.resources.len());
    }
    if elapsed_ns > 0 {
        match prev {
            Some(c) => {
                if charts.is_enabled(Chart::PageFaults) {
                    let cur = p.activity.faults as i64;
                    let before = c.faults as i64;
                    let delta: u64 = if cur > before { (cur - before) as u64 } else { 0 };
                    push_sample(&mut h.faults_rate, Rate { delta, elapsed_ns });
                }
                if charts.is_enabled(Chart::ContextSwitches) {
                    let cur = p.activity.context_switches as i64;
                    let before = c.context_switches as i64;
                    let delta: u64 = if cur > before { (cur - before) as u64 } else { 0 };
                    push_sample(&mut h.csw_rate, Rate { delta, elapsed_ns });
                }
                if charts.is_enabled(Chart::SyscallRate) {
                    let cur = p.activity.syscalls_mach as i128 + p.activity.syscalls_unix as i128;
                    let before = c.syscalls as i128;
                    let delta: u64 = if cur > before { (cur - before) as u64 } else { 0 };
                    push_sample(&mut h.syscall_rate, Rate { delta, elapsed_ns });
                }
                if charts.is_enabled(Chart::DiskIo) {
                    let dr = sat_sub_exec(p.disk_io.bytes_read, c.disk_read);
                    let dw = sat_sub_exec(p.disk_io.bytes_written, c.disk_write);
                    push_sample(&mut h.disk_read_rate, Rate { delta: dr, elapsed_ns });
                    push_sample(&mut h.disk_write_rate, Rate { delta: dw, elapsed_ns });
                }
            },
            None => {},
        }
    }
}

/// The pids of the snapshots, in order.
pub fn snapshot_pids(snapshots: &[ProcessSnapshot]) -> (r: Vec<i32>)
    ensures
        r@ == snapshots@.map_values(|p: ProcessSnapshot| p.pid),
{
    let mut r: Vec<i32> = Vec::new();
    let mut i: usize = 0;
    while i < snapshots.len()
        invariant
            i <= snapshots@.len(),
            r@ == snapshots@.take(i as int).map_values(|p: ProcessSnapshot| p.pid),
        decreases snapshots@.len() - i,
    {
        r.push(snapshots[i].pid);
        i = i + 1;
        assert(r@ =~= snapshots@.take(i as int).map_values(|p: ProcessSnapshot| p.pid));
    }
    assert(snapshots@.take(i as int) =~= snapshots@);
    r
}

/// The state after computing the CPU shares for the snapshots `s`: with
/// the CPU column shown, each process seen before gets its share over the
/// time since the previous refresh (none on the first), and the CPU times
/// of `s` are kept for next time; with the column hidden, shares and
/// previous readings are dropped.
pub open spec fn cpu_recorded(a: App, s: Seq<ProcessSnapshot>, b: App) -> bool {
    if a.column_config.enabled@[column_pos(Column::Cpu)] {
        exists|elapsed_ns: u64| {
            &&& (a.prev_refresh is None ==> elapsed_ns == 0)
            &&& b.cpu_percentages@ == cpu_shares(a.prev_cpu_times@, s, elapsed_ns)
            &&& b.prev_cpu_times@ == cpu_times(s)
            &&& b.prev_refresh is Some
            &&& b == (App {
                cpu_percentages: b.cpu_percentages,
                prev_cpu_times: b.prev_cpu_times,
                prev_refresh: b.prev_refresh,
                ..a
            })
        }
    } else {
        &&& b.cpu_percentages@ == Map::<i32, CpuShare>::empty()
        &&& b.prev_cpu_times@ == Map::<i32, u64>::empty()
        &&& b == (App { cpu_percentages: b.cpu_percentages, prev_cpu_times: b.prev_cpu_times, prev_refresh: None, ..a })
    }
}

impl App {
    /// Records the CPU share of every process over `elapsed_ns` (measured up
    /// to `now`), and the CPU times for the next refresh.
    pub fn record_cpu_sample(&mut self, snapshots: &[ProcessSnapshot], now: Instant, elapsed_ns: u64)
        requires
            old(self).wf(),
        ensures
            final(self).wf(),
            final(self).cpu_percentages@ == cpu_shares(old(self).prev_cpu_times@, snapshots@, elapsed_ns),
            final(self).prev_cpu_times@ == cpu_times(snapshots@),
            *final(self) == (App {
                cpu_percentages: final(self).cpu_percentages,
                prev_cpu_times: final(self).prev_cpu_times,
                prev_refresh: Some(now),
                ..*old(self)
            }),
    {
        let mut shares: PidTable<CpuShare> = PidTable::new();
        let mut i: usize = 0;
        if elapsed_ns > 0 {
            while i < snapshots.len()
                invariant
                    i <= snapshots@.len(),
                    elapsed_ns > 0,
                    self.prev_cpu_times.wf(),
                    shares.wf(),
                    shares@ == cpu_shares(self.prev_cpu_times@, snapshots@.take(i as int), elapsed_ns),
                decreases snapshots@.len() - i,
            {
                let snap = &snapshots[i];
                assert(snapshots@.take(i + 1).drop_last() =~= snapshots@.take(i as int));
                match self.prev_cpu_times.get(&snap.pid) {
                    Some(prev) => {
                        let cpu_ns = sat_sub_exec(snap.activity.cpu_time_ns, *prev);
                        shares.insert(snap.pid, CpuShare { cpu_ns, elapsed_ns });
                    },
                    None => {},
                }
                i = i + 1;
            }
            assert(snapshots@.take(i as int) =~= snapshots@);
        }
        let mut times: PidTable<u64> = PidTable::new();
        let mut j: usize = 0;
        while j < snapshots.len()
            invariant
                j <= snapshots@.len(),
                times.wf(),
                times@ == cpu_times(snapshots@.take(j as int)),
            decreases snapshots@.len() - j,
        {
            assert(snapshots@.take(j + 1).drop_last() =~= snapshots@.take(j as int));
            times.insert(snapshots[j].pid, snapshots[j].activity.cpu_time_ns);
            j = j + 1;
        }
        assert(snapshots@.take(j as int) =~= snapshots@);
        self.cpu_percentages = shares;
        self.prev_cpu_times = times;
        self.prev_refresh = Some(now);
    }

    /// Computes each process's CPU share since the previous refresh. With
    /// the CPU column hidden, the shares and the previous readings are
    /// dropped instead.
    pub fn compute_cpu_percentages(&mut self, new_snapshots: &[ProcessSnapshot])
        requires
            old(self).wf(),
        ensures
            final(self).wf(),
            cpu_recorded(*old(self), new_snapshots@, *final(self)),
    {
        if !self.column_config.is_enabled(Column::Cpu) {
            self.cpu_percentages.clear();
            self.prev_cpu_times.clear();
            self.prev_refresh = None;
            return;
        }
        let now = clock::now();
        let elapsed_ns: u64 = match &self.prev_refresh {
            Some(prev) => nanos_u64(clock::nanos_between(prev, &now)),
            None => 0,
        };
        self.record_cpu_sample(new_snapshots, now, elapsed_ns);
    }

    /// Records every snapshot in its process's history and keeps its
    /// counters for the next refresh; rates use `elapsed_ns`. Histories and
    /// counters of processes that are gone are dropped.
    #[verifier::rlimit(40)]
    pub fn record_history(&mut self, snapshots: &[ProcessSnapshot], elapsed_ns: u64)
        requires
            old(self).wf(),
        ensures
            final(self).wf(),
            history_recorded(*old(self), *final(self), snapshots@, elapsed_ns),
    {
        let ghost h0 = history_views(self.process_history@);
        let ghost c0 = self.prev_counters@;
        let mut i: usize = 0;
        assert(snapshots@.take(0) =~= Seq::<ProcessSnapshot>::empty());
        while i < snapshots.len()
            invariant
                i <= snapshots@.len(),
                self.wf(),
                self.cpu_percentages == old(self).cpu_percentages,
                self.chart_config == old(self).chart_config,
                ({
                    let (h, c) = history_fold(
                        h0, c0, old(self).cpu_percentages@, old(self).chart_config.enabled@, elapsed_ns,
                        snapshots@.take(i as int),
                    );
                    &&& history_views(self.process_history@) == h
                    &&& self.prev_counters@ == c
                }),
                *self == (App {
                    process_history: self.process_history,
                    prev_counters: self.prev_counters,
                    ..*old(self)
                }),
            decreases snapshots@.len() - i,
        {
            let snap = &snapshots[i];
            let pid = snap.pid;
            assert(snapshots@.take(i + 1).drop_last() =~= snapshots@.take(i as int));
            let ghost before_h = self.process_history@;
            let mut h = match self.process_history.remove(pid) {
                Some(h) => h,
                None => ProcessHistory::new(),
            };
            assert(history_bounded(h@)) by {
                if before_h.contains_key(pid) {
                    assert(h == before_h[pid]);
                }
            }
            let share = match self.cpu_percentages.get(&pid) {
                Some(s) => *s,
                None => CpuShare { cpu_ns: 0, elapsed_ns: 0 },
            };
            let prev = match self.prev_counters.get(&pid) {
                Some(c) => Some(*c),
                None => None,
            };
            let ghost hv = h@;
            chart_step(&mut h, &self.chart_config, elapsed_ns, prev, snap, share);
            proof {
                lemma_charted_bounded(hv, self.chart_config.enabled@, elapsed_ns, prev, *snap, share);
            }
            self.process_history.insert(pid, h);
            self.prev_counters.insert(pid, snapshot_counters(snap));
            proof {
                let (hf, cf) = history_fold(
                    h0, c0, old(self).cpu_percentages@, old(self).chart_config.enabled@, elapsed_ns,
                    snapshots@.take(i as int),
                );
                assert(history_views(self.process_history@) =~= hf.insert(pid, charted(
                    if hf.contains_key(pid) { hf[pid] } else { empty_history() },
                    old(self).chart_config.enabled@, elapsed_ns, prev, *snap, share,
                )));
                assert forall|p: i32| #[trigger] self.process_history@.contains_key(p)
                    implies history_bounded(self.process_history@[p]@) by {
                    if p != pid {
                        assert(before_h.contains_key(p));
                    }
                }
            }
            i = i + 1;
        }
        assert(snapshots@.take(i as int) =~= snapshots@);
        let pids = snapshot_pids(snapshots);
        let ghost hb = self.process_history@;
        self.process_history.retain_pids(&pids);
        self.prev_counters.retain_pids(&pids);
        proof {
            assert(history_views(self.process_history@) =~= history_views(hb).restrict(pids_of(snapshots@)));
            assert forall|p: i32| #[trigger] self.process_history@.contains_key(p)
                implies history_bounded(self.process_history@[p]@) by {
                assert(hb.contains_key(p));
            }
        }
    }
}

} // verus!
