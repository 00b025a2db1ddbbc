//! The system summary: per-core load since the previous reading, memory,
//! and totals over the listed processes.
use vstd::prelude::*;

use crate::models::ProcessSnapshot;
use crate::source::ProcessSource;
use crate::system::CpuTicks;

use crate::tui::format::{cpu_layout, meter_layout, meters_per_row};

use super::{App, SystemStats};

verus! {

/// `a - b` modulo 2^64.
pub open spec fn wrap_sub(a: u64, b: u64) -> u64 {
    if a >= b { (a - b) as u64 } else { (a - b + 0x1_0000_0000_0000_0000int) as u64 }
}

/// The ticks a core spent in each state between two readings.
pub open spec fn tick_delta(cur: CpuTicks, prev: CpuTicks) -> CpuTicks {
    CpuTicks {
        user: wrap_sub(cur.user, prev.user),
        system: wrap_sub(cur.system, prev.system),
        idle: wrap_sub(cur.idle, prev.idle),
        nice: wrap_sub(cur.nice, prev.nice),
    }
}

/// The per-core ticks between two readings of all cores.
pub open spec fn core_deltas(cur: Seq<CpuTicks>, prev: Seq<CpuTicks>) -> Seq<CpuTicks> {
    Seq::new(cur.len(), |i: int| tick_delta(cur[i], prev[i]))
}

/// The sum of the thread counts.
pub open spec fn thread_sum(s: Seq<ProcessSnapshot>) -> int
    decreases s.len(),
{
    if s.len() == 0 { 0 } else { thread_sum(s.drop_last()) + s.last().activity.thread_count }
}

/// The sum of the numbers of open resources.
pub open spec fn fd_sum(s: Seq<ProcessSnapshot>) -> int
    decreases s.len(),
{
    if s.len() == 0 { 0 } else { fd_sum(s.drop_last()) + s.last().resources@.len() }
}

/// `v` kept within the range of `i64`.
pub open spec fn clamp_i64(v: int) -> i64 {
    if v > i64::MAX { i64::MAX } else if v < i64::MIN { i64::MIN } else { v as i64 }
}

/// `v` kept within the range of `usize`.
pub open spec fn clamp_usize(v: int) -> usize {
    if v > usize::MAX { usize::MAX } else if v < 0 { 0 } else { v as usize }
}

/// The ticks of one core between two readings.
pub fn ticks_between(cur: &CpuTicks, prev: &CpuTicks) -> (r: CpuTicks)
    ensures
        r == tick_delta(*cur, *prev),
{
    CpuTicks {
        user: cur.user.wrapping_sub(prev.user),
        system: cur.system.wrapping_sub(prev.system),
        idle: cur.idle.wrapping_sub(prev.idle),
        nice: cur.nice.wrapping_sub(prev.nice),
    }
}

/// The load of a core over an interval is what its counters went up by:
/// added to the previous reading (modulo 2^64, as the counters wrap) it
/// gives the new reading, field by field.
pub proof fn lemma_tick_delta_adds_up(cur: CpuTicks, prev: CpuTicks)
    ensures
        (prev.user + tick_delta(cur, prev).user) % 0x1_0000_0000_0000_0000int == cur.user,
        (prev.system + tick_delta(cur, prev).system) % 0x1_0000_0000_0000_0000int == cur.system,
        (prev.idle + tick_delta(cur, prev).idle) % 0x1_0000_0000_0000_0000int == cur.idle,
        (prev.nice + tick_delta(cur, prev).nice) % 0x1_0000_0000_0000_0000int == cur.nice,
{
}

/// With as many cores in both readings, the load of every core is what
/// its counters went up by since the previous reading.
pub proof fn lemma_core_loads(cur: Seq<CpuTicks>, prev: Seq<CpuTicks>)
    requires
        cur.len() == prev.len(),
    ensures
        core_deltas(cur, prev).len() == cur.len(),
        forall|i: int| 0 <= i < cur.len() ==> {
            let d = #[trigger] core_deltas(cur, prev)[i];
            &&& (prev[i].user + d.user) % 0x1_0000_0000_0000_0000int == cur[i].user
            &&& (prev[i].system + d.system) % 0x1_0000_0000_0000_0000int == cur[i].system
            &&& (prev[i].idle + d.idle) % 0x1_0000_0000_0000_0000int == cur[i].idle
            &&& (prev[i].nice + d.nice) % 0x1_0000_0000_0000_0000int == cur[i].nice
        },
{
    assert forall|i: int| 0 <= i < cur.len() implies {
        let d = #[trigger] core_deltas(cur, prev)[i];
        &&& (prev[i].user + d.user) % 0x1_0000_0000_0000_0000int == cur[i].user
        &&& (prev[i].system + d.system) % 0x1_0000_0000_0000_0000int == cur[i].system
        &&& (prev[i].idle + d.idle) % 0x1_0000_0000_0000_0000int == cur[i].idle
        &&& (prev[i].nice + d.nice) % 0x1_0000_0000_0000_0000int == cur[i].nice
    } by {
        lemma_tick_delta_adds_up(cur[i], prev[i]);
    }
}

/// `stats` after a new reading of the process totals.
pub open spec fn totals_counted(old: SystemStats, new: SystemStats, s: Seq<ProcessSnapshot>) -> bool {
    new == (SystemStats {
        total_processes: s.len() as usize,
        total_threads: clamp_i64(thread_sum(s)),
        total_fds: clamp_usize(fd_sum(s)),
        ..old
    })
}

/// The per-core loads after a reading `t` of the ticks: the ticks spent
/// since the previous reading `prev` when both have as many cores, else
/// the loads `usage` kept.
pub open spec fn usage_after(prev: Seq<CpuTicks>, t: Seq<CpuTicks>, usage: Seq<CpuTicks>) -> Seq<CpuTicks> {
    if prev.len() == t.len() { core_deltas(t, prev) } else { usage }
}

/// The state after re-reading the summary: a successful tick reading
/// becomes the previous reading and gives the per-core loads (a failed one
/// changes neither); the memory figures are whatever the source gave; the
/// totals are counted over the listed processes.
pub open spec fn stats_reread(a: App, b: App) -> bool {
    &&& ({
        ||| b.prev_cpu_ticks@ == a.prev_cpu_ticks@ && b.system_stats.cpu_usage@ == a.system_stats.cpu_usage@
        ||| b.system_stats.cpu_usage@ == usage_after(a.prev_cpu_ticks@, b.prev_cpu_ticks@, a.system_stats.cpu_usage@)
    })
    &&& b.system_stats.total_processes == a.snapshots@.len()
    &&& b.system_stats.total_threads == clamp_i64(thread_sum(a.snapshots@))
    &&& b.system_stats.total_fds == clamp_usize(fd_sum(a.snapshots@))
    &&& b == (App { system_stats: b.system_stats, prev_cpu_ticks: b.prev_cpu_ticks, ..a })
}

/// The state after showing or hiding the system summary: showing it
/// reads the statistics anew, hiding changes nothing else.
#[verifier::opaque]
pub open spec fn summary_toggled(a: App, b: App) -> bool {
    if a.show_summary {
        b == (App { show_summary: false, ..a })
    } else {
        b == (App { show_summary: true, system_stats: b.system_stats, prev_cpu_ticks: b.prev_cpu_ticks, ..a })
    }
}

impl App {
    /// Records a new reading of the per-core ticks: the load of each core
    /// since the previous reading when both readings have the same number of
    /// cores, and the reading itself for next time.
    pub fn apply_cpu_ticks(&mut self, new_ticks: Vec<CpuTicks>)
        requires
            old(self).wf(),
        ensures
            final(self).wf(),
            old(self).prev_cpu_ticks@.len() == new_ticks@.len()
                ==> final(self).system_stats.cpu_usage@ == core_deltas(new_ticks@, old(self).prev_cpu_ticks@),
            old(self).prev_cpu_ticks@.len() != new_ticks@.len()
                ==> final(self).system_stats.cpu_usage == old(self).system_stats.cpu_usage,
            final(self).prev_cpu_ticks@ == new_ticks@,
            final(self).system_stats == (SystemStats { cpu_usage: final(self).system_stats.cpu_usage, ..old(self).system_stats }),
            *final(self) == (App {
                system_stats: final(self).system_stats,
                prev_cpu_ticks: final(self).prev_cpu_ticks,
                ..*old(self)
            }),
    {
        if self.prev_cpu_ticks.len() == new_ticks.len() {
            let mut usage: Vec<CpuTicks> = Vec::new();
            let mut i: usize = 0;
            while i < new_ticks.len()
                invariant
                    i <= new_ticks@.len(),
                    self.prev_cpu_ticks@.len() == new_ticks@.len(),
                    usage@ == core_deltas(new_ticks@, self.prev_cpu_ticks@).take(i as int),
                decreases new_ticks@.len() - i,
            {
                usage.push(ticks_between(&new_ticks[i], &self.prev_cpu_ticks[i]));
                i = i + 1;
                assert(usage@ =~= core_deltas(new_ticks@, self.prev_cpu_ticks@).take(i as int));
            }
            assert(usage@ =~= core_deltas(new_ticks@, self.prev_cpu_ticks@));
            self.system_stats.cpu_usage = usage;
        }
        self.prev_cpu_ticks = new_ticks;
    }

    /// Counts the processes, their threads and their open resources.
    pub fn count_totals(&mut self)
        requires
            old(self).wf(),
        ensures
            final(self).wf(),
            totals_counted(old(self).system_stats, final(self).system_stats, old(self).snapshots@),
            final(self).system_stats.total_processes == old(self).snapshots@.len(),
            *final(self) == (App { system_stats: final(self).system_stats, ..*old(self) }),
    {
        let mut threads: i128 = 0;
        let mut fds: u128 = 0;
        let mut i: usize = 0;
        while i < self.snapshots.len()
            invariant
                i <= self.snapshots@.len(),
                threads == thread_sum(self.snapshots@.take(i as int)),
                fds == fd_sum(self.snapshots@.take(i as int)),
                -0x8000_0000 * i <= threads <= 0x7fff_ffff * i,
                fds <= usize::MAX * i,
            decreases self.snapshots@.len() - i,
        {
            assert(self.snapshots@.take(i + 1).drop_last() =~= self.snapshots@.take(i as int));
            assert(i < usize::MAX);
            threads = threads + self.snapshots[i].activity.thread_count as i128;
            fds = fds + self.snapshots[i].resources.len() as u128;
            i = i + 1;
        }
        assert(self.snapshots@.take(i as int) =~= self.snapshots@);
        let total_threads: i64 = if threads > i64::MAX as i128 {
            i64::MAX
        } else if threads < i64::MIN as i128 {
            i64::MIN
        } else {
            threads as i64
        };
        let total_fds: usize = if fds > usize::MAX as u128 { usize::MAX } else { fds as usize };
        self.system_stats.total_processes = self.snapshots.len();
        self.system_stats.total_threads = total_threads;
        self.system_stats.total_fds = total_fds;
    }

    /// Reads the per-core ticks and memory from `source` and counts the
    /// process totals. A failed tick reading leaves the loads as they were;
    /// a failed memory reading clears the memory figures.
    pub fn refresh_system_stats<S: ProcessSource>(&mut self, source: &S)
        requires
            old(self).wf(),
        ensures
            final(self).wf(),
            stats_reread(*old(self), *final(self)),
    {
        match source.cpu_ticks() {
            Ok(ticks) => self.apply_cpu_ticks(ticks),
            Err(_) => {},
        }
        self.system_stats.memory = match source.memory_info() {
            Ok(m) => Some(m),
            Err(_) => None,
        };
        self.count_totals();
    }

    /// Shows or hides the system summary; showing it reads the statistics.
    pub fn toggle_summary<S: ProcessSource>(&mut self, source: &S)
        requires
            old(self).wf(),
        ensures
            final(self).wf(),
            summary_toggled(*old(self), *final(self)),
    {
        proof { reveal(summary_toggled); }
        self.show_summary = !self.show_summary;
        if self.show_summary {
            self.refresh_system_stats(source);
        }
    }
}

/// The height of the system summary for `width` columns: the rows of CPU
/// meters, the memory line and the totals line.
pub fn summary_lines_for_width(app: &App, width: u16) -> (r: usize)
    requires
        app.system_stats.cpu_usage@.len() <= usize::MAX / 2,
    ensures
        r == meter_layout(app.system_stats.cpu_usage@.len(), width as nat).2 + 2,
{
    let cpu_count = app.system_stats.cpu_usage.len();
    assert(meters_per_row(cpu_count as nat) <= cpu_count + 1);
    let (_, _, cpu_rows) = cpu_layout(cpu_count, width);
    assert(cpu_rows <= cpu_count + 1) by {
        if cpu_count > 0 {
            let c = cpu_count as int;
            let p = meters_per_row(cpu_count as nat) as int;
            assert((c + p - 1) / p <= c) by (nonlinear_arith)
                requires p >= 1, c >= 1;
        }
    }
    cpu_rows + 2
}

} // verus!
