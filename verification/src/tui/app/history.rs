//! Recent samples of each process, kept for the sparkline charts.
use std::collections::VecDeque;
use vstd::prelude::*;

verus! {

/// How many samples a chart keeps.
pub const MAX_SAMPLES: usize = 60;

/// CPU time used by a process over a wall-clock interval, both in
/// nanoseconds; the share is `cpu_ns / elapsed_ns`.
#[derive(Debug, Clone, Copy, PartialEq, Eq, Structural)]
pub struct CpuShare {
    pub cpu_ns: u64,
    pub elapsed_ns: u64,
}

/// A count of events over a wall-clock interval in nanoseconds.
#[derive(Debug, Clone, Copy, PartialEq, Eq, Structural)]
pub struct Rate {
    pub delta: u64,
    pub elapsed_ns: u64,
}

/// Previous cumulative counters of a process, kept to compute rates.
#[derive(Debug, Clone, Copy, PartialEq, Eq, Structural)]
pub struct ProcessCounters {
    pub faults: i32,
    pub context_switches: i32,
    pub syscalls: i64,
    pub disk_read: u64,
    pub disk_write: u64,
}

impl Default for ProcessCounters {
    /// All counters zero.
    fn default() -> (r: Self)
        ensures
            r == (ProcessCounters { faults: 0, context_switches: 0, syscalls: 0, disk_read: 0, disk_write: 0 }),
    {
        ProcessCounters { faults: 0, context_switches: 0, syscalls: 0, disk_read: 0, disk_write: 0 }
    }
}

/// A window after one more sample: the sample is appended, and the oldest
/// sample leaves once the window holds `MAX_SAMPLES`.
pub open spec fn window_push<T>(s: Seq<T>, v: T) -> Seq<T> {
    if s.len() >= MAX_SAMPLES {
        s.drop_first().push(v)
    } else {
        s.push(v)
    }
}

/// Appends `val`, dropping the oldest sample when the window is full.
pub fn push_sample<T>(deque: &mut VecDeque<T>, val: T)
    ensures
        final(deque)@ == window_push(old(deque)@, val),
{
    if deque.len() >= MAX_SAMPLES {
        let _ = deque.pop_front();
    }
    deque.push_back(val);
    proof {
        if old(deque)@.len() >= MAX_SAMPLES {
            assert(old(deque)@.subrange(1, old(deque)@.len() as int) =~= old(deque)@.drop_first());
        }
    }
}

/// Historical data of one process for the sparkline charts; `C` is the
/// type of a CPU sample.
#[derive(Debug, Clone)]
pub struct ProcessHistory<C> {
    pub cpu: VecDeque<C>,
    pub memory: VecDeque<u64>,
    pub threads: VecDeque<i64>,
    pub fd_count: VecDeque<usize>,
    pub faults_rate: VecDeque<Rate>,
    pub csw_rate: VecDeque<Rate>,
    pub disk_read_rate: VecDeque<Rate>,
    pub disk_write_rate: VecDeque<Rate>,
    pub syscall_rate: VecDeque<Rate>,
}

/// The samples of a history, window by window.
pub struct HistoryView<C> {
    pub cpu: Seq<C>,
    pub memory: Seq<u64>,
    pub threads: Seq<i64>,
    pub fd_count: Seq<usize>,
    pub faults_rate: Seq<Rate>,
    pub csw_rate: Seq<Rate>,
    pub disk_read_rate: Seq<Rate>,
    pub disk_write_rate: Seq<Rate>,
    pub syscall_rate: Seq<Rate>,
}

impl<C> View for ProcessHistory<C> {
    type V = HistoryView<C>;

    open spec fn view(&self) -> HistoryView<C> {
        HistoryView {
            cpu: self.cpu@,
            memory: self.memory@,
            threads: self.threads@,
            fd_count: self.fd_count@,
            faults_rate: self.faults_rate@,
            csw_rate: self.csw_rate@,
            disk_read_rate: self.disk_read_rate@,
            disk_write_rate: self.disk_write_rate@,
            syscall_rate: self.syscall_rate@,
        }
    }
}

/// The history of a process seen for the first time.
pub open spec fn empty_history<C>() -> HistoryView<C> {
    HistoryView {
        cpu: Seq::empty(),
        memory: Seq::empty(),
        threads: Seq::empty(),
        fd_count: Seq::empty(),
        faults_rate: Seq::empty(),
        csw_rate: Seq::empty(),
        disk_read_rate: Seq::empty(),
        disk_write_rate: Seq::empty(),
        syscall_rate: Seq::empty(),
    }
}

/// No window holds more than `MAX_SAMPLES` samples.
pub open spec fn history_bounded<C>(h: HistoryView<C>) -> bool {
    &&& h.cpu.len() <= MAX_SAMPLES
    &&& h.memory.len() <= MAX_SAMPLES
    &&& h.threads.len() <= MAX_SAMPLES
    &&& h.fd_count.len() <= MAX_SAMPLES
    &&& h.faults_rate.len() <= MAX_SAMPLES
    &&& h.csw_rate.len() <= MAX_SAMPLES
    &&& h.disk_read_rate.len() <= MAX_SAMPLES
    &&& h.disk_write_rate.len() <= MAX_SAMPLES
    &&& h.syscall_rate.len() <= MAX_SAMPLES
}

impl<C> ProcessHistory<C> {
    /// A history with no samples.
    pub fn new() -> (h: Self)
        ensures
            h@ == empty_history::<C>(),
    {
        ProcessHistory {
            cpu: VecDeque::with_capacity(MAX_SAMPLES),
            memory: VecDeque::with_capacity(MAX_SAMPLES),
            threads: VecDeque::with_capacity(MAX_SAMPLES),
            fd_count: VecDeque::with_capacity(MAX_SAMPLES),
            faults_rate: VecDeque::with_capacity(MAX_SAMPLES),
            csw_rate: VecDeque::with_capacity(MAX_SAMPLES),
            disk_read_rate: VecDeque::with_capacity(MAX_SAMPLES),
            disk_write_rate: VecDeque::with_capacity(MAX_SAMPLES),
            syscall_rate: VecDeque::with_capacity(MAX_SAMPLES),
        }
    }

    /// Records one CPU sample and one resident-memory sample.
    pub fn push(&mut self, cpu_pct: C, memory_rss: u64)
        ensures
            final(self)@ == (HistoryView {
                cpu: window_push(old(self)@.cpu, cpu_pct),
                memory: window_push(old(self)@.memory, memory_rss),
                ..old(self)@
            }),
    {
        push_sample(&mut self.cpu, cpu_pct);
        push_sample(&mut self.memory, memory_rss);
    }
}

/// A window never grows past `MAX_SAMPLES`, and its newest sample is the
/// one pushed last.
pub proof fn lemma_window_push<T>(s: Seq<T>, v: T)
    requires
        s.len() <= MAX_SAMPLES,
    ensures
        window_push(s, v).len() <= MAX_SAMPLES,
        window_push(s, v).len() == (if s.len() == MAX_SAMPLES { s.len() } else { s.len() + 1 }),
        window_push(s, v).last() == v,
        window_push(s, v).drop_last() == (if s.len() == MAX_SAMPLES { s.drop_first() } else { s }),
{
    assert(window_push(s, v).drop_last() =~= (if s.len() == MAX_SAMPLES { s.drop_first() } else { s }));
}

} // verus!
