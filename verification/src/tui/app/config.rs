//! Which charts and which process-list columns are shown.
use vstd::prelude::*;

verus! {

/// A configurable chart in the info panel Resources tab.
#[derive(Debug, Clone, Copy, PartialEq, Eq, Structural)]
pub enum Chart {
    ThreadCount,
    FdCount,
    PageFaults,
    ContextSwitches,
    DiskIo,
    SyscallRate,
}

/// Number of charts.
pub const CHART_COUNT: usize = 6;

/// The position of a chart in the chart list.
pub open spec fn chart_pos(c: Chart) -> int {
    match c {
        Chart::ThreadCount => 0,
        Chart::FdCount => 1,
        Chart::PageFaults => 2,
        Chart::ContextSwitches => 3,
        Chart::DiskIo => 4,
        Chart::SyscallRate => 5,
    }
}

/// The chart at position `i` of the chart list.
pub open spec fn chart_at(i: int) -> Chart {
    if i == 0 { Chart::ThreadCount }
    else if i == 1 { Chart::FdCount }
    else if i == 2 { Chart::PageFaults }
    else if i == 3 { Chart::ContextSwitches }
    else if i == 4 { Chart::DiskIo }
    else { Chart::SyscallRate }
}

/// The title of a chart.
pub open spec fn chart_title(c: Chart) -> Seq<char> {
    match c {
        Chart::ThreadCount => "Threads"@,
        Chart::FdCount => "Open FDs"@,
        Chart::PageFaults => "Page Faults"@,
        Chart::ContextSwitches => "Context Switches"@,
        Chart::DiskIo => "Disk I/O (R+W)"@,
        Chart::SyscallRate => "Syscalls"@,
    }
}

impl Chart {
    /// Every chart, in display order.
    pub fn all() -> (r: Vec<Chart>)
        ensures
            r@.len() == CHART_COUNT,
            forall|i: int| 0 <= i < CHART_COUNT ==> #[trigger] r@[i] == chart_at(i),
    {
        vec![
            Chart::ThreadCount, Chart::FdCount, Chart::PageFaults,
            Chart::ContextSwitches, Chart::DiskIo, Chart::SyscallRate,
        ]
    }

    /// The chart's position in the chart list.
    pub fn position(self) -> (r: usize)
        ensures
            r == chart_pos(self),
            r < CHART_COUNT,
            chart_at(r as int) == self,
    {
        match self {
            Chart::ThreadCount => 0,
            Chart::FdCount => 1,
            Chart::PageFaults => 2,
            Chart::ContextSwitches => 3,
            Chart::DiskIo => 4,
            Chart::SyscallRate => 5,
        }
    }

    /// The chart's title.
    pub fn label(self) -> (r: &'static str)
        ensures
            r@ == chart_title(self),
    {
        match self {
            Chart::ThreadCount => "Threads",
            Chart::FdCount => "Open FDs",
            Chart::PageFaults => "Page Faults",
            Chart::ContextSwitches => "Context Switches",
            Chart::DiskIo => "Disk I/O (R+W)",
            Chart::SyscallRate => "Syscalls",
        }
    }
}

/// Chart visibility configuration, one flag per chart in list order.
#[derive(Debug, Clone)]
pub struct ChartConfig {
    pub enabled: Vec<bool>,
}

impl Default for ChartConfig {
    /// Every chart starts hidden.
    fn default() -> (r: Self)
        ensures
            r.enabled@ == Seq::new(CHART_COUNT as nat, |i: int| false),
    {
        let r = ChartConfig { enabled: vec![false, false, false, false, false, false] };
        assert(r.enabled@ =~= Seq::new(CHART_COUNT as nat, |i: int| false));
        r
    }
}

impl ChartConfig {
    /// Whether `chart` is shown.
    pub fn is_enabled(&self, chart: Chart) -> (b: bool)
        requires
            chart_pos(chart) < self.enabled@.len(),
        ensures
            b == self.enabled@[chart_pos(chart)],
    {
        self.enabled[chart.position()]
    }

    /// Flips the flag at `index`; an index past the end changes nothing.
    pub fn toggle(&mut self, index: usize)
        ensures
            index < old(self).enabled@.len() ==> final(self).enabled@
                == old(self).enabled@.update(index as int, !old(self).enabled@[index as int]),
            index >= old(self).enabled@.len() ==> final(self).enabled@ == old(self).enabled@,
    {
        if index < self.enabled.len() {
            let v = !self.enabled[index];
            self.enabled.set(index, v);
        }
    }
}

/// A configurable process list column.
#[derive(Debug, Clone, Copy, PartialEq, Eq, Structural)]
pub enum Column {
    Cpu,
    Mem,
    Pmem,
    Thr,
    Files,
    Socks,
    Pipes,
    Other,
    Total,
    State,
}

/// Number of columns.
pub const COLUMN_COUNT: usize = 10;

/// The position of a column in the column list.
pub open spec fn column_pos(c: Column) -> int {
    match c {
        Column::Cpu => 0,
        Column::Mem => 1,
        Column::Pmem => 2,
        Column::Thr => 3,
        Column::Files => 4,
        Column::Socks => 5,
        Column::Pipes => 6,
        Column::Other => 7,
        Column::Total => 8,
        Column::State => 9,
    }
}

/// The column at position `i` of the column list.
pub open spec fn column_at(i: int) -> Column {
    if i == 0 { Column::Cpu }
    else if i == 1 { Column::Mem }
    else if i == 2 { Column::Pmem }
    else if i == 3 { Column::Thr }
    else if i == 4 { Column::Files }
    else if i == 5 { Column::Socks }
    else if i == 6 { Column::Pipes }
    else if i == 7 { Column::Other }
    else if i == 8 { Column::Total }
    else { Column::State }
}

/// The header of a column.
pub open spec fn column_title(c: Column) -> Seq<char> {
    match c {
        Column::Cpu => "CPU%"@,
        Column::Mem => "MEM"@,
        Column::Pmem => "PMEM"@,
        Column::Thr => "THR"@,
        Column::Files => "FILES"@,
        Column::Socks => "SOCKS"@,
        Column::Pipes => "PIPES"@,
        Column::Other => "OTHER"@,
        Column::Total => "TOTAL"@,
        Column::State => "STATE"@,
    }
}

impl Column {
    /// Every column, in display order.
    pub fn all() -> (r: Vec<Column>)
        ensures
            r@.len() == COLUMN_COUNT,
            forall|i: int| 0 <= i < COLUMN_COUNT ==> #[trigger] r@[i] == column_at(i),
    {
        vec![
            Column::Cpu, Column::Mem, Column::Pmem, Column::Thr, Column::Files,
            Column::Socks, Column::Pipes, Column::Other, Column::Total, Column::State,
        ]
    }

    /// The column's position in the column list.
    pub fn position(self) -> (r: usize)
        ensures
            r == column_pos(self),
            r < COLUMN_COUNT,
            column_at(r as int) == self,
    {
        match self {
            Column::Cpu => 0,
            Column::Mem => 1,
            Column::Pmem => 2,
            Column::Thr => 3,
            Column::Files => 4,
            Column::Socks => 5,
            Column::Pipes => 6,
            Column::Other => 7,
            Column::Total => 8,
            Column::State => 9,
        }
    }

    /// The column's header.
    pub fn label(self) -> (r: &'static str)
        ensures
            r@ == column_title(self),
    {
        match self {
            Column::Cpu => "CPU%",
            Column::Mem => "MEM",
            Column::Pmem => "PMEM",
            Column::Thr => "THR",
            Column::Files => "FILES",
            Column::Socks => "SOCKS",
            Column::Pipes => "PIPES",
            Column::Other => "OTHER",
            Column::Total => "TOTAL",
            Column::State => "STATE",
        }
    }
}

/// The default column flags: every column shown but the state column.
pub fn default_column_enabled() -> (r: Vec<bool>)
    ensures
        r@ == Seq::new(COLUMN_COUNT as nat, |i: int| i != column_pos(Column::State)),
{
    let cols = Column::all();
    let mut r: Vec<bool> = Vec::new();
    let mut i: usize = 0;
    while i < cols.len()
        invariant
            i <= COLUMN_COUNT,
            cols@.len() == COLUMN_COUNT,
            forall|k: int| 0 <= k < COLUMN_COUNT ==> #[trigger] cols@[k] == column_at(k),
            r@ == Seq::new(i as nat, |k: int| k != column_pos(Column::State)),
        decreases COLUMN_COUNT - i,
    {
        r.push(cols[i] != Column::State);
        i = i + 1;
        assert(r@ =~= Seq::new(i as nat, |k: int| k != column_pos(Column::State)));
    }
    r
}

/// Column visibility configuration, one flag per column in list order.
#[derive(Debug, Clone)]
pub struct ColumnConfig {
    pub enabled: Vec<bool>,
}

impl Default for ColumnConfig {
    /// Every column shown but the state column.
    fn default() -> (r: Self)
        ensures
            r.enabled@ == Seq::new(COLUMN_COUNT as nat, |i: int| i != column_pos(Column::State)),
    {
        ColumnConfig { enabled: default_column_enabled() }
    }
}

impl ColumnConfig {
    /// Whether `col` is shown.
    pub fn is_enabled(&self, col: Column) -> (b: bool)
        requires
            column_pos(col) < self.enabled@.len(),
        ensures
            b == self.enabled@[column_pos(col)],
    {
        self.enabled[col.position()]
    }

    /// Flips the flag at `index`; an index past the end changes nothing.
    pub fn toggle(&mut self, index: usize)
        ensures
            index < old(self).enabled@.len() ==> final(self).enabled@
                == old(self).enabled@.update(index as int, !old(self).enabled@[index as int]),
            index >= old(self).enabled@.len() ==> final(self).enabled@ == old(self).enabled@,
    {
        if index < self.enabled.len() {
            let v = !self.enabled[index];
            self.enabled.set(index, v);
        }
    }
}

} // verus!
