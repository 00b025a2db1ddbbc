use vstd::prelude::*;

verus! {

/// Process state.
#[derive(Debug, Clone, Copy, PartialEq, Eq, Structural)]
pub enum ProcessState {
    Running,
    Sleeping,
    Stopped,
    Zombie,
    Idle,
    Unknown,
}

/// The three-letter label shown for a process state.
pub open spec fn state_label(s: ProcessState) -> Seq<char> {
    match s {
        ProcessState::Running => "RUN"@,
        ProcessState::Sleeping => "SLP"@,
        ProcessState::Stopped => "STP"@,
        ProcessState::Zombie => "ZMB"@,
        ProcessState::Idle => "IDL"@,
        ProcessState::Unknown => "???"@,
    }
}

impl ProcessState {
    /// Short label of the state.
    pub fn label(self) -> (r: &'static str)
        ensures
            r@ == state_label(self),
    {
        match self {
            ProcessState::Running => "RUN",
            ProcessState::Sleeping => "SLP",
            ProcessState::Stopped => "STP",
            ProcessState::Zombie => "ZMB",
            ProcessState::Idle => "IDL",
            ProcessState::Unknown => "???",
        }
    }
}


/// The type of an open resource.
#[derive(Debug, Clone, Copy, PartialEq, Eq, Structural)]
pub enum ResourceKind {
    File,
    Socket,
    Pipe,
    Device,
    Kqueue,
    Unknown,
}

/// The lowercase name of a resource kind, as written in text output.
pub open spec fn kind_name(k: ResourceKind) -> Seq<char> {
    match k {
        ResourceKind::File => "file"@,
        ResourceKind::Socket => "socket"@,
        ResourceKind::Pipe => "pipe"@,
        ResourceKind::Device => "device"@,
        ResourceKind::Kqueue => "kqueue"@,
        ResourceKind::Unknown => "unknown"@,
    }
}

impl ResourceKind {
    /// Lowercase name of the kind ("file", "socket", ...).
    pub fn name(self) -> (r: &'static str)
        ensures
            r@ == kind_name(self),
    {
        match self {
            ResourceKind::File => "file",
            ResourceKind::Socket => "socket",
            ResourceKind::Pipe => "pipe",
            ResourceKind::Device => "device",
            ResourceKind::Kqueue => "kqueue",
            ResourceKind::Unknown => "unknown",
        }
    }
}

/// A network connection associated with a process.
#[derive(Debug, Clone)]
pub struct NetworkConnection {
    pub proto: String,
    pub local_addr: String,
    pub remote_addr: Option<String>,
    pub state: Option<String>,
}

/// Detailed process information for the info panel.
#[derive(Debug, Clone)]
pub struct ProcessDetail {
    pub pid: i32,
    pub ppid: i32,
    pub parent_name: String,
    pub name: String,
    pub path: String,
    pub cwd: String,
    pub user: String,
    pub uid: u32,
    pub state: ProcessState,
    pub nice: i32,
    pub started_secs: u64,
    pub thread_count: i32,
    pub virtual_size: u64,
    pub memory_rss: u64,
    pub memory_phys: u64,
    pub cpu_time_ns: u64,
    pub fd_files: usize,
    pub fd_sockets: usize,
    pub fd_pipes: usize,
    pub fd_other: usize,
    pub fd_total: usize,
    pub faults: i32,
    pub context_switches: i32,
    pub syscalls_mach: i32,
    pub syscalls_unix: i32,
    pub disk_bytes_read: u64,
    pub disk_bytes_written: u64,
    pub network: Vec<NetworkConnection>,
    pub environment: Vec<(String, String)>,
}

/// Memory usage for a process.
#[derive(Debug, Clone, Copy, PartialEq, Eq, Structural)]
pub struct ProcessMemory {
    /// Resident set size in bytes.
    pub rss: u64,
    /// Physical footprint (private memory) in bytes.
    pub phys: u64,
}

/// CPU and scheduling activity for a process.
#[derive(Debug, Clone, Copy, PartialEq, Eq, Structural)]
pub struct ProcessActivity {
    /// Cumulative CPU time (user + system) in nanoseconds.
    pub cpu_time_ns: u64,
    pub thread_count: i32,
    pub faults: i32,
    pub context_switches: i32,
    pub syscalls_mach: i32,
    pub syscalls_unix: i32,
}

/// Disk I/O counters for a process.
#[derive(Debug, Clone, Copy, PartialEq, Eq, Structural)]
pub struct DiskIo {
    pub bytes_read: u64,
    pub bytes_written: u64,
}

/// A single open file descriptor or resource.
#[derive(Debug, Clone)]
pub struct OpenResource {
    pub descriptor: i32,
    pub kind: ResourceKind,
    pub path: Option<String>,
}

/// A snapshot of a single process and its open resources.
#[derive(Debug, Clone)]
pub struct ProcessSnapshot {
    pub pid: i32,
    pub ppid: i32,
    pub name: String,
    /// Process state (running, sleeping, zombie, etc.).
    pub state: ProcessState,
    /// Whether we had full access to this process's fds.
    /// False when permission was denied; pid and name are still valid.
    pub accessible: bool,
    pub memory: ProcessMemory,
    pub activity: ProcessActivity,
    pub disk_io: DiskIo,
    pub resources: Vec<OpenResource>,
}

/// Number of resources of kind `k` in `rs`.
pub open spec fn count_kind(rs: Seq<OpenResource>, k: ResourceKind) -> nat
    decreases rs.len(),
{
    if rs.len() == 0 {
        0
    } else {
        count_kind(rs.drop_last(), k) + if rs.last().kind == k { 1nat } else { 0nat }
    }
}

impl ProcessSnapshot {
    /// Count resources by kind.
    pub fn count_by_kind(&self, kind: &ResourceKind) -> (n: usize)
        ensures
            n == count_kind(self.resources@, *kind),
    {
        let mut n: usize = 0;
        let mut i: usize = 0;
        while i < self.resources.len()
            invariant
                i <= self.resources@.len(),
                n == count_kind(self.resources@.take(i as int), *kind),
                n <= i,
            decreases self.resources@.len() - i,
        {
            assert(self.resources@.take(i + 1).drop_last() =~= self.resources@.take(i as int));
            if self.resources[i].kind == *kind {
                n = n + 1;
            }
            i = i + 1;
        }
        assert(self.resources@.take(i as int) =~= self.resources@);
        n
    }
}

} // verus!
