//! Process records of the macOS interface and the pure steps of reading
//! them.
use vstd::prelude::*;

use crate::text::{nat_dec, int_dec, push_i64, push_str, push_u64};
use super::raw;

pub use crate::models::{NetworkConnection, ProcessDetail};

verus! {

/// Information about a single open file descriptor.
#[derive(Debug, Clone, Copy, PartialEq, Eq, Structural)]
pub struct FdInfo {
    pub fd: i32,
    pub fdtype: u32,
}

/// Resolved detail for a file descriptor.
#[derive(Debug, Clone)]
pub enum FdDetail {
    Vnode { path: String },
    Socket { family: i32, socket_type: i32, protocol: i32 },
    Pipe,
    Kqueue,
    Pshm,
    Psem,
    Unknown(u32),
}

/// Process state, as the BSD layer reports it.
#[derive(Debug, Clone, Copy, PartialEq, Eq, Structural)]
pub enum ProcessState {
    Running,
    Sleeping,
    Stopped,
    Zombie,
    Idle,
    Unknown,
}

/// Process metadata: PPID, thread count, CPU time, memory, and full name.
#[derive(Debug, Clone)]
pub struct ProcessInfo {
    pub ppid: i32,
    pub name: String,
    pub thread_count: i32,
    pub memory_rss: u64,
    pub memory_phys: u64,
    pub cpu_time_ns: u64,
    pub state: ProcessState,
    pub start_time: u64,
    pub faults: i32,
    pub context_switches: i32,
    pub syscalls_mach: i32,
    pub syscalls_unix: i32,
    pub disk_bytes_read: u64,
    pub disk_bytes_written: u64,
}

/// The state of a BSD process status code.
pub open spec fn bsd_state(status: u32) -> ProcessState {
    if status == raw::SRUN {
        ProcessState::Running
    } else if status == raw::SSLEEP {
        ProcessState::Sleeping
    } else if status == raw::SSTOP {
        ProcessState::Stopped
    } else if status == raw::SZOMB {
        ProcessState::Zombie
    } else if status == raw::SIDL {
        ProcessState::Idle
    } else {
        ProcessState::Unknown
    }
}

impl ProcessState {
    /// The state of a BSD process status code.
    pub fn from_bsd_status(status: u32) -> (r: Self)
        ensures
            r == bsd_state(status),
    {
        if status == raw::SRUN {
            ProcessState::Running
        } else if status == raw::SSLEEP {
            ProcessState::Sleeping
        } else if status == raw::SSTOP {
            ProcessState::Stopped
        } else if status == raw::SZOMB {
            ProcessState::Zombie
        } else if status == raw::SIDL {
            ProcessState::Idle
        } else {
            ProcessState::Unknown
        }
    }

    /// Short label of the state.
    pub fn label(self) -> (r: &'static str)
        ensures
            r@ == crate::models::state_label(convert_state_spec(self)),
    {
        match self {
            ProcessState::Running => "RUN",
            ProcessState::Sleeping => "SLP",
            ProcessState::Stopped => "STP",
            ProcessState::Zombie => "ZMB",
            ProcessState::Idle => "IDL",
            ProcessState::Unknown => "???",
        }
    }
}

/// The same state in the model of the explorer.
pub open spec fn convert_state_spec(s: ProcessState) -> crate::models::ProcessState {
    match s {
        ProcessState::Running => crate::models::ProcessState::Running,
        ProcessState::Sleeping => crate::models::ProcessState::Sleeping,
        ProcessState::Stopped => crate::models::ProcessState::Stopped,
        ProcessState::Zombie => crate::models::ProcessState::Zombie,
        ProcessState::Idle => crate::models::ProcessState::Idle,
        ProcessState::Unknown => crate::models::ProcessState::Unknown,
    }
}

/// Errors of the calls into the macOS interface.
#[derive(Debug, Clone)]
pub enum FfiError {
    ProcessGone(i32),
    PermissionDenied(i32),
    SystemError { function: &'static str, pid: i32, reason: String },
}

/// The message of an interface error.
pub open spec fn ffi_message(e: FfiError) -> Seq<char> {
    match e {
        FfiError::ProcessGone(pid) => "process "@ + int_dec(pid as int) + " has exited or does not exist"@,
        FfiError::PermissionDenied(pid) => "permission denied for process "@ + int_dec(pid as int),
        FfiError::SystemError { function, pid, reason } => "FFI call to "@ + function@ + " failed for pid "@
            + int_dec(pid as int) + ": "@ + reason@,
    }
}

impl FfiError {
    /// The message of the error.
    pub fn message(&self) -> (r: String)
        ensures
            r@ == ffi_message(*self),
    {
        let mut s = String::new();
        match self {
            FfiError::ProcessGone(pid) => {
                push_str(&mut s, "process ");
                push_i64(&mut s, *pid as i64);
                push_str(&mut s, " has exited or does not exist");
            },
            FfiError::PermissionDenied(pid) => {
                push_str(&mut s, "permission denied for process ");
                push_i64(&mut s, *pid as i64);
            },
            FfiError::SystemError { function, pid, reason } => {
                push_str(&mut s, "FFI call to ");
                push_str(&mut s, function);
                push_str(&mut s, " failed for pid ");
                push_i64(&mut s, *pid as i64);
                push_str(&mut s, ": ");
                push_str(&mut s, reason.as_str());
            },
        }
        assert(s@ =~= ffi_message(*self));
        s
    }
}

/// The error that an `errno` value after a failed call means for `pid`:
/// the process is gone (ESRCH), access was refused (EPERM, EACCES), or
/// some other failure of `function`, described by `reason`.
pub fn errno_error(function: &'static str, pid: i32, errno: i32, reason: String) -> (r: FfiError)
    ensures
        errno == 3 ==> r == FfiError::ProcessGone(pid),
        (errno == 1 || errno == 13) ==> r == FfiError::PermissionDenied(pid),
        errno != 3 && errno != 1 && errno != 13 ==> r == (FfiError::SystemError { function, pid, reason }),
{
    if errno == 3 {
        FfiError::ProcessGone(pid)
    } else if errno == 1 || errno == 13 {
        FfiError::PermissionDenied(pid)
    } else {
        FfiError::SystemError { function, pid, reason }
    }
}

/// A logical CPU's cluster type.
#[derive(Debug, Clone, Copy, PartialEq, Eq, Structural)]
pub enum CoreType {
    Performance,
    Efficiency,
    Unknown,
}

/// The largest id of the pairs (zero when there are none).
pub open spec fn max_id(pairs: Seq<(usize, CoreType)>) -> nat
    decreases pairs.len(),
{
    if pairs.len() == 0 {
        0
    } else {
        let m = max_id(pairs.drop_last());
        if pairs.last().0 > m { pairs.last().0 as nat } else { m }
    }
}

/// The type of core `i`: that of the last pair with id `i`, else unknown.
pub open spec fn core_type_at(pairs: Seq<(usize, CoreType)>, i: int) -> CoreType
    decreases pairs.len(),
{
    if pairs.len() == 0 {
        CoreType::Unknown
    } else if pairs.last().0 == i {
        pairs.last().1
    } else {
        core_type_at(pairs.drop_last(), i)
    }
}

/// No id is past the largest one.
proof fn lemma_max_id(pairs: Seq<(usize, CoreType)>, k: int)
    requires
        0 <= k < pairs.len(),
    ensures
        pairs[k].0 <= max_id(pairs),
    decreases pairs.len(),
{
    if k < pairs.len() - 1 {
        lemma_max_id(pairs.drop_last(), k);
    }
}

/// The type of each core, indexed by logical id, from the (id, type)
/// pairs read off the device tree: as many cores as the largest id plus
/// one, each of the type of the last pair with its id, unknown when none.
/// No pair at all is an error.
pub fn core_types(pairs: &Vec<(usize, CoreType)>) -> (r: Result<Vec<CoreType>, FfiError>)
    requires
        max_id(pairs@) < usize::MAX,
    ensures
        pairs@.len() == 0 <==> r is Err,
        r is Err ==> r->Err_0 == (FfiError::SystemError {
            function: "IODeviceTree:/cpus",
            pid: 0,
            reason: r->Err_0->reason,
        }) && r->Err_0->reason@ == "no cpu nodes carried logical-cpu-id"@,
        r is Ok ==> r->Ok_0@.len() == max_id(pairs@) + 1,
        r is Ok ==> forall|i: int| 0 <= i < r->Ok_0@.len() ==> #[trigger] r->Ok_0@[i] == core_type_at(pairs@, i),
{
    if pairs.len() == 0 {
        let mut reason = String::new();
        push_str(&mut reason, "no cpu nodes carried logical-cpu-id");
        return Err(FfiError::SystemError { function: "IODeviceTree:/cpus", pid: 0, reason });
    }
    let mut top: usize = 0;
    let mut k: usize = 0;
    while k < pairs.len()
        invariant
            k <= pairs@.len(),
            top == max_id(pairs@.take(k as int)),
        decreases pairs@.len() - k,
    {
        assert(pairs@.take(k + 1).drop_last() =~= pairs@.take(k as int));
        if pairs[k].0 > top {
            top = pairs[k].0;
        }
        k = k + 1;
    }
    assert(pairs@.take(k as int) =~= pairs@);
    let n = top + 1;
    let mut out: Vec<CoreType> = Vec::new();
    while out.len() < n
        invariant
            out@.len() <= n,
            forall|i: int| 0 <= i < out@.len() ==> #[trigger] out@[i] == CoreType::Unknown,
        decreases n - out@.len(),
    {
        out.push(CoreType::Unknown);
    }
    let mut j: usize = 0;
    while j < pairs.len()
        invariant
            j <= pairs@.len(),
            out@.len() == n == max_id(pairs@) + 1,
            forall|i: int| 0 <= i < n ==> #[trigger] out@[i] == core_type_at(pairs@.take(j as int), i),
        decreases pairs@.len() - j,
    {
        let (id, kind) = pairs[j];
        proof { lemma_max_id(pairs@, j as int); }
        assert(pairs@.take(j + 1).drop_last() =~= pairs@.take(j as int));
        out.set(id, kind);
        j = j + 1;
    }
    assert(pairs@.take(j as int) =~= pairs@);
    Ok(out)
}

/// Nanoseconds from Mach absolute-time ticks and the timebase ratio,
/// truncated to 64 bits as the cast does.
pub fn ticks_to_ns(ticks: u64, numer: u32, denom: u32) -> (r: u64)
    requires
        denom > 0,
    ensures
        r == ((ticks * numer / (denom as int)) as u64),
{
    assert(ticks as u128 * numer as u128 <= u128::MAX) by (nonlinear_arith)
        requires ticks <= u64::MAX, numer <= u32::MAX;
    ((ticks as u128 * numer as u128) / denom as u128) as u64
}

/// The name of a BSD TCP state number.
pub open spec fn tcp_state_word(state: i32) -> Seq<char> {
    if state == raw::TCPS_CLOSED { "CLOSED"@ }
    else if state == raw::TCPS_LISTEN { "LISTEN"@ }
    else if state == raw::TCPS_SYN_SENT { "SYN_SENT"@ }
    else if state == raw::TCPS_SYN_RECEIVED { "SYN_RCVD"@ }
    else if state == raw::TCPS_ESTABLISHED { "ESTABLISHED"@ }
    else if state == raw::TCPS_CLOSE_WAIT { "CLOSE_WAIT"@ }
    else if state == raw::TCPS_FIN_WAIT_1 { "FIN_WAIT_1"@ }
    else if state == raw::TCPS_CLOSING { "CLOSING"@ }
    else if state == raw::TCPS_LAST_ACK { "LAST_ACK"@ }
    else if state == raw::TCPS_FIN_WAIT_2 { "FIN_WAIT_2"@ }
    else if state == raw::TCPS_TIME_WAIT { "TIME_WAIT"@ }
    else { "UNKNOWN"@ }
}

/// The name of a BSD TCP state number.
pub fn tcp_state_name(state: i32) -> (r: String)
    ensures
        r@ == tcp_state_word(state),
{
    let name = if state == raw::TCPS_CLOSED { "CLOSED" }
    else if state == raw::TCPS_LISTEN { "LISTEN" }
    else if state == raw::TCPS_SYN_SENT { "SYN_SENT" }
    else if state == raw::TCPS_SYN_RECEIVED { "SYN_RCVD" }
    else if state == raw::TCPS_ESTABLISHED { "ESTABLISHED" }
    else if state == raw::TCPS_CLOSE_WAIT { "CLOSE_WAIT" }
    else if state == raw::TCPS_FIN_WAIT_1 { "FIN_WAIT_1" }
    else if state == raw::TCPS_CLOSING { "CLOSING" }
    else if state == raw::TCPS_LAST_ACK { "LAST_ACK" }
    else if state == raw::TCPS_FIN_WAIT_2 { "FIN_WAIT_2" }
    else if state == raw::TCPS_TIME_WAIT { "TIME_WAIT" }
    else { "UNKNOWN" };
    name.to_string()
}

/// A socket address as `a.b.c.d:port`; `*` for an unspecified or IPv6
/// host, `*` for port zero.
pub open spec fn sock_addr_text(addr: raw::In4In6Addr, port: i32, vflag: u8) -> Seq<char> {
    let b = addr.i46a_addr4;
    let ip = if vflag % 2 == 1 {
        if b[0] == 0 && b[1] == 0 && b[2] == 0 && b[3] == 0 {
            "*"@
        } else {
            nat_dec(b[0] as nat) + "."@ + nat_dec(b[1] as nat) + "."@ + nat_dec(b[2] as nat) + "."@
                + nat_dec(b[3] as nat)
        }
    } else {
        "*"@
    };
    if port == 0 { ip + ":*"@ } else { ip + ":"@ + int_dec(port as int) }
}

/// A socket address as `a.b.c.d:port`.
pub fn format_sock_addr(addr: &raw::In4In6Addr, port: i32, vflag: u8) -> (r: String)
    ensures
        r@ == sock_addr_text(*addr, port, vflag),
{
    let mut out = String::new();
    let b = addr.i46a_addr4;
    assert((vflag & raw::INI_IPV4 != 0) == (vflag % 2 == 1)) by (bit_vector);
    if vflag & raw::INI_IPV4 != 0 {
        if b[0] == 0 && b[1] == 0 && b[2] == 0 && b[3] == 0 {
            push_str(&mut out, "*");
        } else {
            push_u64(&mut out, b[0] as u64);
            push_str(&mut out, ".");
            push_u64(&mut out, b[1] as u64);
            push_str(&mut out, ".");
            push_u64(&mut out, b[2] as u64);
            push_str(&mut out, ".");
            push_u64(&mut out, b[3] as u64);
        }
    } else {
        push_str(&mut out, "*");
    }
    if port == 0 {
        push_str(&mut out, ":*");
    } else {
        push_str(&mut out, ":");
        push_i64(&mut out, port as i64);
    }
    out
}

/// The connection of a socket of address family `family` and type
/// `sock_type`, as (protocol, local address, remote address, state): for a
/// family other than IPv4 (2) or IPv6 (30), `sock(<family>)` at `*` and
/// nothing else; otherwise `tcp` (type 1, with the state `tcp_state`) or
/// `udp`, between the addresses of `in_info`, the remote one only when its
/// port is set.
pub open spec fn socket_text(family: i32, sock_type: i32, in_info: raw::InSockInfo, tcp_state: i32)
    -> (Seq<char>, Seq<char>, Option<Seq<char>>, Option<Seq<char>>)
{
    if family != 2 && family != 30 {
        ("sock("@ + int_dec(family as int) + ")"@, "*"@, None, None)
    } else {
        (
            if sock_type == 1 { "tcp"@ } else { "udp"@ },
            sock_addr_text(in_info.insi_laddr, in_info.insi_lport, in_info.insi_vflag),
            if in_info.insi_fport != 0 {
                Some(sock_addr_text(in_info.insi_faddr, in_info.insi_fport, in_info.insi_vflag))
            } else {
                None
            },
            if sock_type == 1 { Some(tcp_state_word(tcp_state)) } else { None },
        )
    }
}

/// The connection of a socket from what its descriptor information holds:
/// its family and type, its addresses and, for TCP, its state.
pub fn socket_connection(family: i32, sock_type: i32, in_info: &raw::InSockInfo, tcp_state: i32)
    -> (r: NetworkConnection)
    ensures
        (r.proto@, r.local_addr@, crate::backend::linux::opt_chars(r.remote_addr), crate::backend::linux::opt_chars(r.state))
            == socket_text(family, sock_type, *in_info, tcp_state),
{
    if family != 2 && family != 30 {
        let mut proto = String::new();
        push_str(&mut proto, "sock(");
        push_i64(&mut proto, family as i64);
        push_str(&mut proto, ")");
        let mut local = String::new();
        push_str(&mut local, "*");
        assert(proto@ =~= "sock("@ + int_dec(family as int) + ")"@);
        return NetworkConnection { proto, local_addr: local, remote_addr: None, state: None };
    }
    let mut proto = String::new();
    push_str(&mut proto, if sock_type == 1 { "tcp" } else { "udp" });
    proof {
        reveal_strlit("tcp");
        reveal_strlit("udp");
    }
    let local_addr = format_sock_addr(&in_info.insi_laddr, in_info.insi_lport, in_info.insi_vflag);
    let remote_addr = if in_info.insi_fport != 0 {
        Some(format_sock_addr(&in_info.insi_faddr, in_info.insi_fport, in_info.insi_vflag))
    } else {
        None
    };
    let state = if sock_type == 1 { Some(tcp_state_name(tcp_state)) } else { None };
    NetworkConnection { proto, local_addr, remote_addr, state }
}

/// The detail of a descriptor whose type alone decides it: kqueues, POSIX
/// shared memory and semaphores, and types it does not know. Vnodes,
/// sockets and pipes need a lookup in the kernel, so they give `None`.
pub fn detail_by_type(fdtype: u32) -> (r: Option<FdDetail>)
    ensures
        fdtype == raw::PROX_FDTYPE_VNODE || fdtype == raw::PROX_FDTYPE_SOCKET || fdtype == raw::PROX_FDTYPE_PIPE
            ==> r is None,
        fdtype == raw::PROX_FDTYPE_KQUEUE ==> r == Some(FdDetail::Kqueue),
        fdtype == raw::PROX_FDTYPE_PSHM ==> r == Some(FdDetail::Pshm),
        fdtype == raw::PROX_FDTYPE_PSEM ==> r == Some(FdDetail::Psem),
        fdtype != raw::PROX_FDTYPE_VNODE && fdtype != raw::PROX_FDTYPE_SOCKET && fdtype != raw::PROX_FDTYPE_PIPE
            && fdtype != raw::PROX_FDTYPE_KQUEUE && fdtype != raw::PROX_FDTYPE_PSHM && fdtype != raw::PROX_FDTYPE_PSEM
            ==> r == Some(FdDetail::Unknown(fdtype)),
{
    if fdtype == raw::PROX_FDTYPE_VNODE || fdtype == raw::PROX_FDTYPE_SOCKET || fdtype == raw::PROX_FDTYPE_PIPE {
        None
    } else if fdtype == raw::PROX_FDTYPE_KQUEUE {
        Some(FdDetail::Kqueue)
    } else if fdtype == raw::PROX_FDTYPE_PSHM {
        Some(FdDetail::Pshm)
    } else if fdtype == raw::PROX_FDTYPE_PSEM {
        Some(FdDetail::Psem)
    } else {
        Some(FdDetail::Unknown(fdtype))
    }
}

/// The pids that the kernel reported for a path: the first `actual`
/// entries of the buffer it filled (none when `actual` is not positive),
/// without the empty (non-positive) slots.
pub fn found_pids(buffer: Vec<i32>, actual: i32) -> (r: Vec<i32>)
    ensures
        actual <= 0 ==> r@ == Seq::<i32>::empty(),
        actual > 0 ==> r@ == buffer@.take(if actual as int <= buffer@.len() { actual as int } else { buffer@.len() as int })
            .filter(|p: i32| p > 0),
{
    if actual <= 0 {
        return Vec::new();
    }
    let n: usize = if (actual as usize) <= buffer.len() { actual as usize } else { buffer.len() };
    let mut out: Vec<i32> = Vec::new();
    let mut k: usize = 0;
    while k < n
        invariant
            n <= buffer@.len(),
            k <= n,
            out@ == buffer@.take(k as int).filter(|p: i32| p > 0),
        decreases n - k,
    {
        reveal_with_fuel(Seq::filter, 1);
        assert(buffer@.take(k + 1).drop_last() =~= buffer@.take(k as int));
        if buffer[k] > 0 {
            out.push(buffer[k]);
        }
        k = k + 1;
    }
    out
}

/// The user shown for a uid: `uid:<uid>`.
pub fn get_username(uid: u32) -> (r: String)
    ensures
        r@ == "uid:"@ + nat_dec(uid as nat),
{
    let mut out = String::new();
    push_str(&mut out, "uid:");
    push_u64(&mut out, uid as u64);
    out
}

/// The text of UTF-8 bytes with each invalid sequence replaced by U+FFFD,
/// as `String::from_utf8_lossy` decodes them.
pub uninterp spec fn lossy_text(bytes: Seq<u8>) -> Seq<char>;

/// Decodes bytes as UTF-8, replacing invalid sequences
/// (`String::from_utf8_lossy`). The decoding is named by `lossy_text`.
#[verifier::external_body]
fn from_utf8_lossy(bytes: &[u8]) -> (r: String)
    ensures
        r@ == lossy_text(bytes@),
{
    String::from_utf8_lossy(bytes).into_owned()
}

/// The position of the first NUL of `buf`, or its length.
pub open spec fn nul_pos(buf: Seq<u8>) -> int
    decreases buf.len(),
{
    if buf.len() == 0 {
        0
    } else if nul_pos(buf.drop_last()) < buf.len() - 1 {
        nul_pos(buf.drop_last())
    } else if buf.last() == 0 {
        buf.len() - 1
    } else {
        buf.len() as int
    }
}

/// The text of a NUL-terminated C string in a buffer (the whole buffer
/// when it holds no NUL).
pub fn extract_c_string(buf: &[u8]) -> (r: String)
    ensures
        r@ == lossy_text(buf@.take(nul_pos(buf@))),
{
    let mut end: usize = 0;
    while end < buf.len() && buf[end] != 0
        invariant
            end <= buf@.len(),
            forall|k: int| 0 <= k < end ==> buf@[k] != 0,
            nul_pos(buf@.take(end as int)) == end,
        decreases buf@.len() - end,
    {
        assert(buf@.take(end + 1).drop_last() =~= buf@.take(end as int));
        end = end + 1;
    }
    proof { lemma_nul_pos_found(buf@, end as int); }
    let mut head: Vec<u8> = Vec::new();
    let mut i: usize = 0;
    while i < end
        invariant
            i <= end <= buf@.len(),
            head@ == buf@.take(i as int),
        decreases end - i,
    {
        head.push(buf[i]);
        i = i + 1;
        assert(head@ =~= buf@.take(i as int));
    }
    from_utf8_lossy(head.as_slice())
}

/// Scanning stops at the first NUL or at the end.
proof fn lemma_nul_pos_found(buf: Seq<u8>, end: int)
    requires
        0 <= end <= buf.len(),
        nul_pos(buf.take(end)) == end,
        end == buf.len() || buf[end] == 0,
    ensures
        nul_pos(buf) == end,
    decreases buf.len() - end,
{
    if end < buf.len() {
        let t = buf.take(end + 1);
        assert(t.drop_last() =~= buf.take(end));
        lemma_nul_pos_extend(buf, end + 1);
    } else {
        assert(buf.take(end) =~= buf);
    }
}

/// Once a NUL is found, longer prefixes find the same position.
proof fn lemma_nul_pos_extend(buf: Seq<u8>, n: int)
    requires
        1 <= n <= buf.len(),
        nul_pos(buf.take(n)) < n,
    ensures
        nul_pos(buf) == nul_pos(buf.take(n)),
    decreases buf.len() - n,
{
    if n < buf.len() {
        assert(buf.take(n + 1).drop_last() =~= buf.take(n));
        lemma_nul_pos_extend(buf, n + 1);
    } else {
        assert(buf.take(n) =~= buf);
    }
}

/// The name of a process from its BSD record: the long name when it is
/// not empty, else the short command name (each up to its first NUL).
pub open spec fn bsd_name(bsd: raw::ProcBsdInfo) -> Seq<char> {
    let long = lossy_text(bsd.pbi_name@.take(nul_pos(bsd.pbi_name@)));
    if long.len() > 0 { long } else { lossy_text(bsd.pbi_comm@.take(nul_pos(bsd.pbi_comm@))) }
}

/// The metadata of a process from its BSD record, its task record when it
/// could be read (thread count, resident memory, CPU time, faults, context
/// switches, system calls; zero otherwise), the timebase ratio for CPU
/// ticks, its physical footprint and its disk counters.
pub fn process_info_of(
    bsd: &raw::ProcBsdInfo,
    task: Option<&raw::ProcTaskInfo>,
    numer: u32,
    denom: u32,
    memory_phys: u64,
    disk: (u64, u64),
) -> (r: ProcessInfo)
    requires
        denom > 0,
        match task {
            Some(t) => t.pti_total_user + t.pti_total_system <= u64::MAX,
            None => true,
        },
    ensures
        r.ppid == bsd.pbi_ppid as i32,
        r.name@ == bsd_name(*bsd),
        r.state == bsd_state(bsd.pbi_status),
        r.start_time == bsd.pbi_start_tvsec,
        r.memory_phys == memory_phys,
        (r.disk_bytes_read, r.disk_bytes_written) == disk,
        match task {
            Some(t) => {
                &&& r.thread_count == t.pti_threadnum
                &&& r.memory_rss == t.pti_resident_size
                &&& r.cpu_time_ns == (((t.pti_total_user + t.pti_total_system) * numer / (denom as int)) as u64)
                &&& r.faults == t.pti_faults
                &&& r.context_switches == t.pti_csw
                &&& r.syscalls_mach == t.pti_syscalls_mach
                &&& r.syscalls_unix == t.pti_syscalls_unix
            },
            None => {
                &&& r.thread_count == 0
                &&& r.memory_rss == 0
                &&& r.cpu_time_ns == 0
                &&& r.faults == 0
                &&& r.context_switches == 0
                &&& r.syscalls_mach == 0
                &&& r.syscalls_unix == 0
            },
        },
{
    let long = extract_c_string(bsd.pbi_name.as_slice());
    let name = if long.as_str().is_empty() { extract_c_string(bsd.pbi_comm.as_slice()) } else { long };
    let (thread_count, memory_rss, cpu_time_ns, faults, csw, sys_mach, sys_unix) = match task {
        Some(t) => (
            t.pti_threadnum,
            t.pti_resident_size,
            ticks_to_ns(t.pti_total_user + t.pti_total_system, numer, denom),
            t.pti_faults,
            t.pti_csw,
            t.pti_syscalls_mach,
            t.pti_syscalls_unix,
        ),
        None => (0, 0, 0, 0, 0, 0, 0),
    };
    ProcessInfo {
        ppid: bsd.pbi_ppid as i32,
        name,
        thread_count,
        memory_rss,
        memory_phys,
        cpu_time_ns,
        state: ProcessState::from_bsd_status(bsd.pbi_status),
        start_time: bsd.pbi_start_tvsec,
        faults,
        context_switches: csw,
        syscalls_mach: sys_mach,
        syscalls_unix: sys_unix,
        disk_bytes_read: disk.0,
        disk_bytes_written: disk.1,
    }
}

/// How many descriptors are vnodes (files), sockets, pipes and others.
pub open spec fn fdtype_tally(fds: Seq<FdInfo>) -> (nat, nat, nat, nat)
    decreases fds.len(),
{
    if fds.len() == 0 {
        (0, 0, 0, 0)
    } else {
        let (f, s, p, o) = fdtype_tally(fds.drop_last());
        let t = fds.last().fdtype;
        if t == raw::PROX_FDTYPE_VNODE {
            (f + 1, s, p, o)
        } else if t == raw::PROX_FDTYPE_SOCKET {
            (f, s + 1, p, o)
        } else if t == raw::PROX_FDTYPE_PIPE {
            (f, s, p + 1, o)
        } else {
            (f, s, p, o + 1)
        }
    }
}

/// The tally counts the descriptors by type: vnodes as files, sockets,
/// pipes, and every other type.
pub proof fn lemma_fdtype_counts(fds: Seq<FdInfo>)
    ensures
        fdtype_tally(fds).0 == fds.filter(|f: FdInfo| f.fdtype == raw::PROX_FDTYPE_VNODE).len(),
        fdtype_tally(fds).1 == fds.filter(|f: FdInfo| f.fdtype == raw::PROX_FDTYPE_SOCKET).len(),
        fdtype_tally(fds).2 == fds.filter(|f: FdInfo| f.fdtype == raw::PROX_FDTYPE_PIPE).len(),
        fdtype_tally(fds).3 == fds.filter(|f: FdInfo| f.fdtype != raw::PROX_FDTYPE_VNODE
            && f.fdtype != raw::PROX_FDTYPE_SOCKET && f.fdtype != raw::PROX_FDTYPE_PIPE).len(),
    decreases fds.len(),
{
    reveal(Seq::filter);
    if fds.len() > 0 {
        lemma_fdtype_counts(fds.drop_last());
    }
}

/// The numbers of vnodes, sockets, pipes and other descriptors.
pub fn count_fdtypes(fds: &Vec<FdInfo>) -> (r: (usize, usize, usize, usize))
    ensures
        (r.0 as nat, r.1 as nat, r.2 as nat, r.3 as nat) == fdtype_tally(fds@),
        r.0 + r.1 + r.2 + r.3 == fds@.len(),
{
    let mut f: usize = 0;
    let mut s: usize = 0;
    let mut p: usize = 0;
    let mut o: usize = 0;
    let mut i: usize = 0;
    while i < fds.len()
        invariant
            i <= fds@.len(),
            (f as nat, s as nat, p as nat, o as nat) == fdtype_tally(fds@.take(i as int)),
            f + s + p + o == i,
        decreases fds@.len() - i,
    {
        assert(fds@.take(i + 1).drop_last() =~= fds@.take(i as int));
        let t = fds[i].fdtype;
        if t == raw::PROX_FDTYPE_VNODE {
            f = f + 1;
        } else if t == raw::PROX_FDTYPE_SOCKET {
            s = s + 1;
        } else if t == raw::PROX_FDTYPE_PIPE {
            p = p + 1;
        } else {
            o = o + 1;
        }
        i = i + 1;
    }
    assert(fds@.take(i as int) =~= fds@);
    (f, s, p, o)
}

/// The detail of a process from its BSD record, its task record when it
/// could be read, the timebase ratio, its physical footprint, disk
/// counters, executable, working directory, environment, connections and
/// descriptors.
pub fn detail_of(
    pid: i32,
    parent_name: &str,
    bsd: &raw::ProcBsdInfo,
    task: Option<&raw::ProcTaskInfo>,
    numer: u32,
    denom: u32,
    memory_phys: u64,
    disk: (u64, u64),
    path: String,
    cwd: String,
    environment: Vec<(String, String)>,
    network: Vec<NetworkConnection>,
    fds: &Vec<FdInfo>,
) -> (r: ProcessDetail)
    requires
        denom > 0,
        match task {
            Some(t) => t.pti_total_user + t.pti_total_system <= u64::MAX,
            None => true,
        },
    ensures
        r.pid == pid,
        r.ppid == bsd.pbi_ppid as i32,
        r.parent_name@ == parent_name@,
        r.name@ == bsd_name(*bsd),
        r.path@ == path@,
        r.cwd@ == cwd@,
        r.user@ == "uid:"@ + nat_dec(bsd.pbi_uid as nat),
        r.uid == bsd.pbi_uid,
        r.state == convert_state_spec(bsd_state(bsd.pbi_status)),
        r.nice == bsd.pbi_nice,
        r.started_secs == bsd.pbi_start_tvsec,
        r.memory_phys == memory_phys,
        (r.fd_files as nat, r.fd_sockets as nat, r.fd_pipes as nat, r.fd_other as nat) == fdtype_tally(fds@),
        r.fd_total == fds@.len(),
        r.fd_total == r.fd_files + r.fd_sockets + r.fd_pipes + r.fd_other,
        (r.disk_bytes_read, r.disk_bytes_written) == disk,
        r.network@ == network@,
        r.environment@ == environment@,
        match task {
            Some(t) => {
                &&& r.thread_count == t.pti_threadnum
                &&& r.virtual_size == t.pti_virtual_size
                &&& r.memory_rss == t.pti_resident_size
                &&& r.cpu_time_ns == (((t.pti_total_user + t.pti_total_system) * numer / (denom as int)) as u64)
                &&& r.faults == t.pti_faults
                &&& r.context_switches == t.pti_csw
                &&& r.syscalls_mach == t.pti_syscalls_mach
                &&& r.syscalls_unix == t.pti_syscalls_unix
            },
            None => {
                &&& r.thread_count == 0
                &&& r.virtual_size == 0
                &&& r.memory_rss == 0
                &&& r.cpu_time_ns == 0
                &&& r.faults == 0
                &&& r.context_switches == 0
                &&& r.syscalls_mach == 0
                &&& r.syscalls_unix == 0
            },
        },
{
    let long = extract_c_string(bsd.pbi_name.as_slice());
    let name = if long.as_str().is_empty() { extract_c_string(bsd.pbi_comm.as_slice()) } else { long };
    let (thread_count, memory_rss, cpu_time_ns, virtual_size, faults, csw, sys_mach, sys_unix) = match task {
        Some(t) => (
            t.pti_threadnum,
            t.pti_resident_size,
            ticks_to_ns(t.pti_total_user + t.pti_total_system, numer, denom),
            t.pti_virtual_size,
            t.pti_faults,
            t.pti_csw,
            t.pti_syscalls_mach,
            t.pti_syscalls_unix,
        ),
        None => (0, 0, 0, 0, 0, 0, 0, 0),
    };
    let (fd_files, fd_sockets, fd_pipes, fd_other) = count_fdtypes(fds);
    let state = crate::backend::macos::convert_state(ProcessState::from_bsd_status(bsd.pbi_status));
    ProcessDetail {
        pid,
        ppid: bsd.pbi_ppid as i32,
        parent_name: parent_name.to_string(),
        name,
        path,
        cwd,
        user: get_username(bsd.pbi_uid),
        uid: bsd.pbi_uid,
        state,
        nice: bsd.pbi_nice,
        started_secs: bsd.pbi_start_tvsec,
        thread_count,
        virtual_size,
        memory_rss,
        memory_phys,
        cpu_time_ns,
        fd_files,
        fd_sockets,
        fd_pipes,
        fd_other,
        fd_total: fds.len(),
        faults,
        context_switches: csw,
        syscalls_mach: sys_mach,
        syscalls_unix: sys_unix,
        disk_bytes_read: disk.0,
        disk_bytes_written: disk.1,
        network,
        environment,
    }
}

} // verus!
