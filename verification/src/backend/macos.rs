//! The macOS backend's reading of what the process-information interface
//! reports: descriptor kinds, states, errors and partial snapshots.
use vstd::prelude::*;

use crate::error::PrexpError;
use crate::ffi::process::{convert_state_spec, CoreType, FdDetail, FdInfo, FfiError, ProcessInfo};
use crate::ffi::raw;
use crate::models::{DiskIo, OpenResource, ProcessActivity, ProcessMemory, ProcessSnapshot, ProcessState, ResourceKind};
use crate::system::CpuKind;
use crate::text::{chars_of, int_dec, push_i64, push_str};

use super::linux::opt_chars;

verus! {

/// The kind and path of a resolved descriptor: a vnode under `/dev/` is a
/// device, another vnode a file (no path when the path is empty).
pub open spec fn detail_resource(d: FdDetail) -> (ResourceKind, Option<Seq<char>>) {
    match d {
        FdDetail::Vnode { path } => (
            if path@.len() >= 5 && path@.take(5) == "/dev/"@ { ResourceKind::Device } else { ResourceKind::File },
            if path@.len() == 0 { None } else { Some(path@) },
        ),
        FdDetail::Socket { .. } => (ResourceKind::Socket, None),
        FdDetail::Pipe => (ResourceKind::Pipe, None),
        FdDetail::Kqueue => (ResourceKind::Kqueue, None),
        FdDetail::Pshm | FdDetail::Psem => (ResourceKind::Unknown, None),
        FdDetail::Unknown(_) => (ResourceKind::Unknown, None),
    }
}

/// The kind and path of a resolved descriptor.
pub fn classify_fd_detail(detail: &FdDetail) -> (r: (ResourceKind, Option<String>))
    ensures
        r.0 == detail_resource(*detail).0,
        opt_chars(r.1) == detail_resource(*detail).1,
{
    match detail {
        FdDetail::Vnode { path } => {
            let c = chars_of(path.as_str());
            let dev = chars_of("/dev/");
            proof { reveal_strlit("/dev/"); }
            let is_dev = c.len() >= 5 && c[0] == dev[0] && c[1] == dev[1] && c[2] == dev[2] && c[3] == dev[3]
                && c[4] == dev[4];
            assert(is_dev == (path@.len() >= 5 && path@.take(5) == "/dev/"@)) by {
                if path@.len() >= 5 && is_dev {
                    assert(path@.take(5) =~= "/dev/"@);
                }
            }
            let kind = if is_dev { ResourceKind::Device } else { ResourceKind::File };
            let p = if path.as_str().is_empty() { None } else { Some(path.clone()) };
            (kind, p)
        },
        FdDetail::Socket { .. } => (ResourceKind::Socket, None),
        FdDetail::Pipe => (ResourceKind::Pipe, None),
        FdDetail::Kqueue => (ResourceKind::Kqueue, None),
        FdDetail::Pshm | FdDetail::Psem => (ResourceKind::Unknown, None),
        FdDetail::Unknown(_) => (ResourceKind::Unknown, None),
    }
}

/// The kind of a descriptor type number.
pub open spec fn fdtype_kind(fdtype: u32) -> ResourceKind {
    if fdtype == raw::PROX_FDTYPE_VNODE {
        ResourceKind::File
    } else if fdtype == raw::PROX_FDTYPE_SOCKET {
        ResourceKind::Socket
    } else if fdtype == raw::PROX_FDTYPE_PIPE {
        ResourceKind::Pipe
    } else if fdtype == raw::PROX_FDTYPE_KQUEUE {
        ResourceKind::Kqueue
    } else {
        ResourceKind::Unknown
    }
}

/// The kind of a descriptor type number.
pub fn classify_fdtype(fdtype: u32) -> (r: ResourceKind)
    ensures
        r == fdtype_kind(fdtype),
{
    if fdtype == raw::PROX_FDTYPE_VNODE {
        ResourceKind::File
    } else if fdtype == raw::PROX_FDTYPE_SOCKET {
        ResourceKind::Socket
    } else if fdtype == raw::PROX_FDTYPE_PIPE {
        ResourceKind::Pipe
    } else if fdtype == raw::PROX_FDTYPE_KQUEUE {
        ResourceKind::Kqueue
    } else {
        ResourceKind::Unknown
    }
}

/// The same state in the model of the explorer.
pub fn convert_state(s: crate::ffi::process::ProcessState) -> (r: ProcessState)
    ensures
        r == convert_state_spec(s),
{
    match s {
        crate::ffi::process::ProcessState::Running => ProcessState::Running,
        crate::ffi::process::ProcessState::Sleeping => ProcessState::Sleeping,
        crate::ffi::process::ProcessState::Stopped => ProcessState::Stopped,
        crate::ffi::process::ProcessState::Zombie => ProcessState::Zombie,
        crate::ffi::process::ProcessState::Idle => ProcessState::Idle,
        crate::ffi::process::ProcessState::Unknown => ProcessState::Unknown,
    }
}

/// The explorer's error for an interface error.
pub fn ffi_to_prexp(err: FfiError) -> (r: PrexpError)
    ensures
        match err {
            FfiError::ProcessGone(pid) => r == PrexpError::ProcessNotFound { pid },
            FfiError::PermissionDenied(pid) => r == PrexpError::PermissionDenied { pid },
            FfiError::SystemError { reason, .. } => r is Backend && r->Backend_0@ == reason@,
        },
{
    match err {
        FfiError::ProcessGone(pid) => PrexpError::ProcessNotFound { pid },
        FfiError::PermissionDenied(pid) => PrexpError::PermissionDenied { pid },
        FfiError::SystemError { reason, .. } => PrexpError::Backend(reason),
    }
}

/// The resource of a descriptor: from its resolved detail, or only from its
/// type when it could not be resolved (it may have closed meanwhile).
pub fn fd_resource(info: FdInfo, detail: Option<&FdDetail>) -> (r: OpenResource)
    ensures
        r.descriptor == info.fd,
        match detail {
            Some(d) => r.kind == detail_resource(*d).0 && opt_chars(r.path) == detail_resource(*d).1,
            None => r.kind == fdtype_kind(info.fdtype) && r.path is None,
        },
{
    match detail {
        Some(d) => {
            let (kind, path) = classify_fd_detail(d);
            OpenResource { descriptor: info.fd, kind, path }
        },
        None => OpenResource { descriptor: info.fd, kind: classify_fdtype(info.fdtype), path: None },
    }
}

/// The resources of a process's descriptors, one per descriptor in order:
/// each from its resolved detail where `details` holds one, else only from
/// its type.
pub fn resolve_all_fds(fds: &Vec<FdInfo>, details: &Vec<Option<FdDetail>>) -> (r: Vec<OpenResource>)
    requires
        fds@.len() == details@.len(),
    ensures
        r@.len() == fds@.len(),
        forall|k: int| 0 <= k < fds@.len() ==> {
            &&& (#[trigger] r@[k]).descriptor == fds@[k].fd
            &&& match details@[k] {
                Some(d) => r@[k].kind == detail_resource(d).0 && opt_chars(r@[k].path) == detail_resource(d).1,
                None => r@[k].kind == fdtype_kind(fds@[k].fdtype) && r@[k].path is None,
            }
        },
{
    let mut out: Vec<OpenResource> = Vec::new();
    let mut k: usize = 0;
    while k < fds.len()
        invariant
            fds@.len() == details@.len(),
            k <= fds@.len(),
            out@.len() == k,
            forall|m: int| 0 <= m < k ==> {
                &&& (#[trigger] out@[m]).descriptor == fds@[m].fd
                &&& match details@[m] {
                    Some(d) => out@[m].kind == detail_resource(d).0 && opt_chars(out@[m].path) == detail_resource(d).1,
                    None => out@[m].kind == fdtype_kind(fds@[m].fdtype) && out@[m].path is None,
                }
            },
        decreases fds@.len() - k,
    {
        let info = FdInfo { fd: fds[k].fd, fdtype: fds[k].fdtype };
        let res = match &details[k] {
            Some(d) => fd_resource(info, Some(d)),
            None => fd_resource(info, None),
        };
        out.push(res);
        k = k + 1;
    }
    out
}

/// The cluster kind of a core.
pub fn core_kind(c: CoreType) -> (r: CpuKind)
    ensures
        r == match c {
            CoreType::Performance => CpuKind::Performance,
            CoreType::Efficiency => CpuKind::Efficiency,
            CoreType::Unknown => CpuKind::Unknown,
        },
{
    match c {
        CoreType::Performance => CpuKind::Performance,
        CoreType::Efficiency => CpuKind::Efficiency,
        CoreType::Unknown => CpuKind::Unknown,
    }
}

/// The snapshot of a process whose descriptors could not be listed: from
/// its process information when that could be read, else only its name
/// The snapshot of a readable process: its metadata and its resources.
pub fn snapshot_from_info(pid: i32, info: ProcessInfo, resources: Vec<OpenResource>) -> (r: ProcessSnapshot)
    ensures
        r.pid == pid,
        r.accessible,
        r.ppid == info.ppid,
        r.name@ == info.name@,
        r.state == convert_state_spec(info.state),
        r.memory == (ProcessMemory { rss: info.memory_rss, phys: info.memory_phys }),
        r.activity == (ProcessActivity {
            cpu_time_ns: info.cpu_time_ns,
            thread_count: info.thread_count,
            faults: info.faults,
            context_switches: info.context_switches,
            syscalls_mach: info.syscalls_mach,
            syscalls_unix: info.syscalls_unix,
        }),
        r.disk_io == (DiskIo { bytes_read: info.disk_bytes_read, bytes_written: info.disk_bytes_written }),
        r.resources@ == resources@,
{
    ProcessSnapshot {
        pid,
        ppid: info.ppid,
        name: info.name,
        state: convert_state(info.state),
        accessible: true,
        memory: ProcessMemory { rss: info.memory_rss, phys: info.memory_phys },
        activity: ProcessActivity {
            cpu_time_ns: info.cpu_time_ns,
            thread_count: info.thread_count,
            faults: info.faults,
            context_switches: info.context_switches,
            syscalls_mach: info.syscalls_mach,
            syscalls_unix: info.syscalls_unix,
        },
        disk_io: DiskIo { bytes_read: info.disk_bytes_read, bytes_written: info.disk_bytes_written },
        resources,
    }
}

/// (`pid:<pid>` when even that failed).
pub fn partial_snapshot(pid: i32, name: Option<String>, info: Option<ProcessInfo>) -> (r: ProcessSnapshot)
    ensures
        r.pid == pid,
        !r.accessible,
        r.resources@.len() == 0,
        match info {
            Some(i) => r.ppid == i.ppid && r.name@ == i.name@ && r.state == convert_state_spec(i.state)
                && r.memory == (ProcessMemory { rss: i.memory_rss, phys: i.memory_phys })
                && r.activity == (ProcessActivity {
                    cpu_time_ns: i.cpu_time_ns,
                    thread_count: i.thread_count,
                    faults: i.faults,
                    context_switches: i.context_switches,
                    syscalls_mach: i.syscalls_mach,
                    syscalls_unix: i.syscalls_unix,
                })
                && r.disk_io == (DiskIo { bytes_read: i.disk_bytes_read, bytes_written: i.disk_bytes_written }),
            None => r.ppid == 0 && r.state == ProcessState::Unknown
                && r.name@ == (match name { Some(n) => n@, None => "pid:"@ + int_dec(pid as int) })
                && r.memory == (ProcessMemory { rss: 0, phys: 0 })
                && r.activity == (ProcessActivity {
                    cpu_time_ns: 0, thread_count: 0, faults: 0, context_switches: 0, syscalls_mach: 0, syscalls_unix: 0,
                })
                && r.disk_io == (DiskIo { bytes_read: 0, bytes_written: 0 }),
        },
{
    match info {
        Some(i) => ProcessSnapshot {
            pid,
            ppid: i.ppid,
            name: i.name,
            state: convert_state(i.state),
            accessible: false,
            memory: ProcessMemory { rss: i.memory_rss, phys: i.memory_phys },
            activity: ProcessActivity {
                cpu_time_ns: i.cpu_time_ns,
                thread_count: i.thread_count,
                faults: i.faults,
                context_switches: i.context_switches,
                syscalls_mach: i.syscalls_mach,
                syscalls_unix: i.syscalls_unix,
            },
            disk_io: DiskIo { bytes_read: i.disk_bytes_read, bytes_written: i.disk_bytes_written },
            resources: Vec::new(),
        },
        None => {
            let n = match name {
                Some(n) => n,
                None => {
                    let mut s = String::new();
                    push_str(&mut s, "pid:");
                    push_i64(&mut s, pid as i64);
                    s
                },
            };
            ProcessSnapshot {
                pid,
                ppid: 0,
                name: n,
                state: ProcessState::Unknown,
                accessible: false,
                memory: ProcessMemory { rss: 0, phys: 0 },
                activity: ProcessActivity {
                    cpu_time_ns: 0,
                    thread_count: 0,
                    faults: 0,
                    context_switches: 0,
                    syscalls_mach: 0,
                    syscalls_unix: 0,
                },
                disk_io: DiskIo { bytes_read: 0, bytes_written: 0 },
                resources: Vec::new(),
            }
        },
    }
}

} // verus!
