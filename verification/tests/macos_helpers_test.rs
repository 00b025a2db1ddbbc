use prexp::backend::macos::{
    classify_fd_detail, classify_fdtype, convert_state, core_kind, fd_resource, ffi_to_prexp,
    partial_snapshot, snapshot_from_info,
};
use prexp::error::PrexpError;
use prexp::ffi::process::{
    core_types, detail_of, errno_error, extract_c_string, process_info_of, format_sock_addr, get_username, socket_connection, tcp_state_name, ticks_to_ns,
    CoreType, FdDetail, FdInfo, FfiError, ProcessInfo, ProcessState as BsdState,
};
use prexp::ffi::raw::{self, In4In6Addr, InSockInfo, ProcBsdInfo, ProcTaskInfo};
use prexp::models::{ProcessState, ResourceKind};
use prexp::system::CpuKind;

fn addr(b: [u8; 4]) -> In4In6Addr {
    In4In6Addr { i46a_pad32: [0; 3], i46a_addr4: b }
}

fn sample_info() -> ProcessInfo {
    ProcessInfo {
        ppid: 1,
        name: "Finder".to_string(),
        thread_count: 12,
        memory_rss: 4096,
        memory_phys: 2048,
        cpu_time_ns: 99,
        state: BsdState::Running,
        start_time: 1_700_000_000,
        faults: 3,
        context_switches: 4,
        syscalls_mach: 5,
        syscalls_unix: 6,
        disk_bytes_read: 7,
        disk_bytes_written: 8,
    }
}

#[test]
fn fd_details_classify() {
    let d = FdDetail::Vnode { path: "/dev/ttys001".to_string() };
    assert_eq!(classify_fd_detail(&d), (ResourceKind::Device, Some("/dev/ttys001".to_string())));
    let d = FdDetail::Vnode { path: "/Users/a/file".to_string() };
    assert_eq!(classify_fd_detail(&d), (ResourceKind::File, Some("/Users/a/file".to_string())));
    let d = FdDetail::Vnode { path: String::new() };
    assert_eq!(classify_fd_detail(&d), (ResourceKind::File, None));
    let d = FdDetail::Socket { family: 2, socket_type: 1, protocol: 6 };
    assert_eq!(classify_fd_detail(&d), (ResourceKind::Socket, None));
    assert_eq!(classify_fd_detail(&FdDetail::Pipe), (ResourceKind::Pipe, None));
    assert_eq!(classify_fd_detail(&FdDetail::Kqueue), (ResourceKind::Kqueue, None));
    assert_eq!(classify_fd_detail(&FdDetail::Pshm), (ResourceKind::Unknown, None));
    assert_eq!(classify_fd_detail(&FdDetail::Psem), (ResourceKind::Unknown, None));
    assert_eq!(classify_fd_detail(&FdDetail::Unknown(77)), (ResourceKind::Unknown, None));
}

#[test]
fn fd_types_classify() {
    assert_eq!(classify_fdtype(raw::PROX_FDTYPE_VNODE), ResourceKind::File);
    assert_eq!(classify_fdtype(raw::PROX_FDTYPE_SOCKET), ResourceKind::Socket);
    assert_eq!(classify_fdtype(raw::PROX_FDTYPE_PIPE), ResourceKind::Pipe);
    assert_eq!(classify_fdtype(raw::PROX_FDTYPE_KQUEUE), ResourceKind::Kqueue);
    assert_eq!(classify_fdtype(raw::PROX_FDTYPE_PSHM), ResourceKind::Unknown);
    assert_eq!(classify_fdtype(999), ResourceKind::Unknown);
}

#[test]
fn fd_resources_with_and_without_detail() {
    let info = FdInfo { fd: 5, fdtype: raw::PROX_FDTYPE_SOCKET };
    let r = fd_resource(info, None);
    assert_eq!((r.descriptor, r.kind, r.path), (5, ResourceKind::Socket, None));
    let d = FdDetail::Vnode { path: "/tmp/x".to_string() };
    let r = fd_resource(info, Some(&d));
    assert_eq!((r.kind, r.path.as_deref()), (ResourceKind::File, Some("/tmp/x")));
}

#[test]
fn states_and_cores() {
    assert_eq!(BsdState::from_bsd_status(raw::SRUN), BsdState::Running);
    assert_eq!(BsdState::from_bsd_status(raw::SSLEEP), BsdState::Sleeping);
    assert_eq!(BsdState::from_bsd_status(raw::SSTOP), BsdState::Stopped);
    assert_eq!(BsdState::from_bsd_status(raw::SZOMB), BsdState::Zombie);
    assert_eq!(BsdState::from_bsd_status(raw::SIDL), BsdState::Idle);
    assert_eq!(BsdState::from_bsd_status(0), BsdState::Unknown);
    assert_eq!(convert_state(BsdState::Zombie), ProcessState::Zombie);
    assert_eq!(convert_state(BsdState::Idle), ProcessState::Idle);
    assert_eq!(core_kind(CoreType::Performance), CpuKind::Performance);
    assert_eq!(core_kind(CoreType::Efficiency), CpuKind::Efficiency);
    assert_eq!(core_kind(CoreType::Unknown), CpuKind::Unknown);
}

#[test]
fn interface_errors() {
    let e = errno_error("proc_pidinfo", 12, 3, "gone".to_string());
    assert!(matches!(e, FfiError::ProcessGone(12)));
    let e = errno_error("proc_pidinfo", 12, 13, "denied".to_string());
    assert!(matches!(e, FfiError::PermissionDenied(12)));
    let e = errno_error("proc_pidinfo", 12, 1, "denied".to_string());
    assert!(matches!(e, FfiError::PermissionDenied(12)));
    let e = errno_error("proc_pidinfo", 12, 22, "Invalid argument".to_string());
    assert_eq!(e.message(), "FFI call to proc_pidinfo failed for pid 12: Invalid argument");
    assert!(matches!(ffi_to_prexp(e), PrexpError::Backend(ref m) if m == "Invalid argument"));
    assert_eq!(FfiError::ProcessGone(4).message(), "process 4 has exited or does not exist");
    assert_eq!(FfiError::PermissionDenied(4).message(), "permission denied for process 4");
    assert!(matches!(ffi_to_prexp(FfiError::ProcessGone(4)), PrexpError::ProcessNotFound { pid: 4 }));
    assert!(matches!(ffi_to_prexp(FfiError::PermissionDenied(4)), PrexpError::PermissionDenied { pid: 4 }));
}

#[test]
fn timebase_conversion() {
    assert_eq!(ticks_to_ns(1000, 1, 1), 1000);
    assert_eq!(ticks_to_ns(1000, 125, 3), 41666);
    assert_eq!(ticks_to_ns(u64::MAX, 2, 1), u64::MAX - 1);
}

#[test]
fn tcp_names() {
    assert_eq!(tcp_state_name(raw::TCPS_CLOSED), "CLOSED");
    assert_eq!(tcp_state_name(raw::TCPS_LISTEN), "LISTEN");
    assert_eq!(tcp_state_name(raw::TCPS_SYN_RECEIVED), "SYN_RCVD");
    assert_eq!(tcp_state_name(raw::TCPS_FIN_WAIT_1), "FIN_WAIT_1");
    assert_eq!(tcp_state_name(raw::TCPS_TIME_WAIT), "TIME_WAIT");
    assert_eq!(tcp_state_name(11), "UNKNOWN");
    assert_eq!(tcp_state_name(-1), "UNKNOWN");
}

#[test]
fn socket_addresses() {
    assert_eq!(format_sock_addr(&addr([127, 0, 0, 1]), 8080, raw::INI_IPV4), "127.0.0.1:8080");
    assert_eq!(format_sock_addr(&addr([0, 0, 0, 0]), 80, raw::INI_IPV4), "*:80");
    assert_eq!(format_sock_addr(&addr([10, 1, 2, 3]), 0, raw::INI_IPV4), "10.1.2.3:*");
    assert_eq!(format_sock_addr(&addr([10, 1, 2, 3]), 443, raw::INI_IPV6), "*:443");
    assert_eq!(format_sock_addr(&addr([10, 1, 2, 3]), 443, raw::INI_IPV4 | raw::INI_IPV6), "10.1.2.3:443");
}

#[test]
fn usernames_and_c_strings() {
    assert_eq!(get_username(501), "uid:501");
    assert_eq!(extract_c_string(b"launchd\0garbage"), "launchd");
    assert_eq!(extract_c_string(b"no terminator"), "no terminator");
    assert_eq!(extract_c_string(b"\0abc"), "");
    assert_eq!(extract_c_string(b""), "");
    assert_eq!(extract_c_string(&[0x66, 0xff, 0x6f, 0]), "f\u{fffd}o");
}

#[test]
fn partial_snapshots() {
    let s = partial_snapshot(77, Some("ignored".to_string()), Some(sample_info()));
    assert_eq!(s.pid, 77);
    assert_eq!(s.ppid, 1);
    assert_eq!(s.name, "Finder");
    assert_eq!(s.state, ProcessState::Running);
    assert!(!s.accessible);
    assert_eq!((s.memory.rss, s.memory.phys), (4096, 2048));
    assert_eq!(s.activity.thread_count, 12);
    assert_eq!(s.activity.syscalls_unix, 6);
    assert_eq!((s.disk_io.bytes_read, s.disk_io.bytes_written), (7, 8));
    assert!(s.resources.is_empty());

    let s = partial_snapshot(77, Some("Dock".to_string()), None);
    assert_eq!(s.name, "Dock");
    assert_eq!(s.ppid, 0);
    assert_eq!(s.state, ProcessState::Unknown);
    let s = partial_snapshot(77, None, None);
    assert_eq!(s.name, "pid:77");
}

fn in_info(local: [u8; 4], lport: i32, remote: [u8; 4], fport: i32) -> InSockInfo {
    InSockInfo {
        insi_fport: fport,
        insi_lport: lport,
        insi_gencnt: 0,
        insi_flags: 0,
        insi_flow: 0,
        insi_vflag: raw::INI_IPV4,
        insi_ip_ttl: 64,
        rfu_1: 0,
        _rfu_pad: 0,
        insi_faddr: addr(remote),
        insi_laddr: addr(local),
    }
}

#[test]
fn socket_connections() {
    let i = in_info([127, 0, 0, 1], 5432, [10, 0, 0, 2], 50000);
    let c = socket_connection(2, 1, &i, raw::TCPS_ESTABLISHED);
    assert_eq!(c.proto, "tcp");
    assert_eq!(c.local_addr, "127.0.0.1:5432");
    assert_eq!(c.remote_addr.as_deref(), Some("10.0.0.2:50000"));
    assert_eq!(c.state.as_deref(), Some("ESTABLISHED"));

    let i = in_info([0, 0, 0, 0], 53, [0, 0, 0, 0], 0);
    let c = socket_connection(30, 2, &i, 0);
    assert_eq!(c.proto, "udp");
    assert_eq!(c.local_addr, "*:53");
    assert_eq!(c.remote_addr, None);
    assert_eq!(c.state, None);

    let c = socket_connection(1, 1, &i, 0);
    assert_eq!(c.proto, "sock(1)");
    assert_eq!(c.local_addr, "*");
    assert_eq!((c.remote_addr, c.state), (None, None));
}

#[test]
fn core_types_by_logical_id() {
    let pairs = vec![(2, CoreType::Efficiency), (0, CoreType::Performance), (2, CoreType::Performance)];
    let t = core_types(&pairs).unwrap();
    assert_eq!(t, vec![CoreType::Performance, CoreType::Unknown, CoreType::Performance]);
    let t = core_types(&vec![(0, CoreType::Efficiency)]).unwrap();
    assert_eq!(t, vec![CoreType::Efficiency]);
    match core_types(&Vec::new()) {
        Err(e) => assert_eq!(e.message(), "FFI call to IODeviceTree:/cpus failed for pid 0: no cpu nodes carried logical-cpu-id"),
        Ok(_) => panic!("no pairs should be an error"),
    }
}

fn bsd(comm: &[u8], name: &[u8]) -> ProcBsdInfo {
    let mut pbi_comm = [0u8; 16];
    pbi_comm[..comm.len()].copy_from_slice(comm);
    let mut pbi_name = [0u8; 32];
    pbi_name[..name.len()].copy_from_slice(name);
    ProcBsdInfo {
        pbi_flags: 0,
        pbi_status: raw::SSLEEP,
        pbi_xstatus: 0,
        pbi_pid: 99,
        pbi_ppid: 1,
        pbi_uid: 501,
        pbi_gid: 20,
        pbi_ruid: 501,
        pbi_rgid: 20,
        pbi_svuid: 501,
        pbi_svgid: 20,
        rfu_1: 0,
        pbi_comm,
        pbi_name,
        pbi_nfiles: 0,
        pbi_pgid: 0,
        pbi_pjobc: 0,
        e_tdev: 0,
        e_tpgid: 0,
        pbi_nice: 0,
        pbi_start_tvsec: 1_700_000_000,
        pbi_start_tvusec: 0,
    }
}

fn task() -> ProcTaskInfo {
    ProcTaskInfo {
        pti_virtual_size: 0,
        pti_resident_size: 8192,
        pti_total_user: 2400,
        pti_total_system: 600,
        pti_threads_user: 0,
        pti_threads_system: 0,
        pti_policy: 0,
        pti_faults: 11,
        pti_pageins: 0,
        pti_cow_faults: 0,
        pti_messages_sent: 0,
        pti_messages_received: 0,
        pti_syscalls_mach: 12,
        pti_syscalls_unix: 13,
        pti_csw: 14,
        pti_threadnum: 4,
        pti_numrunning: 0,
        pti_priority: 0,
    }
}

#[test]
fn process_info_from_records() {
    let b = bsd(b"short", b"A Long Name");
    let t = task();
    let i = process_info_of(&b, Some(&t), 125, 3, 4096, (5, 6));
    assert_eq!(i.ppid, 1);
    assert_eq!(i.name, "A Long Name");
    assert_eq!(i.state, BsdState::Sleeping);
    assert_eq!(i.start_time, 1_700_000_000);
    assert_eq!((i.thread_count, i.memory_rss, i.memory_phys), (4, 8192, 4096));
    assert_eq!(i.cpu_time_ns, 125_000);
    assert_eq!((i.faults, i.context_switches, i.syscalls_mach, i.syscalls_unix), (11, 14, 12, 13));
    assert_eq!((i.disk_bytes_read, i.disk_bytes_written), (5, 6));

    let b = bsd(b"short", b"");
    let i = process_info_of(&b, None, 1, 1, 0, (0, 0));
    assert_eq!(i.name, "short");
    assert_eq!((i.thread_count, i.memory_rss, i.cpu_time_ns, i.faults), (0, 0, 0, 0));
}

#[test]
fn detail_from_records() {
    let b = bsd(b"cmd", b"");
    let t = task();
    let fds = vec![
        FdInfo { fd: 0, fdtype: raw::PROX_FDTYPE_VNODE },
        FdInfo { fd: 1, fdtype: raw::PROX_FDTYPE_VNODE },
        FdInfo { fd: 2, fdtype: raw::PROX_FDTYPE_SOCKET },
        FdInfo { fd: 3, fdtype: raw::PROX_FDTYPE_KQUEUE },
    ];
    let env = vec![("LANG".to_string(), "C".to_string())];
    let d = detail_of(99, "launchd", &b, Some(&t), 1, 1, 10, (1, 2), "/bin/cmd".into(), "/".into(), env, Vec::new(), &fds);
    assert_eq!((d.pid, d.ppid, d.uid), (99, 1, 501));
    assert_eq!(d.name, "cmd");
    assert_eq!(d.user, "uid:501");
    assert_eq!(d.parent_name, "launchd");
    assert_eq!(d.state, ProcessState::Sleeping);
    assert_eq!(d.started_secs, 1_700_000_000);
    assert_eq!((d.cpu_time_ns, d.thread_count, d.memory_rss, d.memory_phys), (3000, 4, 8192, 10));
    assert_eq!((d.fd_files, d.fd_sockets, d.fd_pipes, d.fd_other, d.fd_total), (2, 1, 0, 1, 4));
    assert_eq!((d.disk_bytes_read, d.disk_bytes_written), (1, 2));
    assert_eq!(d.environment.len(), 1);
}

#[test]
fn snapshot_of_a_readable_process() {
    let r = fd_resource(FdInfo { fd: 3, fdtype: raw::PROX_FDTYPE_PIPE }, None);
    let s = snapshot_from_info(77, sample_info(), vec![r]);
    assert!(s.accessible);
    assert_eq!((s.pid, s.ppid, s.name.as_str()), (77, 1, "Finder"));
    assert_eq!(s.state, ProcessState::Running);
    assert_eq!(s.activity.context_switches, 4);
    assert_eq!(s.resources.len(), 1);
    assert_eq!(s.resources[0].kind, ResourceKind::Pipe);
}
