use prexp::backend::linux::{
    count_targets, cpu_time_ns, detail_from_stat, fault_count, fd_resource, has_open_path, linux_state,
    memory_from_meminfo, parse_addr, parse_net_line, partial_snapshot, read_hex, rss_bytes,
    snapshot_from_stat, snapshot_step, space_char, split_chars, split_words, started_secs,
    switch_count, tcp_state, utf8_size, FdTarget, ProcStat, SnapshotStep,
};
use prexp::error::PrexpError;
use prexp::models::{ProcessState, ResourceKind};

fn chars(s: &str) -> Vec<char> {
    s.chars().collect()
}

fn strings(v: Vec<Vec<char>>) -> Vec<String> {
    v.into_iter().map(|w| w.into_iter().collect()).collect()
}

fn sample_stat() -> ProcStat {
    ProcStat {
        comm: "worker".to_string(),
        state: 'S',
        ppid: 1,
        minflt: 10,
        majflt: 5,
        utime: 150,
        stime: 50,
        nice: 0,
        num_threads: 3,
        starttime: 500,
        vsize: 1 << 20,
        rss: 25,
    }
}

#[test]
fn state_letters() {
    assert_eq!(linux_state('R'), ProcessState::Running);
    assert_eq!(linux_state('S'), ProcessState::Sleeping);
    assert_eq!(linux_state('D'), ProcessState::Sleeping);
    assert_eq!(linux_state('T'), ProcessState::Stopped);
    assert_eq!(linux_state('t'), ProcessState::Stopped);
    assert_eq!(linux_state('Z'), ProcessState::Zombie);
    assert_eq!(linux_state('X'), ProcessState::Zombie);
    assert_eq!(linux_state('I'), ProcessState::Idle);
    assert_eq!(linux_state('W'), ProcessState::Unknown);
}

#[test]
fn tcp_state_names() {
    assert_eq!(tcp_state(1), "ESTABLISHED");
    assert_eq!(tcp_state(6), "TIME_WAIT");
    assert_eq!(tcp_state(0x0A), "LISTEN");
    assert_eq!(tcp_state(0x0B), "CLOSING");
    assert_eq!(tcp_state(0), "UNKNOWN");
    assert_eq!(tcp_state(0x0C), "UNKNOWN");
}

#[test]
fn whitespace_splitting() {
    assert!(space_char(' '));
    assert!(space_char('\t'));
    assert!(space_char('\n'));
    assert!(space_char('\u{3000}'));
    assert!(!space_char('a'));
    assert_eq!(strings(split_words(&chars("  a bb\t\tccc \n"))), vec!["a", "bb", "ccc"]);
    assert!(split_words(&chars("   ")).is_empty());
    assert!(split_words(&chars("")).is_empty());
    let text = "x\u{2003}y  z";
    let expected: Vec<String> = text.split_whitespace().map(|s| s.to_string()).collect();
    assert_eq!(strings(split_words(&chars(text))), expected);
}

#[test]
fn separator_splitting() {
    assert_eq!(strings(split_chars(&chars("0100007F:0050"), ':')), vec!["0100007F", "0050"]);
    assert_eq!(strings(split_chars(&chars("a::b:"), ':')), vec!["a", "", "b", ""]);
    assert_eq!(strings(split_chars(&chars(""), ':')), vec![""]);
}

#[test]
fn hex_reading() {
    assert_eq!(read_hex(&chars("0050"), 0xffff), Some(80));
    assert_eq!(read_hex(&chars("ffff"), 0xffff), Some(65535));
    assert_eq!(read_hex(&chars("FFFF"), 0xffff), Some(65535));
    assert_eq!(read_hex(&chars("10000"), 0xffff), None);
    assert_eq!(read_hex(&chars(""), 0xffff), None);
    assert_eq!(read_hex(&chars("+a"), 0xffff), Some(10));
    assert_eq!(read_hex(&chars("+"), 0xffff), None);
    assert_eq!(read_hex(&chars("-1"), 0xffff), None);
    assert_eq!(read_hex(&chars("0g"), 0xffff), None);
    for s in ["0", "7f", "+ff", "abcd", "12345", "ffff", "00000000000000001"] {
        assert_eq!(read_hex(&chars(s), 0xffff), u16::from_str_radix(s, 16).ok().map(|v| v as u64), "{}", s);
    }
}

#[test]
fn utf8_sizes() {
    assert_eq!(utf8_size(&chars("abc")), 3);
    assert_eq!(utf8_size(&chars("é")), 2);
    assert_eq!(utf8_size(&chars("€")), 3);
    assert_eq!(utf8_size(&chars("😀")), 4);
    assert_eq!(utf8_size(&chars("")), 0);
}

#[test]
fn address_parsing() {
    assert_eq!(parse_addr("0100007F:0050").as_deref(), Some("127.0.0.1:80"));
    assert_eq!(parse_addr("00000000:0000").as_deref(), Some("0.0.0.0:0"));
    assert_eq!(parse_addr("0101A8C0:1F90").as_deref(), Some("192.168.1.1:8080"));
    assert_eq!(parse_addr("00000000000000000000000000000000:01BB").as_deref(), Some("[::ipv6]:443"));
    assert_eq!(parse_addr("0100007F"), None);
    assert_eq!(parse_addr("0100007F:0050:1"), None);
    assert_eq!(parse_addr("0100007F:10000"), None);
    assert_eq!(parse_addr("0100007:0050"), None);
    assert_eq!(parse_addr("0100007G:0050"), None);
}

#[test]
fn net_line_parsing() {
    let line = "   0: 0100007F:0050 00000000:0000 0A 00000000:00000000 00:00000000 00000000  1000 0 1 1";
    let c = parse_net_line(line, "tcp").unwrap();
    assert_eq!(c.proto, "tcp");
    assert_eq!(c.local_addr, "127.0.0.1:80");
    assert_eq!(c.remote_addr, None);
    assert_eq!(c.state.as_deref(), Some("LISTEN"));

    let line = "   1: 0101A8C0:C350 0201A8C0:01BB 01 0 0 0";
    let c = parse_net_line(line, "tcp6").unwrap();
    assert_eq!(c.remote_addr.as_deref(), Some("192.168.1.2:443"));
    assert_eq!(c.state.as_deref(), Some("ESTABLISHED"));

    let c = parse_net_line(line, "udp").unwrap();
    assert_eq!(c.proto, "udp");
    assert_eq!(c.state, None);

    let v6 = "0: 00000000000000000000000000000000:0035 00000000000000000000000000000000:0000 07";
    let c = parse_net_line(v6, "udp6").unwrap();
    assert_eq!(c.local_addr, "[::ipv6]:53");
    assert_eq!(c.remote_addr.as_deref(), Some("[::ipv6]:0"));

    assert!(parse_net_line("sl local_address rem_address st", "tcp").is_none());
    assert!(parse_net_line("0: 0100007F:0050 00000000:0000", "tcp").is_none());
    assert!(parse_net_line("0: 0100007F:0050 00000000:0000 ZZ", "tcp").is_none());
    assert!(parse_net_line("", "tcp").is_none());
}

#[test]
fn counters() {
    assert_eq!(cpu_time_ns(150, 50, 100), 2_000_000_000);
    assert_eq!(cpu_time_ns(1, 0, 0), 0);
    assert_eq!(cpu_time_ns(3, 4, 7), 1_000_000_000);
    assert_eq!(rss_bytes(25, 4096), 102400);
    assert_eq!(rss_bytes(0, 4096), 0);
    assert_eq!(fault_count(10, 5), 15);
    assert_eq!(fault_count(1 << 32, 5), 5);
    assert_eq!(fault_count(0x8000_0000, 0), i32::MIN);
    assert_eq!(switch_count(Some(3), Some(4), true), 7);
    assert_eq!(switch_count(Some(3), None, true), 3);
    assert_eq!(switch_count(Some(3), Some(4), false), 0);
    assert_eq!(started_secs(1000, 500, 100), 1005);
    assert_eq!(started_secs(1000, 500, 0), 0);
    assert_eq!(started_secs(1000, 499, 100), 1004);
}

#[test]
fn descriptor_resources() {
    let r = fd_resource(3, FdTarget::Path("/dev/null".to_string()));
    assert_eq!(r.descriptor, 3);
    assert_eq!(r.kind, ResourceKind::Device);
    assert_eq!(r.path.as_deref(), Some("/dev/null"));
    let r = fd_resource(4, FdTarget::Path("/home/user/notes.txt".to_string()));
    assert_eq!(r.kind, ResourceKind::File);
    let r = fd_resource(5, FdTarget::Path("/dev".to_string()));
    assert_eq!(r.kind, ResourceKind::File);
    let r = fd_resource(6, FdTarget::Socket);
    assert_eq!((r.kind, r.path), (ResourceKind::Socket, None));
    let r = fd_resource(7, FdTarget::Pipe);
    assert_eq!(r.kind, ResourceKind::Pipe);
    let r = fd_resource(8, FdTarget::Other);
    assert_eq!(r.kind, ResourceKind::Unknown);
}

#[test]
fn descriptor_tally() {
    let ts = vec![
        FdTarget::Path("/a".to_string()),
        FdTarget::Socket,
        FdTarget::Path("/dev/tty".to_string()),
        FdTarget::Pipe,
        FdTarget::Other,
        FdTarget::Socket,
    ];
    assert_eq!(count_targets(&ts), (2, 2, 1, 1, 6));
    assert_eq!(count_targets(&Vec::new()), (0, 0, 0, 0, 0));
}

#[test]
fn meminfo_conversion() {
    let m = memory_from_meminfo(1000, Some(300), 100);
    assert_eq!((m.total, m.used, m.free, m.wired, m.compressed), (1000, 700, 300, 0, 0));
    let m = memory_from_meminfo(1000, None, 100);
    assert_eq!((m.used, m.free), (900, 100));
    let m = memory_from_meminfo(100, Some(300), 0);
    assert_eq!(m.used, 0);
}

#[test]
fn snapshots_from_stat_and_fallback() {
    let st = sample_stat();
    let s = snapshot_from_stat(42, &st, 100, 4096, 7, Some((11, 22)), Vec::new());
    assert_eq!(s.pid, 42);
    assert_eq!(s.ppid, 1);
    assert_eq!(s.name, "worker");
    assert_eq!(s.state, ProcessState::Sleeping);
    assert!(s.accessible);
    assert_eq!(s.memory.rss, 102400);
    assert_eq!(s.memory.phys, 102400);
    assert_eq!(s.activity.cpu_time_ns, 2_000_000_000);
    assert_eq!(s.activity.thread_count, 3);
    assert_eq!(s.activity.faults, 15);
    assert_eq!(s.activity.context_switches, 7);
    assert_eq!((s.disk_io.bytes_read, s.disk_io.bytes_written), (11, 22));
    let s = snapshot_from_stat(42, &st, 100, 4096, 7, None, Vec::new());
    assert_eq!((s.disk_io.bytes_read, s.disk_io.bytes_written), (0, 0));

    let p = partial_snapshot(42, Some(&st));
    assert_eq!(p.name, "worker");
    assert!(!p.accessible);
    assert_eq!(p.memory.rss, 0);
    assert!(p.resources.is_empty());
    let p = partial_snapshot(-7, None);
    assert_eq!(p.name, "pid:-7");
    assert_eq!(p.ppid, 0);
    assert_eq!(p.state, ProcessState::Unknown);
}

#[test]
fn snapshot_steps() {
    let ok: Result<_, PrexpError> = Ok(partial_snapshot(1, None));
    assert_eq!(snapshot_step(&ok), SnapshotStep::Keep);
    assert_eq!(snapshot_step(&Err(PrexpError::ProcessNotFound { pid: 1 })), SnapshotStep::Skip);
    assert_eq!(snapshot_step(&Err(PrexpError::PermissionDenied { pid: 1 })), SnapshotStep::Partial);
    assert_eq!(snapshot_step(&Err(PrexpError::Backend("x".to_string()))), SnapshotStep::Partial);
    assert_eq!(snapshot_step(&Err(PrexpError::Io("x".to_string()))), SnapshotStep::Fail);
}

#[test]
fn open_path_lookup() {
    let st = sample_stat();
    let resources = vec![
        fd_resource(0, FdTarget::Path("/dev/pts/0".to_string())),
        fd_resource(3, FdTarget::Socket),
        fd_resource(4, FdTarget::Path("/var/log/app.log".to_string())),
    ];
    let s = snapshot_from_stat(9, &st, 100, 4096, 0, None, resources);
    assert!(has_open_path(&s, "/var/log/app.log"));
    assert!(has_open_path(&s, "/dev/pts/0"));
    assert!(!has_open_path(&s, "/var/log/app"));
    assert!(!has_open_path(&s, ""));
}

#[test]
fn detail_from_readings() {
    let st = sample_stat();
    let targets = vec![
        FdTarget::Path("/etc/hosts".to_string()),
        FdTarget::Path("/dev/null".to_string()),
        FdTarget::Socket,
        FdTarget::Other,
    ];
    let env = vec![("HOME".to_string(), "/root".to_string())];
    let d = detail_from_stat(
        42,
        &st,
        "init",
        "/usr/bin/worker".to_string(),
        "/srv".to_string(),
        "root".to_string(),
        0,
        100,
        4096,
        1_000,
        &targets,
        9,
        None,
        Vec::new(),
        env,
    );
    assert_eq!((d.pid, d.ppid, d.uid), (42, 1, 0));
    assert_eq!(d.parent_name, "init");
    assert_eq!(d.name, "worker");
    assert_eq!((d.path.as_str(), d.cwd.as_str(), d.user.as_str()), ("/usr/bin/worker", "/srv", "root"));
    assert_eq!(d.state, ProcessState::Sleeping);
    assert_eq!(d.started_secs, 1_005);
    assert_eq!(d.thread_count, 3);
    assert_eq!(d.virtual_size, 1 << 20);
    assert_eq!((d.memory_rss, d.memory_phys), (102400, 102400));
    assert_eq!(d.cpu_time_ns, 2_000_000_000);
    assert_eq!((d.fd_files, d.fd_sockets, d.fd_pipes, d.fd_other, d.fd_total), (2, 1, 0, 1, 4));
    assert_eq!((d.faults, d.context_switches), (15, 9));
    assert_eq!((d.disk_bytes_read, d.disk_bytes_written), (0, 0));
    assert_eq!(d.environment.len(), 1);
}
