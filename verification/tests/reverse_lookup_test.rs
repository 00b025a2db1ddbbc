use std::cell::RefCell;

use prexp::error::PrexpError;
use prexp::models::{
    DiskIo, OpenResource, ProcessActivity, ProcessDetail, ProcessMemory, ProcessSnapshot, ProcessState,
    ResourceKind,
};
use prexp::source::ProcessSource;
use prexp::system::{CpuTicks, DiskCounters, MemoryInfo, NetworkCounters};

/// Test double for ProcessSource with canned data.
struct FakeProcessSource {
    snapshots: RefCell<Vec<ProcessSnapshot>>,
}

impl FakeProcessSource {
    fn new(snapshots: Vec<ProcessSnapshot>) -> Self {
        Self { snapshots: RefCell::new(snapshots) }
    }
}

impl ProcessSource for FakeProcessSource {
    fn snapshot_all(&self) -> Result<Vec<ProcessSnapshot>, PrexpError> {
        Ok(self.snapshots.borrow().clone())
    }

    fn snapshot_pid(&self, pid: i32) -> Result<ProcessSnapshot, PrexpError> {
        self.snapshots
            .borrow()
            .iter()
            .find(|s| s.pid == pid)
            .cloned()
            .ok_or(PrexpError::ProcessNotFound { pid })
    }

    fn find_by_path(&self, path: &str) -> Result<Vec<ProcessSnapshot>, PrexpError> {
        Ok(self
            .snapshots
            .borrow()
            .iter()
            .filter(|s| s.resources.iter().any(|r| r.path.as_deref() == Some(path)))
            .cloned()
            .collect())
    }

    fn cpu_ticks(&self) -> Result<Vec<CpuTicks>, PrexpError> {
        Err(PrexpError::Backend("no cpu ticks in the test double".into()))
    }

    fn memory_info(&self) -> Result<MemoryInfo, PrexpError> {
        Err(PrexpError::Backend("no memory info in the test double".into()))
    }

    fn network_counters(&self) -> Result<NetworkCounters, PrexpError> {
        Err(PrexpError::Backend("no network counters in the test double".into()))
    }

    fn disk_counters(&self) -> Result<DiskCounters, PrexpError> {
        Err(PrexpError::Backend("no disk counters in the test double".into()))
    }

    fn process_detail(&self, pid: i32, _parent_name: &str) -> Result<ProcessDetail, PrexpError> {
        Err(PrexpError::ProcessNotFound { pid })
    }
}

fn resource(fd: i32, kind: ResourceKind, path: Option<&str>) -> OpenResource {
    OpenResource {
        descriptor: fd,
        kind,
        path: path.map(String::from),
    }
}

fn snapshot(pid: i32, name: &str, thread_count: i32, resources: Vec<OpenResource>) -> ProcessSnapshot {
    ProcessSnapshot {
        pid,
        ppid: 1,
        name: name.into(),
        state: ProcessState::Running,
        accessible: true,
        memory: ProcessMemory { rss: 1024 * 1024 * 50, phys: 1024 * 1024 * 30 },
        activity: ProcessActivity {
            cpu_time_ns: 1_000_000_000,
            thread_count,
            faults: 0,
            context_switches: 0,
            syscalls_mach: 0,
            syscalls_unix: 0,
        },
        disk_io: DiskIo { bytes_read: 0, bytes_written: 0 },
        resources,
    }
}

fn create_source_with_overlapping_paths() -> FakeProcessSource {
    FakeProcessSource::new(vec![
        snapshot(
            100,
            "nginx",
            8,
            vec![
                resource(3, ResourceKind::File, Some("/var/log/nginx/access.log")),
                resource(4, ResourceKind::File, Some("/var/log/nginx/error.log")),
                resource(5, ResourceKind::Socket, None),
            ],
        ),
        snapshot(
            200,
            "logrotate",
            1,
            vec![resource(3, ResourceKind::File, Some("/var/log/nginx/access.log"))],
        ),
        snapshot(
            300,
            "redis",
            4,
            vec![
                resource(3, ResourceKind::File, Some("/var/lib/redis/dump.rdb")),
                resource(4, ResourceKind::Socket, None),
            ],
        ),
    ])
}

#[test]
fn find_by_path_returns_matching_processes() {
    let source = create_source_with_overlapping_paths();

    let results = source.find_by_path("/var/log/nginx/access.log").unwrap();

    assert_eq!(results.len(), 2);
    let pids: Vec<i32> = results.iter().map(|s| s.pid).collect();
    assert!(pids.contains(&100));
    assert!(pids.contains(&200));
}

#[test]
fn find_by_path_excludes_non_matching_processes() {
    let source = create_source_with_overlapping_paths();

    let results = source.find_by_path("/var/log/nginx/access.log").unwrap();

    let pids: Vec<i32> = results.iter().map(|s| s.pid).collect();
    assert!(!pids.contains(&300), "redis should not match access.log");
}

#[test]
fn find_by_path_returns_empty_for_unknown_path() {
    let source = create_source_with_overlapping_paths();

    let results = source.find_by_path("/nonexistent/path").unwrap();

    assert!(results.is_empty());
}

#[test]
fn find_by_path_does_not_match_sockets() {
    let source = create_source_with_overlapping_paths();

    // Sockets have path: None, so no path should match them
    let results = source.find_by_path("").unwrap();
    assert!(results.is_empty());
}

#[test]
fn find_by_path_with_unique_path() {
    let source = create_source_with_overlapping_paths();

    let results = source.find_by_path("/var/lib/redis/dump.rdb").unwrap();

    assert_eq!(results.len(), 1);
    assert_eq!(results[0].pid, 300);
    assert_eq!(results[0].name, "redis");
}

#[test]
fn snapshot_pid_returns_matching_process() {
    let source = create_source_with_overlapping_paths();

    let snap = source.snapshot_pid(100).unwrap();

    assert_eq!(snap.pid, 100);
    assert_eq!(snap.name, "nginx");
    assert_eq!(snap.resources.len(), 3);
}

#[test]
fn snapshot_pid_returns_error_for_unknown_pid() {
    let source = create_source_with_overlapping_paths();

    let result = source.snapshot_pid(999);

    assert!(result.is_err());
    assert!(matches!(
        result.unwrap_err(),
        PrexpError::ProcessNotFound { pid: 999 }
    ));
}
