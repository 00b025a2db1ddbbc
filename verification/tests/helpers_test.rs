use prexp::backend::macos::resolve_all_fds;
use prexp::ffi::process::{detail_by_type, found_pids, FdDetail, FdInfo};
use prexp::ffi::raw;
use prexp::models::ResourceKind;
use prexp::username::user_label;

#[test]
fn user_label_prefers_the_account_name() {
    assert_eq!(user_label(0, Some("root".to_string())), "root");
    assert_eq!(user_label(1000, None), "1000");
    assert_eq!(user_label(u32::MAX, None), "4294967295");
}

#[test]
fn found_pids_keep_reported_positive_entries() {
    let buf = vec![5, 0, -1, 7, 9, 11];
    assert_eq!(found_pids(buf.clone(), 4), vec![5, 7]);
    assert_eq!(found_pids(buf.clone(), 0), Vec::<i32>::new());
    assert_eq!(found_pids(buf.clone(), -3), Vec::<i32>::new());
    assert_eq!(found_pids(buf, 100), vec![5, 7, 9, 11]);
}

#[test]
fn resolve_all_fds_falls_back_to_the_type() {
    let fds = vec![
        FdInfo { fd: 3, fdtype: raw::PROX_FDTYPE_SOCKET },
        FdInfo { fd: 4, fdtype: raw::PROX_FDTYPE_SOCKET },
    ];
    let details = vec![None, Some(FdDetail::Vnode { path: "/dev/null".to_string() })];
    let r = resolve_all_fds(&fds, &details);
    assert_eq!(r.len(), 2);
    assert_eq!((r[0].descriptor, r[0].kind, r[0].path.clone()), (3, ResourceKind::Socket, None));
    assert_eq!((r[1].descriptor, r[1].kind, r[1].path.as_deref()), (4, ResourceKind::Device, Some("/dev/null")));
}

#[test]
fn detail_by_type_decides_only_lookup_free_types() {
    assert!(detail_by_type(raw::PROX_FDTYPE_VNODE).is_none());
    assert!(detail_by_type(raw::PROX_FDTYPE_SOCKET).is_none());
    assert!(detail_by_type(raw::PROX_FDTYPE_PIPE).is_none());
    assert!(matches!(detail_by_type(raw::PROX_FDTYPE_KQUEUE), Some(FdDetail::Kqueue)));
    assert!(matches!(detail_by_type(raw::PROX_FDTYPE_PSHM), Some(FdDetail::Pshm)));
    assert!(matches!(detail_by_type(raw::PROX_FDTYPE_PSEM), Some(FdDetail::Psem)));
    assert!(matches!(detail_by_type(42), Some(FdDetail::Unknown(42))));
}
