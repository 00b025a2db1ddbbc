use prexp::ffi::raw;

#[test]
fn struct_sizes_are_reasonable() {
    // ProcFdInfo: i32 + u32 = 8 bytes
    assert_eq!(std::mem::size_of::<raw::ProcFdInfo>(), 8);

    // ProcFileInfo: u32 + u32 + i64 + i32 + u32 = 24 bytes
    assert_eq!(std::mem::size_of::<raw::ProcFileInfo>(), 24);

    // VnodeFdInfoWithPath should be large enough to hold the path buffer
    assert!(std::mem::size_of::<raw::VnodeFdInfoWithPath>() > 1024);

    // PipeFdInfo should be at least ProcFileInfo + PipeInfo
    assert!(std::mem::size_of::<raw::PipeFdInfo>() > std::mem::size_of::<raw::ProcFileInfo>());

    // ProcBsdInfo and ProcTaskInfo should be non-trivial
    assert!(std::mem::size_of::<raw::ProcBsdInfo>() > 100);
    assert!(std::mem::size_of::<raw::ProcTaskInfo>() > 50);
}
