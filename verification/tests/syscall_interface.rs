use kernel::x86::io::Port;
use kernel::x86::segments::SegmentSelector;
use kernel::syscall;
use kernel::syscall::result::{result_from_code, SystemError};
use kernel::syscall::files::{DirEntryInfo, DirEntryType};

#[test]
fn error_codes_round_trip() {
    for e in [SystemError::Unknown, SystemError::BadFileDescriptor, SystemError::NoSuchDrive,
        SystemError::NoSuchEntity, SystemError::IOError, SystemError::MaxFilesExceeded] {
        assert_eq!(result_from_code(e.to_code()), Err(e));
    }
    assert_eq!(SystemError::NoSuchFileSystem.to_code(), 0x80000003);
    assert_eq!(SystemError::from_code(0x8001000a), SystemError::IOError);
    assert_eq!(SystemError::from_code(40), SystemError::Unknown);
    assert_eq!(result_from_code(0x1234), Ok(0x1234));
}

#[test]
fn request_registers() {
    let dup = syscall::dup(3);
    assert_eq!((dup.method, dup.arg0, dup.arg1, dup.arg2), (0x1d, 3, 0xffffffff, 0));
    let sbrk = syscall::sbrk(-16);
    assert_eq!((sbrk.method, sbrk.arg0, sbrk.arg1), (0x04, 1, 0xfffffff0));
    let wait = syscall::wait_pid(5, 0x4000);
    assert_eq!((wait.method, wait.arg0, wait.arg1), (0x09, 5, 0x4000));
    assert_eq!(syscall::exit(3).method, 0);
    assert_eq!(syscall::debug().method, 0xffff);
}

#[test]
fn empty_dir_entry() {
    let entry = DirEntryInfo::empty();
    assert!(entry.is_empty());
    assert_eq!(entry.file_name, [0x20; 8]);
    let file = DirEntryInfo { entry_type: DirEntryType::File, ..entry };
    assert!(!file.is_empty());
}

#[test]
fn segment_selectors_and_ports() {
    assert_eq!(SegmentSelector::new(3, 3).0, 0x1b);
    assert_eq!(SegmentSelector::new(4, 0).0, 0x20);
    assert_eq!(SegmentSelector::new(0x2001, 1).0, 0x9);
    assert_eq!(Port::new(0x3f8).number, 0x3f8);
}
