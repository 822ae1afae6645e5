use kernel::files::cursor::SeekMethod;
use kernel::files::handle::LocalHandle;
use kernel::memory::address::PhysicalAddress;
use kernel::memory::page_table::PageTableReference;
use kernel::syscall::result::SystemError;
use kernel::syscalls;
use kernel::task::files::DriveID;
use kernel::task::switching::TaskMap;

fn tasks() -> TaskMap {
    TaskMap::initialize(PageTableReference::new(PhysicalAddress::new(0x1000)))
}

#[test]
fn brk_methods() {
    let mut tasks = tasks();
    assert_eq!(syscalls::exec::brk(&mut tasks, 0, 0x5000), Ok(0x5000));
    assert_eq!(syscalls::exec::brk(&mut tasks, 1, (-0x1000i32) as u32), Ok(0x4000));
    assert_eq!(syscalls::exec::brk(&mut tasks, 1, (-0x8000i32) as u32), Err(()));
    assert_eq!(syscalls::exec::brk(&mut tasks, 2, 0), Err(()));
}

#[test]
fn dup_through_syscall() {
    let mut tasks = tasks();
    tasks.processes[0].open_file(DriveID::new(1), LocalHandle::new(4));
    assert_eq!(syscalls::file::dup(&mut tasks, 0, 0xffffffff), Ok(1));
    assert_eq!(syscalls::file::dup(&mut tasks, 0, 5), Ok(5));
    assert_eq!(syscalls::file::dup(&mut tasks, 3, 0xffffffff), Err(SystemError::BadFileDescriptor));
    assert_eq!(syscalls::file::ioctl(0, 0, 0), Err(SystemError::IOError));
    assert_eq!(syscalls::file::pipe(), Err(SystemError::Unknown));
    assert_eq!(syscalls::file::seek_method(1, 0xfffffffe), SeekMethod::Relative(-2));
    assert_eq!(syscalls::file::seek_method(0, 12), SeekMethod::Absolute(12));
}

#[test]
fn current_drive() {
    let mut tasks = tasks();
    assert_eq!(syscalls::fs::set_current_drive(&mut tasks, None), Err(SystemError::NoSuchDrive));
    assert_eq!(syscalls::fs::set_current_drive(&mut tasks, Some(DriveID::new(3))), Ok(3));
    assert_eq!(syscalls::fs::get_current_drive_number(&tasks), Ok(3));
    let name = b"LONGDRIVENAME".to_vec();
    let mut buffer = vec![0u8; 10];
    assert_eq!(syscalls::fs::get_current_drive_name(Some(&name), &mut buffer), Ok(8));
    assert_eq!(&buffer[..8], b"LONGDRIV");
    assert_eq!(syscalls::fs::get_current_drive_name(None, &mut buffer), Err(SystemError::NoSuchDrive));
}

#[test]
fn pid_and_exit() {
    let mut tasks = tasks();
    assert_eq!(syscalls::exec::get_pid(&tasks), 0);
    assert_eq!(syscalls::exec::wait_pid(&mut tasks, 0).0, 0);
    assert_eq!(syscalls::exec::exit(&mut tasks, 1), None);
}
