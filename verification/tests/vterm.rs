use kernel::hardware::vga::{Color, TextOp};
use kernel::memory::address::{PhysicalAddress, VirtualAddress};
use kernel::tty::device::TTYDeviceData;
use kernel::vterm::memory::MemoryBackup;
use kernel::vterm::router::VTermRouter;
use kernel::vterm::vterm::VTerm;

fn backup(n: u32) -> MemoryBackup {
    MemoryBackup {
        physical_address: PhysicalAddress::new(0xb8000),
        buffer_frame: PhysicalAddress::new(0x100000 + n * 0x1000),
        mapped_to: VirtualAddress::new(0xefc00000 + n * 0x1000),
    }
}

#[test]
fn memory_backups_by_page() {
    let term = VTerm::with_video_mode(3, backup(0));
    assert_eq!(term.get_memory_backup(PhysicalAddress::new(0xb8000)), Some(&backup(0)));
    assert_eq!(term.get_memory_backup(PhysicalAddress::new(0xb8fff)), Some(&backup(0)));
    assert_eq!(term.get_memory_backup(PhysicalAddress::new(0xa0000)), None);
    assert_eq!(term.get_memory_backup(PhysicalAddress::new(0xc0000)), None);
    assert_eq!(term.text_buffer, 0xefc00000);
    assert_eq!(backup(0).get_kernel_location(), VirtualAddress::new(0xc00b8000));
    assert_eq!(backup(2).get_buffer_physical_address(), PhysicalAddress::new(0x102000));
}

#[test]
fn control_characters_are_shown_with_a_caret() {
    let term = VTerm::with_video_mode(3, backup(0));
    assert_eq!(term.write_character(b'A'), vec![TextOp::WriteByte(b'A')]);
    assert_eq!(term.write_character(3), vec![TextOp::WriteByte(b'^'), TextOp::WriteByte(b'C')]);
    assert_eq!(term.handle_input(&[b'x', 1]), vec![
        TextOp::WriteByte(b'x'), TextOp::WriteByte(b'^'), TextOp::WriteByte(b'A'),
    ]);
}

#[test]
fn escape_sequences_reach_the_text_mode() {
    let mut term = VTerm::with_video_mode(3, backup(0));
    let ops = term.send_characters(b"a\x1b[32m");
    assert_eq!(ops, vec![
        TextOp::WriteByte(b'a'),
        TextOp::WriteByte(b'^'), TextOp::WriteByte(b'['),
        TextOp::WriteByte(b'['),
        TextOp::WriteByte(b'3'),
        TextOp::WriteByte(b'2'),
        TextOp::WriteByte(b'm'), TextOp::SetFgColor(Color::Green),
    ]);
    assert_eq!(term.scroll(2), TextOp::Scroll(2));
}

#[test]
fn router_switches_and_drains() {
    let backups = vec![backup(0), backup(1), backup(2)];
    let mut devices: Vec<TTYDeviceData> = Vec::new();
    let (mut router, ops) = VTermRouter::new(3, &backups, &mut devices);
    assert_eq!(ops, vec![TextOp::Scroll(2)]);
    assert_eq!(devices.len(), 3);
    assert_eq!(router.vterm_list[0].text_buffer, 0xc00b8000);
    assert_eq!(router.vterm_list[2].video_mode, 0x13);
    assert_eq!(router.set_active_vterm(2), Some(0x13));
    assert_eq!(router.active_vterm, 2);
    assert_eq!(router.vterm_list[0].text_buffer, 0xefc00000);
    assert_eq!(router.set_active_vterm(7), None);
    devices[1].write_buffer.write(kernel::files::handle::IOHandle::new(0), b"ok");
    let out = router.process_buffers(&mut devices);
    assert_eq!(out[1], vec![TextOp::WriteByte(b'o'), TextOp::WriteByte(b'k')]);
    assert!(out[0].is_empty());
    assert_eq!(devices[1].write_buffer.available_bytes(), 0);
}

#[test]
fn sending_in_pieces_matches_sending_at_once() {
    let mut whole = VTerm::with_video_mode(3, backup(0));
    let mut split = VTerm::with_video_mode(3, backup(1));
    let all = whole.send_characters(b"x\x1b[31my");
    let mut parts = split.send_characters(b"x\x1b[3");
    parts.extend(split.send_characters(b"1my"));
    assert_eq!(all, parts);
}
