use kernel::files::handle::IOHandle;
use kernel::hardware::vga::TextOp;
use kernel::input::{KeyAction, KeyCode, KeyKind};
use kernel::memory::address::{PhysicalAddress, VirtualAddress};
use kernel::task::id::ProcessID;
use kernel::tty::device::TTYDeviceData;
use kernel::tty::keyboard::KeyState as TerminalKeys;
use kernel::tty::router::{KeyResponse as TerminalResponse, TTYRouter};
use kernel::vterm::keys::KeyState as VTermKeys;
use kernel::vterm::memory::MemoryBackup;
use kernel::vterm::router::{KeyResponse as VTermResponse, VTermRouter};

const CODE_A: u8 = 0x41;
const CODE_C: u8 = 0x43;
const CODE_2: u8 = 0x32;

fn layout() -> Vec<(u8, u8)> {
    let mut l = vec![(0u8, 0u8); 0x60];
    l[CODE_A as usize] = (b'a', b'A');
    l[CODE_C as usize] = (b'c', b'C');
    l[0x30] = (b'0', b')');
    l[0x31] = (b'1', b'!');
    l[CODE_2 as usize] = (b'2', b'@');
    l[0x26] = (b'&', b'&');
    l
}

fn key(kind: KeyKind, code: u8) -> KeyCode {
    KeyCode { kind, code }
}

fn shift() -> KeyCode {
    key(KeyKind::Shift, 0x10)
}

fn alt() -> KeyCode {
    key(KeyKind::Alt, 0x12)
}

fn digit(d: u8) -> KeyCode {
    key(KeyKind::Num(d), 0x30 + d)
}

fn backup(n: u32) -> MemoryBackup {
    MemoryBackup {
        physical_address: PhysicalAddress::new(0xb8000),
        buffer_frame: PhysicalAddress::new(0x100000 + n * 0x1000),
        mapped_to: VirtualAddress::new(0xefc00000 + n * 0x1000),
    }
}

#[test]
fn shift_selects_the_shifted_character() {
    let layout = layout();
    let mut keys = TerminalKeys::new();
    let mut buffer = [0u8; 4];
    assert_eq!(keys.process_key_action(KeyAction::Press(shift()), &layout, &mut buffer), None);
    assert!(keys.shift);
    assert_eq!(buffer, [0, 0, 0, 0]);
    let a = key(KeyKind::Other, CODE_A);
    assert_eq!(keys.process_key_action(KeyAction::Press(a), &layout, &mut buffer), Some(1));
    assert_eq!(buffer[0], b'A');
    assert_eq!(keys.process_key_action(KeyAction::Release(shift()), &layout, &mut buffer), None);
    assert!(!keys.shift);
    assert_eq!(keys.process_key_action(KeyAction::Press(a), &layout, &mut buffer), Some(1));
    assert_eq!(buffer[0], b'a');
    assert_eq!(keys.process_key_action(KeyAction::Release(a), &layout, &mut buffer), None);
}

#[test]
fn terminal_keys_send_only_the_left_arrow_sequence() {
    let layout = layout();
    let keys = TerminalKeys::new();
    let mut buffer = [9u8; 4];
    assert_eq!(keys.key_code_to_ascii(key(KeyKind::ArrowLeft, 0x25), &layout, &mut buffer), 3);
    assert_eq!(buffer, [0x1b, b'[', b'D', 9]);
    assert_eq!(keys.key_code_to_ascii(key(KeyKind::ArrowUp, 0x26), &layout, &mut buffer), 1);
    assert_eq!(buffer[0], b'&');
    assert_eq!(keys.key_code_to_ascii(key(KeyKind::Other, 0x70), &layout, &mut buffer), 1);
    assert_eq!(buffer[0], 0);
}

#[test]
fn vterm_keys_send_arrows_and_break() {
    let layout = layout();
    let mut keys = VTermKeys::new();
    let mut buffer = [0u8; 4];
    assert_eq!(keys.key_code_to_ascii(key(KeyKind::ArrowUp, 0x26), &layout, &mut buffer), 3);
    assert_eq!(&buffer[0..3], &[0x1b, b'[', b'A']);
    assert_eq!(keys.key_code_to_ascii(key(KeyKind::ArrowRight, 0x27), &layout, &mut buffer), 3);
    assert_eq!(&buffer[0..3], &[0x1b, b'[', b'C']);
    let c = key(KeyKind::C, CODE_C);
    assert_eq!(keys.key_code_to_ascii(c, &layout, &mut buffer), 1);
    assert_eq!(buffer[0], b'c');
    let control = key(KeyKind::Control, 0x11);
    assert_eq!(keys.process_key_action(KeyAction::Press(control), &layout, &mut buffer), None);
    assert!(keys.ctrl);
    assert_eq!(keys.process_key_action(KeyAction::Press(c), &layout, &mut buffer), Some(1));
    assert_eq!(buffer[0], 0x03);
    keys.process_key_action(KeyAction::Release(control), &layout, &mut buffer);
    assert!(!keys.ctrl);
}

#[test]
fn vterm_router_switches_on_alt_and_digit() {
    let layout = layout();
    let backups = vec![backup(0), backup(1), backup(2)];
    let mut devices: Vec<TTYDeviceData> = Vec::new();
    let (mut router, _) = VTermRouter::new(3, &backups, &mut devices);
    assert_eq!(router.send_key_action(KeyAction::Press(alt()), &layout), VTermResponse::Typed(vec![]));
    assert!(router.key_state.alt);
    assert_eq!(router.send_key_action(KeyAction::Press(digit(2)), &layout), VTermResponse::Switch(Some(0x13)));
    assert_eq!(router.active_vterm, 2);
    assert_eq!(router.send_key_action(KeyAction::Press(digit(7)), &layout), VTermResponse::Switch(None));
    assert_eq!(router.active_vterm, 2);
    router.send_key_action(KeyAction::Release(alt()), &layout);
    assert!(!router.key_state.alt);
    let typed = router.send_key_action(KeyAction::Press(digit(2)), &layout);
    assert_eq!(typed, VTermResponse::Typed(vec![TextOp::WriteByte(b'2')]));
    assert_eq!(router.active_vterm, 2);
}

#[test]
fn vterm_router_sends_arrow_sequences_through_the_parser() {
    let layout = layout();
    let backups = vec![backup(0)];
    let mut devices: Vec<TTYDeviceData> = Vec::new();
    let (mut router, _) = VTermRouter::new(1, &backups, &mut devices);
    let typed = router.send_key_action(KeyAction::Press(key(KeyKind::ArrowUp, 0x26)), &layout);
    assert_eq!(typed, VTermResponse::Typed(vec![
        TextOp::WriteByte(b'^'), TextOp::WriteByte(b'['),
        TextOp::WriteByte(b'['),
        TextOp::WriteByte(b'A'), TextOp::MoveCursorRelative(0, -1),
    ]));
}

#[test]
fn terminal_router_types_at_the_active_terminal() {
    let layout = layout();
    let mut router = TTYRouter::new();
    assert_eq!(router.open_device(0, ProcessID::new(3)), Some(IOHandle::new(0)));
    let typed = router.send_key_action(KeyAction::Press(key(KeyKind::Other, CODE_A)), &layout);
    assert_eq!(typed, TerminalResponse::Typed(vec![TextOp::WriteByte(b'a'), TextOp::InvertCursor]));
    assert_eq!(router.tty_set[0].reader_buffer.buffer.available_bytes(), 1);
    assert_eq!(router.tty_set[0].tty.canonical_length, 1);
    assert_eq!(router.tty_set[1].reader_buffer.buffer.available_bytes(), 0);
}

#[test]
fn terminal_router_switches_on_alt_and_zero_or_one() {
    let layout = layout();
    let mut router = TTYRouter::new();
    router.send_key_action(KeyAction::Press(alt()), &layout);
    assert_eq!(router.send_key_action(KeyAction::Press(digit(1)), &layout), TerminalResponse::Switch(Some((0, 1))));
    assert_eq!(router.active_tty, 1);
    assert_eq!(router.send_key_action(KeyAction::Press(digit(1)), &layout), TerminalResponse::Switch(None));
    let typed = router.send_key_action(KeyAction::Press(digit(2)), &layout);
    assert_eq!(typed, TerminalResponse::Typed(vec![TextOp::WriteByte(b'2'), TextOp::InvertCursor]));
    assert_eq!(router.tty_set[1].reader_buffer.buffer.available_bytes(), 1);
    assert_eq!(router.tty_set[0].reader_buffer.buffer.available_bytes(), 0);
}
