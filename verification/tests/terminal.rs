use kernel::files::handle::IOHandle;
use kernel::hardware::vga::{Color, TextOp};
use kernel::task::id::ProcessID;
use kernel::tty::buffers::{ReadProgress, TTYReaderBuffer, TTYWriterBuffer, TTYReadWriteBuffers};
use kernel::tty::device::{create_tty, get_write_buffer, TTYDevice, TTYDeviceData};
use kernel::tty::parser::ParseState;
use kernel::tty::router::TTYRouter;
use kernel::tty::tty::{ReadMode, TTY};

#[test]
fn printable_bytes_are_written() {
    let mut tty = TTY::new();
    assert_eq!(tty.send_data(b'a'), vec![TextOp::WriteByte(b'a'), TextOp::InvertCursor]);
    assert_eq!(tty.send_data(8), vec![
        TextOp::InvertCursor,
        TextOp::MoveCursorRelative(-1, 0),
        TextOp::WriteByte(b' '),
        TextOp::MoveCursorRelative(-1, 0),
        TextOp::InvertCursor,
    ]);
}

#[test]
fn escape_sequences_drive_the_screen() {
    let mut tty = TTY::new();
    assert!(tty.send_data(0x1b).is_empty());
    assert!(tty.send_data(b'[').is_empty());
    assert_eq!(tty.parse_state, ParseState::CSI);
    assert_eq!(tty.send_data(b'3'), vec![TextOp::DisableCursor, TextOp::InvertCursor]);
    assert_eq!(tty.send_data(b'1'), vec![TextOp::DisableCursor, TextOp::InvertCursor]);
    assert_eq!(tty.get_csi_arg(0, 0), 31);
    assert_eq!(tty.send_data(b'm'), vec![
        TextOp::DisableCursor,
        TextOp::SetFgColor(Color::Red),
        TextOp::InvertCursor,
    ]);
    assert_eq!(tty.parse_state, ParseState::Ready);
    for b in [0x1bu8, b'[', b'2', b'A'] {
        let ops = tty.send_data(b);
        if b == b'A' {
            assert_eq!(ops, vec![TextOp::DisableCursor, TextOp::MoveCursorRelative(0, -2), TextOp::InvertCursor]);
        }
    }
    for b in [0x1bu8, b'[', b'2', b'J'] {
        let ops = tty.send_data(b);
        if b == b'J' {
            assert_eq!(ops, vec![TextOp::DisableCursor, TextOp::ClearScreen, TextOp::InvertCursor]);
        }
    }
}

#[test]
fn canonical_input_tracks_the_line() {
    let mut tty = TTY::new();
    assert!(tty.is_canonical_mode());
    // a backspace at the start of a line erases nothing
    assert!(tty.handle_input(8).is_empty());
    tty.handle_input(b'h');
    tty.handle_input(b'i');
    assert_eq!(tty.canonical_length, 2);
    assert_eq!(tty.handle_input(8).len(), 5);
    assert_eq!(tty.canonical_length, 1);
    tty.handle_input(b'\n');
    assert_eq!(tty.canonical_length, 0);
    tty.echo = false;
    assert!(tty.handle_input(b'x').is_empty());
    tty.read_mode = ReadMode::Raw;
    tty.reset_canonical_length();
    tty.handle_input(b'y');
    assert_eq!(tty.canonical_length, 0);
}

#[test]
fn reader_collects_a_line() {
    let mut reader = TTYReaderBuffer::new();
    reader.add_data(b"ab");
    reader.add_data(&[8]);
    reader.add_data(b"c\nrest");
    let mut dest = [0u8; 8];
    let start = ReadProgress { bytes_read: 0, last_byte: 0 };
    let progress = reader.read(&mut dest, start);
    assert_eq!(progress, ReadProgress { bytes_read: 3, last_byte: b'\n' });
    assert!(reader.read_finished(progress, dest.len()));
    assert_eq!(&dest[..3], b"ac\n");
    assert_eq!(reader.buffer.available_bytes(), 4);
}

#[test]
fn reader_waits_for_more_input() {
    let mut reader = TTYReaderBuffer::new();
    reader.add_data(b"ab");
    let mut dest = [0u8; 8];
    let progress = reader.read(&mut dest, ReadProgress { bytes_read: 0, last_byte: 0 });
    assert_eq!(progress.bytes_read, 2);
    assert!(!reader.read_finished(progress, dest.len()));
    reader.add_data(b"\n");
    let progress = reader.read(&mut dest, progress);
    assert_eq!(progress.bytes_read, 3);
    assert!(reader.read_finished(progress, dest.len()));
}

#[test]
fn writer_and_device_buffers() {
    let mut writer = TTYWriterBuffer::new();
    assert_eq!(writer.write(IOHandle::new(1), b"hello"), 5);
    assert_eq!(writer.available_bytes(), 5);
    let mut out = [0u8; 2];
    assert_eq!(writer.read(&mut out), 2);
    assert_eq!(&out, b"he");

    let mut both = TTYReadWriteBuffers::new();
    assert_eq!(both.write(b"xyz"), 3);
    let mut none = [0u8; 2];
    assert_eq!(both.read(&mut none), 0);

    let mut devices: Vec<TTYDeviceData> = Vec::new();
    assert_eq!(create_tty(&mut devices), 0);
    assert_eq!(create_tty(&mut devices), 1);
    assert_eq!(TTYDevice::for_tty(1).tty_id, 1);
    let handle = devices[1].open(ProcessID::new(4)).unwrap();
    assert_eq!(handle, IOHandle::new(1));
    assert_eq!(devices[1].write(handle, b"ls\n"), Ok(3));
    assert_eq!(get_write_buffer(&devices, 1).available_bytes(), 3);
    assert_eq!(devices[1].close(handle), Ok(()));
    assert_eq!(devices[0].close(handle), Err(()));
}

#[test]
fn router_displays_written_data() {
    let mut router = TTYRouter::new();
    assert_eq!(router.tty_count(), 2);
    assert_eq!(router.open_device(1, ProcessID::new(2)), Some(IOHandle::new(0)));
    assert_eq!(router.open_device(5, ProcessID::new(2)), None);
    assert_eq!(router.tty_set[0].buffers.write(b"hi"), 2);
    let ops = router.process_buffers();
    assert_eq!(ops[0], vec![
        TextOp::WriteByte(b'h'), TextOp::InvertCursor,
        TextOp::WriteByte(b'i'), TextOp::InvertCursor,
    ]);
    assert!(ops[1].is_empty());
    assert_eq!(router.set_active_tty(1), Some((0, 1)));
    assert_eq!(router.set_active_tty(1), None);
    assert_eq!(router.create_tty(), 2);
}

#[test]
fn closing_a_handle_empties_its_place_among_held_descriptors() {
    let mut router = TTYRouter::new();
    for _ in 0..3 {
        router.open_device(0, ProcessID::new(7));
    }
    router.close_device(0, IOHandle::new(1));
    assert!(router.tty_set[0].descriptors.get(1).is_none());
    assert!(router.tty_set[0].descriptors.get(0).is_some());
    assert!(router.tty_set[0].descriptors.get(2).is_some());
    router.close_device(0, IOHandle::new(9));
    router.close_device(4, IOHandle::new(0));
    assert!(router.tty_set[0].descriptors.get(0).is_some());
    // handle 2 is the second descriptor held, so the second slot is emptied
    router.close_device(0, IOHandle::new(2));
    assert!(router.tty_set[0].descriptors.get(2).is_some());
    router.close_device(0, IOHandle::new(0));
    assert!(router.tty_set[0].descriptors.get(0).is_none());
}

#[test]
fn opening_a_device_registers_a_descriptor() {
    let mut router = TTYRouter::new();
    assert_eq!(router.open_device(1, ProcessID::new(5)), Some(IOHandle::new(0)));
    assert_eq!(router.tty_set[1].next_handle, 1);
    let d = router.tty_set[1].descriptors.get(0).unwrap();
    assert_eq!((d.process, d.handle), (ProcessID::new(5), IOHandle::new(0)));
    assert_eq!(router.reopen_device(1, ProcessID::new(6)), Some(IOHandle::new(1)));
    assert_eq!(router.tty_set[1].descriptors.get(1).unwrap().process, ProcessID::new(6));
    assert!(router.tty_set[0].descriptors.get(0).is_none());
}
