use kernel::buffers::RingBuffer;
use kernel::files::handle::LocalHandle;
use kernel::pipes::collection::PipeCollection;
use kernel::pipes::create_pipe;
use kernel::pipes::errors::PipeError;
use kernel::pipes::handle::PipeHandle;
use kernel::pipes::pipe::Pipe;

#[test]
fn ring_buffer_is_fifo() {
    let mut ring = RingBuffer::new(4);
    assert_eq!(ring.write(&[1, 2, 3]), 3);
    assert_eq!(ring.write(&[4, 5, 6]), 1);
    let mut out = [0u8; 2];
    assert_eq!(ring.read(&mut out), 2);
    assert_eq!(out, [1, 2]);
    assert_eq!(ring.write(&[7, 8, 9]), 2);
    let mut rest = [0u8; 8];
    assert_eq!(ring.read(&mut rest), 4);
    assert_eq!(rest[..4], [3, 4, 7, 8]);
    assert_eq!(ring.available_bytes(), 0);
}

#[test]
fn pipe_handles() {
    assert!(PipeHandle::ReadHandle(3).can_read());
    assert!(!PipeHandle::ReadHandle(3).can_write());
    assert!(PipeHandle::WriteHandle(4).can_write());
    assert_eq!(PipeHandle::WriteHandle(4).to_index(), 4);
    let pipe = Pipe::new();
    assert_eq!(pipe.available_bytes(), 0);
    assert!(!pipe.can_read());
}

#[test]
fn bytes_flow_through_a_pipe() {
    let mut pipes = PipeCollection::new();
    let (read, write) = create_pipe(&mut pipes).unwrap();
    assert_eq!((read, write), (LocalHandle::new(0), LocalHandle::new(1)));
    assert_eq!(pipes.write(write, b"hello"), Ok(5));
    assert_eq!(pipes.get_available_bytes(read), Ok(5));
    let mut buffer = [0u8; 3];
    assert_eq!(pipes.read(read, &mut buffer), Ok(3));
    assert_eq!(&buffer, b"hel");
    assert_eq!(pipes.read(read, &mut buffer), Ok(2));
    assert_eq!(&buffer[..2], b"lo");
    assert_eq!(pipes.read(write, &mut buffer), Err(PipeError::WrongHandleType));
    assert_eq!(pipes.write(read, b"x"), Err(PipeError::WrongHandleType));
    assert_eq!(pipes.get_available_bytes(LocalHandle::new(9)), Err(PipeError::InvalidHandle));
}

#[test]
fn pipe_fills_up() {
    let mut pipes = PipeCollection::new();
    let (_, write) = pipes.create().unwrap();
    let data = [7u8; 300];
    assert_eq!(pipes.write(write, &data), Ok(256));
    assert_eq!(pipes.write(write, &data), Ok(0));
}
