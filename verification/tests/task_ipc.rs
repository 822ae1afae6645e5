use kernel::task::id::ProcessID;
use kernel::task::ipc::{IPCMessage, IPCPacket, IPCQueue};

#[test]
fn add_and_read() {
    let mut queue = IPCQueue::new();
    {
        let (front, remaining) = queue.read(0);
        assert!(front.is_none());
        assert!(!remaining);
    }
    queue.add(ProcessID::new(10), IPCMessage(1, 2, 3, 4), 0, 2000);
    queue.add(ProcessID::new(14), IPCMessage(5, 6, 7, 8), 0, 2000);
    {
        let (front, remaining) = queue.read(0);
        assert_eq!(front.unwrap(), IPCPacket { from: ProcessID::new(10), message: IPCMessage(1, 2, 3, 4) });
        assert!(remaining);
    }
    {
        let (front, remaining) = queue.read(0);
        assert_eq!(front.unwrap(), IPCPacket { from: ProcessID::new(14), message: IPCMessage(5, 6, 7, 8) });
        assert!(!remaining);
    }
}

#[test]
fn expiration() {
    let mut queue = IPCQueue::new();
    queue.add(ProcessID::new(10), IPCMessage(1, 2, 3, 4), 0, 2000);
    queue.add(ProcessID::new(12), IPCMessage(5, 6, 7, 8), 3000, 5000);
    {
        let (front, remaining) = queue.read(4000);
        assert_eq!(front.unwrap(), IPCPacket { from: ProcessID::new(12), message: IPCMessage(5, 6, 7, 8) });
        assert!(!remaining);
    }
}

#[test]
fn more_packets_counts_only_unexpired_ones() {
    let mut queue = IPCQueue::new();
    queue.add(ProcessID::new(10), IPCMessage(1, 2, 3, 4), 0, 5000);
    queue.add(ProcessID::new(12), IPCMessage(5, 6, 7, 8), 0, 2000);
    let (front, remaining) = queue.read(3000);
    assert_eq!(front.unwrap(), IPCPacket { from: ProcessID::new(10), message: IPCMessage(1, 2, 3, 4) });
    assert!(!remaining);
    let (front, remaining) = queue.read(3000);
    assert!(front.is_none());
    assert!(!remaining);
}
