//! IPC passes a simple tuple of u32 values from one process to another.
use vstd::prelude::*;
use std::collections::VecDeque;
use super::id::ProcessID;

verus! {

#[derive(Copy, Clone, Debug, Eq, PartialEq, Structural)]
pub struct IPCMessage(pub u32, pub u32, pub u32, pub u32);

/// A message and its sender.
#[derive(Copy, Clone, Debug, Eq, PartialEq, Structural)]
pub struct IPCPacket {
    pub from: ProcessID,
    pub message: IPCMessage,
}

/// A queued packet and the time, in system ticks, after which it is no
/// longer valid. Expired entries are only removed when the queue is accessed.
#[derive(Copy, Clone, Debug, Eq, PartialEq, Structural)]
pub struct EnqueuedIPC {
    pub packet: IPCPacket,
    pub expiration_ticks: u32,
}

/// The queue with its expired front entries removed: entries leave from the
/// front while their expiration time is at or before `ticks`.
pub open spec fn unexpired(q: Seq<EnqueuedIPC>, ticks: u32) -> Seq<EnqueuedIPC>
    decreases q.len(),
{
    if q.len() == 0 || q[0].expiration_ticks > ticks {
        q
    } else {
        unexpired(q.drop_first(), ticks)
    }
}

/// Dropping expired messages only takes them from the front: the messages
/// that stay keep their order.
pub proof fn lemma_unexpired_is_suffix(q: Seq<EnqueuedIPC>, ticks: u32)
    ensures
        exists|k: int| 0 <= k <= q.len() && #[trigger] q.subrange(k, q.len() as int) == unexpired(q, ticks),
    decreases q.len(),
{
    if q.len() == 0 || q[0].expiration_ticks > ticks {
        assert(q.subrange(0, q.len() as int) =~= q);
    } else {
        lemma_unexpired_is_suffix(q.drop_first(), ticks);
        let k = choose|k: int| 0 <= k <= q.drop_first().len()
            && #[trigger] q.drop_first().subrange(k, q.drop_first().len() as int) == unexpired(q.drop_first(), ticks);
        assert(q.subrange(k + 1, q.len() as int) =~= q.drop_first().subrange(k, q.drop_first().len() as int));
    }
}

/// While no message has expired, the queue is first in, first out: a
/// message added behind others is read after them.
pub proof fn lemma_queue_is_fifo(q: Seq<EnqueuedIPC>, e: EnqueuedIPC, ticks: u32)
    requires
        forall|i: int| 0 <= i < q.len() ==> (#[trigger] q[i]).expiration_ticks > ticks,
        e.expiration_ticks > ticks,
    ensures
        unexpired(unexpired(q, ticks).push(e), ticks) == q.push(e),
{
    assert(unexpired(q, ticks) == q) by {
        if q.len() > 0 {
            assert(q[0].expiration_ticks > ticks);
        }
    }
    let p = q.push(e);
    assert(p.len() > 0);
    assert(p[0].expiration_ticks > ticks) by {
        if q.len() > 0 {
            assert(p[0] == q[0]);
        }
    }
}

/// Whether an unexpired entry follows the first one of the queue.
pub open spec fn more_unexpired(q: Seq<EnqueuedIPC>, ticks: u32) -> bool {
    exists|j: int| 1 <= j < q.len() && (#[trigger] q[j]).expiration_ticks > ticks
}

pub struct IPCQueue {
    pub queue: VecDeque<EnqueuedIPC>,
}

impl IPCQueue {
    pub open spec fn view(&self) -> Seq<EnqueuedIPC> {
        self.queue@
    }

    pub fn new() -> (r: Self)
        ensures
            r@ == Seq::<EnqueuedIPC>::empty(),
    {
        Self { queue: VecDeque::new() }
    }

    fn remove_expired_entries(&mut self, current_ticks: u32)
        ensures
            final(self)@ == unexpired(old(self)@, current_ticks),
    {
        while self.queue.len() > 0
            invariant
                unexpired(self@, current_ticks) == unexpired(old(self)@, current_ticks),
            decreases self@.len(),
        {
            if self.queue[0].expiration_ticks > current_ticks {
                return;
            }
            let ghost before = self@;
            self.queue.pop_front();
            assert(self@ =~= before.drop_first());
        }
    }

    /// Add a message from another process, after dropping expired entries.
    pub fn add(&mut self, from: ProcessID, message: IPCMessage, current_ticks: u32, expiration_ticks: u32)
        ensures
            final(self)@ == unexpired(old(self)@, current_ticks).push(
                EnqueuedIPC { packet: IPCPacket { from, message }, expiration_ticks },
            ),
    {
        self.remove_expired_entries(current_ticks);
        let for_queue = EnqueuedIPC { packet: IPCPacket { from, message }, expiration_ticks };
        self.queue.push_back(for_queue);
    }

    /// Read the oldest unexpired packet, if there is one, and whether more
    /// unexpired packets remain after it.
    pub fn read(&mut self, current_ticks: u32) -> (r: (Option<IPCPacket>, bool))
        ensures
            ({
                let live = unexpired(old(self)@, current_ticks);
                if live.len() == 0 {
                    r == (None::<IPCPacket>, false) && final(self)@ == live
                } else {
                    r == (Some(live[0].packet), more_unexpired(live, current_ticks)) && final(self)@ == live.drop_first()
                }
            }),
    {
        self.remove_expired_entries(current_ticks);
        let ghost live = self@;
        let message = match self.queue.pop_front() {
            Some(entry) => Some(entry.packet),
            None => None,
        };
        assert(live.len() > 0 ==> self@ =~= live.drop_first());
        let mut has_more = false;
        let mut i: usize = 0;
        while i < self.queue.len()
            invariant_except_break
                i <= self@.len(),
                !has_more,
                forall|j: int| 0 <= j < i ==> (#[trigger] self@[j]).expiration_ticks <= current_ticks,
            ensures
                has_more <==> exists|j: int| 0 <= j < self@.len() && (#[trigger] self@[j]).expiration_ticks > current_ticks,
            decreases self@.len() - i,
        {
            if self.queue[i].expiration_ticks > current_ticks {
                has_more = true;
                break;
            }
            i += 1;
        }
        proof {
            if live.len() > 0 {
                assert forall|j: int| 1 <= j < live.len() implies #[trigger] live[j] == self@[j - 1] by {}
                if has_more {
                    let j = choose|j: int| 0 <= j < self@.len() && (#[trigger] self@[j]).expiration_ticks > current_ticks;
                    assert(live[j + 1] == self@[j]);
                }
            }
        }
        (message, has_more)
    }
}

} // verus!
