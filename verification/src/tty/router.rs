//! The TTY router keeps a record of which terminal is active, and sends the
//! data written to each terminal's device to that terminal.
use vstd::prelude::*;
use crate::collections::{first_empty, SlotList};
use crate::files::handle::IOHandle;
use crate::hardware::vga::TextOp;
use crate::input::{first_bytes, KeyAction, KeyKind, LAYOUT_SIZE};
use crate::task::id::ProcessID;
use super::buffers::{TTYReadWriteBuffers, TTYReaderBuffer, BUFFER_SIZE};
use super::keyboard::{action_bytes, state_after, KeyState};
use super::parser::ParseState;
use super::tty::{input_accepted, input_run, tty_run_accepted, tty_run_args, tty_run_ops, tty_run_state, ReadMode, TTY};

verus! {

/// Associates an open IOHandle with the process that holds it.
#[derive(Copy, Clone, Debug, PartialEq, Eq, Structural)]
pub struct Descriptor {
    pub process: ProcessID,
    pub handle: IOHandle,
}

/// Where the first descriptor with `handle` comes among the descriptors
/// held, counting held slots only; `None` when no descriptor has it.
pub open spec fn held_position(s: Seq<Option<Descriptor>>, handle: IOHandle) -> Option<int>
    decreases s.len(),
{
    if s.len() == 0 {
        None
    } else {
        let rest = held_position(s.drop_first(), handle);
        match s[0] {
            Some(d) => if d.handle == handle {
                Some(0)
            } else {
                match rest {
                    Some(p) => Some(p + 1),
                    None => None,
                }
            },
            None => rest,
        }
    }
}

proof fn lemma_held_position_bound(s: Seq<Option<Descriptor>>, handle: IOHandle)
    ensures
        held_position(s, handle) matches Some(p) ==> 0 <= p < s.len(),
    decreases s.len(),
{
    if s.len() > 0 {
        lemma_held_position_bound(s.drop_first(), handle);
    }
}

/// Terminal `t0` became `t` by a handle being opened on it for `process`:
/// a descriptor with the next handle takes the first empty slot, or a new
/// slot at the end, and the next handle advances, wrapping at the largest
/// `usize`; the terminal and its buffers are unchanged.
pub open spec fn opened(t0: TTYData, process: ProcessID, t: TTYData) -> bool {
    let d = Descriptor { process, handle: IOHandle(t0.next_handle) };
    let i = first_empty(t0.descriptors@);
    &&& i < t0.descriptors@.len() ==> t.descriptors@ == t0.descriptors@.update(i, Some(d))
    &&& i == t0.descriptors@.len() ==> t.descriptors@ == t0.descriptors@.push(Some(d))
    &&& t.next_handle == if t0.next_handle == usize::MAX { 0 } else { t0.next_handle + 1 }
    &&& t.tty == t0.tty
    &&& t.buffers == t0.buffers
    &&& t.reader_buffer == t0.reader_buffer
}

/// A terminal with its device file: its buffers, the handles open on it,
/// and the input waiting for readers.
pub struct TTYData {
    pub next_handle: usize,
    pub tty: TTY,
    pub buffers: TTYReadWriteBuffers,
    pub descriptors: SlotList<Descriptor>,
    pub reader_buffer: TTYReaderBuffer,
}

impl TTYData {
    pub open spec fn wf(&self) -> bool {
        &&& self.tty.wf()
        &&& self.buffers.wf()
        &&& self.reader_buffer.wf()
    }

    pub fn new(tty: TTY) -> (r: TTYData)
        requires
            tty.wf(),
        ensures
            r.wf(),
            r.tty == tty,
            r.next_handle == 0,
            r.descriptors@.len() == 0,
            r.buffers.input_buffer@.len() == 0,
            r.buffers.output_buffer@.len() == 0,
            r.reader_buffer.buffer@.len() == 0,
    {
        TTYData {
            next_handle: 0,
            tty,
            buffers: TTYReadWriteBuffers::new(),
            descriptors: SlotList::new(),
            reader_buffer: TTYReaderBuffer::new(),
        }
    }

    /// Open a handle on the terminal for `process`, the running process.
    pub fn open(&mut self, process: ProcessID) -> (r: IOHandle)
        ensures
            r == IOHandle(old(self).next_handle),
            final(self).next_handle == if old(self).next_handle == usize::MAX { 0 } else { old(self).next_handle + 1 },
            ({
                let d = Descriptor { process, handle: r };
                let i = first_empty(old(self).descriptors@);
                &&& i < old(self).descriptors@.len() ==> final(self).descriptors@ == old(self).descriptors@.update(i, Some(d))
                &&& i == old(self).descriptors@.len() ==> final(self).descriptors@ == old(self).descriptors@.push(Some(d))
            }),
            final(self).tty == old(self).tty,
            final(self).buffers == old(self).buffers,
            final(self).reader_buffer == old(self).reader_buffer,
    {
        let handle = IOHandle::new(self.next_handle);
        self.next_handle = self.next_handle.wrapping_add(1);
        self.descriptors.insert(Descriptor { process, handle });
        handle
    }

    /// Open a handle on the terminal for a forked process.
    pub fn reopen(&mut self, process: ProcessID) -> (r: IOHandle)
        ensures
            r == IOHandle(old(self).next_handle),
            final(self).next_handle == if old(self).next_handle == usize::MAX { 0 } else { old(self).next_handle + 1 },
            ({
                let d = Descriptor { process, handle: r };
                let i = first_empty(old(self).descriptors@);
                &&& i < old(self).descriptors@.len() ==> final(self).descriptors@ == old(self).descriptors@.update(i, Some(d))
                &&& i == old(self).descriptors@.len() ==> final(self).descriptors@ == old(self).descriptors@.push(Some(d))
            }),
            final(self).tty == old(self).tty,
            final(self).buffers == old(self).buffers,
            final(self).reader_buffer == old(self).reader_buffer,
    {
        self.open(process)
    }

    /// Close a handle on the terminal. The descriptors are searched in
    /// the order of the slots that hold one, and the slot whose index is
    /// the found descriptor's place in that search is emptied.
    pub fn close(&mut self, handle: IOHandle)
        ensures
            final(self).descriptors@ == match held_position(old(self).descriptors@, handle) {
                Some(p) => old(self).descriptors@.update(p, None),
                None => old(self).descriptors@,
            },
            final(self).tty == old(self).tty,
            final(self).buffers == old(self).buffers,
            final(self).reader_buffer == old(self).reader_buffer,
            final(self).next_handle == old(self).next_handle,
    {
        let ghost s = self.descriptors@;
        proof {
            lemma_held_position_bound(s, handle);
            assert(s.skip(0) =~= s);
        }
        let mut found: Option<usize> = None;
        let mut held: usize = 0;
        let mut i: usize = 0;
        while i < self.descriptors.len()
            invariant_except_break
                self.descriptors@ == s,
                held <= i <= s.len(),
                found is None,
                held_position(s, handle) == match held_position(s.skip(i as int), handle) {
                    Some(p) => Some(p + held),
                    None => None::<int>,
                },
            ensures
                self.descriptors@ == s,
                match found {
                    Some(p) => held_position(s, handle) == Some(p as int),
                    None => held_position(s, handle) is None,
                },
            decreases s.len() - i,
        {
            let ghost rest = s.skip(i as int);
            proof {
                assert(rest.drop_first() =~= s.skip(i + 1));
                assert(rest[0] == s[i as int]);
            }
            match self.descriptors.get(i) {
                Some(d) => {
                    if d.handle == handle {
                        found = Some(held);
                        break;
                    }
                    held = held + 1;
                },
                None => {},
            }
            i += 1;
        }
        match found {
            Some(p) => {
                self.descriptors.remove(p);
            },
            None => {},
        }
    }
}

/// Send everything written to the terminal's device to the terminal, four
/// bytes at a time, returning the screen operations.
fn drain_into(data: &mut TTYData) -> (r: Vec<TextOp>)
    requires
        old(data).wf(),
        tty_run_accepted(old(data).tty.parse_state, old(data).tty.csi_args@, old(data).buffers.input_buffer@),
    ensures
        final(data).wf(),
        final(data).buffers.input_buffer@.len() == 0,
        final(data).buffers.output_buffer@ == old(data).buffers.output_buffer@,
        r@ == tty_run_ops(old(data).tty.parse_state, old(data).tty.csi_args@, old(data).tty.show_cursor,
            old(data).buffers.input_buffer@),
        final(data).tty.parse_state == tty_run_state(old(data).tty.parse_state, old(data).tty.csi_args@,
            old(data).buffers.input_buffer@),
        final(data).tty.show_cursor == old(data).tty.show_cursor,
        final(data).next_handle == old(data).next_handle,
        final(data).descriptors@ == old(data).descriptors@,
{
    let ghost s0 = data.tty.parse_state;
    let ghost a0 = data.tty.csi_args@;
    let ghost show = data.tty.show_cursor;
    let ghost all = data.buffers.input_buffer@;
    let ghost mut k: int = 0;
    let mut out: Vec<TextOp> = Vec::new();
    let mut to_read = data.buffers.input_buffer.available_bytes();
    while to_read > 0
        invariant
            data.wf(),
            0 <= k <= all.len(),
            data.buffers.input_buffer@ == all.subrange(k, all.len() as int),
            data.buffers.output_buffer@ == old(data).buffers.output_buffer@,
            to_read == data.buffers.input_buffer@.len(),
            tty_run_accepted(s0, a0, all),
            data.tty.parse_state == tty_run_state(s0, a0, all.take(k)),
            data.tty.csi_args@ == tty_run_args(s0, a0, all.take(k)),
            data.tty.show_cursor == show,
            out@ == tty_run_ops(s0, a0, show, all.take(k)),
            data.next_handle == old(data).next_handle,
            data.descriptors@ == old(data).descriptors@,
        decreases to_read,
    {
        let mut bytes: Vec<u8> = vec![0u8, 0u8, 0u8, 0u8];
        let bytes_read = data.buffers.input_buffer.read(bytes.as_mut_slice());
        proof {
            assert(bytes@.subrange(0, bytes_read as int) =~= all.subrange(k, k + bytes_read));
            assert forall|j: int| 0 <= j < bytes_read implies bytes@[j] == all[k + j] by {
                assert(bytes@.subrange(0, bytes_read as int)[j] == all.subrange(k, k + bytes_read)[j]);
            }
        }
        let mut i: usize = 0;
        while i < bytes_read
            invariant
                i <= bytes_read,
                bytes_read <= bytes@.len(),
                0 <= k,
                k + bytes_read <= all.len(),
                forall|j: int| 0 <= j < bytes_read ==> bytes@[j] == all[k + j],
                data.wf(),
                tty_run_accepted(s0, a0, all),
                data.tty.parse_state == tty_run_state(s0, a0, all.take(k + i)),
                data.tty.csi_args@ == tty_run_args(s0, a0, all.take(k + i)),
                data.tty.show_cursor == show,
                out@ == tty_run_ops(s0, a0, show, all.take(k + i)),
                data.buffers.input_buffer@ == all.subrange(k + bytes_read, all.len() as int),
                data.buffers.output_buffer@ == old(data).buffers.output_buffer@,
                data.next_handle == old(data).next_handle,
                data.descriptors@ == old(data).descriptors@,
            decreases bytes_read - i,
        {
            let b = bytes[i];
            proof {
                assert(all.take(k + i + 1).drop_last() =~= all.take(k + i));
                assert(all.take(k + i + 1).last() == b);
                assert(b != 8 ==> crate::tty::parser::byte_accepted(tty_run_state(s0, a0, all.take(k + i)),
                    tty_run_args(s0, a0, all.take(k + i)), all[k + i]));
            }
            let ops = data.tty.send_data(b);
            let ghost before = out@;
            let mut m: usize = 0;
            while m < ops.len()
                invariant
                    m <= ops@.len(),
                    out@ == before + ops@.take(m as int),
                decreases ops@.len() - m,
            {
                out.push(ops[m]);
                m += 1;
                assert(out@ =~= before + ops@.take(m as int));
            }
            assert(ops@.take(m as int) =~= ops@);
            i += 1;
        }
        proof {
            k = k + bytes_read;
        }
        to_read = if bytes_read == bytes.len() {
            to_read - bytes_read
        } else {
            0
        };
    }
    assert(all.take(k) =~= all);
    out
}

/// The response of the terminals to a key action.
#[derive(Debug, PartialEq)]
pub enum KeyResponse {
    /// Alt and 0 or 1 asked to switch to that terminal; holds the terminals
    /// to swap, as switching returned them.
    Switch(Option<(usize, usize)>),
    /// The screen operations of the bytes that the key sent to the active
    /// terminal.
    Typed(Vec<TextOp>),
}

/// The terminal that the action switches to: 0 or 1 pressed while alt is
/// held.
pub open spec fn switch_target(s: KeyState, action: KeyAction) -> Option<u8> {
    match action {
        KeyAction::Press(k) => match k.kind {
            KeyKind::Num(d) => if s.alt && d <= 1 { Some(d) } else { None },
            _ => None,
        },
        KeyAction::Release(_) => None,
    }
}

/// Where typing starts from on a terminal: its parse state, CSI arguments
/// and line length.
pub open spec fn input_start(t: TTY) -> (ParseState, Seq<Option<u32>>, int) {
    (t.parse_state, t.csi_args@, t.canonical_length as int)
}

/// The bytes can be typed at terminal `t`.
pub open spec fn typing_accepted(t: TTY, bytes: Seq<u8>) -> bool {
    input_accepted(input_start(t), t.read_mode == ReadMode::Canonical, t.echo, t.show_cursor, bytes)
}

/// Terminal `t0` became `t` by `bytes` being typed at it, with screen
/// operations `ops`, and the bytes, as many as fit, being queued for
/// readers.
pub open spec fn typed_into(t0: TTYData, bytes: Seq<u8>, ops: Seq<TextOp>, t: TTYData) -> bool {
    let run = input_run(input_start(t0.tty), t0.tty.read_mode == ReadMode::Canonical, t0.tty.echo,
        t0.tty.show_cursor, bytes);
    let room = BUFFER_SIZE - t0.reader_buffer.buffer@.len();
    let n = if bytes.len() < room { bytes.len() as int } else { room };
    &&& input_start(t.tty) == run.0
    &&& ops == run.1
    &&& t.tty.read_mode == t0.tty.read_mode
    &&& t.tty.echo == t0.tty.echo
    &&& t.tty.show_cursor == t0.tty.show_cursor
    &&& t.reader_buffer.buffer@ == t0.reader_buffer.buffer@ + bytes.subrange(0, n)
    &&& t.buffers == t0.buffers
    &&& t.descriptors == t0.descriptors
    &&& t.next_handle == t0.next_handle
}

/// Type `bytes` at the terminal, and queue them for its readers.
fn type_into(t: &mut TTYData, bytes: &[u8]) -> (r: Vec<TextOp>)
    requires
        old(t).wf(),
        typing_accepted(old(t).tty, bytes@),
    ensures
        final(t).wf(),
        typed_into(*old(t), bytes@, r@, *final(t)),
{
    let ghost start = input_start(t.tty);
    let ghost canonical = t.tty.read_mode == ReadMode::Canonical;
    let mut ops: Vec<TextOp> = Vec::new();
    let mut i: usize = 0;
    while i < bytes.len()
        invariant
            i <= bytes@.len(),
            t.wf(),
            start == input_start(old(t).tty),
            canonical == (old(t).tty.read_mode == ReadMode::Canonical),
            typing_accepted(old(t).tty, bytes@),
            t.tty.read_mode == old(t).tty.read_mode,
            t.tty.echo == old(t).tty.echo,
            t.tty.show_cursor == old(t).tty.show_cursor,
            input_start(t.tty) == input_run(start, canonical, t.tty.echo, t.tty.show_cursor, bytes@.take(i as int)).0,
            ops@ == input_run(start, canonical, t.tty.echo, t.tty.show_cursor, bytes@.take(i as int)).1,
            t.reader_buffer == old(t).reader_buffer,
            t.buffers == old(t).buffers,
            t.descriptors == old(t).descriptors,
            t.next_handle == old(t).next_handle,
        decreases bytes@.len() - i,
    {
        let ghost k = i as int;
        proof {
            assert(bytes@.take(k + 1).drop_last() =~= bytes@.take(k));
            assert(bytes@.take(k + 1).last() == bytes@[k]);
            let p = input_run(start, canonical, t.tty.echo, t.tty.show_cursor, bytes@.take(k)).0;
            assert(p == input_run(start, canonical, t.tty.echo, t.tty.show_cursor, bytes@.take(k)).0);
        }
        let mut out = t.tty.handle_input(bytes[i]);
        ops.append(&mut out);
        i += 1;
    }
    assert(bytes@.take(i as int) =~= bytes@);
    t.reader_buffer.add_data(bytes);
    ops
}

/// The terminals, which one is active, and the meta keys held down.
pub struct TTYRouter {
    pub tty_set: Vec<TTYData>,
    pub active_tty: usize,
    pub key_state: KeyState,
}

impl TTYRouter {
    pub open spec fn wf(&self) -> bool {
        forall|i: int| 0 <= i < self.tty_set@.len() ==> (#[trigger] self.tty_set@[i]).wf()
    }

    /// Two terminals, the first of them active. The caller, which owns
    /// video memory, points the second one's text at its back buffer.
    pub fn new() -> (r: TTYRouter)
        ensures
            r.wf(),
            r.tty_set@.len() == 2,
            r.active_tty == 0,
            !r.key_state.alt && !r.key_state.ctrl && !r.key_state.shift,
    {
        let mut set: Vec<TTYData> = Vec::with_capacity(1);
        set.push(TTYData::new(TTY::new()));
        set.push(TTYData::new(TTY::new()));
        TTYRouter { tty_set: set, active_tty: 0, key_state: KeyState::new() }
    }

    /// Add a terminal, returning its index.
    pub fn create_tty(&mut self) -> (r: usize)
        requires
            old(self).wf(),
        ensures
            final(self).wf(),
            r == old(self).tty_set@.len(),
            final(self).tty_set@.len() == old(self).tty_set@.len() + 1,
            final(self).active_tty == old(self).active_tty,
            final(self).key_state == old(self).key_state,
    {
        let index = self.tty_set.len();
        self.tty_set.push(TTYData::new(TTY::new()));
        proof {
            assert forall|i: int| 0 <= i < self.tty_set@.len() implies (#[trigger] self.tty_set@[i]).wf() by {
                if i < index {
                    assert(old(self).tty_set@[i].wf());
                }
            }
        }
        index
    }

    pub fn tty_count(&self) -> (r: usize)
        ensures
            r == self.tty_set@.len(),
    {
        self.tty_set.len()
    }

    /// Open a handle on terminal `index` for `process`, if the terminal
    /// exists.
    pub fn open_device(&mut self, index: usize, process: ProcessID) -> (r: Option<IOHandle>)
        requires
            old(self).wf(),
        ensures
            final(self).wf(),
            final(self).tty_set@.len() == old(self).tty_set@.len(),
            final(self).active_tty == old(self).active_tty,
            final(self).key_state == old(self).key_state,
            index >= old(self).tty_set@.len() ==> r is None && final(self).tty_set@ == old(self).tty_set@,
            index < old(self).tty_set@.len() ==> r == Some(IOHandle(old(self).tty_set@[index as int].next_handle)),
            index < old(self).tty_set@.len() ==> opened(old(self).tty_set@[index as int], process, final(self).tty_set@[index as int]),
            forall|j: int| 0 <= j < old(self).tty_set@.len() && j != index ==> #[trigger] final(self).tty_set@[j]
                == old(self).tty_set@[j],
    {
        if index >= self.tty_set.len() {
            return None;
        }
        let ghost before = self.tty_set@;
        let handle = self.tty_set[index].open(process);
        proof {
            assert forall|i: int| 0 <= i < self.tty_set@.len() implies (#[trigger] self.tty_set@[i]).wf() by {
                if i != index {
                    assert(before[i].wf());
                }
            }
        }
        Some(handle)
    }

    /// Open a handle on terminal `index` for the forked process `id`, if the
    /// terminal exists.
    pub fn reopen_device(&mut self, index: usize, id: ProcessID) -> (r: Option<IOHandle>)
        requires
            old(self).wf(),
        ensures
            final(self).wf(),
            final(self).tty_set@.len() == old(self).tty_set@.len(),
            final(self).active_tty == old(self).active_tty,
            final(self).key_state == old(self).key_state,
            index >= old(self).tty_set@.len() ==> r is None && final(self).tty_set@ == old(self).tty_set@,
            index < old(self).tty_set@.len() ==> r == Some(IOHandle(old(self).tty_set@[index as int].next_handle)),
            index < old(self).tty_set@.len() ==> opened(old(self).tty_set@[index as int], id, final(self).tty_set@[index as int]),
            forall|j: int| 0 <= j < old(self).tty_set@.len() && j != index ==> #[trigger] final(self).tty_set@[j]
                == old(self).tty_set@[j],
    {
        if index >= self.tty_set.len() {
            return None;
        }
        let ghost before = self.tty_set@;
        let handle = self.tty_set[index].reopen(id);
        proof {
            assert forall|i: int| 0 <= i < self.tty_set@.len() implies (#[trigger] self.tty_set@[i]).wf() by {
                if i != index {
                    assert(before[i].wf());
                }
            }
        }
        Some(handle)
    }

    /// Close a handle on terminal `index`, if the terminal exists.
    pub fn close_device(&mut self, index: usize, handle: IOHandle)
        requires
            old(self).wf(),
        ensures
            final(self).wf(),
            final(self).active_tty == old(self).active_tty,
            final(self).key_state == old(self).key_state,
            final(self).tty_set@.len() == old(self).tty_set@.len(),
            forall|j: int| 0 <= j < old(self).tty_set@.len() && j != index ==> #[trigger] final(self).tty_set@[j]
                == old(self).tty_set@[j],
            index < old(self).tty_set@.len() ==> {
                let t0 = old(self).tty_set@[index as int];
                let t = final(self).tty_set@[index as int];
                &&& t.descriptors@ == match held_position(t0.descriptors@, handle) {
                    Some(p) => t0.descriptors@.update(p, None),
                    None => t0.descriptors@,
                }
                &&& t.tty == t0.tty
                &&& t.buffers == t0.buffers
                &&& t.reader_buffer == t0.reader_buffer
                &&& t.next_handle == t0.next_handle
            },
    {
        if index >= self.tty_set.len() {
            return;
        }
        let ghost before = self.tty_set@;
        let mut data = self.tty_set.remove(index);
        data.close(handle);
        self.tty_set.insert(index, data);
        proof {
            assert(self.tty_set@ =~= before.update(index as int, data));
            assert forall|j: int| 0 <= j < self.tty_set@.len() implies (#[trigger] self.tty_set@[j]).wf() by {
                if j != index {
                    assert(before[j].wf());
                }
            }
        }
    }

    /// Make terminal `index` active. Returns the terminals to swap, the
    /// previous one out of video memory and the new one in, or `None` when
    /// there is no such terminal or it is active already.
    pub fn set_active_tty(&mut self, index: usize) -> (r: Option<(usize, usize)>)
        ensures
            final(self).tty_set@ == old(self).tty_set@,
            final(self).key_state == old(self).key_state,
            if index < old(self).tty_set@.len() && index != old(self).active_tty {
                r == Some((old(self).active_tty, index)) && final(self).active_tty == index
            } else {
                r is None && final(self).active_tty == old(self).active_tty
            },
    {
        if self.tty_set.len() <= index {
            return None;
        }
        if self.active_tty == index {
            return None;
        }
        let previous = self.active_tty;
        self.active_tty = index;
        Some((previous, index))
    }

    /// Send all data written to each terminal's device to the terminal,
    /// returning each terminal's screen operations.
    pub fn process_buffers(&mut self) -> (r: Vec<Vec<TextOp>>)
        requires
            old(self).wf(),
            forall|i: int| 0 <= i < old(self).tty_set@.len() ==> {
                let t = #[trigger] old(self).tty_set@[i];
                tty_run_accepted(t.tty.parse_state, t.tty.csi_args@, t.buffers.input_buffer@)
            },
        ensures
            final(self).wf(),
            final(self).active_tty == old(self).active_tty,
            final(self).key_state == old(self).key_state,
            final(self).tty_set@.len() == old(self).tty_set@.len(),
            r@.len() == old(self).tty_set@.len(),
            forall|i: int| 0 <= i < old(self).tty_set@.len() ==> #[trigger] drained(old(self).tty_set@[i],
                final(self).tty_set@[i], r@[i]@),
    {
        let mut all_ops: Vec<Vec<TextOp>> = Vec::new();
        let ghost set0 = self.tty_set@;
        let mut i: usize = 0;
        while i < self.tty_set.len()
            invariant
                i <= self.tty_set@.len(),
                self.tty_set@.len() == set0.len(),
                self.active_tty == old(self).active_tty,
                self.key_state == old(self).key_state,
                all_ops@.len() == i,
                forall|j: int| 0 <= j < self.tty_set@.len() ==> (#[trigger] self.tty_set@[j]).wf(),
                forall|j: int| i <= j < set0.len() ==> #[trigger] self.tty_set@[j] == set0[j],
                forall|j: int| 0 <= j < set0.len() ==> {
                    let t = #[trigger] set0[j];
                    tty_run_accepted(t.tty.parse_state, t.tty.csi_args@, t.buffers.input_buffer@)
                },
                forall|j: int| 0 <= j < i ==> #[trigger] drained(set0[j], self.tty_set@[j], all_ops@[j]@),
            decreases set0.len() - i,
        {
            let ghost i0 = i as int;
            let ghost before = self.tty_set@;
            let ghost ops_before = all_ops@;
            let mut data = self.tty_set.remove(i);
            assert(data == set0[i as int]);
            let ops = drain_into(&mut data);
            self.tty_set.insert(i, data);
            all_ops.push(ops);
            i += 1;
            proof {
                assert(self.tty_set@ =~= before.update(i0, data));
                assert(all_ops@ =~= ops_before.push(ops));
                assert forall|j: int| 0 <= j < i implies #[trigger] drained(set0[j], self.tty_set@[j], all_ops@[j]@) by {
                    if j < i0 {
                        assert(all_ops@[j] == ops_before[j]);
                        assert(self.tty_set@[j] == before[j]);
                    } else {
                        assert(all_ops@[j] == ops);
                        assert(self.tty_set@[j] == data);
                    }
                }
                assert forall|j: int| 0 <= j < self.tty_set@.len() implies (#[trigger] self.tty_set@[j]).wf() by {
                    if j != i0 {
                        assert(before[j].wf());
                    }
                }
            }
        }
        all_ops
    }
    /// Handle a key action: the key state follows it; alt and 0 or 1 switch
    /// to that terminal, and the bytes of another pressed key are typed at
    /// the active terminal. `layout` holds the characters of each key code.
    pub fn send_key_action(&mut self, action: KeyAction, layout: &[(u8, u8)]) -> (r: KeyResponse)
        requires
            old(self).wf(),
            layout@.len() >= LAYOUT_SIZE,
            switch_target(old(self).key_state, action) is None ==> match action_bytes(old(self).key_state, action, layout@) {
                Some(b) => old(self).active_tty < old(self).tty_set@.len() ==> typing_accepted(
                    old(self).tty_set@[old(self).active_tty as int].tty, b),
                None => true,
            },
        ensures
            final(self).wf(),
            final(self).key_state == state_after(old(self).key_state, action),
            final(self).tty_set@.len() == old(self).tty_set@.len(),
            match switch_target(old(self).key_state, action) {
                Some(d) => {
                    &&& final(self).tty_set@ == old(self).tty_set@
                    &&& if d < old(self).tty_set@.len() && d != old(self).active_tty {
                        r == KeyResponse::Switch(Some((old(self).active_tty, d as usize))) && final(self).active_tty == d
                    } else {
                        r == KeyResponse::Switch(None) && final(self).active_tty == old(self).active_tty
                    }
                },
                None => r matches KeyResponse::Typed(ops) && final(self).active_tty == old(self).active_tty && {
                    let a = old(self).active_tty as int;
                    let bytes = action_bytes(old(self).key_state, action, layout@);
                    if bytes is Some && a < old(self).tty_set@.len() {
                        &&& typed_into(old(self).tty_set@[a], bytes->Some_0, ops@, final(self).tty_set@[a])
                        &&& forall|j: int| 0 <= j < old(self).tty_set@.len() && j != a ==> #[trigger] final(self).tty_set@[j]
                            == old(self).tty_set@[j]
                    } else {
                        ops@.len() == 0 && final(self).tty_set@ == old(self).tty_set@
                    }
                },
            },
    {
        let mut buffer: Vec<u8> = vec![0u8, 0u8, 0u8, 0u8];
        let output = self.key_state.process_key_action(action, layout, buffer.as_mut_slice());
        match output {
            None => KeyResponse::Typed(Vec::new()),
            Some(len) => {
                match action {
                    KeyAction::Press(code) => match code.kind {
                        KeyKind::Num(d) => {
                            if d <= 1 && self.key_state.alt {
                                let swap = self.set_active_tty(d as usize);
                                return KeyResponse::Switch(swap);
                            }
                        },
                        _ => {},
                    },
                    _ => {},
                }
                if self.active_tty >= self.tty_set.len() {
                    return KeyResponse::Typed(Vec::new());
                }
                let data = first_bytes(&buffer, len);
                let a = self.active_tty;
                let ghost before = self.tty_set@;
                let mut active = self.tty_set.remove(a);
                let ops = type_into(&mut active, data.as_slice());
                self.tty_set.insert(a, active);
                proof {
                    assert(self.tty_set@ =~= before.update(a as int, active));
                    assert forall|j: int| 0 <= j < self.tty_set@.len() implies (#[trigger] self.tty_set@[j]).wf() by {
                        if j != a {
                            assert(before[j].wf());
                        }
                    }
                }
                KeyResponse::Typed(ops)
            },
        }
    }
}

/// Terminal `t0` became `t` by displaying all that was written to its
/// device, with screen operations `ops`.
pub open spec fn drained(t0: TTYData, t: TTYData, ops: Seq<TextOp>) -> bool {
    let bytes = t0.buffers.input_buffer@;
    &&& ops == tty_run_ops(t0.tty.parse_state, t0.tty.csi_args@, t0.tty.show_cursor, bytes)
    &&& t.buffers.input_buffer@.len() == 0
    &&& t.tty.parse_state == tty_run_state(t0.tty.parse_state, t0.tty.csi_args@, bytes)
}

} // verus!
