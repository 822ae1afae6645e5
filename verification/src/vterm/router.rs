//! The vterm router holds every vterm, and which one is on screen.
use vstd::prelude::*;
use crate::hardware::vga::TextOp;
use crate::tty::buffers::TTYWriterBuffer;
use crate::tty::device::{create_tty, TTYDeviceData};
use crate::tty::parser::{lemma_run_accepted_concat, lemma_run_concat, run_accepted, run_args, run_state};
use crate::input::{first_bytes, KeyAction, KeyKind, LAYOUT_SIZE};
use super::keys::{action_bytes, state_after, KeyState};
use super::memory::MemoryBackup;
use super::vterm::{lemma_send_ops_concat, send_ops, VTerm, VGA_TEXT_LOCATION};

verus! {

/// Every vterm's bytes written to its device can be parsed.
pub open spec fn writes_accepted(vterms: Seq<VTerm>, devices: Seq<TTYDeviceData>) -> bool {
    forall|i: int| 0 <= i < vterms.len() ==> run_accepted(
        (#[trigger] vterms[i]).ansi_parser.state, vterms[i].ansi_parser.csi_args@, devices[i].write_buffer.buffer@)
}

/// Vterm `v0` with device `d0` became `v` with device `d`, by sending all
/// that was written to the device to the vterm, with screen operations `ops`.
pub open spec fn processed(v0: VTerm, d0: TTYDeviceData, ops: Seq<TextOp>, v: VTerm, d: TTYDeviceData) -> bool {
    let bytes = d0.write_buffer.buffer@;
    &&& ops == send_ops(v0.ansi_parser.state, v0.ansi_parser.csi_args@, bytes)
    &&& d.write_buffer.buffer@.len() == 0
    &&& v.ansi_parser.state == run_state(v0.ansi_parser.state, v0.ansi_parser.csi_args@, bytes)
    &&& v.ansi_parser.csi_args@ == run_args(v0.ansi_parser.state, v0.ansi_parser.csi_args@, bytes)
}

/// Send everything queued in `writer` to the vterm, in chunks of up to four
/// bytes, returning the screen operations.
fn drain_into(vterm: &mut VTerm, writer: &mut TTYWriterBuffer) -> (r: Vec<TextOp>)
    requires
        old(vterm).wf(),
        old(writer).wf(),
        run_accepted(old(vterm).ansi_parser.state, old(vterm).ansi_parser.csi_args@, old(writer).buffer@),
    ensures
        final(vterm).wf(),
        final(writer).wf(),
        final(writer).buffer@.len() == 0,
        r@ == send_ops(old(vterm).ansi_parser.state, old(vterm).ansi_parser.csi_args@, old(writer).buffer@),
        final(vterm).ansi_parser.state == run_state(old(vterm).ansi_parser.state, old(vterm).ansi_parser.csi_args@, old(writer).buffer@),
        final(vterm).ansi_parser.csi_args@ == run_args(old(vterm).ansi_parser.state, old(vterm).ansi_parser.csi_args@, old(writer).buffer@),
        final(vterm).memory_backups@ == old(vterm).memory_backups@,
        final(vterm).video_mode == old(vterm).video_mode,
        final(vterm).text_buffer == old(vterm).text_buffer,
{
    let ghost s0 = vterm.ansi_parser.state;
    let ghost a0 = vterm.ansi_parser.csi_args@;
    let ghost all = writer.buffer@;
    let ghost mut k: int = 0;
    let mut out: Vec<TextOp> = Vec::new();
    let mut to_read = writer.available_bytes();
    while to_read > 0
        invariant
            vterm.wf(),
            writer.wf(),
            0 <= k <= all.len(),
            writer.buffer@ == all.subrange(k, all.len() as int),
            to_read == writer.buffer@.len(),
            run_accepted(s0, a0, all),
            vterm.ansi_parser.state == run_state(s0, a0, all.take(k)),
            vterm.ansi_parser.csi_args@ == run_args(s0, a0, all.take(k)),
            out@ == send_ops(s0, a0, all.take(k)),
            vterm.memory_backups@ == old(vterm).memory_backups@,
            vterm.video_mode == old(vterm).video_mode,
            vterm.text_buffer == old(vterm).text_buffer,
        decreases to_read,
    {
        let mut data: Vec<u8> = vec![0u8, 0u8, 0u8, 0u8];
        let bytes_read = writer.read(data.as_mut_slice());
        let mut chunk: Vec<u8> = Vec::new();
        let mut j: usize = 0;
        while j < bytes_read
            invariant
                j <= bytes_read,
                bytes_read <= data@.len(),
                chunk@ == data@.take(j as int),
            decreases bytes_read - j,
        {
            chunk.push(data[j]);
            j += 1;
            assert(chunk@ =~= data@.take(j as int));
        }
        let ghost n = bytes_read as int;
        proof {
            assert(chunk@ =~= all.subrange(k, k + n));
            assert(all.take(k + n) =~= all.take(k) + chunk@);
            assert(all =~= all.take(k) + all.subrange(k, all.len() as int));
            lemma_run_accepted_concat(s0, a0, all.take(k), all.subrange(k, all.len() as int));
            assert(all.subrange(k, all.len() as int) =~= chunk@ + all.subrange(k + n, all.len() as int));
            lemma_run_accepted_concat(run_state(s0, a0, all.take(k)), run_args(s0, a0, all.take(k)),
                chunk@, all.subrange(k + n, all.len() as int));
            lemma_send_ops_concat(s0, a0, all.take(k), chunk@);
            lemma_run_concat(s0, a0, all.take(k), chunk@);
        }
        let ops = vterm.send_characters(chunk.as_slice());
        let mut m: usize = 0;
        let ghost before = out@;
        while m < ops.len()
            invariant
                m <= ops@.len(),
                out@ == before + ops@.take(m as int),
            decreases ops@.len() - m,
        {
            out.push(ops[m]);
            m += 1;
            assert(out@ =~= before + ops@.take(m as int));
        }
        assert(ops@.take(m as int) =~= ops@);
        proof {
            k = k + n;
        }
        to_read = if bytes_read == data.len() {
            to_read - bytes_read
        } else {
            0
        };
    }
    assert(all.take(k) =~= all);
    out
}

/// The response of the vterms to a key action.
#[derive(Debug, PartialEq)]
pub enum KeyResponse {
    /// Alt and a digit asked to switch the screen to that vterm; holds what
    /// switching returned.
    Switch(Option<u8>),
    /// The screen operations of the bytes that the key sent to the active
    /// vterm.
    Typed(Vec<TextOp>),
}

/// The vterm that the action switches to: a digit pressed while alt is held.
pub open spec fn switch_target(s: KeyState, action: KeyAction) -> Option<u8> {
    match action {
        KeyAction::Press(k) => match k.kind {
            KeyKind::Num(d) => if s.alt { Some(d) } else { None },
            _ => None,
        },
        KeyAction::Release(_) => None,
    }
}

/// Vterm `v0` became `v` by receiving `bytes`, with screen operations `ops`.
pub open spec fn received(v0: VTerm, bytes: Seq<u8>, ops: Seq<TextOp>, v: VTerm) -> bool {
    &&& ops == send_ops(v0.ansi_parser.state, v0.ansi_parser.csi_args@, bytes)
    &&& v.ansi_parser.state == run_state(v0.ansi_parser.state, v0.ansi_parser.csi_args@, bytes)
    &&& v.ansi_parser.csi_args@ == run_args(v0.ansi_parser.state, v0.ansi_parser.csi_args@, bytes)
    &&& v.memory_backups@ == v0.memory_backups@
    &&& v.video_mode == v0.video_mode
    &&& v.text_buffer == v0.text_buffer
    &&& v.echo_input_flag == v0.echo_input_flag
}

/// What a key action that switches nothing does: the key state follows the
/// action, and the bytes of a pressed key go to the active vterm, if there
/// is one, with screen operations `ops`.
pub open spec fn typed(before: VTermRouter, after: VTermRouter, action: KeyAction, layout: Seq<(u8, u8)>, ops: Seq<TextOp>) -> bool {
    let a = before.active_vterm as int;
    let bytes = action_bytes(before.key_state, action, layout);
    &&& after.key_state == state_after(before.key_state, action)
    &&& after.active_vterm == before.active_vterm
    &&& after.vterm_list@.len() == before.vterm_list@.len()
    &&& if bytes is Some && a < before.vterm_list@.len() {
        &&& received(before.vterm_list@[a], bytes->Some_0, ops, after.vterm_list@[a])
        &&& forall|j: int| 0 <= j < before.vterm_list@.len() && j != a ==> #[trigger] after.vterm_list@[j]
            == before.vterm_list@[j]
    } else {
        ops.len() == 0 && after.vterm_list@ == before.vterm_list@
    }
}

/// The bytes of the action are parsed by the active vterm without overflow.
pub open spec fn key_accepted(r: VTermRouter, action: KeyAction, layout: Seq<(u8, u8)>) -> bool {
    let a = r.active_vterm as int;
    match action_bytes(r.key_state, action, layout) {
        Some(b) => a < r.vterm_list@.len() ==> run_accepted(
            r.vterm_list@[a].ansi_parser.state, r.vterm_list@[a].ansi_parser.csi_args@, b),
        None => true,
    }
}

/// What switching the screen to vterm `active` does: the vterm on screen
/// starts writing to its text-mode backup, and `active`, if it exists,
/// becomes the active vterm, its video mode returned for the caller to set.
pub open spec fn switched(before: VTermRouter, after: VTermRouter, active: usize, r: Option<u8>) -> bool {
    &&& after.vterm_list@.len() == before.vterm_list@.len()
    &&& before.active_vterm >= before.vterm_list@.len() ==> r is None && after.vterm_list@ == before.vterm_list@
        && after.active_vterm == before.active_vterm
    &&& before.active_vterm < before.vterm_list@.len() ==> {
        let cur = before.active_vterm as int;
        let old_term = before.vterm_list@[cur];
        let new_term = after.vterm_list@[cur];
        &&& new_term.text_buffer == match old_term.memory_backups@[24] {
            Some(b) => b.mapped_to.0 as usize,
            None => old_term.text_buffer,
        }
        &&& new_term.memory_backups@ == old_term.memory_backups@
        &&& new_term.video_mode == old_term.video_mode
        &&& new_term.ansi_parser == old_term.ansi_parser
        &&& new_term.echo_input_flag == old_term.echo_input_flag
        &&& forall|j: int| 0 <= j < before.vterm_list@.len() && j != cur ==> #[trigger] after.vterm_list@[j]
            == before.vterm_list@[j]
        &&& if active < before.vterm_list@.len() {
            after.active_vterm == active && r == Some(before.vterm_list@[active as int].video_mode)
        } else {
            after.active_vterm == before.active_vterm && r is None
        }
    }
}

/// The vterm router holds all vterms, which one is active, and the meta keys
/// held down.
pub struct VTermRouter {
    pub vterm_list: Vec<VTerm>,
    pub active_vterm: usize,
    pub key_state: KeyState,
}

impl VTermRouter {
    pub open spec fn wf(&self) -> bool {
        forall|i: int| 0 <= i < self.vterm_list@.len() ==> (#[trigger] self.vterm_list@[i]).wf()
    }

    /// Create `count` vterms, each with its text-mode backup and a terminal
    /// device. The last one is in graphics mode 0x13 and the others in text
    /// mode 0x03. The first one is active and writes straight to video
    /// memory; the returned operations scroll its screen by two rows.
    pub fn new(count: usize, backups: &Vec<MemoryBackup>, devices: &mut Vec<TTYDeviceData>) -> (r: (VTermRouter, Vec<TextOp>))
        requires
            backups@.len() >= count,
        ensures
            r.0.wf(),
            r.0.active_vterm == 0,
            !r.0.key_state.alt && !r.0.key_state.ctrl && !r.0.key_state.shift,
            r.0.vterm_list@.len() == count,
            forall|i: int| 0 <= i < count ==> (#[trigger] r.0.vterm_list@[i]).video_mode
                == if i == count - 1 { 0x13u8 } else { 0x03u8 },
            forall|i: int| 0 <= i < count ==> (#[trigger] r.0.vterm_list@[i]).memory_backups@[24] == Some(backups@[i]),
            count > 0 ==> r.0.vterm_list@[0].text_buffer == VGA_TEXT_LOCATION && r.1@ == seq![TextOp::Scroll(2)],
            count == 0 ==> r.1@.len() == 0,
            final(devices)@.len() == old(devices)@.len() + count,
            final(devices)@.subrange(0, old(devices)@.len() as int) == old(devices)@,
    {
        let mut vterm_list: Vec<VTerm> = Vec::new();
        let mut ops: Vec<TextOp> = Vec::new();
        let mut i: usize = 0;
        while i < count
            invariant
                i <= count,
                backups@.len() >= count,
                vterm_list@.len() == i,
                forall|j: int| 0 <= j < i ==> (#[trigger] vterm_list@[j]).wf(),
                forall|j: int| 0 <= j < i ==> (#[trigger] vterm_list@[j]).video_mode
                    == if j == count - 1 { 0x13u8 } else { 0x03u8 },
                forall|j: int| 0 <= j < i ==> (#[trigger] vterm_list@[j]).memory_backups@[24] == Some(backups@[j]),
                i > 0 ==> vterm_list@[0].text_buffer == VGA_TEXT_LOCATION && ops@ == seq![TextOp::Scroll(2)],
                i == 0 ==> ops@.len() == 0,
                devices@.len() == old(devices)@.len() + i,
                devices@.subrange(0, old(devices)@.len() as int) == old(devices)@,
            decreases count - i,
        {
            let mode: u8 = if i == count - 1 { 0x13 } else { 0x03 };
            let mut term = VTerm::with_video_mode(mode, backups[i]);
            if i == 0 {
                term.make_initial();
                ops.push(term.scroll(2));
            }
            vterm_list.push(term);
            // make the associated tty device
            let ghost before = devices@;
            create_tty(devices);
            assert(devices@.subrange(0, old(devices)@.len() as int) =~= before.subrange(0, old(devices)@.len() as int));
            i += 1;
        }
        (VTermRouter { vterm_list, active_vterm: 0, key_state: KeyState::new() }, ops)
    }

    /// Switch the screen to vterm `active`. The vterm on screen (whose video
    /// memory the caller has already saved to its backups) starts writing
    /// to its backups; if `active` exists it becomes the active vterm, and
    /// its video mode is returned for the caller to set, after which the
    /// caller makes it active. `None` when nothing is switched to.
    pub fn set_active_vterm(&mut self, active: usize) -> (r: Option<u8>)
        requires
            old(self).wf(),
        ensures
            final(self).wf(),
            final(self).key_state == old(self).key_state,
            switched(*old(self), *final(self), active, r),
    {
        if self.active_vterm >= self.vterm_list.len() {
            return None;
        }
        let cur = self.active_vterm;
        let ghost before = self.vterm_list@;
        let mut current_term = self.vterm_list.remove(cur);
        current_term.make_inactive();
        self.vterm_list.insert(cur, current_term);
        proof {
            assert forall|j: int| 0 <= j < before.len() && j != cur implies #[trigger] self.vterm_list@[j] == before[j] by {
                if j < cur {
                } else {
                }
            }
            assert forall|j: int| 0 <= j < self.vterm_list@.len() implies (#[trigger] self.vterm_list@[j]).wf() by {
                if j != cur {
                    assert(before[j].wf());
                }
            }
        }
        if active >= self.vterm_list.len() {
            return None;
        }
        self.active_vterm = active;
        Some(self.vterm_list[active].video_mode)
    }

    /// Send everything programs wrote to each vterm's device to that vterm,
    /// returning each vterm's screen operations.
    pub fn process_buffers(&mut self, devices: &mut Vec<TTYDeviceData>) -> (r: Vec<Vec<TextOp>>)
        requires
            old(self).wf(),
            old(devices)@.len() >= old(self).vterm_list@.len(),
            forall|i: int| 0 <= i < old(devices)@.len() ==> (#[trigger] old(devices)@[i]).wf(),
            writes_accepted(old(self).vterm_list@, old(devices)@),
        ensures
            final(self).wf(),
            final(self).active_vterm == old(self).active_vterm,
            final(self).key_state == old(self).key_state,
            final(self).vterm_list@.len() == old(self).vterm_list@.len(),
            final(devices)@.len() == old(devices)@.len(),
            r@.len() == old(self).vterm_list@.len(),
            forall|i: int| 0 <= i < old(self).vterm_list@.len() ==> #[trigger] processed(old(self).vterm_list@[i],
                old(devices)@[i], r@[i]@, final(self).vterm_list@[i], final(devices)@[i]),
    {
        let mut all_ops: Vec<Vec<TextOp>> = Vec::new();
        let mut i: usize = 0;
        let ghost vterms0 = self.vterm_list@;
        let ghost devices0 = devices@;
        while i < self.vterm_list.len()
            invariant
                i <= self.vterm_list@.len(),
                self.vterm_list@.len() == vterms0.len(),
                devices@.len() == devices0.len(),
                devices0.len() >= vterms0.len(),
                self.active_vterm == old(self).active_vterm,
                self.key_state == old(self).key_state,
                all_ops@.len() == i,
                forall|j: int| 0 <= j < self.vterm_list@.len() ==> (#[trigger] self.vterm_list@[j]).wf(),
                forall|j: int| 0 <= j < devices@.len() ==> (#[trigger] devices@[j]).wf(),
                forall|j: int| i <= j < vterms0.len() ==> #[trigger] self.vterm_list@[j] == vterms0[j],
                forall|j: int| i <= j < devices0.len() ==> #[trigger] devices@[j] == devices0[j],
                writes_accepted(vterms0, devices0),
                forall|j: int| 0 <= j < i ==> #[trigger] processed(vterms0[j], devices0[j], all_ops@[j]@,
                    self.vterm_list@[j], devices@[j]),
            decreases vterms0.len() - i,
        {
            let ghost i0 = i as int;
            let ghost vl_before = self.vterm_list@;
            let ghost dv_before = devices@;
            let ghost ops_before = all_ops@;
            let mut vterm = self.vterm_list.remove(i);
            let mut device = devices.remove(i);
            assert(vterm == vterms0[i as int]);
            assert(run_accepted(vterms0[i as int].ansi_parser.state, vterms0[i as int].ansi_parser.csi_args@,
                devices0[i as int].write_buffer.buffer@));
            let ops = drain_into(&mut vterm, &mut device.write_buffer);
            self.vterm_list.insert(i, vterm);
            devices.insert(i, device);
            all_ops.push(ops);
            proof {
                assert(self.vterm_list@ =~= vl_before.update(i as int, vterm));
                assert(devices@ =~= dv_before.update(i as int, device));
                assert(all_ops@ =~= ops_before.push(ops));
            }
            i += 1;
            proof {
                assert forall|j: int| 0 <= j < i implies #[trigger] processed(vterms0[j], devices0[j], all_ops@[j]@,
                    self.vterm_list@[j], devices@[j]) by {
                    if j < i0 {
                        assert(all_ops@[j] == ops_before[j]);
                        assert(devices@[j] == dv_before[j]);
                        assert(self.vterm_list@[j] == vl_before[j]);
                    } else {
                        assert(all_ops@[j] == ops);
                        assert(devices0[j] == dv_before[j]);
                        assert(vterms0[j] == vl_before[j]);
                        assert(self.vterm_list@[j] == vterm);
                        assert(devices@[j] == device);
                    }
                }
            }
        }
        all_ops
    }

    /// Handle a key action: alt and a digit switch the screen to that
    /// vterm; otherwise the key state follows the action, and the bytes of a
    /// pressed key are sent to the active vterm. `layout` holds the
    /// characters of each key code.
    pub fn send_key_action(&mut self, action: KeyAction, layout: &[(u8, u8)]) -> (r: KeyResponse)
        requires
            old(self).wf(),
            layout@.len() >= LAYOUT_SIZE,
            switch_target(old(self).key_state, action) is None ==> key_accepted(*old(self), action, layout@),
        ensures
            final(self).wf(),
            match switch_target(old(self).key_state, action) {
                Some(d) => r matches KeyResponse::Switch(m) && switched(*old(self), *final(self), d as usize, m)
                    && final(self).key_state == old(self).key_state,
                None => r matches KeyResponse::Typed(ops) && typed(*old(self), *final(self), action, layout@, ops@),
            },
    {
        if self.key_state.alt {
            match action {
                KeyAction::Press(code) => match code.kind {
                    KeyKind::Num(d) => {
                        let m = self.set_active_vterm(d as usize);
                        return KeyResponse::Switch(m);
                    },
                    _ => {},
                },
                _ => {},
            }
        }
        let mut input_buffer: Vec<u8> = vec![0u8, 0u8, 0u8, 0u8];
        let output = self.key_state.process_key_action(action, layout, input_buffer.as_mut_slice());
        match output {
            Some(len) => {
                if self.active_vterm >= self.vterm_list.len() {
                    return KeyResponse::Typed(Vec::new());
                }
                let chunk = first_bytes(&input_buffer, len);
                let a = self.active_vterm;
                let ghost before = self.vterm_list@;
                let mut term = self.vterm_list.remove(a);
                let ops = term.send_characters(chunk.as_slice());
                self.vterm_list.insert(a, term);
                proof {
                    assert(self.vterm_list@ =~= before.update(a as int, term));
                    assert forall|j: int| 0 <= j < self.vterm_list@.len() implies (#[trigger] self.vterm_list@[j]).wf() by {
                        if j != a {
                            assert(before[j].wf());
                        }
                    }
                }
                KeyResponse::Typed(ops)
            },
            None => KeyResponse::Typed(Vec::new()),
        }
    }
}

} // verus!
