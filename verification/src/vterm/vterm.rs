//! A vterm virtualizes access to the keyboard input and video output. This
//! is how the operating system achieves multitasking from the user's
//! perspective: DOS is inherently a single-tasking environment, where each
//! program takes over the entire screen. By capturing keyboard hooks to
//! switch between environments, the user can run multiple DOS applications
//! in parallel. Switching requires that each vterm stores all state needed
//! to reconstruct the video state at any time, and can track any changes
//! that happen while inactive.
use vstd::prelude::*;
use crate::hardware::vga::TextOp;
use crate::memory::address::PhysicalAddress;
use crate::tty::parser::{lemma_run_concat, next_action, run_accepted, run_args, run_state, Parser, TTYAction};
use super::memory::MemoryBackup;

verus! {

/// Where the VGA text buffer is mapped while a vterm is active.
pub const VGA_TEXT_LOCATION: usize = 0xc00b8000;
/// The slot of the backup of the text-mode page at 0xb8000.
pub const TEXT_BACKUP_SLOT: usize = 24;

/// How a byte is written: a control character shows as `^` and the letter
/// 0x40 above it.
pub open spec fn write_ops(ch: u8) -> Seq<TextOp> {
    if ch < 0x20 {
        seq![TextOp::WriteByte(0x5e), TextOp::WriteByte((ch + 0x40) as u8)]
    } else {
        seq![TextOp::WriteByte(ch)]
    }
}

/// The screen operation of a parser action, for the actions the text mode
/// supports.
pub open spec fn action_ops(action: TTYAction) -> Seq<TextOp> {
    match action {
        TTYAction::MoveCursor(dx, dy) => seq![TextOp::MoveCursorRelative(dx, dy)],
        TTYAction::SetPosition(col, row) => seq![TextOp::MoveCursor(col as u8, row as u8)],
        TTYAction::ClearScreen => seq![TextOp::ClearScreen],
        TTYAction::ClearToBeginning => seq![TextOp::ClearScreenToBeginning],
        TTYAction::ClearToEnd => seq![TextOp::ClearScreenToEnd],
        TTYAction::ClearRow => seq![TextOp::ClearRow],
        TTYAction::ClearRowToBeginning => seq![TextOp::ClearRowToBeginning],
        TTYAction::ClearRowToEnd => seq![TextOp::ClearRowToEnd],
        TTYAction::ScrollUp(lines) => seq![TextOp::Scroll(lines as u8)],
        TTYAction::ResetColors => seq![TextOp::ResetColors],
        TTYAction::SetFgColor(c) => seq![TextOp::SetFgColor(c)],
        TTYAction::SetBgColor(c) => seq![TextOp::SetBgColor(c)],
        _ => seq![],
    }
}

/// The screen operations of one byte sent to a vterm: the printed byte, or
/// the byte itself when it is part of a control sequence, then the effect
/// of the parser's action.
pub open spec fn byte_ops(action: TTYAction, ch: u8) -> Seq<TextOp> {
    (match action {
        TTYAction::Print(p) => write_ops(p),
        _ => write_ops(ch),
    }) + action_ops(action)
}

/// The screen operations of a run of bytes sent to a vterm whose parser
/// starts in `state` with arguments `args`.
pub open spec fn send_ops(state: crate::tty::parser::ParseState, args: Seq<Option<u32>>, bytes: Seq<u8>) -> Seq<TextOp>
    decreases bytes.len(),
{
    if bytes.len() == 0 {
        seq![]
    } else {
        let pre = bytes.drop_last();
        send_ops(state, args, pre) + byte_ops(
            next_action(run_state(state, args, pre), run_args(state, args, pre), bytes.last()), bytes.last())
    }
}

/// Sending two runs of bytes in turn gives the operations of sending both at
/// once.
pub proof fn lemma_send_ops_concat(state: crate::tty::parser::ParseState, args: Seq<Option<u32>>, x: Seq<u8>, y: Seq<u8>)
    ensures
        send_ops(state, args, x + y) == send_ops(state, args, x)
            + send_ops(run_state(state, args, x), run_args(state, args, x), y),
    decreases y.len(),
{
    if y.len() == 0 {
        assert(x + y =~= x);
        assert(send_ops(state, args, x) + seq![] =~= send_ops(state, args, x));
    } else {
        assert((x + y).drop_last() =~= x + y.drop_last());
        lemma_send_ops_concat(state, args, x, y.drop_last());
        lemma_run_concat(state, args, x, y.drop_last());
        let s2 = run_state(state, args, x);
        let a2 = run_args(state, args, x);
        assert(send_ops(state, args, x + y) =~= send_ops(state, args, x) + send_ops(s2, a2, y));
    }
}

pub struct VTerm {
    pub video_mode: u8,
    /// Backups of the pages of video memory from 0xa0000 to 0xc0000
    pub memory_backups: Vec<Option<MemoryBackup>>,
    /// Where the text buffer is written: video memory while active, the
    /// text-mode backup while inactive
    pub text_buffer: usize,
    pub ansi_parser: Parser,
    /// Whether to echo characters received as input
    pub echo_input_flag: bool,
}

impl VTerm {
    pub open spec fn wf(&self) -> bool {
        &&& self.memory_backups@.len() == 32
        &&& self.ansi_parser.wf()
    }

    /// A vterm in the given video mode, whose text-mode page is backed up by
    /// `text_backup`, which the text buffer writes to until the vterm is
    /// made active.
    pub fn with_video_mode(mode: u8, text_backup: MemoryBackup) -> (r: VTerm)
        ensures
            r.wf(),
            r.video_mode == mode,
            r.memory_backups@[TEXT_BACKUP_SLOT as int] == Some(text_backup),
            forall|i: int| 0 <= i < 32 && i != TEXT_BACKUP_SLOT ==> r.memory_backups@[i] is None,
            r.text_buffer == text_backup.mapped_to.0,
            r.ansi_parser.state == crate::tty::parser::ParseState::Ready,
            r.ansi_parser.csi_args@.len() == 0,
            r.echo_input_flag,
    {
        let mut memory_backups: Vec<Option<MemoryBackup>> = Vec::new();
        let mut i: usize = 0;
        while i < 32
            invariant
                i <= 32,
                memory_backups@.len() == i,
                forall|j: int| 0 <= j < i ==> memory_backups@[j] is None,
            decreases 32 - i,
        {
            memory_backups.push(None);
            i += 1;
        }
        // all vterms have a memory backup for the "text mode" page at 0xb8000
        memory_backups.set(TEXT_BACKUP_SLOT, Some(text_backup));
        let backup_location = text_backup.mapped_to.as_usize();
        VTerm {
            video_mode: mode,
            memory_backups,
            text_buffer: backup_location,
            ansi_parser: Parser::new(),
            echo_input_flag: true,
        }
    }

    /// The backup of the video memory page holding `address`, if the address
    /// is video memory (0xa0000 to 0xc0000) and its page has one.
    pub fn get_memory_backup(&self, address: PhysicalAddress) -> (r: Option<&MemoryBackup>)
        requires
            self.wf(),
        ensures
            match r {
                Some(b) => 0xa0000 <= address.0 < 0xc0000
                    && self.memory_backups@[(address.0 - 0xa0000) / 0x1000] == Some(*b),
                None => address.0 < 0xa0000 || address.0 >= 0xc0000
                    || self.memory_backups@[(address.0 - 0xa0000) / 0x1000] is None,
            },
    {
        let addr = address.as_u32();
        if addr < 0xa0000 {
            return None;
        }
        if addr >= 0xc0000 {
            return None;
        }
        let index = ((addr - 0xa0000) / 0x1000) as usize;
        self.memory_backups[index].as_ref()
    }

    /// Once the backups have been restored to video memory, the active vterm
    /// writes text directly to video memory.
    pub fn make_active(&mut self)
        ensures
            final(self).text_buffer == VGA_TEXT_LOCATION,
            final(self).memory_backups@ == old(self).memory_backups@,
            final(self).video_mode == old(self).video_mode,
            final(self).ansi_parser == old(self).ansi_parser,
            final(self).echo_input_flag == old(self).echo_input_flag,
    {
        self.text_buffer = VGA_TEXT_LOCATION;
    }

    pub fn make_initial(&mut self)
        ensures
            final(self).text_buffer == VGA_TEXT_LOCATION,
            final(self).memory_backups@ == old(self).memory_backups@,
            final(self).video_mode == old(self).video_mode,
            final(self).ansi_parser == old(self).ansi_parser,
            final(self).echo_input_flag == old(self).echo_input_flag,
    {
        self.text_buffer = VGA_TEXT_LOCATION;
    }

    /// Once video memory has been copied to the backups, the inactive vterm
    /// writes text to its text-mode backup.
    pub fn make_inactive(&mut self)
        requires
            old(self).wf(),
        ensures
            final(self).wf(),
            final(self).text_buffer == match old(self).memory_backups@[TEXT_BACKUP_SLOT as int] {
                Some(b) => b.mapped_to.0 as usize,
                None => old(self).text_buffer,
            },
            final(self).memory_backups@ == old(self).memory_backups@,
            final(self).video_mode == old(self).video_mode,
            final(self).ansi_parser == old(self).ansi_parser,
            final(self).echo_input_flag == old(self).echo_input_flag,
    {
        match self.get_memory_backup(PhysicalAddress::new(0xb8000)) {
            Some(backup) => {
                self.text_buffer = backup.mapped_to.as_usize();
            },
            None => {},
        }
    }

    fn push_write(out: &mut Vec<TextOp>, ch: u8)
        ensures
            final(out)@ == old(out)@ + write_ops(ch),
    {
        if ch < 0x20 {
            out.push(TextOp::WriteByte(0x5e));
            out.push(TextOp::WriteByte(ch + 0x40));
        } else {
            out.push(TextOp::WriteByte(ch));
        }
        assert(final(out)@ =~= old(out)@ + write_ops(ch));
    }

    /// Directly write a character to the text mode buffer.
    pub fn write_character(&self, ch: u8) -> (r: Vec<TextOp>)
        ensures
            r@ == write_ops(ch),
    {
        let mut out: Vec<TextOp> = Vec::new();
        Self::push_write(&mut out, ch);
        assert(out@ =~= write_ops(ch));
        out
    }

    /// Receive characters directly from the keyboard, echoing them when
    /// echo is on.
    pub fn handle_input(&self, chars: &[u8]) -> (r: Vec<TextOp>)
        ensures
            !self.echo_input_flag ==> r@.len() == 0,
            self.echo_input_flag ==> r@ == chars@.fold_left(Seq::<TextOp>::empty(), |acc: Seq<TextOp>, c: u8| acc + write_ops(c)),
    {
        let mut out: Vec<TextOp> = Vec::new();
        if self.echo_input_flag {
            let mut i: usize = 0;
            while i < chars.len()
                invariant
                    i <= chars@.len(),
                    out@ == chars@.take(i as int).fold_left(Seq::<TextOp>::empty(), |acc: Seq<TextOp>, c: u8| acc + write_ops(c)),
                decreases chars@.len() - i,
            {
                proof {
                    assert(chars@.take(i + 1).drop_last() =~= chars@.take(i as int));
                }
                Self::push_write(&mut out, chars[i]);
                i += 1;
            }
            assert(chars@.take(i as int) =~= chars@);
        }
        out
    }

    fn push_action(out: &mut Vec<TextOp>, action: TTYAction)
        ensures
            final(out)@ == old(out)@ + action_ops(action),
    {
        match action {
            TTYAction::MoveCursor(dx, dy) => out.push(TextOp::MoveCursorRelative(dx, dy)),
            TTYAction::SetPosition(col, row) => out.push(TextOp::MoveCursor(col as u8, row as u8)),
            TTYAction::ClearScreen => out.push(TextOp::ClearScreen),
            TTYAction::ClearToBeginning => out.push(TextOp::ClearScreenToBeginning),
            TTYAction::ClearToEnd => out.push(TextOp::ClearScreenToEnd),
            TTYAction::ClearRow => out.push(TextOp::ClearRow),
            TTYAction::ClearRowToBeginning => out.push(TextOp::ClearRowToBeginning),
            TTYAction::ClearRowToEnd => out.push(TextOp::ClearRowToEnd),
            TTYAction::ScrollUp(lines) => out.push(TextOp::Scroll(lines as u8)),
            TTYAction::ResetColors => out.push(TextOp::ResetColors),
            TTYAction::SetFgColor(fg) => out.push(TextOp::SetFgColor(fg)),
            TTYAction::SetBgColor(bg) => out.push(TextOp::SetBgColor(bg)),
            _ => {},
        }
        assert(final(out)@ =~= old(out)@ + action_ops(action));
    }

    /// Send bytes written by a program to the screen: each goes through the
    /// ANSI parser, and printable bytes (or the bytes of a control sequence)
    /// are written, followed by the effect of the parser's action.
    pub fn send_characters(&mut self, chars: &[u8]) -> (r: Vec<TextOp>)
        requires
            old(self).wf(),
            run_accepted(old(self).ansi_parser.state, old(self).ansi_parser.csi_args@, chars@),
        ensures
            final(self).wf(),
            r@ == send_ops(old(self).ansi_parser.state, old(self).ansi_parser.csi_args@, chars@),
            final(self).ansi_parser.state == run_state(old(self).ansi_parser.state, old(self).ansi_parser.csi_args@, chars@),
            final(self).ansi_parser.csi_args@ == run_args(old(self).ansi_parser.state, old(self).ansi_parser.csi_args@, chars@),
            final(self).memory_backups@ == old(self).memory_backups@,
            final(self).video_mode == old(self).video_mode,
            final(self).text_buffer == old(self).text_buffer,
            final(self).echo_input_flag == old(self).echo_input_flag,
    {
        let ghost s0 = self.ansi_parser.state;
        let ghost a0 = self.ansi_parser.csi_args@;
        let mut out: Vec<TextOp> = Vec::new();
        let mut i: usize = 0;
        while i < chars.len()
            invariant
                i <= chars@.len(),
                self.wf(),
                run_accepted(s0, a0, chars@),
                self.ansi_parser.state == run_state(s0, a0, chars@.take(i as int)),
                self.ansi_parser.csi_args@ == run_args(s0, a0, chars@.take(i as int)),
                out@ == send_ops(s0, a0, chars@.take(i as int)),
                self.memory_backups@ == old(self).memory_backups@,
                self.video_mode == old(self).video_mode,
                self.text_buffer == old(self).text_buffer,
                self.echo_input_flag == old(self).echo_input_flag,
            decreases chars@.len() - i,
        {
            let ch = chars[i];
            proof {
                assert(chars@.take(i + 1).drop_last() =~= chars@.take(i as int));
                assert(chars@.take(i + 1).last() == ch);
            }
            let action = self.ansi_parser.process_character(ch);
            match action {
                TTYAction::Print(print) => Self::push_write(&mut out, print),
                // if echoing control characters is enabled, print it
                _ => Self::push_write(&mut out, ch),
            }
            Self::push_action(&mut out, action);
            i += 1;
        }
        assert(chars@.take(i as int) =~= chars@);
        out
    }

    /// Scroll the text mode up by a number of rows.
    pub fn scroll(&self, delta: usize) -> (r: TextOp)
        ensures
            r == TextOp::Scroll(delta as u8),
    {
        TextOp::Scroll(delta as u8)
    }
}

} // verus!
