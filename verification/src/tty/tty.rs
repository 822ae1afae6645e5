//! A terminal: it parses ANSI-style bytes into requests to the VGA text
//! buffer, and collects input a line at a time in canonical mode.
use vstd::prelude::*;
use crate::hardware::vga::{Color, TextOp};
use super::parser::{byte_accepted, csi_arg, csi_final_action, is_digit, next_args, next_state, ParseState, TTYAction};

verus! {

/// Size of the copy of the screen kept while the terminal is in the
/// background: 80 by 25 cells of two bytes.
pub const BACK_BUFFER_SIZE: usize = 4000;
/// Where the VGA text buffer is mapped.
pub const VGA_TEXT_LOCATION: usize = 0xc00b8000;

/// How the terminal processes input
#[derive(Copy, Clone, Debug, PartialEq, Eq, Structural)]
pub enum ReadMode {
    /// Send individual bytes directly to the TTY device, no output
    Raw,
    /// Process one line at a time
    Canonical,
}

/// Toggle the cursor block when the cursor is shown.
pub open spec fn cursor_ops(show_cursor: bool) -> Seq<TextOp> {
    if show_cursor { seq![TextOp::InvertCursor] } else { seq![] }
}

/// The color change of a Select Graphic Rendition modifier.
pub open spec fn tty_sgr_ops(modifier: u32) -> Seq<TextOp> {
    if modifier == 0 { seq![TextOp::ResetColors] }
    else if modifier == 30 { seq![TextOp::SetFgColor(Color::Black)] }
    else if modifier == 31 { seq![TextOp::SetFgColor(Color::Red)] }
    else if modifier == 32 { seq![TextOp::SetFgColor(Color::Green)] }
    else if modifier == 33 { seq![TextOp::SetFgColor(Color::Brown)] }
    else if modifier == 34 { seq![TextOp::SetFgColor(Color::Blue)] }
    else if modifier == 35 { seq![TextOp::SetFgColor(Color::Magenta)] }
    else if modifier == 36 { seq![TextOp::SetFgColor(Color::Cyan)] }
    else if modifier == 37 || modifier == 39 { seq![TextOp::SetFgColor(Color::LightGrey)] }
    else if modifier == 40 || modifier == 49 { seq![TextOp::SetBgColor(Color::Black)] }
    else if modifier == 41 { seq![TextOp::SetBgColor(Color::Red)] }
    else if modifier == 42 { seq![TextOp::SetBgColor(Color::Green)] }
    else if modifier == 43 { seq![TextOp::SetBgColor(Color::Brown)] }
    else if modifier == 44 { seq![TextOp::SetBgColor(Color::Blue)] }
    else if modifier == 45 { seq![TextOp::SetBgColor(Color::Magenta)] }
    else if modifier == 46 { seq![TextOp::SetBgColor(Color::Cyan)] }
    else if modifier == 47 { seq![TextOp::SetBgColor(Color::LightGrey)] }
    else if modifier == 90 { seq![TextOp::SetFgColor(Color::DarkGrey)] }
    else if modifier == 91 { seq![TextOp::SetFgColor(Color::LightRed)] }
    else if modifier == 92 { seq![TextOp::SetFgColor(Color::LightGreen)] }
    else if modifier == 93 { seq![TextOp::SetFgColor(Color::LightBrown)] }
    else if modifier == 94 { seq![TextOp::SetFgColor(Color::LightBlue)] }
    else if modifier == 95 { seq![TextOp::SetFgColor(Color::LightMagenta)] }
    else if modifier == 96 { seq![TextOp::SetFgColor(Color::LightCyan)] }
    else if modifier == 97 { seq![TextOp::SetFgColor(Color::White)] }
    else { seq![] }
}

/// The screen operations of the byte that ends a CSI sequence. Cursor moves,
/// clears and colors take effect; line, column and position requests are
/// read and ignored.
pub open spec fn tty_csi_ops(ch: u8, args: Seq<Option<u32>>) -> Seq<TextOp> {
    let first = csi_arg(args, 0, 1);
    if ch == 0x41 {
        seq![TextOp::MoveCursorRelative(0, (-(first as isize)) as isize)]
    } else if ch == 0x42 {
        seq![TextOp::MoveCursorRelative(0, first as isize)]
    } else if ch == 0x43 {
        seq![TextOp::MoveCursorRelative(first as isize, 0)]
    } else if ch == 0x44 {
        seq![TextOp::MoveCursorRelative((-(first as isize)) as isize, 0)]
    } else if ch == 0x4a {
        let d = csi_arg(args, 0, 0);
        if d == 0 { seq![TextOp::ClearScreenToEnd] }
        else if d == 1 { seq![TextOp::ClearScreenToBeginning] }
        else if d == 2 || d == 3 { seq![TextOp::ClearScreen] }
        else { seq![] }
    } else if ch == 0x4b {
        let d = csi_arg(args, 0, 0);
        if d == 0 { seq![TextOp::ClearRowToEnd] }
        else if d == 1 { seq![TextOp::ClearRowToBeginning] }
        else if d == 2 || d == 3 { seq![TextOp::ClearRow] }
        else { seq![] }
    } else if ch == 0x6d {
        tty_sgr_ops(csi_arg(args, 0, 0))
    } else {
        seq![]
    }
}

/// What the terminal prints for a byte, and the screen operations of the
/// byte itself: inside a CSI sequence the cursor is disabled while the
/// sequence is read, and shown again afterwards.
pub open spec fn char_output(state: ParseState, args: Seq<Option<u32>>, show_cursor: bool, ch: u8) -> (Option<u8>, Seq<TextOp>) {
    match state {
        ParseState::Ready => if ch == 0x1b { (None, seq![]) } else { (Some(ch), seq![]) },
        ParseState::EscapeStart => (None, seq![]),
        ParseState::CSI => (None, seq![TextOp::DisableCursor]
            + (if is_digit(ch) || ch == 0x3b { seq![] } else { tty_csi_ops(ch, args) })
            + cursor_ops(show_cursor)),
    }
}

/// The screen operations of sending a byte to the terminal: a backspace
/// erases the cell before the cursor, and any other byte goes through the
/// parser, with a printed byte written at the cursor.
pub open spec fn send_ops(state: ParseState, args: Seq<Option<u32>>, show_cursor: bool, byte: u8) -> Seq<TextOp> {
    if byte == 8 {
        cursor_ops(show_cursor) + seq![TextOp::MoveCursorRelative(-1isize, 0isize), TextOp::WriteByte(0x20),
            TextOp::MoveCursorRelative(-1isize, 0isize)] + cursor_ops(show_cursor)
    } else {
        let (out, ops) = char_output(state, args, show_cursor, byte);
        ops + match out {
            Some(c) => seq![TextOp::WriteByte(c)] + cursor_ops(show_cursor),
            None => seq![],
        }
    }
}

/// The parse state after sending a run of bytes to a terminal: a backspace
/// leaves it as it was.
pub open spec fn tty_run_state(state: ParseState, args: Seq<Option<u32>>, bytes: Seq<u8>) -> ParseState
    decreases bytes.len(),
{
    if bytes.len() == 0 {
        state
    } else {
        let s = tty_run_state(state, args, bytes.drop_last());
        if bytes.last() == 8 { s } else { next_state(s, bytes.last()) }
    }
}

/// The CSI arguments after sending a run of bytes to a terminal.
pub open spec fn tty_run_args(state: ParseState, args: Seq<Option<u32>>, bytes: Seq<u8>) -> Seq<Option<u32>>
    decreases bytes.len(),
{
    if bytes.len() == 0 {
        args
    } else {
        let pre = bytes.drop_last();
        let a = tty_run_args(state, args, pre);
        if bytes.last() == 8 { a } else { next_args(tty_run_state(state, args, pre), a, bytes.last()) }
    }
}

/// Every byte of the run other than a backspace can be parsed in the state
/// reached before it.
pub open spec fn tty_run_accepted(state: ParseState, args: Seq<Option<u32>>, bytes: Seq<u8>) -> bool {
    forall|i: int| 0 <= i < bytes.len() && bytes[i] != 8 ==> byte_accepted(
        tty_run_state(state, args, #[trigger] bytes.take(i)), tty_run_args(state, args, bytes.take(i)), bytes[i])
}

/// The screen operations of sending a run of bytes to a terminal.
pub open spec fn tty_run_ops(state: ParseState, args: Seq<Option<u32>>, show_cursor: bool, bytes: Seq<u8>) -> Seq<TextOp>
    decreases bytes.len(),
{
    if bytes.len() == 0 {
        seq![]
    } else {
        let pre = bytes.drop_last();
        tty_run_ops(state, args, show_cursor, pre) + send_ops(tty_run_state(state, args, pre),
            tty_run_args(state, args, pre), show_cursor, bytes.last())
    }
}

/// Sending two runs of bytes in turn is sending both at once.
pub proof fn lemma_tty_run_concat(state: ParseState, args: Seq<Option<u32>>, show_cursor: bool, x: Seq<u8>, y: Seq<u8>)
    ensures
        tty_run_state(state, args, x + y) == tty_run_state(tty_run_state(state, args, x), tty_run_args(state, args, x), y),
        tty_run_args(state, args, x + y) == tty_run_args(tty_run_state(state, args, x), tty_run_args(state, args, x), y),
        tty_run_ops(state, args, show_cursor, x + y) == tty_run_ops(state, args, show_cursor, x)
            + tty_run_ops(tty_run_state(state, args, x), tty_run_args(state, args, x), show_cursor, y),
    decreases y.len(),
{
    if y.len() == 0 {
        assert(x + y =~= x);
        assert(tty_run_ops(state, args, show_cursor, x) + seq![] =~= tty_run_ops(state, args, show_cursor, x));
    } else {
        assert((x + y).drop_last() =~= x + y.drop_last());
        lemma_tty_run_concat(state, args, show_cursor, x, y.drop_last());
        let s2 = tty_run_state(state, args, x);
        let a2 = tty_run_args(state, args, x);
        assert(tty_run_ops(state, args, show_cursor, x + y) =~= tty_run_ops(state, args, show_cursor, x)
            + tty_run_ops(s2, a2, show_cursor, y));
    }
}

/// A run is accepted exactly when its first part is, and its second part is
/// from the state the first part reaches.
pub proof fn lemma_tty_run_accepted_concat(state: ParseState, args: Seq<Option<u32>>, x: Seq<u8>, y: Seq<u8>)
    ensures
        tty_run_accepted(state, args, x + y) <==> (tty_run_accepted(state, args, x)
            && tty_run_accepted(tty_run_state(state, args, x), tty_run_args(state, args, x), y)),
{
    let xy = x + y;
    let s2 = tty_run_state(state, args, x);
    let a2 = tty_run_args(state, args, x);
    assert forall|i: int| 0 <= i <= x.len() implies #[trigger] xy.take(i) == x.take(i) by {
        assert(xy.take(i) =~= x.take(i));
    }
    assert forall|j: int| 0 <= j <= y.len() implies #[trigger] xy.take(x.len() + j) == x + y.take(j) by {
        assert(xy.take(x.len() + j) =~= x + y.take(j));
    }
    assert forall|j: int| 0 <= j <= y.len() implies
        tty_run_state(state, args, #[trigger] (x + y.take(j))) == tty_run_state(s2, a2, y.take(j))
        && tty_run_args(state, args, x + y.take(j)) == tty_run_args(s2, a2, y.take(j)) by {
        lemma_tty_run_concat(state, args, false, x, y.take(j));
    }
    if tty_run_accepted(state, args, xy) {
        assert forall|i: int| 0 <= i < x.len() && x[i] != 8 implies byte_accepted(
            tty_run_state(state, args, #[trigger] x.take(i)), tty_run_args(state, args, x.take(i)), x[i]) by {
            assert(xy.take(i) == x.take(i));
            assert(xy[i] == x[i]);
        }
        assert forall|j: int| 0 <= j < y.len() && y[j] != 8 implies byte_accepted(
            tty_run_state(s2, a2, #[trigger] y.take(j)), tty_run_args(s2, a2, y.take(j)), y[j]) by {
            let i = x.len() + j;
            assert(xy.take(i) == x + y.take(j));
            assert(xy[i] == y[j]);
        }
    }
    if tty_run_accepted(state, args, x) && tty_run_accepted(s2, a2, y) {
        assert forall|i: int| 0 <= i < xy.len() && xy[i] != 8 implies byte_accepted(
            tty_run_state(state, args, #[trigger] xy.take(i)), tty_run_args(state, args, xy.take(i)), xy[i]) by {
            if i < x.len() {
                assert(xy.take(i) == x.take(i));
            } else {
                let j = i - x.len();
                assert(xy.take(x.len() + j) == x + y.take(j));
                assert(y.take(j) == y.take(j));
            }
        }
    }
}

/// The screen operations that carry out a parser action: cursor moves,
/// erases and colors; the other actions have none.
pub open spec fn action_ops(action: TTYAction) -> Seq<TextOp> {
    match action {
        TTYAction::MoveCursor(dx, dy) => seq![TextOp::MoveCursorRelative(dx, dy)],
        TTYAction::ClearScreen => seq![TextOp::ClearScreen],
        TTYAction::ClearToBeginning => seq![TextOp::ClearScreenToBeginning],
        TTYAction::ClearToEnd => seq![TextOp::ClearScreenToEnd],
        TTYAction::ClearRow => seq![TextOp::ClearRow],
        TTYAction::ClearRowToBeginning => seq![TextOp::ClearRowToBeginning],
        TTYAction::ClearRowToEnd => seq![TextOp::ClearRowToEnd],
        TTYAction::ResetColors => seq![TextOp::ResetColors],
        TTYAction::SetFgColor(c) => seq![TextOp::SetFgColor(c)],
        TTYAction::SetBgColor(c) => seq![TextOp::SetBgColor(c)],
        _ => seq![],
    }
}

/// The terminal ends a CSI sequence as the parser reads it: its cursor
/// moves, erases and colors are those of the parser's action for the same
/// final byte and arguments, except that it ignores the bright background
/// colors (100 to 107); line, column and position requests it ignores.
pub proof fn lemma_tty_follows_parser(ch: u8, args: Seq<Option<u32>>)
    ensures
        (0x41 <= ch <= 0x44 || ch == 0x4a || ch == 0x4b) ==> tty_csi_ops(ch, args) == action_ops(csi_final_action(ch, args)),
        (ch == 0x6d && !(100 <= csi_arg(args, 0, 0) <= 107)) ==> tty_csi_ops(ch, args)
            == action_ops(csi_final_action(ch, args)),
        (ch == 0x6d && 100 <= csi_arg(args, 0, 0) <= 107) ==> tty_csi_ops(ch, args) == Seq::<TextOp>::empty(),
        (0x45 <= ch <= 0x48) ==> tty_csi_ops(ch, args) == Seq::<TextOp>::empty(),
{
    assert(seq![] =~= Seq::<TextOp>::empty());
}

/// Whether a typed byte reaches the screen: in canonical mode a backspace
/// does when there is typed text on the line to erase; any other byte when
/// echo is on.
pub open spec fn input_shown(canonical: bool, echo: bool, length: int, byte: u8) -> bool {
    if canonical && byte == 8 { length > 0 } else { echo }
}

/// The length of the line being typed after a typed byte: in canonical
/// mode a backspace shortens it, a newline starts a new line, and any other
/// byte lengthens it.
pub open spec fn input_length(canonical: bool, length: int, byte: u8) -> int {
    if !canonical {
        length
    } else if byte == 8 {
        if length > 0 { length - 1 } else { 0 }
    } else if byte == 0x0a {
        0
    } else {
        length + 1
    }
}

/// The parse state, CSI arguments and line length reached by typing a run
/// of bytes, starting from `start`, and the screen operations of the run.
pub open spec fn input_run(start: (ParseState, Seq<Option<u32>>, int), canonical: bool, echo: bool,
    show_cursor: bool, bytes: Seq<u8>) -> ((ParseState, Seq<Option<u32>>, int), Seq<TextOp>)
    decreases bytes.len(),
{
    if bytes.len() == 0 {
        (start, seq![])
    } else {
        let (p, ops) = input_run(start, canonical, echo, show_cursor, bytes.drop_last());
        let b = bytes.last();
        let shown = input_shown(canonical, echo, p.2, b);
        let parsed = shown && b != 8;
        let state = if parsed { next_state(p.0, b) } else { p.0 };
        let args = if parsed { next_args(p.0, p.1, b) } else { p.1 };
        ((state, args, input_length(canonical, p.2, b)),
            ops + if shown { send_ops(p.0, p.1, show_cursor, b) } else { seq![] })
    }
}

/// Every byte of a typed run can be handled without overflow: a byte sent
/// through the parser is accepted there, and the line length stays below
/// the largest `usize`.
pub open spec fn input_accepted(start: (ParseState, Seq<Option<u32>>, int), canonical: bool, echo: bool,
    show_cursor: bool, bytes: Seq<u8>) -> bool {
    forall|i: int| 0 <= i < bytes.len() ==> {
        let p = #[trigger] input_run(start, canonical, echo, show_cursor, bytes.take(i)).0;
        &&& (input_shown(canonical, echo, p.2, bytes[i]) && bytes[i] != 8 ==> byte_accepted(p.0, p.1, bytes[i]))
        &&& (canonical && bytes[i] != 8 && bytes[i] != 0x0a ==> p.2 < usize::MAX)
    }
}

/// Interface for a TTY. It parses ANSI-style terminal bytes into requests to
/// the text buffer.
pub struct TTY {
    /// Read mode determines how data is collected before passed to readers
    pub read_mode: ReadMode,
    /// Whether echoing is enabled, controlled by ioctl commands
    pub echo: bool,
    /// Whether the cursor is currently visible
    pub show_cursor: bool,
    /// Track the current parsing state
    pub parse_state: ParseState,
    pub csi_args: Vec<Option<u32>>,
    /// Length of actual text (non special characters) in the read buffer,
    /// when in canonical mode
    pub canonical_length: usize,
    /// Copy of the screen while the terminal is in the background
    pub back_buffer: Vec<u8>,
}

impl TTY {
    /// Inside a CSI sequence there is always a current argument.
    pub open spec fn wf(&self) -> bool {
        self.parse_state == ParseState::CSI ==> self.csi_args@.len() > 0
    }

    /// A terminal in canonical mode with echo and a visible cursor.
    pub fn new() -> (r: TTY)
        ensures
            r.wf(),
            r.read_mode == ReadMode::Canonical,
            r.echo,
            r.show_cursor,
            r.parse_state == ParseState::Ready,
            r.csi_args@.len() == 0,
            r.canonical_length == 0,
            r.back_buffer@.len() == BACK_BUFFER_SIZE,
    {
        let mut back_buffer: Vec<u8> = Vec::with_capacity(BACK_BUFFER_SIZE);
        let mut i: usize = 0;
        while i < BACK_BUFFER_SIZE
            invariant
                i <= BACK_BUFFER_SIZE,
                back_buffer@.len() == i,
            decreases BACK_BUFFER_SIZE - i,
        {
            back_buffer.push(0);
            i += 1;
        }
        TTY {
            read_mode: ReadMode::Canonical,
            echo: true,
            show_cursor: true,
            parse_state: ParseState::Ready,
            csi_args: Vec::with_capacity(8),
            canonical_length: 0,
            back_buffer,
        }
    }

    pub fn reset_canonical_length(&mut self)
        ensures
            final(self).canonical_length == 0,
            final(self).parse_state == old(self).parse_state,
            final(self).csi_args@ == old(self).csi_args@,
            final(self).read_mode == old(self).read_mode,
            final(self).echo == old(self).echo,
            final(self).show_cursor == old(self).show_cursor,
    {
        self.canonical_length = 0;
    }

    pub fn is_canonical_mode(&self) -> (r: bool)
        ensures
            r == (self.read_mode == ReadMode::Canonical),
    {
        match self.read_mode {
            ReadMode::Canonical => true,
            _ => false,
        }
    }

    /// The `index`th CSI argument, or `default` when absent or empty.
    pub fn get_csi_arg(&self, index: usize, default: u32) -> (r: u32)
        ensures
            r == csi_arg(self.csi_args@, index as int, default),
    {
        if index < self.csi_args.len() {
            match self.csi_args[index] {
                Some(val) => val,
                None => default,
            }
        } else {
            default
        }
    }

    fn push_cursor(&self, out: &mut Vec<TextOp>)
        ensures
            final(out)@ == old(out)@ + cursor_ops(self.show_cursor),
    {
        if self.show_cursor {
            out.push(TextOp::InvertCursor);
        }
        assert(out@ =~= old(out)@ + cursor_ops(self.show_cursor));
    }

    /// The screen operations ending a CSI sequence with `ch`.
    fn csi_ops(&self, ch: u8, out: &mut Vec<TextOp>)
        requires
            (ch == 0x41 || ch == 0x44) ==> csi_arg(self.csi_args@, 0, 1) as isize != isize::MIN,
        ensures
            final(out)@ == old(out)@ + tty_csi_ops(ch, self.csi_args@),
    {
        let ghost before = out@;
        match ch {
            0x41 => {
                // Cursor Up
                let delta = self.get_csi_arg(0, 1);
                out.push(TextOp::MoveCursorRelative(0, -(delta as isize)));
            },
            0x42 => {
                // Cursor Down
                let delta = self.get_csi_arg(0, 1);
                out.push(TextOp::MoveCursorRelative(0, delta as isize));
            },
            0x43 => {
                // Cursor Forward
                let delta = self.get_csi_arg(0, 1);
                out.push(TextOp::MoveCursorRelative(delta as isize, 0));
            },
            0x44 => {
                // Cursor Back
                let delta = self.get_csi_arg(0, 1);
                out.push(TextOp::MoveCursorRelative(-(delta as isize), 0));
            },
            0x4a => {
                // Clear screen
                match self.get_csi_arg(0, 0) {
                    0 => out.push(TextOp::ClearScreenToEnd),
                    1 => out.push(TextOp::ClearScreenToBeginning),
                    2 | 3 => out.push(TextOp::ClearScreen),
                    _ => {},
                }
            },
            0x4b => {
                // Clear in line
                match self.get_csi_arg(0, 0) {
                    0 => out.push(TextOp::ClearRowToEnd),
                    1 => out.push(TextOp::ClearRowToBeginning),
                    2 | 3 => out.push(TextOp::ClearRow),
                    _ => {},
                }
            },
            0x6d => {
                // Select Graphic Rendition
                match sgr_op(self.get_csi_arg(0, 0)) {
                    Some(op) => out.push(op),
                    None => {},
                }
            },
            _ => {},
        }
        assert(out@ =~= before + tty_csi_ops(ch, self.csi_args@));
    }

    /// Advance the escape-sequence parser by one byte. Returns the byte to
    /// print, if any, and the screen operations the byte calls for.
    pub fn process_character(&mut self, byte: u8) -> (r: (Option<u8>, Vec<TextOp>))
        requires
            old(self).wf(),
            byte_accepted(old(self).parse_state, old(self).csi_args@, byte),
        ensures
            final(self).wf(),
            final(self).parse_state == next_state(old(self).parse_state, byte),
            final(self).csi_args@ == next_args(old(self).parse_state, old(self).csi_args@, byte),
            (r.0, r.1@) == char_output(old(self).parse_state, old(self).csi_args@, old(self).show_cursor, byte),
            final(self).show_cursor == old(self).show_cursor,
            final(self).echo == old(self).echo,
            final(self).read_mode == old(self).read_mode,
            final(self).canonical_length == old(self).canonical_length,
    {
        let mut ops: Vec<TextOp> = Vec::new();
        match self.parse_state {
            ParseState::Ready => {
                if byte == 0x1b {
                    self.parse_state = ParseState::EscapeStart;
                    (None, ops)
                } else {
                    (Some(byte), ops)
                }
            },
            ParseState::EscapeStart => {
                if byte == 0x5b {
                    self.parse_state = ParseState::CSI;
                    while self.csi_args.len() > 0
                        invariant
                            self.parse_state == ParseState::CSI,
                            self.show_cursor == old(self).show_cursor,
                            self.echo == old(self).echo,
                            self.read_mode == old(self).read_mode,
                            self.canonical_length == old(self).canonical_length,
                        decreases self.csi_args@.len(),
                    {
                        self.csi_args.pop();
                    }
                    self.csi_args.push(None);
                    assert(self.csi_args@ =~= seq![None::<u32>]);
                } else {
                    self.parse_state = ParseState::Ready;
                }
                (None, ops)
            },
            ParseState::CSI => {
                ops.push(TextOp::DisableCursor);
                let done = if 0x30 <= byte && byte <= 0x39 {
                    // arguments are pushed in ascii digits
                    let digit = (byte - 48) as u32;
                    let last_index = self.csi_args.len() - 1;
                    let current = match self.csi_args[last_index] {
                        Some(value) => value * 10,
                        None => 0,
                    } + digit;
                    self.csi_args.set(last_index, Some(current));
                    false
                } else if byte == 0x3b {
                    self.csi_args.push(None);
                    false
                } else {
                    self.csi_ops(byte, &mut ops);
                    true
                };
                if done {
                    self.parse_state = ParseState::Ready;
                }
                self.push_cursor(&mut ops);
                proof {
                    if is_digit(byte) || byte == 0x3b {
                        assert(ops@ =~= seq![TextOp::DisableCursor] + seq![] + cursor_ops(old(self).show_cursor));
                    }
                }
                (None, ops)
            },
        }
    }

    /// Send a byte to the screen: a backspace erases the previous cell, and
    /// other bytes go through the escape-sequence parser.
    pub fn send_data(&mut self, byte: u8) -> (r: Vec<TextOp>)
        requires
            old(self).wf(),
            byte != 8 ==> byte_accepted(old(self).parse_state, old(self).csi_args@, byte),
        ensures
            final(self).wf(),
            r@ == send_ops(old(self).parse_state, old(self).csi_args@, old(self).show_cursor, byte),
            byte == 8 ==> final(self).parse_state == old(self).parse_state && final(self).csi_args@ == old(self).csi_args@,
            byte != 8 ==> final(self).parse_state == next_state(old(self).parse_state, byte)
                && final(self).csi_args@ == next_args(old(self).parse_state, old(self).csi_args@, byte),
            final(self).show_cursor == old(self).show_cursor,
            final(self).echo == old(self).echo,
            final(self).read_mode == old(self).read_mode,
            final(self).canonical_length == old(self).canonical_length,
    {
        if byte == 8 {
            // handle backspace
            let mut ops: Vec<TextOp> = Vec::new();
            self.push_cursor(&mut ops);
            ops.push(TextOp::MoveCursorRelative(-1, 0));
            ops.push(TextOp::WriteByte(0x20));
            ops.push(TextOp::MoveCursorRelative(-1, 0));
            self.push_cursor(&mut ops);
            assert(ops@ =~= send_ops(old(self).parse_state, old(self).csi_args@, old(self).show_cursor, byte));
            return ops;
        }
        let (output, mut ops) = self.process_character(byte);
        let ghost parsed = ops@;
        match output {
            Some(ch) => {
                ops.push(TextOp::WriteByte(ch));
                self.push_cursor(&mut ops);
                assert(ops@ =~= parsed + (seq![TextOp::WriteByte(ch)] + cursor_ops(old(self).show_cursor)));
            },
            None => {
                assert(ops@ =~= parsed + seq![]);
            },
        }
        ops
    }

    /// Handle a byte typed at the keyboard. In canonical mode a backspace
    /// only erases what was typed on the current line, and a newline starts a
    /// new line; with echo on, the byte is sent to the screen.
    pub fn handle_input(&mut self, byte: u8) -> (r: Vec<TextOp>)
        requires
            old(self).wf(),
            byte != 8 && old(self).echo ==> byte_accepted(old(self).parse_state, old(self).csi_args@, byte),
            old(self).read_mode == ReadMode::Canonical && byte != 8 && byte != 0x0a
                ==> old(self).canonical_length < usize::MAX,
        ensures
            final(self).wf(),
            final(self).show_cursor == old(self).show_cursor,
            final(self).echo == old(self).echo,
            final(self).read_mode == old(self).read_mode,
            ({
                let canonical = old(self).read_mode == ReadMode::Canonical;
                let len = old(self).canonical_length as int;
                let shown = input_shown(canonical, old(self).echo, len, byte);
                let parsed = shown && byte != 8;
                &&& final(self).canonical_length == input_length(canonical, len, byte)
                &&& r@ == if shown {
                    send_ops(old(self).parse_state, old(self).csi_args@, old(self).show_cursor, byte)
                } else {
                    seq![]
                }
                &&& final(self).parse_state == if parsed { next_state(old(self).parse_state, byte) } else { old(self).parse_state }
                &&& final(self).csi_args@ == if parsed {
                    next_args(old(self).parse_state, old(self).csi_args@, byte)
                } else {
                    old(self).csi_args@
                }
            }),
    {
        if self.is_canonical_mode() {
            if byte == 8 {
                if self.canonical_length > 0 {
                    self.canonical_length = self.canonical_length - 1;
                    return self.send_data(byte);
                }
                return Vec::new();
            }
            if byte == 0x0a {
                self.canonical_length = 0;
            } else {
                self.canonical_length = self.canonical_length + 1;
            }
        }
        if self.echo {
            self.send_data(byte)
        } else {
            Vec::new()
        }
    }
}

/// The color change of a Select Graphic Rendition modifier, if any.
fn sgr_op(modifier: u32) -> (r: Option<TextOp>)
    ensures
        match r {
            Some(op) => tty_sgr_ops(modifier) == seq![op],
            None => tty_sgr_ops(modifier).len() == 0,
        },
{
    match modifier {
        0 => Some(TextOp::ResetColors),
        30 => Some(TextOp::SetFgColor(Color::Black)),
        31 => Some(TextOp::SetFgColor(Color::Red)),
        32 => Some(TextOp::SetFgColor(Color::Green)),
        33 => Some(TextOp::SetFgColor(Color::Brown)),
        34 => Some(TextOp::SetFgColor(Color::Blue)),
        35 => Some(TextOp::SetFgColor(Color::Magenta)),
        36 => Some(TextOp::SetFgColor(Color::Cyan)),
        37 => Some(TextOp::SetFgColor(Color::LightGrey)),
        39 => Some(TextOp::SetFgColor(Color::LightGrey)),
        40 => Some(TextOp::SetBgColor(Color::Black)),
        41 => Some(TextOp::SetBgColor(Color::Red)),
        42 => Some(TextOp::SetBgColor(Color::Green)),
        43 => Some(TextOp::SetBgColor(Color::Brown)),
        44 => Some(TextOp::SetBgColor(Color::Blue)),
        45 => Some(TextOp::SetBgColor(Color::Magenta)),
        46 => Some(TextOp::SetBgColor(Color::Cyan)),
        47 => Some(TextOp::SetBgColor(Color::LightGrey)),
        49 => Some(TextOp::SetBgColor(Color::Black)),
        90 => Some(TextOp::SetFgColor(Color::DarkGrey)),
        91 => Some(TextOp::SetFgColor(Color::LightRed)),
        92 => Some(TextOp::SetFgColor(Color::LightGreen)),
        93 => Some(TextOp::SetFgColor(Color::LightBrown)),
        94 => Some(TextOp::SetFgColor(Color::LightBlue)),
        95 => Some(TextOp::SetFgColor(Color::LightMagenta)),
        96 => Some(TextOp::SetFgColor(Color::LightCyan)),
        97 => Some(TextOp::SetFgColor(Color::White)),
        _ => None,
    }
}

} // verus!
