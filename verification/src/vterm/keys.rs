//! The meta keys held down at the vterm's keyboard, and the bytes each key
//! press sends to the vterm.
use vstd::prelude::*;
use crate::tty::parser::{lemma_cursor_sequences, next_action, run_args, run_state, ParseState, TTYAction};
use crate::input::{filled, is_meta, layout_chars, lookup_layout, KeyAction, KeyCode, KeyKind, LAYOUT_SIZE};

verus! {

#[derive(Copy, Clone, Debug, PartialEq, Eq, Structural)]
pub struct KeyState {
    pub alt: bool,
    pub ctrl: bool,
    pub shift: bool,
}

/// The bytes a key sends: break (0x03) for C while control is held, the
/// escape sequence of an arrow, or the key's character in the layout,
/// shifted while shift is held.
pub open spec fn key_bytes(ctrl: bool, shift: bool, input: KeyCode, layout: Seq<(u8, u8)>) -> Seq<u8> {
    match input.kind {
        KeyKind::C if ctrl => seq![0x03u8],
        KeyKind::ArrowUp => seq![0x1bu8, 0x5bu8, 0x41u8],
        KeyKind::ArrowDown => seq![0x1bu8, 0x5bu8, 0x42u8],
        KeyKind::ArrowRight => seq![0x1bu8, 0x5bu8, 0x43u8],
        KeyKind::ArrowLeft => seq![0x1bu8, 0x5bu8, 0x44u8],
        _ => {
            let chars = layout_chars(layout, input.code);
            seq![if shift { chars.1 } else { chars.0 }]
        },
    }
}

/// The meta key state after a key action.
pub open spec fn state_after(s: KeyState, action: KeyAction) -> KeyState {
    match action {
        KeyAction::Press(k) => match k.kind {
            KeyKind::Alt => KeyState { alt: true, ..s },
            KeyKind::Control => KeyState { ctrl: true, ..s },
            KeyKind::Shift => KeyState { shift: true, ..s },
            _ => s,
        },
        KeyAction::Release(k) => match k.kind {
            KeyKind::Alt => KeyState { alt: false, ..s },
            KeyKind::Control => KeyState { ctrl: false, ..s },
            KeyKind::Shift => KeyState { shift: false, ..s },
            _ => s,
        },
    }
}

/// The bytes a key action sends: those of a pressed key other than a meta
/// key; none otherwise.
pub open spec fn action_bytes(s: KeyState, action: KeyAction, layout: Seq<(u8, u8)>) -> Option<Seq<u8>> {
    match action {
        KeyAction::Press(k) => if is_meta(k.kind) { None } else { Some(key_bytes(s.ctrl, s.shift, k, layout)) },
        KeyAction::Release(_) => None,
    }
}

/// Releasing a meta key undoes pressing it: the state after a press and a
/// release of the key is the state after the release alone.
pub proof fn lemma_release_undoes_press(s: KeyState, k: KeyCode)
    requires
        is_meta(k.kind),
    ensures
        state_after(state_after(s, KeyAction::Press(k)), KeyAction::Release(k)) == state_after(s, KeyAction::Release(k)),
{
}

/// The arrow keys send the escape sequences ESC [ A (up), ESC [ B (down),
/// ESC [ C (right) and ESC [ D (left), whatever meta keys are held and
/// whatever their codes; read by a terminal's parser from the start, each
/// moves the cursor one step in its direction.
pub proof fn lemma_arrow_keys(ctrl: bool, shift: bool, code: u8, layout: Seq<(u8, u8)>, args: Seq<Option<u32>>)
    ensures
        key_bytes(ctrl, shift, KeyCode { kind: KeyKind::ArrowUp, code }, layout) == seq![0x1bu8, 0x5bu8, 0x41u8],
        key_bytes(ctrl, shift, KeyCode { kind: KeyKind::ArrowDown, code }, layout) == seq![0x1bu8, 0x5bu8, 0x42u8],
        key_bytes(ctrl, shift, KeyCode { kind: KeyKind::ArrowRight, code }, layout) == seq![0x1bu8, 0x5bu8, 0x43u8],
        key_bytes(ctrl, shift, KeyCode { kind: KeyKind::ArrowLeft, code }, layout) == seq![0x1bu8, 0x5bu8, 0x44u8],
        ({
            let moves = |kind: KeyKind| {
                let b = key_bytes(ctrl, shift, KeyCode { kind, code }, layout);
                next_action(run_state(ParseState::Ready, args, b.drop_last()), run_args(ParseState::Ready, args, b.drop_last()),
                    b.last())
            };
            &&& moves(KeyKind::ArrowUp) == TTYAction::MoveCursor(0, -1isize)
            &&& moves(KeyKind::ArrowDown) == TTYAction::MoveCursor(0, 1)
            &&& moves(KeyKind::ArrowRight) == TTYAction::MoveCursor(1, 0)
            &&& moves(KeyKind::ArrowLeft) == TTYAction::MoveCursor(-1isize, 0)
        }),
{
    lemma_cursor_sequences(args, 0x30);
    assert(seq![0x1bu8, 0x5bu8, 0x41u8].drop_last() =~= seq![0x1bu8, 0x5bu8]);
    assert(seq![0x1bu8, 0x5bu8, 0x42u8].drop_last() =~= seq![0x1bu8, 0x5bu8]);
    assert(seq![0x1bu8, 0x5bu8, 0x43u8].drop_last() =~= seq![0x1bu8, 0x5bu8]);
    assert(seq![0x1bu8, 0x5bu8, 0x44u8].drop_last() =~= seq![0x1bu8, 0x5bu8]);
}

/// The meta keys: with control held, C sends the break byte 0x03 whether or
/// not shift is held, and control changes what no other key sends; alt
/// changes nothing that is sent. Every key but the arrows and a C under
/// control sends one byte, the second character of its layout entry while
/// shift is held and the first otherwise.
pub proof fn lemma_meta_keys(s: KeyState, alt: bool, k: KeyCode, action: KeyAction, layout: Seq<(u8, u8)>)
    ensures
        key_bytes(true, s.shift, KeyCode { kind: KeyKind::C, code: k.code }, layout) == seq![0x03u8],
        k.kind != KeyKind::C ==> key_bytes(true, s.shift, k, layout) == key_bytes(false, s.shift, k, layout),
        action_bytes(KeyState { alt, ..s }, action, layout) == action_bytes(s, action, layout),
        (k.kind != KeyKind::ArrowUp && k.kind != KeyKind::ArrowDown && k.kind != KeyKind::ArrowLeft
            && k.kind != KeyKind::ArrowRight && !(s.ctrl && k.kind == KeyKind::C)) ==> {
            &&& key_bytes(s.ctrl, true, k, layout) == seq![layout_chars(layout, k.code).1]
            &&& key_bytes(s.ctrl, false, k, layout) == seq![layout_chars(layout, k.code).0]
        },
{
}

impl KeyState {
    pub fn new() -> (r: KeyState)
        ensures
            !r.alt && !r.ctrl && !r.shift,
    {
        KeyState { alt: false, ctrl: false, shift: false }
    }

    /// Process a key action from the keyboard: a meta key changes the
    /// state; a pressed key puts its bytes at the front of `buffer`, and
    /// their number is returned.
    pub fn process_key_action(&mut self, action: KeyAction, layout: &[(u8, u8)], buffer: &mut [u8]) -> (r: Option<usize>)
        requires
            layout@.len() >= LAYOUT_SIZE,
            action_bytes(*old(self), action, layout@) matches Some(b) ==> old(buffer)@.len() >= b.len(),
        ensures
            *final(self) == state_after(*old(self), action),
            match action_bytes(*old(self), action, layout@) {
                Some(b) => r == Some(b.len() as usize) && filled(old(buffer)@, final(buffer)@, b),
                None => r is None && final(buffer)@ == old(buffer)@,
            },
    {
        match action {
            KeyAction::Press(code) => match code.kind {
                KeyKind::Alt => {
                    self.alt = true;
                    None
                },
                KeyKind::Control => {
                    self.ctrl = true;
                    None
                },
                KeyKind::Shift => {
                    self.shift = true;
                    None
                },
                _ => Some(self.key_code_to_ascii(code, layout, buffer)),
            },
            KeyAction::Release(code) => {
                match code.kind {
                    KeyKind::Alt => self.alt = false,
                    KeyKind::Control => self.ctrl = false,
                    KeyKind::Shift => self.shift = false,
                    _ => {},
                }
                None
            },
        }
    }

    /// Put the escape sequence of an arrow key, ending in `last`, at the
    /// front of `buffer`.
    fn put_arrow(buffer: &mut [u8], last: u8) -> (r: usize)
        requires
            old(buffer)@.len() >= 3,
        ensures
            r == 3,
            filled(old(buffer)@, final(buffer)@, seq![0x1bu8, 0x5bu8, last]),
    {
        buffer[0] = 0x1b;
        buffer[1] = 0x5b;
        buffer[2] = last;
        assert(buffer@.take(3) =~= seq![0x1bu8, 0x5bu8, last]);
        assert(buffer@.skip(3) =~= old(buffer)@.skip(3));
        3
    }

    /// Put the bytes of a key at the front of `buffer`, returning their
    /// number.
    pub fn key_code_to_ascii(&self, input: KeyCode, layout: &[(u8, u8)], buffer: &mut [u8]) -> (r: usize)
        requires
            layout@.len() >= LAYOUT_SIZE,
            old(buffer)@.len() >= key_bytes(self.ctrl, self.shift, input, layout@).len(),
        ensures
            r == key_bytes(self.ctrl, self.shift, input, layout@).len(),
            filled(old(buffer)@, final(buffer)@, key_bytes(self.ctrl, self.shift, input, layout@)),
    {
        if self.ctrl {
            match input.kind {
                KeyKind::C => {
                    buffer[0] = 0x03;
                    assert(buffer@.take(1) =~= seq![0x03u8]);
                    assert(buffer@.skip(1) =~= old(buffer)@.skip(1));
                    return 1;
                },
                _ => {},
            }
        }
        match input.kind {
            KeyKind::ArrowUp => Self::put_arrow(buffer, 0x41),
            KeyKind::ArrowDown => Self::put_arrow(buffer, 0x42),
            KeyKind::ArrowRight => Self::put_arrow(buffer, 0x43),
            KeyKind::ArrowLeft => Self::put_arrow(buffer, 0x44),
            _ => {
                let (normal, shifted) = lookup_layout(layout, input.code);
                buffer[0] = if self.shift { shifted } else { normal };
                assert(buffer@.take(1) =~= key_bytes(self.ctrl, self.shift, input, layout@));
                assert(buffer@.skip(1) =~= old(buffer)@.skip(1));
                1
            },
        }
    }
}

} // verus!
