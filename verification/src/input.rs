//! Keyboard input as the terminals receive it from the keyboard driver.
use vstd::prelude::*;

verus! {

/// How many key codes have characters in a keyboard layout.
pub const LAYOUT_SIZE: usize = 0x60;

/// What a terminal treats a key as: the meta keys, the arrows, the keys of
/// its shortcuts, or any other key.
#[derive(Copy, Clone, Debug, PartialEq, Eq, Structural)]
pub enum KeyKind {
    Alt,
    Control,
    Shift,
    ArrowUp,
    ArrowDown,
    ArrowLeft,
    ArrowRight,
    C,
    /// A digit key, with its digit
    Num(u8),
    Other,
}

/// A key as the keyboard driver reports it: its kind, and its code, which
/// indexes its characters in the keyboard layout.
#[derive(Copy, Clone, Debug, PartialEq, Eq, Structural)]
pub struct KeyCode {
    pub kind: KeyKind,
    pub code: u8,
}

/// A key going down or coming up.
#[derive(Copy, Clone, Debug, PartialEq, Eq, Structural)]
pub enum KeyAction {
    Press(KeyCode),
    Release(KeyCode),
}

/// The characters of a key in a layout, plain and shifted; a code beyond
/// the layout has none (zero).
pub open spec fn layout_chars(layout: Seq<(u8, u8)>, code: u8) -> (u8, u8) {
    if code < LAYOUT_SIZE {
        layout[code as int]
    } else {
        (0, 0)
    }
}

/// Is the key one of the meta keys, whose state is tracked?
pub open spec fn is_meta(kind: KeyKind) -> bool {
    kind == KeyKind::Alt || kind == KeyKind::Control || kind == KeyKind::Shift
}

/// A buffer became `after` from `before` by its first bytes being replaced
/// with `bytes`.
pub open spec fn filled(before: Seq<u8>, after: Seq<u8>, bytes: Seq<u8>) -> bool {
    &&& after.len() == before.len()
    &&& after.take(bytes.len() as int) == bytes
    &&& after.skip(bytes.len() as int) == before.skip(bytes.len() as int)
}

/// Look up the characters of `code` in `layout`.
pub fn lookup_layout(layout: &[(u8, u8)], code: u8) -> (r: (u8, u8))
    requires
        layout@.len() >= LAYOUT_SIZE,
    ensures
        r == layout_chars(layout@, code),
{
    let index = code as usize;
    if index < LAYOUT_SIZE {
        layout[index]
    } else {
        (0, 0)
    }
}

/// The first `n` bytes of `data`.
pub fn first_bytes(data: &Vec<u8>, n: usize) -> (r: Vec<u8>)
    requires
        n <= data@.len(),
    ensures
        r@ == data@.take(n as int),
{
    let mut out: Vec<u8> = Vec::new();
    let mut j: usize = 0;
    while j < n
        invariant
            j <= n,
            n <= data@.len(),
            out@ == data@.take(j as int),
        decreases n - j,
    {
        out.push(data[j]);
        j += 1;
        assert(out@ =~= data@.take(j as int));
    }
    out
}

} // verus!
