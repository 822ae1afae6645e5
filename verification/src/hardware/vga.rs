//! Colors of the VGA text mode.
use vstd::prelude::*;

verus! {

/// The sixteen colors of a VGA text-mode cell.
#[derive(Copy, Clone, Debug, PartialEq, Eq, Structural)]
pub enum Color {
    Black,
    Blue,
    Green,
    Cyan,
    Red,
    Magenta,
    Brown,
    LightGrey,
    DarkGrey,
    LightBlue,
    LightGreen,
    LightCyan,
    LightRed,
    LightMagenta,
    LightBrown,
    White,
}

/// A color's number in the VGA palette: bit 0 is blue, bit 1 green, bit 2
/// red, and bit 3 makes the color bright.
pub open spec fn color_number(c: Color) -> int {
    match c {
        Color::Black => 0,
        Color::Blue => 1,
        Color::Green => 2,
        Color::Cyan => 3,
        Color::Red => 4,
        Color::Magenta => 5,
        Color::Brown => 6,
        Color::LightGrey => 7,
        Color::DarkGrey => 8,
        Color::LightBlue => 9,
        Color::LightGreen => 10,
        Color::LightCyan => 11,
        Color::LightRed => 12,
        Color::LightMagenta => 13,
        Color::LightBrown => 14,
        Color::White => 15,
    }
}

/// A request to the VGA text buffer: the operations a terminal performs on
/// the screen, in the order it performs them.
#[derive(Copy, Clone, Debug, PartialEq, Eq, Structural)]
pub enum TextOp {
    /// Write a byte at the cursor and advance it
    WriteByte(u8),
    /// Move the cursor by columns and rows
    MoveCursorRelative(isize, isize),
    /// Move the cursor to a column and row
    MoveCursor(u8, u8),
    /// Show or hide the cursor block by inverting its cell
    InvertCursor,
    /// Stop drawing the cursor
    DisableCursor,
    ClearScreen,
    ClearScreenToBeginning,
    ClearScreenToEnd,
    ClearRow,
    ClearRowToBeginning,
    ClearRowToEnd,
    /// Scroll the screen up by some rows
    Scroll(u8),
    ResetColors,
    SetFgColor(Color),
    SetBgColor(Color),
    /// Direct the text buffer to another memory location
    SetBufferPointer(usize),
}

} // verus!
