//! A state machine that tracks the parsing of multi-byte ANSI escape codes.
use vstd::prelude::*;
use crate::hardware::vga::{color_number, Color};

verus! {

/// Tracks the current state of the parser
#[derive(Copy, Clone, Debug, PartialEq, Eq, Structural)]
pub enum ParseState {
    /// Initial state, ready to read any character
    Ready,
    /// Recognized an ESC
    EscapeStart,
    /// Inside a Control Sequence Introducer (ESC [)
    CSI,
}

/// What the terminal should do in response to a byte.
#[derive(Copy, Clone, Debug, PartialEq, Eq, Structural)]
pub enum TTYAction {
    Nothing,
    Print(u8),
    MoveCursor(isize, isize),
    SetColumn(usize),
    SetPosition(usize, usize),
    ClearScreen,
    ClearToBeginning,
    ClearToEnd,
    ClearRow,
    ClearRowToBeginning,
    ClearRowToEnd,
    NextLineStart(usize),
    PrevLineStart(usize),
    ScrollUp(usize),
    ScrollDown(usize),
    ResetColors,
    SetFgColor(Color),
    SetBgColor(Color),
}

pub struct Parser {
    pub state: ParseState,
    /// Numeric arguments of the current CSI sequence; None for an argument
    /// with no digits yet
    pub csi_args: Vec<Option<u32>>,
}

/// The `index`th CSI argument, or `fallback` when it is absent or empty.
pub open spec fn csi_arg(args: Seq<Option<u32>>, index: int, fallback: u32) -> u32 {
    if 0 <= index < args.len() {
        match args[index] {
            Some(v) => v,
            None => fallback,
        }
    } else {
        fallback
    }
}

/// The action selected by a Select Graphic Rendition modifier.
pub open spec fn sgr_action(modifier: u32) -> TTYAction {
    if modifier == 0 { TTYAction::ResetColors }
    else if modifier == 30 { TTYAction::SetFgColor(Color::Black) }
    else if modifier == 31 { TTYAction::SetFgColor(Color::Red) }
    else if modifier == 32 { TTYAction::SetFgColor(Color::Green) }
    else if modifier == 33 { TTYAction::SetFgColor(Color::Brown) }
    else if modifier == 34 { TTYAction::SetFgColor(Color::Blue) }
    else if modifier == 35 { TTYAction::SetFgColor(Color::Magenta) }
    else if modifier == 36 { TTYAction::SetFgColor(Color::Cyan) }
    else if modifier == 37 || modifier == 39 { TTYAction::SetFgColor(Color::LightGrey) }
    else if modifier == 40 || modifier == 49 { TTYAction::SetBgColor(Color::Black) }
    else if modifier == 41 { TTYAction::SetBgColor(Color::Red) }
    else if modifier == 42 { TTYAction::SetBgColor(Color::Green) }
    else if modifier == 43 { TTYAction::SetBgColor(Color::Brown) }
    else if modifier == 44 { TTYAction::SetBgColor(Color::Blue) }
    else if modifier == 45 { TTYAction::SetBgColor(Color::Magenta) }
    else if modifier == 46 { TTYAction::SetBgColor(Color::Cyan) }
    else if modifier == 47 { TTYAction::SetBgColor(Color::LightGrey) }
    else if modifier == 90 { TTYAction::SetFgColor(Color::DarkGrey) }
    else if modifier == 91 { TTYAction::SetFgColor(Color::LightRed) }
    else if modifier == 92 { TTYAction::SetFgColor(Color::LightGreen) }
    else if modifier == 93 { TTYAction::SetFgColor(Color::LightBrown) }
    else if modifier == 94 { TTYAction::SetFgColor(Color::LightBlue) }
    else if modifier == 95 { TTYAction::SetFgColor(Color::LightMagenta) }
    else if modifier == 96 { TTYAction::SetFgColor(Color::LightCyan) }
    else if modifier == 97 { TTYAction::SetFgColor(Color::White) }
    else if modifier == 100 { TTYAction::SetBgColor(Color::DarkGrey) }
    else if modifier == 101 { TTYAction::SetBgColor(Color::LightRed) }
    else if modifier == 102 { TTYAction::SetBgColor(Color::LightGreen) }
    else if modifier == 103 { TTYAction::SetBgColor(Color::LightBrown) }
    else if modifier == 104 { TTYAction::SetBgColor(Color::LightBlue) }
    else if modifier == 105 { TTYAction::SetBgColor(Color::LightMagenta) }
    else if modifier == 106 { TTYAction::SetBgColor(Color::LightCyan) }
    else if modifier == 107 { TTYAction::SetBgColor(Color::White) }
    else { TTYAction::Nothing }
}

/// Is the byte an ASCII digit?
pub open spec fn is_digit(ch: u8) -> bool {
    0x30 <= ch <= 0x39
}

/// The action of a byte that ends a CSI sequence.
pub open spec fn csi_final_action(ch: u8, args: Seq<Option<u32>>) -> TTYAction {
    let first = csi_arg(args, 0, 1);
    if ch == 0x41 {
        TTYAction::MoveCursor(0, (-(first as isize)) as isize)
    } else if ch == 0x42 {
        TTYAction::MoveCursor(0, first as isize)
    } else if ch == 0x43 {
        TTYAction::MoveCursor(first as isize, 0)
    } else if ch == 0x44 {
        TTYAction::MoveCursor((-(first as isize)) as isize, 0)
    } else if ch == 0x45 {
        TTYAction::NextLineStart(first as usize)
    } else if ch == 0x46 {
        TTYAction::PrevLineStart(first as usize)
    } else if ch == 0x47 {
        TTYAction::SetColumn(first as usize)
    } else if ch == 0x48 {
        TTYAction::SetPosition(first as usize, csi_arg(args, 1, 1) as usize)
    } else if ch == 0x4a {
        let d = csi_arg(args, 0, 0);
        if d == 0 { TTYAction::ClearToEnd }
        else if d == 1 { TTYAction::ClearToBeginning }
        else if d == 2 || d == 3 { TTYAction::ClearScreen }
        else { TTYAction::Nothing }
    } else if ch == 0x4b {
        let d = csi_arg(args, 0, 0);
        if d == 0 { TTYAction::ClearRowToEnd }
        else if d == 1 { TTYAction::ClearRowToBeginning }
        else if d == 2 || d == 3 { TTYAction::ClearRow }
        else { TTYAction::Nothing }
    } else if ch == 0x53 {
        TTYAction::ScrollUp(first as usize)
    } else if ch == 0x54 {
        TTYAction::ScrollDown(first as usize)
    } else if ch == 0x6d {
        sgr_action(csi_arg(args, 0, 0))
    } else {
        TTYAction::Nothing
    }
}

/// The last CSI argument extended by one more decimal digit.
pub open spec fn push_digit(slot: Option<u32>, ch: u8) -> u32 {
    (match slot {
        Some(v) => v * 10,
        None => 0,
    } + (ch - 0x30)) as u32
}

/// The parse state after a byte.
pub open spec fn next_state(state: ParseState, ch: u8) -> ParseState {
    match state {
        ParseState::Ready => if ch == 0x1b { ParseState::EscapeStart } else { ParseState::Ready },
        ParseState::EscapeStart => if ch == 0x5b { ParseState::CSI } else { ParseState::Ready },
        ParseState::CSI => if is_digit(ch) || ch == 0x3b { ParseState::CSI } else { ParseState::Ready },
    }
}

/// The CSI arguments after a byte: an escape sequence's `[` starts them
/// afresh, a digit extends the last one, and `;` starts another.
pub open spec fn next_args(state: ParseState, args: Seq<Option<u32>>, ch: u8) -> Seq<Option<u32>> {
    match state {
        ParseState::EscapeStart => if ch == 0x5b { seq![None::<u32>] } else { args },
        ParseState::CSI => if is_digit(ch) {
            args.update(args.len() - 1, Some(push_digit(args.last(), ch)))
        } else if ch == 0x3b {
            args.push(None)
        } else {
            args
        },
        _ => args,
    }
}

/// The action of a byte.
pub open spec fn next_action(state: ParseState, args: Seq<Option<u32>>, ch: u8) -> TTYAction {
    match state {
        ParseState::Ready => if ch == 0x1b { TTYAction::Nothing } else { TTYAction::Print(ch) },
        ParseState::EscapeStart => TTYAction::Nothing,
        ParseState::CSI => if is_digit(ch) || ch == 0x3b { TTYAction::Nothing } else { csi_final_action(ch, args) },
    }
}

/// The byte can be processed without arithmetic overflow: a digit keeps the
/// argument representable, and a cursor move up or back can be negated.
pub open spec fn byte_accepted(state: ParseState, args: Seq<Option<u32>>, ch: u8) -> bool {
    state == ParseState::CSI ==> {
        &&& args.len() > 0
        &&& is_digit(ch) ==> match args.last() {
            Some(v) => v * 10 + (ch - 0x30) <= u32::MAX,
            None => true,
        }
        &&& (ch == 0x41 || ch == 0x44) ==> csi_arg(args, 0, 1) as isize != isize::MIN
    }
}

/// The parse state after a run of bytes.
pub open spec fn run_state(state: ParseState, args: Seq<Option<u32>>, bytes: Seq<u8>) -> ParseState
    decreases bytes.len(),
{
    if bytes.len() == 0 {
        state
    } else {
        next_state(run_state(state, args, bytes.drop_last()), bytes.last())
    }
}

/// The CSI arguments after a run of bytes.
pub open spec fn run_args(state: ParseState, args: Seq<Option<u32>>, bytes: Seq<u8>) -> Seq<Option<u32>>
    decreases bytes.len(),
{
    if bytes.len() == 0 {
        args
    } else {
        let pre = bytes.drop_last();
        next_args(run_state(state, args, pre), run_args(state, args, pre), bytes.last())
    }
}

/// Every byte of the run is accepted in the state reached before it.
pub open spec fn run_accepted(state: ParseState, args: Seq<Option<u32>>, bytes: Seq<u8>) -> bool {
    forall|i: int| 0 <= i < bytes.len() ==> byte_accepted(
        run_state(state, args, #[trigger] bytes.take(i)), run_args(state, args, bytes.take(i)), bytes[i])
}

/// The cursor moves of a CSI sequence: 'A' moves up and 'B' down by the
/// first argument (1 when absent), keeping the column; 'C' moves right and
/// 'D' left by it, keeping the row.
pub proof fn lemma_cursor_moves(args: Seq<Option<u32>>)
    ensures
        ({
            let n = csi_arg(args, 0, 1) as isize;
            &&& next_action(ParseState::CSI, args, 0x42) == TTYAction::MoveCursor(0, n)
            &&& next_action(ParseState::CSI, args, 0x43) == TTYAction::MoveCursor(n, 0)
            &&& next_action(ParseState::CSI, args, 0x41) matches TTYAction::MoveCursor(dx, dy)
                && dx == 0 && (n != isize::MIN ==> dy == -n)
            &&& next_action(ParseState::CSI, args, 0x44) matches TTYAction::MoveCursor(dx, dy)
                && dy == 0 && (n != isize::MIN ==> dx == -n)
        }),
{
}

/// Escape sequences for the cursor, read from the start of a sequence:
/// ESC [ A, B, C and D move the cursor one row up, one row down, one column
/// right and one column left; with a single digit `d` before the final
/// byte, they move it by `d`.
pub proof fn lemma_cursor_sequences(args: Seq<Option<u32>>, d: u8)
    requires
        is_digit(d),
    ensures
        ({
            let intro = seq![0x1bu8, 0x5bu8];
            let s = run_state(ParseState::Ready, args, intro);
            let a = run_args(ParseState::Ready, args, intro);
            &&& s == ParseState::CSI
            &&& next_action(s, a, 0x41) == TTYAction::MoveCursor(0, -1isize)
            &&& next_action(s, a, 0x42) == TTYAction::MoveCursor(0, 1)
            &&& next_action(s, a, 0x43) == TTYAction::MoveCursor(1, 0)
            &&& next_action(s, a, 0x44) == TTYAction::MoveCursor(-1isize, 0)
        }),
        ({
            let with_digit = seq![0x1bu8, 0x5bu8, d];
            let s = run_state(ParseState::Ready, args, with_digit);
            let a = run_args(ParseState::Ready, args, with_digit);
            let k = (d - 0x30) as isize;
            &&& s == ParseState::CSI
            &&& next_action(s, a, 0x41) == TTYAction::MoveCursor(0, (-k) as isize)
            &&& next_action(s, a, 0x42) == TTYAction::MoveCursor(0, k)
            &&& next_action(s, a, 0x43) == TTYAction::MoveCursor(k, 0)
            &&& next_action(s, a, 0x44) == TTYAction::MoveCursor((-k) as isize, 0)
        }),
{
    let intro = seq![0x1bu8, 0x5bu8];
    assert(intro.drop_last() =~= seq![0x1bu8]);
    assert(seq![0x1bu8].drop_last() =~= Seq::<u8>::empty());
    let with_digit = seq![0x1bu8, 0x5bu8, d];
    assert(with_digit.drop_last() =~= intro);
    reveal_with_fuel(run_state, 4);
    reveal_with_fuel(run_args, 4);
    let a = run_args(ParseState::Ready, args, intro);
    assert(a =~= seq![None::<u32>]);
    let a2 = run_args(ParseState::Ready, args, with_digit);
    assert(a2 =~= seq![Some(((d - 0x30) as u32))]);
}

/// The VGA palette number of ANSI color `i` (0 to 7): ANSI numbers its
/// colors by red (bit 0), green (bit 1) and blue (bit 2), VGA by blue (bit 0),
/// green (bit 1) and red (bit 2).
pub open spec fn vga_of_ansi(i: int) -> int {
    (i % 2) * 4 + ((i / 2) % 2) * 2 + i / 4
}

/// Select Graphic Rendition colors: 30 + i sets the foreground and 40 + i
/// the background to ANSI color i, and 90 + i and 100 + i to its bright
/// version; 0 resets the colors, and 39 and 49 restore the default light
/// grey foreground and black background.
pub proof fn lemma_sgr_colors(i: u32)
    requires
        i < 8,
    ensures
        sgr_action((30 + i) as u32) matches TTYAction::SetFgColor(c) && color_number(c) == vga_of_ansi(i as int),
        sgr_action((40 + i) as u32) matches TTYAction::SetBgColor(c) && color_number(c) == vga_of_ansi(i as int),
        sgr_action((90 + i) as u32) matches TTYAction::SetFgColor(c) && color_number(c) == vga_of_ansi(i as int) + 8,
        sgr_action((100 + i) as u32) matches TTYAction::SetBgColor(c) && color_number(c) == vga_of_ansi(i as int) + 8,
        sgr_action(0) == TTYAction::ResetColors,
        sgr_action(39) == TTYAction::SetFgColor(Color::LightGrey),
        sgr_action(49) == TTYAction::SetBgColor(Color::Black),
{
}

/// Erasing: 'J' erases in the screen and 'K' in the cursor's row, in the
/// same direction for the same argument: 0 (the default) from the cursor to
/// the end, 1 from the start to the cursor, 2 and 3 everything; any other
/// argument erases nothing.
pub proof fn lemma_erase_directions(args: Seq<Option<u32>>)
    ensures
        ({
            let d = csi_arg(args, 0, 0);
            let screen = next_action(ParseState::CSI, args, 0x4a);
            let row = next_action(ParseState::CSI, args, 0x4b);
            &&& d == 0 ==> screen == TTYAction::ClearToEnd && row == TTYAction::ClearRowToEnd
            &&& d == 1 ==> screen == TTYAction::ClearToBeginning && row == TTYAction::ClearRowToBeginning
            &&& (d == 2 || d == 3) ==> screen == TTYAction::ClearScreen && row == TTYAction::ClearRow
            &&& d > 3 ==> screen == TTYAction::Nothing && row == TTYAction::Nothing
        }),
        next_action(ParseState::CSI, seq![None::<u32>], 0x4a) == TTYAction::ClearToEnd,
        next_action(ParseState::CSI, seq![None::<u32>], 0x4b) == TTYAction::ClearRowToEnd,
{
}

/// Running the parser over two runs of bytes in turn is running it over
/// both at once.
pub proof fn lemma_run_concat(state: ParseState, args: Seq<Option<u32>>, x: Seq<u8>, y: Seq<u8>)
    ensures
        run_state(state, args, x + y) == run_state(run_state(state, args, x), run_args(state, args, x), y),
        run_args(state, args, x + y) == run_args(run_state(state, args, x), run_args(state, args, x), y),
    decreases y.len(),
{
    if y.len() == 0 {
        assert(x + y =~= x);
    } else {
        assert((x + y).drop_last() =~= x + y.drop_last());
        assert((x + y).last() == y.last());
        lemma_run_concat(state, args, x, y.drop_last());
    }
}

/// A run is accepted exactly when its first part is, and its second part is
/// from the state the first part reaches.
pub proof fn lemma_run_accepted_concat(state: ParseState, args: Seq<Option<u32>>, x: Seq<u8>, y: Seq<u8>)
    ensures
        run_accepted(state, args, x + y) <==> (run_accepted(state, args, x)
            && run_accepted(run_state(state, args, x), run_args(state, args, x), y)),
{
    let xy = x + y;
    let s2 = run_state(state, args, x);
    let a2 = run_args(state, args, x);
    assert forall|i: int| 0 <= i <= x.len() implies #[trigger] xy.take(i) == x.take(i) by {
        assert(xy.take(i) =~= x.take(i));
    }
    assert forall|j: int| 0 <= j <= y.len() implies #[trigger] xy.take(x.len() + j) == x + y.take(j) by {
        assert(xy.take(x.len() + j) =~= x + y.take(j));
    }
    assert forall|j: int| 0 <= j <= y.len() implies
        run_state(state, args, #[trigger] (x + y.take(j))) == run_state(s2, a2, y.take(j))
        && run_args(state, args, x + y.take(j)) == run_args(s2, a2, y.take(j)) by {
        lemma_run_concat(state, args, x, y.take(j));
    }
    if run_accepted(state, args, xy) {
        assert forall|i: int| 0 <= i < x.len() implies byte_accepted(
            run_state(state, args, #[trigger] x.take(i)), run_args(state, args, x.take(i)), x[i]) by {
            assert(xy.take(i) == x.take(i));
            assert(xy[i] == x[i]);
        }
        assert forall|j: int| 0 <= j < y.len() implies byte_accepted(
            run_state(s2, a2, #[trigger] y.take(j)), run_args(s2, a2, y.take(j)), y[j]) by {
            let i = x.len() + j;
            assert(xy.take(i) == x + y.take(j));
            assert(xy[i] == y[j]);
        }
    }
    if run_accepted(state, args, x) && run_accepted(s2, a2, y) {
        assert forall|i: int| 0 <= i < xy.len() implies byte_accepted(
            run_state(state, args, #[trigger] xy.take(i)), run_args(state, args, xy.take(i)), xy[i]) by {
            if i < x.len() {
                assert(xy.take(i) == x.take(i));
            } else {
                let j = i - x.len();
                assert(xy.take(x.len() + j) == x + y.take(j));
                assert(y.take(j) == y.take(j));
            }
        }
    }
}

/// The number that a run of decimal digits writes, most significant first.
pub open spec fn decimal(ds: Seq<u8>) -> int
    decreases ds.len(),
{
    if ds.len() == 0 { 0 } else { decimal(ds.drop_last()) * 10 + (ds.last() - 0x30) }
}

/// Every byte of the run is a decimal digit.
pub open spec fn all_digits(ds: Seq<u8>) -> bool {
    forall|i: int| 0 <= i < ds.len() ==> is_digit(#[trigger] ds[i])
}

/// A CSI argument written with the digits `ds`: none when there are none.
pub open spec fn written_arg(ds: Seq<u8>) -> Option<u32> {
    if ds.len() == 0 { None } else { Some(decimal(ds) as u32) }
}

proof fn lemma_decimal_grows(ds: Seq<u8>)
    requires
        all_digits(ds),
    ensures
        decimal(ds) >= 0,
        ds.len() > 0 ==> decimal(ds.drop_last()) * 10 <= decimal(ds),
    decreases ds.len(),
{
    if ds.len() > 0 {
        assert(is_digit(ds[ds.len() - 1]));
        assert(all_digits(ds.drop_last())) by {
            assert forall|i: int| 0 <= i < ds.drop_last().len() implies is_digit(#[trigger] ds.drop_last()[i]) by {
                assert(ds.drop_last()[i] == ds[i]);
            }
        }
        lemma_decimal_grows(ds.drop_last());
    }
}

/// Inside a CSI sequence, digits typed into an argument that has none yet
/// make it the number they write.
proof fn lemma_digits_fill_argument(args: Seq<Option<u32>>, ds: Seq<u8>)
    requires
        args.len() > 0,
        args.last() is None,
        all_digits(ds),
        decimal(ds) <= u32::MAX,
    ensures
        run_state(ParseState::CSI, args, ds) == ParseState::CSI,
        run_args(ParseState::CSI, args, ds) == args.update(args.len() - 1, written_arg(ds)),
    decreases ds.len(),
{
    if ds.len() == 0 {
        assert(args.update(args.len() - 1, None) =~= args);
    } else {
        let pre = ds.drop_last();
        lemma_decimal_grows(ds);
        lemma_decimal_grows(pre);
        assert(all_digits(pre)) by {
            assert forall|i: int| 0 <= i < pre.len() implies is_digit(#[trigger] pre[i]) by {
                assert(pre[i] == ds[i]);
            }
        }
        lemma_digits_fill_argument(args, pre);
        let a = run_args(ParseState::CSI, args, pre);
        assert(is_digit(ds.last()));
        assert(a.last() == written_arg(pre));
        assert(push_digit(a.last(), ds.last()) == decimal(ds));
        assert(run_args(ParseState::CSI, args, ds) =~= args.update(args.len() - 1, written_arg(ds)));
    }
}

/// Multi-digit CSI arguments: after ESC [, digits write the first argument
/// in decimal, and after `;` further digits write the second (an argument
/// without digits takes its default). So ESC [ n B moves the cursor n rows
/// down, and ESC [ r ; c H moves it to row r, column c.
pub proof fn lemma_csi_arguments(args: Seq<Option<u32>>, ds: Seq<u8>, es: Seq<u8>)
    requires
        all_digits(ds),
        all_digits(es),
        decimal(ds) <= u32::MAX,
        decimal(es) <= u32::MAX,
    ensures
        ({
            let one = seq![0x1bu8, 0x5bu8] + ds;
            let s = run_state(ParseState::Ready, args, one);
            let a = run_args(ParseState::Ready, args, one);
            &&& s == ParseState::CSI
            &&& a == seq![written_arg(ds)]
            &&& next_action(s, a, 0x42) == TTYAction::MoveCursor(0, csi_arg(a, 0, 1) as isize)
            &&& csi_arg(a, 0, 1) == if ds.len() == 0 { 1 } else { decimal(ds) }
        }),
        ({
            let two = seq![0x1bu8, 0x5bu8] + ds + seq![0x3bu8] + es;
            let s = run_state(ParseState::Ready, args, two);
            let a = run_args(ParseState::Ready, args, two);
            &&& s == ParseState::CSI
            &&& a == seq![written_arg(ds), written_arg(es)]
            &&& next_action(s, a, 0x48) == TTYAction::SetPosition(
                (if ds.len() == 0 { 1 } else { decimal(ds) }) as usize,
                (if es.len() == 0 { 1 } else { decimal(es) }) as usize)
        }),
{
    let intro = seq![0x1bu8, 0x5bu8];
    lemma_cursor_sequences(args, 0x30);
    let a0 = run_args(ParseState::Ready, args, intro);
    assert(a0 =~= seq![None::<u32>]) by {
        assert(intro.drop_last() =~= seq![0x1bu8]);
        assert(seq![0x1bu8].drop_last() =~= Seq::<u8>::empty());
        reveal_with_fuel(run_state, 3);
        reveal_with_fuel(run_args, 3);
    }
    lemma_run_concat(ParseState::Ready, args, intro, ds);
    lemma_digits_fill_argument(a0, ds);
    let one = intro + ds;
    let a1 = run_args(ParseState::Ready, args, one);
    assert(a1 =~= seq![written_arg(ds)]);
    lemma_decimal_grows(ds);
    lemma_decimal_grows(es);
    let semi = seq![0x3bu8];
    lemma_run_concat(ParseState::Ready, args, one, semi);
    assert(semi.drop_last() =~= Seq::<u8>::empty());
    let a2 = run_args(ParseState::Ready, args, one + semi);
    assert(run_state(ParseState::CSI, a1, semi) == ParseState::CSI && run_args(ParseState::CSI, a1, semi)
        == a1.push(None)) by {
        reveal_with_fuel(run_state, 2);
        reveal_with_fuel(run_args, 2);
    }
    assert(a2 =~= seq![written_arg(ds), None::<u32>]);
    lemma_run_concat(ParseState::Ready, args, one + semi, es);
    lemma_digits_fill_argument(a2, es);
    let a3 = run_args(ParseState::Ready, args, one + semi + es);
    assert(a3 =~= seq![written_arg(ds), written_arg(es)]);
}

impl Parser {
    /// Inside a CSI sequence there is always a current argument.
    pub open spec fn wf(&self) -> bool {
        self.state == ParseState::CSI ==> self.csi_args@.len() > 0
    }

    /// The byte can be processed without arithmetic overflow.
    pub open spec fn accepts(&self, ch: u8) -> bool {
        byte_accepted(self.state, self.csi_args@, ch)
    }

    pub fn new() -> (r: Self)
        ensures
            r.wf(),
            r.state == ParseState::Ready,
            r.csi_args@.len() == 0,
    {
        Self { state: ParseState::Ready, csi_args: Vec::new() }
    }

    /// The `index`th CSI argument, or `fallback` when absent or empty.
    pub fn get_csi_arg(&self, index: usize, fallback: u32) -> (r: u32)
        ensures
            r == csi_arg(self.csi_args@, index as int, fallback),
    {
        if index < self.csi_args.len() {
            match self.csi_args[index] {
                Some(val) => val,
                None => fallback,
            }
        } else {
            fallback
        }
    }

    /// Advance the state machine by one byte, returning the action it calls
    /// for.
    pub fn process_character(&mut self, ch: u8) -> (r: TTYAction)
        requires
            old(self).wf(),
            old(self).accepts(ch),
        ensures
            final(self).wf(),
            final(self).state == next_state(old(self).state, ch),
            final(self).csi_args@ == next_args(old(self).state, old(self).csi_args@, ch),
            r == next_action(old(self).state, old(self).csi_args@, ch),
            old(self).state == ParseState::Ready ==> {
                &&& final(self).csi_args@ == old(self).csi_args@
                &&& if ch == 0x1b {
                    final(self).state == ParseState::EscapeStart && r == TTYAction::Nothing
                } else {
                    final(self).state == ParseState::Ready && r == TTYAction::Print(ch)
                }
            },
            old(self).state == ParseState::EscapeStart ==> {
                &&& r == TTYAction::Nothing
                &&& if ch == 0x5b {
                    final(self).state == ParseState::CSI && final(self).csi_args@ == seq![None::<u32>]
                } else {
                    final(self).state == ParseState::Ready && final(self).csi_args@ == old(self).csi_args@
                }
            },
            old(self).state == ParseState::CSI ==> {
                if is_digit(ch) {
                    &&& r == TTYAction::Nothing
                    &&& final(self).state == ParseState::CSI
                    &&& final(self).csi_args@ == old(self).csi_args@.update(
                        old(self).csi_args@.len() - 1, Some(push_digit(old(self).csi_args@.last(), ch)))
                } else if ch == 0x3b {
                    &&& r == TTYAction::Nothing
                    &&& final(self).state == ParseState::CSI
                    &&& final(self).csi_args@ == old(self).csi_args@.push(None)
                } else {
                    &&& r == csi_final_action(ch, old(self).csi_args@)
                    &&& final(self).state == ParseState::Ready
                    &&& final(self).csi_args@ == old(self).csi_args@
                }
            },
    {
        match self.state {
            ParseState::Ready => {
                if ch == 0x1b {
                    self.state = ParseState::EscapeStart;
                    TTYAction::Nothing
                } else {
                    TTYAction::Print(ch)
                }
            },
            ParseState::EscapeStart => {
                if ch == 0x5b {
                    self.state = ParseState::CSI;
                    while self.csi_args.len() > 0
                        invariant
                            self.state == ParseState::CSI,
                        decreases self.csi_args@.len(),
                    {
                        self.csi_args.pop();
                    }
                    self.csi_args.push(None);
                    assert(self.csi_args@ =~= seq![None::<u32>]);
                    TTYAction::Nothing
                } else {
                    self.state = ParseState::Ready;
                    TTYAction::Nothing
                }
            },
            ParseState::CSI => {
                let (action, done) = if 0x30 <= ch && ch <= 0x39 {
                    // arguments are sent as ascii digits
                    let digit = (ch - 48) as u32;
                    let last_index = self.csi_args.len() - 1;
                    let current = match self.csi_args[last_index] {
                        Some(value) => value * 10,
                        None => 0,
                    } + digit;
                    self.csi_args.set(last_index, Some(current));
                    (TTYAction::Nothing, false)
                } else if ch == 0x3b {
                    self.csi_args.push(None);
                    (TTYAction::Nothing, false)
                } else {
                    (self.final_action(ch), true)
                };
                if done {
                    self.state = ParseState::Ready;
                }
                action
            },
        }
    }

    /// The action of a byte that ends a CSI sequence.
    fn final_action(&self, ch: u8) -> (r: TTYAction)
        requires
            (ch == 0x41 || ch == 0x44) ==> csi_arg(self.csi_args@, 0, 1) as isize != isize::MIN,
        ensures
            r == csi_final_action(ch, self.csi_args@),
    {
        match ch {
            0x41 => {
                // Cursor Up
                let delta = self.get_csi_arg(0, 1);
                TTYAction::MoveCursor(0, -(delta as isize))
            },
            0x42 => {
                // Cursor Down
                let delta = self.get_csi_arg(0, 1);
                TTYAction::MoveCursor(0, delta as isize)
            },
            0x43 => {
                // Cursor Forward
                let delta = self.get_csi_arg(0, 1);
                TTYAction::MoveCursor(delta as isize, 0)
            },
            0x44 => {
                // Cursor Back
                let delta = self.get_csi_arg(0, 1);
                TTYAction::MoveCursor(-(delta as isize), 0)
            },
            0x45 => TTYAction::NextLineStart(self.get_csi_arg(0, 1) as usize),
            0x46 => TTYAction::PrevLineStart(self.get_csi_arg(0, 1) as usize),
            0x47 => TTYAction::SetColumn(self.get_csi_arg(0, 1) as usize),
            0x48 => {
                let row = self.get_csi_arg(0, 1);
                let col = self.get_csi_arg(1, 1);
                TTYAction::SetPosition(row as usize, col as usize)
            },
            0x4a => {
                // Clear screen
                match self.get_csi_arg(0, 0) {
                    0 => TTYAction::ClearToEnd,
                    1 => TTYAction::ClearToBeginning,
                    2 | 3 => TTYAction::ClearScreen,
                    _ => TTYAction::Nothing,
                }
            },
            0x4b => {
                // Clear in line
                match self.get_csi_arg(0, 0) {
                    0 => TTYAction::ClearRowToEnd,
                    1 => TTYAction::ClearRowToBeginning,
                    2 | 3 => TTYAction::ClearRow,
                    _ => TTYAction::Nothing,
                }
            },
            0x53 => TTYAction::ScrollUp(self.get_csi_arg(0, 1) as usize),
            0x54 => TTYAction::ScrollDown(self.get_csi_arg(0, 1) as usize),
            0x6d => sgr_action_of(self.get_csi_arg(0, 0)),
            _ => TTYAction::Nothing,
        }
    }
}

/// The action selected by a Select Graphic Rendition modifier.
fn sgr_action_of(modifier: u32) -> (r: TTYAction)
    ensures
        r == sgr_action(modifier),
{
    match modifier {
        0 => TTYAction::ResetColors,
        30 => TTYAction::SetFgColor(Color::Black),
        31 => TTYAction::SetFgColor(Color::Red),
        32 => TTYAction::SetFgColor(Color::Green),
        33 => TTYAction::SetFgColor(Color::Brown),
        34 => TTYAction::SetFgColor(Color::Blue),
        35 => TTYAction::SetFgColor(Color::Magenta),
        36 => TTYAction::SetFgColor(Color::Cyan),
        37 => TTYAction::SetFgColor(Color::LightGrey),
        39 => TTYAction::SetFgColor(Color::LightGrey),
        40 => TTYAction::SetBgColor(Color::Black),
        41 => TTYAction::SetBgColor(Color::Red),
        42 => TTYAction::SetBgColor(Color::Green),
        43 => TTYAction::SetBgColor(Color::Brown),
        44 => TTYAction::SetBgColor(Color::Blue),
        45 => TTYAction::SetBgColor(Color::Magenta),
        46 => TTYAction::SetBgColor(Color::Cyan),
        47 => TTYAction::SetBgColor(Color::LightGrey),
        49 => TTYAction::SetBgColor(Color::Black),
        90 => TTYAction::SetFgColor(Color::DarkGrey),
        91 => TTYAction::SetFgColor(Color::LightRed),
        92 => TTYAction::SetFgColor(Color::LightGreen),
        93 => TTYAction::SetFgColor(Color::LightBrown),
        94 => TTYAction::SetFgColor(Color::LightBlue),
        95 => TTYAction::SetFgColor(Color::LightMagenta),
        96 => TTYAction::SetFgColor(Color::LightCyan),
        97 => TTYAction::SetFgColor(Color::White),
        100 => TTYAction::SetBgColor(Color::DarkGrey),
        101 => TTYAction::SetBgColor(Color::LightRed),
        102 => TTYAction::SetBgColor(Color::LightGreen),
        103 => TTYAction::SetBgColor(Color::LightBrown),
        104 => TTYAction::SetBgColor(Color::LightBlue),
        105 => TTYAction::SetBgColor(Color::LightMagenta),
        106 => TTYAction::SetBgColor(Color::LightCyan),
        107 => TTYAction::SetBgColor(Color::White),
        _ => TTYAction::Nothing,
    }
}

} // verus!
