use vstd::prelude::*;

use crate::util::Draw;

verus! {

/// The characters one canvas cell contributes to a frame: reset the
/// style, set italics if the tile asks for them, set (or reset) the
/// foreground color, then the tile's character; an empty cell is a
/// plain space.
pub open spec fn cell_chars(c: Option<Draw>) -> Seq<char> {
    match c {
        Option::Some(d) => style_reset_escape() + (if d.italic {
            italic_escape()
        } else {
            Seq::empty()
        }) + (match d.fg_color {
            Option::Some(n) => fg_escape(n),
            Option::None => fg_reset_escape(),
        }) + seq![d.item],
        Option::None => seq![' '],
    }
}

/// The characters of the first `x` cells of row `y`, left to right.
pub open spec fn row_chars(c: Seq<Option<Draw>>, w: int, y: int, x: int) -> Seq<char>
    decreases x,
{
    if x <= 0 {
        Seq::empty()
    } else {
        row_chars(c, w, y, x - 1) + cell_chars(c[y * w + (x - 1)])
    }
}

/// The characters of the first `y` full rows, each ended by the
/// cursor-reposition sequence for the next row.
pub open spec fn rows_chars(c: Seq<Option<Draw>>, w: int, y: int) -> Seq<char>
    decreases y,
{
    if y <= 0 {
        Seq::empty()
    } else {
        rows_chars(c, w, y - 1) + row_chars(c, w, y - 1, w) + left_escape(w as u16) + down_escape(
            1,
        )
    }
}

/// The whole frame: cursor home, then every row in order.
pub open spec fn frame_chars(c: Seq<Option<Draw>>, w: int, h: int) -> Seq<char> {
    goto_escape(1, 1) + rows_chars(c, w, h)
}

/// The character with which every control sequence here begins.
pub open spec fn esc() -> char {
    27u8 as char
}

/// The digit character for `d` (meaningful for `0 <= d <= 9`).
pub open spec fn digit_char(d: int) -> char {
    ((48 + d) as u8) as char
}

/// The decimal digits of `n`, most significant first, without leading
/// zeros (`0` is written as one digit).
pub open spec fn dec_seq(n: int) -> Seq<char>
    recommends
        n >= 0,
    decreases n,
{
    if n < 10 {
        seq![digit_char(n)]
    } else {
        dec_seq(n / 10).push(digit_char(n % 10))
    }
}

/// `ESC [ 3 8 ; 5 ; <n> m`: select foreground color `n` of the 256-color
/// palette.
pub open spec fn fg_escape(n: u8) -> Seq<char> {
    seq![esc(), '[', '3', '8', ';', '5', ';'] + dec_seq(n as int) + seq!['m']
}

/// `ESC [ 3 9 m`: reset the foreground color to the terminal default.
pub open spec fn fg_reset_escape() -> Seq<char> {
    seq![esc(), '[', '3', '9', 'm']
}

/// `ESC [ m`: reset all select-graphic-rendition parameters.
pub open spec fn style_reset_escape() -> Seq<char> {
    seq![esc(), '[', 'm']
}

/// `ESC [ 3 m`: italic text.
pub open spec fn italic_escape() -> Seq<char> {
    seq![esc(), '[', '3', 'm']
}

/// `ESC [ <y> ; <x> H`: move the cursor to one-based column `x`, row `y`.
pub open spec fn goto_escape(x: u16, y: u16) -> Seq<char> {
    seq![esc(), '['] + dec_seq(y as int) + seq![';'] + dec_seq(x as int) + seq!['H']
}

/// `ESC [ <n> D`: move the cursor `n` cells to the left.
pub open spec fn left_escape(n: u16) -> Seq<char> {
    seq![esc(), '['] + dec_seq(n as int) + seq!['D']
}

/// `ESC [ <n> B`: move the cursor `n` rows down.
pub open spec fn down_escape(n: u16) -> Seq<char> {
    seq![esc(), '['] + dec_seq(n as int) + seq!['B']
}

/// Relies on `termion::color::AnsiValue::fg_string`, which concatenates
/// `"\x1B[38;5;"`, the decimal digits of the color value, and `"m"`.
#[verifier::external_body]
pub(crate) fn fg_string(n: u8) -> (r: String)
    ensures
        r@ == fg_escape(n),
{
    termion::color::AnsiValue(n).fg_string()
}

/// Relies on `termion::color::Reset::fg_str`, which returns `"\x1B[39m"`.
#[verifier::external_body]
pub(crate) fn fg_reset_string() -> (r: String)
    ensures
        r@ == fg_reset_escape(),
{
    termion::color::Reset.fg_str().to_owned()
}

/// Relies on `termion::style::Reset`, whose string form is `"\x1B[m"`.
#[verifier::external_body]
pub(crate) fn style_reset_string() -> (r: String)
    ensures
        r@ == style_reset_escape(),
{
    let s: &'static str = termion::style::Reset.as_ref();
    s.to_owned()
}

/// Relies on `termion::style::Italic`, whose string form is `"\x1B[3m"`.
#[verifier::external_body]
pub(crate) fn italic_string() -> (r: String)
    ensures
        r@ == italic_escape(),
{
    let s: &'static str = termion::style::Italic.as_ref();
    s.to_owned()
}

/// Relies on `termion::cursor::Goto`, whose string form is
/// `"\x1B[<y>;<x>H"` with the coordinates in decimal. `Goto` is
/// one-based, so the origin `(0, 0)` is excluded.
#[verifier::external_body]
pub(crate) fn goto_string(x: u16, y: u16) -> (r: String)
    requires
        x >= 1 || y >= 1,
    ensures
        r@ == goto_escape(x, y),
{
    String::from(termion::cursor::Goto(x, y))
}

/// Relies on `termion::cursor::Left`, whose string form is `"\x1B[<n>D"`.
#[verifier::external_body]
pub(crate) fn left_string(n: u16) -> (r: String)
    ensures
        r@ == left_escape(n),
{
    String::from(termion::cursor::Left(n))
}

/// Relies on `termion::cursor::Down`, whose string form is `"\x1B[<n>B"`.
#[verifier::external_body]
pub(crate) fn down_string(n: u16) -> (r: String)
    ensures
        r@ == down_escape(n),
{
    String::from(termion::cursor::Down(n))
}

/// Relies on `String::push`: appends one character at the end.
#[verifier::external_body]
pub(crate) fn push_char(s: &mut String, c: char)
    ensures
        final(s)@ == old(s)@ + seq![c],
{
    s.push(c);
}

} // verus!
