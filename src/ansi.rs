use vstd::prelude::*;

verus! {

/// The control sequence introducer, `ESC [`.
pub open spec fn csi() -> Seq<char> {
    seq!['\x1B', '[']
}

pub open spec fn digit_char(d: nat) -> char {
    if d == 0 { '0' }
    else if d == 1 { '1' }
    else if d == 2 { '2' }
    else if d == 3 { '3' }
    else if d == 4 { '4' }
    else if d == 5 { '5' }
    else if d == 6 { '6' }
    else if d == 7 { '7' }
    else if d == 8 { '8' }
    else { '9' }
}

/// The decimal digits of `n`, without leading zeros.
pub open spec fn decimal(n: nat) -> Seq<char>
    decreases n,
{
    if n < 10 {
        seq![digit_char(n)]
    } else {
        decimal(n / 10).push(digit_char(n % 10))
    }
}

/// A color command as crossterm writes it: the full sequence with the color
/// `selector` (such as `48;5;3`), or a bare `ESC [ m` when crossterm has
/// colors disabled (the `NO_COLOR` environment variable).
pub open spec fn is_color_command(s: Seq<char>, selector: Seq<char>) -> bool {
    s == csi() + selector + seq!['m'] || s == csi() + seq!['m']
}

/// Selector of an 8-bit palette color: `38;5;n` in the foreground, `48;5;n`
/// in the background.
pub open spec fn palette_selector(background: bool, code: u8) -> Seq<char> {
    (if background { seq!['4', '8'] } else { seq!['3', '8'] }) + seq![';', '5', ';'] + decimal(code as nat)
}

/// Selector of a 24-bit foreground color, `38;2;r;g;b`.
pub open spec fn rgb_selector(r: u8, g: u8, b: u8) -> Seq<char> {
    seq!['3', '8', ';', '2', ';'] + decimal(r as nat) + seq![';'] + decimal(g as nat) + seq![';'] + decimal(
        b as nat,
    )
}

/// Relies on crossterm's `Clear(ClearType::UntilNewLine)`: it writes `ESC [ K`.
#[verifier::external_body]
pub(crate) fn clear_until_newline() -> (r: String)
    ensures
        r@ == csi() + seq!['K'],
{
    let mut s = String::new();
    let _ = crossterm::Command::write_ansi(
        &crossterm::terminal::Clear(crossterm::terminal::ClearType::UntilNewLine),
        &mut s,
    );
    s
}

/// Relies on crossterm's `Clear(ClearType::CurrentLine)`: it writes `ESC [ 2 K`.
#[verifier::external_body]
pub(crate) fn clear_line() -> (r: String)
    ensures
        r@ == csi() + seq!['2', 'K'],
{
    let mut s = String::new();
    let _ = crossterm::Command::write_ansi(
        &crossterm::terminal::Clear(crossterm::terminal::ClearType::CurrentLine),
        &mut s,
    );
    s
}

/// Relies on crossterm's `Clear(ClearType::FromCursorDown)`: it writes `ESC [ J`.
#[verifier::external_body]
pub(crate) fn clear_from_cursor_down() -> (r: String)
    ensures
        r@ == csi() + seq!['J'],
{
    let mut s = String::new();
    let _ = crossterm::Command::write_ansi(
        &crossterm::terminal::Clear(crossterm::terminal::ClearType::FromCursorDown),
        &mut s,
    );
    s
}

/// Relies on crossterm's `cursor::MoveToNextLine`: it writes `ESC [ n E`.
#[verifier::external_body]
pub(crate) fn move_to_next_line(n: u16) -> (r: String)
    ensures
        r@ == csi() + decimal(n as nat) + seq!['E'],
{
    let mut s = String::new();
    let _ = crossterm::Command::write_ansi(&crossterm::cursor::MoveToNextLine(n), &mut s);
    s
}

/// Relies on crossterm's `cursor::MoveTo`: it writes `ESC [ row+1 ; column+1 H`
/// (and overflows on the largest coordinate, hence the bounds).
#[verifier::external_body]
pub(crate) fn move_to(column: u16, row: u16) -> (r: String)
    requires
        column < u16::MAX,
        row < u16::MAX,
    ensures
        r@ == csi() + decimal(row as nat + 1) + seq![';'] + decimal(column as nat + 1) + seq!['H'],
{
    let mut s = String::new();
    let _ = crossterm::Command::write_ansi(&crossterm::cursor::MoveTo(column, row), &mut s);
    s
}

/// Relies on crossterm's `style::ResetColor`: it writes `ESC [ 0 m`.
#[verifier::external_body]
pub(crate) fn reset_color() -> (r: String)
    ensures
        r@ == csi() + seq!['0', 'm'],
{
    let mut s = String::new();
    let _ = crossterm::Command::write_ansi(&crossterm::style::ResetColor, &mut s);
    s
}

/// Relies on crossterm's `style::SetForegroundColor` with an 8-bit palette color.
#[verifier::external_body]
pub(crate) fn set_foreground(code: u8) -> (r: String)
    ensures
        is_color_command(r@, palette_selector(false, code)),
{
    let mut s = String::new();
    let color = crossterm::style::Color::AnsiValue(code);
    let _ = crossterm::Command::write_ansi(&crossterm::style::SetForegroundColor(color), &mut s);
    s
}

/// Relies on crossterm's `style::SetBackgroundColor` with an 8-bit palette color.
#[verifier::external_body]
pub(crate) fn set_background(code: u8) -> (r: String)
    ensures
        is_color_command(r@, palette_selector(true, code)),
{
    let mut s = String::new();
    let color = crossterm::style::Color::AnsiValue(code);
    let _ = crossterm::Command::write_ansi(&crossterm::style::SetBackgroundColor(color), &mut s);
    s
}

/// Relies on crossterm's `style::SetForegroundColor` with a 24-bit color.
#[verifier::external_body]
pub(crate) fn set_foreground_rgb(r: u8, g: u8, b: u8) -> (s: String)
    ensures
        is_color_command(s@, rgb_selector(r, g, b)),
{
    let mut s = String::new();
    let color = crossterm::style::Color::Rgb { r, g, b };
    let _ = crossterm::Command::write_ansi(&crossterm::style::SetForegroundColor(color), &mut s);
    s
}

} // verus!
