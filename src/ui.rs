use vstd::prelude::*;
use vstd::utf8::encode_utf8;

use crate::ansi::{
    clear_from_cursor_down, clear_line, clear_until_newline, set_foreground_rgb, csi, decimal, is_color_command, move_to, move_to_next_line,
    palette_selector, reset_color, rgb_selector, set_background, set_foreground,
};
use crate::read_line::ReadLine;
use crate::select_menu::SelectMenu;
use crate::help::ENTRY_COLOR;
use crate::text::lemma_encode_concat;
use crate::output::Output;

verus! {

/// Text colors of the palette that entries are drawn with.
#[derive(Clone, Copy, Debug, PartialEq, Eq, Structural)]
pub enum Color {
    White,
    Red,
    Green,
    Blue,
    Yellow,
}

/// The escape sequence that switches the text to a palette color.
pub open spec fn escape_of(c: Color) -> Seq<char> {
    match c {
        Color::White => "\x1b[38;5;15m"@,
        Color::Red => "\x1b[38;5;1m"@,
        Color::Green => "\x1b[38;5;2m"@,
        Color::Blue => "\x1b[38;5;4m"@,
        Color::Yellow => "\x1b[38;5;3m"@,
    }
}

impl Color {
    /// The escape sequence that switches the text to this color.
    pub fn escape(self) -> (r: &'static str)
        ensures
            r@ == escape_of(self),
    {
        match self {
            Color::White => "\x1b[38;5;15m",
            Color::Red => "\x1b[38;5;1m",
            Color::Green => "\x1b[38;5;2m",
            Color::Blue => "\x1b[38;5;4m",
            Color::Yellow => "\x1b[38;5;3m",
        }
    }
}

/// Clear to the end of the line, then move to the start of the next one.
pub open spec fn line_end() -> Seq<char> {
    csi() + seq!['K'] + csi() + decimal(1) + seq!['E']
}

/// The bytes that draw one character: four spaces for a tab.
pub open spec fn char_bytes(c: char) -> Seq<u8> {
    if c == '\t' {
        seq![32u8, 32u8, 32u8, 32u8]
    } else {
        encode_utf8(seq![c])
    }
}

/// Columns one character takes.
pub open spec fn char_width(c: char) -> nat {
    if c == '\t' { 4 } else { 1 }
}

/// Drawing `p` from the first column of a view `width` columns wide: the
/// bytes written, how many times the text wrapped onto a further row (only
/// text wider than the view wraps), and the column reached.
pub open spec fn draw_line(p: Seq<char>, width: nat) -> (Seq<u8>, nat, nat)
    decreases p.len(),
{
    if p.len() == 0 {
        (Seq::empty(), 0, 0)
    } else {
        let d = draw_line(p.drop_last(), width);
        let c = p.last();
        let x = d.2 + char_width(c);
        if x > width {
            (d.0 + char_bytes(c), d.1 + 1, (x - width) as nat)
        } else {
            (d.0 + char_bytes(c), d.1, x)
        }
    }
}

proof fn lemma_plain_line(p: Seq<char>, width: nat)
    requires
        width >= 1,
        p.len() >= 1,
        forall|i: int| 0 <= i < p.len() ==> #[trigger] p[i] != '\t',
    ensures
        p.len() == width * draw_line(p, width).1 + draw_line(p, width).2,
        1 <= draw_line(p, width).2 <= width,
    decreases p.len(),
{
    let q = p.drop_last();
    if q.len() >= 1 {
        assert forall|i: int| 0 <= i < q.len() implies #[trigger] q[i] != '\t' by {
            assert(q[i] == p[i]);
        }
        lemma_plain_line(q, width);
        let d = draw_line(q, width);
        assert(p.last() == p[p.len() - 1]);
        assert(char_width(p.last()) == 1);
        if d.2 + 1 > width {
            assert(width * (d.1 + 1) == width * d.1 + width) by (nonlinear_arith);
            assert(draw_line(p, width).1 == d.1 + 1 && draw_line(p, width).2 == 1);
        } else {
            assert(draw_line(p, width).1 == d.1 && draw_line(p, width).2 == d.2 + 1);
        }
    } else {
        assert(p.last() == p[0]);
        assert(char_width(p.last()) == 1);
        assert(draw_line(q, width).1 == 0 && draw_line(q, width).2 == 0);
        assert(draw_line(p, width).1 == 0 && draw_line(p, width).2 == 1);
        assert(width * 0 == 0) by (nonlinear_arith);
    }
}

/// Rows that a line of `k` columns takes in a view `width` columns wide.
pub open spec fn rows_for(k: nat, width: nat) -> nat {
    if k == 0 { 1 } else { ((k + width - 1) / width as int) as nat }
}

/// A line without tabs takes one row per `width` columns begun, and one
/// row when it is empty: only text wider than the view wraps.
pub proof fn law_line_rows(p: Seq<char>, width: nat)
    requires
        width >= 1,
        forall|i: int| 0 <= i < p.len() ==> #[trigger] p[i] != '\t',
    ensures
        draw_line(p, width).1 + 1 == rows_for(p.len(), width),
{
    if p.len() >= 1 {
        lemma_plain_line(p, width);
        let d = draw_line(p, width);
        assert((p.len() + width - 1) as int == (d.1 + 1) * width + (d.2 - 1)) by (nonlinear_arith)
            requires
                p.len() == width * d.1 + d.2,
        ;
        vstd::arithmetic::div_mod::lemma_fundamental_div_mod_converse(
            (p.len() + width - 1) as int,
            width as int,
            (d.1 + 1) as int,
            (d.2 - 1) as int,
        );
    }
}

/// Drawing `lines` after `count` rows were used, until the rows reach
/// `height`: the bytes written and the rows used in the end. A line is
/// always drawn whole.
pub open spec fn draw_lines(lines: Seq<Seq<char>>, width: nat, height: nat, count: nat) -> (Seq<u8>, nat)
    decreases lines.len(),
{
    if lines.len() == 0 {
        (Seq::empty(), count)
    } else {
        let d = draw_line(lines[0], width);
        let rows = count + d.1 + 1;
        let b = d.0 + encode_utf8(line_end());
        if rows >= height {
            (b, rows)
        } else {
            let rest = draw_lines(lines.drop_first(), width, height, rows);
            (b + rest.0, rest.1)
        }
    }
}

/// Relies on `char::encode_utf8`: the UTF-8 bytes of one character.
#[verifier::external_body]
fn utf8_of(c: char) -> (r: Vec<u8>)
    ensures
        r@ == encode_utf8(seq![c]),
{
    let mut b = [0u8; 4];
    c.encode_utf8(&mut b).as_bytes().to_vec()
}

/// Rows of the viewport that the header and the chord line take.
pub const RESERVED_LINES_COUNT: usize = 2;

/// Palette codes of the colors the frame uses.
pub const BLACK: u8 = 0;
pub const DARK_RED: u8 = 1;
pub const DARK_YELLOW: u8 = 3;
pub const DARK_MAGENTA: u8 = 5;
pub const WHITE: u8 = 15;

/// What the header shows of the active mode.
#[derive(Clone, Copy, Debug)]
pub struct HeaderInfo<'a> {
    pub name: &'a str,
    pub waiting_response: bool,
}

/// The busy indicator: one of four glyphs while waiting, else a blank.
pub open spec fn spinner_char(waiting: bool, state: u8) -> char {
    if !waiting {
        ' '
    } else {
        let i = state % 4;
        if i == 0 { '-' } else if i == 1 { '\\' } else if i == 2 { '|' } else { '/' }
    }
}

/// The header bar: at the top left, in reverse video, the spinner and the
/// mode's name, the rest of the row in the bar's color. `colors` holds the
/// five color commands in the order they are written.
pub open spec fn header_text(colors: Seq<Seq<char>>, spinner: char, name: Seq<char>) -> Seq<char> {
    csi() + seq!['1', ';', '1', 'H'] + colors[0] + colors[1] + seq![' ', spinner, ' '] + colors[2] + colors[3]
        + seq![' '] + name + seq![' '] + colors[4] + line_end() + csi() + seq!['0', 'm']
}

/// Columns left for the title in a header bar `width` columns wide, after
/// the spinner and the spaces around the title.
pub open spec fn title_width(width: u16) -> nat {
    if width >= 5 { (width - 5) as nat } else { 0 }
}

/// The first `n` characters of `s` (all of it when shorter).
pub open spec fn clipped(s: Seq<char>, n: nat) -> Seq<char> {
    if s.len() <= n { s } else { s.take(n as int) }
}

/// The title as the header shows it in a bar `width` columns wide.
fn clip_title(name: &str, width: u16) -> (r: String)
    ensures
        r@ == clipped(name@, title_width(width)),
{
    let room: usize = if width >= 5 { width as usize - 5 } else { 0 };
    let mut chars = crate::text::chars_of(name);
    if chars.len() > room {
        chars.truncate(room);
    }
    proof {
        assert(chars@ =~= clipped(name@, title_width(width)));
    }
    crate::text::string_of(chars.as_slice())
}

/// The five color commands of the header: bar background, text foreground,
/// then swapped for the name, then the bar background again.
pub open spec fn header_colors(colors: Seq<Seq<char>>) -> bool {
    &&& colors.len() == 5
    &&& is_color_command(colors[0], palette_selector(true, DARK_YELLOW))
    &&& is_color_command(colors[1], palette_selector(false, BLACK))
    &&& is_color_command(colors[2], palette_selector(true, BLACK))
    &&& is_color_command(colors[3], palette_selector(false, DARK_YELLOW))
    &&& is_color_command(colors[4], palette_selector(true, DARK_YELLOW))
}

/// The four color commands around a line editor's text: black background,
/// white text, dark red cursor block, black background again.
pub open spec fn readline_colors(colors: Seq<Seq<char>>) -> bool {
    &&& colors.len() == 4
    &&& is_color_command(colors[0], palette_selector(true, BLACK))
    &&& is_color_command(colors[1], palette_selector(false, WHITE))
    &&& is_color_command(colors[2], palette_selector(true, DARK_RED))
    &&& is_color_command(colors[3], palette_selector(true, BLACK))
}

/// The chord echo: the cursor moved to the bottom row so that the chord ends
/// at the right edge, the row cleared, then the chord in the highlight color
/// `fg`, then the colors reset.
pub open spec fn key_chord_text(size: (u16, u16), chord: Seq<char>, fg: Seq<char>) -> Seq<char> {
    let len = if chord.len() < size.0 { chord.len() as int } else { size.0 as int };
    let column = size.0 - len;
    let column = if column < u16::MAX { column } else { u16::MAX - 1 };
    let row = if size.1 >= 1 { size.1 - 1 } else { 0 };
    let row = if row < u16::MAX { row } else { u16::MAX - 1 };
    csi() + decimal((row + 1) as nat) + seq![';'] + decimal((column + 1) as nat) + seq!['H'] + csi() + seq!['2', 'K']
        + fg + chord + csi() + seq!['0', 'm']
}

/// Rows a select menu may fill below a header of `header_height` rows.
pub open spec fn menu_rows(rows: u16, header_height: u16) -> int {
    if rows as int >= 1 + header_height as int { rows as int - 1 - header_height as int } else { 0 }
}

/// Entries that a select menu can draw, each in its own way.
pub trait SelectEntryDraw {
    /// The text that draws the entry, hovered or not, in full or not.
    spec fn row(&self, hovered: bool, full: bool) -> Seq<char>;

    /// The rows that this text takes.
    spec fn rows(&self, hovered: bool, full: bool) -> nat;

    /// Draws the entry on the current row and returns the rows it used.
    fn draw(&self, drawer: &mut Drawer, hovered: bool, full: bool) -> (r: usize)
        ensures
            final(drawer).viewport() == old(drawer).viewport(),
            final(drawer).bytes() == old(drawer).bytes() + encode_utf8(self.row(hovered, full)),
            r == self.rows(hovered, full),
    ;
}

/// The select menu's rows from entry `i` on, after `count` rows were used:
/// each entry (highlighted by `hover` and followed by `bg` when it is under
/// the cursor) ends its row; the menu stops after the entry whose rows bring
/// the count (saturating) to `max`, or after the last entry.
pub open spec fn menu_from<E: SelectEntryDraw>(
    entries: Seq<E>,
    i: nat,
    cursor: nat,
    show_full: bool,
    max: int,
    count: int,
    hover: Seq<char>,
    bg: Seq<char>,
) -> Seq<char>
    decreases entries.len() - i,
{
    if i >= entries.len() {
        Seq::empty()
    } else {
        let hovered = i == cursor;
        let full = hovered && show_full;
        let e = entries[i as int];
        let sum = count + e.rows(hovered, full);
        let c = if sum <= usize::MAX { sum } else { usize::MAX as int };
        let seg = (if hovered { hover } else { Seq::empty() }) + e.row(hovered, full) + line_end() + (if hovered {
            bg
        } else {
            Seq::empty()
        });
        if c >= max {
            seg
        } else {
            seg + menu_from(entries, i + 1, cursor, show_full, max, c, hover, bg)
        }
    }
}

/// The color commands of a select menu: black background, white text, and
/// the dark magenta background of the hovered entry.
pub open spec fn menu_colors(colors: Seq<Seq<char>>) -> bool {
    &&& colors.len() == 3
    &&& is_color_command(colors[0], palette_selector(true, BLACK))
    &&& is_color_command(colors[1], palette_selector(false, WHITE))
    &&& is_color_command(colors[2], palette_selector(true, DARK_MAGENTA))
}

/// A whole select menu below a header of `header_height` rows in a view of
/// `rows` rows, drawn with the color commands `colors`.
pub open spec fn menu_text<E: SelectEntryDraw>(
    entries: Seq<E>,
    scroll: nat,
    cursor: nat,
    show_full: bool,
    rows: u16,
    header_height: u16,
    colors: Seq<Seq<char>>,
) -> Seq<char> {
    colors[0] + colors[1] + menu_from(
        entries,
        scroll,
        cursor,
        show_full,
        menu_rows(rows, header_height),
        0,
        colors[2],
        colors[0],
    )
}

/// Appending the encoding of `p` to a buffer that holds the encoding of `t`
/// gives the encoding of `t + p`.
pub proof fn lemma_append(base: Seq<u8>, t: Seq<char>, p: Seq<char>)
    ensures
        base + encode_utf8(t) + encode_utf8(p) == base + encode_utf8(t + p),
{
    lemma_encode_concat(t, p);
    assert(base + encode_utf8(t) + encode_utf8(p) =~= base + (encode_utf8(t) + encode_utf8(p)));
}

/// Builds one frame of terminal output in a byte buffer.
#[derive(Debug)]
pub struct Drawer {
    buf: Vec<u8>,
    pub viewport_size: (u16, u16),
}

impl Drawer {
    pub closed spec fn bytes(&self) -> Seq<u8> {
        self.buf@
    }

    pub closed spec fn viewport(&self) -> (u16, u16) {
        self.viewport_size
    }

    /// Starts a frame in `buf`, reusing its allocation.
    pub fn new(buf: Vec<u8>, viewport_size: (u16, u16)) -> (r: Self)
        ensures
            r.bytes() == Seq::<u8>::empty(),
            r.viewport() == viewport_size,
    {
        let mut buf = buf;
        buf.clear();
        Drawer { buf, viewport_size }
    }

    /// The viewport as (columns, rows).
    pub fn size(&self) -> (r: (u16, u16))
        ensures
            r == self.viewport(),
    {
        self.viewport_size
    }

    /// The frame's bytes.
    pub fn take_buf(self) -> (r: Vec<u8>)
        ensures
            r@ == self.bytes(),
    {
        self.buf
    }

    /// Appends text as it is.
    pub fn str(&mut self, line: &str)
        ensures
            final(self).bytes() == old(self).bytes() + encode_utf8(line@),
            final(self).viewport() == old(self).viewport(),
    {
        let bytes = line.as_bytes();
        let ghost before = self.buf@;
        self.buf.extend_from_slice(bytes);
        proof {
            assert(self.buf@ =~= before + encode_utf8(line@));
        }
    }

    fn bytes_vec(&mut self, bytes: &Vec<u8>)
        ensures
            final(self).bytes() == old(self).bytes() + bytes@,
            final(self).viewport() == old(self).viewport(),
    {
        let ghost before = self.buf@;
        self.buf.extend_from_slice(bytes.as_slice());
        proof {
            assert(self.buf@ =~= before + bytes@);
        }
    }

    /// Draws the output's lines from its scroll offset, wrapping long lines
    /// and expanding tabs, and stops after the line that fills the view.
    /// Returns the rows used.
    pub fn output(&mut self, output: &Output) -> (r: usize)
        ensures
            final(self).viewport() == old(self).viewport(),
            ({
                let d = draw_lines(
                    output.lines_spec().skip(output.scroll_spec() as int),
                    old(self).viewport().0 as nat,
                    old(self).viewport().1 as nat,
                    0,
                );
                final(self).bytes() == old(self).bytes() + d.0 && r == d.1
            }),
    {
        let width = self.viewport_size.0 as usize;
        let height = self.viewport_size.1 as usize;
        let clear = clear_until_newline();
        let down = move_to_next_line(1);
        proof {
            crate::text::lemma_encode_concat(clear@, down@);
            assert(clear@ + down@ =~= line_end());
        }
        let ghost lines = output.lines_spec();
        let ghost start = self.buf@;
        let ghost total = draw_lines(lines.skip(output.scroll_spec() as int), width as nat, height as nat, 0);
        let n = output.line_count();
        let mut i = output.scroll();
        let mut count: usize = 0;
        let mut done = false;
        let ghost mut acc: Seq<u8> = Seq::empty();
        proof {
            assert(lines.skip(i as int) == lines.skip(output.scroll_spec() as int));
            assert(acc + draw_lines(lines.skip(i as int), width as nat, height as nat, 0).0 =~= total.0);
        }
        while i < n && !done
            invariant
                n == lines.len(),
                lines == output.lines_spec(),
                i <= n,
                width == self.viewport().0,
                height == self.viewport().1,
                self.viewport() == old(self).viewport(),
                start == old(self).bytes(),
                clear@ + down@ == line_end(),
                self.buf@ == start + acc,
                count <= acc.len(),
                total == draw_lines(lines.skip(output.scroll_spec() as int), width as nat, height as nat, 0),
                !done ==> total == ({
                    let rest = draw_lines(lines.skip(i as int), width as nat, height as nat, count as nat);
                    (acc + rest.0, rest.1)
                }),
                done ==> total == (acc, count as nat),
            decreases n - i,
        {
            let line = output.line(i);
            let ghost line_start = self.buf@;
            let mut x: usize = 0;
            let mut wraps: usize = 0;
            let mut j: usize = 0;
            proof {
                assert(line@.take(0) =~= Seq::<char>::empty());
                assert(self.buf@ =~= line_start + draw_line(line@.take(0), width as nat).0);
            }
            while j < line.len()
                invariant
                    j <= line@.len(),
                    width == self.viewport().0,
                    self.viewport() == old(self).viewport(),
                    line_start == start + acc,
                    count <= acc.len(),
                    self.buf@ == line_start + draw_line(line@.take(j as int), width as nat).0,
                    wraps == draw_line(line@.take(j as int), width as nat).1,
                    x == draw_line(line@.take(j as int), width as nat).2,
                    x <= self.buf@.len() - line_start.len(),
                    count + wraps <= self.buf@.len() - start.len(),
                decreases line@.len() - j,
            {
                let c = line[j];
                proof {
                    assert(line@.take(j + 1).drop_last() =~= line@.take(j as int));
                }
                if c == '\t' {
                    let spaces: Vec<u8> = vec![32u8, 32u8, 32u8, 32u8];
                    self.bytes_vec(&spaces);
                    // a buffer's length fits in usize: this bounds the column
                    let _ = self.buf.len();
                    x = x + 4;
                } else {
                    let bytes = utf8_of(c);
                    proof {
                        assert(encode_utf8(seq![c]).len() >= 1);
                    }
                    self.bytes_vec(&bytes);
                    let _ = self.buf.len();
                    x = x + 1;
                }
                if x > width {
                    x = x - width;
                    wraps = wraps + 1;
                }
                proof {
                    assert(self.buf@ =~= line_start + draw_line(line@.take(j + 1), width as nat).0);
                }
                j = j + 1;
            }
            proof {
                assert(line@.take(line@.len() as int) =~= line@);
            }
            self.str(clear.as_str());
            self.str(down.as_str());
            // the rows used never exceed the bytes written, whose count fits in usize
            let _ = self.buf.len();
            let ghost d = draw_line(line@, width as nat);
            proof {
                let ls = lines.skip(i as int);
                assert(ls[0] == line@);
                assert(ls.drop_first() =~= lines.skip(i + 1));
                assert(encode_utf8(line_end()).len() >= 1);
                crate::text::lemma_encode_concat(clear@, down@);
                assert(self.buf@ =~= start + (acc + (d.0 + encode_utf8(line_end()))));
            }
            count = count + wraps + 1;
            i = i + 1;
            proof {
                let b = d.0 + encode_utf8(line_end());
                if count >= height {
                    assert(acc + b =~= total.0);
                } else {
                    let rest = draw_lines(lines.skip(i as int), width as nat, height as nat, count as nat);
                    assert((acc + b) + rest.0 =~= acc + (b + rest.0));
                }
                acc = acc + b;
            }
            if count >= height {
                done = true;
            }
        }
        proof {
            if !done {
                assert(lines.skip(i as int).len() == 0);
                assert(acc + Seq::<u8>::empty() =~= acc);
            }
        }
        count
    }

    /// Appends one character.
    pub fn char(&mut self, c: char)
        ensures
            final(self).bytes() == old(self).bytes() + encode_utf8(seq![c]),
            final(self).viewport() == old(self).viewport(),
    {
        let bytes = utf8_of(c);
        self.bytes_vec(&bytes);
    }

    /// Clears from the cursor to the bottom of the screen on a black background.
    pub fn clear_to_bottom(&mut self)
        ensures
            final(self).viewport() == old(self).viewport(),
            exists|bg: Seq<char>|
                is_color_command(bg, palette_selector(true, BLACK)) && final(self).bytes() == old(self).bytes()
                    + encode_utf8(bg + csi() + seq!['J']),
    {
        let bg = set_background(BLACK);
        let clear = clear_from_cursor_down();
        self.str(bg.as_str());
        self.str(clear.as_str());
        proof {
            lemma_append(old(self).bytes(), bg@, clear@);
            assert(bg@ + clear@ =~= bg@ + csi() + seq!['J']);
        }
    }

    /// Draws the header bar on the first row.
    #[verifier::rlimit(50)]
    pub fn header(&mut self, info: HeaderInfo, spinner_state: u8)
        ensures
            final(self).viewport() == old(self).viewport(),
            exists|colors: Seq<Seq<char>>|
                header_colors(colors) && final(self).bytes() == old(self).bytes() + encode_utf8(
                    header_text(
                        colors,
                        spinner_char(info.waiting_response, spinner_state),
                        clipped(info.name@, title_width(old(self).viewport().0)),
                    ),
                ),
    {
        let spinner = if info.waiting_response {
            let i = spinner_state % 4;
            if i == 0 { '-' } else if i == 1 { '\\' } else if i == 2 { '|' } else { '/' }
        } else {
            ' '
        };
        let name = clip_title(info.name, self.viewport_size.0);
        let ghost base = self.buf@;
        let home = move_to(0, 0);
        let c0 = set_background(DARK_YELLOW);
        let c1 = set_foreground(BLACK);
        let c2 = set_background(BLACK);
        let c3 = set_foreground(DARK_YELLOW);
        let c4 = set_background(DARK_YELLOW);
        let clear = clear_until_newline();
        let down = move_to_next_line(1);
        let reset = reset_color();
        let ghost mut t: Seq<char> = Seq::empty();
        proof {
            assert(base + encode_utf8(t) =~= base);
        }
        self.str(home.as_str());
        proof { lemma_append(base, t, home@); t = t + home@; }
        self.str(c0.as_str());
        proof { lemma_append(base, t, c0@); t = t + c0@; }
        self.str(c1.as_str());
        proof { lemma_append(base, t, c1@); t = t + c1@; }
        self.char(' ');
        proof { lemma_append(base, t, seq![' ']); t = t + seq![' ']; }
        self.char(spinner);
        proof { lemma_append(base, t, seq![spinner]); t = t + seq![spinner]; }
        self.char(' ');
        proof { lemma_append(base, t, seq![' ']); t = t + seq![' ']; }
        self.str(c2.as_str());
        proof { lemma_append(base, t, c2@); t = t + c2@; }
        self.str(c3.as_str());
        proof { lemma_append(base, t, c3@); t = t + c3@; }
        self.char(' ');
        proof { lemma_append(base, t, seq![' ']); t = t + seq![' ']; }
        self.str(name.as_str());
        proof { lemma_append(base, t, name@); t = t + name@; }
        self.char(' ');
        proof { lemma_append(base, t, seq![' ']); t = t + seq![' ']; }
        self.str(c4.as_str());
        proof { lemma_append(base, t, c4@); t = t + c4@; }
        self.str(clear.as_str());
        proof { lemma_append(base, t, clear@); t = t + clear@; }
        self.str(down.as_str());
        proof { lemma_append(base, t, down@); t = t + down@; }
        self.str(reset.as_str());
        proof {
            lemma_append(base, t, reset@);
            t = t + reset@;
            let colors = seq![c0@, c1@, c2@, c3@, c4@];
            assert(t =~= header_text(colors, spinner, name@));
            assert(header_colors(colors));
        }
    }

    /// Draws a line editor's text followed by a block cursor.
    pub fn readline(&mut self, readline: &ReadLine)
        ensures
            final(self).viewport() == old(self).viewport(),
            exists|colors: Seq<Seq<char>>|
                readline_colors(colors) && final(self).bytes() == old(self).bytes() + encode_utf8(
                    colors[0] + colors[1] + readline.input_spec() + colors[2] + seq![' '] + colors[3],
                ),
    {
        let ghost base = self.buf@;
        let c0 = set_background(BLACK);
        let c1 = set_foreground(WHITE);
        let c2 = set_background(DARK_RED);
        let c3 = set_background(BLACK);
        let input = readline.input();
        let ghost mut t: Seq<char> = Seq::empty();
        proof {
            assert(base + encode_utf8(t) =~= base);
        }
        self.str(c0.as_str());
        proof { lemma_append(base, t, c0@); t = t + c0@; }
        self.str(c1.as_str());
        proof { lemma_append(base, t, c1@); t = t + c1@; }
        self.str(input);
        proof { lemma_append(base, t, input@); t = t + input@; }
        self.str(c2.as_str());
        proof { lemma_append(base, t, c2@); t = t + c2@; }
        self.char(' ');
        proof { lemma_append(base, t, seq![' ']); t = t + seq![' ']; }
        self.str(c3.as_str());
        proof {
            lemma_append(base, t, c3@);
            t = t + c3@;
            let colors = seq![c0@, c1@, c2@, c3@];
            assert(t =~= colors[0] + colors[1] + readline.input_spec() + colors[2] + seq![' '] + colors[3]);
            assert(readline_colors(colors));
        }
    }

    /// Draws the entries of a select menu from its scroll offset, the one
    /// under the cursor highlighted, until the rows below a header of
    /// `header_height` rows are filled or the entries end.
    pub fn select_menu<E: SelectEntryDraw>(
        &mut self,
        select: &SelectMenu,
        header_height: u16,
        show_full_hovered_entry: bool,
        entries: &[E],
    )
        ensures
            final(self).viewport() == old(self).viewport(),
            exists|colors: Seq<Seq<char>>|
                menu_colors(colors) && final(self).bytes() == old(self).bytes() + encode_utf8(
                    menu_text(
                        entries@,
                        select.scroll_spec(),
                        select.cursor_spec(),
                        show_full_hovered_entry,
                        old(self).viewport().1,
                        header_height,
                        colors,
                    ),
                ),
    {
        let ghost base = self.buf@;
        let cursor_index = select.cursor();
        let bg = set_background(BLACK);
        let fg = set_foreground(WHITE);
        let hover = set_background(DARK_MAGENTA);
        let clear = clear_until_newline();
        let down = move_to_next_line(1);
        let max_line_count = (self.viewport_size.1 as usize).saturating_sub(1 + header_height as usize);
        let ghost colors = seq![bg@, fg@, hover@];
        let ghost total = menu_text(
            entries@,
            select.scroll_spec(),
            select.cursor_spec(),
            show_full_hovered_entry,
            old(self).viewport().1,
            header_height,
            colors,
        );
        let ghost mut t: Seq<char> = Seq::empty();
        proof {
            assert(base + encode_utf8(t) =~= base);
            lemma_encode_concat(clear@, down@);
            assert(clear@ + down@ =~= line_end());
        }
        self.str(bg.as_str());
        proof { lemma_append(base, t, bg@); t = t + bg@; }
        self.str(fg.as_str());
        proof { lemma_append(base, t, fg@); t = t + fg@; }
        let mut line_count: usize = 0;
        let mut i = select.scroll();
        let mut done = false;
        proof {
            assert(max_line_count as int == menu_rows(old(self).viewport().1, header_height));
            assert(t + menu_from(entries@, i as nat, cursor_index as nat, show_full_hovered_entry,
                max_line_count as int, 0, hover@, bg@) =~= total);
        }
        while i < entries.len() && !done
            invariant
                self.viewport() == old(self).viewport(),
                self.buf@ == base + encode_utf8(t),
                clear@ + down@ == line_end(),
                cursor_index == select.cursor_spec(),
                !done ==> t + menu_from(entries@, i as nat, cursor_index as nat, show_full_hovered_entry,
                    max_line_count as int, line_count as int, hover@, bg@) == total,
                done ==> t == total,
            decreases entries@.len() - i,
        {
            let hovered = i == cursor_index;
            let full = hovered && show_full_hovered_entry;
            let ghost t0 = t;
            if hovered {
                self.str(hover.as_str());
                proof { lemma_append(base, t, hover@); t = t + hover@; }
            }
            let rows = entries[i].draw(self, hovered, full);
            proof { lemma_append(base, t, entries@[i as int].row(hovered, full)); t = t + entries@[i as int].row(hovered, full); }
            line_count = line_count.saturating_add(rows);
            self.str(clear.as_str());
            proof { lemma_append(base, t, clear@); t = t + clear@; }
            self.str(down.as_str());
            proof { lemma_append(base, t, down@); t = t + down@; }
            if hovered {
                self.str(bg.as_str());
                proof { lemma_append(base, t, bg@); t = t + bg@; }
            }
            proof {
                let seg = (if hovered { hover@ } else { Seq::empty() }) + entries@[i as int].row(hovered, full)
                    + line_end() + (if hovered { bg@ } else { Seq::empty() });
                assert(t =~= t0 + seg);
                if line_count >= max_line_count {
                    assert(t0 + seg =~= total);
                } else {
                    let rest = menu_from(entries@, (i + 1) as nat, cursor_index as nat, show_full_hovered_entry,
                        max_line_count as int, line_count as int, hover@, bg@);
                    assert(t0 + (seg + rest) =~= t + rest);
                }
            }
            if line_count >= max_line_count {
                done = true;
            }
            i = i + 1;
        }
        proof {
            if !done {
                assert(t + Seq::<char>::empty() =~= t);
            }
            assert(menu_colors(colors));
        }
    }

    /// Echoes the chord being typed at the right end of the bottom row.
    pub fn key_chord(&mut self, chord: &[char])
        ensures
            final(self).viewport() == old(self).viewport(),
            exists|fg: Seq<char>|
                is_color_command(fg, rgb_selector(ENTRY_COLOR.0, ENTRY_COLOR.1, ENTRY_COLOR.2)) && final(self).bytes()
                    == old(self).bytes() + encode_utf8(key_chord_text(old(self).viewport(), chord@, fg)),
    {
        let ghost base = self.buf@;
        let (width, height) = self.viewport_size;
        let len: u16 = if chord.len() < width as usize { chord.len() as u16 } else { width };
        let column = width - len;
        let row = height.saturating_sub(1);
        let column = if column < u16::MAX { column } else { u16::MAX - 1 };
        let row = if row < u16::MAX { row } else { u16::MAX - 1 };
        let place = move_to(column, row);
        let clear = clear_line();
        let fg = set_foreground_rgb(ENTRY_COLOR.0, ENTRY_COLOR.1, ENTRY_COLOR.2);
        let reset = reset_color();
        let ghost mut t: Seq<char> = Seq::empty();
        proof {
            assert(base + encode_utf8(t) =~= base);
        }
        self.str(place.as_str());
        proof { lemma_append(base, t, place@); t = t + place@; }
        self.str(clear.as_str());
        proof { lemma_append(base, t, clear@); t = t + clear@; }
        self.str(fg.as_str());
        proof { lemma_append(base, t, fg@); t = t + fg@; }
        let ghost head = t;
        let mut i: usize = 0;
        while i < chord.len()
            invariant
                i <= chord@.len(),
                self.viewport() == old(self).viewport(),
                t == head + chord@.take(i as int),
                self.buf@ == base + encode_utf8(t),
            decreases chord@.len() - i,
        {
            self.char(chord[i]);
            proof {
                lemma_append(base, t, seq![chord@[i as int]]);
                t = t + seq![chord@[i as int]];
                assert(t =~= head + chord@.take(i + 1));
            }
            i = i + 1;
        }
        self.str(reset.as_str());
        proof {
            lemma_append(base, t, reset@);
            assert(chord@.take(chord@.len() as int) =~= chord@);
            assert(t + reset@ =~= key_chord_text(old(self).viewport(), chord@, fg@));
        }
    }

    /// Ends the current line: clears what is left of it and moves down.
    pub fn next_line(&mut self)
        ensures
            final(self).bytes() == old(self).bytes() + encode_utf8(line_end()),
            final(self).viewport() == old(self).viewport(),
    {
        let clear = clear_until_newline();
        let down = move_to_next_line(1);
        self.str(clear.as_str());
        self.str(down.as_str());
        proof {
            crate::text::lemma_encode_concat(clear@, down@);
            assert(clear@ + down@ =~= line_end());
        }
    }
}

} // verus!
