//! The text console: a model of the 80 by 25 character cells of the display
//! adapter, with the cursor, line wrap and scrolling of the kernel's
//! printing routines. The caller copies the cells to video memory.

use vstd::prelude::*;
use vstd::string::*;
use crate::serial::{hex_fixed, push_hex_fixed};

verus! {

/// Number of character columns.
pub const VGA_WIDTH: usize = 80;
/// Number of character rows.
pub const VGA_HEIGHT: usize = 25;
/// Number of bytes of the cells: a character and an attribute for each.
pub const VGA_BYTES: usize = 4000;
/// Number of bytes of one row.
pub const ROW_BYTES: usize = 160;
/// The attribute of ordinary text: light gray on black.
pub const TEXT_ATTRIBUTE: u8 = 0x07;
/// The attribute of the digits of a hexadecimal number: light green on black.
pub const HEX_ATTRIBUTE: u8 = 0x0A;
/// The character of an empty cell.
pub const BLANK: u8 = 0x20;
/// The line feed character.
pub const LINE_FEED: u8 = 0x0A;

/// The sixteen colours of the text mode.
#[derive(Clone, Copy, Debug, PartialEq, Eq, Structural)]
pub enum Color {
    Black,
    Blue,
    Green,
    Cyan,
    Red,
    Magenta,
    Brown,
    LightGray,
    DarkGray,
    LightBlue,
    LightGreen,
    LightCyan,
    LightRed,
    Pink,
    Yellow,
    White,
}

impl Color {
    /// The number of the colour in an attribute byte.
    pub open spec fn value(self) -> u8 {
        match self {
            Color::Black => 0,
            Color::Blue => 1,
            Color::Green => 2,
            Color::Cyan => 3,
            Color::Red => 4,
            Color::Magenta => 5,
            Color::Brown => 6,
            Color::LightGray => 7,
            Color::DarkGray => 8,
            Color::LightBlue => 9,
            Color::LightGreen => 10,
            Color::LightCyan => 11,
            Color::LightRed => 12,
            Color::Pink => 13,
            Color::Yellow => 14,
            Color::White => 15,
        }
    }

    /// The number of the colour in an attribute byte.
    pub fn code(self) -> (c: u8)
        ensures
            c == self.value(),
            c < 16,
    {
        match self {
            Color::Black => 0,
            Color::Blue => 1,
            Color::Green => 2,
            Color::Cyan => 3,
            Color::Red => 4,
            Color::Magenta => 5,
            Color::Brown => 6,
            Color::LightGray => 7,
            Color::DarkGray => 8,
            Color::LightBlue => 9,
            Color::LightGreen => 10,
            Color::LightCyan => 11,
            Color::LightRed => 12,
            Color::Pink => 13,
            Color::Yellow => 14,
            Color::White => 15,
        }
    }
}

/// What the console shows and where the next character goes.
pub struct Display {
    /// The bytes of the cells, row by row: character, then attribute.
    pub cells: Seq<u8>,
    /// Column of the cursor.
    pub x: int,
    /// Row of the cursor.
    pub y: int,
}

/// The cells of an empty screen.
pub open spec fn blank_cells() -> Seq<u8> {
    Seq::new(
        VGA_BYTES as nat,
        |i: int|
            if i % 2 == 0 {
                BLANK
            } else {
                TEXT_ATTRIBUTE
            },
    )
}

/// The cells after the rows have moved up by one and the last row was
/// emptied.
pub open spec fn scrolled(cells: Seq<u8>) -> Seq<u8> {
    Seq::new(
        VGA_BYTES as nat,
        |i: int|
            if i < VGA_BYTES - ROW_BYTES {
                cells[i + ROW_BYTES]
            } else if i % 2 == 0 {
                BLANK
            } else {
                TEXT_ATTRIBUTE
            },
    )
}

impl Display {
    /// The display has all its cells and the cursor lies on it.
    pub open spec fn wf(self) -> bool {
        self.cells.len() == VGA_BYTES && 0 <= self.x < VGA_WIDTH && 0 <= self.y < VGA_HEIGHT
    }

    /// The display after the cursor went to the start of the next row; from
    /// the last row, the rows scroll up instead.
    pub open spec fn line_feed(self) -> Display {
        if self.y + 1 >= VGA_HEIGHT {
            Display { cells: scrolled(self.cells), x: 0, y: VGA_HEIGHT - 1 }
        } else {
            Display { cells: self.cells, x: 0, y: self.y + 1 }
        }
    }

    /// The display after character `c` was put with attribute `color`. A
    /// line feed only moves the cursor; any other character fills the cell
    /// under the cursor and moves the cursor on, to the next row at the end
    /// of a row.
    pub open spec fn put(self, c: u8, color: u8) -> Display {
        if c == LINE_FEED {
            self.line_feed()
        } else {
            let offset = (self.y * VGA_WIDTH + self.x) * 2;
            let cells = self.cells.update(offset, c).update(offset + 1, color);
            if self.x + 1 >= VGA_WIDTH {
                (Display { cells, x: self.x, y: self.y }).line_feed()
            } else {
                Display { cells, x: self.x + 1, y: self.y }
            }
        }
    }

    /// The display after the characters of `text` were put in order, all
    /// with attribute `color`.
    pub open spec fn print(self, text: Seq<u8>, color: u8) -> Display
        decreases text.len(),
    {
        if text.len() == 0 {
            self
        } else {
            self.print(text.drop_last(), color).put(text.last(), color)
        }
    }

    /// The display after `value` was printed in hexadecimal: the prefix as
    /// ordinary text, then all sixteen digits in the colour of numbers.
    pub open spec fn print_hex(self, value: u64) -> Display {
        self.print(seq![0x30u8, 0x78u8], TEXT_ATTRIBUTE).print(
            hex_fixed(value as nat, 16),
            HEX_ATTRIBUTE,
        )
    }
}

/// Putting a character keeps the display well formed.
pub proof fn lemma_put_keeps_wf(d: Display, c: u8, color: u8)
    requires
        d.wf(),
    ensures
        d.put(c, color).wf(),
{
}

/// Printing keeps the display well formed, and printing two texts one
/// after the other is printing their concatenation.
pub proof fn lemma_print_concat(d: Display, a: Seq<u8>, b: Seq<u8>, color: u8)
    requires
        d.wf(),
    ensures
        d.print(a, color).wf(),
        d.print(a + b, color) == d.print(a, color).print(b, color),
    decreases b.len(),
{
    lemma_print_keeps_wf(d, a, color);
    if b.len() == 0 {
        assert(a + b =~= a);
    } else {
        lemma_print_concat(d, a, b.drop_last(), color);
        assert((a + b).drop_last() =~= a + b.drop_last());
        assert((a + b).last() == b.last());
    }
}

/// Printing keeps the display well formed.
pub proof fn lemma_print_keeps_wf(d: Display, text: Seq<u8>, color: u8)
    requires
        d.wf(),
    ensures
        d.print(text, color).wf(),
    decreases text.len(),
{
    if text.len() > 0 {
        lemma_print_keeps_wf(d, text.drop_last(), color);
        lemma_put_keeps_wf(d.print(text.drop_last(), color), text.last(), color);
    }
}

/// The text console.
pub struct Screen {
    cells: Vec<u8>,
    cursor_x: usize,
    cursor_y: usize,
}

impl View for Screen {
    type V = Display;

    /// The cells and the cursor.
    closed spec fn view(&self) -> Display {
        Display { cells: self.cells@, x: self.cursor_x as int, y: self.cursor_y as int }
    }
}

impl Screen {
    /// An empty screen with the cursor in the top left corner.
    pub fn new() -> (screen: Self)
        ensures
            screen@.wf(),
            screen@ == (Display { cells: blank_cells(), x: 0, y: 0 }),
    {
        let mut cells: Vec<u8> = Vec::new();
        let mut i: usize = 0;
        while i < VGA_BYTES
            invariant
                i <= VGA_BYTES,
                cells@.len() == i,
                forall|k: int| 0 <= k < i ==> cells@[k] == blank_cells()[k],
            decreases VGA_BYTES - i,
        {
            cells.push(if i % 2 == 0 {
                BLANK
            } else {
                TEXT_ATTRIBUTE
            });
            i = i + 1;
        }
        assert(cells@ =~= blank_cells());
        Screen { cells, cursor_x: 0, cursor_y: 0 }
    }

    /// The bytes of the cells, as they are to lie in video memory.
    pub fn cells(&self) -> (cells: &Vec<u8>)
        ensures
            cells@ == self@.cells,
    {
        &self.cells
    }

    /// Column and row of the cursor.
    pub fn cursor(&self) -> (at: (usize, usize))
        ensures
            at.0 == self@.x,
            at.1 == self@.y,
    {
        (self.cursor_x, self.cursor_y)
    }

    /// Moves every row up by one and empties the last row.
    fn scroll_up(&mut self)
        requires
            old(self)@.wf(),
        ensures
            final(self)@ == (Display { cells: scrolled(old(self)@.cells), ..old(self)@ }),
    {
        let mut i: usize = 0;
        while i < VGA_BYTES - ROW_BYTES
            invariant
                i <= VGA_BYTES - ROW_BYTES,
                self.cells@.len() == VGA_BYTES,
                self.cursor_x == old(self).cursor_x,
                self.cursor_y == old(self).cursor_y,
                forall|k: int| 0 <= k < i ==> self.cells@[k] == old(self).cells@[k + ROW_BYTES],
                forall|k: int| i <= k < VGA_BYTES ==> self.cells@[k] == old(self).cells@[k],
            decreases VGA_BYTES - ROW_BYTES - i,
        {
            let moved = self.cells[i + ROW_BYTES];
            self.cells.set(i, moved);
            i = i + 1;
        }
        while i < VGA_BYTES
            invariant
                VGA_BYTES - ROW_BYTES <= i <= VGA_BYTES,
                self.cells@.len() == VGA_BYTES,
                self.cursor_x == old(self).cursor_x,
                self.cursor_y == old(self).cursor_y,
                forall|k: int|
                    0 <= k < VGA_BYTES - ROW_BYTES ==> self.cells@[k] == old(self).cells@[k
                        + ROW_BYTES],
                forall|k: int|
                    VGA_BYTES - ROW_BYTES <= k < i ==> self.cells@[k] == scrolled(
                        old(self).cells@,
                    )[k],
            decreases VGA_BYTES - i,
        {
            self.cells.set(i, if i % 2 == 0 {
                BLANK
            } else {
                TEXT_ATTRIBUTE
            });
            i = i + 1;
        }
        assert(self.cells@ =~= scrolled(old(self).cells@));
    }

    /// Moves the cursor to the start of the next row, scrolling from the
    /// last.
    fn line_feed(&mut self)
        requires
            old(self)@.wf(),
        ensures
            final(self)@ == old(self)@.line_feed(),
            final(self)@.wf(),
    {
        self.cursor_x = 0;
        if self.cursor_y + 1 >= VGA_HEIGHT {
            self.scroll_up();
            self.cursor_y = VGA_HEIGHT - 1;
        } else {
            self.cursor_y = self.cursor_y + 1;
        }
    }
}

/// Empties the screen and puts the cursor in the top left corner.
pub fn clear_screen(screen: &mut Screen)
    ensures
        final(screen)@ == (Display { cells: blank_cells(), x: 0, y: 0 }),
        final(screen)@.wf(),
{
    *screen = Screen::new();
}

/// Puts one character with the given attribute at the cursor.
pub fn put_char(screen: &mut Screen, c: u8, color: u8)
    requires
        old(screen)@.wf(),
    ensures
        final(screen)@ == old(screen)@.put(c, color),
        final(screen)@.wf(),
{
    if c == LINE_FEED {
        screen.line_feed();
        return;
    }
    let offset: usize = (screen.cursor_y * VGA_WIDTH + screen.cursor_x) * 2;
    screen.cells.set(offset, c);
    screen.cells.set(offset + 1, color);
    if screen.cursor_x + 1 >= VGA_WIDTH {
        screen.line_feed();
    } else {
        screen.cursor_x = screen.cursor_x + 1;
    }
}

/// Puts the bytes of `bytes` in order, all with attribute `color`.
fn print_bytes(screen: &mut Screen, bytes: &[u8], color: u8)
    requires
        old(screen)@.wf(),
    ensures
        final(screen)@ == old(screen)@.print(bytes@, color),
        final(screen)@.wf(),
{
    let mut i: usize = 0;
    while i < bytes.len()
        invariant
            i <= bytes@.len(),
            screen@.wf(),
            screen@ == old(screen)@.print(bytes@.subrange(0, i as int), color),
        decreases bytes@.len() - i,
    {
        proof {
            let next = bytes@.subrange(0, i + 1);
            assert(next.drop_last() =~= bytes@.subrange(0, i as int));
            assert(next.last() == bytes@[i as int]);
        }
        put_char(screen, bytes[i], color);
        i = i + 1;
    }
    assert(bytes@.subrange(0, i as int) =~= bytes@);
}

/// Prints the bytes of `s` as ordinary text.
pub fn print_string(screen: &mut Screen, s: &str)
    requires
        old(screen)@.wf(),
    ensures
        final(screen)@ == old(screen)@.print(s.spec_bytes(), TEXT_ATTRIBUTE),
        final(screen)@.wf(),
{
    print_bytes(screen, s.as_bytes(), TEXT_ATTRIBUTE);
}

/// Prints `value` in hexadecimal: `0x` as ordinary text, then all sixteen
/// digits in light green.
pub fn print_hex(screen: &mut Screen, value: u64)
    requires
        old(screen)@.wf(),
    ensures
        final(screen)@ == old(screen)@.print_hex(value),
        final(screen)@.wf(),
{
    put_char(screen, 0x30, TEXT_ATTRIBUTE);
    put_char(screen, 0x78, TEXT_ATTRIBUTE);
    proof {
        let prefix = seq![0x30u8, 0x78u8];
        assert(prefix.drop_last() =~= seq![0x30u8]);
        assert(prefix.drop_last().drop_last() =~= Seq::<u8>::empty());
        assert(old(screen)@.print(prefix.drop_last().drop_last(), TEXT_ATTRIBUTE) == old(screen)@);
        assert(old(screen)@.print(prefix.drop_last(), TEXT_ATTRIBUTE) == old(screen)@.put(
            0x30,
            TEXT_ATTRIBUTE,
        ));
    }
    let mut digits: Vec<u8> = Vec::new();
    push_hex_fixed(&mut digits, value, 16);
    assert(digits@ =~= hex_fixed(value as nat, 16));
    print_bytes(screen, digits.as_slice(), HEX_ATTRIBUTE);
}

} // verus!
