//! The 80x25 VGA text-mode screen as a value: its cells, its cursor and its
//! current colour. Writing bytes, line breaks and scrolling act on this
//! value; copying it to the hardware buffer is left to the caller.

use vstd::prelude::*;
use crate::color::{color_number, Color, ColorCode};

verus! {

pub const BUFFER_WIDTH: usize = 80;

pub const BUFFER_HEIGHT: usize = 25;

/// Number of cells on the screen.
pub const BUFFER_CELLS: usize = 2000;

/// The 16-bit cell for `byte` in colour `attr`: attribute high, byte low.
pub open spec fn cell_value(byte: u8, attr: u8) -> u16 {
    (attr as u16 * 256 + byte as u16) as u16
}

/// A row of blanks in colour `attr`.
pub open spec fn blank_row(attr: u8) -> Seq<u16> {
    Seq::new(BUFFER_WIDTH as nat, |i: int| cell_value(0x20, attr))
}

/// The screen as the model sees it.
pub struct ScreenView {
    pub cells: Seq<u16>,
    pub row: int,
    pub col: int,
    pub attr: u8,
}

/// After a line break: the next row, or on the last row every row moves up
/// one, the last becomes blank, and the cursor goes to column 0.
pub open spec fn after_newline(v: ScreenView) -> ScreenView {
    if v.row < BUFFER_HEIGHT - 1 {
        ScreenView { row: v.row + 1, col: 0, ..v }
    } else {
        ScreenView {
            cells: v.cells.subrange(BUFFER_WIDTH as int, BUFFER_CELLS as int) + blank_row(v.attr),
            col: 0,
            ..v
        }
    }
}

/// After writing `b`: a line feed breaks the line; another byte wraps to a
/// new line when the row is full, is stored at the cursor, and moves it.
pub open spec fn after_byte(v: ScreenView, b: u8) -> ScreenView {
    if b == 10 {
        after_newline(v)
    } else {
        let w = if v.col >= BUFFER_WIDTH { after_newline(v) } else { v };
        ScreenView {
            cells: w.cells.update(w.row * BUFFER_WIDTH + w.col, cell_value(b, w.attr)),
            col: w.col + 1,
            ..w
        }
    }
}

/// After writing all of `bs`, in order.
pub open spec fn after_bytes(v: ScreenView, bs: Seq<u8>) -> ScreenView
    decreases bs.len(),
{
    if bs.len() == 0 {
        v
    } else {
        after_byte(after_bytes(v, bs.drop_last()), bs.last())
    }
}

/// The cell for `byte` in colour `color`.
pub fn cell(byte: u8, color: ColorCode) -> (r: u16)
    ensures
        r == cell_value(byte, color.0),
{
    let a = color.0 as u16;
    let b = byte as u16;
    let r: u16 = (a << 8u16) | b;
    assert(r == a * 256 + b) by (bit_vector)
        requires
            r == (a << 8u16) | b,
            a < 256,
            b < 256,
    ;
    r
}

/// The VGA text screen.
pub struct TextScreen {
    cells: Vec<u16>,
    row: usize,
    col: usize,
    color: ColorCode,
}

impl View for TextScreen {
    type V = ScreenView;

    closed spec fn view(&self) -> ScreenView {
        ScreenView { cells: self.cells@, row: self.row as int, col: self.col as int, attr: self.color.0 }
    }
}

impl TextScreen {
    pub open spec fn wf(&self) -> bool {
        &&& self@.cells.len() == BUFFER_CELLS
        &&& 0 <= self@.row < BUFFER_HEIGHT
        &&& 0 <= self@.col <= BUFFER_WIDTH
    }

    /// A blank screen in light grey on black, the cursor at the top left.
    pub fn new() -> (r: TextScreen)
        ensures
            r.wf(),
            r@.row == 0,
            r@.col == 0,
            r@.attr == color_number(Color::Black) * 16 + color_number(Color::LightGray),
            forall|i: int| 0 <= i < BUFFER_CELLS ==> #[trigger] r@.cells[i] == cell_value(0x20, r@.attr),
    {
        let color = ColorCode::new(Color::LightGray, Color::Black);
        let blank = cell(0x20, color);
        let mut cells: Vec<u16> = Vec::new();
        let mut i: usize = 0;
        while i < BUFFER_CELLS
            invariant
                0 <= i <= BUFFER_CELLS,
                cells@.len() == i,
                forall|j: int| 0 <= j < i ==> #[trigger] cells@[j] == blank,
            decreases BUFFER_CELLS - i,
        {
            cells.push(blank);
            i = i + 1;
        }
        TextScreen { cells, row: 0, col: 0, color }
    }

    /// The cells, row by row.
    pub fn cells(&self) -> (r: &[u16])
        ensures
            r@ == self@.cells,
    {
        self.cells.as_slice()
    }

    /// The cursor as (row, column).
    pub fn cursor(&self) -> (r: (usize, usize))
        ensures
            r.0 == self@.row,
            r.1 == self@.col,
    {
        (self.row, self.col)
    }

    /// The current colour.
    pub fn color(&self) -> (r: ColorCode)
        ensures
            r.0 == self@.attr,
    {
        self.color
    }

    /// Stores `byte` in colour `color` at (`row`, `col`).
    fn write_cell(&mut self, row: usize, col: usize, byte: u8, color: ColorCode)
        requires
            old(self).wf(),
            row < BUFFER_HEIGHT,
            col < BUFFER_WIDTH,
        ensures
            final(self).wf(),
            final(self)@ == (ScreenView {
                cells: old(self)@.cells.update(row * BUFFER_WIDTH + col, cell_value(byte, color.0)),
                ..old(self)@
            }),
    {
        let idx = row * BUFFER_WIDTH + col;
        let v = cell(byte, color);
        self.cells.set(idx, v);
    }

    /// Blanks `row` in the current colour.
    fn clear_row(&mut self, row: usize)
        requires
            old(self).wf(),
            row < BUFFER_HEIGHT,
        ensures
            final(self).wf(),
            final(self)@.row == old(self)@.row,
            final(self)@.col == old(self)@.col,
            final(self)@.attr == old(self)@.attr,
            final(self)@.cells == old(self)@.cells.subrange(0, row * BUFFER_WIDTH)
                + blank_row(old(self)@.attr)
                + old(self)@.cells.subrange((row + 1) * BUFFER_WIDTH, BUFFER_CELLS as int),
    {
        let color = self.color;
        let mut col: usize = 0;
        while col < BUFFER_WIDTH
            invariant
                self.wf(),
                0 <= col <= BUFFER_WIDTH,
                row < BUFFER_HEIGHT,
                self.color == color,
                self@.row == old(self)@.row,
                self@.col == old(self)@.col,
                forall|i: int| 0 <= i < BUFFER_CELLS && !(row * BUFFER_WIDTH <= i < row * BUFFER_WIDTH + col)
                    ==> #[trigger] self@.cells[i] == old(self)@.cells[i],
                forall|i: int| row * BUFFER_WIDTH <= i < row * BUFFER_WIDTH + col
                    ==> #[trigger] self@.cells[i] == cell_value(0x20, color.0),
            decreases BUFFER_WIDTH - col,
        {
            self.write_cell(row, col, 0x20, color);
            col = col + 1;
        }
        assert(self@.cells =~= old(self)@.cells.subrange(0, row * BUFFER_WIDTH)
            + blank_row(old(self)@.attr)
            + old(self)@.cells.subrange((row + 1) * BUFFER_WIDTH, BUFFER_CELLS as int));
    }

    /// Moves to the start of the next row, scrolling up on the last row.
    pub fn newline(&mut self)
        requires
            old(self).wf(),
        ensures
            final(self).wf(),
            final(self)@ == after_newline(old(self)@),
    {
        if self.row < BUFFER_HEIGHT - 1 {
            self.row = self.row + 1;
            self.col = 0;
        } else {
            let mut i: usize = BUFFER_WIDTH;
            while i < BUFFER_CELLS
                invariant
                    self.wf(),
                    BUFFER_WIDTH <= i <= BUFFER_CELLS,
                    self@.row == old(self)@.row,
                    self@.col == old(self)@.col,
                    self@.attr == old(self)@.attr,
                    forall|j: int| 0 <= j < i - BUFFER_WIDTH ==> #[trigger] self@.cells[j] == old(self)@.cells[j + BUFFER_WIDTH],
                    forall|j: int| i - BUFFER_WIDTH <= j < BUFFER_CELLS ==> #[trigger] self@.cells[j] == old(self)@.cells[j],
                decreases BUFFER_CELLS - i,
            {
                let v = self.cells[i];
                self.cells.set(i - BUFFER_WIDTH, v);
                i = i + 1;
            }
            let ghost moved = self@.cells;
            self.clear_row(BUFFER_HEIGHT - 1);
            self.col = 0;
            assert(self@.cells =~= old(self)@.cells.subrange(BUFFER_WIDTH as int, BUFFER_CELLS as int) + blank_row(old(self)@.attr)) by {
                assert(moved.subrange(0, 1920) =~= old(self)@.cells.subrange(80, 2000));
                assert(moved.subrange(2000, 2000) =~= Seq::<u16>::empty());
            }
        }
    }

    /// Writes one byte at the cursor; a line feed breaks the line.
    pub fn write_byte(&mut self, byte: u8)
        requires
            old(self).wf(),
        ensures
            final(self).wf(),
            final(self)@ == after_byte(old(self)@, byte),
    {
        if byte == 10u8 {
            self.newline();
        } else {
            if self.col >= BUFFER_WIDTH {
                self.newline();
            }
            let color = self.color;
            self.write_cell(self.row, self.col, byte, color);
            self.col = self.col + 1;
        }
    }

    /// Writes the bytes of `s` in order.
    pub fn write_str(&mut self, s: &[u8])
        requires
            old(self).wf(),
        ensures
            final(self).wf(),
            final(self)@ == after_bytes(old(self)@, s@),
    {
        let mut i: usize = 0;
        while i < s.len()
            invariant
                self.wf(),
                0 <= i <= s@.len(),
                self@ == after_bytes(old(self)@, s@.take(i as int)),
            decreases s@.len() - i,
        {
            self.write_byte(s[i]);
            i = i + 1;
            assert(s@.take(i as int).drop_last() =~= s@.take(i - 1));
        }
        assert(s@.take(s@.len() as int) =~= s@);
    }

    /// Sets the colour of what is written next.
    pub fn set_color(&mut self, fg: Color, bg: Color)
        requires
            old(self).wf(),
        ensures
            final(self).wf(),
            final(self)@ == (ScreenView { attr: (color_number(bg) * 16 + color_number(fg)) as u8, ..old(self)@ }),
    {
        self.color = ColorCode::new(fg, bg);
    }

    /// Writes the bytes of a formatted line, `s`, and a line break, in the
    /// colours `color` if given; the colour before the call is restored
    /// afterwards.
    pub fn writeln_fmt(&mut self, s: &[u8], color: Option<(Color, Color)>)
        requires
            old(self).wf(),
        ensures
            final(self).wf(),
            final(self)@ == (ScreenView {
                attr: old(self)@.attr,
                ..after_newline(
                    after_bytes(
                        match color {
                            Some((fg, bg)) => ScreenView { attr: (color_number(bg) * 16 + color_number(fg)) as u8, ..old(self)@ },
                            None => old(self)@,
                        },
                        s@,
                    ),
                )
            }),
    {
        let saved = self.color;
        if let Some((fg, bg)) = color {
            self.set_color(fg, bg);
        }
        self.write_str(s);
        self.write_byte(10u8);
        self.color = saved;
    }
}

} // verus!
