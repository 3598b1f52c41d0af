//! The windowed terminal: a window on a framebuffer that a pointer can drag
//! by its title bar, and the text area inside it.

use vstd::prelude::*;
use crate::bounded::LINE_CAPACITY;

verus! {

/// Screen sides beyond this many pixels are taken as this many.
pub const MAX_SIDE: usize = 65536;

/// How far the window moves per unit of pointer movement while dragged.
pub const DRAG_FACTOR: i64 = 50;

/// Microseconds to wait before polling again when no key is pending; the
/// windowed terminal polls faster so the pointer stays smooth.
pub const IDLE_BACKOFF_US: usize = 500;

/// Microseconds to wait before polling again after the input device failed.
pub const ERROR_BACKOFF_US: usize = 1000;

/// Desktop background.
pub const DESK_COLOR: u32 = 0x301934;

/// Window body.
pub const BODY_COLOR: u32 = 0x1e1420;

/// Title bar.
pub const TITLE_COLOR: u32 = 0x281e2a;

/// The window's side borders.
pub const BORDER_COLOR: u32 = 0x322834;

/// The pointer.
pub const POINTER_COLOR: u32 = 0xffffff;

pub open spec fn min_int(a: int, b: int) -> int {
    if a < b { a } else { b }
}

pub open spec fn max_int(a: int, b: int) -> int {
    if a > b { a } else { b }
}

/// `p` moved by `d` and kept within `0..=hi`.
pub open spec fn clamp_move(p: int, d: int, hi: int) -> int {
    min_int(max_int(p + d, 0), hi)
}

/// A window edge at `pos` of a window `size` long, dragged by `d`: kept at
/// or after 0, and pulled back so the window ends on the `screen` (at 0 if
/// it cannot).
pub open spec fn dragged(pos: int, d: int, size: int, screen: int) -> int {
    let n = max_int(pos + d * DRAG_FACTOR, 0);
    if n + size > screen {
        max_int(screen - size, 0)
    } else {
        n
    }
}

/// Where the pointer is and whether the window must be drawn again.
#[derive(Clone, Copy, Debug, PartialEq, Eq, Structural)]
pub struct PointerMove {
    pub x: usize,
    pub y: usize,
    pub redraw: bool,
}

/// The screen, the window on it, and the pointer.
#[derive(Clone, Copy, Debug, PartialEq, Eq, Structural)]
pub struct Desktop {
    pub screen_w: usize,
    pub screen_h: usize,
    pub cell_w: usize,
    pub cell_h: usize,
    pub win_x: usize,
    pub win_y: usize,
    pub win_w: usize,
    pub win_h: usize,
    pub mouse_x: usize,
    pub mouse_y: usize,
    pub dragging: bool,
    pub prev_left: bool,
}

impl Desktop {
    pub open spec fn wf(&self) -> bool {
        &&& self.screen_w <= MAX_SIDE
        &&& self.screen_h <= MAX_SIDE
        &&& 1 <= self.cell_w <= MAX_SIDE
        &&& 1 <= self.cell_h <= MAX_SIDE
        &&& 20 <= self.win_w <= 20 * MAX_SIDE
        &&& 10 <= self.win_h <= 20 * MAX_SIDE
        &&& self.cell_h * 10 <= self.win_h
        &&& self.win_x <= MAX_SIDE
        &&& self.win_y <= MAX_SIDE
        &&& self.mouse_x <= MAX_SIDE
        &&& self.mouse_y <= MAX_SIDE
    }

    /// Lays out a desktop on a screen of the given size, or, when the size
    /// is unknown, on an empty screen with 8 by 16 pixel cells. The window
    /// takes three fifths of each side (at least 20 by 10 cells) and starts
    /// a sixth in; the pointer starts in the middle.
    pub fn new(screen: Option<(usize, usize)>) -> (r: Desktop)
        ensures
            r.wf(),
            ({
                let (sw, sh) = match screen {
                    Some((w, h)) => (min_int(w as int, MAX_SIDE as int), min_int(h as int, MAX_SIDE as int)),
                    None => (0, 0),
                };
                let cw = if screen is Some { max_int(sw / 80, 1) } else { 8 };
                let ch = if screen is Some { max_int(sh / 25, 1) } else { 16 };
                &&& r.screen_w == sw && r.screen_h == sh
                &&& r.cell_w == cw && r.cell_h == ch
                &&& r.win_w == max_int(sw * 3 / 5, cw * 20)
                &&& r.win_h == max_int(sh * 3 / 5, ch * 10)
                &&& r.win_x == sw / 6 && r.win_y == sh / 6
                &&& r.mouse_x == sw / 2 && r.mouse_y == sh / 2
                &&& !r.dragging && !r.prev_left
            }),
    {
        let (sw, sh, cw, ch) = match screen {
            Some((w, h)) => {
                let sw = if w < MAX_SIDE { w } else { MAX_SIDE };
                let sh = if h < MAX_SIDE { h } else { MAX_SIDE };
                let cw = if sw / 80 > 1 { sw / 80 } else { 1 };
                let ch = if sh / 25 > 1 { sh / 25 } else { 1 };
                (sw, sh, cw, ch)
            },
            None => (0, 0, 8, 16),
        };
        let ww = if sw * 3 / 5 > cw * 20 { sw * 3 / 5 } else { cw * 20 };
        let wh = if sh * 3 / 5 > ch * 10 { sh * 3 / 5 } else { ch * 10 };
        Desktop {
            screen_w: sw,
            screen_h: sh,
            cell_w: cw,
            cell_h: ch,
            win_x: sw / 6,
            win_y: sh / 6,
            win_w: ww,
            win_h: wh,
            mouse_x: sw / 2,
            mouse_y: sh / 2,
            dragging: false,
            prev_left: false,
        }
    }

    /// Height of the title bar: one cell.
    pub open spec fn title_h(&self) -> int {
        self.cell_h as int
    }

    /// The point (`x`, `y`) lies on the title bar.
    pub open spec fn on_title(&self, x: int, y: int) -> bool {
        self.win_y <= y < self.win_y + self.title_h() && self.win_x <= x < self.win_x + self.win_w
    }

    /// Applies a pointer report: relative movement (`dx`, `dy`) and the left
    /// button. The pointer stays on the screen; pressing the button on the
    /// title bar starts a drag and releasing it ends one; while dragging the
    /// window follows the movement, scaled, and stays on the screen.
    pub fn pointer(&mut self, dx: i32, dy: i32, left: bool) -> (r: PointerMove)
        requires
            old(self).wf(),
        ensures
            final(self).wf(),
            ({
                let o = *old(self);
                let px = clamp_move(o.mouse_x as int, dx as int, max_int(o.screen_w - 1, 0));
                let py = clamp_move(o.mouse_y as int, dy as int, max_int(o.screen_h - 1, 0));
                let drag = if left && !o.prev_left && o.on_title(px, py) {
                    true
                } else if o.prev_left && !left {
                    false
                } else {
                    o.dragging
                };
                let nx = if drag { dragged(o.win_x as int, dx as int, o.win_w as int, o.screen_w as int) } else { o.win_x as int };
                let ny = if drag { dragged(o.win_y as int, dy as int, o.win_h as int, o.screen_h as int) } else { o.win_y as int };
                &&& r.x == px && r.y == py
                &&& final(self).mouse_x == px && final(self).mouse_y == py
                &&& final(self).dragging == drag
                &&& final(self).prev_left == left
                &&& final(self).win_x == nx && final(self).win_y == ny
                &&& r.redraw == (nx != o.win_x || ny != o.win_y)
                &&& final(self).screen_w == o.screen_w && final(self).screen_h == o.screen_h
                &&& final(self).cell_w == o.cell_w && final(self).cell_h == o.cell_h
                &&& final(self).win_w == o.win_w && final(self).win_h == o.win_h
            }),
    {
        let hx: i64 = if self.screen_w > 0 { (self.screen_w - 1) as i64 } else { 0 };
        let hy: i64 = if self.screen_h > 0 { (self.screen_h - 1) as i64 } else { 0 };
        let mx = clamp_step(self.mouse_x as i64, dx as i64, hx);
        let my = clamp_step(self.mouse_y as i64, dy as i64, hy);
        let px = mx as usize;
        let py = my as usize;
        let on_title = py >= self.win_y && py < self.win_y + self.cell_h && px >= self.win_x && px
            < self.win_x + self.win_w;
        if left && !self.prev_left && on_title {
            self.dragging = true;
        } else if self.prev_left && !left {
            self.dragging = false;
        }
        let mut redraw = false;
        if self.dragging {
            let nx = drag_step(self.win_x, dx, self.win_w, self.screen_w);
            let ny = drag_step(self.win_y, dy, self.win_h, self.screen_h);
            if nx != self.win_x || ny != self.win_y {
                self.win_x = nx;
                self.win_y = ny;
                redraw = true;
            }
        }
        self.mouse_x = px;
        self.mouse_y = py;
        self.prev_left = left;
        PointerMove { x: px, y: py, redraw }
    }

    /// What lies under the point (`x`, `y`) when the pointer leaves it: the
    /// title bar, the window body, the window's border, or the desktop.
    pub fn background_at(&self, x: usize, y: usize) -> (r: u32)
        requires
            self.wf(),
        ensures
            r == if self.win_x <= x < self.win_x + self.win_w && self.win_y <= y < self.win_y + self.win_h {
                if y < self.win_y + self.title_h() {
                    TITLE_COLOR
                } else if self.win_x + 2 <= x < self.win_x + self.win_w - 2 && y >= self.win_y + self.title_h() {
                    BODY_COLOR
                } else {
                    BORDER_COLOR
                }
            } else {
                DESK_COLOR
            },
    {
        if x >= self.win_x && x < self.win_x + self.win_w && y >= self.win_y && y < self.win_y + self.win_h {
            if y < self.win_y + self.cell_h {
                TITLE_COLOR
            } else if x >= self.win_x + 2 && x < self.win_x + self.win_w - 2 && y >= self.win_y + self.cell_h {
                BODY_COLOR
            } else {
                BORDER_COLOR
            }
        } else {
            DESK_COLOR
        }
    }

    /// The console cell (column, row) where the text area starts.
    pub fn text_origin(&self) -> (r: (usize, usize))
        requires
            self.wf(),
        ensures
            r.0 == self.win_x / self.cell_w + 1,
            r.1 == self.win_y / self.cell_h + 2,
    {
        (self.win_x / self.cell_w + 1, self.win_y / self.cell_h + 2)
    }

    /// How many cells wide the text area is.
    pub fn text_columns(&self) -> (r: usize)
        requires
            self.wf(),
        ensures
            r == (self.win_w - 4) / self.cell_w as int,
    {
        (self.win_w - 4) / self.cell_w
    }

    /// How many rows the text area has.
    pub fn text_rows(&self) -> (r: usize)
        requires
            self.wf(),
        ensures
            r == (self.win_h - self.cell_h - 4) / self.cell_h as int,
    {
        (self.win_h - self.cell_h - 4) / self.cell_h
    }

    /// The text row after a line break from `row`: the next one, or the
    /// last one when the area is full.
    pub fn next_text_row(&self, row: usize) -> (r: usize)
        requires
            self.wf(),
            row < usize::MAX,
        ensures
            r == if row + 1 >= (self.win_h - self.cell_h - 4) / self.cell_h as int {
                max_int((self.win_h - self.cell_h - 4) / self.cell_h as int - 1, 0)
            } else {
                row + 1
            },
    {
        let rows = self.text_rows();
        let next = row + 1;
        if next >= rows {
            if rows > 0 { rows - 1 } else { 0 }
        } else {
            next
        }
    }

    /// Whether a line of `len` characters takes one more: it must leave the
    /// last column free and stay within the line capacity.
    pub fn accepts_char(&self, len: usize) -> (r: bool)
        requires
            self.wf(),
        ensures
            r == (len + 1 < (self.win_w - 4) / self.cell_w as int && len < LINE_CAPACITY),
    {
        let cols = self.text_columns();
        len < LINE_CAPACITY && len + 1 < cols
    }

    /// Blanks to write after a line of `len` characters so the row is clean.
    pub fn padding_after(&self, len: usize) -> (r: usize)
        requires
            self.wf(),
        ensures
            r == max_int((self.win_w - 4) / self.cell_w as int - len, 0),
    {
        let cols = self.text_columns();
        if cols > len { cols - len } else { 0 }
    }
}

/// `p + d` kept within `0..=hi`.
fn clamp_step(p: i64, d: i64, hi: i64) -> (r: i64)
    requires
        0 <= p <= MAX_SIDE,
        i32::MIN <= d <= i32::MAX,
        0 <= hi <= MAX_SIDE,
    ensures
        r == clamp_move(p as int, d as int, hi as int),
        0 <= r <= hi,
{
    let n = p + d;
    let n = if n < 0 { 0 } else { n };
    if n > hi { hi } else { n }
}

/// One edge of the window after a drag by `d`.
fn drag_step(pos: usize, d: i32, size: usize, screen: usize) -> (r: usize)
    requires
        pos <= MAX_SIDE,
        size <= 20 * MAX_SIDE,
        screen <= MAX_SIDE,
    ensures
        r == dragged(pos as int, d as int, size as int, screen as int),
        r <= MAX_SIDE,
{
    let n: i64 = pos as i64 + d as i64 * DRAG_FACTOR;
    let n: i64 = if n < 0 { 0 } else { n };
    if n + size as i64 > screen as i64 {
        if screen >= size { screen - size } else { 0 }
    } else {
        n as usize
    }
}

} // verus!
