//! Geometry of framebuffer drawing: clipping rectangles to the screen and
//! locating pixels in the buffer.

use vstd::prelude::*;

verus! {

/// A rectangle of pixels: its top-left corner and its size.
#[derive(Clone, Copy, Debug, PartialEq, Eq, Structural)]
pub struct Rect {
    pub x: usize,
    pub y: usize,
    pub w: usize,
    pub h: usize,
}

/// The part of the rectangle at (`x`, `y`) of size `w` by `h` that lies on a
/// screen of `sw` by `sh` pixels. A rectangle that starts off the screen or
/// is empty draws nothing.
pub fn clip_rect(x: usize, y: usize, w: usize, h: usize, sw: usize, sh: usize) -> (r: Option<Rect>)
    ensures
        x >= sw || y >= sh || w == 0 || h == 0 ==> r is None,
        !(x >= sw || y >= sh || w == 0 || h == 0) ==> r == Some(Rect {
            x,
            y,
            w: if w < sw - x { w } else { (sw - x) as usize },
            h: if h < sh - y { h } else { (sh - y) as usize },
        }),
{
    if x >= sw || y >= sh || w == 0 || h == 0 {
        return None;
    }
    let max_w = sw - x;
    let max_h = sh - y;
    let cw = if w < max_w { w } else { max_w };
    let ch = if h < max_h { h } else { max_h };
    Some(Rect { x, y, w: cw, h: ch })
}

/// The byte offset of pixel (`x`, `y`) in a buffer of 4-byte pixels with
/// `stride` pixels per row; `None` off a `width` by `height` screen, or when
/// the offset does not fit in `usize`.
pub fn pixel_offset(x: usize, y: usize, width: usize, height: usize, stride: usize) -> (r: Option<usize>)
    ensures
        x >= width || y >= height ==> r is None,
        x < width && y < height && (y * stride + x) * 4 <= usize::MAX ==> r == Some(((y * stride + x) * 4) as usize),
        x < width && y < height && (y * stride + x) * 4 > usize::MAX ==> r is None,
{
    if x >= width || y >= height {
        return None;
    }
    match y.checked_mul(stride) {
        None => {
            assert(y * stride > usize::MAX);
            assert((y * stride + x) * 4 > usize::MAX) by (nonlinear_arith)
                requires
                    y * stride > usize::MAX,
                    x >= 0,
            ;
            None
        },
        Some(row) => match row.checked_add(x) {
            None => None,
            Some(p) => p.checked_mul(4),
        },
    }
}

} // verus!
