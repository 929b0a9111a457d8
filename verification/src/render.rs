//! The frame renderer: composes coordinate mapping, escape-time evaluation
//! and palette lookup over every pixel of the grid, producing a row-major
//! buffer in which every slot is written exactly once.
//!
//! Rows are independent, so a caller may also render them separately (in any
//! order, or in parallel) through `render_row` and assemble the same frame.

use vstd::prelude::*;
use vstd::arithmetic::div_mod::lemma_fundamental_div_mod_converse;
use vstd::arithmetic::mul::lemma_mul_is_distributive_add_other_way;
use crate::viewport::{Viewport, spec_pixel_re, spec_pixel_im, pixel_coord};
use crate::mandel::{mandelbrot, spec_mandel_count};
use crate::palette::{Rgb, colorize, spec_colorize, is_palette_color, lemma_colorize_in_palette};

verus! {

/// The color a finished frame holds at pixel `(x, y)`: the palette color of
/// the escape-time count of that pixel's complex coordinate.
pub open spec fn spec_pixel_color(vp: Viewport, max_iter: u32, x: int, y: int) -> Rgb {
    spec_colorize(
        spec_mandel_count(spec_pixel_re(vp, x), spec_pixel_im(vp, y), max_iter as nat) as int,
    )
}

/// Renders one row of the frame: `width` entries, each the specified color
/// of its pixel.
pub fn render_row(vp: &Viewport, y: u32, max_iter: u32) -> (row: Vec<Rgb>)
    requires
        vp.wf(),
        y < vp.height,
    ensures
        row.len() == vp.width,
        forall|x: int| 0 <= x < vp.width
            ==> row@[x] == spec_pixel_color(*vp, max_iter, x, y as int),
{
    let mut row: Vec<Rgb> = Vec::new();
    let mut x: u32 = 0;
    while x < vp.width
        invariant
            vp.wf(),
            y < vp.height,
            x <= vp.width,
            row.len() == x,
            forall|j: int| 0 <= j < x ==> row@[j] == spec_pixel_color(*vp, max_iter, j, y as int),
        decreases vp.width - x,
    {
        let c = pixel_coord(vp, x, y);
        let n = mandelbrot(c, max_iter);
        let col = colorize(n);
        row.push(col);
        x = x + 1;
    }
    row
}

/// Renders a whole frame into a fresh row-major buffer: exactly
/// `width * height` entries, the entry at index `i` being the specified
/// color of pixel `(i % width, i / width)`.
pub fn generate_frame(vp: &Viewport, max_iter: u32) -> (buf: Vec<Rgb>)
    requires
        vp.wf(),
        vp.width as int * vp.height as int <= usize::MAX as int,
    ensures
        buf.len() == vp.width as int * vp.height as int,
        forall|i: int| 0 <= i < buf.len()
            ==> buf@[i] == spec_pixel_color(
                *vp, max_iter, i % (vp.width as int), i / (vp.width as int)),
{
    let ghost w = vp.width as int;
    let mut buf: Vec<Rgb> = Vec::new();
    let mut y: u32 = 0;
    while y < vp.height
        invariant
            vp.wf(),
            w == vp.width as int,
            w * vp.height as int <= usize::MAX as int,
            y <= vp.height,
            buf.len() == y as int * w,
            forall|i: int| 0 <= i < buf.len()
                ==> buf@[i] == spec_pixel_color(*vp, max_iter, i % w, i / w),
        decreases vp.height - y,
    {
        proof {
            assert(y as int * w <= vp.height as int * w && (y + 1) * w <= vp.height as int * w)
                by (nonlinear_arith)
                requires y < vp.height && 0 <= w;
            assert(vp.height as int * w == w * vp.height as int) by (nonlinear_arith);
            lemma_mul_is_distributive_add_other_way(w, y as int, 1);
        }
        let row = render_row(vp, y, max_iter);
        let mut x: usize = 0;
        while x < row.len()
            invariant
                vp.wf(),
                w == vp.width as int,
                y < vp.height,
                row.len() == vp.width,
                forall|j: int| 0 <= j < vp.width
                    ==> row@[j] == spec_pixel_color(*vp, max_iter, j, y as int),
                x <= row.len(),
                buf.len() == y as int * w + x,
                y as int * w + vp.width as int <= usize::MAX as int,
                forall|i: int| 0 <= i < buf.len()
                    ==> buf@[i] == spec_pixel_color(*vp, max_iter, i % w, i / w),
            decreases row.len() - x,
        {
            proof {
                lemma_fundamental_div_mod_converse(
                    y as int * w + x as int, w, y as int, x as int);
            }
            buf.push(row[x]);
            x = x + 1;
        }
        proof {
            lemma_mul_is_distributive_add_other_way(w, y as int, 1);
        }
        y = y + 1;
    }
    proof {
        assert(vp.height as int * w == w * vp.height as int) by (nonlinear_arith);
    }
    buf
}

/// Every entry of a buffer that satisfies the frame renderer's contract is
/// one of the 16 palette colors.
pub proof fn lemma_frame_entries_in_palette(vp: Viewport, max_iter: u32, buf: Seq<Rgb>)
    requires
        forall|i: int| 0 <= i < buf.len()
            ==> buf[i] == spec_pixel_color(
                vp, max_iter, i % (vp.width as int), i / (vp.width as int)),
    ensures
        forall|i: int| 0 <= i < buf.len() ==> #[trigger] is_palette_color(buf[i]),
{
    assert forall|i: int| 0 <= i < buf.len() implies #[trigger] is_palette_color(buf[i]) by {
        lemma_colorize_in_palette(
            spec_mandel_count(
                spec_pixel_re(vp, i % (vp.width as int)),
                spec_pixel_im(vp, i / (vp.width as int)),
                max_iter as nat,
            ) as int,
        );
    }
}

} // verus!
