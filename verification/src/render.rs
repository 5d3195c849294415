//! The frame renderer.
//!
//! Every pixel of the frame is mapped to its plane point, evaluated, and
//! shaded through the palette into an opaque grayscale RGBA sample.
//! Rows are mutually independent, so they are computed in parallel, one
//! task per row, and assembled in row-major order; the result is pinned
//! byte for byte by `frame_spec`, a function of the viewport snapshot
//! and palette alone, so the frame does not depend on worker count or
//! scheduling.

use rayon::iter::IntoParallelIterator;
use rayon::iter::ParallelIterator;
use vstd::arithmetic::div_mod::lemma_fundamental_div_mod_converse;
use vstd::prelude::*;

use crate::evaluate::{escape_count, evaluate};
use crate::mandelbrot_settings::{clamp_to_i64, plane_coord, MandelbrotSettings};
use crate::palette::{palette_wf, Palette};

verus! {

/// The luminance of pixel `(px, py)`: the palette entry of the escape
/// count of the pixel's plane point.
pub open spec fn lum_at(s: MandelbrotSettings, pal: Seq<u8>, px: int, py: int) -> u8
    recommends
        palette_wf(pal, s.max_iterations as nat),
{
    pal[escape_count(
        clamp_to_i64(plane_coord(px, s.width as int, s.zoom_spec(), s.offset_x as int)),
        clamp_to_i64(plane_coord(py, s.height as int, s.zoom_spec(), s.offset_y as int)),
        s.max_iterations as nat,
    ) as int]
}

/// Row `py` of the frame: `width` samples `(lum, lum, lum, 255)`.
pub open spec fn row_spec(s: MandelbrotSettings, pal: Seq<u8>, py: int) -> Seq<u8> {
    Seq::new(
        (s.width * 4) as nat,
        |i: int|
            if i % 4 == 3 {
                255u8
            } else {
                lum_at(s, pal, i / 4, py)
            },
    )
}

/// The first `rows` rows of the frame, concatenated in row-major order.
pub open spec fn frame_rows(s: MandelbrotSettings, pal: Seq<u8>, rows: nat) -> Seq<u8>
    decreases rows,
{
    if rows == 0 {
        Seq::empty()
    } else {
        frame_rows(s, pal, (rows - 1) as nat) + row_spec(s, pal, rows - 1)
    }
}

/// The whole frame: `height` rows of `width` RGBA samples.
pub open spec fn frame_spec(s: MandelbrotSettings, pal: Seq<u8>) -> Seq<u8> {
    frame_rows(s, pal, s.height as nat)
}

/// The frame holds exactly `width * height * 4` bytes.
pub proof fn lemma_frame_rows_len(s: MandelbrotSettings, pal: Seq<u8>, rows: nat)
    ensures
        frame_rows(s, pal, rows).len() == rows * (s.width * 4),
    decreases rows,
{
    if rows == 0 {
    } else {
        lemma_frame_rows_len(s, pal, (rows - 1) as nat);
        assert((rows - 1) * (s.width * 4) + (s.width * 4) == rows * (s.width * 4))
            by (nonlinear_arith);
    }
}

/// Renders one row of the frame, pixel by pixel.
pub fn render_row(s: &MandelbrotSettings, palette: &Palette, py: u32) -> (row: Vec<u8>)
    requires
        s.wf(),
        palette.wf(s.max_iterations as nat),
        py < s.height,
    ensures
        row@ == row_spec(*s, palette.levels@, py as int),
{
    let mut row: Vec<u8> = Vec::new();
    let mut px: u32 = 0;
    while px < s.width
        invariant
            px <= s.width,
            s.wf(),
            palette.wf(s.max_iterations as nat),
            py < s.height,
            row@.len() == 4 * px,
            forall|i: int|
                0 <= i < 4 * px ==> row@[i] == row_spec(*s, palette.levels@, py as int)[i],
        decreases s.width - px,
    {
        let (x, y) = s.pixel_to_plane(px as i32, py as i32);
        let count = evaluate(x, y, s.max_iterations);
        let lum = *palette.levels.get(count as usize).unwrap_or(&0);
        proof {
            assert(count < palette.levels@.len());
        }
        row.push(lum);
        row.push(lum);
        row.push(lum);
        row.push(255);
        proof {
            let base = 4 * (px as int);
            lemma_fundamental_div_mod_converse(base + 0, 4, px as int, 0);
            lemma_fundamental_div_mod_converse(base + 1, 4, px as int, 1);
            lemma_fundamental_div_mod_converse(base + 2, 4, px as int, 2);
            lemma_fundamental_div_mod_converse(base + 3, 4, px as int, 3);
            assert(lum == lum_at(*s, palette.levels@, px as int, py as int));
        }
        px = px + 1;
    }
    proof {
        assert(row@ =~= row_spec(*s, palette.levels@, py as int));
    }
    row
}

/// Fans the rows out to rayon's worker pool and joins them in row-major
/// order.
///
/// Relies on rayon: `collect` into a `Vec` from a range's parallel
/// iterator (with `map`) yields the elements in the range's own order,
/// the same vector a sequential collect would build — rayon's `collect`
/// documentation states this of exactly this pipeline — whatever the
/// worker count or schedule.  So the collected vector holds
/// `render_row(s, palette, py)` at index `py` for every `py`, each row
/// pinned by the verified `render_row`'s postcondition, and `concat`
/// joins the rows in index order.
#[verifier::external_body]
fn render_rows_parallel(s: &MandelbrotSettings, palette: &Palette) -> (buf: Vec<u8>)
    requires
        s.wf(),
        palette.wf(s.max_iterations as nat),
    ensures
        buf@ == frame_spec(*s, palette.levels@),
{
    let rows: Vec<Vec<u8>> = (0..s.height).into_par_iter().map(
        |py| render_row(s, palette, py),
    ).collect();
    rows.concat()
}

/// Renders the frame the viewport snapshot describes: for every pixel in
/// row-major order, the plane point is evaluated and shaded to an opaque
/// grayscale sample, exactly as `frame_spec` states.  The rows are
/// computed in parallel; the result is a function of the snapshot and
/// palette alone.
pub fn render(settings: &MandelbrotSettings, palette: &Palette) -> (buf: Vec<u8>)
    requires
        settings.wf(),
        palette.wf(settings.max_iterations as nat),
    ensures
        buf@ == frame_spec(*settings, palette.levels@),
        buf@.len() == settings.height * (settings.width * 4),
{
    let buf = render_rows_parallel(settings, palette);
    proof {
        lemma_frame_rows_len(*settings, palette.levels@, settings.height as nat);
    }
    buf
}

/// Rendering is deterministic: any two frames of the same viewport
/// snapshot and palette are byte-identical, whatever the worker count.
pub proof fn lemma_render_deterministic(
    a: Seq<u8>,
    b: Seq<u8>,
    s: MandelbrotSettings,
    pal: Seq<u8>,
)
    requires
        a == frame_spec(s, pal),
        b == frame_spec(s, pal),
    ensures
        a == b,
{
}

/// A pixel whose escape count reaches the cap — the set's interior —
/// renders brightest: its luminance is the palette's top entry, 255.
/// An immediate escape, count 0, renders black.
pub proof fn lemma_count_extremes_shading(s: MandelbrotSettings, pal: Seq<u8>, px: int, py: int)
    requires
        palette_wf(pal, s.max_iterations as nat),
    ensures
        escape_count(
            clamp_to_i64(plane_coord(px, s.width as int, s.zoom_spec(), s.offset_x as int)),
            clamp_to_i64(plane_coord(py, s.height as int, s.zoom_spec(), s.offset_y as int)),
            s.max_iterations as nat,
        ) == s.max_iterations ==> lum_at(s, pal, px, py) == 255,
        escape_count(
            clamp_to_i64(plane_coord(px, s.width as int, s.zoom_spec(), s.offset_x as int)),
            clamp_to_i64(plane_coord(py, s.height as int, s.zoom_spec(), s.offset_y as int)),
            s.max_iterations as nat,
        ) == 0 ==> lum_at(s, pal, px, py) == 0,
{
}

/// Byte `k` of pixel `(px, py)` sits at offset `(py * width + px) * 4 + k`
/// of the frame and is 255 for the alpha channel, the pixel's luminance
/// otherwise.
pub proof fn lemma_frame_byte(s: MandelbrotSettings, pal: Seq<u8>, px: int, py: int, k: int)
    requires
        0 <= px < s.width,
        0 <= py < s.height,
        0 <= k < 4,
    ensures
        frame_spec(s, pal)[(py * (s.width as int) + px) * 4 + k] == if k == 3 {
            255u8
        } else {
            lum_at(s, pal, px, py)
        },
{
    lemma_frame_rows_byte(s, pal, s.height as nat, px, py, k);
}

proof fn lemma_frame_rows_byte(
    s: MandelbrotSettings,
    pal: Seq<u8>,
    rows: nat,
    px: int,
    py: int,
    k: int,
)
    requires
        0 <= px < s.width,
        0 <= py < rows,
        0 <= k < 4,
    ensures
        frame_rows(s, pal, rows)[(py * (s.width as int) + px) * 4 + k] == row_spec(s, pal, py)[4
            * px + k],
    decreases rows,
{
    let w = s.width as int;
    lemma_frame_rows_len(s, pal, (rows - 1) as nat);
    assert(0 <= (py * w + px) * 4 + k) by (nonlinear_arith)
        requires
            0 <= px,
            0 <= py,
            0 <= k,
            0 <= w,
    ;
    if py == rows - 1 {
        assert((py * w + px) * 4 + k - py * (w * 4) == 4 * px + k) by (nonlinear_arith);
        assert(0 <= 4 * px + k < w * 4) by (nonlinear_arith)
            requires
                0 <= px < w,
                0 <= k < 4,
        ;
    } else {
        lemma_frame_rows_byte(s, pal, (rows - 1) as nat, px, py, k);
        assert((py * w + px) * 4 + k < (rows - 1) * (w * 4)) by (nonlinear_arith)
            requires
                0 <= px < w,
                0 <= k < 4,
                0 <= py < rows - 1,
        ;
    }
}

} // verus!
