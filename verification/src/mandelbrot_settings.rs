//! The viewport: frame dimensions, zoom, pan offset and iteration cap,
//! with the pixel-to-plane coordinate mapping and the double-click
//! interaction that recenters and rescales it.
//!
//! The zoom factor is held as an integer power of the zoom step
//! `zoom_exp` (a Q32.32 value above 1.0): `zoom = zoom_exp ^ zoom_level`.
//! A double-click moves the level one step, so zooming out and back in
//! restores the zoom factor exactly.

use vstd::arithmetic::div_mod::{
    lemma_div_is_ordered, lemma_div_is_ordered_by_denominator, lemma_div_multiples_vanish,
};
use vstd::prelude::*;

use crate::fixed::{sdiv, FP_ONE};

verus! {

/// Largest zoom factor held in Q32.32: about 2^30 in real terms.
pub const ZOOM_CAP: i64 = 0x4000_0000_0000_0000;

/// Largest magnitude of the zoom level; beyond it a double-click
/// saturates instead of stepping further.
pub const LEVEL_MAX: i64 = 0x10_0000;

/// A mouse button the gesture detector tracks; the left button zooms in,
/// the right button zooms out.
#[derive(Clone, Copy, Debug, PartialEq, Eq, Structural)]
pub enum MouseButton {
    Left,
    Right,
}

/// Settings specifying how to render a region of the Mandelbrot set:
/// the viewport of one frame.
#[derive(Clone, Copy, Debug, PartialEq, Eq, Structural)]
pub struct MandelbrotSettings {
    /// Frame width in pixels.
    pub width: u32,
    /// Frame height in pixels.
    pub height: u32,
    /// Escape-iteration cap.
    pub max_iterations: u32,
    /// Multiplicative zoom step per double-click, Q32.32, above 1.0.
    pub zoom_exp: i64,
    /// Net number of zoom-in steps; the zoom factor is `zoom_exp ^ zoom_level`.
    pub zoom_level: i64,
    /// Plane coordinate at the frame center, Q32.32.
    pub offset_x: i64,
    /// Plane coordinate at the frame center, Q32.32.
    pub offset_y: i64,
}

/// `zoom_exp ^ k` for `k >= 0`, one Q32.32 product per step, saturated at
/// `ZOOM_CAP`.
pub open spec fn zoom_pos(e: int, k: nat) -> int
    decreases k,
{
    if k == 0 {
        FP_ONE as int
    } else {
        let p = (zoom_pos(e, (k - 1) as nat) * e) / (FP_ONE as int);
        if p > ZOOM_CAP as int {
            ZOOM_CAP as int
        } else {
            p
        }
    }
}

/// The zoom factor in Q32.32: `zoom_exp ^ zoom_level`, computed through
/// `zoom_pos` and, for negative levels, one division of `1.0 * 1.0`.
pub open spec fn zoom_fp(e: int, level: int) -> int {
    if level >= 0 {
        zoom_pos(e, level as nat)
    } else {
        ((FP_ONE as int) * (FP_ONE as int)) / zoom_pos(e, (-level) as nat)
    }
}

/// The Q32.32 width of one pixel in the plane: `4 / zoom / dim`, floored.
pub open spec fn scale_fp(zoom: int, dim: int) -> int
    recommends
        zoom >= 1,
        dim >= 1,
{
    (4 * (FP_ONE as int) * (FP_ONE as int)) / (zoom * dim)
}

/// The exact (unclamped) plane coordinate of pixel index `pix` along an
/// axis of `dim` pixels: `(pix - dim/2) * scale + offset`.
pub open spec fn plane_coord(pix: int, dim: int, zoom: int, off: int) -> int {
    (pix - dim / 2) * scale_fp(zoom, dim) + off
}

/// Saturation of an exact plane coordinate into the `i64` carrier.
pub open spec fn clamp_to_i64(v: int) -> int {
    if v < i64::MIN {
        i64::MIN as int
    } else if v > i64::MAX {
        i64::MAX as int
    } else {
        v
    }
}

/// The pixel index whose plane coordinate is nearest below `x`: the
/// inverse of `plane_coord` where the scale is positive, clamped into
/// `i64`.
pub open spec fn pixel_coord(x: int, dim: int, zoom: int, off: int) -> int {
    let s = scale_fp(zoom, dim);
    if s >= 1 {
        clamp_to_i64(sdiv(x - off, s) + dim / 2)
    } else {
        dim / 2
    }
}

impl MandelbrotSettings {
    /// The machine limits within which every operation below is exact:
    /// positive dimensions of a screen-sized frame, a positive iteration
    /// cap, a zoom step above 1.0 and a zoom level within `LEVEL_MAX`.
    pub open spec fn wf(self) -> bool {
        &&& 1 <= self.width <= 16384
        &&& 1 <= self.height <= 16384
        &&& 1 <= self.max_iterations <= 0x100_0000
        &&& (FP_ONE as int) < self.zoom_exp
        &&& -(LEVEL_MAX as int) <= self.zoom_level <= LEVEL_MAX as int
    }

    /// The zoom factor this viewport currently shows.
    pub open spec fn zoom_spec(self) -> int {
        zoom_fp(self.zoom_exp as int, self.zoom_level as int)
    }

    /// Computes the zoom factor `zoom_exp ^ zoom_level` in Q32.32.
    pub fn zoom_value(&self) -> (z: i64)
        requires
            self.wf(),
        ensures
            z == self.zoom_spec(),
            1 <= z <= ZOOM_CAP,
    {
        let k: u64 = if self.zoom_level >= 0 {
            self.zoom_level as u64
        } else {
            (-self.zoom_level) as u64
        };
        let e = self.zoom_exp;
        let mut acc: i64 = FP_ONE;
        let mut j: u64 = 0;
        while j < k
            invariant
                j <= k,
                (FP_ONE as int) < e,
                acc == zoom_pos(e as int, j as nat),
                FP_ONE as int <= acc <= ZOOM_CAP as int,
            decreases k - j,
        {
            proof {
                assert((acc as int) * (e as int) >= (acc as int) * (FP_ONE as int) >= (FP_ONE as int)
                    * (FP_ONE as int)) by (nonlinear_arith)
                    requires
                        FP_ONE as int <= acc,
                        (FP_ONE as int) < e,
                        FP_ONE >= 1,
                ;
                lemma_div_is_ordered(
                    (FP_ONE as int) * (FP_ONE as int),
                    (acc as int) * (e as int),
                    FP_ONE as int,
                );
                lemma_div_multiples_vanish(FP_ONE as int, FP_ONE as int);
                crate::fixed::lemma_i64_mul_fits(acc as int, e as int);
            }
            let p: i128 = (acc as i128) * (e as i128);
            let q: i128 = ((p as u128) / (FP_ONE as u128)) as i128;
            acc = if q > ZOOM_CAP as i128 {
                ZOOM_CAP
            } else {
                q as i64
            };
            j = j + 1;
        }
        if self.zoom_level >= 0 {
            acc
        } else {
            let num: u128 = (FP_ONE as u128) * (FP_ONE as u128);
            proof {
                let f = FP_ONE as int;
                lemma_div_is_ordered_by_denominator(f * f, f, acc as int);
                lemma_div_multiples_vanish(f, f);
                lemma_div_is_ordered_by_denominator(f * f, acc as int, ZOOM_CAP as int);
                assert(f * f / (ZOOM_CAP as int) == 4);
            }
            let z: i64 = (num / (acc as u128)) as i64;
            z
        }
    }

    /// Maps a pixel position to its plane point under this viewport:
    /// `(px - width/2) * (4 / zoom / width) + offset_x` and likewise for
    /// `y`, exactly, saturated into the `i64` carrier.  Out-of-frame
    /// pixel positions simply extrapolate.
    pub fn pixel_to_plane(&self, px: i32, py: i32) -> (r: (i64, i64))
        requires
            self.wf(),
        ensures
            r.0 == clamp_to_i64(
                plane_coord(px as int, self.width as int, self.zoom_spec(), self.offset_x as int),
            ),
            r.1 == clamp_to_i64(
                plane_coord(py as int, self.height as int, self.zoom_spec(), self.offset_y as int),
            ),
    {
        let zoom = self.zoom_value();
        let x = axis_plane_coord(px, self.width, zoom, self.offset_x);
        let y = axis_plane_coord(py, self.height, zoom, self.offset_y);
        (x, y)
    }

    /// Maps a plane point back to the pixel position it came from; the
    /// exact inverse of `pixel_to_plane` wherever a pixel is at least one
    /// Q32.32 unit wide (see `lemma_pixel_plane_round_trip`).
    pub fn plane_to_pixel(&self, x: i64, y: i64) -> (r: (i64, i64))
        requires
            self.wf(),
        ensures
            r.0 == pixel_coord(x as int, self.width as int, self.zoom_spec(), self.offset_x as int),
            r.1 == pixel_coord(
                y as int,
                self.height as int,
                self.zoom_spec(),
                self.offset_y as int,
            ),
    {
        let zoom = self.zoom_value();
        let px = axis_pixel_coord(x, self.width, zoom, self.offset_x);
        let py = axis_pixel_coord(y, self.height, zoom, self.offset_y);
        (px, py)
    }
}

/// The viewport after a confirmed double-click at pixel `(px, py)`: the
/// clicked plane point (mapped under the viewport as it was shown)
/// becomes the new center, and the zoom level steps once in — left
/// button — or once out, saturating at `LEVEL_MAX`.
pub open spec fn double_click_spec(
    s: MandelbrotSettings,
    button: MouseButton,
    px: int,
    py: int,
) -> MandelbrotSettings {
    MandelbrotSettings {
        offset_x: clamp_to_i64(plane_coord(px, s.width as int, s.zoom_spec(), s.offset_x as int))
            as i64,
        offset_y: clamp_to_i64(plane_coord(py, s.height as int, s.zoom_spec(), s.offset_y as int))
            as i64,
        zoom_level: (match button {
            MouseButton::Left => if s.zoom_level < LEVEL_MAX as int {
                s.zoom_level + 1
            } else {
                s.zoom_level as int
            },
            MouseButton::Right => if s.zoom_level > -(LEVEL_MAX as int) {
                s.zoom_level - 1
            } else {
                s.zoom_level as int
            },
        }) as i64,
        ..s
    }
}

impl MandelbrotSettings {
    /// Applies a confirmed double-click: recenters on the clicked point
    /// under the current (pre-mutation) mapping, then steps the zoom
    /// level — in for the left button, out for the right.
    pub fn apply_double_click(&mut self, button: MouseButton, px: i32, py: i32)
        requires
            old(self).wf(),
        ensures
            *final(self) == double_click_spec(*old(self), button, px as int, py as int),
            final(self).wf(),
    {
        let (x, y) = self.pixel_to_plane(px, py);
        self.offset_x = x;
        self.offset_y = y;
        match button {
            MouseButton::Left => {
                if self.zoom_level < LEVEL_MAX {
                    self.zoom_level = self.zoom_level + 1;
                }
            },
            MouseButton::Right => {
                if self.zoom_level > -LEVEL_MAX {
                    self.zoom_level = self.zoom_level - 1;
                }
            },
        }
    }
}

/// Zooming out and then back in by a double-click pair at the same pixel
/// restores the zoom level, and with it the zoom factor, exactly.
pub proof fn lemma_zoom_round_trip(
    s0: MandelbrotSettings,
    s1: MandelbrotSettings,
    s2: MandelbrotSettings,
    px: int,
    py: int,
)
    requires
        s0.wf(),
        s0.zoom_level > -(LEVEL_MAX as int),
        s1 == double_click_spec(s0, MouseButton::Right, px, py),
        s2 == double_click_spec(s1, MouseButton::Left, px, py),
    ensures
        s2.zoom_level == s0.zoom_level,
        s2.zoom_spec() == s0.zoom_spec(),
{
}

/// One axis of `pixel_to_plane`.
fn axis_plane_coord(pix: i32, dim: u32, zoom: i64, off: i64) -> (r: i64)
    requires
        1 <= dim <= 16384,
        1 <= zoom <= ZOOM_CAP,
    ensures
        r == clamp_to_i64(plane_coord(pix as int, dim as int, zoom as int, off as int)),
{
    proof {
        assert(1 <= (zoom as int) * (dim as int) <= 0x1_0000_0000_0000_0000_0000)
            by (nonlinear_arith)
            requires
                1 <= zoom <= 0x4000_0000_0000_0000,
                1 <= dim <= 16384,
        ;
    }
    let num: u128 = 4 * (FP_ONE as u128) * (FP_ONE as u128);
    let den: u128 = (zoom as u128) * (dim as u128);
    let sx: u128 = num / den;
    let diff: i128 = (pix as i128) - ((dim / 2) as i128);
    proof {
        assert(sx <= 4 * (FP_ONE as u128) * (FP_ONE as u128)) by {
            lemma_div_is_ordered_by_denominator(num as int, 1, den as int);
        }
        assert(-0x1_0000_0000_0000_0000_0000_0000_0000 <= (diff as int) * (sx as int)
            <= 0x1_0000_0000_0000_0000_0000_0000_0000) by (nonlinear_arith)
            requires
                -0x1_0000_0000 <= diff as int <= 0x1_0000_0000,
                0 <= sx as int <= 0x4_0000_0000_0000_0000,
        ;
    }
    let prod: i128 = diff * (sx as i128);
    let total: i128 = prod + (off as i128);
    if total < i64::MIN as i128 {
        i64::MIN
    } else if total > i64::MAX as i128 {
        i64::MAX
    } else {
        total as i64
    }
}

/// One axis of `plane_to_pixel`.
fn axis_pixel_coord(x: i64, dim: u32, zoom: i64, off: i64) -> (r: i64)
    requires
        1 <= dim <= 16384,
        1 <= zoom <= ZOOM_CAP,
    ensures
        r == pixel_coord(x as int, dim as int, zoom as int, off as int),
{
    proof {
        assert(1 <= (zoom as int) * (dim as int) <= 0x1_0000_0000_0000_0000_0000)
            by (nonlinear_arith)
            requires
                1 <= zoom <= 0x4000_0000_0000_0000,
                1 <= dim <= 16384,
        ;
    }
    let num: u128 = 4 * (FP_ONE as u128) * (FP_ONE as u128);
    let den: u128 = (zoom as u128) * (dim as u128);
    let sx: u128 = num / den;
    proof {
        assert(sx <= 4 * (FP_ONE as u128) * (FP_ONE as u128)) by {
            lemma_div_is_ordered_by_denominator(num as int, 1, den as int);
        }
    }
    if sx == 0 {
        (dim / 2) as i64
    } else {
        let delta: i128 = (x as i128) - (off as i128);
        let q: i128 = crate::fixed::div_trunc(delta, sx as i128);
        proof {
            let d = delta as int;
            let s = sx as int;
            assert(-0x1_0000_0000_0000_0000 <= d <= 0x1_0000_0000_0000_0000);
            if d >= 0 {
                lemma_div_is_ordered(d, 0x1_0000_0000_0000_0000, s);
                lemma_div_is_ordered_by_denominator(0x1_0000_0000_0000_0000, 1, s);
                lemma_div_is_ordered(0, d, s);
            } else {
                lemma_div_is_ordered(-d, 0x1_0000_0000_0000_0000, s);
                lemma_div_is_ordered_by_denominator(0x1_0000_0000_0000_0000, 1, s);
                lemma_div_is_ordered(0, -d, s);
            }
        }
        let total: i128 = q + ((dim / 2) as i128);
        if total < i64::MIN as i128 {
            i64::MIN
        } else if total > i64::MAX as i128 {
            i64::MAX
        } else {
            total as i64
        }
    }
}

/// The pixel-to-plane mapping is linear in the pixel index: moving by
/// `p1 - p2` pixels moves the exact plane coordinate by exactly
/// `(p1 - p2)` pixel widths.
pub proof fn lemma_plane_coord_linear(p1: int, p2: int, dim: int, zoom: int, off: int)
    ensures
        plane_coord(p1, dim, zoom, off) - plane_coord(p2, dim, zoom, off) == (p1 - p2) * scale_fp(
            zoom,
            dim,
        ),
{
    let s = scale_fp(zoom, dim);
    let h = dim / 2;
    assert((p1 - h) * s - (p2 - h) * s == (p1 - p2) * s) by (nonlinear_arith);
}

/// Wherever a pixel is at least one Q32.32 unit wide and the exact plane
/// coordinate fits the `i64` carrier, `pixel_coord` recovers the pixel
/// index from `plane_coord` exactly.
pub proof fn lemma_pixel_plane_round_trip(pix: int, dim: int, zoom: int, off: int)
    requires
        1 <= dim <= 16384,
        zoom >= 1,
        scale_fp(zoom, dim) >= 1,
        -0x8000_0000 <= pix <= 0x7fff_ffff,
        i64::MIN <= plane_coord(pix, dim, zoom, off) <= i64::MAX,
    ensures
        pixel_coord(plane_coord(pix, dim, zoom, off), dim, zoom, off) == pix,
{
    let s = scale_fp(zoom, dim);
    let h = dim / 2;
    let d = pix - h;
    let x = plane_coord(pix, dim, zoom, off);
    assert(x - off == d * s);
    if d >= 0 {
        lemma_div_multiples_vanish(d, s);
        assert(s * d == d * s) by (nonlinear_arith);
        assert(sdiv(d * s, s) == d);
    } else {
        lemma_div_multiples_vanish(-d, s);
        assert(s * (-d) == -(d * s)) by (nonlinear_arith);
        assert(sdiv(d * s, s) == -((-(d * s)) / s));
        assert(sdiv(d * s, s) == d);
    }
    assert(pixel_coord(x, dim, zoom, off) == clamp_to_i64(d + h));
}

} // verus!
