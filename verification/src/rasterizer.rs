//! The per-pixel span loops of polygon rasterization (DS 3D engine): the
//! X interpolator (perspective-correct or linear), the four depth tests,
//! alpha blending, translucent pixel plotting, and the three span parts (left
//! edge, inside, right edge) that shade and plot one scanline of a polygon.

use vstd::prelude::*;
use crate::arith::{lemma_and_le_i32, lemma_and_le_u32, lemma_shr_u32, lemma_shr_nonneg_i32};
use crate::renderpixel::{render_pixel, render_pixel_spec, lemma_render_pixel_alpha};
use crate::texture::Vram;

verus! {

/// Truncating division (toward zero), as integer division computes it.
pub open spec fn tdiv(a: int, b: int) -> int {
    if b > 0 {
        if a >= 0 { a / b } else { -((-a) / b) }
    } else {
        if a >= 0 { -(a / (-b)) } else { (-a) / (-b) }
    }
}

/// Truncating `i64` division, computed on magnitudes.
fn div_i64(a: i64, b: i64) -> (res: i64)
    requires
        b != 0,
        -0x4000_0000_0000_0000 <= a <= 0x4000_0000_0000_0000,
        -0x4000_0000_0000_0000 <= b <= 0x4000_0000_0000_0000,
    ensures
        res == tdiv(a as int, b as int),
{
    let ua: u64 = if a >= 0 { a as u64 } else { (-a) as u64 };
    let ub: u64 = if b >= 0 { b as u64 } else { (-b) as u64 };
    let q: u64 = ua / ub;
    assert(q <= ua) by (nonlinear_arith)
        requires q == ua / ub, ub >= 1;
    if (a >= 0) == (b > 0) {
        q as i64
    } else {
        -(q as i64)
    }
}

/// A truncating `i64` division other than `i64::MIN / -1` stays in range.
proof fn lemma_tdiv_fits(a: i64, b: i64)
    requires
        b != 0,
        !(a == i64::MIN && b == -1),
    ensures
        i64::MIN <= tdiv(a as int, b as int) <= i64::MAX,
{
    let x: int = a as int;
    let d: int = b as int;
    if d > 0 {
        if x >= 0 {
            assert(0 <= x / d <= x) by (nonlinear_arith) requires x >= 0, d > 0;
        } else {
            assert(0 <= (-x) / d <= -x) by (nonlinear_arith) requires -x > 0, d > 0;
        }
    } else {
        if x >= 0 {
            assert(0 <= x / (-d) <= x) by (nonlinear_arith) requires x >= 0, -d > 0;
        } else if d == -1 {
            assert((-x) / 1 == -x);
        } else {
            assert(0 <= (-x) / (-d) <= (-x) / 2) by (nonlinear_arith) requires -x > 0, -d >= 2;
            assert((-x) / 2 <= 0x4000_0000_0000_0000) by (nonlinear_arith)
                requires 0 < -x <= 0x8000_0000_0000_0000;
        }
    }
}

/// The X interpolator of a span: the span runs over
/// `xdiff` columns from `x0`; `x` is the current offset and `yfactor` the
/// perspective factor (8 fractional bits) at that offset.
#[derive(Clone, Copy)]
pub struct InterpX {
    pub x0: i32,
    pub xdiff: i32,
    pub x: i32,
    pub linear: bool,
    pub xrecip_z: i32,
    pub w0n: i32,
    pub w0d: i32,
    pub w1d: i32,
    pub yfactor: u32,
}

/// Whether a span interpolates linearly: equal W values with clear low bits.
pub open spec fn interp_linear(w0: i32, w1: i32) -> bool {
    w0 == w1 && w0 & 0x7F == 0 && w1 & 0x7F == 0
}

/// The interpolator for the span `[x0, x1)` with end-point W values `w0`, `w1`.
pub open spec fn interp_new(x0: i32, x1: i32, w0: i32, w1: i32) -> InterpX {
    let xdiff: i32 = (x1 - x0) as i32;
    InterpX {
        x0,
        xdiff,
        x: 0,
        linear: interp_linear(w0, w1),
        xrecip_z: if xdiff != 0 { tdiv(0x40_0000, xdiff as int) as i32 } else { 0 },
        w0n: w0,
        w0d: w0,
        w1d: w1,
        yfactor: 0,
    }
}

/// The perspective factor at offset `x`: `x*w0*256 / (x*w0 + (xdiff-x)*w1)`,
/// with a wrapping 32-bit denominator, and 0 where the denominator vanishes.
pub open spec fn interp_yfactor(ip: InterpX, x: i32) -> u32 {
    let num: i64 = interp_num(ip, x);
    let den: i32 = interp_den(ip, x);
    if den == 0 { 0 } else { tdiv(num as int, den as int) as u32 }
}

/// Numerator of the perspective factor: `x * w0` shifted left by 8 in
/// 64 bits (the shift wraps).
pub open spec fn interp_num(ip: InterpX, x: i32) -> i64 {
    (((x as int) * (ip.w0n as int)) as i64).wrapping_mul(256i64)
}

/// Denominator of the perspective factor, in wrapping 32-bit arithmetic.
pub open spec fn interp_den(ip: InterpX, x: i32) -> i32 {
    x.wrapping_mul(ip.w0d).wrapping_add(((ip.xdiff - x) as i32).wrapping_mul(ip.w1d))
}

/// The perspective division at column `xx` does not overflow (the one
/// overflowing 64-bit division, `i64::MIN / -1`, would panic).
pub open spec fn interp_div_ok(ip: InterpX, xx: int) -> bool {
    let x: i32 = (xx - ip.x0) as i32;
    (ip.xdiff != 0 && !ip.linear) ==> !(interp_num(ip, x) == i64::MIN && interp_den(ip, x) == -1)
}

/// The interpolator after moving to column `xx`.
pub open spec fn interp_set(ip: InterpX, xx: i32) -> InterpX {
    let x: i32 = (xx - ip.x0) as i32;
    if ip.xdiff != 0 && !ip.linear {
        InterpX { x, yfactor: interp_yfactor(ip, x), ..ip }
    } else {
        InterpX { x, ..ip }
    }
}

/// Whether column `xx` lies inside the interpolator's span and its
/// perspective division does not overflow.
pub open spec fn interp_in_span(ip: InterpX, xx: int) -> bool {
    &&& ip.x0 <= xx
    &&& xx - ip.x0 < ip.xdiff
    &&& interp_div_ok(ip, xx)
}

/// The value interpolated between `y0` and `y1` at the current column.
pub open spec fn interp_value(ip: InterpX, y0: i32, y1: i32) -> i32 {
    if ip.xdiff == 0 || y0 == y1 {
        y0
    } else if !ip.linear {
        if y0 < y1 {
            y0.wrapping_add(((((y1 - y0) as u32).wrapping_mul(ip.yfactor)) >> 8u32) as i32)
        } else {
            y1.wrapping_add(
                ((((y0 - y1) as u32).wrapping_mul((256u32).wrapping_sub(ip.yfactor))) >> 8u32) as i32,
            )
        }
    } else if y0 < y1 {
        (y0 + (tdiv((y1 - y0) * ip.x, ip.xdiff as int) as i32)) as i32
    } else {
        (y1 + (tdiv((y0 - y1) * (ip.xdiff - ip.x), ip.xdiff as int) as i32)) as i32
    }
}

/// The depth interpolated between `z0` and `z1` at the current column:
/// perspective-correct for W-buffering, linear (via the reciprocal of the
/// span length) for Z-buffering.
pub open spec fn interp_depth(ip: InterpX, z0: i32, z1: i32, wbuffer: bool) -> i32 {
    if ip.xdiff == 0 || z0 == z1 {
        z0
    } else if wbuffer {
        if z0 < z1 {
            z0.wrapping_add((((z1 - z0) * (ip.yfactor as int)) as i64 >> 8u64) as i32)
        } else {
            z1.wrapping_add((((z0 - z1) * ((256u32).wrapping_sub(ip.yfactor) as int)) as i64 >> 8u64) as i32)
        }
    } else {
        let base: int = if z0 < z1 { z0 as int } else { z1 as int };
        let disp: int = if z0 < z1 { ((z1 - z0) as i32 >> 9u32) as int } else { ((z0 - z1) as i32 >> 9u32) as int };
        let factor: int = if z0 < z1 { ip.x as int } else { ip.xdiff - ip.x };
        (base + ((disp * factor * ip.xrecip_z) as i64 >> 13u64) as i32) as i32
    }
}

impl InterpX {
    /// The interpolator for the span `[x0, x1)`.
    fn new(x0: i32, x1: i32, w0: i32, w1: i32) -> (res: InterpX)
        requires
            i32::MIN <= x1 - x0 <= i32::MAX,
        ensures
            res == interp_new(x0, x1, w0, w1),
    {
        let xdiff: i32 = x1 - x0;
        let xrecip_z: i32 = if xdiff != 0 {
            let q: i64 = div_i64(0x40_0000, xdiff as i64);
            assert(-0x40_0000 <= q <= 0x40_0000) by (nonlinear_arith)
                requires q == tdiv(0x40_0000, xdiff as int), xdiff != 0;
            q as i32
        } else {
            0
        };
        let linear: bool = (w0 == w1) && (w0 & 0x7F == 0) && (w1 & 0x7F == 0);
        InterpX { x0, xdiff, x: 0, linear, xrecip_z, w0n: w0, w0d: w0, w1d: w1, yfactor: 0 }
    }

    /// The value interpolated between `y0` and `y1` at the current column
    /// (perspective-correct, or linear where the W values allow it).
    fn interpolate(&self, y0: i32, y1: i32) -> (res: i32)
        requires
            0 <= self.x < self.xdiff,
            i32::MIN < y1 - y0 <= i32::MAX,
        ensures
            res == interp_value(*self, y0, y1),
    {
        if self.xdiff == 0 || y0 == y1 {
            return y0;
        }
        if !self.linear {
            if y0 < y1 {
                y0.wrapping_add((((y1 - y0) as u32).wrapping_mul(self.yfactor) >> 8) as i32)
            } else {
                y1.wrapping_add((((y0 - y1) as u32).wrapping_mul(256u32.wrapping_sub(self.yfactor)) >> 8) as i32)
            }
        } else if y0 < y1 {
            let d: i64 = (y1 - y0) as i64;
            assert(0 <= d * (self.x as int) <= d * (self.xdiff as int) <= 0x8000_0000 * 0x8000_0000) by (nonlinear_arith)
                requires 0 < d <= 0x8000_0000, 0 <= self.x < self.xdiff <= 0x8000_0000;
            let q: i64 = div_i64(d * (self.x as i64), self.xdiff as i64);
            assert(0 <= q <= d) by (nonlinear_arith)
                requires q == (d * (self.x as int)) / (self.xdiff as int), 0 < d, 0 <= self.x < self.xdiff;
            y0 + (q as i32)
        } else {
            let d: i64 = (y0 - y1) as i64;
            let f: i64 = (self.xdiff - self.x) as i64;
            assert(0 <= d * f <= d * (self.xdiff as int) <= 0x8000_0000 * 0x8000_0000) by (nonlinear_arith)
                requires 0 < d <= 0x8000_0000, 0 < f <= self.xdiff <= 0x8000_0000;
            let q: i64 = div_i64(d * f, self.xdiff as i64);
            assert(0 <= q <= d) by (nonlinear_arith)
                requires q == (d * f) / (self.xdiff as int), 0 < d, 0 < f <= self.xdiff;
            y1 + (q as i32)
        }
    }

    /// The depth interpolated between `z0` and `z1` at the current column
    /// (the depth buffer's own interpolation).
    fn interpolate_z(&self, z0: i32, z1: i32, wbuffer: bool) -> (res: i32)
        requires
            0 <= self.x < self.xdiff,
            self.xrecip_z == tdiv(0x40_0000, self.xdiff as int),
            i32::MIN < z1 - z0 <= i32::MAX,
        ensures
            res == interp_depth(*self, z0, z1, wbuffer),
    {
        if self.xdiff == 0 || z0 == z1 {
            return z0;
        }
        if wbuffer {
            if z0 < z1 {
                let d: i64 = (z1 - z0) as i64;
                assert(0 <= d * (self.yfactor as int) <= 0x7FFF_FFFF * 0xFFFF_FFFF) by (nonlinear_arith)
                    requires 0 < d <= 0x7FFF_FFFF, self.yfactor <= 0xFFFF_FFFF;
                let v: i64 = d * (self.yfactor as i64);
                z0.wrapping_add((v >> 8) as i32)
            } else {
                let d: i64 = (z0 - z1) as i64;
                let f: i64 = 256u32.wrapping_sub(self.yfactor) as i64;
                assert(0 <= d * f <= 0x7FFF_FFFF * 0xFFFF_FFFF) by (nonlinear_arith)
                    requires 0 < d <= 0x7FFF_FFFF, 0 <= f <= 0xFFFF_FFFF;
                let v: i64 = d * f;
                z1.wrapping_add((v >> 8) as i32)
            }
        } else {
            let base: i32 = if z0 < z1 { z0 } else { z1 };
            let d: i32 = if z0 < z1 { z1 - z0 } else { z0 - z1 };
            let factor: i32 = if z0 < z1 { self.x } else { self.xdiff - self.x };
            let disp: i32 = d >> 9;
            proof {
                lemma_shr_nonneg_i32(d);
            }
            let xr: i64 = self.xrecip_z as i64;
            assert(0 <= factor * xr <= 0x40_0000) by (nonlinear_arith)
                requires xr == 0x40_0000int / (self.xdiff as int), 0 <= factor <= self.xdiff, self.xdiff > 0;
            assert(0 <= disp * factor <= 0x40_0000 * 0x8000_0000) by (nonlinear_arith)
                requires 0 <= disp <= 0x40_0000, 0 <= factor <= 0x8000_0000;
            assert(0 <= (disp * factor) * xr <= disp * 0x40_0000) by (nonlinear_arith)
                requires 0 <= disp, 0 <= factor * xr <= 0x40_0000, 0 <= factor, 0 <= xr;
            let v: i64 = (disp as i64) * (factor as i64) * xr;
            let r: i64 = v >> 13;
            assert(0 <= r <= disp * 512) by (bit_vector)
                requires r == v >> 13, 0 <= v <= disp * 0x40_0000, 0 <= disp <= 0x40_0000;
            base + (r as i32)
        }
    }

    /// Moves the interpolator to column `xx`.
    fn set_x(&mut self, xx: i32)
        requires
            interp_in_span(*old(self), xx as int),
        ensures
            *final(self) == interp_set(*old(self), xx),
    {
        let x: i32 = xx - self.x0;
        self.x = x;
        if self.xdiff != 0 && !self.linear {
            assert(-0x8000_0000 * 0x8000_0000 <= (x as int) * (self.w0n as int) <= 0x8000_0000 * 0x8000_0000)
                by (nonlinear_arith)
                requires 0 <= x < 0x8000_0000, i32::MIN <= self.w0n <= i32::MAX;
            let num: i64 = ((x as i64) * (self.w0n as i64)).wrapping_mul(256);
            let den: i32 = x.wrapping_mul(self.w0d).wrapping_add((self.xdiff - x).wrapping_mul(self.w1d));
            assert(num == interp_num(*old(self), x) && den == interp_den(*old(self), x));
            self.yfactor = if den == 0 {
                0
            } else {
                proof {
                    lemma_tdiv_fits(num, den as i64);
                }
                match num.checked_div(den as i64) {
                    Some(q) => q as u32,
                    None => 0,
                }
            };
        }
    }
}

/// Depth test `mode` (0: equal Z, 1: equal W, 2: less, 3: less or, for
/// front-facing polygons over back-facing edges, equal) of depth `z`
/// against the stored depth `dstz`.
pub open spec fn depth_test_spec(mode: u8, dstz: i32, z: i32, dstattr: u32) -> bool {
    if mode == 0 {
        (dstz.wrapping_sub(z).wrapping_add(0x200) as u32) <= 0x400
    } else if mode == 1 {
        (dstz.wrapping_sub(z).wrapping_add(0xFF) as u32) <= 0x1FE
    } else if mode == 2 {
        z < dstz
    } else if dstattr & 0x0040_0010 == 0x10 {
        z <= dstz
    } else {
        z < dstz
    }
}

/// The two equality depth tests accept exactly the fragments close to the
/// stored depth: Equal_Z (mode 0) those within 0x200 of it, Equal_W
/// (mode 1) those within 0xFF of it (whenever their difference fits 32
/// bits); in particular an equal depth always passes.
pub proof fn lemma_depth_equal_modes(dstz: i32, z: i32, dstattr: u32)
    requires
        i32::MIN <= dstz - z <= i32::MAX,
    ensures
        depth_test_spec(0, dstz, z, dstattr) == (-0x200 <= dstz - z <= 0x200),
        depth_test_spec(1, dstz, z, dstattr) == (-0xFF <= dstz - z <= 0xFF),
        depth_test_spec(0, z, z, dstattr) && depth_test_spec(1, z, z, dstattr),
{
    let d: i32 = dstz.wrapping_sub(z);
    crate::line::lemma_i32_wrapping_sub(dstz, z);
    assert(d == dstz - z);
    let e0: i32 = d.wrapping_add(0x200);
    let e1: i32 = d.wrapping_add(0xFF);
    crate::line::lemma_i32_wrapping_add(d, 0x200);
    crate::line::lemma_i32_wrapping_add(d, 0xFF);
    crate::arith::lemma_i32_as_u32(e0);
    crate::arith::lemma_i32_as_u32(e1);
    let zz: i32 = z.wrapping_sub(z);
    crate::line::lemma_i32_wrapping_sub(z, z);
    crate::line::lemma_i32_wrapping_add(zz, 0x200);
    crate::line::lemma_i32_wrapping_add(zz, 0xFF);
}

/// Alpha blending: the translucent pixel `src` (alpha `alpha`) over `dst`.
/// Over a transparent `dst` the source is kept; otherwise the channels are
/// blended when blending is enabled (DISP3DCNT bit 3) and the larger alpha
/// is kept.
pub open spec fn alpha_blend_spec(disp_cnt: u32, src: u32, dst: u32, alpha: u32) -> u32 {
    let dstalpha = dst >> 24u32;
    if dstalpha == 0 {
        src
    } else {
        let sr = src & 0x3F;
        let sg = (src >> 8u32) & 0x3F;
        let sb = (src >> 16u32) & 0x3F;
        let a = alpha + 1;
        let r: u32 = if disp_cnt & 0x8 != 0 { ((sr * a + (dst & 0x3F) * (32 - a)) / 32) as u32 } else { sr };
        let g: u32 = if disp_cnt & 0x8 != 0 { ((sg * a + ((dst >> 8u32) & 0x3F) * (32 - a)) / 32) as u32 } else { sg };
        let b: u32 = if disp_cnt & 0x8 != 0 { ((sb * a + ((dst >> 16u32) & 0x3F) * (32 - a)) / 32) as u32 } else { sb };
        let da: u32 = if alpha > dstalpha { alpha } else { dstalpha };
        r | (g << 8u32) | (b << 16u32) | (da << 24u32)
    }
}

/// The three buffers of a scanline (both layers) and the running edge
/// coverage of the span part being drawn.
pub struct SpanState {
    pub color: Seq<u32>,
    pub depth: Seq<u32>,
    pub attr: Seq<u32>,
    pub xcov: int,
}

/// Attribute word a translucent pixel leaves: translucent polygon id and
/// fog flag of the polygon, marked translucent, keeping the opaque id,
/// edge and coverage bits already there.
pub open spec fn translucent_attr(polyattr: u32, dstattr: u32) -> u32 {
    let attr = (polyattr & 0xE0F0) | ((polyattr >> 8u32) & 0xFF_0000) | 0x40_0000 | (dstattr & 0xFF00_1F0F);
    if dstattr & 0x8000 == 0 { attr & !0x8000u32 } else { attr }
}

/// Whether plotting a translucent pixel leaves the pixel alone: the same
/// translucent polygon id is already there (for shadows, the same id, or
/// the opaque id of the shadow's own polygon).
pub open spec fn translucent_skip(polyattr: u32, dstattr: u32, shadow: bool) -> bool {
    let attr = (polyattr & 0xE0F0) | ((polyattr >> 8u32) & 0xFF_0000) | 0x40_0000 | (dstattr & 0xFF00_1F0F);
    if shadow && dstattr & 0x40_0000 == 0 {
        dstattr & 0x3F00_0000 == polyattr & 0x3F00_0000
    } else {
        dstattr & 0x7F_0000 == attr & 0x7F_0000
    }
}

/// Plotting a translucent pixel at address `pa`: blend the colour, store the
/// depth unless `z` is -1, and store the attributes.
pub open spec fn plot_translucent_spec(
    st: SpanState,
    disp_cnt: u32,
    pa: int,
    color: u32,
    z: i32,
    polyattr: u32,
    shadow: bool,
) -> SpanState {
    let dstattr = st.attr[pa];
    if translucent_skip(polyattr, dstattr, shadow) {
        st
    } else {
        SpanState {
            color: st.color.update(pa, alpha_blend_spec(disp_cnt, color, st.color[pa], color >> 24u32)),
            depth: if z != -1 { st.depth.update(pa, z as u32) } else { st.depth },
            attr: st.attr.update(pa, translucent_attr(polyattr, dstattr)),
            xcov: st.xcov,
        }
    }
}

/// Depth test of the span (`DepthTest_*`).
fn depth_test(mode: u8, dstz: i32, z: i32, dstattr: u32) -> (res: bool)
    ensures
        res == depth_test_spec(mode, dstz, z, dstattr),
{
    if mode == 0 {
        let diff: i32 = dstz.wrapping_sub(z);
        (diff.wrapping_add(0x200) as u32) <= 0x400
    } else if mode == 1 {
        let diff: i32 = dstz.wrapping_sub(z);
        (diff.wrapping_add(0xFF) as u32) <= 0x1FE
    } else if mode == 2 {
        z < dstz
    } else if (dstattr & 0x0040_0010) == 0x0000_0010 {
        z <= dstz
    } else {
        z < dstz
    }
}

/// Alpha blending of a translucent pixel with a 5-bit alpha.
fn alpha_blend(disp_cnt: u32, srccolor: u32, dstcolor: u32, alpha: u32) -> (res: u32)
    requires
        disp_cnt & 0x8 != 0 && dstcolor >> 24u32 != 0 ==> alpha <= 31,
    ensures
        res == alpha_blend_spec(disp_cnt, srccolor, dstcolor, alpha),
{
    let mut dstalpha: u32 = dstcolor >> 24;
    if dstalpha == 0 {
        return srccolor;
    }
    let mut src_r: u32 = srccolor & 0x3F;
    let mut src_g: u32 = (srccolor >> 8) & 0x3F;
    let mut src_b: u32 = (srccolor >> 16) & 0x3F;
    assert(src_r <= 63 && src_g <= 63 && src_b <= 63) by {
        lemma_and_le_u32(srccolor, 0x3F);
        lemma_and_le_u32(srccolor >> 8u32, 0x3F);
        lemma_and_le_u32(srccolor >> 16u32, 0x3F);
    }
    if disp_cnt & 0x8 != 0 {
        let dst_r: u32 = dstcolor & 0x3F;
        let dst_g: u32 = (dstcolor >> 8) & 0x3F;
        let dst_b: u32 = (dstcolor >> 16) & 0x3F;
        assert(dst_r <= 63 && dst_g <= 63 && dst_b <= 63) by {
            lemma_and_le_u32(dstcolor, 0x3F);
            lemma_and_le_u32(dstcolor >> 8u32, 0x3F);
            lemma_and_le_u32(dstcolor >> 16u32, 0x3F);
        }
        let a: u32 = alpha + 1;
        assert(src_r * a + dst_r * (32 - a) <= 63 * 32) by (nonlinear_arith)
            requires src_r <= 63, dst_r <= 63, 1 <= a <= 32;
        assert(src_g * a + dst_g * (32 - a) <= 63 * 32) by (nonlinear_arith)
            requires src_g <= 63, dst_g <= 63, 1 <= a <= 32;
        assert(src_b * a + dst_b * (32 - a) <= 63 * 32) by (nonlinear_arith)
            requires src_b <= 63, dst_b <= 63, 1 <= a <= 32;
        let vr: u32 = (src_r * a) + (dst_r * (32 - a));
        let vg: u32 = (src_g * a) + (dst_g * (32 - a));
        let vb: u32 = (src_b * a) + (dst_b * (32 - a));
        assert(vr >> 5 == vr / 32 && vg >> 5 == vg / 32 && vb >> 5 == vb / 32) by {
            lemma_shr_u32(vr, 5);
            lemma_shr_u32(vg, 5);
            lemma_shr_u32(vb, 5);
        }
        src_r = vr >> 5;
        src_g = vg >> 5;
        src_b = vb >> 5;
    }
    if alpha > dstalpha {
        dstalpha = alpha;
    }
    src_r | (src_g << 8) | (src_b << 16) | (dstalpha << 24)
}

/// Plots a translucent pixel at address `pixeladdr` of the three buffers.
fn plot_translucent_pixel(
    color: &mut [u32],
    depth: &mut [u32],
    attr: &mut [u32],
    disp_cnt: u32,
    pixeladdr: usize,
    col: u32,
    z: i32,
    polyattr: u32,
    shadow: bool,
    Ghost(xcov): Ghost<int>,
)
    requires
        pixeladdr < old(color)@.len(),
        pixeladdr < old(depth)@.len(),
        pixeladdr < old(attr)@.len(),
        disp_cnt & 0x8 != 0 && old(color)@[pixeladdr as int] >> 24u32 != 0 ==> col >> 24u32 <= 31,
    ensures
        final(color)@.len() == old(color)@.len(),
        final(depth)@.len() == old(depth)@.len(),
        final(attr)@.len() == old(attr)@.len(),
        ({
            let st = plot_translucent_spec(
                SpanState { color: old(color)@, depth: old(depth)@, attr: old(attr)@, xcov },
                disp_cnt,
                pixeladdr as int,
                col,
                z,
                polyattr,
                shadow,
            );
            &&& final(color)@ == st.color
            &&& final(depth)@ == st.depth
            &&& final(attr)@ == st.attr
        }),
{
    let dstattr: u32 = attr[pixeladdr];
    let mut a: u32 = (polyattr & 0xE0F0) | ((polyattr >> 8) & 0xFF0000) | 0x0040_0000 | (dstattr & 0xFF001F0F);
    if shadow {
        if dstattr & 0x0040_0000 != 0 {
            if (dstattr & 0x007F0000) == (a & 0x007F0000) {
                return;
            }
        } else if (dstattr & 0x3F000000) == (polyattr & 0x3F000000) {
            return;
        }
    } else if (dstattr & 0x007F0000) == (a & 0x007F0000) {
        return;
    }
    if dstattr & 0x8000 == 0 {
        a = a & !0x8000u32;
    }
    let blended: u32 = alpha_blend(disp_cnt, col, color[pixeladdr], col >> 24);
    if z != -1 {
        depth[pixeladdr] = z as u32;
    }
    color[pixeladdr] = blended;
    attr[pixeladdr] = a;
}

/// The scalar state of one scanline span, as the per-scanline setup has
/// computed it: buffer geometry, the span end points and their
/// interpolated attributes (W, Z, colour, texture coordinates), the edge
/// lengths and coverages, and the polygon's render state.
pub struct SpanParams {
    pub buffer_size: i32,
    pub scanline_width: i32,
    pub first_pixel_offset: i32,
    pub y: i32,
    pub xstart: i32,
    pub xend: i32,
    pub wl: i32,
    pub wr: i32,
    pub zl: i32,
    pub zr: i32,
    pub rl: i32,
    pub gl: i32,
    pub bl: i32,
    pub sl: i32,
    pub tl: i32,
    pub rr: i32,
    pub gr: i32,
    pub br: i32,
    pub sr: i32,
    pub tr: i32,
    pub l_edgelen: i32,
    pub r_edgelen: i32,
    pub l_edgecov: i32,
    pub r_edgecov: i32,
    pub yedge: i32,
    pub l_filledge: u8,
    pub r_filledge: u8,
    pub wireframe: u8,
    pub is_shadow: u8,
    pub wbuffer: u8,
    pub depth_test_mode: u8,
    pub poly_attr: u32,
    pub poly_attr_full: u32,
    pub tex_param: u32,
    pub tex_palette: u32,
    pub disp_cnt: u32,
    pub alpha_ref: u32,
}

/// Everything a span reads besides the buffers: its parameters, the
/// shadow stencil, texture and palette VRAM and the toon table.
pub struct SpanEnv {
    pub p: SpanParams,
    pub stencil: Seq<u8>,
    pub tex: Seq<u8>,
    pub pal: Seq<u8>,
    pub toon: Seq<u16>,
}

/// Index of the first pixel of the span's scanline.
pub open spec fn span_base(p: SpanParams) -> int {
    p.first_pixel_offset + p.y * p.scanline_width
}

/// The interpolator of the span `[xstart, xend]`.
pub open spec fn span_interp(p: SpanParams) -> InterpX {
    interp_new(p.xstart, (p.xend + 1) as i32, p.wl, p.wr)
}

/// The interpolator at column `xx`.
pub open spec fn span_interp_at(p: SpanParams, xx: int) -> InterpX {
    interp_set(span_interp(p), xx as i32)
}

/// The 6-bit-scaled red vertex component at column `xx`.
pub open spec fn span_vr(p: SpanParams, xx: int) -> u8 {
    ((interp_value(span_interp_at(p, xx), p.rl, p.rr) as u32) >> 3u32) as u8
}

/// The shaded colour at column `xx` (pixel shading of the interpolated
/// vertex colour and texture coordinates).
#[verifier::opaque]
pub open spec fn span_shade(p: SpanParams, tex: Seq<u8>, pal: Seq<u8>, toon: Seq<u16>, xx: int) -> u32 {
    let ip = span_interp_at(p, xx);
    render_pixel_spec(
        tex,
        pal,
        p.poly_attr_full,
        p.tex_param,
        p.tex_palette,
        p.disp_cnt,
        toon,
        ((interp_value(ip, p.rl, p.rr) as u32) >> 3u32) as u8,
        ((interp_value(ip, p.gl, p.gr) as u32) >> 3u32) as u8,
        ((interp_value(ip, p.bl, p.br) as u32) >> 3u32) as u8,
        interp_value(ip, p.sl, p.sr) as i16,
        interp_value(ip, p.tl, p.tr) as i16,
    )
}

/// Edge flags of span part `part` (0: left edge, 1: inside, 2: right edge).
pub open spec fn span_edge(p: SpanParams, part: int) -> i32 {
    if part == 0 {
        p.yedge | 1
    } else if part == 1 {
        p.yedge
    } else {
        p.yedge | 2
    }
}

/// Coverage of the next pixel of an anti-aliased edge part, from the
/// running coverage `xcov`: rising along the left edge, falling along the
/// right edge, in 0..=31.
pub open spec fn edge_cov(part: int, xcov: int) -> int {
    if part == 0 {
        if xcov / 32 > 31 { 31 } else { xcov / 32 }
    } else {
        if 0x1F - xcov / 32 < 0 { 0 } else { 0x1F - xcov / 32 }
    }
}

/// Plotting an opaque pixel of span part `part` at address `pa`: with
/// anti-aliasing, the pixel gets an edge coverage and the old top pixel
/// moves to the lower layer; then colour, depth and attributes are stored.
pub open spec fn plot_opaque_spec(p: SpanParams, part: int, st: SpanState, pa: int, color: u32, z: i32) -> SpanState {
    let bsz = p.buffer_size as int;
    let attr0: u32 = p.poly_attr | (span_edge(p, part) as u32);
    let aa = p.disp_cnt & 0x10 != 0;
    let edgecov: i32 = if part == 0 { p.l_edgecov } else { p.r_edgecov };
    let moves = if part == 1 { aa && attr0 & 0xF != 0 } else { aa };
    let attr: u32 = if !moves {
        attr0
    } else if part == 1 {
        attr0 | 0x1F00
    } else if edgecov < 0 {
        attr0 | ((edge_cov(part, st.xcov) as u32) << 8u32)
    } else {
        attr0 | ((edgecov as u32) << 8u32)
    };
    let xcov = if moves && part != 1 && edgecov < 0 { st.xcov + (edgecov & 0x3FF) } else { st.xcov };
    let lower = moves && pa < bsz;
    let c1 = if lower { st.color.update(pa + bsz, st.color[pa]) } else { st.color };
    let d1 = if lower { st.depth.update(pa + bsz, st.depth[pa]) } else { st.depth };
    let a1 = if lower { st.attr.update(pa + bsz, st.attr[pa]) } else { st.attr };
    SpanState { color: c1.update(pa, color), depth: d1.update(pa, z as u32), attr: a1.update(pa, attr), xcov }
}

/// Shades the pixel at the interpolator's column.
fn shade_pixel(p: &SpanParams, interp: &InterpX, vram: &Vram, toon: &[u16; 32], Ghost(xx): Ghost<int>) -> (res: u32)
    requires
        vram.wf(),
        *interp == span_interp_at(*p, xx),
        0 <= interp.x < interp.xdiff,
        i32::MIN < p.rr - p.rl <= i32::MAX,
        i32::MIN < p.gr - p.gl <= i32::MAX,
        i32::MIN < p.br - p.bl <= i32::MAX,
        i32::MIN < p.sr - p.sl <= i32::MAX,
        i32::MIN < p.tr - p.tl <= i32::MAX,
    ensures
        res == span_shade(*p, vram.tex@, vram.pal@, toon@, xx),
{
    let vr: u32 = interp.interpolate(p.rl, p.rr) as u32;
    let vg: u32 = interp.interpolate(p.gl, p.gr) as u32;
    let vb: u32 = interp.interpolate(p.bl, p.br) as u32;
    let s: i16 = interp.interpolate(p.sl, p.sr) as i16;
    let t: i16 = interp.interpolate(p.tl, p.tr) as i16;
    let res: u32 = render_pixel(
        vram,
        p.poly_attr_full,
        p.tex_param,
        p.tex_palette,
        p.disp_cnt,
        toon,
        (vr >> 3) as u8,
        (vg >> 3) as u8,
        (vb >> 3) as u8,
        s,
        t,
    );
    proof {
        reveal(span_shade);
    }
    res
}

/// With anti-aliasing, the old top pixel at `pa` moves to the lower layer.
fn push_down(color: &mut [u32], depth: &mut [u32], attr: &mut [u32], pa: usize, bsz: usize)
    requires
        old(color)@.len() == 2 * bsz,
        old(depth)@.len() == 2 * bsz,
        old(attr)@.len() == 2 * bsz,
        pa < 2 * bsz,
    ensures
        final(color)@.len() == old(color)@.len(),
        final(depth)@.len() == old(depth)@.len(),
        final(attr)@.len() == old(attr)@.len(),
        pa < bsz ==> final(color)@ == old(color)@.update(pa + bsz, old(color)@[pa as int]),
        pa < bsz ==> final(depth)@ == old(depth)@.update(pa + bsz, old(depth)@[pa as int]),
        pa < bsz ==> final(attr)@ == old(attr)@.update(pa + bsz, old(attr)@[pa as int]),
        pa >= bsz ==> final(color)@ == old(color)@ && final(depth)@ == old(depth)@ && final(attr)@ == old(attr)@,
{
    if pa < bsz {
        let c: u32 = color[pa];
        color[pa + bsz] = c;
        let d: u32 = depth[pa];
        depth[pa + bsz] = d;
        let a: u32 = attr[pa];
        attr[pa + bsz] = a;
    }
}

/// Plots an opaque pixel of span part `part` at address `pa`; returns the
/// running edge coverage for the next pixel.
fn plot_opaque(
    p: &SpanParams,
    part: u8,
    color: &mut [u32],
    depth: &mut [u32],
    attr: &mut [u32],
    pa: usize,
    col: u32,
    z: i32,
    xcov: i32,
) -> (new_xcov: i32)
    requires
        part <= 2,
        p.buffer_size >= 0,
        old(color)@.len() == 2 * p.buffer_size,
        old(depth)@.len() == 2 * p.buffer_size,
        old(attr)@.len() == 2 * p.buffer_size,
        pa < 2 * p.buffer_size,
        0 <= xcov <= 0x10_0000,
    ensures
        final(color)@.len() == old(color)@.len(),
        final(depth)@.len() == old(depth)@.len(),
        final(attr)@.len() == old(attr)@.len(),
        ({
            let st = plot_opaque_spec(
                *p,
                part as int,
                SpanState { color: old(color)@, depth: old(depth)@, attr: old(attr)@, xcov: xcov as int },
                pa as int,
                col,
                z,
            );
            &&& final(color)@ == st.color
            &&& final(depth)@ == st.depth
            &&& final(attr)@ == st.attr
            &&& new_xcov == st.xcov
        }),
        xcov <= new_xcov <= xcov + 0x3FF,
{
    let bsz: usize = p.buffer_size as usize;
    let edge: i32 = if part == 0 {
        p.yedge | 0x1
    } else if part == 1 {
        p.yedge
    } else {
        p.yedge | 0x2
    };
    let mut a: u32 = p.poly_attr | edge as u32;
    let mut nx: i32 = xcov;
    if part == 1 {
        if (p.disp_cnt & 0x10 != 0) && (a & 0xF != 0) {
            a = a | 0x1F00;
            push_down(color, depth, attr, pa, bsz);
        }
    } else if p.disp_cnt & 0x10 != 0 {
        let edgecov: i32 = if part == 0 { p.l_edgecov } else { p.r_edgecov };
        let mut cov: i32 = edgecov;
        if edgecov < 0 {
            let q: i32 = xcov >> 5;
            proof {
                lemma_shr_nonneg_i32(xcov);
            }
            if part == 0 {
                cov = q;
                if cov > 31 {
                    cov = 31;
                }
            } else {
                cov = 0x1F - q;
                if cov < 0 {
                    cov = 0;
                }
            }
            let inc: i32 = edgecov & 0x3FF;
            proof {
                lemma_and_le_i32(edgecov, 0x3FF);
            }
            nx = xcov + inc;
        }
        a = a | ((cov as u32) << 8);
        push_down(color, depth, attr, pa, bsz);
    }
    depth[pa] = z as u32;
    color[pa] = col;
    attr[pa] = a;
    nx
}

/// The pixel state after span part `part` handles column `xx`: the shadow
/// stencil may skip it or move it to the lower layer; the depth test
/// against the top layer (and, for a failing top pixel with coverage
/// bits, against the lower layer) may reject it; the shaded colour is
/// dropped at or below the alpha reference, plotted opaque at full alpha,
/// and otherwise blended into the chosen layer and, where that is the top
/// layer over an edge pixel, into the lower layer too.
pub open spec fn span_pixel_spec(env: SpanEnv, part: int, xx: int, st: SpanState) -> SpanState {
    let p = env.p;
    let bsz = p.buffer_size as int;
    let shadow = p.is_shadow != 0;
    let pa0 = span_base(p) + xx;
    let stencil = env.stencil[256 * ((p.y & 1) as int) + xx];
    let pa1 = if shadow && stencil & 1 == 0 { pa0 + bsz } else { pa0 };
    let da1 = if shadow && stencil & 2 == 0 { st.attr[pa0] & !0xFu32 } else { st.attr[pa0] };
    let z = interp_depth(span_interp_at(p, xx), p.zl, p.zr, p.wbuffer != 0);
    let pass1 = depth_test_spec(p.depth_test_mode, st.depth[pa1] as i32, z, da1);
    let pa = if pass1 { pa1 } else { pa1 + bsz };
    let da = if pass1 { da1 } else { st.attr[pa] };
    let color = span_shade(p, env.tex, env.pal, env.toon, xx);
    let alpha = color >> 24u32;
    if shadow && stencil == 0 {
        st
    } else if !pass1 && (da1 & 0xF == 0 || pa1 >= bsz) {
        st
    } else if !pass1 && !depth_test_spec(p.depth_test_mode, st.depth[pa] as i32, z, da) {
        st
    } else if alpha <= p.alpha_ref {
        st
    } else if alpha == 31 {
        plot_opaque_spec(p, part, st, pa, color, z)
    } else {
        let zz: i32 = if p.poly_attr_full & 0x800 == 0 { -1i32 } else { z };
        let st1 = plot_translucent_spec(st, p.disp_cnt, pa, color, zz, p.poly_attr, shadow);
        if da & 0xF != 0 && pa < bsz {
            plot_translucent_spec(st1, p.disp_cnt, pa + bsz, color, zz, p.poly_attr, shadow)
        } else {
            st1
        }
    }
}

/// The state after span part `part` handles columns `from..to` in order.
pub open spec fn span_run(env: SpanEnv, part: int, from: int, to: int, st: SpanState) -> SpanState
    decreases to - from,
{
    if from < to {
        span_run(env, part, from + 1, to, span_pixel_spec(env, part, from, st))
    } else {
        st
    }
}

/// First column drawn: the span start, clipped at 0.
pub open spec fn span_x0(p: SpanParams) -> int {
    if p.xstart < 0 { 0 } else { p.xstart as int }
}

/// End of the left edge part: `xstart + l_edgelen`, at most `xend + 1` and 256.
pub open spec fn span_xlimit1(p: SpanParams) -> int {
    let a = if p.xstart + p.l_edgelen > p.xend + 1 { p.xend + 1 } else { p.xstart + p.l_edgelen };
    if a > 256 { 256 } else { a }
}

/// End of the inside part: `xend - r_edgelen + 1`, at most `xend + 1` and 256.
pub open spec fn span_xlimit2(p: SpanParams) -> int {
    let a = if p.xend - p.r_edgelen + 1 > p.xend + 1 { p.xend + 1 } else { p.xend - p.r_edgelen + 1 };
    if a > 256 { 256 } else { a }
}

/// End of the right edge part: `xend + 1`, at most 256.
pub open spec fn span_xlimit3(p: SpanParams) -> int {
    if p.xend + 1 > 256 { 256 } else { p.xend + 1 }
}

/// Column after the left edge part (its end, also where it is not filled).
pub open spec fn span_x1(p: SpanParams) -> int {
    if p.l_filledge == 0 {
        span_xlimit1(p)
    } else if span_x0(p) < span_xlimit1(p) {
        span_xlimit1(p)
    } else {
        span_x0(p)
    }
}

/// Column after the inside part.
pub open spec fn span_x2(p: SpanParams) -> int {
    if span_x1(p) < span_xlimit2(p) { span_xlimit2(p) } else { span_x1(p) }
}

/// Whether the inside part draws any column (wireframe polygons skip it
/// away from their top and bottom edges).
pub open spec fn span_part2_runs(p: SpanParams) -> bool {
    !(p.wireframe != 0 && p.yedge == 0) && span_x1(p) < span_xlimit2(p)
}

/// Whether the right edge part draws any column.
pub open spec fn span_part3_runs(p: SpanParams) -> bool {
    p.r_filledge != 0 && span_x2(p) < span_xlimit3(p)
}

/// Running coverage at the start of an anti-aliased edge part.
pub open spec fn edge_xcov0(edgecov: i32) -> int {
    if edgecov < 0 && (edgecov >> 12i32) & 0x3FF != 0x3FF { ((edgecov >> 12i32) & 0x3FF) as int } else { 0 }
}

/// The buffers after the three span parts of one scanline.
pub open spec fn render_spans_spec(env: SpanEnv, st0: SpanState) -> SpanState {
    let p = env.p;
    let sta = SpanState { xcov: edge_xcov0(p.l_edgecov), ..st0 };
    let st1 = if p.l_filledge == 0 { sta } else { span_run(env, 0, span_x0(p), span_xlimit1(p), sta) };
    let st2 = if p.wireframe != 0 && p.yedge == 0 { st1 } else { span_run(env, 1, span_x1(p), span_xlimit2(p), st1) };
    let stc = SpanState { xcov: edge_xcov0(p.r_edgecov), ..st2 };
    if p.r_filledge != 0 { span_run(env, 2, span_x2(p), span_xlimit3(p), stc) } else { stc }
}

/// What a span needs: buffers of two layers of `buffer_size` pixels with
/// the scanline inside them (inside the top layer for shadow polygons,
/// which may draw to the lower one), a two-line stencil, a span length
/// `xend + 1 - xstart` that fits 32 bits, a non-negative left edge length,
/// value ranges whose differences fit 32 bits, no column left of the
/// screen drawn after an unfilled left edge, and no column whose
/// perspective division is the overflowing `i64::MIN / -1`.
pub open spec fn span_requires(p: SpanParams, color_len: int, depth_len: int, attr_len: int, stencil_len: int) -> bool {
    let bsz = p.buffer_size as int;
    let base = span_base(p);
    &&& bsz >= 0
    &&& color_len == 2 * bsz
    &&& depth_len == 2 * bsz
    &&& attr_len == 2 * bsz
    &&& stencil_len >= 512
    &&& i32::MIN <= p.y * p.scanline_width <= i32::MAX
    &&& 0 <= base <= i32::MAX
    &&& base + 256 <= 2 * bsz
    &&& (p.is_shadow != 0 ==> base + 256 <= bsz)
    &&& p.xend < i32::MAX
    &&& i32::MIN <= p.xend + 1 - p.xstart <= i32::MAX
    &&& 0 <= p.l_edgelen
    &&& p.xstart + p.l_edgelen <= i32::MAX
    &&& i32::MIN <= p.xend - p.r_edgelen < i32::MAX
    &&& i32::MIN < p.zr - p.zl <= i32::MAX
    &&& i32::MIN < p.rr - p.rl <= i32::MAX
    &&& i32::MIN < p.gr - p.gl <= i32::MAX
    &&& i32::MIN < p.br - p.bl <= i32::MAX
    &&& i32::MIN < p.sr - p.sl <= i32::MAX
    &&& i32::MIN < p.tr - p.tl <= i32::MAX
    &&& (span_x1(p) < 0 ==> !span_part2_runs(p) && !span_part3_runs(p))
    &&& forall|xx: int| span_x0(p) <= xx < span_xlimit3(p) ==> #[trigger] interp_div_ok(span_interp(p), xx)
}

/// The interpolator fields fixed by the span set-up, with no stale
/// perspective factor where none is computed.
pub open spec fn interp_ready(ip: InterpX, p: SpanParams) -> bool {
    let i0 = span_interp(p);
    &&& ip.x0 == i0.x0
    &&& ip.xdiff == i0.xdiff
    &&& ip.linear == i0.linear
    &&& ip.xrecip_z == i0.xrecip_z
    &&& ip.w0n == i0.w0n
    &&& ip.w0d == i0.w0d
    &&& ip.w1d == i0.w1d
    &&& ((ip.xdiff == 0 || ip.linear) ==> ip.yfactor == 0)
}

proof fn lemma_interp_at(p: SpanParams, ip: InterpX, xx: int)
    requires
        interp_ready(ip, p),
        p.xend < i32::MAX,
        p.xend + 1 - p.xstart <= i32::MAX,
        p.xstart <= xx <= p.xend,
        interp_div_ok(span_interp(p), xx),
    ensures
        interp_set(ip, xx as i32) == span_interp_at(p, xx),
        interp_in_span(ip, xx),
        0 <= span_interp_at(p, xx).x < span_interp_at(p, xx).xdiff,
        span_interp_at(p, xx).xrecip_z == tdiv(0x40_0000, span_interp_at(p, xx).xdiff as int),
{
    let xdiff: int = p.xend + 1 - p.xstart;
    assert(0 < xdiff <= i32::MAX);
    assert(0 <= 0x40_0000int / xdiff <= 0x40_0000) by (nonlinear_arith)
        requires 0 < xdiff;
}

/// One column of span part `part` (the body of the span loops); returns
/// the running edge coverage for the next column.
fn span_pixel(
    p: &SpanParams,
    part: u8,
    interp: &mut InterpX,
    xx: i32,
    xcov: i32,
    color: &mut [u32],
    depth: &mut [u32],
    attr: &mut [u32],
    stencil: &[u8],
    vram: &Vram,
    toon: &[u16; 32],
) -> (new_xcov: i32)
    requires
        part <= 2,
        span_requires(*p, old(color)@.len() as int, old(depth)@.len() as int, old(attr)@.len() as int, stencil@.len() as int),
        vram.wf(),
        interp_ready(*old(interp), *p),
        span_x0(*p) <= xx < span_xlimit3(*p),
        0 <= xcov <= 0x10_0000,
    ensures
        final(color)@.len() == old(color)@.len(),
        final(depth)@.len() == old(depth)@.len(),
        final(attr)@.len() == old(attr)@.len(),
        interp_ready(*final(interp), *p),
        xcov <= new_xcov <= xcov + 0x3FF,
        ({
            let st = span_pixel_spec(
                SpanEnv { p: *p, stencil: stencil@, tex: vram.tex@, pal: vram.pal@, toon: toon@ },
                part as int,
                xx as int,
                SpanState { color: old(color)@, depth: old(depth)@, attr: old(attr)@, xcov: xcov as int },
            );
            &&& final(color)@ == st.color
            &&& final(depth)@ == st.depth
            &&& final(attr)@ == st.attr
            &&& new_xcov == st.xcov
        }),
{
    let ghost env = SpanEnv { p: *p, stencil: stencil@, tex: vram.tex@, pal: vram.pal@, toon: toon@ };
    let ghost st0 = SpanState { color: color@, depth: depth@, attr: attr@, xcov: xcov as int };
    let bsz: usize = p.buffer_size as usize;
    let base: usize = (p.first_pixel_offset + p.y * p.scanline_width) as usize;
    let shadow: bool = p.is_shadow != 0;
    let mut pixeladdr: usize = base + xx as usize;
    let mut dstattr: u32 = attr[pixeladdr];
    if shadow {
        let py: i32 = p.y;
        let yodd: i32 = py & 0x1;
        proof {
            lemma_and_le_i32(py, 0x1);
        }
        let sv: u8 = stencil[256 * (yodd as usize) + xx as usize];
        if sv == 0 {
            return xcov;
        }
        if sv & 0x1 == 0 {
            pixeladdr = pixeladdr + bsz;
        }
        if sv & 0x2 == 0 {
            dstattr = dstattr & !0xFu32;
        }
    }
    proof {
        lemma_interp_at(*p, *interp, xx as int);
    }
    interp.set_x(xx);
    let z: i32 = interp.interpolate_z(p.zl, p.zr, p.wbuffer != 0);
    if !depth_test(p.depth_test_mode, depth[pixeladdr] as i32, z, dstattr) {
        if (dstattr & 0xF) == 0 || pixeladdr >= bsz {
            return xcov;
        }
        pixeladdr = pixeladdr + bsz;
        dstattr = attr[pixeladdr];
        if !depth_test(p.depth_test_mode, depth[pixeladdr] as i32, z, dstattr) {
            return xcov;
        }
    }
    let col: u32 = shade_pixel(p, interp, vram, toon, Ghost(xx as int));
    let alpha: u32 = col >> 24;
    if alpha <= p.alpha_ref {
        return xcov;
    }
    if alpha == 31 {
        plot_opaque(p, part, color, depth, attr, pixeladdr, col, z, xcov)
    } else {
        let zz: i32 = if p.poly_attr_full & 0x800 == 0 { -1 } else { z };
        proof {
            reveal(span_shade);
            let ip = span_interp_at(*p, xx as int);
            lemma_render_pixel_alpha(
                vram.tex@,
                vram.pal@,
                p.poly_attr_full,
                p.tex_param,
                p.tex_palette,
                p.disp_cnt,
                toon@,
                ((interp_value(ip, p.rl, p.rr) as u32) >> 3u32) as u8,
                ((interp_value(ip, p.gl, p.gr) as u32) >> 3u32) as u8,
                ((interp_value(ip, p.bl, p.br) as u32) >> 3u32) as u8,
                interp_value(ip, p.sl, p.sr) as i16,
                interp_value(ip, p.tl, p.tr) as i16,
            );
        }
        plot_translucent_pixel(color, depth, attr, p.disp_cnt, pixeladdr, col, zz, p.poly_attr, shadow, Ghost(xcov as int));
        if (dstattr & 0xF) != 0 && pixeladdr < bsz {
            plot_translucent_pixel(
                color,
                depth,
                attr,
                p.disp_cnt,
                pixeladdr + bsz,
                col,
                zz,
                p.poly_attr,
                shadow,
                Ghost(xcov as int),
            );
        }
        xcov
    }
}

/// Span part `part` over columns `from..to`; returns the running edge
/// coverage after it.
fn span_part(
    p: &SpanParams,
    part: u8,
    from: i32,
    to: i32,
    interp: &mut InterpX,
    xcov: i32,
    color: &mut [u32],
    depth: &mut [u32],
    attr: &mut [u32],
    stencil: &[u8],
    vram: &Vram,
    toon: &[u16; 32],
) -> (new_xcov: i32)
    requires
        part <= 2,
        span_requires(*p, old(color)@.len() as int, old(depth)@.len() as int, old(attr)@.len() as int, stencil@.len() as int),
        vram.wf(),
        interp_ready(*old(interp), *p),
        from < to ==> span_x0(*p) <= from,
        to <= span_xlimit3(*p),
        0 <= xcov,
        from < to ==> xcov <= 0x3FF * (from + 1),
    ensures
        final(color)@.len() == old(color)@.len(),
        final(depth)@.len() == old(depth)@.len(),
        final(attr)@.len() == old(attr)@.len(),
        interp_ready(*final(interp), *p),
        ({
            let st = span_run(
                SpanEnv { p: *p, stencil: stencil@, tex: vram.tex@, pal: vram.pal@, toon: toon@ },
                part as int,
                from as int,
                to as int,
                SpanState { color: old(color)@, depth: old(depth)@, attr: old(attr)@, xcov: xcov as int },
            );
            &&& final(color)@ == st.color
            &&& final(depth)@ == st.depth
            &&& final(attr)@ == st.attr
            &&& new_xcov == st.xcov
        }),
        from >= to ==> new_xcov == xcov,
        from < to ==> 0 <= new_xcov <= 0x3FF * (to + 1),
{
    let ghost env = SpanEnv { p: *p, stencil: stencil@, tex: vram.tex@, pal: vram.pal@, toon: toon@ };
    let ghost target = span_run(
        env,
        part as int,
        from as int,
        to as int,
        SpanState { color: color@, depth: depth@, attr: attr@, xcov: xcov as int },
    );
    let mut x: i32 = from;
    let mut xc: i32 = xcov;
    while x < to
        invariant
            part <= 2,
            span_requires(*p, color@.len() as int, depth@.len() as int, attr@.len() as int, stencil@.len() as int),
            vram.wf(),
            interp_ready(*interp, *p),
            from <= x,
            from < to ==> x <= to,
            x < to ==> span_x0(*p) <= x,
            to <= span_xlimit3(*p),
            0 <= xc,
            from >= to ==> xc == xcov,
            from < to ==> xc <= 0x3FF * (x + 1),
            env == (SpanEnv { p: *p, stencil: stencil@, tex: vram.tex@, pal: vram.pal@, toon: toon@ }),
            span_run(env, part as int, x as int, to as int, SpanState { color: color@, depth: depth@, attr: attr@, xcov: xc as int })
                == target,
        decreases to - x,
    {
        let ghost cur = SpanState { color: color@, depth: depth@, attr: attr@, xcov: xc as int };
        let nx: i32 = span_pixel(p, part, interp, x, xc, color, depth, attr, stencil, vram, toon);
        assert(span_run(env, part as int, x as int, to as int, cur) == span_run(
            env,
            part as int,
            x + 1,
            to as int,
            span_pixel_spec(env, part as int, x as int, cur),
        ));
        assert((SpanState { color: color@, depth: depth@, attr: attr@, xcov: nx as int }) == span_pixel_spec(
            env,
            part as int,
            x as int,
            cur,
        ));
        xc = nx;
        x = x + 1;
    }
    xc
}

/// Draws the three parts of one polygon span: the left edge, the inside and the right
/// edge, each shading and plotting its columns in order.
pub fn melonink_render_spans(
    p: &SpanParams,
    color: &mut [u32],
    depth: &mut [u32],
    attr: &mut [u32],
    stencil: &[u8],
    vram: &Vram,
    toon: &[u16; 32],
)
    requires
        span_requires(*p, old(color)@.len() as int, old(depth)@.len() as int, old(attr)@.len() as int, stencil@.len() as int),
        vram.wf(),
    ensures
        ({
            let st = render_spans_spec(
                SpanEnv { p: *p, stencil: stencil@, tex: vram.tex@, pal: vram.pal@, toon: toon@ },
                SpanState { color: old(color)@, depth: old(depth)@, attr: old(attr)@, xcov: 0 },
            );
            &&& final(color)@ == st.color
            &&& final(depth)@ == st.depth
            &&& final(attr)@ == st.attr
        }),
{
    let mut interp: InterpX = InterpX::new(p.xstart, p.xend + 1, p.wl, p.wr);
    let mut x: i32 = p.xstart;
    if x < 0 {
        x = 0;
    }
    // part 1: left edge
    let mut xlimit: i32 = p.xstart + p.l_edgelen;
    if xlimit > p.xend + 1 {
        xlimit = p.xend + 1;
    }
    if xlimit > 256 {
        xlimit = 256;
    }
    let mut xcov: i32 = 0;
    if p.l_edgecov < 0 {
        let lc: i32 = p.l_edgecov;
        xcov = (lc >> 12) & 0x3FF;
        proof {
            lemma_and_le_i32(lc >> 12i32, 0x3FF);
        }
        if xcov == 0x3FF {
            xcov = 0;
        }
    }
    if p.l_filledge == 0 {
        x = xlimit;
    } else {
        xcov = span_part(p, 0, x, xlimit, &mut interp, xcov, color, depth, attr, stencil, vram, toon);
        if x < xlimit {
            x = xlimit;
        }
    }
    // part 2: polygon inside
    xlimit = p.xend - p.r_edgelen + 1;
    if xlimit > p.xend + 1 {
        xlimit = p.xend + 1;
    }
    if xlimit > 256 {
        xlimit = 256;
    }
    if p.wireframe != 0 && p.yedge == 0 {
        if x < xlimit {
            x = xlimit;
        }
    } else {
        xcov = span_part(p, 1, x, xlimit, &mut interp, xcov, color, depth, attr, stencil, vram, toon);
        if x < xlimit {
            x = xlimit;
        }
    }
    // part 3: right edge
    xlimit = p.xend + 1;
    if xlimit > 256 {
        xlimit = 256;
    }
    xcov = 0;
    if p.r_edgecov < 0 {
        let rc: i32 = p.r_edgecov;
        xcov = (rc >> 12) & 0x3FF;
        proof {
            lemma_and_le_i32(rc >> 12i32, 0x3FF);
        }
        if xcov == 0x3FF {
            xcov = 0;
        }
    }
    if p.r_filledge != 0 {
        span_part(p, 2, x, xlimit, &mut interp, xcov, color, depth, attr, stencil, vram, toon);
    }
}

/// Whether buffer index `j` is a pixel of column `x` (top or lower layer).
pub open spec fn column_pixel(p: SpanParams, x: int, j: int) -> bool {
    j == span_base(p) + x || j == span_base(p) + x + p.buffer_size
}

/// One column changes only its own two pixels (and never a buffer's length).
proof fn lemma_pixel_locality(env: SpanEnv, part: int, x: int, st: SpanState, j: int)
    requires
        span_requires(env.p, st.color.len() as int, st.depth.len() as int, st.attr.len() as int, env.stencil.len() as int),
        0 <= x < 256,
        0 <= j < st.color.len(),
        !column_pixel(env.p, x, j),
    ensures
        span_pixel_spec(env, part, x, st).color.len() == st.color.len(),
        span_pixel_spec(env, part, x, st).depth.len() == st.depth.len(),
        span_pixel_spec(env, part, x, st).attr.len() == st.attr.len(),
        span_pixel_spec(env, part, x, st).color[j] == st.color[j],
        span_pixel_spec(env, part, x, st).depth[j] == st.depth[j],
        span_pixel_spec(env, part, x, st).attr[j] == st.attr[j],
{
}

/// A span part changes no pixel outside the columns it covers, in either
/// layer, and no buffer's length.
pub proof fn lemma_span_run_locality(env: SpanEnv, part: int, from: int, to: int, st: SpanState, j: int)
    requires
        span_requires(env.p, st.color.len() as int, st.depth.len() as int, st.attr.len() as int, env.stencil.len() as int),
        from < to ==> 0 <= from,
        to <= 256,
        0 <= j < st.color.len(),
        forall|x: int| from <= x < to ==> !#[trigger] column_pixel(env.p, x, j),
    ensures
        span_run(env, part, from, to, st).color.len() == st.color.len(),
        span_run(env, part, from, to, st).depth.len() == st.depth.len(),
        span_run(env, part, from, to, st).attr.len() == st.attr.len(),
        span_run(env, part, from, to, st).color[j] == st.color[j],
        span_run(env, part, from, to, st).depth[j] == st.depth[j],
        span_run(env, part, from, to, st).attr[j] == st.attr[j],
    decreases to - from,
{
    if from < to {
        assert(!column_pixel(env.p, from, j));
        lemma_pixel_locality(env, part, from, st, j);
        lemma_span_run_locality(env, part, from + 1, to, span_pixel_spec(env, part, from, st), j);
    }
}

/// Drawing a span changes no pixel outside the span's on-screen columns
/// `span_x0 .. span_xlimit3`, in either layer.
pub proof fn lemma_render_spans_locality(env: SpanEnv, st0: SpanState, j: int)
    requires
        span_requires(env.p, st0.color.len() as int, st0.depth.len() as int, st0.attr.len() as int, env.stencil.len() as int),
        0 <= j < st0.color.len(),
        forall|x: int| span_x0(env.p) <= x < span_xlimit3(env.p) ==> !#[trigger] column_pixel(env.p, x, j),
    ensures
        render_spans_spec(env, st0).color[j] == st0.color[j],
        render_spans_spec(env, st0).depth[j] == st0.depth[j],
        render_spans_spec(env, st0).attr[j] == st0.attr[j],
{
    let p = env.p;
    let sta = SpanState { xcov: edge_xcov0(p.l_edgecov), ..st0 };
    let st1 = if p.l_filledge == 0 { sta } else { span_run(env, 0, span_x0(p), span_xlimit1(p), sta) };
    if p.l_filledge != 0 {
        assert forall|x: int| span_x0(p) <= x < span_xlimit1(p) implies !#[trigger] column_pixel(p, x, j) by {
            assert(column_pixel(p, x, j) == column_pixel(p, x, j));
            assert(x < span_xlimit3(p));
        }
        lemma_span_run_locality(env, 0, span_x0(p), span_xlimit1(p), sta, j);
    }
    let st2 = if p.wireframe != 0 && p.yedge == 0 { st1 } else { span_run(env, 1, span_x1(p), span_xlimit2(p), st1) };
    if !(p.wireframe != 0 && p.yedge == 0) {
        assert forall|x: int| span_x1(p) <= x < span_xlimit2(p) implies !#[trigger] column_pixel(p, x, j) by {
            assert(span_x0(p) <= x < span_xlimit3(p));
        }
        lemma_span_run_locality(env, 1, span_x1(p), span_xlimit2(p), st1, j);
    }
    let stc = SpanState { xcov: edge_xcov0(p.r_edgecov), ..st2 };
    if p.r_filledge != 0 {
        assert forall|x: int| span_x2(p) <= x < span_xlimit3(p) implies !#[trigger] column_pixel(p, x, j) by {
            assert(span_x0(p) <= x < span_xlimit3(p));
        }
        lemma_span_run_locality(env, 2, span_x2(p), span_xlimit3(p), stc, j);
    }
}

/// Linear interpolation inside the span stays between the two end values.
pub proof fn lemma_interp_linear_between(ip: InterpX, y0: i32, y1: i32)
    requires
        ip.linear,
        0 <= ip.x < ip.xdiff,
        i32::MIN < y1 - y0 <= i32::MAX,
    ensures
        y0 <= y1 ==> y0 <= interp_value(ip, y0, y1) <= y1,
        y1 <= y0 ==> y1 <= interp_value(ip, y0, y1) <= y0,
{
    if y0 < y1 {
        let q = (y1 - y0) * ip.x / (ip.xdiff as int);
        assert(0 <= q <= y1 - y0) by (nonlinear_arith)
            requires
                q == (y1 - y0) * ip.x / (ip.xdiff as int),
                y0 < y1,
                0 <= ip.x < ip.xdiff,
        ;
    } else if y1 < y0 {
        let q = (y0 - y1) * (ip.xdiff - ip.x) / (ip.xdiff as int);
        assert(0 <= q <= y0 - y1) by (nonlinear_arith)
            requires
                q == (y0 - y1) * (ip.xdiff - ip.x) / (ip.xdiff as int),
                y1 < y0,
                0 <= ip.x < ip.xdiff,
        ;
    }
}

/// On a linearly interpolated span whose end colours are 9-bit, every
/// column's red component is a 6-bit value.
pub proof fn lemma_span_vr_linear(p: SpanParams, xx: int)
    requires
        interp_linear(p.wl, p.wr),
        p.xend < i32::MAX,
        p.xend + 1 - p.xstart <= i32::MAX,
        p.xstart <= xx <= p.xend,
        0 <= p.rl < 512,
        0 <= p.rr < 512,
    ensures
        span_vr(p, xx) < 64,
{
    let ip = span_interp_at(p, xx);
    lemma_interp_linear_between(ip, p.rl, p.rr);
    let v = interp_value(ip, p.rl, p.rr);
    assert(0 <= v < 512);
    assert((v as u32) >> 3u32 < 64) by {
        lemma_shr_u32(v as u32, 3);
    }
}

/// Whether `b - a` and `a - b` both fit 32 bits.
fn diff_fits(a: i32, b: i32) -> (res: bool)
    ensures
        res == (i32::MIN < b - a <= i32::MAX),
{
    let d: i64 = (b as i64) - (a as i64);
    (i32::MIN as i64) < d && d <= (i32::MAX as i64)
}

/// Whether a span's inputs meet `span_requires` (what drawing it needs),
/// decided on the parameters and the buffer lengths.
pub fn check_span(p: &SpanParams, color_len: usize, depth_len: usize, attr_len: usize, stencil_len: usize) -> (res: bool)
    ensures
        res == span_requires(*p, color_len as int, depth_len as int, attr_len as int, stencil_len as int),
{
    let bsz: i64 = p.buffer_size as i64;
    if bsz < 0 {
        return false;
    }
    let b2: usize = (2 * bsz) as usize;
    if !(color_len == b2 && depth_len == b2 && attr_len == b2 && stencil_len >= 512) {
        return false;
    }
    let y: i64 = p.y as i64;
    let sw: i64 = p.scanline_width as i64;
    assert(-0x4000_0000_0000_0000 <= y * sw <= 0x4000_0000_0000_0000) by (nonlinear_arith)
        requires
            -0x8000_0000 <= y <= 0x7FFF_FFFF,
            -0x8000_0000 <= sw <= 0x7FFF_FFFF,
    ;
    let prod: i64 = y * sw;
    let base: i64 = (p.first_pixel_offset as i64) + prod;
    if !((i32::MIN as i64) <= prod && prod <= (i32::MAX as i64) && 0 <= base && base <= (i32::MAX as i64)
        && base + 256 <= 2 * bsz && (p.is_shadow == 0 || base + 256 <= bsz)) {
        return false;
    }
    if !(p.xend < i32::MAX && (i32::MIN as i64) <= (p.xend as i64) + 1 - (p.xstart as i64)
        && (p.xend as i64) + 1 - (p.xstart as i64) <= (i32::MAX as i64)
        && 0 <= p.l_edgelen && (p.xstart as i64) + (p.l_edgelen as i64) <= (i32::MAX as i64) && (i32::MIN as i64)
        <= (p.xend as i64) - (p.r_edgelen as i64) && (p.xend as i64) - (p.r_edgelen as i64) < (i32::MAX as i64)) {
        return false;
    }
    if !(diff_fits(p.zl, p.zr) && diff_fits(p.rl, p.rr) && diff_fits(p.gl, p.gr) && diff_fits(p.bl, p.br)
        && diff_fits(p.sl, p.sr) && diff_fits(p.tl, p.tr)) {
        return false;
    }
    let xend1: i32 = p.xend + 1;
    let x0: i32 = if p.xstart < 0 { 0 } else { p.xstart };
    let a1: i32 = if p.xstart + p.l_edgelen > xend1 { xend1 } else { p.xstart + p.l_edgelen };
    let xl1: i32 = if a1 > 256 { 256 } else { a1 };
    let r2: i32 = p.xend - p.r_edgelen + 1;
    let a2: i32 = if r2 > xend1 { xend1 } else { r2 };
    let xl2: i32 = if a2 > 256 { 256 } else { a2 };
    let xl3: i32 = if xend1 > 256 { 256 } else { xend1 };
    let x1: i32 = if p.l_filledge == 0 { xl1 } else if x0 < xl1 { xl1 } else { x0 };
    let x2: i32 = if x1 < xl2 { xl2 } else { x1 };
    let part2: bool = !(p.wireframe != 0 && p.yedge == 0) && x1 < xl2;
    let part3: bool = p.r_filledge != 0 && x2 < xl3;
    assert(x0 == span_x0(*p) && xl1 == span_xlimit1(*p) && xl2 == span_xlimit2(*p) && xl3 == span_xlimit3(*p));
    assert(x1 == span_x1(*p) && x2 == span_x2(*p));
    assert(part2 == span_part2_runs(*p) && part3 == span_part3_runs(*p));
    if x1 < 0 && (part2 || part3) {
        return false;
    }
    let ip: InterpX = InterpX::new(p.xstart, xend1, p.wl, p.wr);
    if ip.xdiff == 0 || ip.linear {
        return true;
    }
    let mut x: i32 = x0;
    while x < xl3
        invariant
            x0 == span_x0(*p),
            xl3 == span_xlimit3(*p),
            x0 <= x,
            x0 < xl3 ==> x <= xl3,
            ip == span_interp(*p),
            ip.xdiff != 0 && !ip.linear,
            ip.xdiff == p.xend + 1 - p.xstart,
            p.xstart <= x0,
            xl3 <= p.xend + 1,
            i32::MIN <= p.xend + 1 - p.xstart <= i32::MAX,
            forall|xx: int| x0 <= xx < x ==> #[trigger] interp_div_ok(ip, xx),
        decreases xl3 - x,
    {
        let xo: i32 = x - p.xstart;
        assert(-0x8000_0000 * 0x8000_0000 <= (xo as int) * (ip.w0n as int) <= 0x8000_0000 * 0x8000_0000)
            by (nonlinear_arith)
            requires 0 <= xo < 0x8000_0000, i32::MIN <= ip.w0n <= i32::MAX;
        let num: i64 = ((xo as i64) * (ip.w0n as i64)).wrapping_mul(256);
        let den: i32 = xo.wrapping_mul(ip.w0d).wrapping_add((ip.xdiff - xo).wrapping_mul(ip.w1d));
        assert(num == interp_num(ip, xo) && den == interp_den(ip, xo));
        if num == i64::MIN && den == -1 {
            assert(!interp_div_ok(ip, x as int));
            return false;
        }
        x = x + 1;
    }
    true
}

} // verus!
