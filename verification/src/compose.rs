//! The small 2D composition kernels: sprite interleaving into the layer
//! line, the 3D background layer, display capture and the horizontal sprite
//! mosaic.

use vstd::prelude::*;
use crate::arith::{lemma_and_le_u32, lemma_shr_u32, lemma_low_mask_u32};
use crate::line::{
    expand_spec, expand_color, push_line, writes_upto, draw_pixel, lemma_push_step,
    lemma_push_none, lemma_push_all,
};

verus! {

/// Scalar parameters of sprite interleaving.
pub struct InterleaveParams {
    /// Priority (bits 16..18 of an OBJ-line entry) being interleaved.
    pub prio: u32,
    /// Whether 256-colour sprites use the extended palettes.
    pub use_extpal: u8,
    /// Whether the 3D-accelerated three-layer line layout is in use.
    pub accel: u8,
}

/// The BGR555 colour of an OBJ-line entry: direct colour (bit 15), the
/// extended palette, or the standard palette.
pub open spec fn sprite_color(pixel: u32, use_extpal: bool, pal: Seq<u16>, extpal: Seq<u16>) -> u16 {
    if pixel & 0x8000 != 0 {
        (pixel & 0x7FFF) as u16
    } else if use_extpal && pixel & 0x1000 == 0 {
        extpal[(pixel & 0xFFF) as int]
    } else {
        pal[(pixel & 0xFF) as int]
    }
}

/// The pixels sprite interleaving draws: the OBJ-line entries of priority
/// `prio` in columns where the window enables sprites (mask bit 4).
pub open spec fn interleave_writes(
    p: InterleaveParams,
    obj: Seq<u32>,
    pal: Seq<u16>,
    extpal: Seq<u16>,
    wmask: Seq<u8>,
) -> Seq<Option<u32>> {
    Seq::new(
        256,
        |i: int|
            if obj[i] & 0x70000 == p.prio && wmask[i] & 0x10 != 0 {
                Some(
                    expand_spec(
                        sprite_color(obj[i], p.use_extpal != 0, pal, extpal),
                        obj[i] & 0xFF000000,
                    ),
                )
            } else {
                None
            },
    )
}

/// Sprite interleaving: draws the sprites of one priority into the
/// layer line.
pub fn melonink_interleave_sprites(
    p: &InterleaveParams,
    obj_line: &[u32],
    pal: &[u16],
    extpal: &[u16],
    window_mask: &[u8],
    bgobj_line: &mut [u32],
)
    requires
        obj_line@.len() >= 256,
        window_mask@.len() >= 256,
        pal@.len() >= 256,
        extpal@.len() >= 4096,
        old(bgobj_line)@.len() >= 768,
    ensures
        final(bgobj_line)@ == push_line(
            old(bgobj_line)@,
            interleave_writes(*p, obj_line@, pal@, extpal@, window_mask@),
            p.accel != 0,
        ),
{
    let ghost orig = bgobj_line@;
    let ghost w = interleave_writes(*p, obj_line@, pal@, extpal@, window_mask@);
    let accel: bool = p.accel != 0;
    let use_extpal: bool = p.use_extpal != 0;
    proof {
        lemma_push_none(orig, w, accel);
    }
    let mut i: usize = 0;
    while i < 256
        invariant
            i <= 256,
            orig.len() >= 768,
            w == interleave_writes(*p, obj_line@, pal@, extpal@, window_mask@),
            accel == (p.accel != 0),
            use_extpal == (p.use_extpal != 0),
            obj_line@.len() >= 256,
            window_mask@.len() >= 256,
            pal@.len() >= 256,
            extpal@.len() >= 4096,
            bgobj_line@ == push_line(orig, writes_upto(w, i as int), accel),
        decreases 256 - i,
    {
        proof {
            lemma_push_step(orig, bgobj_line@, w, accel, i as int);
        }
        let pixel: u32 = obj_line[i];
        if (pixel & 0x70000) == p.prio && (window_mask[i] & 0x10) != 0 {
            assert(pixel & 0xFF <= 0xFF && pixel & 0xFFF <= 0xFFF) by {
                lemma_and_le_u32(pixel, 0xFF);
                lemma_and_le_u32(pixel, 0xFFF);
            }
            let color: u16 = if pixel & 0x8000 != 0 {
                (pixel & 0x7FFF) as u16
            } else if use_extpal {
                if pixel & 0x1000 != 0 {
                    pal[(pixel & 0xFF) as usize]
                } else {
                    extpal[(pixel & 0xFFF) as usize]
                }
            } else {
                pal[(pixel & 0xFF) as usize]
            };
            let px: u32 = expand_color(color, pixel & 0xFF000000);
            draw_pixel(bgobj_line, i, px, accel);
        }
        i = i + 1;
    }
    proof {
        lemma_push_all(orig, w, accel);
    }
}

/// The pixels the 3D background layer draws: the placeholder 0x40000000 wherever the
/// window enables the 3D layer (accelerated layout), or the 3D line's
/// non-transparent pixels tagged as layer 0.
pub open spec fn bg3d_writes(threed: Seq<u32>, wmask: Seq<u8>, accelerated: bool) -> Seq<
    Option<u32>,
> {
    Seq::new(
        256,
        |i: int|
            if accelerated {
                if wmask[i] & 0x01 != 0 {
                    Some(0x40000000u32)
                } else {
                    None
                }
            } else if threed[i] >> 24u32 != 0 && wmask[i] & 0x01 != 0 {
                Some(threed[i] | 0x40000000)
            } else {
                None
            },
    )
}

/// The 3D background layer: draws the 3D layer into the layer line.
pub fn melonink_drawbg_3d(
    bgobj_line: &mut [u32],
    threed_line: &[u32],
    window_mask: &[u8],
    accelerated: u8,
)
    requires
        old(bgobj_line)@.len() >= 768,
        threed_line@.len() >= 256,
        window_mask@.len() >= 256,
    ensures
        final(bgobj_line)@ == push_line(
            old(bgobj_line)@,
            bg3d_writes(threed_line@, window_mask@, accelerated != 0),
            accelerated != 0,
        ),
{
    let ghost orig = bgobj_line@;
    let accel: bool = accelerated != 0;
    let ghost w = bg3d_writes(threed_line@, window_mask@, accel);
    proof {
        lemma_push_none(orig, w, accel);
    }
    let mut i: usize = 0;
    while i < 256
        invariant
            i <= 256,
            orig.len() >= 768,
            accel == (accelerated != 0),
            w == bg3d_writes(threed_line@, window_mask@, accel),
            threed_line@.len() >= 256,
            window_mask@.len() >= 256,
            bgobj_line@ == push_line(orig, writes_upto(w, i as int), accel),
        decreases 256 - i,
    {
        proof {
            lemma_push_step(orig, bgobj_line@, w, accel, i as int);
        }
        if accel {
            if window_mask[i] & 0x01 != 0 {
                draw_pixel(bgobj_line, i, 0x40000000, true);
            }
        } else {
            let c: u32 = threed_line[i];
            if (c >> 24) != 0 && window_mask[i] & 0x01 != 0 {
                draw_pixel(bgobj_line, i, c | 0x40000000, false);
            }
        }
        i = i + 1;
    }
    proof {
        lemma_push_all(orig, w, accel);
    }
}

/// The horizontal sprite mosaic: a column inside a mosaic block (table
/// entry non-zero) repeats the column to its left when both belong to
/// mosaic sprites (bit 20); other columns keep their own value.
pub open spec fn mosaic_out(obj: Seq<u32>, table: Seq<u8>, i: int) -> u32
    decreases i,
{
    if i <= 0 {
        obj[0]
    } else {
        let prev = mosaic_out(obj, table, i - 1);
        if prev & obj[i] & 0x100000 == 0 || table[i] == 0 {
            obj[i]
        } else {
            prev
        }
    }
}

/// The horizontal sprite mosaic over one OBJ line.
pub fn melonink_apply_sprite_mosaic_x(obj_line: &mut [u32], mosaic_table: &[u8])
    requires
        old(obj_line)@.len() >= 256,
        mosaic_table@.len() >= 256,
    ensures
        final(obj_line)@.len() == old(obj_line)@.len(),
        forall|i: int|
            0 <= i < 256 ==> #[trigger] final(obj_line)@[i] == mosaic_out(
                old(obj_line)@,
                mosaic_table@,
                i,
            ),
        forall|i: int| 256 <= i < old(obj_line)@.len() ==> #[trigger] final(obj_line)@[i] == old(
            obj_line,
        )@[i],
{
    let ghost orig = obj_line@;
    let mut lastcolor: u32 = obj_line[0];
    let mut i: usize = 1;
    while i < 256
        invariant
            1 <= i <= 256,
            orig.len() >= 256,
            mosaic_table@.len() >= 256,
            obj_line@.len() == orig.len(),
            lastcolor == mosaic_out(orig, mosaic_table@, i - 1),
            forall|j: int| 0 <= j < i ==> #[trigger] obj_line@[j] == mosaic_out(orig, mosaic_table@, j),
            forall|j: int| i <= j < orig.len() ==> #[trigger] obj_line@[j] == orig[j],
        decreases 256 - i,
    {
        let currentcolor: u32 = obj_line[i];
        if (lastcolor & currentcolor & 0x100000) == 0 || mosaic_table[i] == 0 {
            lastcolor = currentcolor;
        } else {
            obj_line[i] = lastcolor;
        }
        i = i + 1;
    }
}

/// Scalar parameters of display capture.
pub struct CaptureParams {
    /// First destination halfword (inside the 64 Ki-halfword VRAM block).
    pub dstaddr: u32,
    /// First source-B halfword.
    pub src_baddr: u32,
    /// Number of pixels captured.
    pub width: u32,
    /// Capture source: 0 = A, 1 = B, 2 and 3 = A blended with B.
    pub mode: u32,
    pub eva: u32,
    pub evb: u32,
    /// Whether source B is present (otherwise it reads as zero / absent).
    pub has_srcb: u8,
}

/// Source-A pixel (6-bit channels, alpha in the top byte) converted to the
/// capture's BGR555 with the alpha bit set when the pixel is not transparent.
pub open spec fn capture_a(val: u32) -> u16 {
    let r = (val >> 1u32) & 0x1F;
    let g = (val >> 9u32) & 0x1F;
    let b = (val >> 17u32) & 0x1F;
    let a: u32 = if val >> 24u32 != 0 { 0x8000 } else { 0 };
    (r | (g << 5u32) | (b << 10u32) | a) as u16
}

/// Source A blended with source-B halfword `valb` by `eva`/`evb` (16ths),
/// each channel saturated at 0x1F; a source contributes only where its
/// alpha is set.
pub open spec fn capture_ab(val: u32, valb: u16, eva: u32, evb: u32) -> u16 {
    let r_a = (val >> 1u32) & 0x1F;
    let g_a = (val >> 9u32) & 0x1F;
    let b_a = (val >> 17u32) & 0x1F;
    let a_a: u32 = if val >> 24u32 != 0 { 1 } else { 0 };
    let vb = valb as u32;
    let r_b = vb & 0x1F;
    let g_b = (vb >> 5u32) & 0x1F;
    let b_b = (vb >> 10u32) & 0x1F;
    let a_b = vb >> 15u32;
    let r_d = (r_a * a_a * eva + r_b * a_b * evb + 8) / 16;
    let g_d = (g_a * a_a * eva + g_b * a_b * evb + 8) / 16;
    let b_d = (b_a * a_a * eva + b_b * a_b * evb + 8) / 16;
    let a_d: u32 = (if eva > 0 { a_a } else { 0 }) | (if evb > 0 { a_b } else { 0 });
    let r: u32 = if r_d > 0x1F { 0x1F } else { r_d as u32 };
    let g: u32 = if g_d > 0x1F { 0x1F } else { g_d as u32 };
    let b: u32 = if b_d > 0x1F { 0x1F } else { b_d as u32 };
    (r | (g << 5u32) | (b << 10u32) | (a_d << 15u32)) as u16
}

/// Source A scaled by `eva` (16ths) with no source B; channels are not
/// saturated, so an overflowing channel carries into the next field.
pub open spec fn capture_a_only(val: u32, eva: u32) -> u16 {
    let r_a = (val >> 1u32) & 0x1F;
    let g_a = (val >> 9u32) & 0x1F;
    let b_a = (val >> 17u32) & 0x1F;
    let a_a: u32 = if val >> 24u32 != 0 { 1 } else { 0 };
    let r_d: u32 = ((r_a * a_a * eva + 8) / 16) as u32;
    let g_d: u32 = ((g_a * a_a * eva + 8) / 16) as u32;
    let b_d: u32 = ((b_a * a_a * eva + 8) / 16) as u32;
    let a_d: u32 = if eva > 0 { a_a } else { 0 };
    (r_d | (g_d << 5u32) | (b_d << 10u32) | (a_d << 15u32)) as u16
}

/// The halfword captured for pixel `i`.
pub open spec fn capture_val(p: CaptureParams, src_a: Seq<u32>, src_b: Seq<u16>, i: int) -> u16 {
    let baddr = (p.src_baddr + i) % 0x10000;
    if p.mode == 0 {
        capture_a(src_a[i])
    } else if p.mode == 1 {
        if p.has_srcb != 0 { src_b[baddr] } else { 0 }
    } else if p.has_srcb != 0 {
        capture_ab(src_a[i], src_b[baddr], p.eva, p.evb)
    } else {
        capture_a_only(src_a[i], p.eva)
    }
}

/// Destination VRAM after capturing the first `n` pixels, written in order
/// at consecutive addresses that wrap at 0x10000.
pub open spec fn captured(dst: Seq<u16>, p: CaptureParams, src_a: Seq<u32>, src_b: Seq<u16>, n: int) -> Seq<
    u16,
>
    decreases n,
{
    if n <= 0 {
        dst
    } else {
        captured(dst, p, src_a, src_b, n - 1).update(
            (p.dstaddr + n - 1) % 0x10000,
            capture_val(p, src_a, src_b, n - 1),
        )
    }
}

/// What display capture needs of its inputs: in-range start addresses, a
/// source-A line as long as the capture, and blend weights whose products
/// stay within 32 bits.
pub open spec fn capture_requires(p: CaptureParams, dst_len: int, src_a_len: int, src_b_len: int) -> bool {
    &&& dst_len >= 0x10000
    &&& p.dstaddr < 0x10000
    &&& (p.mode != 1 && p.mode != 0 ==> src_a_len >= p.width) && (p.mode == 0 ==> src_a_len
        >= p.width)
    &&& (p.has_srcb != 0 && p.mode != 0 ==> src_b_len >= 0x10000 && p.src_baddr < 0x10000)
    &&& (p.mode >= 2 ==> 31 * p.eva + 31 * p.evb + 8 <= u32::MAX)
}

/// One captured pixel (exec form of `capture_val`).
fn capture_pixel(p: &CaptureParams, src_a: &[u32], src_b: &[u16], i: usize, baddr: u32) -> (res: u16)
    requires
        p.mode == 0 || (p.mode >= 2 && p.has_srcb == 0) ==> i < src_a@.len(),
        p.mode >= 2 ==> i < src_a@.len() && 31 * p.eva + 31 * p.evb + 8 <= u32::MAX,
        p.has_srcb != 0 && p.mode != 0 ==> baddr < src_b@.len() && baddr == (p.src_baddr + i)
            % 0x10000,
    ensures
        res == capture_val(*p, src_a@, src_b@, i as int),
{
    let eva: u32 = p.eva;
    let evb: u32 = p.evb;
    if p.mode == 0 {
        // source A
        let val: u32 = src_a[i];
        let r: u32 = (val >> 1) & 0x1F;
        let g: u32 = (val >> 9) & 0x1F;
        let b: u32 = (val >> 17) & 0x1F;
        let a: u32 = if (val >> 24) != 0 { 0x8000 } else { 0 };
        (r | (g << 5) | (b << 10) | a) as u16
    } else if p.mode == 1 {
        // source B
        if p.has_srcb != 0 { src_b[baddr as usize] } else { 0 }
    } else if p.has_srcb != 0 {
        // sources A+B
        let val: u32 = src_a[i];
        let r_a: u32 = (val >> 1) & 0x1F;
        let g_a: u32 = (val >> 9) & 0x1F;
        let b_a: u32 = (val >> 17) & 0x1F;
        let a_a: u32 = if (val >> 24) != 0 { 1 } else { 0 };
        let valb: u32 = src_b[baddr as usize] as u32;
        let r_b: u32 = valb & 0x1F;
        let g_b: u32 = (valb >> 5) & 0x1F;
        let b_b: u32 = (valb >> 10) & 0x1F;
        let a_b: u32 = valb >> 15;
        assert(r_a <= 31 && g_a <= 31 && b_a <= 31 && r_b <= 31 && g_b <= 31 && b_b <= 31 && a_b <= 1)
            by {
            lemma_and_le_u32(val >> 1u32, 0x1F);
            lemma_and_le_u32(val >> 9u32, 0x1F);
            lemma_and_le_u32(val >> 17u32, 0x1F);
            lemma_and_le_u32(valb, 0x1F);
            lemma_and_le_u32(valb >> 5u32, 0x1F);
            lemma_and_le_u32(valb >> 10u32, 0x1F);
            lemma_shr_u32(valb, 15);
        }
        let pr_a: u32 = mul3(r_a, a_a, eva);
        let pg_a: u32 = mul3(g_a, a_a, eva);
        let pb_a: u32 = mul3(b_a, a_a, eva);
        let pr_b: u32 = mul3(r_b, a_b, evb);
        let pg_b: u32 = mul3(g_b, a_b, evb);
        let pb_b: u32 = mul3(b_b, a_b, evb);
        let mut r_d: u32 = (pr_a + pr_b + 8) >> 4;
        let mut g_d: u32 = (pg_a + pg_b + 8) >> 4;
        let mut b_d: u32 = (pb_a + pb_b + 8) >> 4;
        let a_d: u32 = (if eva > 0 { a_a } else { 0 }) | (if evb > 0 { a_b } else { 0 });
        proof {
            lemma_shr4_div((pr_a + pr_b + 8) as u32);
            lemma_shr4_div((pg_a + pg_b + 8) as u32);
            lemma_shr4_div((pb_a + pb_b + 8) as u32);
        }
        if r_d > 0x1F {
            r_d = 0x1F;
        }
        if g_d > 0x1F {
            g_d = 0x1F;
        }
        if b_d > 0x1F {
            b_d = 0x1F;
        }
        (r_d | (g_d << 5) | (b_d << 10) | (a_d << 15)) as u16
    } else {
        let val: u32 = src_a[i];
        let r_a: u32 = (val >> 1) & 0x1F;
        let g_a: u32 = (val >> 9) & 0x1F;
        let b_a: u32 = (val >> 17) & 0x1F;
        let a_a: u32 = if (val >> 24) != 0 { 1 } else { 0 };
        assert(r_a <= 31 && g_a <= 31 && b_a <= 31) by {
            lemma_and_le_u32(val >> 1u32, 0x1F);
            lemma_and_le_u32(val >> 9u32, 0x1F);
            lemma_and_le_u32(val >> 17u32, 0x1F);
        }
        assert(31 * eva <= u32::MAX - 8);
        let pr_a: u32 = mul3(r_a, a_a, eva);
        let pg_a: u32 = mul3(g_a, a_a, eva);
        let pb_a: u32 = mul3(b_a, a_a, eva);
        let r_d: u32 = (pr_a + 8) >> 4;
        let g_d: u32 = (pg_a + 8) >> 4;
        let b_d: u32 = (pb_a + 8) >> 4;
        let a_d: u32 = if eva > 0 { a_a } else { 0 };
        proof {
            lemma_shr4_div((pr_a + 8) as u32);
            lemma_shr4_div((pg_a + 8) as u32);
            lemma_shr4_div((pb_a + 8) as u32);
        }
        (r_d | (g_d << 5) | (b_d << 10) | (a_d << 15)) as u16
    }
}

/// `c * a * e` for a 5-bit channel `c` and a 0/1 alpha `a`.
fn mul3(c: u32, a: u32, e: u32) -> (res: u32)
    requires
        c <= 31,
        a <= 1,
        31 * e <= u32::MAX,
    ensures
        res == c * a * e,
        res <= 31 * e,
{
    assert(c * a <= 31) by (nonlinear_arith)
        requires
            c <= 31,
            a <= 1,
    ;
    assert(c * a * e <= 31 * e) by (nonlinear_arith)
        requires
            c * a <= 31,
    ;
    c * a * e
}

proof fn lemma_next_addr(a: u32)
    requires
        a < 0x10000,
    ensures
        ((a + 1) as u32) & 0xFFFF == (a + 1) % 0x10000,
{
    lemma_low_mask_u32((a + 1) as u32, 16);
}

proof fn lemma_shr4_div(x: u32)
    ensures
        x >> 4u32 == x / 16,
{
    lemma_shr_u32(x, 4);
}

/// Display capture: writes `width` captured pixels
/// into the destination VRAM block.
#[verifier::rlimit(30)]
pub fn melonink_do_capture(p: &CaptureParams, dst: &mut [u16], src_a: &[u32], src_b: &[u16])
    requires
        capture_requires(*p, old(dst)@.len() as int, src_a@.len() as int, src_b@.len() as int),
    ensures
        final(dst)@ == captured(old(dst)@, *p, src_a@, src_b@, p.width as int),
{
    let ghost orig = dst@;
    let mut dstaddr: u32 = p.dstaddr;
    let mut src_baddr: u32 = if p.has_srcb != 0 && p.mode != 0 { p.src_baddr } else { 0 };
    let mut i: u32 = 0;
    while i < p.width
        invariant
            i <= p.width,
            capture_requires(*p, orig.len() as int, src_a@.len() as int, src_b@.len() as int),
            dst@.len() == orig.len(),
            dstaddr == (p.dstaddr + i) % 0x10000,
            src_baddr < 0x10000,
            p.has_srcb != 0 && p.mode != 0 ==> src_baddr == (p.src_baddr + i) % 0x10000,
            dst@ == captured(orig, *p, src_a@, src_b@, i as int),
        decreases p.width - i,
    {
        let v: u16 = capture_pixel(p, src_a, src_b, i as usize, src_baddr);
        dst[dstaddr as usize] = v;
        assert(dst@ == captured(orig, *p, src_a@, src_b@, i + 1));
        proof {
            lemma_next_addr(src_baddr);
            lemma_next_addr(dstaddr);
        }
        src_baddr = (src_baddr + 1) & 0xFFFF;
        dstaddr = (dstaddr + 1) & 0xFFFF;
        i = i + 1;
    }
}

/// With an all-zero mosaic table the sprite line is left as it is.
pub proof fn lemma_mosaic_zero_table(obj: Seq<u32>, table: Seq<u8>, i: int)
    requires
        0 <= i < table.len(),
        forall|k: int| 0 <= k < table.len() ==> #[trigger] table[k] == 0,
    ensures
        mosaic_out(obj, table, i) == obj[i],
{
}

/// Destination address of captured pixel `i`.
pub open spec fn capture_addr(p: CaptureParams, i: int) -> int {
    (p.dstaddr + i) % 0x10000
}

/// Addresses less than 0x10000 apart differ modulo 0x10000.
proof fn lemma_distinct_residues(d: int, i: int, k: int)
    requires
        0 <= d,
        0 <= i < k < 0x10000,
    ensures
        (d + i) % 0x10000 != (d + k) % 0x10000,
{
    let m: int = 0x10000;
    vstd::arithmetic::div_mod::lemma_fundamental_div_mod(d + i, m);
    vstd::arithmetic::div_mod::lemma_fundamental_div_mod(d + k, m);
    let q1 = (d + i) / m;
    let q2 = (d + k) / m;
    if (d + i) % m == (d + k) % m {
        assert(k - i == m * (q2 - q1));
        assert(false) by (nonlinear_arith)
            requires
                k - i == m * (q2 - q1),
                0 < k - i < m,
                m == 0x10000,
        ;
    }
}

/// After a capture of `n <= 0x10000` pixels, pixel `i < n` reads back at
/// its destination address `(dstaddr + i) mod 0x10000`, and every address
/// the capture did not reach keeps its old value.
pub proof fn lemma_capture_reads_back(
    dst: Seq<u16>,
    p: CaptureParams,
    src_a: Seq<u32>,
    src_b: Seq<u16>,
    n: int,
    a: int,
)
    requires
        0 <= n <= 0x10000,
        dst.len() >= 0x10000,
        0 <= a < dst.len(),
    ensures
        captured(dst, p, src_a, src_b, n).len() == dst.len(),
        forall|i: int| 0 <= i < n && a == #[trigger] capture_addr(p, i) ==> captured(dst, p, src_a, src_b, n)[a]
            == capture_val(p, src_a, src_b, i),
        (forall|i: int| 0 <= i < n ==> a != #[trigger] capture_addr(p, i)) ==> captured(dst, p, src_a, src_b, n)[a]
            == dst[a],
    decreases n,
{
    if n > 0 {
        lemma_capture_reads_back(dst, p, src_a, src_b, n - 1, a);
        let last = (p.dstaddr + n - 1) % 0x10000;
        assert forall|i: int| 0 <= i < n - 1 && a == #[trigger] capture_addr(p, i) implies a != last by {
            lemma_distinct_residues(p.dstaddr as int, i, n - 1);
        }
        assert(capture_addr(p, n - 1) == last);
    }
}

/// Field layout of a captured BGR555 halfword.
proof fn lemma_capture_fields(r: u32, g: u32, b: u32, v: u16)
    by (bit_vector)
    requires
        r <= 31,
        g <= 31,
        b <= 31,
    ensures
        (((r | (g << 5u32) | (b << 10u32) | ((1u32 | 0u32) << 15u32)) as u16) as u32) & 0x1F == r,
        ((((r | (g << 5u32) | (b << 10u32) | ((1u32 | 0u32) << 15u32)) as u16) as u32) >> 5u32) & 0x1F == g,
        ((((r | (g << 5u32) | (b << 10u32) | ((1u32 | 0u32) << 15u32)) as u16) as u32) >> 10u32) & 0x1F == b,
        (((r | (g << 5u32) | (b << 10u32) | ((1u32 | 0u32) << 15u32)) as u16) as u32) & 0x8000 != 0,
        v >= 0x8000 ==> (v as u32) >> 15u32 == 1,
        v >= 0x8000 ==> ((((v as u32) & 0x1F) | ((((v as u32) >> 5u32) & 0x1F) << 5u32) | ((((v as u32) >> 10u32)
            & 0x1F) << 10u32) | ((0u32 | ((v as u32) >> 15u32)) << 15u32)) as u16) == v,
        (v as u32) & 0x1F <= 31 && ((v as u32) >> 5u32) & 0x1F <= 31 && ((v as u32) >> 10u32) & 0x1F <= 31,
{
}

/// Blended capture (modes 2 and 3, source B present) weighs source A by
/// `eva` and source B by `evb`: with all the weight on an opaque source A
/// (16/16 and 0/16) each captured 5-bit channel is source A's channel and
/// the pixel is opaque; with all the weight on an opaque source B
/// (0/16 and 16/16) the captured halfword is source B's.
pub proof fn lemma_capture_full_weight(p: CaptureParams, src_a: Seq<u32>, src_b: Seq<u16>, i: int)
    requires
        p.mode >= 2,
        p.has_srcb != 0,
        0 <= i < src_a.len(),
        0 <= (p.src_baddr + i) % 0x10000 < src_b.len(),
    ensures
        (p.eva == 16 && p.evb == 0 && src_a[i] >> 24u32 != 0) ==> ({
            let v = capture_val(p, src_a, src_b, i) as u32;
            &&& v & 0x1F == (src_a[i] >> 1u32) & 0x1F
            &&& (v >> 5u32) & 0x1F == (src_a[i] >> 9u32) & 0x1F
            &&& (v >> 10u32) & 0x1F == (src_a[i] >> 17u32) & 0x1F
            &&& v & 0x8000 != 0
        }),
        (p.eva == 0 && p.evb == 16 && src_b[(p.src_baddr + i) % 0x10000] >= 0x8000) ==> capture_val(p, src_a, src_b, i)
            == src_b[(p.src_baddr + i) % 0x10000],
{
    let val = src_a[i];
    let vb = src_b[(p.src_baddr + i) % 0x10000];
    let r_a = (val >> 1u32) & 0x1F;
    let g_a = (val >> 9u32) & 0x1F;
    let b_a = (val >> 17u32) & 0x1F;
    lemma_and_le_u32(val >> 1u32, 0x1F);
    lemma_and_le_u32(val >> 9u32, 0x1F);
    lemma_and_le_u32(val >> 17u32, 0x1F);
    lemma_capture_fields(r_a, g_a, b_a, vb);
    let vv = vb as u32;
    lemma_capture_fields(vv & 0x1F, (vv >> 5u32) & 0x1F, (vv >> 10u32) & 0x1F, vb);
    if p.eva == 0 && p.evb == 16 && vb >= 0x8000 {
        let a_a: u32 = if val >> 24u32 != 0 { 1 } else { 0 };
        let r_b = vv & 0x1F;
        let g_b = (vv >> 5u32) & 0x1F;
        let b_b = (vv >> 10u32) & 0x1F;
        assert(vv >> 15u32 == 1);
        assert(r_a * a_a * 0 == 0) by (nonlinear_arith);
        assert(g_a * a_a * 0 == 0) by (nonlinear_arith);
        assert(b_a * a_a * 0 == 0) by (nonlinear_arith);
        assert((r_b * 1 * 16 + 8) / 16 == r_b) by (nonlinear_arith) requires r_b <= 31;
        assert((g_b * 1 * 16 + 8) / 16 == g_b) by (nonlinear_arith) requires g_b <= 31;
        assert((b_b * 1 * 16 + 8) / 16 == b_b) by (nonlinear_arith) requires b_b <= 31;
        assert(capture_ab(val, vb, p.eva, p.evb) == vb);
    }
    if p.eva == 16 && p.evb == 0 && val >> 24u32 != 0 {
        let a_b = vv >> 15u32;
        let r_b = vv & 0x1F;
        let g_b = (vv >> 5u32) & 0x1F;
        let b_b = (vv >> 10u32) & 0x1F;
        assert(r_b * a_b * 0 == 0) by (nonlinear_arith);
        assert(g_b * a_b * 0 == 0) by (nonlinear_arith);
        assert(b_b * a_b * 0 == 0) by (nonlinear_arith);
        assert((r_a * 1 * 16 + 8) / 16 == r_a) by (nonlinear_arith) requires r_a <= 31;
        assert((g_a * 1 * 16 + 8) / 16 == g_a) by (nonlinear_arith) requires g_a <= 31;
        assert((b_a * 1 * 16 + 8) / 16 == b_a) by (nonlinear_arith) requires b_a <= 31;
        let v = capture_ab(val, vb, p.eva, p.evb) as u32;
        assert(v == (((r_a | (g_a << 5u32) | (b_a << 10u32) | ((1u32 | 0u32) << 15u32)) as u16) as u32));
    }
}

} // verus!
