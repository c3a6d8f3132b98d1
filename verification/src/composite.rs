//! The 2D colour-effect compositor of the DS 2D engine:
//! for every pixel of a scanline it combines the top layer `val1` with the
//! layer below it `val2` by alpha blending, brightness up / down, or 3D-layer
//! blending, as the BLDCNT register and the pixels' layer flags select.
//!
//! Pixels are `0xFFBBGGRR`-style words: 6-bit channels in bits 0..5, 8..13
//! and 16..21, and layer flags in the top byte. All arithmetic is 32-bit
//! unsigned and wraps, exactly as the hardware model computes it.

use vstd::prelude::*;
use crate::arith::{
    wrap32, lemma_wrap_mul_add, lemma_wrap_mul_add2, lemma_wrap_add, lemma_wrap_sub, lemma_and_le_u32,
    lemma_shr_u32,
};

verus! {

/// The colour-effect registers, constant over a scanline.
#[derive(Debug, Clone, Copy)]
pub struct Regs {
    pub blend_cnt: u32,
    pub eva: u32,
    pub evb: u32,
    pub evy: u32,
}

pub open spec fn min_u32(a: u32, b: u32) -> u32 {
    if a > b { b } else { a }
}

/// Alpha blending with weights `eva`/`evb` (in sixteenths), each channel
/// saturated at 0x3F.
pub open spec fn blend4_spec(val1: u32, val2: u32, eva: u32, evb: u32) -> u32 {
    let r = wrap32((val1 & 0x3F) * eva + (val2 & 0x3F) * evb + 0x8) >> 4u32;
    let g = (wrap32((val1 & 0x3F00) * eva + (val2 & 0x3F00) * evb + 0x800) >> 4u32) & 0x7F00;
    let b = (wrap32((val1 & 0x3F0000) * eva + (val2 & 0x3F0000) * evb + 0x80000) >> 4u32)
        & 0x7F0000;
    min_u32(r, 0x3F) | min_u32(g, 0x3F00) | min_u32(b, 0x3F0000) | 0xFF000000
}

/// 3D-layer blending: the weight of the top layer is its own 5-bit alpha
/// plus one (in 32nds); a fully opaque top layer is returned unchanged.
pub open spec fn blend5_spec(val1: u32, val2: u32) -> u32 {
    let eva: u32 = (((val1 >> 24u32) & 0x1F) + 1) as u32;
    let evb: u32 = (32 - eva) as u32;
    if eva == 32 {
        val1
    } else {
        let r = wrap32((val1 & 0x3F) * eva + (val2 & 0x3F) * evb + 0x10) >> 5u32;
        let g = (wrap32((val1 & 0x3F00) * eva + (val2 & 0x3F00) * evb + 0x1000) >> 5u32)
            & 0x7F00;
        let b = (wrap32((val1 & 0x3F0000) * eva + (val2 & 0x3F0000) * evb + 0x100000) >> 5u32)
            & 0x7F0000;
        min_u32(r, 0x3F) | min_u32(g, 0x3F00) | min_u32(b, 0x3F0000) | 0xFF000000
    }
}

/// Brightness increase: each channel moves `factor`/16 of the way to white.
pub open spec fn brightness_up_spec(val: u32, factor: u32, bias: u32) -> u32 {
    let rb = val & 0x3F003F;
    let g = val & 0x3F00;
    let rb2 = wrap32(rb + ((wrap32((0x3F003F - rb) * factor + bias * 0x010001) >> 4u32) & 0x3F003F));
    let g2 = wrap32(g + ((wrap32((0x3F00 - g) * factor + bias * 0x100) >> 4u32) & 0x3F00));
    rb2 | g2 | 0xFF000000
}

/// Brightness decrease: each channel moves `factor`/16 of the way to black.
pub open spec fn brightness_down_spec(val: u32, factor: u32, bias: u32) -> u32 {
    let rb = val & 0x3F003F;
    let g = val & 0x3F00;
    let rb2 = wrap32(rb - ((wrap32(rb * factor + bias * 0x010001) >> 4u32) & 0x3F003F));
    let g2 = wrap32(g - ((wrap32(g * factor + bias * 0x100) >> 4u32) & 0x3F00));
    rb2 | g2 | 0xFF000000
}

/// The BLDCNT second-target bit that the lower layer's flags select.
pub open spec fn target2_spec(flag2: u32) -> u32 {
    if flag2 & 0x80 != 0 {
        0x1000
    } else if flag2 & 0x40 != 0 {
        0x0100
    } else {
        flag2 << 8u32
    }
}

/// The BLDCNT first-target bit that the top layer's flags select.
pub open spec fn target1_spec(flag1: u32) -> u32 {
    if flag1 & 0x80 != 0 {
        0x10
    } else if flag1 & 0x40 != 0 {
        0x01
    } else {
        flag1
    }
}

/// Which effect a pixel gets (0 none, 1 alpha blend, 2 brightness up,
/// 3 brightness down, 4 3D blend) and the blend weights it uses.
pub open spec fn effect_spec(val1: u32, val2: u32, window_mask: u8, r: Regs) -> (u32, u32, u32) {
    let flag1 = val1 >> 24u32;
    let flag2 = val2 >> 24u32;
    let bc = r.blend_cnt;
    let t2 = bc & target2_spec(flag2) != 0;
    if flag1 & 0x80 != 0 && t2 {
        if flag1 & 0x40 != 0 {
            (1, flag1 & 0x1F, wrap32(16 - (flag1 & 0x1F)))
        } else {
            (1, r.eva, r.evb)
        }
    } else if flag1 & 0x40 != 0 && t2 {
        (4, 0, 0)
    } else if bc & target1_spec(flag1) != 0 && window_mask & 0x20 != 0 {
        let ce = (bc >> 6u32) & 0x3;
        if ce == 1 {
            if t2 { (1, r.eva, r.evb) } else { (0, 0, 0) }
        } else {
            (ce, 0, 0)
        }
    } else {
        (0, 0, 0)
    }
}

/// The composited pixel.
pub open spec fn composite_spec(val1: u32, val2: u32, window_mask: u8, r: Regs) -> u32 {
    let (ce, eva, evb) = effect_spec(val1, val2, window_mask, r);
    if ce == 1 {
        blend4_spec(val1, val2, eva, evb)
    } else if ce == 2 {
        brightness_up_spec(val1, r.evy, 0x8)
    } else if ce == 3 {
        brightness_down_spec(val1, r.evy, 0x7)
    } else if ce == 4 {
        blend5_spec(val1, val2)
    } else {
        val1
    }
}

/// Alpha blending of two pixels with weights `eva`/`evb` (sixteenths).
pub fn color_blend4(val1: u32, val2: u32, eva: u32, evb: u32) -> (res: u32)
    ensures
        res == blend4_spec(val1, val2, eva, evb),
{
    proof {
        lemma_wrap_mul_add(val1 & 0x3F, eva, val2 & 0x3F, evb, 0x8);
        lemma_wrap_mul_add(val1 & 0x3F00, eva, val2 & 0x3F00, evb, 0x800);
        lemma_wrap_mul_add(val1 & 0x3F0000, eva, val2 & 0x3F0000, evb, 0x80000);
    }
    let mut r: u32 = (val1 & 0x00003F).wrapping_mul(eva).wrapping_add(
        (val2 & 0x00003F).wrapping_mul(evb),
    ).wrapping_add(0x000008) >> 4;
    let mut g: u32 = ((val1 & 0x003F00).wrapping_mul(eva).wrapping_add(
        (val2 & 0x003F00).wrapping_mul(evb),
    ).wrapping_add(0x000800) >> 4) & 0x007F00;
    let mut b: u32 = ((val1 & 0x3F0000).wrapping_mul(eva).wrapping_add(
        (val2 & 0x3F0000).wrapping_mul(evb),
    ).wrapping_add(0x080000) >> 4) & 0x7F0000;
    if r > 0x00003F {
        r = 0x00003F;
    }
    if g > 0x003F00 {
        g = 0x003F00;
    }
    if b > 0x3F0000 {
        b = 0x3F0000;
    }
    r | g | b | 0xFF000000
}

/// 3D-layer blending of a pixel with the layer below it.
pub fn color_blend5(val1: u32, val2: u32) -> (res: u32)
    ensures
        res == blend5_spec(val1, val2),
{
    proof {
        lemma_and_le_u32(val1 >> 24u32, 0x1F);
    }
    let eva: u32 = ((val1 >> 24) & 0x1F) + 1;
    let evb: u32 = 32 - eva;
    if eva == 32 {
        return val1;
    }
    proof {
        lemma_wrap_mul_add(val1 & 0x3F, eva, val2 & 0x3F, evb, 0x10);
        lemma_wrap_mul_add(val1 & 0x3F00, eva, val2 & 0x3F00, evb, 0x1000);
        lemma_wrap_mul_add(val1 & 0x3F0000, eva, val2 & 0x3F0000, evb, 0x100000);
    }
    let mut r: u32 = (val1 & 0x00003F).wrapping_mul(eva).wrapping_add(
        (val2 & 0x00003F).wrapping_mul(evb),
    ).wrapping_add(0x000010) >> 5;
    let mut g: u32 = ((val1 & 0x003F00).wrapping_mul(eva).wrapping_add(
        (val2 & 0x003F00).wrapping_mul(evb),
    ).wrapping_add(0x001000) >> 5) & 0x007F00;
    let mut b: u32 = ((val1 & 0x3F0000).wrapping_mul(eva).wrapping_add(
        (val2 & 0x3F0000).wrapping_mul(evb),
    ).wrapping_add(0x100000) >> 5) & 0x7F0000;
    if r > 0x00003F {
        r = 0x00003F;
    }
    if g > 0x003F00 {
        g = 0x003F00;
    }
    if b > 0x3F0000 {
        b = 0x3F0000;
    }
    r | g | b | 0xFF000000
}

/// Brightness increase of a pixel by `factor`/16 with rounding `bias`.
pub fn color_brightness_up(val: u32, factor: u32, bias: u32) -> (res: u32)
    ensures
        res == brightness_up_spec(val, factor, bias),
{
    let rb: u32 = val & 0x3F003F;
    let g: u32 = val & 0x003F00;
    proof {
        lemma_and_le_u32(val, 0x3F003F);
        lemma_and_le_u32(val, 0x3F00);
    }
    proof {
        lemma_wrap_sub(0x3F003Fu32, rb);
        lemma_wrap_sub(0x3F00u32, g);
        lemma_wrap_mul_add2((0x3F003F - rb) as u32, factor, bias, 0x010001);
        lemma_wrap_mul_add2((0x3F00 - g) as u32, factor, bias, 0x100);
    }
    let drb: u32 = ((0x3F003Fu32.wrapping_sub(rb)).wrapping_mul(factor).wrapping_add(
        bias.wrapping_mul(0x010001),
    ) >> 4) & 0x3F003F;
    let dg: u32 = ((0x003F00u32.wrapping_sub(g)).wrapping_mul(factor).wrapping_add(
        bias.wrapping_mul(0x000100),
    ) >> 4) & 0x003F00;
    proof {
        lemma_wrap_add(rb, drb);
        lemma_wrap_add(g, dg);
    }
    let rb2: u32 = rb.wrapping_add(drb);
    let g2: u32 = g.wrapping_add(dg);
    rb2 | g2 | 0xFF000000
}

/// Brightness decrease of a pixel by `factor`/16 with rounding `bias`.
pub fn color_brightness_down(val: u32, factor: u32, bias: u32) -> (res: u32)
    ensures
        res == brightness_down_spec(val, factor, bias),
{
    let rb: u32 = val & 0x3F003F;
    let g: u32 = val & 0x003F00;
    proof {
        lemma_wrap_mul_add2(rb, factor, bias, 0x010001);
        lemma_wrap_mul_add2(g, factor, bias, 0x100);
    }
    let drb: u32 = (rb.wrapping_mul(factor).wrapping_add(bias.wrapping_mul(0x010001)) >> 4)
        & 0x3F003F;
    let dg: u32 = (g.wrapping_mul(factor).wrapping_add(bias.wrapping_mul(0x000100)) >> 4)
        & 0x003F00;
    proof {
        lemma_wrap_sub(rb, drb);
        lemma_wrap_sub(g, dg);
    }
    let rb2: u32 = rb.wrapping_sub(drb);
    let g2: u32 = g.wrapping_sub(dg);
    rb2 | g2 | 0xFF000000
}

/// Colour compositing: the composited pixel for top layer `val1`, lower layer
/// `val2` and the pixel's window-mask byte.
pub fn composite_scalar(val1: u32, val2: u32, window_mask: u8, r: &Regs) -> (res: u32)
    ensures
        res == composite_spec(val1, val2, window_mask, *r),
{
    let mut coloreffect: u32 = 0;
    let mut eva: u32 = 0;
    let mut evb: u32 = 0;

    let mut flag1: u32 = val1 >> 24;
    let flag2: u32 = val2 >> 24;
    let blend_cnt: u32 = r.blend_cnt;
    assert(val2 >> 24u32 <= 0xFF) by {
        lemma_shr_u32(val2, 24);
    }

    let target2: u32 = if flag2 & 0x80 != 0 {
        0x1000
    } else if flag2 & 0x40 != 0 {
        0x0100
    } else {
        flag2 << 8
    };

    if (flag1 & 0x80 != 0) && (blend_cnt & target2 != 0) {
        // sprite blending
        coloreffect = 1;
        if flag1 & 0x40 != 0 {
            eva = flag1 & 0x1F;
            evb = 16u32.wrapping_sub(eva);
            proof {
                lemma_wrap_sub(16u32, eva);
            }
        } else {
            eva = r.eva;
            evb = r.evb;
        }
    } else if (flag1 & 0x40 != 0) && (blend_cnt & target2 != 0) {
        // 3D layer blending
        coloreffect = 4;
    } else {
        if flag1 & 0x80 != 0 {
            flag1 = 0x10;
        } else if flag1 & 0x40 != 0 {
            flag1 = 0x01;
        }
        if (blend_cnt & flag1 != 0) && (window_mask & 0x20 != 0) {
            coloreffect = (blend_cnt >> 6) & 0x3;
            if coloreffect == 1 {
                if blend_cnt & target2 != 0 {
                    eva = r.eva;
                    evb = r.evb;
                } else {
                    coloreffect = 0;
                }
            }
        }
    }
    proof {
        lemma_and_le_u32(blend_cnt >> 6u32, 0x3);
    }

    match coloreffect {
        0 => val1,
        1 => color_blend4(val1, val2, eva, evb),
        2 => color_brightness_up(val1, r.evy, 0x8),
        3 => color_brightness_down(val1, r.evy, 0x7),
        4 => color_blend5(val1, val2),
        _ => val1,
    }
}

/// With BLDCNT == 0 no effect applies to any pixel: the top layer is kept.
pub proof fn lemma_blend_cnt_zero_keeps_top(val1: u32, val2: u32, window_mask: u8, r: Regs)
    requires
        r.blend_cnt == 0,
    ensures
        composite_spec(val1, val2, window_mask, r) == val1,
{
    let f1 = val1 >> 24u32;
    let f2 = val2 >> 24u32;
    let t1 = target1_spec(f1);
    let t2 = target2_spec(f2);
    lemma_and_le_u32(0u32, t1);
    lemma_and_le_u32(0u32, t2);
}

/// Bit identities of 6-bit colour channels packed in a word.
proof fn lemma_channel_bits(v: u32)
    by (bit_vector)
    ensures
        (((v & 0x3F00) + 0x80) as u32) & 0x7F00 == v & 0x3F00,
        (((v & 0x3F0000) + 0x8000) as u32) & 0x7F0000 == v & 0x3F0000,
        (v & 0x3F) | (v & 0x3F00) | (v & 0x3F0000) == v & 0x3F3F3F,
        (v & 0x3F003F) | (v & 0x3F00) == v & 0x3F3F3F,
        (0x80008u32 >> 4u32) & 0x3F003F == 0,
        (0x800u32 >> 4u32) & 0x3F00 == 0,
        (0x70007u32 >> 4u32) & 0x3F003F == 0,
        (0x700u32 >> 4u32) & 0x3F00 == 0,
{
}

/// Alpha blending with weights 16/16 and 0/16 keeps the top layer's
/// colour (its flag byte becomes 0xFF).
pub proof fn lemma_blend_full_weight_keeps_top(val1: u32, val2: u32)
    ensures
        blend4_spec(val1, val2, 16, 0) == (val1 & 0x3F3F3F) | 0xFF000000,
{
    lemma_channel_bits(val1);
    lemma_and_le_u32(val1, 0x3F);
    lemma_and_le_u32(val1, 0x3F00);
    lemma_and_le_u32(val1, 0x3F0000);
    let r0 = val1 & 0x3F;
    let g0 = val1 & 0x3F00;
    let b0 = val1 & 0x3F0000;
    assert(wrap32(r0 * 16 + (val2 & 0x3F) * 0 + 0x8) == r0 * 16 + 8);
    assert(wrap32(g0 * 16 + (val2 & 0x3F00) * 0 + 0x800) == g0 * 16 + 0x800);
    assert(wrap32(b0 * 16 + (val2 & 0x3F0000) * 0 + 0x80000) == b0 * 16 + 0x80000);
    lemma_shr_u32((r0 * 16 + 8) as u32, 4);
    lemma_shr_u32((g0 * 16 + 0x800) as u32, 4);
    lemma_shr_u32((b0 * 16 + 0x80000) as u32, 4);
    assert(((r0 * 16 + 8) as u32) >> 4u32 == r0);
    assert(((g0 * 16 + 0x800) as u32) >> 4u32 == g0 + 0x80);
    assert(((b0 * 16 + 0x80000) as u32) >> 4u32 == b0 + 0x8000);
}

/// A brightness change by a factor of 0 keeps the colour (its flag byte
/// becomes 0xFF).
pub proof fn lemma_brightness_zero_factor(val: u32)
    ensures
        brightness_up_spec(val, 0, 0x8) == (val & 0x3F3F3F) | 0xFF000000,
        brightness_down_spec(val, 0, 0x7) == (val & 0x3F3F3F) | 0xFF000000,
{
    lemma_channel_bits(val);
    lemma_and_le_u32(val, 0x3F003F);
    lemma_and_le_u32(val, 0x3F00);
    let rb = val & 0x3F003F;
    let g = val & 0x3F00;
    assert(wrap32((0x3F003F - rb) * 0 + 0x8 * 0x010001) == 0x80008);
    assert(wrap32((0x3F00 - g) * 0 + 0x8 * 0x100) == 0x800);
    assert(wrap32(rb * 0 + 0x7 * 0x010001) == 0x70007);
    assert(wrap32(g * 0 + 0x7 * 0x100) == 0x700);
    assert(wrap32(rb + 0) == rb);
    assert(wrap32(g + 0) == g);
    assert(wrap32(rb - 0) == rb);
    assert(wrap32(g - 0) == g);
}

/// Composites one 256-pixel scanline in place: `line[i]` (top layer) is
/// replaced by its composite with `line[256 + i]` (the layer below) for
/// `i < 256`; the rest of the buffer is left as it was.
pub fn melonink_composite_scanline(line: &mut [u32], window_mask: &[u8], regs: &Regs)
    requires
        old(line)@.len() >= 512,
        window_mask@.len() >= 256,
    ensures
        final(line)@.len() == old(line)@.len(),
        forall|i: int|
            0 <= i < 256 ==> #[trigger] final(line)@[i] == composite_spec(
                old(line)@[i],
                old(line)@[256 + i],
                window_mask@[i],
                *regs,
            ),
        forall|i: int| 256 <= i < old(line)@.len() ==> #[trigger] final(line)@[i] == old(line)@[i],
{
    if regs.blend_cnt == 0 {
        assert forall|i: int| 0 <= i < 256 implies #[trigger] line@[i] == composite_spec(
            line@[i],
            line@[256 + i],
            window_mask@[i],
            *regs,
        ) by {
            lemma_blend_cnt_zero_keeps_top(line@[i], line@[256 + i], window_mask@[i], *regs);
        }
        return;
    }
    let ghost orig = line@;
    let mut i: usize = 0;
    while i < 256
        invariant
            0 <= i <= 256,
            orig.len() >= 512,
            line@.len() == orig.len(),
            window_mask@.len() >= 256,
            forall|j: int|
                0 <= j < i ==> #[trigger] line@[j] == composite_spec(
                    orig[j],
                    orig[256 + j],
                    window_mask@[j],
                    *regs,
                ),
            forall|j: int| i <= j < orig.len() ==> #[trigger] line@[j] == orig[j],
        decreases 256 - i,
    {
        let v: u32 = composite_scalar(line[i], line[256 + i], window_mask[i], regs);
        line[i] = v;
        i = i + 1;
    }
}

} // verus!
