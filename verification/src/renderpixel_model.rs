//! A second, independent reading of the pixel shader — the model the
//! shader is fuzzed against, in signed 32-bit intermediates with explicit
//! branches — and the proof that the two agree on 6-bit vertex colours.

use vstd::prelude::*;
use crate::arith::lemma_shr_nonneg_i32;
use crate::renderpixel::{chan6, pack_rgba, render_pixel_spec};
use crate::texture::{texture_spec, lemma_texture_alpha_range};

verus! {

/// `x + 1` unless `x` is 0: the widening of a doubled 5-bit field.
pub open spec fn model_chan(x: i32) -> i32 {
    if x != 0 { (x + 1) as i32 } else { 0 }
}

/// A BGR555 colour widened to three 6-bit channels.
pub open spec fn model_widen(tc: i32) -> (i32, i32, i32) {
    (model_chan((tc << 1u32) & 0x3E), model_chan((tc >> 4u32) & 0x3E), model_chan((tc >> 9u32) & 0x3E))
}

/// `min(x, 63)`.
pub open spec fn model_min63(x: i32) -> i32 {
    if x < 63 { x } else { 63 }
}

/// The model's vertex colour after the toon / highlight stage.
pub open spec fn model_vertex(poly_attr: u32, disp_cnt: u32, toon: Seq<u16>, vr: i32, vg: i32, vb: i32) -> (i32, i32, i32) {
    if (poly_attr >> 4u32) & 0x3 == 2 {
        if disp_cnt & 0x2 != 0 {
            (vr, vr, vr)
        } else {
            model_widen(toon[(vr >> 1u32) as int] as i32)
        }
    } else {
        (vr, vg, vb)
    }
}

/// The model's colour and alpha before the highlight stage.
pub open spec fn model_textured(
    tex: Seq<u8>,
    pal: Seq<u8>,
    poly_attr: u32,
    tex_param: u32,
    tex_palette: u32,
    disp_cnt: u32,
    vr: i32,
    vg: i32,
    vb: i32,
    s: i16,
    t: i16,
) -> (i32, i32, i32, i32) {
    let blendmode = (poly_attr >> 4u32) & 0x3;
    let polyalpha: i32 = ((poly_attr >> 16u32) & 0x1F) as i32;
    if disp_cnt & 1 != 0 && (tex_param >> 26u32) & 0x7 != 0 {
        let (tcolor, talpha) = texture_spec(tex, pal, tex_param, tex_palette, s, t);
        let ta: i32 = talpha as i32;
        let (tr, tg, tb) = model_widen(tcolor as i32);
        if blendmode & 1 != 0 {
            if ta == 0 {
                (vr, vg, vb, polyalpha)
            } else if ta == 31 {
                (tr, tg, tb, polyalpha)
            } else {
                (
                    ((tr * ta + vr * (31 - ta)) as i32) >> 5u32,
                    ((tg * ta + vg * (31 - ta)) as i32) >> 5u32,
                    ((tb * ta + vb * (31 - ta)) as i32) >> 5u32,
                    polyalpha,
                )
            }
        } else {
            (
                (((tr + 1) * (vr + 1) - 1) as i32) >> 6u32,
                (((tg + 1) * (vg + 1) - 1) as i32) >> 6u32,
                (((tb + 1) * (vb + 1) - 1) as i32) >> 6u32,
                (((ta + 1) * (polyalpha + 1) - 1) as i32) >> 5u32,
            )
        }
    } else {
        (vr, vg, vb, polyalpha)
    }
}

/// The model's shaded pixel `r | g<<8 | b<<16 | a<<24`.
pub open spec fn model_render_pixel(
    tex: Seq<u8>,
    pal: Seq<u8>,
    poly_attr: u32,
    tex_param: u32,
    tex_palette: u32,
    disp_cnt: u32,
    toon: Seq<u16>,
    vr_in: u8,
    vg_in: u8,
    vb_in: u8,
    s: i16,
    t: i16,
) -> u32 {
    let (vr, vg, vb) = model_vertex(poly_attr, disp_cnt, toon, vr_in as i32, vg_in as i32, vb_in as i32);
    let (r, g, b, a) = model_textured(tex, pal, poly_attr, tex_param, tex_palette, disp_cnt, vr, vg, vb, s, t);
    let highlight = (poly_attr >> 4u32) & 0x3 == 2 && disp_cnt & 0x2 != 0;
    let (hr, hg, hb) = model_widen(toon[(vr >> 1u32) as int] as i32);
    let r2: i32 = if highlight { model_min63((r + hr) as i32) } else { r };
    let g2: i32 = if highlight { model_min63((g + hg) as i32) } else { g };
    let b2: i32 = if highlight { model_min63((b + hb) as i32) } else { b };
    let a2: i32 = if (poly_attr >> 16u32) & 0x1F == 0 { 31 } else { a };
    ((r2 & 0xFF) | ((g2 & 0xFF) << 8u32) | ((b2 & 0xFF) << 16u32) | ((a2 & 0xFF) << 24u32)) as u32
}

/// The model's widening agrees with `chan6`.
proof fn lemma_model_widen(c: u16)
    ensures
        model_widen(c as i32) == (chan6(c, 0) as i32, chan6(c, 5) as i32, chan6(c, 10) as i32),
        chan6(c, 0) <= 63 && chan6(c, 5) <= 63 && chan6(c, 10) <= 63,
{
    let tc: i32 = c as i32;
    assert(((tc << 1u32) & 0x3E) == ((c >> 0u16) & 0x1F) * 2 && ((tc >> 4u32) & 0x3E) == ((c >> 5u16) & 0x1F) * 2
        && ((tc >> 9u32) & 0x3E) == ((c >> 10u16) & 0x1F) * 2 && (c >> 0u16) & 0x1F <= 0x1F && (c >> 5u16) & 0x1F
        <= 0x1F && (c >> 10u16) & 0x1F <= 0x1F) by (bit_vector)
        requires tc == c as i32;
}

/// Packing byte-masked signed channels is packing the bytes.
proof fn lemma_model_pack(r: u8, g: u8, b: u8, a: u8)
    ensures
        (((r as i32) & 0xFF) | (((g as i32) & 0xFF) << 8u32) | (((b as i32) & 0xFF) << 16u32) | (((a as i32) & 0xFF)
            << 24u32)) as u32 == pack_rgba(r, g, b, a),
{
    assert((((r as i32) & 0xFF) | (((g as i32) & 0xFF) << 8u32) | (((b as i32) & 0xFF) << 16u32) | (((a as i32)
        & 0xFF) << 24u32)) as u32 == ((r as u32) | ((g as u32) << 8u32) | ((b as u32) << 16u32) | ((a as u32)
        << 24u32))) by (bit_vector);
}

/// A decal mix in 32 bits: the shift is the division, and the result is 6-bit.
proof fn lemma_decal(x: int, y: int, w: int)
    requires
        0 <= x <= 63,
        0 <= y <= 63,
        0 <= w <= 31,
    ensures
        ((x * w + y * (31 - w)) as i32) >> 5u32 == (x * w + y * (31 - w)) / 32,
        0 <= (x * w + y * (31 - w)) / 32 <= 63,
{
    assert(0 <= x * w + y * (31 - w) <= 63 * 31) by (nonlinear_arith)
        requires 0 <= x <= 63, 0 <= y <= 63, 0 <= w <= 31;
    lemma_shr_nonneg_i32((x * w + y * (31 - w)) as i32);
}

/// A modulation product in 32 bits: the shifts are divisions.
proof fn lemma_modulate(x: int, y: int)
    requires
        0 <= x <= 63,
        0 <= y <= 63,
    ensures
        (((x + 1) * (y + 1) - 1) as i32) >> 6u32 == ((x + 1) * (y + 1) - 1) / 64,
        (((x + 1) * (y + 1) - 1) as i32) >> 5u32 == ((x + 1) * (y + 1) - 1) / 32,
        0 <= ((x + 1) * (y + 1) - 1) / 64 <= 63,
        x <= 31 && y <= 31 ==> 0 <= ((x + 1) * (y + 1) - 1) / 32 <= 31,
{
    assert(0 <= (x + 1) * (y + 1) - 1 <= 64 * 64 - 1) by (nonlinear_arith)
        requires 0 <= x <= 63, 0 <= y <= 63;
    assert(x <= 31 && y <= 31 ==> (x + 1) * (y + 1) - 1 <= 32 * 32 - 1) by (nonlinear_arith)
        requires 0 <= x, 0 <= y;
    lemma_shr_nonneg_i32(((x + 1) * (y + 1) - 1) as i32);
}

/// The texturing stages agree on 6-bit vertex colours.
proof fn lemma_model_textured(
    tex: Seq<u8>,
    pal: Seq<u8>,
    poly_attr: u32,
    tex_param: u32,
    tex_palette: u32,
    disp_cnt: u32,
    vr: u8,
    vg: u8,
    vb: u8,
    s: i16,
    t: i16,
)
    requires
        vr <= 63,
        vg <= 63,
        vb <= 63,
    ensures
        ({
            let (r, g, b, a) = crate::renderpixel::textured_rgba(tex, pal, poly_attr, tex_param, tex_palette, disp_cnt, vr, vg, vb, s, t);
            &&& model_textured(tex, pal, poly_attr, tex_param, tex_palette, disp_cnt, vr as i32, vg as i32, vb as i32, s, t)
                == (r as i32, g as i32, b as i32, a as i32)
            &&& r <= 63 && g <= 63 && b <= 63
        }),
{
    let polyalpha: int = ((poly_attr >> 16u32) & 0x1F) as int;
    assert(polyalpha <= 31) by {
        crate::arith::lemma_and_le_u32(poly_attr >> 16u32, 0x1F);
    }
    if disp_cnt & 1 != 0 && (tex_param >> 26u32) & 0x7 != 0 {
        let (tc, ta) = texture_spec(tex, pal, tex_param, tex_palette, s, t);
        lemma_model_widen(tc);
        lemma_texture_alpha_range(tex, pal, tex_param, tex_palette, s, t);
        let tr: int = chan6(tc, 0) as int;
        let tg: int = chan6(tc, 5) as int;
        let tb: int = chan6(tc, 10) as int;
        if (poly_attr >> 4u32) & 0x3 & 1 != 0 {
            lemma_decal(tr, vr as int, ta as int);
            lemma_decal(tg, vg as int, ta as int);
            lemma_decal(tb, vb as int, ta as int);
        } else {
            lemma_modulate(tr, vr as int);
            lemma_modulate(tg, vg as int);
            lemma_modulate(tb, vb as int);
            lemma_modulate(ta as int, polyalpha);
        }
    }
}

/// The two readings of the pixel shader agree for every polygon attribute,
/// texture parameter, display control word, toon table and texture
/// coordinate, on 6-bit vertex colours.
pub proof fn lemma_render_pixel_matches_model(
    tex: Seq<u8>,
    pal: Seq<u8>,
    poly_attr: u32,
    tex_param: u32,
    tex_palette: u32,
    disp_cnt: u32,
    toon: Seq<u16>,
    vr: u8,
    vg: u8,
    vb: u8,
    s: i16,
    t: i16,
)
    requires
        toon.len() == 32,
        vr <= 63,
        vg <= 63,
        vb <= 63,
    ensures
        render_pixel_spec(tex, pal, poly_attr, tex_param, tex_palette, disp_cnt, toon, vr, vg, vb, s, t)
            == model_render_pixel(tex, pal, poly_attr, tex_param, tex_palette, disp_cnt, toon, vr, vg, vb, s, t),
{
    assert(((vr >> 1u8) & 0x1F) == vr / 2 && (vr as i32) >> 1u32 == vr / 2) by {
        crate::arith::lemma_shr_u8(vr, 1);
        crate::arith::lemma_and_le_u8(vr >> 1u8, 0x1F);
        crate::arith::lemma_small_shifts_i32(vr as i32);
        assert(vr / 2 <= 31);
        assert(((vr >> 1u8) & 0x1F) == (vr >> 1u8)) by (bit_vector)
            requires vr <= 63;
    }
    let tcv: u16 = toon[(vr / 2) as int];
    lemma_model_widen(tcv);
    let (sr, sg, sb) = crate::renderpixel::shaded_vertex(poly_attr, disp_cnt, toon, vr, vg, vb);
    assert(sr <= 63 && sg <= 63 && sb <= 63);
    assert(model_vertex(poly_attr, disp_cnt, toon, vr as i32, vg as i32, vb as i32) == (sr as i32, sg as i32, sb as i32));
    lemma_model_textured(tex, pal, poly_attr, tex_param, tex_palette, disp_cnt, sr, sg, sb, s, t);
    let (r, g, b, a) = crate::renderpixel::textured_rgba(tex, pal, poly_attr, tex_param, tex_palette, disp_cnt, sr, sg, sb, s, t);
    assert(r <= 63 && g <= 63 && b <= 63);
    let hi: bool = (poly_attr >> 4u32) & 0x3 == 2 && disp_cnt & 0x2 != 0;
    let hc = crate::renderpixel::toon_entry(toon, vr);
    assert(hc == tcv);
    let mv = model_vertex(poly_attr, disp_cnt, toon, vr as i32, vg as i32, vb as i32);
    assert(hi ==> mv.0 == vr as i32);
    let r2 = if hi { crate::renderpixel::highlight_add(r, chan6(hc, 0)) } else { r };
    let g2 = if hi { crate::renderpixel::highlight_add(g, chan6(hc, 5)) } else { g };
    let b2 = if hi { crate::renderpixel::highlight_add(b, chan6(hc, 10)) } else { b };
    let a2: u8 = if (poly_attr >> 16u32) & 0x1F == 0 { 31 } else { a };
    assert(render_pixel_spec(tex, pal, poly_attr, tex_param, tex_palette, disp_cnt, toon, vr, vg, vb, s, t)
        == pack_rgba(r2, g2, b2, a2));
    let (hr, hg, hb) = model_widen(toon[(mv.0 >> 1u32) as int] as i32);
    assert(hi ==> hr == chan6(hc, 0) as i32 && hg == chan6(hc, 5) as i32 && hb == chan6(hc, 10) as i32);
    let mr: i32 = if hi { model_min63((r as i32 + hr) as i32) } else { r as i32 };
    let mg: i32 = if hi { model_min63((g as i32 + hg) as i32) } else { g as i32 };
    let mb: i32 = if hi { model_min63((b as i32 + hb) as i32) } else { b as i32 };
    let ma: i32 = if (poly_attr >> 16u32) & 0x1F == 0 { 31 } else { a as i32 };
    assert(mr == r2 as i32 && mg == g2 as i32 && mb == b2 as i32 && ma == a2 as i32);
    assert(model_render_pixel(tex, pal, poly_attr, tex_param, tex_palette, disp_cnt, toon, vr, vg, vb, s, t)
        == ((mr & 0xFF) | ((mg & 0xFF) << 8u32) | ((mb & 0xFF) << 16u32) | ((ma & 0xFF) << 24u32)) as u32);
    lemma_model_pack(r2, g2, b2, a2);
}

} // verus!
