//! Pixel shading of the DS 3D engine: the shaded pixel for a polygon's
//! attributes, its interpolated vertex colour and its texture coordinates —
//! toon / highlight shading, decal and modulation texturing, and the
//! wireframe alpha override.

use vstd::prelude::*;
use crate::arith::{lemma_and_le_u16, lemma_and_le_u32, lemma_and_le_u8, lemma_shr_u32};
use crate::texture::{Vram, texture_spec, texture_lookup, lemma_texture_alpha_range};

verus! {

/// The 6-bit channel a 5-bit BGR555 field (at bit `shift`) widens to:
/// `2 * c + 1`, except that 0 stays 0.
pub open spec fn chan6(c: u16, shift: u16) -> u8 {
    let v: int = ((c >> shift) & 0x1F) * 2;
    if v != 0 { (v + 1) as u8 } else { 0 }
}

/// Widens one 5-bit field of a BGR555 colour to a 6-bit channel.
pub(crate) fn widen(c: u16, shift: u16) -> (res: u8)
    requires
        shift == 0 || shift == 5 || shift == 10,
    ensures
        res == chan6(c, shift),
        res <= 63,
{
    let mut v: u8 = if shift == 0 {
        ((c << 1) & 0x3E) as u8
    } else if shift == 5 {
        ((c >> 4) & 0x3E) as u8
    } else {
        ((c >> 9) & 0x3E) as u8
    };
    assert(((c << 1u16) & 0x3E) == ((c >> 0u16) & 0x1F) * 2 && ((c >> 4u16) & 0x3E) == ((c >> 5u16)
        & 0x1F) * 2 && ((c >> 9u16) & 0x3E) == ((c >> 10u16) & 0x1F) * 2 && (c >> 0u16) & 0x1F
        <= 0x1F && (c >> 5u16) & 0x1F <= 0x1F && (c >> 10u16) & 0x1F <= 0x1F) by (bit_vector);
    if v != 0 {
        v += 1;
    }
    v
}

/// Packs 8-bit r, g, b, a into a pixel word `r | g<<8 | b<<16 | a<<24`.
pub open spec fn pack_rgba(r: u8, g: u8, b: u8, a: u8) -> u32 {
    (r as u32) | ((g as u32) << 8u32) | ((b as u32) << 16u32) | ((a as u32) << 24u32)
}

/// Toon (or highlight) table colour indexed by the red vertex component
/// (its upper five bits of six; the index wraps within the 32 entries, so
/// every red value selects an entry).
pub open spec fn toon_entry(toon: Seq<u16>, vr: u8) -> u16 {
    toon[((vr >> 1u8) & 0x1F) as int]
}

/// Vertex colour after the toon stage: highlight mode copies red into green
/// and blue, toon mode replaces the colour by the toon-table entry.
pub open spec fn shaded_vertex(poly_attr: u32, disp_cnt: u32, toon: Seq<u16>, vr: u8, vg: u8, vb: u8) -> (
    u8,
    u8,
    u8,
) {
    if (poly_attr >> 4u32) & 0x3 == 2 {
        if disp_cnt & 0x2 != 0 {
            (vr, vr, vr)
        } else {
            let tc = toon_entry(toon, vr);
            (chan6(tc, 0), chan6(tc, 5), chan6(tc, 10))
        }
    } else {
        (vr, vg, vb)
    }
}

/// Colour and alpha before the highlight stage.
pub open spec fn textured_rgba(
    tex: Seq<u8>,
    pal: Seq<u8>,
    poly_attr: u32,
    tex_param: u32,
    tex_palette: u32,
    disp_cnt: u32,
    vr: u8,
    vg: u8,
    vb: u8,
    s: i16,
    t: i16,
) -> (u8, u8, u8, u8) {
    let blendmode = (poly_attr >> 4u32) & 0x3;
    let polyalpha: u8 = ((poly_attr >> 16u32) & 0x1F) as u8;
    if disp_cnt & 0x1 != 0 && (tex_param >> 26u32) & 0x7 != 0 {
        let (tc, ta) = texture_spec(tex, pal, tex_param, tex_palette, s, t);
        let tr = chan6(tc, 0);
        let tg = chan6(tc, 5);
        let tb = chan6(tc, 10);
        if blendmode & 0x1 != 0 {
            // decal: texture alpha blends texture over vertex colour
            if ta == 0 {
                (vr, vg, vb, polyalpha)
            } else if ta == 31 {
                (tr, tg, tb, polyalpha)
            } else {
                (
                    ((tr * ta + vr * (31 - ta)) / 32) as u8,
                    ((tg * ta + vg * (31 - ta)) / 32) as u8,
                    ((tb * ta + vb * (31 - ta)) / 32) as u8,
                    polyalpha,
                )
            }
        } else {
            // modulate: product of texture and vertex colour
            (
                (((tr + 1) * (vr + 1) - 1) / 64) as u8,
                (((tg + 1) * (vg + 1) - 1) / 64) as u8,
                (((tb + 1) * (vb + 1) - 1) / 64) as u8,
                (((ta + 1) * (polyalpha + 1) - 1) / 32) as u8,
            )
        }
    } else {
        (vr, vg, vb, polyalpha)
    }
}

/// `min(c + h mod 256, 63)`: the highlight addition with 6-bit saturation.
pub open spec fn highlight_add(c: u8, h: u8) -> u8 {
    let x = ((c + h) % 256) as u8;
    if x > 63 { 63 } else { x }
}

/// The shaded pixel `r | g<<8 | b<<16 | a<<24`.
pub open spec fn render_pixel_spec(
    tex: Seq<u8>,
    pal: Seq<u8>,
    poly_attr: u32,
    tex_param: u32,
    tex_palette: u32,
    disp_cnt: u32,
    toon: Seq<u16>,
    vr: u8,
    vg: u8,
    vb: u8,
    s: i16,
    t: i16,
) -> u32 {
    let (sr, sg, sb) = shaded_vertex(poly_attr, disp_cnt, toon, vr, vg, vb);
    let (r, g, b, a) = textured_rgba(
        tex,
        pal,
        poly_attr,
        tex_param,
        tex_palette,
        disp_cnt,
        sr,
        sg,
        sb,
        s,
        t,
    );
    let highlight = (poly_attr >> 4u32) & 0x3 == 2 && disp_cnt & 0x2 != 0;
    let hc = toon_entry(toon, vr);
    let r2 = if highlight { highlight_add(r, chan6(hc, 0)) } else { r };
    let g2 = if highlight { highlight_add(g, chan6(hc, 5)) } else { g };
    let b2 = if highlight { highlight_add(b, chan6(hc, 10)) } else { b };
    let a2: u8 = if (poly_attr >> 16u32) & 0x1F == 0 { 31 } else { a };
    pack_rgba(r2, g2, b2, a2)
}

/// Packs four bytes into a pixel word.
fn pack(r: u8, g: u8, b: u8, a: u8) -> (res: u32)
    ensures
        res == pack_rgba(r, g, b, a),
{
    (r as u32) | ((g as u32) << 8) | ((b as u32) << 16) | ((a as u32) << 24)
}

/// The texturing stage of pixel shading (decal or modulation).
fn texture_stage(
    vram: &Vram,
    poly_attr: u32,
    tex_param: u32,
    tex_palette: u32,
    disp_cnt: u32,
    vr: u8,
    vg: u8,
    vb: u8,
    s: i16,
    t: i16,
) -> (res: (u8, u8, u8, u8))
    requires
        vram.wf(),
    ensures
        res == textured_rgba(
            vram.tex@,
            vram.pal@,
            poly_attr,
            tex_param,
            tex_palette,
            disp_cnt,
            vr,
            vg,
            vb,
            s,
            t,
        ),
{
    let r: u8;
    let g: u8;
    let b: u8;
    let a: u8;
    let blendmode: u32 = (poly_attr >> 4) & 0x3;
    proof {
        lemma_and_le_u32(poly_attr >> 16u32, 0x1F);
    }
    let polyalpha: u8 = ((poly_attr >> 16) & 0x1F) as u8;
    if (disp_cnt & 0x1 != 0) && (((tex_param >> 26) & 0x7) != 0) {
        let (tcolor, talpha) = texture_lookup(vram, tex_param, tex_palette, s, t);
        proof {
            lemma_texture_alpha_range(vram.tex@, vram.pal@, tex_param, tex_palette, s, t);
        }
        let tr: u8 = widen(tcolor, 0);
        let tg: u8 = widen(tcolor, 5);
        let tb: u8 = widen(tcolor, 10);

        if blendmode & 0x1 != 0 {
            // decal
            if talpha == 0 {
                r = vr;
                g = vg;
                b = vb;
            } else if talpha == 31 {
                r = tr;
                g = tg;
                b = tb;
            } else {
                let ta: u32 = talpha as u32;
                assert(tr * ta <= 63 * 31 && vr * (31 - ta) <= 255 * 31 && tg * ta <= 63 * 31 && vg
                    * (31 - ta) <= 255 * 31 && tb * ta <= 63 * 31 && vb * (31 - ta) <= 255 * 31)
                    by (nonlinear_arith)
                    requires
                        tr <= 63,
                        tg <= 63,
                        tb <= 63,
                        ta <= 31,
                ;
                let xr: u32 = (tr as u32 * ta) + (vr as u32 * (31 - ta));
                let xg: u32 = (tg as u32 * ta) + (vg as u32 * (31 - ta));
                let xb: u32 = (tb as u32 * ta) + (vb as u32 * (31 - ta));
                assert(xr >> 5u32 == xr / 32 && xg >> 5u32 == xg / 32 && xb >> 5u32 == xb / 32) by {
                    lemma_shr_u32(xr, 5);
                    lemma_shr_u32(xg, 5);
                    lemma_shr_u32(xb, 5);
                }
                r = (xr >> 5) as u8;
                g = (xg >> 5) as u8;
                b = (xb >> 5) as u8;
            }
            a = polyalpha;
        } else {
            // modulate
            assert((tr + 1) * (vr + 1) <= 64 * 256 && (tg + 1) * (vg + 1) <= 64 * 256 && (tb + 1)
                * (vb + 1) <= 64 * 256 && (talpha + 1) * (polyalpha + 1) <= 32 * 32 && (tr + 1)
                * (vr + 1) >= 1 && (tg + 1) * (vg + 1) >= 1 && (tb + 1) * (vb + 1) >= 1 && (talpha
                + 1) * (polyalpha + 1) >= 1) by (nonlinear_arith)
                requires
                    tr <= 63,
                    tg <= 63,
                    tb <= 63,
                    talpha <= 31,
                    polyalpha <= 31,
            ;
            let xr: u32 = ((tr as u32 + 1) * (vr as u32 + 1)) - 1;
            let xg: u32 = ((tg as u32 + 1) * (vg as u32 + 1)) - 1;
            let xb: u32 = ((tb as u32 + 1) * (vb as u32 + 1)) - 1;
            let xa: u32 = ((talpha as u32 + 1) * (polyalpha as u32 + 1)) - 1;
            assert(xr >> 6u32 == xr / 64 && xg >> 6u32 == xg / 64 && xb >> 6u32 == xb / 64 && xa >> 5u32
                == xa / 32) by {
                lemma_shr_u32(xr, 6);
                lemma_shr_u32(xg, 6);
                lemma_shr_u32(xb, 6);
                lemma_shr_u32(xa, 5);
            }
            r = (xr >> 6) as u8;
            g = (xg >> 6) as u8;
            b = (xb >> 6) as u8;
            a = (xa >> 5) as u8;
        }
    } else {
        r = vr;
        g = vg;
        b = vb;
        a = polyalpha;
    }

    (r, g, b, a)
}

/// Pixel shading: the shaded pixel `r | g<<8 | b<<16 | a<<24`.
pub fn render_pixel(
    vram: &Vram,
    poly_attr: u32,
    tex_param: u32,
    tex_palette: u32,
    disp_cnt: u32,
    toon_table: &[u16; 32],
    vr_in: u8,
    vg_in: u8,
    vb_in: u8,
    s: i16,
    t: i16,
) -> (res: u32)
    requires
        vram.wf(),
    ensures
        res == render_pixel_spec(
            vram.tex@,
            vram.pal@,
            poly_attr,
            tex_param,
            tex_palette,
            disp_cnt,
            toon_table@,
            vr_in,
            vg_in,
            vb_in,
            s,
            t,
        ),
{
    let mut vr: u8 = vr_in;
    let mut vg: u8 = vg_in;
    let mut vb: u8 = vb_in;
    let blendmode: u32 = (poly_attr >> 4) & 0x3;
    proof {
        lemma_and_le_u32(poly_attr >> 16u32, 0x1F);
    }
    let polyalpha: u8 = ((poly_attr >> 16) & 0x1F) as u8;
    let wireframe: bool = polyalpha == 0;

    if blendmode == 2 {
        if disp_cnt & 0x2 != 0 {
            // highlight mode: all vertex colour components set to the red one
            vg = vr;
            vb = vr;
        } else {
            // toon mode: vertex colour replaced by toon colour
            let ti: usize = ((vr >> 1) & 0x1F) as usize;
            proof {
                lemma_and_le_u8(vr >> 1u8, 0x1F);
            }
            let tooncolor: u16 = toon_table[ti];
            vr = widen(tooncolor, 0);
            vg = widen(tooncolor, 5);
            vb = widen(tooncolor, 10);
        }
    }
    assert((vr, vg, vb) == shaded_vertex(poly_attr, disp_cnt, toon_table@, vr_in, vg_in, vb_in));

    let (r, g, b, a) = texture_stage(
        vram,
        poly_attr,
        tex_param,
        tex_palette,
        disp_cnt,
        vr,
        vg,
        vb,
        s,
        t,
    );

    let mut r: u8 = r;
    let mut g: u8 = g;
    let mut b: u8 = b;

    if (blendmode == 2) && (disp_cnt & 0x2 != 0) {
        // highlight: vr is still the interpolated red component here
        let ti: usize = ((vr >> 1) & 0x1F) as usize;
        proof {
            lemma_and_le_u8(vr >> 1u8, 0x1F);
        }
        let tooncolor: u16 = toon_table[ti];
        let hr: u8 = widen(tooncolor, 0);
        let hg: u8 = widen(tooncolor, 5);
        let hb: u8 = widen(tooncolor, 10);

        r = r.wrapping_add(hr);
        g = g.wrapping_add(hg);
        b = b.wrapping_add(hb);

        if r > 63 {
            r = 63;
        }
        if g > 63 {
            g = 63;
        }
        if b > 63 {
            b = 63;
        }
    }

    let a: u8 = if wireframe { 31u8 } else { a };
    pack(r, g, b, a)
}

/// The fields of a packed pixel word read back as the bytes packed.
pub proof fn lemma_pack_rgba_fields(r: u8, g: u8, b: u8, a: u8)
    ensures
        pack_rgba(r, g, b, a) & 0xFF == r,
        (pack_rgba(r, g, b, a) >> 8u32) & 0xFF == g,
        (pack_rgba(r, g, b, a) >> 16u32) & 0xFF == b,
        pack_rgba(r, g, b, a) >> 24u32 == a,
{
    assert(((r as u32) | ((g as u32) << 8u32) | ((b as u32) << 16u32) | ((a as u32) << 24u32))
        & 0xFF == r && ((((r as u32) | ((g as u32) << 8u32) | ((b as u32) << 16u32) | ((a as u32)
        << 24u32)) >> 8u32) & 0xFF) == g && ((((r as u32) | ((g as u32) << 8u32) | ((b as u32)
        << 16u32) | ((a as u32) << 24u32)) >> 16u32) & 0xFF) == b && (((r as u32) | ((g as u32)
        << 8u32) | ((b as u32) << 16u32) | ((a as u32) << 24u32)) >> 24u32) == a) by (bit_vector);
}

/// With 6-bit vertex colour channels, a shaded pixel has 6-bit colour
/// channels and a 5-bit alpha.
pub proof fn lemma_render_pixel_ranges(
    tex: Seq<u8>,
    pal: Seq<u8>,
    poly_attr: u32,
    tex_param: u32,
    tex_palette: u32,
    disp_cnt: u32,
    toon: Seq<u16>,
    vr: u8,
    vg: u8,
    vb: u8,
    s: i16,
    t: i16,
)
    requires
        vr <= 63,
        vg <= 63,
        vb <= 63,
    ensures
        ({
            let px = render_pixel_spec(
                tex,
                pal,
                poly_attr,
                tex_param,
                tex_palette,
                disp_cnt,
                toon,
                vr,
                vg,
                vb,
                s,
                t,
            );
            &&& px & 0xFF <= 63
            &&& (px >> 8u32) & 0xFF <= 63
            &&& (px >> 16u32) & 0xFF <= 63
            &&& px >> 24u32 <= 31
        }),
{
    let (sr, sg, sb) = shaded_vertex(poly_attr, disp_cnt, toon, vr, vg, vb);
    let hc = toon_entry(toon, vr);
    lemma_chan6_range(hc, 0);
    lemma_chan6_range(hc, 5);
    lemma_chan6_range(hc, 10);
    assert(sr <= 63 && sg <= 63 && sb <= 63);
    lemma_textured_ranges(tex, pal, poly_attr, tex_param, tex_palette, disp_cnt, sr, sg, sb, s, t);
    let (r, g, b, a) = textured_rgba(
        tex,
        pal,
        poly_attr,
        tex_param,
        tex_palette,
        disp_cnt,
        sr,
        sg,
        sb,
        s,
        t,
    );
    let highlight = (poly_attr >> 4u32) & 0x3 == 2 && disp_cnt & 0x2 != 0;
    let r2 = if highlight { highlight_add(r, chan6(hc, 0)) } else { r };
    let g2 = if highlight { highlight_add(g, chan6(hc, 5)) } else { g };
    let b2 = if highlight { highlight_add(b, chan6(hc, 10)) } else { b };
    let a2: u8 = if (poly_attr >> 16u32) & 0x1F == 0 { 31 } else { a };
    lemma_pack_rgba_fields(r2, g2, b2, a2);
}

/// A shaded pixel has a 5-bit alpha, whatever the vertex colour.
pub proof fn lemma_render_pixel_alpha(
    tex: Seq<u8>,
    pal: Seq<u8>,
    poly_attr: u32,
    tex_param: u32,
    tex_palette: u32,
    disp_cnt: u32,
    toon: Seq<u16>,
    vr: u8,
    vg: u8,
    vb: u8,
    s: i16,
    t: i16,
)
    ensures
        render_pixel_spec(tex, pal, poly_attr, tex_param, tex_palette, disp_cnt, toon, vr, vg, vb, s, t)
            >> 24u32 <= 31,
{
    let (sr, sg, sb) = shaded_vertex(poly_attr, disp_cnt, toon, vr, vg, vb);
    let (tc, ta) = texture_spec(tex, pal, tex_param, tex_palette, s, t);
    lemma_texture_alpha_range(tex, pal, tex_param, tex_palette, s, t);
    lemma_and_le_u32(poly_attr >> 16u32, 0x1F);
    let polyalpha: u8 = ((poly_attr >> 16u32) & 0x1F) as u8;
    assert(0 <= ((ta + 1) * (polyalpha + 1) - 1) / 32 <= 31) by (nonlinear_arith)
        requires
            ta <= 31,
            polyalpha <= 31,
    ;
    let (r, g, b, a) = textured_rgba(tex, pal, poly_attr, tex_param, tex_palette, disp_cnt, sr, sg, sb, s, t);
    assert(a <= 31);
    let hc = toon_entry(toon, vr);
    let highlight = (poly_attr >> 4u32) & 0x3 == 2 && disp_cnt & 0x2 != 0;
    let r2 = if highlight { highlight_add(r, chan6(hc, 0)) } else { r };
    let g2 = if highlight { highlight_add(g, chan6(hc, 5)) } else { g };
    let b2 = if highlight { highlight_add(b, chan6(hc, 10)) } else { b };
    let a2: u8 = if (poly_attr >> 16u32) & 0x1F == 0 { 31 } else { a };
    lemma_pack_rgba_fields(r2, g2, b2, a2);
}

proof fn lemma_textured_ranges(
    tex: Seq<u8>,
    pal: Seq<u8>,
    poly_attr: u32,
    tex_param: u32,
    tex_palette: u32,
    disp_cnt: u32,
    vr: u8,
    vg: u8,
    vb: u8,
    s: i16,
    t: i16,
)
    requires
        vr <= 63,
        vg <= 63,
        vb <= 63,
    ensures
        textured_rgba(tex, pal, poly_attr, tex_param, tex_palette, disp_cnt, vr, vg, vb, s, t).0
            <= 63,
        textured_rgba(tex, pal, poly_attr, tex_param, tex_palette, disp_cnt, vr, vg, vb, s, t).1
            <= 63,
        textured_rgba(tex, pal, poly_attr, tex_param, tex_palette, disp_cnt, vr, vg, vb, s, t).2
            <= 63,
        textured_rgba(tex, pal, poly_attr, tex_param, tex_palette, disp_cnt, vr, vg, vb, s, t).3
            <= 31,
{
    let (tc, ta) = texture_spec(tex, pal, tex_param, tex_palette, s, t);
    lemma_texture_alpha_range(tex, pal, tex_param, tex_palette, s, t);
    lemma_chan6_range(tc, 0);
    lemma_chan6_range(tc, 5);
    lemma_chan6_range(tc, 10);
    let tr = chan6(tc, 0);
    let tg = chan6(tc, 5);
    let tb = chan6(tc, 10);
    lemma_and_le_u32(poly_attr >> 16u32, 0x1F);
    let polyalpha: u8 = ((poly_attr >> 16u32) & 0x1F) as u8;
    let blendmode = (poly_attr >> 4u32) & 0x3;
    if disp_cnt & 0x1 != 0 && (tex_param >> 26u32) & 0x7 != 0 {
        if blendmode & 0x1 != 0 {
            if ta != 0 && ta != 31 {
                lemma_blend_bound(tr, vr, ta);
                lemma_blend_bound(tg, vg, ta);
                lemma_blend_bound(tb, vb, ta);
            }
        } else {
            lemma_modulate_bound(tr, vr);
            lemma_modulate_bound(tg, vg);
            lemma_modulate_bound(tb, vb);
            assert(0 <= ((ta + 1) * (polyalpha + 1) - 1) / 32 <= 31) by (nonlinear_arith)
                requires
                    ta <= 31,
                    polyalpha <= 31,
            ;
        }
    }
}

pub proof fn lemma_chan6_range(c: u16, shift: u16)
    ensures
        chan6(c, shift) <= 63,
{
    lemma_and_le_u16(c >> shift, 0x1F);
}

proof fn lemma_blend_bound(tc: u8, vc: u8, ta: u8)
    requires
        tc <= 63,
        vc <= 63,
        ta <= 31,
    ensures
        0 <= (tc * ta + vc * (31 - ta)) / 32 <= 63,
{
    assert(0 <= (tc * ta + vc * (31 - ta)) <= 63 * 31) by (nonlinear_arith)
        requires
            tc <= 63,
            vc <= 63,
            ta <= 31,
    ;
}

proof fn lemma_modulate_bound(tc: u8, vc: u8)
    requires
        tc <= 63,
        vc <= 63,
    ensures
        0 <= ((tc + 1) * (vc + 1) - 1) / 64 <= 63,
{
    assert(1 <= (tc + 1) * (vc + 1) <= 64 * 64) by (nonlinear_arith)
        requires
            tc <= 63,
            vc <= 63,
    ;
}

} // verus!
