//! Pixel shading against an independent reference model of the DS pixel
//! shader.

use melonink::renderpixel::render_pixel;
use melonink::texture::{texture_lookup, Vram};

// Independent reference model of the pixel shader (i32 intermediates,
// explicit branches) so a differential fuzz catches mistakes in either
// version. Texturing is delegated to the same texture_lookup (fuzzed on its
// own against a separate model).
#[allow(clippy::too_many_arguments)]
fn reference(
    vram: &Vram,
    poly_attr: u32,
    tex_param: u32,
    tex_palette: u32,
    disp_cnt: u32,
    toon: &[u16; 32],
    vr_in: u8,
    vg_in: u8,
    vb_in: u8,
    s: i16,
    t: i16,
) -> u32 {
    let mut vr = vr_in as i32;
    let mut vg = vg_in as i32;
    let mut vb = vb_in as i32;
    let blendmode = (poly_attr >> 4) & 0x3;
    let polyalpha = ((poly_attr >> 16) & 0x1F) as i32;
    let wireframe = polyalpha == 0;
    let toon_at = |idx: i32| -> i32 { toon[idx as usize] as i32 };

    if blendmode == 2 {
        if disp_cnt & (1 << 1) != 0 {
            vg = vr;
            vb = vr;
        } else {
            let tc = toon_at(vr >> 1);
            vr = (tc << 1) & 0x3E;
            if vr != 0 { vr += 1; }
            vg = (tc >> 4) & 0x3E;
            if vg != 0 { vg += 1; }
            vb = (tc >> 9) & 0x3E;
            if vb != 0 { vb += 1; }
        }
    }

    let (mut r, mut g, mut b, a);
    if (disp_cnt & 1 != 0) && (((tex_param >> 26) & 0x7) != 0) {
        let (tcolor, talpha) = texture_lookup(vram, tex_param, tex_palette, s, t);
        let tcolor = tcolor as i32;
        let talpha = talpha as i32;
        let mut tr = (tcolor << 1) & 0x3E;
        if tr != 0 { tr += 1; }
        let mut tg = (tcolor >> 4) & 0x3E;
        if tg != 0 { tg += 1; }
        let mut tb = (tcolor >> 9) & 0x3E;
        if tb != 0 { tb += 1; }

        if blendmode & 1 != 0 {
            if talpha == 0 {
                r = vr; g = vg; b = vb;
            } else if talpha == 31 {
                r = tr; g = tg; b = tb;
            } else {
                r = ((tr * talpha) + (vr * (31 - talpha))) >> 5;
                g = ((tg * talpha) + (vg * (31 - talpha))) >> 5;
                b = ((tb * talpha) + (vb * (31 - talpha))) >> 5;
            }
            a = polyalpha;
        } else {
            r = ((tr + 1) * (vr + 1) - 1) >> 6;
            g = ((tg + 1) * (vg + 1) - 1) >> 6;
            b = ((tb + 1) * (vb + 1) - 1) >> 6;
            a = ((talpha + 1) * (polyalpha + 1) - 1) >> 5;
        }
    } else {
        r = vr; g = vg; b = vb; a = polyalpha;
    }

    if (blendmode == 2) && (disp_cnt & (1 << 1) != 0) {
        let tc = toon_at(vr >> 1);
        let mut hr = (tc << 1) & 0x3E;
        if hr != 0 { hr += 1; }
        let mut hg = (tc >> 4) & 0x3E;
        if hg != 0 { hg += 1; }
        let mut hb = (tc >> 9) & 0x3E;
        if hb != 0 { hb += 1; }
        r = (r + hr).min(63);
        g = (g + hg).min(63);
        b = (b + hb).min(63);
    }

    let a = if wireframe { 31 } else { a };
    // mask to a byte each, like the hardware's byte-wide result assembly
    ((r & 0xFF) | ((g & 0xFF) << 8) | ((b & 0xFF) << 16) | ((a & 0xFF) << 24)) as u32
}

fn xorshift(s: &mut u64) -> u64 {
    let mut x = *s;
    x ^= x << 13;
    x ^= x >> 7;
    x ^= x << 17;
    *s = x;
    x
}

#[test]
fn fuzz_render_pixel_matches_reference() {
    let mut seed = 0xC0FFEE123456789u64;
    let mut tex = vec![0u8; 512 * 1024];
    let mut pal = vec![0u8; 128 * 1024];
    for x in tex.iter_mut() { *x = xorshift(&mut seed) as u8; }
    for x in pal.iter_mut() { *x = xorshift(&mut seed) as u8; }
    let vram = Vram { tex: &tex, pal: &pal };

    for _ in 0..2_000_000u64 {
        let r = xorshift(&mut seed);
        // Random poly_attr but bias blendmode/alpha across full range.
        let poly_attr = (r as u32 & 0x00FF_00FF)
            | (((r >> 20) & 0x3) as u32) << 4   // blendmode
            | (((r >> 24) & 0x1F) as u32) << 16; // polyalpha
        let tex_param = xorshift(&mut seed) as u32;
        let tex_palette = (xorshift(&mut seed) & 0x1FFF) as u32;
        let disp_cnt = (xorshift(&mut seed) & 0xF) as u32; // low render flags
        let mut toon = [0u16; 32];
        for e in toon.iter_mut() { *e = xorshift(&mut seed) as u16; }
        let vr = (xorshift(&mut seed) & 0x3F) as u8;
        let vg = (xorshift(&mut seed) & 0x3F) as u8;
        let vb = (xorshift(&mut seed) & 0x3F) as u8;
        let s = xorshift(&mut seed) as i16;
        let t = xorshift(&mut seed) as i16;

        let got = render_pixel(&vram, poly_attr, tex_param, tex_palette, disp_cnt, &toon, vr, vg, vb, s, t);
        let want = reference(&vram, poly_attr, tex_param, tex_palette, disp_cnt, &toon, vr, vg, vb, s, t);
        assert_eq!(got, want, "poly_attr={poly_attr:08x} tex_param={tex_param:08x} disp_cnt={disp_cnt:x} vr={vr} vg={vg} vb={vb} s={s} t={t}");
    }
}

#[test]
fn toon_index_wraps_for_red_components_above_six_bits() {
    let tex = vec![0u8; 512 * 1024];
    let pal = vec![0u8; 128 * 1024];
    let vram = Vram { tex: &tex, pal: &pal };
    let mut toon = [0u16; 32];
    for (i, e) in toon.iter_mut().enumerate() {
        *e = (i as u16) * 0x421;
    }
    let poly_attr = (2 << 4) | (31 << 16); // toon shading, opaque, untextured
    for vr in 0..64u8 {
        let low = render_pixel(&vram, poly_attr, 0, 0, 0, &toon, vr, 1, 2, 0, 0);
        for high in [vr as u16 + 64, vr as u16 + 128, vr as u16 + 192] {
            let got = render_pixel(&vram, poly_attr, 0, 0, 0, &toon, high as u8, 1, 2, 0, 0);
            assert_eq!(got, low, "vr={high}");
        }
    }
}
