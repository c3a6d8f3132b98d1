//! Texture lookup against an independent reference model of the DS texture
//! sampler, plus hand-built single-texel cases.

use melonink::texture::{texture_lookup, Vram};

struct RefVram<'a> {
    tex: &'a [u8],
    pal: &'a [u8],
}
impl RefVram<'_> {
    fn t8(&self, a: u32) -> u32 {
        self.tex[(a & 0x7FFFF) as usize] as u32
    }
    fn t16(&self, a: u32) -> u32 {
        let i = (a & 0x7FFFF) as usize;
        self.tex[i] as u32 | ((self.tex[(i + 1) & 0x7FFFF] as u32) << 8)
    }
    fn p16(&self, a: u32) -> u32 {
        let i = (a & 0x1FFFF) as usize;
        self.pal[i] as u32 | ((self.pal[(i + 1) & 0x1FFFF] as u32) << 8)
    }
}

fn reference(rv: &RefVram, texparam: u32, texpal: u32, s_in: i16, t_in: i16) -> (u16, u8) {
    let mut vramaddr = (texparam & 0xFFFF).wrapping_shl(3);
    let width = 8i64 << ((texparam >> 20) & 0x7);
    let height = 8i64 << ((texparam >> 23) & 0x7);
    let mut s = (s_in as i64) >> 4;
    let mut t = (t_in as i64) >> 4;

    if texparam & (1 << 16) != 0 {
        if texparam & (1 << 18) != 0 {
            s = if s & width != 0 { (width - 1) - (s & (width - 1)) } else { s & (width - 1) };
        } else {
            s &= width - 1;
        }
    } else {
        s = s.clamp(0, width - 1);
    }
    if texparam & (1 << 17) != 0 {
        if texparam & (1 << 19) != 0 {
            t = if t & height != 0 { (height - 1) - (t & (height - 1)) } else { t & (height - 1) };
        } else {
            t &= height - 1;
        }
    } else {
        t = t.clamp(0, height - 1);
    }

    let alpha0: u8 = if texparam & (1 << 29) != 0 { 0 } else { 31 };
    let fmt = (texparam >> 26) & 0x7;
    let s = s as i64;
    let t = t as i64;
    let w = width;
    let add = |base: u32, off: i64| -> u32 { (base as i64).wrapping_add(off) as u32 };

    let mut color = 0u16;
    let mut alpha = 0u8;
    match fmt {
        1 => {
            vramaddr = add(vramaddr, t * w + s);
            let px = rv.t8(vramaddr);
            let tp = texpal << 4;
            color = rv.p16(tp + ((px & 0x1F) << 1)) as u16;
            alpha = (((px >> 3) & 0x1C) + (px >> 6)) as u8;
        }
        2 => {
            vramaddr = add(vramaddr, (t * w + s) >> 2);
            let mut px = rv.t8(vramaddr);
            px >>= (s as u32 & 0x3) << 1;
            px &= 0x3;
            let tp = texpal << 3;
            color = rv.p16(tp + (px << 1)) as u16;
            alpha = if px == 0 { alpha0 } else { 31 };
        }
        3 => {
            vramaddr = add(vramaddr, (t * w + s) >> 1);
            let mut px = rv.t8(vramaddr);
            if s & 1 != 0 { px >>= 4 } else { px &= 0xF }
            let tp = texpal << 4;
            color = rv.p16(tp + (px << 1)) as u16;
            alpha = if px == 0 { alpha0 } else { 31 };
        }
        4 => {
            vramaddr = add(vramaddr, t * w + s);
            let px = rv.t8(vramaddr);
            let tp = texpal << 4;
            color = rv.p16(tp + (px << 1)) as u16;
            alpha = if px == 0 { alpha0 } else { 31 };
        }
        5 => {
            vramaddr = add(vramaddr, (t & 0x3FC) * (w >> 2));
            vramaddr = add(vramaddr, s & 0x3FC);
            vramaddr = add(vramaddr, t & 0x3);
            vramaddr &= 0x7FFFF;
            let mut slot1 = 0x20000 + ((vramaddr & 0x1FFFC) >> 1);
            if vramaddr >= 0x40000 {
                slot1 += 0x10000;
            }
            let val = if (0x20000..0x40000).contains(&vramaddr) {
                0
            } else {
                rv.t8(vramaddr) >> (2 * (s as u32 & 0x3))
            };
            let palinfo = rv.t16(slot1);
            let paloff = (palinfo & 0x3FFF) << 2;
            let tp = texpal << 4;
            let mix = |wa: u32, wb: u32, sh: u32| -> u16 {
                let c0 = rv.p16(tp + paloff);
                let c1 = rv.p16(tp + paloff + 2);
                let r = ((c0 & 0x1F) * wa + (c1 & 0x1F) * wb) >> sh;
                let g = (((c0 & 0x3E0) * wa + (c1 & 0x3E0) * wb) >> sh) & 0x3E0;
                let b = (((c0 & 0x7C00) * wa + (c1 & 0x7C00) * wb) >> sh) & 0x7C00;
                (r | g | b) as u16
            };
            match val & 0x3 {
                0 => { color = rv.p16(tp + paloff) as u16; alpha = 31; }
                1 => { color = rv.p16(tp + paloff + 2) as u16; alpha = 31; }
                2 => {
                    color = match palinfo >> 14 {
                        1 => mix(1, 1, 1),
                        3 => mix(5, 3, 3),
                        _ => rv.p16(tp + paloff + 4) as u16,
                    };
                    alpha = 31;
                }
                3 => match palinfo >> 14 {
                    2 => { color = rv.p16(tp + paloff + 6) as u16; alpha = 31; }
                    3 => { color = mix(3, 5, 3); alpha = 31; }
                    _ => { color = 0; alpha = 0; }
                },
                _ => unreachable!(),
            }
        }
        6 => {
            vramaddr = add(vramaddr, t * w + s);
            let px = rv.t8(vramaddr);
            let tp = texpal << 4;
            color = rv.p16(tp + ((px & 0x7) << 1)) as u16;
            alpha = (px >> 3) as u8;
        }
        7 => {
            vramaddr = add(vramaddr, (t * w + s) << 1);
            color = rv.t16(vramaddr) as u16;
            alpha = if color & 0x8000 != 0 { 31 } else { 0 };
        }
        _ => {}
    }
    (color, alpha)
}

fn xorshift(s: &mut u64) -> u64 {
    let mut x = *s;
    x ^= x << 13;
    x ^= x >> 7;
    x ^= x << 17;
    *s = x;
    x
}

#[test]
fn fuzz_matches_independent_reference() {
    // Random VRAM contents, then sweep random texture parameters across all
    // formats / sizes / wrap modes / palettes / texcoords.
    let mut seed = 0x9E3779B97F4A7C15u64;
    let mut tex = vec![0u8; 512 * 1024];
    let mut pal = vec![0u8; 128 * 1024];
    for b in tex.iter_mut() {
        *b = xorshift(&mut seed) as u8;
    }
    for b in pal.iter_mut() {
        *b = xorshift(&mut seed) as u8;
    }
    let prod = Vram { tex: &tex, pal: &pal };
    let refv = RefVram { tex: &tex, pal: &pal };

    let cases = 3_000_000u64;
    for _ in 0..cases {
        let r = xorshift(&mut seed);
        let format = ((r >> 0) & 0x7) as u32;
        let wlog = ((r >> 3) & 0x7) as u32;
        let hlog = ((r >> 6) & 0x7) as u32;
        // wrap/flip bits 16..19, color0-transparent bit 29, offset bits 0..15
        let wrapbits = ((r >> 9) & 0xF) as u32; // -> bits 16..19
        let c0 = ((r >> 13) & 0x1) as u32; // -> bit 29
        let offset = (xorshift(&mut seed) & 0xFFFF) as u32; // bits 0..15
        let texparam = offset
            | (wrapbits << 16)
            | (format << 26)
            | (wlog << 20)
            | (hlog << 23)
            | (c0 << 29);
        let texpal = (xorshift(&mut seed) & 0x1FFF) as u32;
        let s = xorshift(&mut seed) as i16;
        let t = xorshift(&mut seed) as i16;

        let got = texture_lookup(&prod, texparam, texpal, s, t);
        let want = reference(&refv, texparam, texpal, s, t);
        assert_eq!(
            got, want,
            "texparam={texparam:08x} texpal={texpal:x} s={s} t={t}"
        );
    }
}

fn vram(tex: Vec<u8>, pal: Vec<u8>) -> (Vec<u8>, Vec<u8>) {
    let mut t = vec![0u8; 512 * 1024];
    let mut p = vec![0u8; 128 * 1024];
    t[..tex.len()].copy_from_slice(&tex);
    p[..pal.len()].copy_from_slice(&pal);
    (t, p)
}

// texparam fields: bits 26..28 = format, 20..22 = width log, 23..25 = height
// log, bit 29 = color0 transparent, bits 0..15 = VRAM offset (>>3).
fn texparam(format: u32, wlog: u32, hlog: u32) -> u32 {
    (format << 26) | (wlog << 20) | (hlog << 23)
}

#[test]
fn format0_untextured_returns_zero() {
    let (t, p) = vram(vec![], vec![]);
    let v = Vram { tex: &t, pal: &p };
    assert_eq!(texture_lookup(&v, texparam(0, 0, 0), 0, 0, 0), (0, 0));
}

#[test]
fn direct_color_reads_bgr555_and_alpha_bit() {
    // format 7, 8x8, texel (0,0) at vramaddr 0. Put 0x8123 there.
    let (t, p) = vram(vec![0x23, 0x81], vec![]);
    let v = Vram { tex: &t, pal: &p };
    let (color, alpha) = texture_lookup(&v, texparam(7, 0, 0), 0, 0, 0);
    assert_eq!(color, 0x8123);
    assert_eq!(alpha, 31, "high bit set -> opaque");

    // Clear the high bit -> transparent.
    let (t2, p2) = vram(vec![0x23, 0x01], vec![]);
    let v2 = Vram { tex: &t2, pal: &p2 };
    let (_, alpha2) = texture_lookup(&v2, texparam(7, 0, 0), 0, 0, 0);
    assert_eq!(alpha2, 0);
}

#[test]
fn palette256_indexes_palette() {
    // format 4, texel 0 = palette index 5; palette[5] = 0x1234.
    let mut tex = vec![0u8; 8];
    tex[0] = 5;
    let mut pal = vec![0u8; 32];
    pal[10] = 0x34; // entry 5 -> byte offset 5*2 = 10
    pal[11] = 0x12;
    let (t, p) = vram(tex, pal);
    let v = Vram { tex: &t, pal: &p };
    // texpal=0 so palette base 0.
    let (color, alpha) = texture_lookup(&v, texparam(4, 0, 0), 0, 0, 0);
    assert_eq!(color, 0x1234);
    assert_eq!(alpha, 31, "nonzero index -> opaque");
}

#[test]
fn palette256_index0_uses_alpha0_flag() {
    let tex = vec![0u8; 8]; // index 0
    let pal = vec![0u8; 32];
    let (t, p) = vram(tex, pal);
    let v = Vram { tex: &t, pal: &p };
    // bit29 clear -> alpha0 = 31 (opaque)
    let (_, a_opaque) = texture_lookup(&v, texparam(4, 0, 0), 0, 0, 0);
    assert_eq!(a_opaque, 31);
    // bit29 set -> alpha0 = 0 (transparent)
    let (_, a_trans) = texture_lookup(&v, texparam(4, 0, 0) | (1 << 29), 0, 0, 0);
    assert_eq!(a_trans, 0);
}

#[test]
fn clamp_wrapping_keeps_s_in_range() {
    // format 4, 8x8, no repeat (clamp). s far beyond width clamps to 7.
    let mut tex = vec![0u8; 64];
    tex[7] = 9; // texel (7,0)
    let mut pal = vec![0u8; 64];
    pal[18] = 0xCD; // entry 9 -> 18
    pal[19] = 0xAB;
    let (t, p) = vram(tex, pal);
    let v = Vram { tex: &t, pal: &p };
    // s = 100 << 4 (pre >>4), clamps to width-1 = 7.
    let (color, _) = texture_lookup(&v, texparam(4, 0, 0), 0, 100 << 4, 0);
    assert_eq!(color, 0xABCD);
}

#[test]
fn mirrored_repeat_in_s_samples_the_same_texel() {
    let mut seed = 0x1234_5678u64;
    let tex: Vec<u8> = (0..4096).map(|_| xorshift(&mut seed) as u8).collect();
    let pal: Vec<u8> = (0..4096).map(|_| xorshift(&mut seed) as u8).collect();
    let (t, p) = vram(tex, pal);
    let v = Vram { tex: &t, pal: &p };
    // 256-colour 16x8 texture, S repeat + flip
    let tp = texparam(4, 1, 0) | (1 << 16) | (1 << 18);
    let w = 16i32;
    for k in 0..w {
        for tt in [0i16, 16 * 3, 16 * 7] {
            let a = texture_lookup(&v, tp, 0, (16 * k) as i16, tt);
            let b = texture_lookup(&v, tp, 0, (16 * (2 * w - 1 - k)) as i16, tt);
            assert_eq!(a, b, "k={k} t={tt}");
        }
    }
}
