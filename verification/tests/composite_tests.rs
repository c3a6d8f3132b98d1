//! Colour compositing against an independent reference model of the 2D
//! engine's colour effects.

use melonink::composite::{composite_scalar, Regs};

/// Independent reference model of the colour compositor, kept deliberately
/// literal (one branch per hardware case) so it can be read against the
/// hardware description.
fn reference(i: usize, val1: u32, val2: u32, window_mask: &[u8], r: &Regs) -> u32 {
    // Unsigned 32-bit arithmetic wraps; written with explicit u64
    // intermediates + truncation to stay independent of the impl's
    // wrapping_* formulation.
    fn wmul(a: u32, b: u32) -> u32 {
        ((a as u64 * b as u64) & 0xFFFF_FFFF) as u32
    }
    fn wadd(a: u32, b: u32) -> u32 {
        ((a as u64 + b as u64) & 0xFFFF_FFFF) as u32
    }
    fn wsub(a: u32, b: u32) -> u32 {
        ((a as i64 - b as i64) as u64 & 0xFFFF_FFFF) as u32
    }
    fn color_blend4(val1: u32, val2: u32, eva: u32, evb: u32) -> u32 {
        let mut r = wadd(wadd(wmul(val1 & 0x00003F, eva), wmul(val2 & 0x00003F, evb)), 0x000008) >> 4;
        let mut g = (wadd(wadd(wmul(val1 & 0x003F00, eva), wmul(val2 & 0x003F00, evb)), 0x000800) >> 4) & 0x007F00;
        let mut b = (wadd(wadd(wmul(val1 & 0x3F0000, eva), wmul(val2 & 0x3F0000, evb)), 0x080000) >> 4) & 0x7F0000;
        if r > 0x00003F {
            r = 0x00003F;
        }
        if g > 0x003F00 {
            g = 0x003F00;
        }
        if b > 0x3F0000 {
            b = 0x3F0000;
        }
        r | g | b | 0xFF000000
    }
    fn color_blend5(val1: u32, val2: u32) -> u32 {
        let eva = ((val1 >> 24) & 0x1F) + 1;
        let evb = 32 - eva;
        if eva == 32 {
            return val1;
        }
        let mut r = wadd(wadd(wmul(val1 & 0x00003F, eva), wmul(val2 & 0x00003F, evb)), 0x000010) >> 5;
        let mut g = (wadd(wadd(wmul(val1 & 0x003F00, eva), wmul(val2 & 0x003F00, evb)), 0x001000) >> 5) & 0x007F00;
        let mut b = (wadd(wadd(wmul(val1 & 0x3F0000, eva), wmul(val2 & 0x3F0000, evb)), 0x100000) >> 5) & 0x7F0000;
        if r > 0x00003F {
            r = 0x00003F;
        }
        if g > 0x003F00 {
            g = 0x003F00;
        }
        if b > 0x3F0000 {
            b = 0x3F0000;
        }
        r | g | b | 0xFF000000
    }
    fn brightness_up(val: u32, factor: u32, bias: u32) -> u32 {
        let rb = val & 0x3F003F;
        let g = val & 0x003F00;
        let rb = wadd(rb, (wadd(wmul(wsub(0x3F003F, rb), factor), wmul(bias, 0x010001)) >> 4) & 0x3F003F);
        let g = wadd(g, (wadd(wmul(wsub(0x003F00, g), factor), wmul(bias, 0x000100)) >> 4) & 0x003F00);
        rb | g | 0xFF000000
    }
    fn brightness_down(val: u32, factor: u32, bias: u32) -> u32 {
        let rb = val & 0x3F003F;
        let g = val & 0x003F00;
        let rb = wsub(rb, (wadd(wmul(rb, factor), wmul(bias, 0x010001)) >> 4) & 0x3F003F);
        let g = wsub(g, (wadd(wmul(g, factor), wmul(bias, 0x000100)) >> 4) & 0x003F00);
        rb | g | 0xFF000000
    }

    let mut coloreffect;
    let mut eva = 0u32;
    let mut evb = 0u32;
    let mut flag1 = val1 >> 24;
    let flag2 = val2 >> 24;
    let blend_cnt = r.blend_cnt;

    let target2 = if flag2 & 0x80 != 0 {
        0x1000
    } else if flag2 & 0x40 != 0 {
        0x0100
    } else {
        flag2 << 8
    };

    if (flag1 & 0x80 != 0) && (blend_cnt & target2 != 0) {
        coloreffect = 1;
        if flag1 & 0x40 != 0 {
            eva = flag1 & 0x1F;
            evb = wsub(16, eva);
        } else {
            eva = r.eva;
            evb = r.evb;
        }
    } else if (flag1 & 0x40 != 0) && (blend_cnt & target2 != 0) {
        coloreffect = 4;
    } else {
        if flag1 & 0x80 != 0 {
            flag1 = 0x10;
        } else if flag1 & 0x40 != 0 {
            flag1 = 0x01;
        }
        coloreffect = 0;
        if (blend_cnt & flag1 != 0) && (window_mask[i] & 0x20 != 0) {
            coloreffect = (blend_cnt >> 6) & 0x3;
            if coloreffect == 1 {
                if blend_cnt & target2 != 0 {
                    eva = r.eva;
                    evb = r.evb;
                } else {
                    coloreffect = 0;
                }
            }
        }
    }

    match coloreffect {
        1 => color_blend4(val1, val2, eva, evb),
        2 => brightness_up(val1, r.evy, 0x8),
        3 => brightness_down(val1, r.evy, 0x7),
        4 => color_blend5(val1, val2),
        _ => val1,
    }
}

fn xorshift(state: &mut u64) -> u64 {
    let mut x = *state;
    x ^= x << 13;
    x ^= x >> 7;
    x ^= x << 17;
    *state = x;
    x
}

#[test]
fn scalar_matches_reference_exhaustive_flags() {
    // Flags drive every branch; colors only flow through arithmetic.
    // Sweep all flag byte pairs x several register configs x both window
    // states, with varied color bits.
    let regcfgs = [
        Regs { blend_cnt: 0x0000, eva: 16, evb: 0, evy: 0 },
        Regs { blend_cnt: 0x3FFF, eva: 7, evb: 9, evy: 5 },
        Regs { blend_cnt: 0x0040 | 0x001F, eva: 31, evb: 31, evy: 16 },
        Regs { blend_cnt: 0x0080 | 0x1F00, eva: 0, evb: 16, evy: 31 },
        Regs { blend_cnt: 0x00C0 | 0x0234, eva: 12, evb: 4, evy: 9 },
        Regs { blend_cnt: 0x0100 | 0x0E81, eva: 1, evb: 15, evy: 2 },
    ];
    let mut rng = 0x12345678ABCDEFu64;
    for regs in &regcfgs {
        for f1 in 0..=255u32 {
            for f2 in 0..=255u32 {
                for wm in [0u8, 0x20u8] {
                    let c1 = (xorshift(&mut rng) as u32) & 0x003F3F3F;
                    let c2 = (xorshift(&mut rng) as u32) & 0x003F3F3F;
                    let val1 = (f1 << 24) | c1;
                    let val2 = (f2 << 24) | c2;
                    let wmask = [wm; 256];
                    let got = composite_scalar(val1, val2, wm, regs);
                    let want = reference(0, val1, val2, &wmask, regs);
                    assert_eq!(
                        got, want,
                        "f1={f1:02x} f2={f2:02x} wm={wm:02x} val1={val1:08x} val2={val2:08x} regs={regs:?}"
                    );
                }
            }
        }
    }
}
