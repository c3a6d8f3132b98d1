//! The colour effects on concrete pixels: exact blend and brightness
//! values, and the cases in which an effect leaves the top layer as it is.

use melonink::composite::{
    color_blend4, color_blend5, color_brightness_down, color_brightness_up, composite_scalar, Regs,
};

const PIXELS: [u32; 6] = [0x0000_0000, 0x003F_3F3F, 0x1F12_2334, 0x80FF_FFFF, 0x4001_0203, 0xC03F_003F];

#[test]
fn blend4_weighs_channels_in_sixteenths() {
    // red 0x3F over red 0 at 8/16 + 8/16: (0x3F*8 + 8) >> 4 = 32
    assert_eq!(color_blend4(0x3F, 0, 8, 8), 0xFF00_0020);
    // all channels saturate at 0x3F
    assert_eq!(color_blend4(0x3F3F3F, 0x3F3F3F, 16, 16), 0xFF3F_3F3F);
    // green 0x10 over green 0x20 at 4/16 + 12/16: (0x1000*4 + 0x2000*12 + 0x800) >> 4 = 0x1C80, & 0x7F00
    assert_eq!(color_blend4(0x1000, 0x2000, 4, 12), 0xFF00_1C00);
}

#[test]
fn blend4_with_full_top_weight_keeps_top_colour() {
    for &v1 in &PIXELS {
        for &v2 in &PIXELS {
            assert_eq!(color_blend4(v1, v2, 16, 0), (v1 & 0x3F3F3F) | 0xFF00_0000);
        }
    }
}

#[test]
fn blend5_uses_the_top_pixels_alpha() {
    // alpha 31 (weight 32/32) returns the top pixel untouched
    assert_eq!(color_blend5(0x1F00_003F, 0x0000_0000), 0x1F00_003F);
    // alpha 15 (weight 16/32): (0x3F*16 + 0*16 + 0x10) >> 5 = 32
    assert_eq!(color_blend5(0x0F00_003F, 0x0000_0000), 0xFF00_0020);
}

#[test]
fn brightness_moves_channels_towards_white_or_black() {
    // up by 16/16 from black: (0x3F*16 + 8) >> 4 = 0x3F per channel
    assert_eq!(color_brightness_up(0, 16, 0x8), 0xFF3F_3F3F);
    // down by 16/16 from white: 0x3F - ((0x3F*16 + 7) >> 4) = 0
    assert_eq!(color_brightness_down(0x3F3F3F, 16, 0x7), 0xFF00_0000);
    // up by 8/16 from 0x20 red: 0x20 + ((0x1F*8 + 8) >> 4) = 0x20 + 0x10
    assert_eq!(color_brightness_up(0x20, 8, 0x8) & 0x3F, 0x30);
}

#[test]
fn brightness_by_zero_keeps_colour() {
    for &v in &PIXELS {
        assert_eq!(color_brightness_up(v, 0, 0x8), (v & 0x3F3F3F) | 0xFF00_0000);
        assert_eq!(color_brightness_down(v, 0, 0x7), (v & 0x3F3F3F) | 0xFF00_0000);
    }
}

#[test]
fn no_blend_targets_keep_the_top_layer() {
    let r = Regs { blend_cnt: 0, eva: 7, evb: 9, evy: 5 };
    for &v1 in &PIXELS {
        for &v2 in &PIXELS {
            for wm in [0u8, 0x20, 0xFF] {
                assert_eq!(composite_scalar(v1, v2, wm, &r), v1);
            }
        }
    }
}
