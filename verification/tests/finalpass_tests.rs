//! The final pass on concrete scanlines, and its check of its inputs.

use melonink::finalpass::{check_final_pass, melonink_scanline_final_pass, FinalPassParams};

fn params(disp_cnt: u32, y: i32) -> FinalPassParams {
    FinalPassParams {
        buffer_size: 512,
        scanline_width: 256,
        first_pixel_offset: 0,
        y,
        disp_cnt,
        fog_color: 0,
        fog_offset: 0,
        fog_shift: 0,
    }
}

#[test]
fn final_pass_check_wants_matching_buffers_around_the_line() {
    let depth = vec![0u32; 1024];
    let attr = vec![0u32; 1024];
    assert!(check_final_pass(&params(0, 0), 1024, &depth, &attr));
    assert!(!check_final_pass(&params(0, 0), 1000, &depth, &attr));
    // the line must end inside the first buffer half
    assert!(check_final_pass(&params(0, 1), 1024, &depth, &attr));
    assert!(!check_final_pass(&params(0, 2), 1024, &depth, &attr));
    // edge marking reads the line above, which line 0 does not have
    assert!(!check_final_pass(&params(0x20, 0), 1024, &depth, &attr));
}

#[test]
fn fog_mixes_fogged_pixels_towards_the_fog_colour() {
    let mut p = params(0x80, 0);
    p.fog_color = 0x001F_7FFF; // white, alpha 31
    let depth = vec![0u32; 1024];
    let mut attr = vec![0u32; 1024];
    attr[0] = 0x8000;
    attr[5] = 0x8000;
    let mut color = vec![0u32; 1024];
    // density 64 of 128 everywhere: halfway between black and the fog colour
    melonink_scanline_final_pass(&p, &mut color, &depth, &mut attr, &[0u16; 8], &[64u8; 34]);
    assert_eq!(color[0], 0x0F1F_1F1F);
    assert_eq!(color[5], 0x0F1F_1F1F);
    assert!(color.iter().enumerate().all(|(j, &c)| j == 0 || j == 5 || c == 0));

    // densities of 127 and up saturate at 128: the fog colour itself
    let mut color = vec![0u32; 1024];
    melonink_scanline_final_pass(&p, &mut color, &depth, &mut attr, &[0u16; 8], &[127u8; 34]);
    assert_eq!(color[0], 0x1F3F_3F3F);
}

#[test]
fn antialiasing_blends_edge_pixels_with_the_layer_below() {
    let p = params(0x10, 0);
    let depth = vec![0u32; 1024];
    let mut attr = vec![0u32; 1024];
    let mut color = vec![0u32; 1024];
    // column 3: coverage 0 takes the lower pixel
    attr[3] = 0x0001;
    color[3] = 0x1F00_003F;
    color[3 + 512] = 0x1F00_3F00;
    // column 4: coverage 15 (weight 16/32) mixes top and bottom evenly
    attr[4] = 0x0F01;
    color[4] = 0x1F00_003E;
    color[4 + 512] = 0x1F3E_0000;
    // column 5: full coverage is left alone
    attr[5] = 0x1F01;
    color[5] = 0x1F00_0001;
    color[5 + 512] = 0x1F01_0000;
    melonink_scanline_final_pass(&p, &mut color, &depth, &mut attr, &[0u16; 8], &[0u8; 34]);
    assert_eq!(color[3], 0x1F00_3F00);
    assert_eq!(color[4], 0x1F1F_001F);
    assert_eq!(color[5], 0x1F00_0001);
}
