//! Text and affine backgrounds and sprites drawn on concrete lines.

use melonink::bg::{melonink_drawbg_text, BgTextParams};
use melonink::bg_affine::{melonink_drawbg_affine, BgAffineParams, MODE_EXT_BITMAP_DIRECT};
use melonink::sprite::{check_sprite, melonink_draw_sprite, SpriteParams};

fn layer_line() -> Vec<u32> {
    let mut line = vec![0x11u32; 256];
    line.extend(vec![0x22u32; 256]);
    line.extend(vec![0x33u32; 256]);
    line
}

#[test]
fn text_background_draws_its_tile_row_and_pushes_the_layer_down() {
    let mut vram = vec![0u8; 0x10000];
    // map entry of the second tile column (x 8..15): tile 1
    vram[2] = 1;
    // row 0 of tile 1 (256 colours, 64 bytes per tile): indices 1..=8
    for k in 0..8 {
        vram[0x4000 + 64 + k] = (k + 1) as u8;
    }
    let pal: Vec<u16> = (0..256u16).collect();
    let extpal = vec![0u16; 16 * 256];
    let mut wmask = vec![0x01u8; 256];
    wmask[9] = 0; // window hides the background at column 9
    let p = BgTextParams {
        bgvrammask: 0xFFFF,
        bgnum: 0,
        xoff: 0,
        yoff: 0,
        tilesetaddr: 0x4000,
        tilemapaddr: 0,
        widexmask: 0,
        is_256: 1,
        extpal: 0,
        mosaic: 0,
        accel: 0,
    };
    let mut line = layer_line();
    melonink_drawbg_text(&p, &vram, &pal, &extpal, &wmask, &[0u8; 256], &mut line);
    for i in 0..256 {
        let drawn = (8..16).contains(&i) && i != 9;
        if drawn {
            // colour index i-7 is BGR555 red i-7, widened to 6 bits, BG0 flag
            assert_eq!(line[i], 0x0100_0000 | (2 * (i as u32 - 7)), "column {i}");
            assert_eq!(line[i + 256], 0x11);
        } else {
            assert_eq!(line[i], 0x11, "column {i}");
            assert_eq!(line[i + 256], 0x22);
        }
        assert_eq!(line[i + 512], 0x33);
    }
}

fn sprite(window: u8) -> SpriteParams {
    SpriteParams {
        objvrammask: 0xFFFF,
        disp_cnt: 0,
        attrib0: 0x2000, // 256 colours
        attrib1: 0,
        attrib2: 0,
        rot_a: 0x100,
        rot_b: 0,
        rot_c: 0,
        rot_d: 0x100,
        width: 8,
        height: 8,
        boundwidth: 8,
        boundheight: 8,
        xpos: 10,
        ypos: 0,
        window,
        rotscale: 0,
    }
}

#[test]
fn normal_sprite_stores_indices_with_its_attributes() {
    let mut vram = vec![0u8; 0x10000];
    for k in 0..8 {
        vram[k] = k as u8;
    }
    let mut line = vec![0u32; 256];
    let mut win = vec![0u8; 256];
    melonink_draw_sprite(&sprite(0), &vram, &mut line, &mut win);
    // index 0 is transparent: it only marks the empty entry with the mosaic/priority bits
    assert_eq!(line[10], 0x0008_0000);
    for x in 11..18 {
        assert_eq!(line[x], (x as u32 - 10) | 0x100C_1000, "column {x}");
    }
    assert!(line[..10].iter().chain(&line[18..]).all(|&v| v == 0));
    assert!(win.iter().all(|&w| w == 0));
}

#[test]
fn window_sprite_marks_the_window_only() {
    let mut vram = vec![0u8; 0x10000];
    for k in 0..8 {
        vram[k] = k as u8;
    }
    let mut line = vec![0u32; 256];
    let mut win = vec![0u8; 256];
    melonink_draw_sprite(&sprite(1), &vram, &mut line, &mut win);
    assert!(line.iter().all(|&v| v == 0));
    for x in 0..256 {
        assert_eq!(win[x], if (11..18).contains(&x) { 1 } else { 0 }, "column {x}");
    }
}

#[test]
fn direct_colour_bitmap_walks_its_row_and_pushes_three_layers() {
    let mut vram = vec![0u8; 0x20000];
    // row 2 of a 256-pixel-wide direct-colour bitmap: opaque colour i at x = i,
    // except x = 5 (alpha bit clear)
    for i in 0..256usize {
        let c: u16 = if i == 5 { 5 } else { 0x8000 | i as u16 };
        let a = (2 * 256 + i) * 2;
        vram[a] = c as u8;
        vram[a + 1] = (c >> 8) as u8;
    }
    let p = BgAffineParams {
        bgvrammask: 0x1FFFF,
        bgnum: 2,
        mode: MODE_EXT_BITMAP_DIRECT,
        tileset_addr: 0,
        tilemap_addr: 0,
        mask_x: 0xFFFF,
        mask_y: 0xFFFF,
        yshift: 8,
        ovmask_x: 0,
        ovmask_y: 0,
        rot_x: 0,
        rot_y: 2 << 8,
        rot_a: 0x100,
        rot_c: 0,
        mosaic: 0,
        accel: 1,
        extpal: 0,
    };
    let mut line = layer_line();
    let wmask = vec![0x04u8; 256];
    melonink_drawbg_affine(&p, &vram, &[0u16; 256], &[0u16; 16 * 256], &wmask, &[0u8; 256], &mut line);
    assert_eq!(line[0], 0x0400_0000);
    assert_eq!(line[1], 0x0400_0002);
    assert_eq!(line[33], 0x0400_0202);
    assert_eq!((line[1 + 256], line[1 + 512]), (0x11, 0x22));
    assert_eq!((line[5], line[5 + 256], line[5 + 512]), (0x11, 0x22, 0x33));
}

#[test]
fn a_row_below_the_sprite_reads_the_next_tile_row() {
    // an 8x8 sprite asked for row 8: 2D mapping moves on one tile row (0x20 tiles)
    let mut vram = vec![0u8; 0x10000];
    for k in 0..8 {
        vram[0x400 + k] = (k + 1) as u8;
    }
    let mut p = sprite(0);
    p.xpos = 0;
    p.ypos = 8;
    assert!(check_sprite(&p, vram.len(), 256, 256));
    let mut line = vec![0u32; 256];
    let mut win = vec![0u8; 256];
    melonink_draw_sprite(&p, &vram, &mut line, &mut win);
    for x in 0..8 {
        assert_eq!(line[x], (x as u32 + 1) | 0x100C_1000, "column {x}");
    }
    assert!(line[8..].iter().all(|&v| v == 0));
}

#[test]
fn a_sprite_far_left_of_the_screen_draws_nothing() {
    let vram = vec![1u8; 0x10000];
    let mut p = sprite(0);
    p.xpos = -100_000;
    assert!(check_sprite(&p, vram.len(), 256, 256));
    let mut line = vec![0u32; 256];
    let mut win = vec![0u8; 256];
    melonink_draw_sprite(&p, &vram, &mut line, &mut win);
    assert!(line.iter().all(|&v| v == 0));
}

#[test]
fn alpha_zero_bitmap_sprite_draws_nothing_on_any_row() {
    let vram = vec![0xFFu8; 0x10000];
    let mut p = sprite(0);
    p.attrib0 = 3 << 10; // bitmap
    p.attrib2 = 0; // alpha 0
    p.ypos = -40;
    p.rotscale = 1;
    p.boundwidth = 300;
    p.boundheight = 7;
    p.xpos = -5;
    assert!(check_sprite(&p, vram.len(), 256, 256));
    let mut line = vec![0u32; 256];
    let mut win = vec![0u8; 256];
    melonink_draw_sprite(&p, &vram, &mut line, &mut win);
    assert!(line.iter().all(|&v| v == 0));
    assert!(win.iter().all(|&v| v == 0));
}

#[test]
fn sprite_check_refuses_overflowing_rows() {
    let mut p = sprite(0);
    p.attrib0 = 3 << 10; // bitmap, 2D mapping: row offset = row * 256
    p.attrib2 = 0xF000; // alpha 15
    p.ypos = -1; // a negative row turns into a huge unsigned offset
    assert!(!check_sprite(&p, 0x10000, 256, 256));
    p.ypos = 3;
    assert!(check_sprite(&p, 0x10000, 256, 256));
    p.xpos = i32::MIN;
    assert!(!check_sprite(&p, 0x10000, 256, 256));
}
