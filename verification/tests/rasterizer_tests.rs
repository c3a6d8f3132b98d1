//! Polygon span drawing: the three span parts, depth testing and
//! translucent blending.

use melonink::rasterizer::{check_span, melonink_render_spans, SpanParams};
use melonink::texture::Vram;

fn params() -> SpanParams {
    SpanParams {
        buffer_size: 512,
        scanline_width: 256,
        first_pixel_offset: 0,
        y: 0,
        xstart: 2,
        xend: 5,
        wl: 0x100,
        wr: 0x100,
        zl: 1000,
        zr: 1000,
        rl: 0x1F8,
        gl: 0x1F8,
        bl: 0x1F8,
        sl: 0,
        tl: 0,
        rr: 0x1F8,
        gr: 0x1F8,
        br: 0x1F8,
        sr: 0,
        tr: 0,
        l_edgelen: 1,
        r_edgelen: 1,
        l_edgecov: 0,
        r_edgecov: 0,
        yedge: 0,
        l_filledge: 1,
        r_filledge: 1,
        wireframe: 0,
        is_shadow: 0,
        wbuffer: 0,
        depth_test_mode: 2,
        poly_attr: 0,
        poly_attr_full: 31 << 16,
        tex_param: 0,
        tex_palette: 0,
        disp_cnt: 0,
        alpha_ref: 0,
    }
}

struct Bufs {
    color: Vec<u32>,
    depth: Vec<u32>,
    attr: Vec<u32>,
}

fn draw(p: &SpanParams, b: &mut Bufs) {
    let tex = vec![0u8; 512 * 1024];
    let pal = vec![0u8; 128 * 1024];
    let vram = Vram { tex: &tex, pal: &pal };
    let stencil = [0u8; 512];
    let toon = [0u16; 32];
    melonink_render_spans(p, &mut b.color, &mut b.depth, &mut b.attr, &stencil, &vram, &toon);
}

fn fresh() -> Bufs {
    Bufs { color: vec![0; 1024], depth: vec![0x7FFF_FFFF; 1024], attr: vec![0; 1024] }
}

#[test]
fn opaque_span_fills_its_columns_with_edge_flags() {
    let p = params();
    let mut b = fresh();
    draw(&p, &mut b);
    for x in 0..256 {
        if (2..=5).contains(&x) {
            assert_eq!(b.color[x], 0x1F3F_3F3F, "x={x}");
            assert_eq!(b.depth[x], 1000);
        } else {
            assert_eq!(b.color[x], 0, "x={x}");
            assert_eq!(b.depth[x], 0x7FFF_FFFF);
        }
    }
    assert_eq!(&b.attr[2..6], &[1, 0, 0, 2]);
    assert!(b.color[512..].iter().all(|&c| c == 0));
}

#[test]
fn failing_depth_test_leaves_pixels() {
    let p = params();
    let mut b = fresh();
    for d in b.depth.iter_mut() {
        *d = 500;
    }
    draw(&p, &mut b);
    assert!(b.color.iter().all(|&c| c == 0));
}

#[test]
fn unfilled_edges_are_skipped() {
    let mut p = params();
    p.l_filledge = 0;
    p.r_filledge = 0;
    let mut b = fresh();
    draw(&p, &mut b);
    assert_eq!(b.color[2], 0);
    assert_eq!(b.color[3], 0x1F3F_3F3F);
    assert_eq!(b.color[4], 0x1F3F_3F3F);
    assert_eq!(b.color[5], 0);
}

#[test]
fn translucent_span_blends_over_opaque_pixels() {
    let mut p = params();
    p.poly_attr_full = 15 << 16;
    p.rl = 0;
    p.gl = 0;
    p.bl = 0;
    p.rr = 0;
    p.gr = 0;
    p.br = 0;
    p.disp_cnt = 0x8;
    let mut b = fresh();
    for x in 0..256 {
        b.color[x] = 0x1F3F_3F3F;
    }
    draw(&p, &mut b);
    // 16/32 of black over white: (0*16 + 63*16) >> 5 = 31 per channel, alpha max(15, 31).
    assert_eq!(b.color[3], 0x1F1F_1F1F);
    assert_eq!(b.color[1], 0x1F3F_3F3F);
    // translucent attributes: marked translucent (bit 22), fog flag from bit 15 cleared.
    assert_eq!(b.attr[3], 0x0040_0000);
    // no depth update without bit 11 of the polygon attributes
    assert_eq!(b.depth[3], 0x7FFF_FFFF);
}

#[test]
fn span_check_accepts_the_buffers_it_was_made_for() {
    let p = params();
    assert!(check_span(&p, 1024, 1024, 1024, 512));
    assert!(!check_span(&p, 1000, 1024, 1024, 512));
    assert!(!check_span(&p, 1024, 1024, 1024, 100));
}

#[test]
fn spans_starting_far_left_of_the_screen_are_drawn() {
    let mut p = params();
    p.xstart = -3_000_000;
    p.l_edgelen = 1;
    assert!(check_span(&p, 1024, 1024, 1024, 512));
    let mut b = fresh();
    draw(&p, &mut b);
    // the span reaches column 5; nothing right of it changes
    assert!((0..=5).all(|x| b.color[x] != 0));
    assert!(b.color[6..256].iter().all(|&c| c == 0));
}
