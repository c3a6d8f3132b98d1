//! The text-background pixel loops of the 2D engine (256-colour and
//! 16-colour tiles, optional mosaic, extended palettes). The scanline walks
//! the tile map from X offset `xoff` (a 16-bit counter that wraps), loading
//! a new tile entry whenever it enters a new tile (or, with mosaic, a new
//! mosaic block).

use vstd::prelude::*;
use crate::arith::{
    wrap32, lemma_wrap_add, lemma_wrap32_add, lemma_and_le_u8, lemma_and_le_u16, lemma_and_le_u32,
    lemma_shr_u8, lemma_shr_u16, lemma_shr_u32, lemma_low_mask_u32,
};
use crate::line::{
    expand_spec, expand_color, push_line, writes_upto, draw_pixel, lemma_push_step,
    lemma_push_none, lemma_push_all, vram8, vram16, read8, read16,
};

verus! {

/// Scalar parameters of a text-background scanline.
pub struct BgTextParams {
    pub bgvrammask: u32,
    pub bgnum: u32,
    pub xoff: u32,
    pub yoff: u32,
    pub tilesetaddr: u32,
    pub tilemapaddr: u32,
    pub widexmask: u32,
    pub is_256: u8,
    pub extpal: u8,
    pub mosaic: u8,
    pub accel: u8,
}

/// What a text scanline needs of its inputs.
pub open spec fn text_requires(
    p: BgTextParams,
    bgvram_len: int,
    pal_len: int,
    extpal_len: int,
    wmask_len: int,
    bgobj_len: int,
    mosaic_len: int,
) -> bool {
    &&& bgvram_len > p.bgvrammask
    &&& p.bgvrammask < u32::MAX
    &&& pal_len >= 256
    &&& extpal_len >= 16 * 256
    &&& wmask_len >= 256
    &&& bgobj_len >= 768
    &&& mosaic_len >= 256
    &&& p.bgnum < 8
}

/// The 16-bit X counter at column `i`.
pub open spec fn text_xoff(p: BgTextParams, i: int) -> u32 {
    (((p.xoff & 0xFFFF) + i) % 0x10000) as u32
}

/// The X position sampled at column `i` (pulled back by the mosaic table).
pub open spec fn text_xpos(p: BgTextParams, mosaic_table: Seq<u8>, i: int) -> u32 {
    if p.mosaic != 0 {
        wrap32(text_xoff(p, i) - mosaic_table[i])
    } else {
        text_xoff(p, i)
    }
}

/// Tile-map entry address for X position `x`.
pub open spec fn tilemap_entry_addr(p: BgTextParams, x: u32) -> u32 {
    wrap32(p.tilemapaddr + ((x & 0xF8) >> 2u32) + ((x & p.widexmask) << 3u32))
}

/// Address of the row of tile `curtile`'s pixels on this scanline.
pub open spec fn tile_row_addr(p: BgTextParams, curtile: u16) -> u32 {
    let row: u32 = if curtile & 0x0800 != 0 { (7 - (p.yoff & 0x7)) as u32 } else { p.yoff & 0x7 };
    if p.is_256 != 0 {
        wrap32(p.tilesetaddr + (curtile & 0x03FF) * 64 + row * 8)
    } else {
        wrap32(p.tilesetaddr + (curtile & 0x03FF) * 32 + row * 4)
    }
}

/// The loaded state (tile entry, pixel row address, last X) for X `x`.
pub open spec fn load_tile(p: BgTextParams, bgvram: Seq<u8>, x: u32, lastxpos: u32) -> (u16, u32, u32) {
    let curtile = vram16(bgvram, p.bgvrammask, tilemap_entry_addr(p, x));
    (curtile, tile_row_addr(p, curtile), if p.mosaic != 0 { x } else { lastxpos })
}

/// The state before the first column: loaded for the starting X when it is
/// inside a tile or mosaic is on, and empty otherwise.
pub open spec fn text_init(p: BgTextParams, bgvram: Seq<u8>) -> (u16, u32, u32) {
    let x0 = p.xoff & 0xFFFF;
    if x0 & 0x7 != 0 || p.mosaic != 0 {
        load_tile(p, bgvram, x0, 0)
    } else {
        (0, 0, 0)
    }
}

/// Whether column `i` loads a new tile entry, given the last loaded X.
pub open spec fn text_reload(p: BgTextParams, mosaic_table: Seq<u8>, i: int, lastxpos: u32) -> bool {
    let xpos = text_xpos(p, mosaic_table, i);
    if p.mosaic != 0 {
        xpos >> 3u32 != lastxpos >> 3u32
    } else {
        xpos & 0x7 == 0
    }
}

/// The state used to draw column `i`.
pub open spec fn text_state(p: BgTextParams, bgvram: Seq<u8>, mosaic_table: Seq<u8>, i: int) -> (
    u16,
    u32,
    u32,
)
    decreases i,
{
    let prev = if i <= 0 { text_init(p, bgvram) } else { text_state(p, bgvram, mosaic_table, i - 1) };
    if text_reload(p, mosaic_table, i, prev.2) {
        load_tile(p, bgvram, text_xpos(p, mosaic_table, i), prev.2)
    } else {
        prev
    }
}

/// The colour index of column `i` read from the tile row.
pub open spec fn text_index(p: BgTextParams, bgvram: Seq<u8>, xpos: u32, st: (u16, u32, u32)) -> u8 {
    let tilexoff: u32 = if st.0 & 0x0400 != 0 { (7 - (xpos & 0x7)) as u32 } else { xpos & 0x7 };
    if p.is_256 != 0 {
        vram8(bgvram, p.bgvrammask, wrap32(st.1 + tilexoff))
    } else {
        let b = vram8(bgvram, p.bgvrammask, wrap32(st.1 + tilexoff / 2));
        if tilexoff & 1 != 0 { b >> 4u8 } else { b & 0x0F }
    }
}

/// Column `xpos` of a 16-colour tile row: the texel's column within the
/// tile (`xpos mod 8`, mirrored when the tile entry flips it) selects byte
/// `column / 2` of the row, and within it the low nibble for an even column
/// and the high nibble for an odd one.
pub proof fn lemma_text_16colour_nibbles(p: BgTextParams, bgvram: Seq<u8>, xpos: u32, st: (u16, u32, u32))
    requires
        p.is_256 == 0,
    ensures
        ({
            let col: int = if st.0 & 0x0400 != 0 { 7 - (xpos % 8) as int } else { (xpos % 8) as int };
            let b = vram8(bgvram, p.bgvrammask, wrap32(st.1 + col / 2));
            text_index(p, bgvram, xpos, st) == (if col % 2 == 0 { b % 16 } else { b / 16 })
        }),
{
    vstd::bits::lemma_low_bits_mask_values();
    vstd::arithmetic::power2::lemma2_to64();
    vstd::bits::lemma_u32_low_bits_mask_is_mod(xpos, 3);
    let x7: u32 = xpos & 0x7;
    assert(x7 as int == xpos % 8);
    let tx: u32 = if st.0 & 0x0400 != 0 { (7 - x7) as u32 } else { x7 };
    vstd::bits::lemma_u32_low_bits_mask_is_mod(tx, 1);
    assert((tx & 1) as int == tx % 2);
    let b = vram8(bgvram, p.bgvrammask, wrap32(st.1 + tx / 2));
    vstd::bits::lemma_u8_low_bits_mask_is_mod(b, 4);
    crate::arith::lemma_shr_u8(b, 4);
    assert((b & 0x0F) as int == b % 16);
    assert((b >> 4u8) as int == b / 16);
}

/// The BGR555 colour of a non-zero colour index under tile entry `curtile`.
pub open spec fn text_color(p: BgTextParams, pal: Seq<u16>, extpal: Seq<u16>, curtile: u16, color: u8) -> u16 {
    if p.is_256 != 0 {
        if p.extpal != 0 {
            extpal[(curtile >> 12u16) * 256 + color]
        } else {
            pal[color as int]
        }
    } else {
        pal[(curtile >> 12u16) * 16 + color]
    }
}

/// The pixels a text-background scanline draws.
pub open spec fn text_writes(
    p: BgTextParams,
    bgvram: Seq<u8>,
    pal: Seq<u16>,
    extpal: Seq<u16>,
    wmask: Seq<u8>,
    mosaic_table: Seq<u8>,
) -> Seq<Option<u32>> {
    Seq::new(
        256,
        |i: int|
            {
                let st = text_state(p, bgvram, mosaic_table, i);
                let color = text_index(p, bgvram, text_xpos(p, mosaic_table, i), st);
                if wmask[i] & ((1u8 << (p.bgnum as u8)) as u8) != 0 && color != 0 {
                    Some(
                        expand_spec(
                            text_color(p, pal, extpal, st.0, color),
                            0x01000000u32 << p.bgnum,
                        ),
                    )
                } else {
                    None
                }
            },
    )
}

/// Loads the tile entry for X `x` (exec form of `load_tile`).
fn load_tile_exec(p: &BgTextParams, bgvram: &[u8], x: u32, lastxpos: u32) -> (res: (u16, u32, u32))
    requires
        bgvram@.len() > p.bgvrammask,
        p.bgvrammask < u32::MAX,
    ensures
        res == load_tile(*p, bgvram@, x, lastxpos),
{
    let a1: u32 = (x & 0xF8) >> 2;
    let a2: u32 = (x & p.widexmask) << 3;
    assert(a1 <= 0x3E) by {
        lemma_and_le_u32(x, 0xF8);
        lemma_shr_u32(x & 0xF8, 2);
    }
    proof {
        lemma_wrap_add(p.tilemapaddr, a1);
        lemma_wrap_add(p.tilemapaddr.wrapping_add(a1), a2);
        lemma_wrap32_add(p.tilemapaddr + a1, a2 as int);
    }
    let curtile: u16 = read16(bgvram, p.bgvrammask, p.tilemapaddr.wrapping_add(a1).wrapping_add(a2));
    let yoff: u32 = p.yoff;
    proof {
        lemma_and_le_u32(yoff, 0x7);
        lemma_and_le_u16(curtile, 0x03FF);
    }
    let row: u32 = if curtile & 0x0800 != 0 { 7 - (yoff & 0x7) } else { yoff & 0x7 };
    let off: u32 = if p.is_256 != 0 {
        ((curtile & 0x03FF) as u32) * 64 + row * 8
    } else {
        ((curtile & 0x03FF) as u32) * 32 + row * 4
    };
    proof {
        lemma_wrap_add(p.tilesetaddr, off);
    }
    let pixelsaddr: u32 = p.tilesetaddr.wrapping_add(off);
    (curtile, pixelsaddr, if p.mosaic != 0 { x } else { lastxpos })
}

/// Reads the colour index of one column (exec form of `text_index`).
fn read_index(p: &BgTextParams, bgvram: &[u8], xpos: u32, curtile: u16, pixelsaddr: u32) -> (res: u8)
    requires
        bgvram@.len() > p.bgvrammask,
    ensures
        res == text_index(*p, bgvram@, xpos, (curtile, pixelsaddr, 0)),
        p.is_256 == 0 ==> res <= 15,
{
    proof {
        lemma_and_le_u32(xpos, 0x7);
    }
    let tilexoff: u32 = if curtile & 0x0400 != 0 { 7 - (xpos & 0x7) } else { xpos & 0x7 };
    if p.is_256 != 0 {
        proof {
            lemma_wrap_add(pixelsaddr, tilexoff);
        }
        read8(bgvram, p.bgvrammask, pixelsaddr.wrapping_add(tilexoff))
    } else {
        proof {
            lemma_wrap_add(pixelsaddr, tilexoff / 2);
        }
        let b: u8 = read8(bgvram, p.bgvrammask, pixelsaddr.wrapping_add(tilexoff / 2));
        assert(b >> 4u8 <= 15 && b & 0x0F <= 15) by {
            lemma_shr_u8(b, 4);
            lemma_and_le_u8(b, 0x0F);
        }
        if tilexoff & 0x1 != 0 {
            b >> 4
        } else {
            b & 0x0F
        }
    }
}

/// The text-background pixel loops: draws one scanline of a text
/// background into the layer line.
pub fn melonink_drawbg_text(
    p: &BgTextParams,
    bgvram: &[u8],
    pal: &[u16],
    extpal: &[u16],
    window_mask: &[u8],
    mosaic_table: &[u8],
    bgobj_line: &mut [u32],
)
    requires
        text_requires(
            *p,
            bgvram@.len() as int,
            pal@.len() as int,
            extpal@.len() as int,
            window_mask@.len() as int,
            old(bgobj_line)@.len() as int,
            mosaic_table@.len() as int,
        ),
    ensures
        final(bgobj_line)@ == push_line(
            old(bgobj_line)@,
            text_writes(*p, bgvram@, pal@, extpal@, window_mask@, mosaic_table@),
            p.accel != 0,
        ),
{
    let ghost orig = bgobj_line@;
    let ghost w = text_writes(*p, bgvram@, pal@, extpal@, window_mask@, mosaic_table@);
    let accel: bool = p.accel != 0;
    let mosaic: bool = p.mosaic != 0;
    let flag: u32 = 0x01000000u32 << p.bgnum;
    let winbit: u8 = 1u8 << (p.bgnum as u8);

    let px0: u32 = p.xoff;
    let mut xoff: u32 = px0 & 0xFFFF;  // u16 range
    proof {
        lemma_and_le_u32(px0, 0xFFFF);
    }
    let mut curtile: u16 = 0;
    let mut pixelsaddr: u32 = 0;
    let mut lastxpos: u32 = 0;
    if (xoff & 0x7) != 0 || mosaic {
        let st = load_tile_exec(p, bgvram, xoff, 0);
        curtile = st.0;
        pixelsaddr = st.1;
        lastxpos = st.2;
    }
    proof {
        lemma_push_none(orig, w, accel);
    }
    let mut i: usize = 0;
    while i < 256
        invariant
            i <= 256,
            text_requires(
                *p,
                bgvram@.len() as int,
                pal@.len() as int,
                extpal@.len() as int,
                window_mask@.len() as int,
                orig.len() as int,
                mosaic_table@.len() as int,
            ),
            w == text_writes(*p, bgvram@, pal@, extpal@, window_mask@, mosaic_table@),
            accel == (p.accel != 0),
            mosaic == (p.mosaic != 0),
            flag == 0x01000000u32 << p.bgnum,
            winbit == ((1u8 << (p.bgnum as u8)) as u8),
            xoff == text_xoff(*p, i as int),
            (curtile, pixelsaddr, lastxpos) == (if i == 0 {
                text_init(*p, bgvram@)
            } else {
                text_state(*p, bgvram@, mosaic_table@, i - 1)
            }),
            bgobj_line@ == push_line(orig, writes_upto(w, i as int), accel),
        decreases 256 - i,
    {
        proof {
            lemma_push_step(orig, bgobj_line@, w, accel, i as int);
        }
        let xpos: u32 = if mosaic {
            proof {
                crate::arith::lemma_wrap_sub(xoff, mosaic_table@[i as int] as u32);
            }
            xoff.wrapping_sub(mosaic_table[i] as u32)
        } else {
            xoff
        };
        assert(xpos == text_xpos(*p, mosaic_table@, i as int));

        if (!mosaic && (xpos & 0x7) == 0) || (mosaic && (xpos >> 3) != (lastxpos >> 3)) {
            let st = load_tile_exec(p, bgvram, xpos, lastxpos);
            curtile = st.0;
            pixelsaddr = st.1;
            lastxpos = st.2;
        }
        assert((curtile, pixelsaddr, lastxpos) == text_state(*p, bgvram@, mosaic_table@, i as int));

        let color: u8 = read_index(p, bgvram, xpos, curtile, pixelsaddr);
        if window_mask[i] & winbit != 0 && color != 0 {
            assert(curtile >> 12u16 <= 15) by {
                lemma_shr_u16(curtile, 12);
            }
            let color16: u16 = if p.is_256 != 0 {
                if p.extpal != 0 {
                    extpal[((curtile >> 12) as usize) * 256 + color as usize]
                } else {
                    pal[color as usize]
                }
            } else {
                pal[((curtile >> 12) as usize) * 16 + color as usize]
            };
            let px: u32 = expand_color(color16, flag);
            draw_pixel(bgobj_line, i, px, accel);
        }

        let xo: u32 = xoff;
        xoff = (xoff + 1) & 0xFFFF;
        assert(((xo + 1) as u32) & 0xFFFF == (xo + 1) % 0x10000) by {
            lemma_low_mask_u32((xo + 1) as u32, 16);
        }
        proof {
            vstd::arithmetic::div_mod::lemma_add_mod_noop((p.xoff & 0xFFFF) + i, 1, 0x10000);
            vstd::arithmetic::div_mod::lemma_small_mod(1, 0x10000);
        }
        assert(xoff == text_xoff(*p, i + 1));
        i = i + 1;
    }
    proof {
        lemma_push_all(orig, w, accel);
    }
}

} // verus!
