//! A second, independent reading of the texture sampler — the model the
//! sampler is fuzzed against — and the proof that the two agree: texture
//! coordinates in 64-bit arithmetic with explicit clamping, texel and
//! palette words in 32 bits, and the addresses as offsets added to the
//! texture's base.

use vstd::prelude::*;
use crate::arith::wrap32;
use crate::texture::{
    tex_size, texel_s, texel_t, wrap_coord, texture_spec, compressed_spec, blend_compressed_spec, tex8, tex16,
    pal16, lemma_tex_size,
};

verus! {

/// A texture coordinate brought into `0..size`: masked when repeating
/// (mirrored in every other period when flipping), clamped otherwise.
pub open spec fn model_coord(c: i64, size: i64, repeat: bool, flip: bool) -> i64 {
    let m: i64 = (size - 1) as i64;
    if repeat {
        if flip && c & size != 0 { (m - (c & m)) as i64 } else { c & m }
    } else if c < 0 {
        0
    } else if c > m {
        m
    } else {
        c
    }
}

/// Byte of texture memory (32-bit result).
pub open spec fn model_t8(tex: Seq<u8>, a: u32) -> u32 {
    tex[(a & 0x7FFFF) as int] as u32
}

/// Little-endian halfword of texture memory (32-bit result).
pub open spec fn model_t16(tex: Seq<u8>, a: u32) -> u32 {
    let i: u32 = a & 0x7FFFF;
    (tex[i as int] as u32) | ((tex[(((i + 1) as u32) & 0x7FFFF) as int] as u32) << 8u32)
}

/// Little-endian halfword of palette memory (32-bit result).
pub open spec fn model_p16(pal: Seq<u8>, a: u32) -> u32 {
    let i: u32 = a & 0x1FFFF;
    (pal[i as int] as u32) | ((pal[(((i + 1) as u32) & 0x1FFFF) as int] as u32) << 8u32)
}

/// A byte offset added to a texture address (wrapping).
pub open spec fn model_add(base: u32, off: int) -> u32 {
    wrap32(base + off)
}

/// The compressed format's mix of two palette colours.
pub open spec fn model_mix(c0: u32, c1: u32, wa: u32, wb: u32, sh: u32) -> u16 {
    let r: u32 = (((c0 & 0x1F) * wa + (c1 & 0x1F) * wb) as u32) >> sh;
    let g: u32 = ((((c0 & 0x3E0) * wa + (c1 & 0x3E0) * wb) as u32) >> sh) & 0x3E0;
    let b: u32 = ((((c0 & 0x7C00) * wa + (c1 & 0x7C00) * wb) as u32) >> sh) & 0x7C00;
    (r | g | b) as u16
}

/// The model's 4x4-compressed texel.
pub open spec fn model_compressed(tex: Seq<u8>, pal: Seq<u8>, base: u32, texpal: u32, w: i64, s: i64, t: i64) -> (u16, u8) {
    let a1 = model_add(base, (t & 0x3FC) * (w >> 2u32));
    let a2 = model_add(a1, (s & 0x3FC) as int);
    let va: u32 = model_add(a2, (t & 0x3) as int) & 0x7FFFF;
    let slot1: u32 = (0x20000 + ((va & 0x1FFFC) >> 1u32) + (if va >= 0x40000 { 0x10000int } else { 0int })) as u32;
    let val: u32 = if 0x20000 <= va < 0x40000 { 0 } else { model_t8(tex, va) >> ((2 * ((s as u32) & 0x3)) as u32) };
    let palinfo: u32 = model_t16(tex, slot1);
    let paloff: u32 = ((palinfo & 0x3FFF) << 2u32) as u32;
    let tp: u32 = texpal << 4u32;
    let c0 = model_p16(pal, (tp + paloff) as u32);
    let c1 = model_p16(pal, (tp + paloff + 2) as u32);
    let mode = palinfo >> 14u32;
    if val & 0x3 == 0 {
        (c0 as u16, 31)
    } else if val & 0x3 == 1 {
        (c1 as u16, 31)
    } else if val & 0x3 == 2 {
        if mode == 1 {
            (model_mix(c0, c1, 1, 1, 1), 31)
        } else if mode == 3 {
            (model_mix(c0, c1, 5, 3, 3), 31)
        } else {
            (model_p16(pal, (tp + paloff + 4) as u32) as u16, 31)
        }
    } else if mode == 2 {
        (model_p16(pal, (tp + paloff + 6) as u32) as u16, 31)
    } else if mode == 3 {
        (model_mix(c0, c1, 3, 5, 3), 31)
    } else {
        (0, 0)
    }
}

/// The model's texel colour and alpha.
pub open spec fn model_texture(tex: Seq<u8>, pal: Seq<u8>, texparam: u32, texpal: u32, s_in: i16, t_in: i16) -> (u16, u8) {
    let base: u32 = (texparam & 0xFFFF) << 3u32;
    let width: i64 = (8i64 << ((texparam >> 20u32) & 0x7)) as i64;
    let height: i64 = (8i64 << ((texparam >> 23u32) & 0x7)) as i64;
    let s: i64 = model_coord((s_in as i64) >> 4u32, width, texparam & 0x10000 != 0, texparam & 0x40000 != 0);
    let t: i64 = model_coord((t_in as i64) >> 4u32, height, texparam & 0x20000 != 0, texparam & 0x80000 != 0);
    let alpha0: u8 = if texparam & 0x20000000 != 0 { 0 } else { 31 };
    let fmt = (texparam >> 26u32) & 0x7;
    let off: int = t * width + s;
    let tp: u32 = texpal << 4u32;
    if fmt == 1 {
        let px = model_t8(tex, model_add(base, off));
        (model_p16(pal, (tp + ((px & 0x1F) << 1u32)) as u32) as u16, (((px >> 3u32) & 0x1C) + (px >> 6u32)) as u8)
    } else if fmt == 2 {
        let px = (model_t8(tex, model_add(base, off / 4)) >> (((s as u32) & 0x3) << 1u32)) & 0x3;
        (model_p16(pal, ((texpal << 3u32) + (px << 1u32)) as u32) as u16, if px == 0 { alpha0 } else { 31 })
    } else if fmt == 3 {
        let b = model_t8(tex, model_add(base, off / 2));
        let px = if s & 1 != 0 { b >> 4u32 } else { b & 0xF };
        (model_p16(pal, (tp + (px << 1u32)) as u32) as u16, if px == 0 { alpha0 } else { 31 })
    } else if fmt == 4 {
        let px = model_t8(tex, model_add(base, off));
        (model_p16(pal, (tp + (px << 1u32)) as u32) as u16, if px == 0 { alpha0 } else { 31 })
    } else if fmt == 5 {
        model_compressed(tex, pal, base, texpal, width, s, t)
    } else if fmt == 6 {
        let px = model_t8(tex, model_add(base, off));
        (model_p16(pal, (tp + ((px & 0x7) << 1u32)) as u32) as u16, (px >> 3u32) as u8)
    } else if fmt == 7 {
        let color = model_t16(tex, model_add(base, off * 2)) as u16;
        (color, if color & 0x8000 != 0 { 31 } else { 0 })
    } else {
        (0, 0)
    }
}

/// The 64-bit coordinate reading agrees with the sampler's 32-bit one.
proof fn lemma_model_coord(x: i16, f: u32, repeat: bool, flip: bool)
    requires
        f <= 7,
    ensures
        model_coord((x as i64) >> 4u32, (8i64 << f) as i64, repeat, flip) == wrap_coord(
            (x as i32) >> 4u32,
            8i32 << f,
            repeat,
            flip,
        ) as i64,
        (8i64 << f) == (8i32 << f) as i64,
        8 <= (8i32 << f) <= 1024,
{
    let c32: i32 = (x as i32) >> 4u32;
    let c64: i64 = (x as i64) >> 4u32;
    let s32: i32 = 8i32 << f;
    let s64: i64 = 8i64 << f;
    let m32: i32 = (s32 - 1) as i32;
    let m64: i64 = (s64 - 1) as i64;
    assert(c64 == c32 as i64 && s64 == s32 as i64 && m64 == m32 as i64 && (c64 & s64) == ((c32 & s32) as i64)
        && (c64 & m64) == ((c32 & m32) as i64) && 8 <= s32 <= 1024 && 0 <= (c32 & m32) < s32) by (bit_vector)
        requires
            f <= 7,
            c32 == (x as i32) >> 4u32,
            c64 == (x as i64) >> 4u32,
            s32 == 8i32 << f,
            s64 == 8i64 << f,
            m32 == (s32 - 1) as i32,
            m64 == (s64 - 1) as i64,
    ;
}

/// A little-endian halfword read as a 32-bit word is the same halfword.
proof fn lemma_model_halfword(lo: u8, hi: u8)
    ensures
        (lo as u32) | ((hi as u32) << 8u32) == lo + 256 * hi,
        lo + 256 * hi <= 0xFFFF,
{
    assert((lo as u32) | ((hi as u32) << 8u32) == (lo as u32) + 256 * (hi as u32)) by (bit_vector);
}

/// Palette reads agree.
proof fn lemma_model_p16(pal: Seq<u8>, a: u32)
    ensures
        model_p16(pal, a) == pal16(pal, a) as u32,
{
    let i: u32 = a & 0x1FFFF;
    assert((((i + 1) as u32) & 0x1FFFF) as int == (i + 1) % 0x20000) by {
        assert(i <= 0x1FFFF) by (bit_vector)
            requires i == a & 0x1FFFF;
        let j: u32 = (i + 1) as u32;
        assert(j & 0x1FFFF == if j == 0x20000 { 0 } else { j }) by (bit_vector)
            requires 1 <= j <= 0x20000;
    }
    lemma_model_halfword(pal[i as int], pal[(((i + 1) as u32) & 0x1FFFF) as int]);
}

/// Texture halfword reads agree.
proof fn lemma_model_t16(tex: Seq<u8>, a: u32)
    ensures
        model_t16(tex, a) == tex16(tex, a) as u32,
{
    let i: u32 = a & 0x7FFFF;
    assert((((i + 1) as u32) & 0x7FFFF) as int == (i + 1) % 0x80000) by {
        assert(i <= 0x7FFFF) by (bit_vector)
            requires i == a & 0x7FFFF;
        let j: u32 = (i + 1) as u32;
        assert(j & 0x7FFFF == if j == 0x80000 { 0 } else { j }) by (bit_vector)
            requires 1 <= j <= 0x80000;
    }
    lemma_model_halfword(tex[i as int], tex[(((i + 1) as u32) & 0x7FFFF) as int]);
}

/// Bit facts of a texel byte widened to 32 bits.
proof fn lemma_model_byte(b: u8, s: i32)
    requires
        0 <= s < 1024,
    ensures
        ((((b as u32) >> 3u32) & 0x1C) + ((b as u32) >> 6u32)) as u8 == (((b >> 3u8) & 0x1C) + (b >> 6u8)) as u8,
        (((b as u32) >> 3u32) & 0x1C) + ((b as u32) >> 6u32) < 256,
        ((b as u32) >> ((((s as i64) as u32) & 0x3) << 1u32)) & 0x3 == ((b >> ((2 * (s & 0x3)) as u8)) & 0x3) as u32,
        ((b as u32) >> (2 * (((s as i64) as u32) & 0x3)) as u32) == (b >> ((2 * (s & 0x3)) as u8)) as u32,
        ((s as i64) & 1 != 0) == (s & 1 != 0),
        (b as u32) >> 4u32 == (b >> 4u8) as u32,
        (b as u32) & 0xF == (b & 0xF) as u32,
        (b as u32) & 0x1F == (b & 0x1F) as u32,
        (b as u32) & 0x7 == (b & 0x7) as u32,
        (b as u32) >> 3u32 == (b >> 3u8) as u32,
        (b as u32) & 0x3 == (b & 0x3) as u32,
        ((b as u32) & 0x1F) << 1u32 == (b & 0x1F) * 2,
        (b as u32) << 1u32 == b * 2,
        ((b as u32) & 0x7) << 1u32 == (b & 0x7) * 2,
{
    assert(
        ((((b as u32) >> 3u32) & 0x1C) + ((b as u32) >> 6u32)) as u8 == (((b >> 3u8) & 0x1C) + (b >> 6u8)) as u8
        && (((b as u32) >> 3u32) & 0x1C) + ((b as u32) >> 6u32) < 256
        && ((b as u32) >> ((((s as i64) as u32) & 0x3) << 1u32)) & 0x3 == ((b >> ((2 * (s & 0x3)) as u8)) & 0x3) as u32
        && ((b as u32) >> (2 * (((s as i64) as u32) & 0x3)) as u32) == (b >> ((2 * (s & 0x3)) as u8)) as u32
        && ((s as i64) & 1 != 0) == (s & 1 != 0)
        && (b as u32) >> 4u32 == (b >> 4u8) as u32
        && (b as u32) & 0xF == (b & 0xF) as u32
        && (b as u32) & 0x1F == (b & 0x1F) as u32
        && (b as u32) & 0x7 == (b & 0x7) as u32
        && (b as u32) >> 3u32 == (b >> 3u8) as u32
        && (b as u32) & 0x3 == (b & 0x3) as u32
        && ((b as u32) & 0x1F) << 1u32 == (b & 0x1F) * 2
        && (b as u32) << 1u32 == b * 2
        && ((b as u32) & 0x7) << 1u32 == (b & 0x7) * 2
    ) by (bit_vector)
        requires 0 <= s < 1024;
}

/// Bit facts of a compressed-block halfword and texel position widened to
/// 32 and 64 bits.
proof fn lemma_model_block_bits(p: u16, s: i32, t: i32, w: i32)
    requires
        0 <= s < 1024,
        0 <= t < 1024,
        8 <= w <= 1024,
    ensures
        ((p as u32) & 0x3FFF) << 2u32 == ((p & 0x3FFF) * 4) as u32,
        (p as u32) >> 14u32 == (p >> 14u16) as u32,
        ((t as i64) & 0x3FC) == (t & 0x3FC) as i64,
        ((s as i64) & 0x3FC) == (s & 0x3FC) as i64,
        ((t as i64) & 0x3) == (t & 0x3) as i64,
        ((w as i64) >> 2u32) == (w >> 2u32) as i64,
{
    assert(((p as u32) & 0x3FFF) << 2u32 == ((p & 0x3FFF) as u32) * 4 && (p as u32) >> 14u32 == (p >> 14u16) as u32)
        by (bit_vector);
    assert(((t as i64) & 0x3FC) == (t & 0x3FC) as i64 && ((s as i64) & 0x3FC) == (s & 0x3FC) as i64 && ((t as i64)
        & 0x3) == (t & 0x3) as i64 && ((w as i64) >> 2u32) == (w >> 2u32) as i64) by (bit_vector)
        requires 0 <= s < 1024, 0 <= t < 1024, 8 <= w <= 1024;
}

/// The model's compressed texel agrees with the sampler's.
proof fn lemma_model_compressed(tex: Seq<u8>, pal: Seq<u8>, base: u32, texpal: u32, w: i32, s: i32, t: i32)
    requires
        8 <= w <= 1024,
        0 <= s < 1024,
        0 <= t < 1024,
        texpal <= 0x1FFF,
    ensures
        model_compressed(tex, pal, base, texpal, w as i64, s as i64, t as i64) == compressed_spec(tex, pal, base, texpal, w, s, t),
{
    let va_s: u32 = wrap32(base + (t & 0x3FC) * (w >> 2u32) + (s & 0x3FC) + (t & 0x3)) & 0x7FFFF;
    lemma_model_block_bits(0, s, t, w);
    let a0: int = (t & 0x3FC) * (w >> 2u32);
    assert(((t as i64) & 0x3FC) * ((w as i64) >> 2u32) == a0);
    crate::arith::lemma_wrap32_add(base + a0, (s & 0x3FC) as int);
    crate::arith::lemma_wrap32_add(base + a0 + (s & 0x3FC), (t & 0x3) as int);
    let va: u32 = model_add(model_add(model_add(base, a0), ((s as i64) & 0x3FC) as int), ((t as i64) & 0x3) as int) & 0x7FFFF;
    assert(va == va_s);
    let slot1: u32 = (0x20000 + ((va & 0x1FFFC) >> 1u32) + (if va >= 0x40000 { 0x10000int } else { 0int })) as u32;
    lemma_model_t16(tex, slot1);
    let p16v: u16 = tex16(tex, slot1);
    lemma_model_block_bits(p16v, s, t, w);
    let b: u8 = tex8(tex, va);
    lemma_model_byte(b, s);
    let tp: u32 = texpal << 4u32;
    assert(tp <= 0x1FFF0) by (bit_vector)
        requires tp == texpal << 4u32, texpal <= 0x1FFF;
    let paloff: u32 = ((p16v & 0x3FFF) * 4) as u32;
    assert(paloff <= 0xFFFC) by (bit_vector)
        requires paloff == ((p16v & 0x3FFF) * 4) as u32;
    crate::arith::lemma_wrap32_small(tp + paloff);
    crate::arith::lemma_wrap32_small(tp + paloff + 2);
    crate::arith::lemma_wrap32_small(tp + paloff + 4);
    crate::arith::lemma_wrap32_small(tp + paloff + 6);
    lemma_model_p16(pal, (tp + paloff) as u32);
    lemma_model_p16(pal, (tp + paloff + 2) as u32);
    lemma_model_p16(pal, (tp + paloff + 4) as u32);
    lemma_model_p16(pal, (tp + paloff + 6) as u32);
    let v8: u8 = if 0x20000 <= va < 0x40000 { 0 } else { b >> ((2 * (s & 0x3)) as u8) };
    let v32: u32 = if 0x20000 <= va < 0x40000 { 0 } else { model_t8(tex, va) >> ((2 * (((s as i64) as u32) & 0x3)) as u32) };
    assert(v32 == v8 as u32);
    lemma_model_byte(v8, 0);
}

/// The two readings of the texture sampler agree: for every parameter word,
/// every texture coordinate and a palette base within the 8 KiB-aligned
/// palette range, the texel colour and alpha are the same.
pub proof fn lemma_texture_matches_model(tex: Seq<u8>, pal: Seq<u8>, texparam: u32, texpal: u32, s_in: i16, t_in: i16)
    requires
        texpal <= 0x1FFF,
    ensures
        texture_spec(tex, pal, texparam, texpal, s_in, t_in) == model_texture(tex, pal, texparam, texpal, s_in, t_in),
{
    let fw: u32 = (texparam >> 20u32) & 0x7;
    let fh: u32 = (texparam >> 23u32) & 0x7;
    assert(fw <= 7 && fh <= 7) by (bit_vector)
        requires fw == (texparam >> 20u32) & 0x7, fh == (texparam >> 23u32) & 0x7;
    lemma_model_coord(s_in, fw, texparam & 0x10000 != 0, texparam & 0x40000 != 0);
    lemma_model_coord(t_in, fh, texparam & 0x20000 != 0, texparam & 0x80000 != 0);
    crate::texture::lemma_texel_in_range(texparam, s_in, t_in);
    let w: i32 = tex_size(texparam >> 20u32);
    let sx: i32 = texel_s(texparam, s_in);
    let ty: i32 = texel_t(texparam, t_in);
    assert(tex_size(texparam >> 23u32) <= 1024);
    let base: u32 = (texparam & 0xFFFF) << 3u32;
    let idx: int = ty * w + sx;
    let tp: u32 = texpal << 4u32;
    assert(tp <= 0x1FFF0 && (texpal << 3u32) <= 0xFFF8) by (bit_vector)
        requires tp == texpal << 4u32, texpal <= 0x1FFF;
    let fmt = (texparam >> 26u32) & 0x7;
    if fmt == 1 || fmt == 4 || fmt == 6 {
        let b = tex8(tex, wrap32(base + idx));
        lemma_model_byte(b, sx);
        let a: u32 = (tp + (((b as u32) & 0x1F) << 1u32)) as u32;
        let a4: u32 = (tp + ((b as u32) << 1u32)) as u32;
        let a6: u32 = (tp + (((b as u32) & 0x7) << 1u32)) as u32;
        crate::arith::lemma_wrap32_small(tp + (b & 0x1F) * 2);
        crate::arith::lemma_wrap32_small(tp + b * 2);
        crate::arith::lemma_wrap32_small(tp + (b & 0x7) * 2);
        lemma_model_p16(pal, a);
        lemma_model_p16(pal, a4);
        lemma_model_p16(pal, a6);
    } else if fmt == 2 {
        let b = tex8(tex, wrap32(base + idx / 4));
        lemma_model_byte(b, sx);
        let px: u8 = (b >> ((2 * (sx & 0x3)) as u8)) & 0x3;
        let a: u32 = ((texpal << 3u32) + ((px as u32) << 1u32)) as u32;
        lemma_model_byte(px, 0);
        crate::arith::lemma_wrap32_small((texpal << 3u32) + px * 2);
        lemma_model_p16(pal, a);
    } else if fmt == 3 {
        let b = tex8(tex, wrap32(base + idx / 2));
        lemma_model_byte(b, sx);
        let px: u8 = if sx & 1 != 0 { b >> 4u8 } else { b & 0xF };
        let a: u32 = (tp + ((px as u32) << 1u32)) as u32;
        lemma_model_byte(px, 0);
        crate::arith::lemma_wrap32_small(tp + px * 2);
        lemma_model_p16(pal, a);
    } else if fmt == 5 {
        lemma_model_compressed(tex, pal, base, texpal, w, sx, ty);
    } else if fmt == 7 {
        lemma_model_t16(tex, wrap32(base + idx * 2));
    }
}

} // verus!
