//! The BGOBJ layer line of the 2D engine: three 256-entry rows (top layer,
//! second layer, third layer) in one buffer. Drawing a pixel pushes the rows
//! down at that column: the new pixel becomes the top, the old top the second
//! layer, and — in the 3D-accelerated layout only — the old second layer the
//! third.

use vstd::prelude::*;
use crate::arith::{lemma_and_le_u32, lemma_bytes_to_u16};

verus! {

/// The BGR555 colour `color` widened to the 2D engine's 6-bit-per-channel
/// pixel word, with the layer flags `flag` in the top bits.
pub open spec fn expand_spec(color: u16, flag: u32) -> u32 {
    let r: u32 = (((color & 0x1F) as u32) * 2) as u32;
    let g: u32 = ((((color >> 5u16) & 0x1F) as u32) * 2) as u32;
    let b: u32 = ((((color >> 10u16) & 0x1F) as u32) * 2) as u32;
    r | (g << 8u32) | (b << 16u32) | flag
}

/// The BGR555-to-6-bit colour expansion shared by every 2D drawing routine.
pub fn expand_color(color: u16, flag: u32) -> (res: u32)
    ensures
        res == expand_spec(color, flag),
{
    let r: u32 = ((color & 0x001F) << 1) as u32;
    let g: u32 = ((color & 0x03E0) >> 4) as u32;
    let b: u32 = ((color & 0x7C00) >> 9) as u32;
    assert(((color & 0x001F) << 1u16) as u32 == (((color & 0x1F) as u32) * 2) as u32 && ((color
        & 0x03E0) >> 4u16) as u32 == ((((color >> 5u16) & 0x1F) as u32) * 2) as u32 && ((color
        & 0x7C00) >> 9u16) as u32 == ((((color >> 10u16) & 0x1F) as u32) * 2) as u32)
        by (bit_vector);
    r | (g << 8) | (b << 16) | flag
}

/// The line after drawing the pixels `w` (column `i` drawn when `w[i]` is
/// `Some`), pushing the layers below each drawn column down.
pub open spec fn push_line(old: Seq<u32>, w: Seq<Option<u32>>, accel: bool) -> Seq<u32> {
    Seq::new(
        old.len(),
        |j: int|
            if 0 <= j < 256 && w[j] is Some {
                w[j]->0
            } else if 256 <= j < 512 && w[j - 256] is Some {
                old[j - 256]
            } else if 512 <= j < 768 && accel && w[j - 512] is Some {
                old[j - 256]
            } else {
                old[j]
            },
    )
}

/// The first `n` columns of `w`, the rest undrawn.
pub open spec fn writes_upto(w: Seq<Option<u32>>, n: int) -> Seq<Option<u32>> {
    Seq::new(256, |i: int| if i < n { w[i] } else { None })
}

/// Draws pixel `px` at column `i`, pushing the layers below it down.
pub fn draw_pixel(line: &mut [u32], i: usize, px: u32, accel: bool)
    requires
        old(line)@.len() >= 768,
        i < 256,
    ensures
        final(line)@.len() == old(line)@.len(),
        final(line)@ == old(line)@.update(i as int, px).update(
            i + 256,
            old(line)@[i as int],
        ).update(
            i + 512,
            if accel {
                old(line)@[i + 256]
            } else {
                old(line)@[i + 512]
            },
        ),
{
    if accel {
        line[i + 512] = line[i + 256];
        line[i + 256] = line[i];
        line[i] = px;
    } else {
        line[i + 256] = line[i];
        line[i] = px;
    }
}

/// Drawing column `i` extends the drawn prefix by one column.
pub proof fn lemma_push_step(
    orig: Seq<u32>,
    cur: Seq<u32>,
    w: Seq<Option<u32>>,
    accel: bool,
    i: int,
)
    requires
        orig.len() >= 768,
        w.len() == 256,
        0 <= i < 256,
        cur == push_line(orig, writes_upto(w, i), accel),
    ensures
        w[i] is None ==> push_line(orig, writes_upto(w, i + 1), accel) == cur,
        w[i] is Some ==> push_line(orig, writes_upto(w, i + 1), accel) == cur.update(
            i,
            w[i]->0,
        ).update(i + 256, cur[i]).update(
            i + 512,
            if accel {
                cur[i + 256]
            } else {
                cur[i + 512]
            },
        ),
{
    let next = push_line(orig, writes_upto(w, i + 1), accel);
    if w[i] is None {
        assert(next =~= cur);
    } else {
        let upd = cur.update(i, w[i]->0).update(i + 256, cur[i]).update(
            i + 512,
            if accel {
                cur[i + 256]
            } else {
                cur[i + 512]
            },
        );
        assert(next =~= upd);
    }
}

/// With nothing drawn, the line is unchanged.
pub proof fn lemma_push_none(orig: Seq<u32>, w: Seq<Option<u32>>, accel: bool)
    requires
        orig.len() >= 768,
    ensures
        push_line(orig, writes_upto(w, 0), accel) == orig,
{
    assert(push_line(orig, writes_upto(w, 0), accel) =~= orig);
}

/// Drawing every column leaves the whole prefix drawn.
pub proof fn lemma_push_all(orig: Seq<u32>, w: Seq<Option<u32>>, accel: bool)
    requires
        w.len() == 256,
    ensures
        push_line(orig, writes_upto(w, 256), accel) == push_line(orig, w, accel),
{
    assert(writes_upto(w, 256) =~= w);
}

/// Byte of a masked VRAM view: address `a` wraps by `mask`.
pub open spec fn vram8(v: Seq<u8>, mask: u32, a: u32) -> u8 {
    v[(a & mask) as int]
}

/// Little-endian halfword of a masked VRAM view; the high byte's address
/// wraps by `mask` too.
pub open spec fn vram16(v: Seq<u8>, mask: u32, a: u32) -> u16 {
    let i = a & mask;
    (v[i as int] + 256 * v[(((i + 1) as u32) & mask) as int]) as u16
}

/// Reads a byte of a masked VRAM view.
pub fn read8(v: &[u8], mask: u32, a: u32) -> (res: u8)
    requires
        v@.len() > mask,
    ensures
        res == vram8(v@, mask, a),
{
    proof {
        lemma_and_le_u32(a, mask);
    }
    v[(a & mask) as usize]
}

/// Reads a halfword of a masked VRAM view.
pub fn read16(v: &[u8], mask: u32, a: u32) -> (res: u16)
    requires
        v@.len() > mask,
        mask < u32::MAX,
    ensures
        res == vram16(v@, mask, a),
{
    let i: u32 = a & mask;
    proof {
        lemma_and_le_u32(a, mask);
        lemma_and_le_u32((i + 1) as u32, mask);
    }
    let lo: u8 = v[i as usize];
    let hi: u8 = v[((i + 1) & mask) as usize];
    proof {
        lemma_bytes_to_u16(lo, hi);
    }
    (lo as u16) | ((hi as u16) << 8)
}

/// The `i32` that the integer `x` wraps to.
pub open spec fn wrap_i32(x: int) -> i32 {
    let m = x % 0x1_0000_0000int;
    if m >= 0x8000_0000int { (m - 0x1_0000_0000int) as i32 } else { m as i32 }
}

/// Wrapping `i32` addition wraps the sum.
pub proof fn lemma_i32_wrapping_add(x: i32, y: i32)
    ensures
        x.wrapping_add(y) == wrap_i32(x + y),
{
    let s = x + y;
    if s > i32::MAX {
        assert(s % 0x1_0000_0000int == s);
    } else if s < i32::MIN {
        assert(s % 0x1_0000_0000int == s + 0x1_0000_0000int);
    } else if s >= 0 {
        assert(s % 0x1_0000_0000int == s);
    } else {
        assert(s % 0x1_0000_0000int == s + 0x1_0000_0000int);
    }
}

/// Wrapping `i32` subtraction wraps the difference.
pub proof fn lemma_i32_wrapping_sub(x: i32, y: i32)
    ensures
        x.wrapping_sub(y) == wrap_i32(x - y),
{
    let s = x - y;
    if s > i32::MAX {
        assert(s % 0x1_0000_0000int == s);
    } else if s < i32::MIN {
        assert(s % 0x1_0000_0000int == s + 0x1_0000_0000int);
    } else if s >= 0 {
        assert(s % 0x1_0000_0000int == s);
    } else {
        assert(s % 0x1_0000_0000int == s + 0x1_0000_0000int);
    }
}

/// Wrapping `i32` multiplication wraps the product.
pub proof fn lemma_i32_wrapping_mul(x: i32, y: i32)
    ensures
        x.wrapping_mul(y) == wrap_i32(x * y),
{
}

/// Wrapping is insensitive to adding a whole number of 2^32 periods and
/// to wrapping an intermediate sum.
pub proof fn lemma_wrap_i32_add(x: int, y: int)
    ensures
        wrap_i32(wrap_i32(x) + y) == wrap_i32(x + y),
{
    let m: int = 0x1_0000_0000int;
    let w = wrap_i32(x) as int;
    assert(w % m == x % m) by {
        vstd::arithmetic::div_mod::lemma_mod_twice(x, m);
        if x % m >= 0x8000_0000int {
            vstd::arithmetic::div_mod::lemma_mod_sub_multiples_vanish(x % m, m);
        }
    }
    vstd::arithmetic::div_mod::lemma_add_mod_noop(w, y, m);
    vstd::arithmetic::div_mod::lemma_add_mod_noop(x, y, m);
}

} // verus!
