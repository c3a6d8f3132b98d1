//! Sprite mosaic and display capture on concrete lines.

use melonink::compose::{melonink_apply_sprite_mosaic_x, melonink_do_capture, CaptureParams};

#[test]
fn zero_mosaic_table_leaves_sprite_line() {
    let line: Vec<u32> = (0..256u32).map(|i| i.wrapping_mul(0x9E37_79B9)).collect();
    let mut out = line.clone();
    melonink_apply_sprite_mosaic_x(&mut out, &[0u8; 256]);
    assert_eq!(out, line);
}

#[test]
fn capture_writes_wrap_at_the_block_end_and_read_back() {
    let mut dst = vec![0xAAAAu16; 0x10000];
    let src_a = [0x0100_0002u32, 0x0000_0400, 0x0004_0000, 0];
    let p = CaptureParams { dstaddr: 0xFFFE, src_baddr: 0, width: 4, mode: 0, eva: 0, evb: 0, has_srcb: 0 };
    melonink_do_capture(&p, &mut dst, &src_a, &[]);
    // source A: BGR555 from the 6-bit channels, alpha bit from the flag byte
    assert_eq!(dst[0xFFFE], 0x8001);
    assert_eq!(dst[0xFFFF], 0x0040);
    assert_eq!(dst[0x0000], 0x0800);
    assert_eq!(dst[0x0001], 0x0000);
    // everything the capture did not reach is untouched
    assert!(dst[2..0xFFFE].iter().all(|&v| v == 0xAAAA));
}

#[test]
fn capture_of_absent_source_b_writes_zero() {
    let mut dst = vec![0x1234u16; 0x10000];
    let p = CaptureParams { dstaddr: 10, src_baddr: 0, width: 3, mode: 1, eva: 0, evb: 0, has_srcb: 0 };
    melonink_do_capture(&p, &mut dst, &[], &[]);
    assert_eq!(&dst[9..14], &[0x1234, 0, 0, 0, 0x1234]);
}
