//! The harness's stream hashes, input schedule, environment answers and
//! input-spec grammar.

use melonink::simd::{avx2_available, avx_os_bits};
use melonink::bench::{dll_rva, Sample};
use melonink::bench::{
    button_id, env_action, fnv1a, hash_audio_sample, hash_frame, input_state, parse_input_spec, parse_u64,
    EnvAction, FNV_OFFSET,
};

#[test]
fn fnv1a_of_empty_stream_is_offset_basis() {
    assert_eq!(fnv1a(FNV_OFFSET, &[]), 0xcbf29ce484222325);
}

#[test]
fn fnv1a_known_vectors() {
    // Published FNV-1a 64-bit test vectors.
    assert_eq!(fnv1a(FNV_OFFSET, b"a"), 0xaf63dc4c8601ec8c);
    assert_eq!(fnv1a(FNV_OFFSET, b"foobar"), 0x85944171f73967e8);
}

#[test]
fn fnv1a_in_two_pieces_equals_whole() {
    let whole = fnv1a(FNV_OFFSET, b"melonbench stream");
    let split = fnv1a(fnv1a(FNV_OFFSET, b"melonbench "), b"stream");
    assert_eq!(whole, split);
}

#[test]
fn audio_sample_hashes_little_endian_left_then_right() {
    let h = hash_audio_sample(FNV_OFFSET, 0x1234, -2);
    assert_eq!(h, fnv1a(FNV_OFFSET, &[0x34, 0x12, 0xFE, 0xFF]));
    assert_ne!(h, hash_audio_sample(FNV_OFFSET, -2, 0x1234));
}

#[test]
fn frame_hash_skips_row_padding() {
    // 2x2 frame of RGB565 pixels (4 visible bytes per row), pitch 6.
    let data = [1u8, 2, 3, 4, 0xEE, 0xEE, 5, 6, 7, 8, 0xDD];
    let h = hash_frame(FNV_OFFSET, &data, 2, 2, 6, 2);
    assert_eq!(h, fnv1a(FNV_OFFSET, &[1, 2, 3, 4, 5, 6, 7, 8]));
    // XRGB8888 rows are twice as wide.
    let h32 = hash_frame(FNV_OFFSET, &data, 1, 2, 6, 1);
    assert_eq!(h32, fnv1a(FNV_OFFSET, &[1, 2, 3, 4, 5, 6, 7, 8]));
    assert_eq!(hash_frame(FNV_OFFSET, &[], 0, 0, 0, 0), FNV_OFFSET);
}

#[test]
fn input_schedule_is_inclusive_and_port0_joypad_only() {
    let schedule = [(400u64, 410u64, 3u32), (5, 5, 8)];
    assert_eq!(input_state(&schedule, 400, 0, 1, 3), 1);
    assert_eq!(input_state(&schedule, 410, 0, 1, 3), 1);
    assert_eq!(input_state(&schedule, 411, 0, 1, 3), 0);
    assert_eq!(input_state(&schedule, 399, 0, 1, 3), 0);
    assert_eq!(input_state(&schedule, 5, 0, 1, 8), 1);
    assert_eq!(input_state(&schedule, 405, 1, 1, 3), 0);
    assert_eq!(input_state(&schedule, 405, 0, 2, 3), 0);
    assert_eq!(input_state(&[], 405, 0, 1, 3), 0);
}

#[test]
fn environment_answers() {
    assert!(matches!(env_action(3), EnvAction::SetBool(true)));
    assert!(matches!(env_action(3 | 0x10000), EnvAction::SetBool(true)));
    assert!(matches!(env_action(17), EnvAction::SetBool(false)));
    assert!(matches!(env_action(52), EnvAction::SetU32(2)));
    assert!(matches!(env_action(39), EnvAction::SetU32(0)));
    assert!(matches!(env_action(47), EnvAction::SetI32(3)));
    assert!(matches!(env_action(74), EnvAction::SetBool(true)));
    assert!(matches!(env_action(9), EnvAction::GiveSystemDirectory));
    assert!(matches!(env_action(31), EnvAction::GiveSaveDirectory));
    assert!(matches!(env_action(10), EnvAction::TakePixelFormat));
    assert!(matches!(env_action(15), EnvAction::LookupVariable));
    assert!(matches!(env_action(6), EnvAction::LogMessage));
    assert!(matches!(env_action(60), EnvAction::LogMessageExt));
    assert!(matches!(env_action(7), EnvAction::Shutdown));
    for cmd in [16u32, 53, 54, 55, 67, 68, 69, 11, 35, 42, 65, 37, 32] {
        assert!(matches!(env_action(cmd), EnvAction::Accept), "cmd {cmd}");
    }
    // Hardware rendering, log interface and the like are declined.
    for cmd in [14u32, 27, 28, 45, 51, 59, 1, 2, 18, 0x10000 | 14] {
        assert!(matches!(env_action(cmd), EnvAction::Decline), "cmd {cmd}");
    }
}

#[test]
fn parse_u64_like_str_parse() {
    assert_eq!(parse_u64(b"0"), Some(0));
    assert_eq!(parse_u64(b"+42"), Some(42));
    assert_eq!(parse_u64(b"18446744073709551615"), Some(u64::MAX));
    assert_eq!(parse_u64(b"18446744073709551616"), None);
    assert_eq!(parse_u64(b""), None);
    assert_eq!(parse_u64(b"+"), None);
    assert_eq!(parse_u64(b"-1"), None);
    assert_eq!(parse_u64(b" 1"), None);
    assert_eq!(parse_u64(b"12a"), None);
    assert_eq!(parse_u64(b"99999999999999999999x"), None);
}

#[test]
fn button_names_ignore_ascii_case() {
    assert_eq!(button_id(b"START"), Some(3));
    assert_eq!(button_id(b"start"), Some(3));
    assert_eq!(button_id(b"b"), Some(0));
    assert_eq!(button_id(b"Select"), Some(2));
    assert_eq!(button_id(b"R"), Some(11));
    assert_eq!(button_id(b"X"), Some(9));
    assert_eq!(button_id(b"STAR"), None);
    assert_eq!(button_id(b""), None);
}

#[test]
fn input_spec_grammar() {
    assert_eq!(parse_input_spec("START@400-410"), Some((400, 410, 3)));
    assert_eq!(parse_input_spec("a@0-0"), Some((0, 0, 8)));
    assert_eq!(parse_input_spec("up@+5-7"), Some((5, 7, 4)));
    assert_eq!(parse_input_spec("START400-410"), None);
    assert_eq!(parse_input_spec("START@400"), None);
    assert_eq!(parse_input_spec("JUMP@1-2"), None);
    assert_eq!(parse_input_spec("START@1-2-3"), None);
    assert_eq!(parse_input_spec("START@-2"), None);
    assert_eq!(parse_input_spec("L@1-x"), None);
}

#[test]
fn samples_inside_the_dll_map_to_rvas() {
    let base = 0x7FF8_0000_0000u64;
    let s = |rip: u64| Sample { tid: 1, rip };
    assert_eq!(dll_rva(&s(base), base, 0x1000), Some(0));
    assert_eq!(dll_rva(&s(base + 0xFFF), base, 0x1000), Some(0xFFF));
    assert_eq!(dll_rva(&s(base + 0x1000), base, 0x1000), None);
    assert_eq!(dll_rva(&s(base - 1), base, 0x1000), None);
}

#[test]
fn avx2_needs_all_four_feature_bits() {
    let ecx = (1u32 << 27) | (1 << 28);
    assert!(avx_os_bits(ecx));
    assert!(!avx_os_bits(1 << 28));
    assert!(avx2_available(ecx, 0x7, 1 << 5));
    assert!(!avx2_available(1 << 28, 0x7, 1 << 5));
    assert!(!avx2_available(ecx, 0x2, 1 << 5));
    assert!(!avx2_available(ecx, 0x7, 0));
}
