//! Profile symbolization: nm lines, profile lines and address resolution.

use melonink::symbolize::{nm_symbol, parse_hex, profile_line, resolve, tally, top_names, ProfileLine};

#[test]
fn hex_numbers() {
    assert_eq!(parse_hex(b"1f"), Some(0x1f));
    assert_eq!(parse_hex(b"DEADbeef"), Some(0xdeadbeef));
    assert_eq!(parse_hex(b"+10"), Some(16));
    assert_eq!(parse_hex(b"ffffffffffffffff"), Some(u64::MAX));
    assert_eq!(parse_hex(b"10000000000000000"), None);
    assert_eq!(parse_hex(b"0x10"), None);
    assert_eq!(parse_hex(b""), None);
}

#[test]
fn nm_text_symbols_relative_to_image_base() {
    let line = b"0000000140001000 T melonink_render_spans(int, int)";
    let (rva, name) = nm_symbol(line, 0x140000000).unwrap();
    assert_eq!(rva, 0x1000);
    assert_eq!(&line[name..], b"melonink_render_spans(int, int)");
    assert_eq!(nm_symbol(b"0000000140001000 t local", 0x140000000).map(|r| r.0), Some(0x1000));
    assert_eq!(nm_symbol(b"0000000140001000 D data", 0x140000000), None);
    assert_eq!(nm_symbol(b"0000000000000010 T low", 0x140000000), None);
    assert_eq!(nm_symbol(b"0000000140001000 T", 0x140000000), None);
    assert_eq!(nm_symbol(b"zz T name", 0), None);
}

#[test]
fn profile_lines() {
    assert!(matches!(profile_line(b"# total=10"), ProfileLine::Comment));
    assert!(matches!(profile_line(b"1a2b,17"), ProfileLine::Entry(0x1a2b, 17)));
    assert!(matches!(profile_line(b"1a2b;17"), ProfileLine::Other));
    assert!(matches!(profile_line(b"xyz,17"), ProfileLine::Other));
    assert!(matches!(profile_line(b"10,-1"), ProfileLine::Other));
}

#[test]
fn resolve_finds_enclosing_symbol() {
    let keys = [0x100u64, 0x200, 0x300];
    assert_eq!(resolve(&keys, 0x50), None);
    assert_eq!(resolve(&keys, 0x100), Some(0));
    assert_eq!(resolve(&keys, 0x1ff), Some(0));
    assert_eq!(resolve(&keys, 0x250), Some(1));
    assert_eq!(resolve(&keys, 0x300), Some(2));
    assert_eq!(resolve(&keys, 0xffff), Some(2));
    assert_eq!(resolve(&[], 0x100), None);
}

#[test]
fn tally_adds_samples_per_name_and_in_total() {
    // entries went to names 2, 0, 2, 2 (name 1 got none)
    let (per, total) = tally(&[2, 0, 2, 2], &[5, 7, 1, 0], 3);
    assert_eq!(per, vec![Some(7), None, Some(6)]);
    assert_eq!(total, 13);
    let (per, total) = tally(&[], &[], 2);
    assert_eq!(per, vec![None, None]);
    assert_eq!(total, 0);
}

#[test]
fn top_names_orders_by_samples_and_stops_at_n() {
    let per = [Some(3), None, Some(9), Some(3), Some(0), Some(12)];
    assert_eq!(top_names(&per, 3), vec![5, 2, 0]);
    assert_eq!(top_names(&per, 10), vec![5, 2, 0, 3, 4]);
    assert_eq!(top_names(&per, 0), Vec::<usize>::new());
}
