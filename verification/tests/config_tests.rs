//! Option files, suite configurations and game flags.

use melonink::config::{
    config_line, game_flags, game_settings, line_ranges, parse_config_text, parse_opt_text, trim, ConfigLine,
    GameFlag,
};

fn text_of(s: &str, r: (usize, usize)) -> &str {
    &s[r.0..r.1]
}

#[test]
fn trim_strips_unicode_whitespace() {
    let s = "\t\u{3000} key \u{a0}\r";
    let r = trim(s.as_bytes(), 0, s.len());
    assert_eq!(text_of(s, r), s.trim());
    let e = " \u{2028} ";
    let r = trim(e.as_bytes(), 0, e.len());
    assert_eq!(r.0, r.1);
    let inner = "a\u{85}b";
    let r = trim(inner.as_bytes(), 0, inner.len());
    assert_eq!(text_of(inner, r), "a\u{85}b");
}

#[test]
fn lines_split_at_newlines() {
    assert_eq!(line_ranges(b"a\nbc\r\n\n"), vec![(0, 1), (2, 5), (6, 6), (7, 7)]);
    assert_eq!(line_ranges(b""), vec![(0, 0)]);
}

#[test]
fn option_file_entries() {
    let text = "# comment\nmelonds_jit_enable = \"enabled\"\n\n  audio = \"\"\nnoequals\nkey=\"a\"b\"\"\n";
    let entries = parse_opt_text(text);
    let got: Vec<(&str, &str)> = entries.iter().map(|&(k, v)| (text_of(text, k), text_of(text, v))).collect();
    assert_eq!(got, vec![("melonds_jit_enable", "enabled"), ("audio", ""), ("key", "a\"b")]);
}

#[test]
fn config_lines() {
    let text = "core stock = C:\\cores\\stock.dll\ngame mkds = roms\\mkds.nds ; audio_nondet, frames=500\nsystem_dir  sys \nresults_dir out\nbogus x\nnospace\n# c\ncore nolabel\ngame nogame\n";
    let lines = parse_config_text(text);
    assert_eq!(lines.len(), 10);
    match lines[0] {
        ConfigLine::Core(l, p) => {
            assert_eq!(text_of(text, l), "stock");
            assert_eq!(text_of(text, p), "C:\\cores\\stock.dll");
        },
        _ => panic!("core line"),
    }
    match &lines[1] {
        ConfigLine::Game(g) => {
            assert_eq!(text_of(text, g.label), "mkds");
            assert_eq!(text_of(text, g.path), "roms\\mkds.nds");
            assert_eq!(text_of(text, g.flags), " audio_nondet, frames=500");
            let flags = game_flags(text.as_bytes(), g.flags.0, g.flags.1);
            assert!(matches!(flags[0], GameFlag::AudioNondet));
            assert!(matches!(flags[1], GameFlag::Frames(Some(500))));
            let st = game_settings(&flags);
            assert!(st.audio_nondet && !st.video_nondet && !st.ram_nondet);
            assert_eq!(st.max_frames, Some(500));
        },
        _ => panic!("game line"),
    }
    match lines[2] {
        ConfigLine::SystemDir(r) => assert_eq!(text_of(text, r), "sys"),
        _ => panic!("system_dir line"),
    }
    match lines[3] {
        ConfigLine::ResultsDir(r) => assert_eq!(text_of(text, r), "out"),
        _ => panic!("results_dir line"),
    }
    match lines[4] {
        ConfigLine::UnknownKey(r) => assert_eq!(text_of(text, r), "bogus"),
        _ => panic!("unknown key"),
    }
    for k in 5..10 {
        assert!(matches!(lines[k], ConfigLine::Skip), "line {k}");
    }
}

#[test]
fn game_flags_are_trimmed_and_checked() {
    let f = " video_nondet ,, ram_nondet, frames = 5, frames=x, shiny";
    let flags = game_flags(f.as_bytes(), 0, f.len());
    assert_eq!(flags.len(), 5);
    assert!(matches!(flags[0], GameFlag::VideoNondet));
    assert!(matches!(flags[1], GameFlag::RamNondet));
    match flags[2] {
        GameFlag::Unknown(r) => assert_eq!(text_of(f, r), "frames = 5"),
        _ => panic!("frames with a space before = is not a frame cap"),
    }
    assert!(matches!(flags[3], GameFlag::Frames(None)));
    match flags[4] {
        GameFlag::Unknown(r) => assert_eq!(text_of(f, r), "shiny"),
        _ => panic!("unknown flag"),
    }
    let st = game_settings(&flags);
    assert!(st.video_nondet && st.ram_nondet && !st.audio_nondet);
    assert_eq!(st.max_frames, None);
}

#[test]
fn a_single_config_line() {
    let l = "save_dir   D:\\saves  ";
    match config_line(l.as_bytes(), 0, l.len()) {
        ConfigLine::SaveDir(r) => assert_eq!(text_of(l, r), "D:\\saves"),
        _ => panic!("save_dir"),
    }
    let o = "opt_file x.opt";
    assert!(matches!(config_line(o.as_bytes(), 0, o.len()), ConfigLine::OptFile(_)));
}
