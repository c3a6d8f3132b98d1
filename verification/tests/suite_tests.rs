//! The suite's filters, frame caps, run order, JSON field extraction and
//! hash-equivalence gate.

use melonink::suite::{suite_verdict, GameFlags};
use melonink::suite::{
    frames_for_game, gate_game, json_value, keep_label, run_order, suite_reps, suite_warmup, uniform_stream,
    RunHashes,
};

fn s(x: &str) -> String {
    x.to_string()
}

fn run(game: &str, v: &str, a: &str, r: &str, sr: &str) -> RunHashes {
    RunHashes { game: s(game), video: s(v), audio: s(a), ram: s(r), saveram: s(sr) }
}

#[test]
fn empty_filter_keeps_everything() {
    assert!(keep_label(&[], &s("stock")));
    assert!(keep_label(&[s("a"), s("stock")], &s("stock")));
    assert!(!keep_label(&[s("a"), s("b")], &s("stock")));
}

#[test]
fn frame_cap_applies_in_verify_mode_only() {
    assert_eq!(frames_for_game(3000, Some(500), true), 500);
    assert_eq!(frames_for_game(3000, Some(500), false), 3000);
    assert_eq!(frames_for_game(300, Some(500), true), 300);
    assert_eq!(frames_for_game(3000, None, true), 3000);
}

#[test]
fn verify_mode_forces_reps_and_warmup() {
    assert_eq!(suite_reps(true, 5), 2);
    assert_eq!(suite_reps(false, 5), 5);
    assert_eq!(suite_warmup(true, 300), 0);
    assert_eq!(suite_warmup(false, 300), 300);
}

#[test]
fn order_alternates_by_repetition() {
    assert_eq!(run_order(3, 1), vec![0, 1, 2]);
    assert_eq!(run_order(3, 2), vec![2, 1, 0]);
    assert_eq!(run_order(3, 3), vec![0, 1, 2]);
    assert_eq!(run_order(0, 2), Vec::<usize>::new());
}

#[test]
fn gate_passes_identical_streams() {
    let runs = vec![
        run("g1", "v", "a", "r1", "s"),
        run("g2", "x", "y", "z", "w"),
        run("g1", "v", "a", "r2", "s"),
    ];
    let v = gate_game(&runs, &s("g1"), false, false);
    assert!(v.identical);
    assert!(v.video_gated && v.audio_gated);
    assert!(!v.ram_same, "RAM differs but does not gate");
}

#[test]
fn gate_fails_on_a_differing_stream_unless_flagged() {
    let runs = vec![run("g", "v1", "a", "r", "s"), run("g", "v2", "a", "r", "s")];
    assert!(!gate_game(&runs, &s("g"), false, false).identical);
    let flagged = gate_game(&runs, &s("g"), false, true);
    assert!(flagged.identical);
    assert!(!flagged.video_gated);
    let audio = vec![run("g", "v", "a1", "r", "s"), run("g", "v", "a2", "r", "s")];
    assert!(!gate_game(&audio, &s("g"), false, false).identical);
    assert!(gate_game(&audio, &s("g"), true, false).identical);
    let save = vec![run("g", "v", "a", "r", "s1"), run("g", "v", "a", "r", "s2")];
    assert!(!gate_game(&save, &s("g"), true, true).identical);
}

#[test]
fn a_game_without_runs_has_no_uniform_stream() {
    let runs = vec![run("g", "v", "a", "r", "s")];
    assert!(!uniform_stream(&runs, &s("other"), 0));
    assert!(uniform_stream(&runs, &s("g"), 3));
}

#[test]
fn json_value_finds_first_field_up_to_comma_or_newline() {
    let json = "{\n  \"avg_fps\": 59.8,\n  \"video_hash\": \"00ff\",\n  \"frames_over_budget\": 3\n}\n";
    let (a, b) = json_value(json, "avg_fps").unwrap();
    assert_eq!(&json[a..b], " 59.8");
    let (a, b) = json_value(json, "video_hash").unwrap();
    assert_eq!(&json[a..b], " \"00ff\"");
    let (a, b) = json_value(json, "frames_over_budget").unwrap();
    assert_eq!(&json[a..b], " 3");
    assert_eq!(json_value(json, "missing"), None);
    assert_eq!(json_value("\"k\": 1", "k"), None);
}

#[test]
fn json_str_trims_quotes_and_commas() {
    let json = "{\n  \"label\": \"a--b--r1\",\n  \"video_hash\": \"00ff\",\n  \"hashed\": true\n}\n";
    let (lo, hi) = melonink::suite::json_str(json, "video_hash");
    assert_eq!(&json[lo..hi], "00ff");
    let (lo, hi) = melonink::suite::json_str(json, "hashed");
    assert_eq!(&json[lo..hi], "true");
    assert_eq!(melonink::suite::json_str(json, "missing"), (0, 0));
}

#[test]
fn json_escape_backslashes_and_quotes() {
    assert_eq!(melonink::suite::json_escape("C:\\cores\\a \"b\".dll"), b"C:\\\\cores\\\\a \\\"b\\\".dll".to_vec());
    assert_eq!(melonink::suite::json_escape("plain é"), "plain é".as_bytes().to_vec());
    assert_eq!(melonink::suite::json_escape(""), Vec::<u8>::new());
}

#[test]
fn suite_verdict_needs_every_planned_run_and_every_game_identical() {
    let run = |g: &str, v: &str, a: &str| RunHashes { game: s(g), video: s(v), audio: s(a), ram: s("r"), saveram: s("sr") };
    let games = vec![
        GameFlags { label: s("mkds"), audio_nondet: false, video_nondet: false },
        GameFlags { label: s("ctgp"), audio_nondet: true, video_nondet: false },
    ];
    let all = vec![run("mkds", "v1", "a1"), run("mkds", "v1", "a1"), run("ctgp", "v2", "a2"), run("ctgp", "v2", "a9")];
    assert!(suite_verdict(4, &all, &games));
    // a run that did not complete fails the suite, even with identical streams
    assert!(!suite_verdict(5, &all, &games));
    // a differing gated stream fails it
    let bad = vec![run("mkds", "v1", "a1"), run("mkds", "v7", "a1"), run("ctgp", "v2", "a2"), run("ctgp", "v2", "a9")];
    assert!(!suite_verdict(4, &bad, &games));
    // a selected game without any run fails it
    let only_mkds = vec![run("mkds", "v1", "a1"), run("mkds", "v1", "a1")];
    assert!(!suite_verdict(2, &only_mkds, &games));
}
