//! The decisions of a benchmark suite run (cores × games × repetitions):
//! which cores and games run, how many frames and repetitions, in which
//! order, and the hash-equivalence gate of verify mode, which passes a game
//! only if every gated stream hashed the same in all of its runs.

use vstd::prelude::*;
use vstd::string::StringSliceAdditionalSpecFns;
use crate::config::{trim, trim_spec};

verus! {

/// Whether `label` passes the filter list: an empty filter keeps every
/// label, otherwise the label must be listed.
pub open spec fn kept(filter: Seq<String>, label: Seq<char>) -> bool {
    filter.len() == 0 || exists|i: int| 0 <= i < filter.len() && #[trigger] filter[i]@ == label
}

/// Applies a `--cores` / `--games` filter to a label.
pub fn keep_label(filter: &[String], label: &String) -> (res: bool)
    ensures
        res == kept(filter@, label@),
{
    if filter.len() == 0 {
        return true;
    }
    let mut i: usize = 0;
    while i < filter.len()
        invariant
            i <= filter@.len(),
            filter@.len() > 0,
            forall|j: int| 0 <= j < i ==> #[trigger] filter@[j]@ != label@,
        decreases filter@.len() - i,
    {
        if filter[i] == *label {
            return true;
        }
        i = i + 1;
    }
    false
}

/// Measured frames for a game: in verify mode its frame cap, if it has
/// one, bounds the requested count.
pub fn frames_for_game(frames: u64, max_frames: Option<u64>, verify: bool) -> (res: u64)
    ensures
        res == (match max_frames {
            Some(cap) => if verify && cap < frames { cap } else { frames },
            None => frames,
        }),
{
    match max_frames {
        Some(cap) => {
            if verify && cap < frames {
                cap
            } else {
                frames
            }
        },
        None => frames,
    }
}

/// Repetitions of each (core, game) pair: two in verify mode.
pub fn suite_reps(verify: bool, reps: u32) -> (res: u32)
    ensures
        res == (if verify { 2 } else { reps }),
{
    if verify {
        2
    } else {
        reps
    }
}

/// Warmup frames of each run: none in verify mode.
pub fn suite_warmup(verify: bool, warmup: u64) -> (res: u64)
    ensures
        res == (if verify { 0 } else { warmup }),
{
    if verify {
        0
    } else {
        warmup
    }
}

/// Order of the `n` cores in repetition `rep`: as configured on odd
/// repetitions, reversed on even ones (clock drift during a suite would
/// otherwise favour the cores that run first).
pub fn run_order(n: usize, rep: u32) -> (res: Vec<usize>)
    ensures
        res@.len() == n,
        forall|i: int| 0 <= i < n ==> #[trigger] res@[i] == (if rep % 2 == 0 { n - 1 - i } else { i }),
{
    let mut v: Vec<usize> = Vec::new();
    let mut i: usize = 0;
    while i < n
        invariant
            i <= n,
            v@.len() == i,
            forall|j: int| 0 <= j < i ==> #[trigger] v@[j] == (if rep % 2 == 0 { n - 1 - j } else { j }),
        decreases n - i,
    {
        if rep % 2 == 0 {
            v.push(n - 1 - i);
        } else {
            v.push(i);
        }
        i = i + 1;
    }
    v
}

/// The game label and stream hashes one run reported.
pub struct RunHashes {
    pub game: String,
    pub video: String,
    pub audio: String,
    pub ram: String,
    pub saveram: String,
}

/// Which stream of a run: 0 video, 1 audio, 2 RAM, 3 save RAM.
pub open spec fn stream_of(r: RunHashes, k: int) -> Seq<char> {
    if k == 0 {
        r.video@
    } else if k == 1 {
        r.audio@
    } else if k == 2 {
        r.ram@
    } else {
        r.saveram@
    }
}

/// Whether `game` has runs and all of them report one value of stream `k`
/// (exactly one distinct hash).
pub open spec fn stream_uniform(runs: Seq<RunHashes>, game: Seq<char>, k: int) -> bool {
    &&& exists|i: int| 0 <= i < runs.len() && #[trigger] runs[i].game@ == game
    &&& forall|i: int, j: int|
        0 <= i < runs.len() && 0 <= j < runs.len() && #[trigger] runs[i].game@ == game && #[trigger] runs[j].game@
            == game ==> stream_of(runs[i], k) == stream_of(runs[j], k)
}

/// Reads stream `k` of a run.
fn stream_value(r: &RunHashes, k: u8) -> (res: &String)
    requires
        k <= 3,
    ensures
        res@ == stream_of(*r, k as int),
{
    if k == 0 {
        &r.video
    } else if k == 1 {
        &r.audio
    } else if k == 2 {
        &r.ram
    } else {
        &r.saveram
    }
}

/// Whether all runs of `game` agree on stream `k`.
pub fn uniform_stream(runs: &[RunHashes], game: &String, k: u8) -> (res: bool)
    requires
        k <= 3,
    ensures
        res == stream_uniform(runs@, game@, k as int),
{
    let mut first: Option<usize> = None;
    let mut i: usize = 0;
    while i < runs.len()
        invariant
            i <= runs@.len(),
            k <= 3,
            first is None ==> forall|j: int| 0 <= j < i ==> #[trigger] runs@[j].game@ != game@,
            first matches Some(f) ==> f < i && runs@[f as int].game@ == game@,
            first matches Some(f) ==> forall|j: int|
                0 <= j < i && #[trigger] runs@[j].game@ == game@ ==> stream_of(runs@[j], k as int)
                    == stream_of(runs@[f as int], k as int),
        decreases runs@.len() - i,
    {
        if runs[i].game == *game {
            match first {
                None => {
                    first = Some(i);
                },
                Some(f) => {
                    let a: &String = stream_value(&runs[i], k);
                    let b: &String = stream_value(&runs[f], k);
                    if *a != *b {
                        assert(runs@[i as int].game@ == game@);
                        return false;
                    }
                },
            }
        }
        i = i + 1;
    }
    match first {
        None => false,
        Some(f) => {
            assert(runs@[f as int].game@ == game@);
            true
        },
    }
}

/// What the equivalence gate decides for one game.
pub struct GameGate {
    /// All gated streams are identical across the game's runs.
    pub identical: bool,
    /// The video stream was gated (not flagged nondeterministic).
    pub video_gated: bool,
    /// The audio stream was gated (not flagged nondeterministic).
    pub audio_gated: bool,
    /// The full-RAM hash also agreed (informational only).
    pub ram_same: bool,
}

/// The hash-equivalence gate for one game: video and audio must agree
/// across its runs unless flagged nondeterministic for the game, save RAM
/// must always agree; the full-RAM hash is reported but never gates.
pub fn gate_game(runs: &[RunHashes], game: &String, audio_nondet: bool, video_nondet: bool) -> (res: GameGate)
    ensures
        res.identical == ((video_nondet || stream_uniform(runs@, game@, 0)) && (audio_nondet
            || stream_uniform(runs@, game@, 1)) && stream_uniform(runs@, game@, 3)),
        res.video_gated == !video_nondet,
        res.audio_gated == !audio_nondet,
        res.ram_same == stream_uniform(runs@, game@, 2),
{
    let video_ok: bool = video_nondet || uniform_stream(runs, game, 0);
    let audio_ok: bool = audio_nondet || uniform_stream(runs, game, 1);
    let saveram_ok: bool = uniform_stream(runs, game, 3);
    let ram_same: bool = uniform_stream(runs, game, 2);
    GameGate {
        identical: video_ok && audio_ok && saveram_ok,
        video_gated: !video_nondet,
        audio_gated: !audio_nondet,
        ram_same,
    }
}

/// A game of a verify-mode suite with the streams it is flagged
/// nondeterministic on in the stock core.
pub struct GameFlags {
    pub label: String,
    pub audio_nondet: bool,
    pub video_nondet: bool,
}

/// Whether a game passes the equivalence gate over `runs`: video and audio
/// identical across its runs unless flagged, save RAM always identical.
pub open spec fn game_passes(runs: Seq<RunHashes>, g: GameFlags) -> bool {
    &&& (g.video_nondet || stream_uniform(runs, g.label@, 0))
    &&& (g.audio_nondet || stream_uniform(runs, g.label@, 1))
    &&& stream_uniform(runs, g.label@, 3)
}

/// The verdict of a verify-mode suite: it passes only if every one of the
/// `planned` runs (each selected game × core × repetition) completed and
/// reported, and every game passes the equivalence gate over all its runs.
pub fn suite_verdict(planned: usize, runs: &[RunHashes], games: &[GameFlags]) -> (res: bool)
    ensures
        res == (runs@.len() == planned && forall|g: int| 0 <= g < games@.len() ==> #[trigger] game_passes(runs@, games@[g])),
{
    let mut ok: bool = runs.len() == planned;
    let mut i: usize = 0;
    while i < games.len()
        invariant
            i <= games@.len(),
            ok == (runs@.len() == planned && forall|g: int| 0 <= g < i ==> #[trigger] game_passes(runs@, games@[g])),
        decreases games@.len() - i,
    {
        let g: &GameFlags = &games[i];
        let gate: GameGate = gate_game(runs, &g.label, g.audio_nondet, g.video_nondet);
        assert(gate.identical == game_passes(runs@, games@[i as int]));
        ok = ok && gate.identical;
        i = i + 1;
    }
    ok
}

/// Whether `pat` occurs in `s` at index `k`.
pub open spec fn occurs_at(s: Seq<u8>, pat: Seq<u8>, k: int) -> bool {
    0 <= k && k + pat.len() <= s.len() && s.subrange(k, k + pat.len()) =~= pat
}

/// Index of the first occurrence of `pat` in `s` at or after `k`.
pub open spec fn find_sub_from(s: Seq<u8>, pat: Seq<u8>, k: int) -> Option<int>
    decreases s.len() - k,
{
    if k < 0 || k + pat.len() > s.len() {
        None
    } else if occurs_at(s, pat, k) {
        Some(k)
    } else {
        find_sub_from(s, pat, k + 1)
    }
}

/// Index of the first newline or comma in `s` at or after `k`.
pub open spec fn find_end_from(s: Seq<u8>, k: int) -> Option<int>
    decreases s.len() - k,
{
    if k < 0 || k >= s.len() {
        None
    } else if s[k] == 10 || s[k] == 44 {
        Some(k)
    } else {
        find_end_from(s, k + 1)
    }
}

/// The search pattern `"KEY":` of a JSON field.
pub open spec fn json_key_pattern(key: Seq<u8>) -> Seq<u8> {
    seq![34u8] + key + seq![34u8, 58u8]
}

/// The raw value of field `key` in melonbench's own one-field-per-line
/// JSON: from just after the first `"key":` up to the next newline or
/// comma, as a byte range; none if the field or its end is missing.
pub open spec fn json_value_spec(json: Seq<u8>, key: Seq<u8>) -> Option<(int, int)> {
    let pat = json_key_pattern(key);
    match find_sub_from(json, pat, 0) {
        None => None,
        Some(i) => match find_end_from(json, i + pat.len()) {
            None => None,
            Some(e) => Some((i + pat.len(), e)),
        },
    }
}

/// Whether `pat` occurs in `s` at `k`.
fn matches_at(s: &[u8], pat: &[u8], k: usize) -> (res: bool)
    requires
        k + pat@.len() <= s@.len(),
    ensures
        res == occurs_at(s@, pat@, k as int),
{
    let n: usize = s.len();
    let mut i: usize = 0;
    while i < pat.len()
        invariant
            i <= pat@.len(),
            n == s@.len(),
            k + pat@.len() <= s@.len(),
            forall|j: int| 0 <= j < i ==> s@[k + j] == #[trigger] pat@[j],
        decreases pat@.len() - i,
    {
        if s[k + i] != pat[i] {
            assert(s@.subrange(k as int, k + pat@.len())[i as int] == s@[k + i]);
            return false;
        }
        i = i + 1;
    }
    assert(s@.subrange(k as int, k + pat@.len()) =~= pat@);
    true
}

/// Locates the raw value of field `key` in a run's JSON report (the
/// extractor behind the summary's numbers and hashes).
pub fn json_value(json: &str, key: &str) -> (res: Option<(usize, usize)>)
    ensures
        res matches Some(r) ==> json_value_spec(json.spec_bytes(), key.spec_bytes()) == Some((r.0 as int, r.1 as int)),
        res matches Some(r) ==> r.0 <= r.1 <= json.spec_bytes().len(),
        res is None ==> json_value_spec(json.spec_bytes(), key.spec_bytes()) is None,
{
    let s: &[u8] = json.as_bytes();
    let k: &[u8] = key.as_bytes();
    let mut pat: Vec<u8> = Vec::new();
    pat.push(34);
    let mut t: usize = 0;
    while t < k.len()
        invariant
            t <= k@.len(),
            pat@ =~= seq![34u8] + k@.subrange(0, t as int),
        decreases k@.len() - t,
    {
        pat.push(k[t]);
        t = t + 1;
    }
    pat.push(34);
    pat.push(58);
    assert(pat@ =~= json_key_pattern(k@));
    let plen: usize = pat.len();
    let n: usize = s.len();
    if plen > n {
        return None;
    }
    let mut i: usize = 0;
    let mut found: Option<usize> = None;
    while i <= n - plen
        invariant
            i <= n - plen + 1,
            plen == pat@.len(),
            plen <= n,
            n == s@.len(),
            pat@ == json_key_pattern(k@),
            found is None ==> find_sub_from(s@, pat@, 0) == find_sub_from(s@, pat@, i as int),
            found matches Some(f) ==> find_sub_from(s@, pat@, 0) == Some(f as int) && f + plen <= n,
        decreases n - i,
    {
        if found.is_none() {
            if matches_at(s, &pat, i) {
                found = Some(i);
            }
        }
        i = i + 1;
    }
    let start: usize = match found {
        None => {
            return None;
        },
        Some(f) => f + plen,
    };
    assert(json_value_spec(s@, k@) == (match find_end_from(s@, start as int) {
        None => None,
        Some(e) => Some((start as int, e)),
    }));
    let mut e: usize = start;
    while e < n
        invariant
            start <= e <= n,
            n == s@.len(),
            s@ == json.spec_bytes(),
            k@ == key.spec_bytes(),
            json_value_spec(s@, k@) == (match find_end_from(s@, start as int) {
                None => None,
                Some(e) => Some((start as int, e)),
            }),
            find_end_from(s@, start as int) == find_end_from(s@, e as int),
        decreases n - e,
    {
        if s[e] == 10 || s[e] == 44 {
            return Some((start, e));
        }
        e = e + 1;
    }
    None
}

/// `s[lo..hi]` without its leading and trailing `"` and `,` characters
/// (`trim_matches(['"', ','])`), as a byte range.
pub open spec fn strip_quote_comma(s: Seq<u8>, lo: int, hi: int) -> (int, int)
    decreases hi - lo,
{
    if lo < hi && (s[lo] == 34 || s[lo] == 44) {
        strip_quote_comma(s, lo + 1, hi)
    } else if lo < hi && (s[hi - 1] == 34 || s[hi - 1] == 44) {
        strip_quote_comma(s, lo, hi - 1)
    } else {
        (lo, hi)
    }
}

/// The string field `key` of a run's JSON report, as a byte range: its raw
/// value trimmed of whitespace, then of quotes and commas; empty (at 0) if
/// the field is missing.
pub open spec fn json_str_spec(json: Seq<u8>, key: Seq<u8>) -> (int, int) {
    match json_value_spec(json, key) {
        None => (0, 0),
        Some((a, b)) => {
            let t = trim_spec(json, a, b);
            strip_quote_comma(json, t.0, t.1)
        },
    }
}

/// Reads the string field `key` (a hash) of a run's JSON report.
pub fn json_str(json: &str, key: &str) -> (res: (usize, usize))
    ensures
        res.0 == json_str_spec(json.spec_bytes(), key.spec_bytes()).0,
        res.1 == json_str_spec(json.spec_bytes(), key.spec_bytes()).1,
        res.0 <= res.1 <= json.spec_bytes().len(),
{
    let s: &[u8] = json.as_bytes();
    match json_value(json, key) {
        None => (0, 0),
        Some((a, b)) => {
            let (lo0, hi0) = trim(s, a, b);
            let mut lo: usize = lo0;
            let mut hi: usize = hi0;
            while lo < hi && (s[lo] == 34 || s[lo] == 44)
                invariant
                    lo0 <= lo <= hi == hi0 <= s@.len(),
                    strip_quote_comma(s@, lo as int, hi as int) == strip_quote_comma(s@, lo0 as int, hi0 as int),
                decreases hi - lo,
            {
                lo = lo + 1;
            }
            while lo < hi && (s[hi - 1] == 34 || s[hi - 1] == 44)
                invariant
                    lo <= hi <= s@.len(),
                    !(lo < hi && (s@[lo as int] == 34 || s@[lo as int] == 44)) || lo == hi,
                    strip_quote_comma(s@, lo as int, hi as int) == strip_quote_comma(s@, lo0 as int, hi0 as int),
                decreases hi - lo,
            {
                hi = hi - 1;
            }
            (lo, hi)
        },
    }
}

/// A string escaped for a JSON string literal: each backslash and each
/// double quote gets a backslash before it.
pub open spec fn json_escape_spec(s: Seq<u8>) -> Seq<u8>
    decreases s.len(),
{
    if s.len() == 0 {
        Seq::empty()
    } else {
        let c = s.last();
        json_escape_spec(s.drop_last()) + (if c == 92 || c == 34 { seq![92u8, c] } else { seq![c] })
    }
}

/// Escapes a string for the JSON report (the UTF-8 bytes of the result;
/// both escaped characters are ASCII, so multi-byte characters pass through
/// whole).
pub fn json_escape(s: &str) -> (res: Vec<u8>)
    ensures
        res@ == json_escape_spec(s.spec_bytes()),
{
    let b: &[u8] = s.as_bytes();
    let mut out: Vec<u8> = Vec::new();
    let mut i: usize = 0;
    while i < b.len()
        invariant
            i <= b@.len(),
            b@ == s.spec_bytes(),
            out@ == json_escape_spec(b@.subrange(0, i as int)),
        decreases b@.len() - i,
    {
        let c: u8 = b[i];
        assert(b@.subrange(0, i + 1).drop_last() =~= b@.subrange(0, i as int));
        if c == 92 || c == 34 {
            out.push(92);
        }
        out.push(c);
        i = i + 1;
    }
    assert(b@.subrange(0, i as int) =~= b@);
    out
}

} // verus!
