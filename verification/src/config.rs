//! The text formats the benchmark harness reads: RetroArch `.opt` core
//! option files (`key = "value"` lines) and suite configurations (`core`,
//! `game`, directory lines, with per-game flags). Parsing works on the
//! UTF-8 bytes of the text and answers with byte ranges into it.
//!
//! Trimming follows `str::trim`: it strips the characters with the Unicode
//! `White_Space` property, recognised here by their UTF-8 encodings.

use vstd::prelude::*;
use crate::bench::{parse_u64, parse_u64_spec};
use vstd::string::StringSliceAdditionalSpecFns;

verus! {

/// Length of the whitespace character starting at byte `i` of `s` (0 if
/// none starts there): ASCII TAB..CR and space, U+0085, U+00A0, U+1680,
/// U+2000..U+200A, U+2028, U+2029, U+202F, U+205F, U+3000.
pub open spec fn ws_len_at(s: Seq<u8>, i: int) -> int {
    if 0 <= i < s.len() && (9 <= s[i] <= 13 || s[i] == 32) {
        1
    } else if 0 <= i && i + 2 <= s.len() && s[i] == 0xC2 && (s[i + 1] == 0x85 || s[i + 1] == 0xA0) {
        2
    } else if 0 <= i && i + 3 <= s.len() && (
        (s[i] == 0xE1 && s[i + 1] == 0x9A && s[i + 2] == 0x80)
        || (s[i] == 0xE2 && s[i + 1] == 0x80 && (0x80 <= s[i + 2] <= 0x8A || s[i + 2] == 0xA8 || s[i + 2] == 0xA9 || s[i + 2] == 0xAF))
        || (s[i] == 0xE2 && s[i + 1] == 0x81 && s[i + 2] == 0x9F)
        || (s[i] == 0xE3 && s[i + 1] == 0x80 && s[i + 2] == 0x80)) {
        3
    } else {
        0
    }
}

/// Length of the whitespace character ending just before byte `j` of `s`
/// (0 if none ends there).
pub open spec fn ws_len_before(s: Seq<u8>, j: int) -> int {
    if ws_len_at(s, j - 1) == 1 {
        1
    } else if ws_len_at(s, j - 2) == 2 {
        2
    } else if ws_len_at(s, j - 3) == 3 {
        3
    } else {
        0
    }
}

/// Where `s[i..hi]` starts after its leading whitespace.
pub open spec fn skip_ws(s: Seq<u8>, i: int, hi: int) -> int
    decreases hi - i,
{
    if i < hi && 0 < ws_len_at(s, i) && i + ws_len_at(s, i) <= hi {
        skip_ws(s, i + ws_len_at(s, i), hi)
    } else {
        i
    }
}

/// Where `s[lo..j]` ends before its trailing whitespace.
pub open spec fn skip_ws_back(s: Seq<u8>, lo: int, j: int) -> int
    decreases j - lo,
{
    if lo < j && 0 < ws_len_before(s, j) && lo <= j - ws_len_before(s, j) {
        skip_ws_back(s, lo, j - ws_len_before(s, j))
    } else {
        j
    }
}

/// `s[lo..hi].trim()` as a byte range.
pub open spec fn trim_spec(s: Seq<u8>, lo: int, hi: int) -> (int, int) {
    let a = skip_ws(s, lo, hi);
    (a, skip_ws_back(s, a, hi))
}

/// Length of the whitespace character at `i` (below `hi`), or 0.
fn ws_at(s: &[u8], i: usize, hi: usize) -> (res: usize)
    requires
        i <= hi <= s@.len(),
    ensures
        res == (if i < hi && 0 < ws_len_at(s@, i as int) && i + ws_len_at(s@, i as int) <= hi {
            ws_len_at(s@, i as int)
        } else {
            0
        }),
{
    if i >= hi {
        return 0;
    }
    let c: u8 = s[i];
    if (c >= 9 && c <= 13) || c == 32 {
        return 1;
    }
    if hi - i >= 2 && c == 0xC2 && (s[i + 1] == 0x85 || s[i + 1] == 0xA0) {
        return 2;
    }
    if hi - i >= 3 {
        let c1: u8 = s[i + 1];
        let c2: u8 = s[i + 2];
        if (c == 0xE1 && c1 == 0x9A && c2 == 0x80) || (c == 0xE2 && c1 == 0x80 && ((c2 >= 0x80 && c2 <= 0x8A)
            || c2 == 0xA8 || c2 == 0xA9 || c2 == 0xAF)) || (c == 0xE2 && c1 == 0x81 && c2 == 0x9F) || (c
            == 0xE3 && c1 == 0x80 && c2 == 0x80) {
            return 3;
        }
    }
    0
}

/// Trims `s[lo..hi]` (`str::trim` on UTF-8 text): the range without its
/// leading and trailing whitespace.
pub fn trim(s: &[u8], lo: usize, hi: usize) -> (res: (usize, usize))
    requires
        lo <= hi <= s@.len(),
    ensures
        res.0 == trim_spec(s@, lo as int, hi as int).0,
        res.1 == trim_spec(s@, lo as int, hi as int).1,
        lo <= res.0 <= res.1 <= hi,
{
    let mut a: usize = lo;
    let mut done: bool = false;
    while a < hi && !done
        invariant
            lo <= a <= hi <= s@.len(),
            skip_ws(s@, lo as int, hi as int) == skip_ws(s@, a as int, hi as int),
            done ==> skip_ws(s@, a as int, hi as int) == a,
        decreases hi - a, if done { 0int } else { 1int },
    {
        let w: usize = ws_at(s, a, hi);
        if w == 0 {
            done = true;
        } else {
            a = a + w;
        }
    }
    let mut b: usize = hi;
    done = false;
    while a < b && !done
        invariant
            lo <= a <= b <= hi <= s@.len(),
            skip_ws(s@, lo as int, hi as int) == a,
            skip_ws_back(s@, a as int, hi as int) == skip_ws_back(s@, a as int, b as int),
            done ==> skip_ws_back(s@, a as int, b as int) == b,
        decreases b - a, if done { 0int } else { 1int },
    {
        let w: usize = if b >= 1 && ws_at(s, b - 1, b) == 1 {
            1
        } else if b >= 2 && ws_at(s, b - 2, b) == 2 {
            2
        } else if b >= 3 && ws_at(s, b - 3, b) == 3 {
            3
        } else {
            0
        };
        if w == 0 || b - w < a {
            done = true;
        } else {
            b = b - w;
        }
    }
    (a, b)
}

/// Index of the first `b` in `s[i..hi]`.
pub open spec fn find_in(s: Seq<u8>, b: u8, i: int, hi: int) -> Option<int>
    decreases hi - i,
{
    if i < 0 || i >= hi || i >= s.len() {
        None
    } else if s[i] == b {
        Some(i)
    } else {
        find_in(s, b, i + 1, hi)
    }
}

/// A found `b` lies in the searched range.
pub proof fn lemma_find_in(s: Seq<u8>, b: u8, i: int, hi: int)
    ensures
        find_in(s, b, i, hi) matches Some(e) ==> i <= e < hi && e < s.len() && s[e] == b,
    decreases hi - i,
{
    if !(i < 0 || i >= hi || i >= s.len()) && s[i] != b {
        lemma_find_in(s, b, i + 1, hi);
    }
}

/// Index of the first `b` in `s[lo..hi]`.
fn find_range(s: &[u8], b: u8, lo: usize, hi: usize) -> (res: Option<usize>)
    requires
        lo <= hi <= s@.len(),
    ensures
        res matches Some(i) ==> find_in(s@, b, lo as int, hi as int) == Some(i as int) && lo <= i < hi,
        res is None ==> find_in(s@, b, lo as int, hi as int) is None,
{
    let mut i: usize = lo;
    while i < hi
        invariant
            lo <= i <= hi <= s@.len(),
            find_in(s@, b, lo as int, hi as int) == find_in(s@, b, i as int, hi as int),
        decreases hi - i,
    {
        if s[i] == b {
            return Some(i);
        }
        i = i + 1;
    }
    None
}

/// The lines of `s` from byte `start`: the ranges between newlines (the
/// last one runs to the end of the text).
pub open spec fn lines_from(s: Seq<u8>, start: int) -> Seq<(usize, usize)>
    decreases s.len() - start,
{
    if start < 0 || start > s.len() {
        Seq::empty()
    } else {
        proof {
            lemma_find_in(s, 10, start, s.len() as int);
        }
        match find_in(s, 10, start, s.len() as int) {
            None => seq![(start as usize, s.len() as usize)],
            Some(e) => seq![(start as usize, e as usize)] + lines_from(s, e + 1),
        }
    }
}

/// Splits text into lines at its newlines.
pub fn line_ranges(s: &[u8]) -> (res: Vec<(usize, usize)>)
    ensures
        res@ == lines_from(s@, 0),
        forall|k: int| 0 <= k < res@.len() ==> #[trigger] res@[k].0 <= res@[k].1 <= s@.len(),
{
    let n: usize = s.len();
    let mut res: Vec<(usize, usize)> = Vec::new();
    let mut start: usize = 0;
    let mut done: bool = false;
    while !done
        invariant
            start <= n == s@.len(),
            !done ==> res@ + lines_from(s@, start as int) == lines_from(s@, 0),
            done ==> res@ == lines_from(s@, 0),
            forall|k: int| 0 <= k < res@.len() ==> #[trigger] res@[k].0 <= res@[k].1 <= s@.len(),
        decreases n - start, if done { 0int } else { 1int },
    {
        let ghost before = res@;
        match find_range(s, 10, start, n) {
            None => {
                res.push((start, n));
                assert(lines_from(s@, start as int) == seq![(start, n)]);
                assert(res@ =~= before + lines_from(s@, start as int));
                done = true;
            },
            Some(e) => {
                res.push((start, e));
                assert(lines_from(s@, start as int) == seq![(start, e)] + lines_from(s@, e + 1));
                assert(before + lines_from(s@, start as int) =~= res@ + lines_from(s@, e + 1));
                start = e + 1;
            },
        }
    }
    res
}

/// `s[lo..hi].trim_matches('"')`: the range without its leading and
/// trailing double quotes.
pub open spec fn strip_quotes_spec(s: Seq<u8>, lo: int, hi: int) -> (int, int)
    decreases hi - lo,
{
    if lo < hi && s[lo] == 34 {
        strip_quotes_spec(s, lo + 1, hi)
    } else if lo < hi && s[hi - 1] == 34 {
        strip_quotes_spec(s, lo, hi - 1)
    } else {
        (lo, hi)
    }
}

/// Strips the double quotes around `s[lo..hi]`.
fn strip_quotes(s: &[u8], lo: usize, hi: usize) -> (res: (usize, usize))
    requires
        lo <= hi <= s@.len(),
    ensures
        res.0 == strip_quotes_spec(s@, lo as int, hi as int).0,
        res.1 == strip_quotes_spec(s@, lo as int, hi as int).1,
        lo <= res.0 <= res.1 <= hi,
{
    let mut a: usize = lo;
    let mut b: usize = hi;
    while a < b && (s[a] == 34 || s[b - 1] == 34)
        invariant
            lo <= a <= b <= hi <= s@.len(),
            strip_quotes_spec(s@, lo as int, hi as int) == strip_quotes_spec(s@, a as int, b as int),
        decreases b - a,
    {
        if s[a] == 34 {
            a = a + 1;
        } else {
            b = b - 1;
        }
    }
    (a, b)
}

/// The `(key, value)` ranges of a line of an option file: the trimmed
/// line, unless empty or a `#` comment, split at its first `=`; the key
/// trimmed, the value trimmed and stripped of its double quotes.
pub open spec fn opt_line_spec(s: Seq<u8>, lo: int, hi: int) -> Option<((usize, usize), (usize, usize))> {
    let (a, b) = trim_spec(s, lo, hi);
    if a == b || s[a] == 35 {
        None
    } else {
        match find_in(s, 61, a, b) {
            None => None,
            Some(e) => {
                let k = trim_spec(s, a, e);
                let v = trim_spec(s, e + 1, b);
                let q = strip_quotes_spec(s, v.0, v.1);
                Some(((k.0 as usize, k.1 as usize), (q.0 as usize, q.1 as usize)))
            },
        }
    }
}

/// The option entries of the lines `ls`, in order.
pub open spec fn opt_entries(s: Seq<u8>, ls: Seq<(usize, usize)>) -> Seq<((usize, usize), (usize, usize))>
    decreases ls.len(),
{
    if ls.len() == 0 {
        Seq::empty()
    } else {
        let prev = opt_entries(s, ls.drop_last());
        match opt_line_spec(s, ls.last().0 as int, ls.last().1 as int) {
            Some(e) => prev.push(e),
            None => prev,
        }
    }
}

/// Reads one line of an option file.
pub fn opt_line(s: &[u8], lo: usize, hi: usize) -> (res: Option<((usize, usize), (usize, usize))>)
    requires
        lo <= hi <= s@.len(),
    ensures
        res == opt_line_spec(s@, lo as int, hi as int),
{
    let (a, b) = trim(s, lo, hi);
    if a == b || s[a] == 35 {
        return None;
    }
    match find_range(s, 61, a, b) {
        None => None,
        Some(e) => {
            let k: (usize, usize) = trim(s, a, e);
            let v: (usize, usize) = trim(s, e + 1, b);
            let q: (usize, usize) = strip_quotes(s, v.0, v.1);
            Some((k, q))
        },
    }
}

/// Reads a RetroArch option file: the `key = "value"` entries, in order,
/// as byte ranges of the text.
pub fn parse_opt_text(text: &str) -> (res: Vec<((usize, usize), (usize, usize))>)
    ensures
        res@ == opt_entries(text.spec_bytes(), lines_from(text.spec_bytes(), 0)),
{
    let s: &[u8] = text.as_bytes();
    let lines: Vec<(usize, usize)> = line_ranges(s);
    let mut res: Vec<((usize, usize), (usize, usize))> = Vec::new();
    let mut i: usize = 0;
    while i < lines.len()
        invariant
            i <= lines@.len(),
            lines@ == lines_from(s@, 0),
            s@ == text.spec_bytes(),
            forall|k: int| 0 <= k < lines@.len() ==> #[trigger] lines@[k].0 <= lines@[k].1 <= s@.len(),
            res@ == opt_entries(s@, lines@.subrange(0, i as int)),
        decreases lines@.len() - i,
    {
        assert(lines@.subrange(0, i + 1).drop_last() =~= lines@.subrange(0, i as int));
        let (lo, hi) = lines[i];
        match opt_line(s, lo, hi) {
            Some(e) => res.push(e),
            None => {},
        }
        i = i + 1;
    }
    assert(lines@.subrange(0, i as int) =~= lines@);
    res
}

/// Whether `s[lo..hi]` is the word `lit`.
pub open spec fn bytes_are(s: Seq<u8>, lo: int, hi: int, lit: Seq<u8>) -> bool {
    hi - lo == lit.len() && forall|i: int| 0 <= i < lit.len() ==> s[lo + i] == #[trigger] lit[i]
}

/// Compares `s[lo..hi]` with the word `lit`.
fn range_is(s: &[u8], lo: usize, hi: usize, lit: &[u8]) -> (res: bool)
    requires
        lo <= hi <= s@.len(),
    ensures
        res == bytes_are(s@, lo as int, hi as int, lit@),
{
    if hi - lo != lit.len() {
        return false;
    }
    let mut i: usize = 0;
    while i < lit.len()
        invariant
            i <= lit@.len(),
            hi - lo == lit@.len(),
            lo <= hi <= s@.len(),
            forall|j: int| 0 <= j < i ==> s@[lo + j] == #[trigger] lit@[j],
        decreases lit@.len() - i,
    {
        if s[lo + i] != lit[i] {
            return false;
        }
        i = i + 1;
    }
    true
}

/// `core`
pub open spec fn word_core() -> Seq<u8> { seq![99u8, 111, 114, 101] }
/// `game`
pub open spec fn word_game() -> Seq<u8> { seq![103u8, 97, 109, 101] }
/// `system_dir`
pub open spec fn word_system_dir() -> Seq<u8> { seq![115u8, 121, 115, 116, 101, 109, 95, 100, 105, 114] }
/// `save_dir`
pub open spec fn word_save_dir() -> Seq<u8> { seq![115u8, 97, 118, 101, 95, 100, 105, 114] }
/// `opt_file`
pub open spec fn word_opt_file() -> Seq<u8> { seq![111u8, 112, 116, 95, 102, 105, 108, 101] }
/// `results_dir`
pub open spec fn word_results_dir() -> Seq<u8> { seq![114u8, 101, 115, 117, 108, 116, 115, 95, 100, 105, 114] }
/// `frames`
pub open spec fn word_frames() -> Seq<u8> { seq![102u8, 114, 97, 109, 101, 115] }
/// `audio_nondet`
pub open spec fn word_audio_nondet() -> Seq<u8> { seq![97u8, 117, 100, 105, 111, 95, 110, 111, 110, 100, 101, 116] }
/// `video_nondet`
pub open spec fn word_video_nondet() -> Seq<u8> { seq![118u8, 105, 100, 101, 111, 95, 110, 111, 110, 100, 101, 116] }
/// `ram_nondet`
pub open spec fn word_ram_nondet() -> Seq<u8> { seq![114u8, 97, 109, 95, 110, 111, 110, 100, 101, 116] }

/// A `game` line's fields as byte ranges: `LABEL = PATH ; FLAGS`.
pub struct GameLine {
    pub label: (usize, usize),
    pub path: (usize, usize),
    pub flags: (usize, usize),
}

/// What a line of a suite configuration says.
pub enum ConfigLine {
    /// Nothing: empty, a `#` comment, no key, or a malformed core or game.
    Skip,
    /// `core LABEL=PATH`.
    Core((usize, usize), (usize, usize)),
    /// `game LABEL=PATH[; FLAGS]`.
    Game(GameLine),
    /// `system_dir DIR`.
    SystemDir((usize, usize)),
    /// `save_dir DIR`.
    SaveDir((usize, usize)),
    /// `opt_file FILE`.
    OptFile((usize, usize)),
    /// `results_dir DIR`.
    ResultsDir((usize, usize)),
    /// A key the configuration does not know.
    UnknownKey((usize, usize)),
}

/// `s[lo..hi].trim()` as a range of `usize`.
pub open spec fn trim_range(s: Seq<u8>, lo: int, hi: int) -> (usize, usize) {
    (trim_spec(s, lo, hi).0 as usize, trim_spec(s, lo, hi).1 as usize)
}

/// The fields of a `game` line's value: the label up to the first `=`, the
/// path up to the first `;` after it (flags are what follows), both trimmed.
pub open spec fn game_line_spec(s: Seq<u8>, lo: int, hi: int) -> Option<GameLine> {
    match find_in(s, 61, lo, hi) {
        None => None,
        Some(e) => match find_in(s, 59, e + 1, hi) {
            None => Some(GameLine { label: trim_range(s, lo, e), path: trim_range(s, e + 1, hi), flags: (hi as usize, hi as usize) }),
            Some(c) => Some(GameLine { label: trim_range(s, lo, e), path: trim_range(s, e + 1, c), flags: ((c + 1) as usize, hi as usize) }),
        },
    }
}

/// A line of a suite configuration: the trimmed line, unless empty or a
/// `#` comment, is a key up to its first space and a trimmed value.
pub open spec fn config_line_spec(s: Seq<u8>, lo: int, hi: int) -> ConfigLine {
    let (a, b) = trim_spec(s, lo, hi);
    if a == b || s[a] == 35 {
        ConfigLine::Skip
    } else {
        match find_in(s, 32, a, b) {
            None => ConfigLine::Skip,
            Some(sp) => {
                let r = trim_spec(s, sp + 1, b);
                if bytes_are(s, a, sp, word_core()) {
                    match find_in(s, 61, r.0, r.1) {
                        None => ConfigLine::Skip,
                        Some(e) => ConfigLine::Core(trim_range(s, r.0, e), trim_range(s, e + 1, r.1)),
                    }
                } else if bytes_are(s, a, sp, word_game()) {
                    match game_line_spec(s, r.0, r.1) {
                        None => ConfigLine::Skip,
                        Some(g) => ConfigLine::Game(g),
                    }
                } else if bytes_are(s, a, sp, word_system_dir()) {
                    ConfigLine::SystemDir((r.0 as usize, r.1 as usize))
                } else if bytes_are(s, a, sp, word_save_dir()) {
                    ConfigLine::SaveDir((r.0 as usize, r.1 as usize))
                } else if bytes_are(s, a, sp, word_opt_file()) {
                    ConfigLine::OptFile((r.0 as usize, r.1 as usize))
                } else if bytes_are(s, a, sp, word_results_dir()) {
                    ConfigLine::ResultsDir((r.0 as usize, r.1 as usize))
                } else {
                    ConfigLine::UnknownKey((a as usize, sp as usize))
                }
            },
        }
    }
}

/// Splits a `game` value into its fields.
fn game_line(s: &[u8], lo: usize, hi: usize) -> (res: Option<GameLine>)
    requires
        lo <= hi <= s@.len(),
    ensures
        res == game_line_spec(s@, lo as int, hi as int),
        res matches Some(g) ==> g.flags.0 <= g.flags.1 == hi,
{
    match find_range(s, 61, lo, hi) {
        None => None,
        Some(e) => {
            let label: (usize, usize) = trim(s, lo, e);
            match find_range(s, 59, e + 1, hi) {
                None => Some(GameLine { label, path: trim(s, e + 1, hi), flags: (hi, hi) }),
                Some(c) => Some(GameLine { label, path: trim(s, e + 1, c), flags: (c + 1, hi) }),
            }
        },
    }
}

/// Reads one line of a suite configuration.
pub fn config_line(s: &[u8], lo: usize, hi: usize) -> (res: ConfigLine)
    requires
        lo <= hi <= s@.len(),
    ensures
        res == config_line_spec(s@, lo as int, hi as int),
{
    let (a, b) = trim(s, lo, hi);
    if a == b || s[a] == 35 {
        return ConfigLine::Skip;
    }
    let sp: usize = match find_range(s, 32, a, b) {
        None => {
            return ConfigLine::Skip;
        },
        Some(sp) => sp,
    };
    let r: (usize, usize) = trim(s, sp + 1, b);
    let core: [u8; 4] = [99, 111, 114, 101];
    assert(core@ =~= word_core());
    let game: [u8; 4] = [103, 97, 109, 101];
    assert(game@ =~= word_game());
    let system_dir: [u8; 10] = [115, 121, 115, 116, 101, 109, 95, 100, 105, 114];
    assert(system_dir@ =~= word_system_dir());
    let save_dir: [u8; 8] = [115, 97, 118, 101, 95, 100, 105, 114];
    assert(save_dir@ =~= word_save_dir());
    let opt_file: [u8; 8] = [111, 112, 116, 95, 102, 105, 108, 101];
    assert(opt_file@ =~= word_opt_file());
    let results_dir: [u8; 11] = [114, 101, 115, 117, 108, 116, 115, 95, 100, 105, 114];
    assert(results_dir@ =~= word_results_dir());
    if range_is(s, a, sp, &core) {
        match find_range(s, 61, r.0, r.1) {
            None => ConfigLine::Skip,
            Some(e) => ConfigLine::Core(trim(s, r.0, e), trim(s, e + 1, r.1)),
        }
    } else if range_is(s, a, sp, &game) {
        match game_line(s, r.0, r.1) {
            None => ConfigLine::Skip,
            Some(g) => ConfigLine::Game(g),
        }
    } else if range_is(s, a, sp, &system_dir) {
        ConfigLine::SystemDir(r)
    } else if range_is(s, a, sp, &save_dir) {
        ConfigLine::SaveDir(r)
    } else if range_is(s, a, sp, &opt_file) {
        ConfigLine::OptFile(r)
    } else if range_is(s, a, sp, &results_dir) {
        ConfigLine::ResultsDir(r)
    } else {
        ConfigLine::UnknownKey((a, sp))
    }
}

/// Reads a suite configuration: what each of its lines says, in order.
pub fn parse_config_text(text: &str) -> (res: Vec<ConfigLine>)
    ensures
        res@.len() == lines_from(text.spec_bytes(), 0).len(),
        forall|k: int| 0 <= k < res@.len() ==> #[trigger] res@[k] == config_line_spec(
            text.spec_bytes(),
            lines_from(text.spec_bytes(), 0)[k].0 as int,
            lines_from(text.spec_bytes(), 0)[k].1 as int,
        ),
{
    let s: &[u8] = text.as_bytes();
    let lines: Vec<(usize, usize)> = line_ranges(s);
    let mut res: Vec<ConfigLine> = Vec::new();
    let mut i: usize = 0;
    while i < lines.len()
        invariant
            i <= lines@.len(),
            lines@ == lines_from(s@, 0),
            s@ == text.spec_bytes(),
            forall|k: int| 0 <= k < lines@.len() ==> #[trigger] lines@[k].0 <= lines@[k].1 <= s@.len(),
            res@.len() == i,
            forall|k: int| 0 <= k < i ==> #[trigger] res@[k] == config_line_spec(s@, lines@[k].0 as int, lines@[k].1 as int),
        decreases lines@.len() - i,
    {
        let (lo, hi) = lines[i];
        res.push(config_line(s, lo, hi));
        i = i + 1;
    }
    res
}

/// The comma-separated pieces of `s[start..hi]`.
pub open spec fn pieces_from(s: Seq<u8>, start: int, hi: int) -> Seq<(usize, usize)>
    decreases hi - start,
{
    if start < 0 || start > hi || hi > s.len() {
        Seq::empty()
    } else {
        proof {
            lemma_find_in(s, 44, start, hi);
        }
        match find_in(s, 44, start, hi) {
            None => seq![(start as usize, hi as usize)],
            Some(c) => seq![(start as usize, c as usize)] + pieces_from(s, c + 1, hi),
        }
    }
}

/// A flag of a `game` line.
pub enum GameFlag {
    /// `frames=N`: a frame cap for verify mode (none if `N` is not a number).
    Frames(Option<u64>),
    /// `audio_nondet`: the audio stream is not deterministic in the stock core.
    AudioNondet,
    /// `video_nondet`: the video stream is not deterministic in the stock core.
    VideoNondet,
    /// `ram_nondet`: main RAM is not deterministic in the stock core.
    RamNondet,
    /// A flag the configuration does not know.
    Unknown((usize, usize)),
}

/// The flag `s[a..b]` (trimmed, not empty): `frames=` with a trimmed
/// number, or one of the nondeterminism flags.
pub open spec fn game_flag_spec(s: Seq<u8>, a: int, b: int) -> GameFlag {
    let e = find_in(s, 61, a, b);
    if e is Some && bytes_are(s, a, e.unwrap(), word_frames()) {
        let n = trim_spec(s, e.unwrap() + 1, b);
        GameFlag::Frames(parse_u64_spec(s.subrange(n.0, n.1)))
    } else if bytes_are(s, a, b, word_audio_nondet()) {
        GameFlag::AudioNondet
    } else if bytes_are(s, a, b, word_video_nondet()) {
        GameFlag::VideoNondet
    } else if bytes_are(s, a, b, word_ram_nondet()) {
        GameFlag::RamNondet
    } else {
        GameFlag::Unknown((a as usize, b as usize))
    }
}

/// The flags of the pieces `ps`, in order: each piece trimmed, empty ones
/// skipped.
pub open spec fn flags_of(s: Seq<u8>, ps: Seq<(usize, usize)>) -> Seq<GameFlag>
    decreases ps.len(),
{
    if ps.len() == 0 {
        Seq::empty()
    } else {
        let t = trim_spec(s, ps[0].0 as int, ps[0].1 as int);
        let rest = flags_of(s, ps.drop_first());
        if t.0 == t.1 {
            rest
        } else {
            seq![game_flag_spec(s, t.0, t.1)] + rest
        }
    }
}

/// The bytes `s[lo..hi]`.
fn bytes_of(s: &[u8], lo: usize, hi: usize) -> (res: &[u8])
    requires
        lo <= hi <= s@.len(),
    ensures
        res@ == s@.subrange(lo as int, hi as int),
{
    let p: &[u8] = s.split_at(hi).0;
    p.split_at(lo).1
}

/// Reads one flag.
fn game_flag(s: &[u8], a: usize, b: usize) -> (res: GameFlag)
    requires
        a <= b <= s@.len(),
    ensures
        res == game_flag_spec(s@, a as int, b as int),
{
    let frames: [u8; 6] = [102, 114, 97, 109, 101, 115];
    assert(frames@ =~= word_frames());
    let audio: [u8; 12] = [97, 117, 100, 105, 111, 95, 110, 111, 110, 100, 101, 116];
    assert(audio@ =~= word_audio_nondet());
    let video: [u8; 12] = [118, 105, 100, 101, 111, 95, 110, 111, 110, 100, 101, 116];
    assert(video@ =~= word_video_nondet());
    let ram: [u8; 10] = [114, 97, 109, 95, 110, 111, 110, 100, 101, 116];
    assert(ram@ =~= word_ram_nondet());
    match find_range(s, 61, a, b) {
        Some(e) => {
            if range_is(s, a, e, &frames) {
                let n: (usize, usize) = trim(s, e + 1, b);
                return GameFlag::Frames(parse_u64(bytes_of(s, n.0, n.1)));
            }
        },
        None => {},
    }
    if range_is(s, a, b, &audio) {
        GameFlag::AudioNondet
    } else if range_is(s, a, b, &video) {
        GameFlag::VideoNondet
    } else if range_is(s, a, b, &ram) {
        GameFlag::RamNondet
    } else {
        GameFlag::Unknown((a, b))
    }
}

/// Reads the flags of a `game` line (its part after `;`).
pub fn game_flags(s: &[u8], lo: usize, hi: usize) -> (res: Vec<GameFlag>)
    requires
        lo <= hi <= s@.len(),
    ensures
        res@ == flags_of(s@, pieces_from(s@, lo as int, hi as int)),
{
    let mut res: Vec<GameFlag> = Vec::new();
    let mut start: usize = lo;
    let mut done: bool = false;
    while !done
        invariant
            lo <= start <= hi <= s@.len(),
            !done ==> res@ + flags_of(s@, pieces_from(s@, start as int, hi as int)) == flags_of(
                s@,
                pieces_from(s@, lo as int, hi as int),
            ),
            done ==> res@ == flags_of(s@, pieces_from(s@, lo as int, hi as int)),
        decreases hi - start, if done { 0int } else { 1int },
    {
        let ghost before = res@;
        let end: usize = match find_range(s, 44, start, hi) {
            None => hi,
            Some(c) => c,
        };
        let ghost ps = pieces_from(s@, start as int, hi as int);
        assert(ps[0] == (start, end));
        assert(ps.drop_first() == (if end == hi { Seq::<(usize, usize)>::empty() } else { pieces_from(s@, end + 1, hi as int) })) by {
            if end < hi {
                assert(ps.drop_first() =~= pieces_from(s@, end + 1, hi as int));
            } else {
                assert(ps.drop_first() =~= Seq::<(usize, usize)>::empty());
            }
        }
        let t: (usize, usize) = trim(s, start, end);
        if t.0 != t.1 {
            let f: GameFlag = game_flag(s, t.0, t.1);
            res.push(f);
        }
        if end == hi {
            assert(flags_of(s@, Seq::<(usize, usize)>::empty()) =~= Seq::<GameFlag>::empty());
            assert(res@ =~= before + flags_of(s@, ps));
            done = true;
        } else {
            assert(before + flags_of(s@, ps) =~= res@ + flags_of(s@, pieces_from(s@, end + 1, hi as int)));
            start = end + 1;
        }
    }
    res
}

/// The settings a game's flags leave: the nondeterminism flags set by any
/// flag, the frame cap from the last `frames=` flag.
pub struct GameSettings {
    pub audio_nondet: bool,
    pub video_nondet: bool,
    pub ram_nondet: bool,
    pub max_frames: Option<u64>,
}

/// The settings after the flags `fs`, applied in order.
pub open spec fn settings_of(fs: Seq<GameFlag>) -> GameSettings
    decreases fs.len(),
{
    if fs.len() == 0 {
        GameSettings { audio_nondet: false, video_nondet: false, ram_nondet: false, max_frames: None }
    } else {
        let g = settings_of(fs.drop_last());
        match fs.last() {
            GameFlag::Frames(n) => GameSettings { max_frames: n, ..g },
            GameFlag::AudioNondet => GameSettings { audio_nondet: true, ..g },
            GameFlag::VideoNondet => GameSettings { video_nondet: true, ..g },
            GameFlag::RamNondet => GameSettings { ram_nondet: true, ..g },
            GameFlag::Unknown(_) => g,
        }
    }
}

/// Applies a game's flags.
pub fn game_settings(fs: &[GameFlag]) -> (res: GameSettings)
    ensures
        res == settings_of(fs@),
{
    let mut g: GameSettings = GameSettings { audio_nondet: false, video_nondet: false, ram_nondet: false, max_frames: None };
    let mut i: usize = 0;
    while i < fs.len()
        invariant
            i <= fs@.len(),
            g == settings_of(fs@.subrange(0, i as int)),
        decreases fs@.len() - i,
    {
        assert(fs@.subrange(0, i + 1).drop_last() =~= fs@.subrange(0, i as int));
        match &fs[i] {
            GameFlag::Frames(n) => {
                g.max_frames = *n;
            },
            GameFlag::AudioNondet => {
                g.audio_nondet = true;
            },
            GameFlag::VideoNondet => {
                g.video_nondet = true;
            },
            GameFlag::RamNondet => {
                g.ram_nondet = true;
            },
            GameFlag::Unknown(_) => {},
        }
        i = i + 1;
    }
    assert(fs@.subrange(0, i as int) =~= fs@);
    g
}

} // verus!
