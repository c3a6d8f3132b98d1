//! Resolving a flat profile to function names: the lines of `nm -n` (text
//! symbols relative to the image base), the `rva,count` lines of a profile,
//! and the enclosing symbol of an address in the sorted symbol table.

use vstd::prelude::*;
use crate::bench::{find_from, parse_u64, parse_u64_spec};

verus! {

/// Value of a hexadecimal digit (either case), if it is one.
pub open spec fn hex_digit(c: u8) -> Option<int> {
    if 48 <= c <= 57 {
        Some(c - 48)
    } else if 97 <= c <= 102 {
        Some(c - 87)
    } else if 65 <= c <= 70 {
        Some(c - 55)
    } else {
        None
    }
}

/// Whether every byte of `s` is a hexadecimal digit.
pub open spec fn all_hex(s: Seq<u8>) -> bool {
    forall|i: int| 0 <= i < s.len() ==> #[trigger] hex_digit(s[i]) is Some
}

/// Value of the hexadecimal digits `s`.
pub open spec fn hex_value(s: Seq<u8>) -> int
    decreases s.len(),
{
    if s.len() == 0 {
        0
    } else {
        hex_value(s.drop_last()) * 16 + hex_digit(s.last()).unwrap()
    }
}

/// A hexadecimal number as `u64::from_str_radix(_, 16)` reads it: an
/// optional `+`, then one or more hex digits, with a value that fits 64 bits.
pub open spec fn parse_hex_spec(s: Seq<u8>) -> Option<u64> {
    let d = if s.len() > 0 && s[0] == 43 { s.drop_first() } else { s };
    if d.len() > 0 && all_hex(d) && hex_value(d) <= u64::MAX {
        Some(hex_value(d) as u64)
    } else {
        None
    }
}

/// Parses a hexadecimal number (`u64::from_str_radix(_, 16)`).
pub fn parse_hex(s: &[u8]) -> (res: Option<u64>)
    ensures
        res == parse_hex_spec(s@),
{
    let start: usize = if s.len() > 0 && s[0] == 43 { 1 } else { 0 };
    let ghost d: Seq<u8> = if s@.len() > 0 && s@[0] == 43 { s@.drop_first() } else { s@ };
    assert(d =~= s@.subrange(start as int, s@.len() as int));
    if start >= s.len() {
        return None;
    }
    let mut acc: u64 = 0;
    let mut over: bool = false;
    let mut i: usize = start;
    while i < s.len()
        invariant
            start <= i <= s@.len(),
            d == (if s@.len() > 0 && s@[0] == 43 { s@.drop_first() } else { s@ }),
            d =~= s@.subrange(start as int, s@.len() as int),
            all_hex(s@.subrange(start as int, i as int)),
            over == (hex_value(s@.subrange(start as int, i as int)) > u64::MAX),
            !over ==> acc == hex_value(s@.subrange(start as int, i as int)),
            hex_value(s@.subrange(start as int, i as int)) >= 0,
        decreases s@.len() - i,
    {
        let c: u8 = s[i];
        let dv: u64 = if c >= 48 && c <= 57 {
            (c - 48) as u64
        } else if c >= 97 && c <= 102 {
            (c - 87) as u64
        } else if c >= 65 && c <= 70 {
            (c - 55) as u64
        } else {
            assert(d[i - start] == c);
            assert(!all_hex(d));
            return None;
        };
        let ghost pre = s@.subrange(start as int, i as int);
        assert(s@.subrange(start as int, i + 1).drop_last() =~= pre);
        if !over {
            if acc > (u64::MAX - dv) / 16 {
                over = true;
            } else {
                acc = acc * 16 + dv;
            }
        }
        i = i + 1;
    }
    assert(s@.subrange(start as int, i as int) =~= d);
    if over {
        None
    } else {
        Some(acc)
    }
}

/// The bytes `data[start..end]`.
fn bytes(data: &[u8], start: usize, end: usize) -> (res: &[u8])
    requires
        start <= end <= data@.len(),
    ensures
        res@ == data@.subrange(start as int, end as int),
{
    let s: &[u8] = data.split_at(end).0;
    s.split_at(start).1
}

/// Index of the first `b` in `s`.
fn find(s: &[u8], b: u8) -> (res: Option<usize>)
    ensures
        res matches Some(i) ==> find_from(s@, b, 0) == Some(i as int) && i < s@.len(),
        res is None ==> find_from(s@, b, 0) is None,
{
    let mut i: usize = 0;
    while i < s.len()
        invariant
            i <= s@.len(),
            find_from(s@, b, 0) == find_from(s@, b, i as int),
        decreases s@.len() - i,
    {
        if s[i] == b {
            return Some(i);
        }
        i = i + 1;
    }
    None
}

/// A text symbol of an `nm` line `ADDR KIND NAME` (split at the first two
/// spaces; the name is the rest): kind `t` or `T`, a hexadecimal address at
/// or above the image base. Gives the address relative to the image base
/// and where the name starts.
pub open spec fn nm_symbol_spec(line: Seq<u8>, image_base: u64) -> Option<(u64, int)> {
    match find_from(line, 32, 0) {
        None => None,
        Some(i) => {
            let rest = line.subrange(i + 1, line.len() as int);
            match find_from(rest, 32, 0) {
                None => None,
                Some(j) => {
                    let kind = rest.subrange(0, j);
                    if kind.len() == 1 && (kind[0] == 116 || kind[0] == 84) {
                        match parse_hex_spec(line.subrange(0, i)) {
                            Some(va) => if va >= image_base {
                                Some(((va - image_base) as u64, i + 1 + j + 1))
                            } else {
                                None
                            },
                            None => None,
                        }
                    } else {
                        None
                    }
                },
            }
        },
    }
}

/// Reads one line of `nm -n -C --defined-only` output.
pub fn nm_symbol(line: &[u8], image_base: u64) -> (res: Option<(u64, usize)>)
    ensures
        res matches Some(r) ==> nm_symbol_spec(line@, image_base) == Some((r.0, r.1 as int)),
        res is None ==> nm_symbol_spec(line@, image_base) is None,
{
    let n: usize = line.len();
    match find(line, 32) {
        None => None,
        Some(i) => {
            let rest: &[u8] = bytes(line, i + 1, n);
            match find(rest, 32) {
                None => None,
                Some(j) => {
                    let is_text: bool = j == 1 && (rest[0] == 116 || rest[0] == 84);
                    if !is_text {
                        return None;
                    }
                    match parse_hex(bytes(line, 0, i)) {
                        Some(va) => {
                            if va >= image_base {
                                Some((va - image_base, i + 1 + j + 1))
                            } else {
                                None
                            }
                        },
                        None => None,
                    }
                },
            }
        },
    }
}

/// What a line of a flat profile holds.
pub enum ProfileLine {
    /// A `#` comment, echoed as it is.
    Comment,
    /// `RVA,COUNT`: hexadecimal address and decimal sample count.
    Entry(u64, u64),
    /// Anything else, ignored.
    Other,
}

/// A profile line: a comment if it starts with `#`; an entry if it splits
/// at its first `,` into a hexadecimal address and a decimal count.
pub open spec fn profile_line_spec(line: Seq<u8>) -> ProfileLine {
    if line.len() > 0 && line[0] == 35 {
        ProfileLine::Comment
    } else {
        match find_from(line, 44, 0) {
            None => ProfileLine::Other,
            Some(i) => match (
                parse_hex_spec(line.subrange(0, i)),
                parse_u64_spec(line.subrange(i + 1, line.len() as int)),
            ) {
                (Some(rva), Some(count)) => ProfileLine::Entry(rva, count),
                _ => ProfileLine::Other,
            },
        }
    }
}

/// Reads one line of a flat profile.
pub fn profile_line(line: &[u8]) -> (res: ProfileLine)
    ensures
        res == profile_line_spec(line@),
{
    if line.len() > 0 && line[0] == 35 {
        return ProfileLine::Comment;
    }
    let n: usize = line.len();
    match find(line, 44) {
        None => ProfileLine::Other,
        Some(i) => {
            let rva: Option<u64> = parse_hex(bytes(line, 0, i));
            let count: Option<u64> = parse_u64(bytes(line, i + 1, n));
            match (rva, count) {
                (Some(r), Some(c)) => ProfileLine::Entry(r, c),
                _ => ProfileLine::Other,
            }
        },
    }
}

/// Whether the keys are in non-decreasing order.
pub open spec fn sorted(keys: Seq<u64>) -> bool {
    forall|i: int, j: int| 0 <= i <= j < keys.len() ==> keys[i] <= keys[j]
}

/// `<[u64]>::binary_search` on sorted keys: the index of an occurrence of
/// `key` (any one where it occurs more than once), or else the position
/// where it would be inserted, after every smaller key and before every
/// larger one.
#[verifier::external_body]
fn binary_search_u64(keys: &[u64], key: u64) -> (res: Result<usize, usize>)
    requires
        sorted(keys@),
    ensures
        res matches Ok(i) ==> i < keys@.len() && keys@[i as int] == key,
        res matches Err(i) ==> i <= keys@.len() && (forall|j: int| 0 <= j < i ==> keys@[j] < key) && (forall|j: int|
            i <= j < keys@.len() ==> keys@[j] > key),
{
    keys.binary_search(&key)
}

/// The symbol enclosing address `rva` in the sorted symbol addresses
/// `keys`: one with the greatest address at or below `rva`, or none if
/// `rva` lies below every symbol.
pub fn resolve(keys: &[u64], rva: u64) -> (res: Option<usize>)
    requires
        sorted(keys@),
    ensures
        res is None <==> (keys@.len() == 0 || rva < keys@[0]),
        res matches Some(i) ==> i < keys@.len() && keys@[i as int] <= rva && forall|j: int|
            0 <= j < keys@.len() && keys@[j] <= rva ==> keys@[j] <= keys@[i as int],
{
    match binary_search_u64(keys, rva) {
        Ok(i) => Some(i),
        Err(i) => {
            if i == 0 {
                None
            } else {
                Some(i - 1)
            }
        },
    }
}

/// Whether some of the first `n` profile entries went to name `g`.
pub open spec fn name_hit(ids: Seq<usize>, g: int, n: int) -> bool {
    exists|e: int| 0 <= e < n && ids[e] == g
}

/// The samples of the first `n` profile entries that went to name `g`.
pub open spec fn name_samples(ids: Seq<usize>, counts: Seq<u64>, g: int, n: int) -> int
    decreases n,
{
    if n <= 0 {
        0
    } else {
        name_samples(ids, counts, g, n - 1) + (if ids[n - 1] == g { counts[n - 1] as int } else { 0 })
    }
}

/// The samples of the first `n` profile entries.
pub open spec fn all_samples(counts: Seq<u64>, n: int) -> int
    decreases n,
{
    if n <= 0 { 0 } else { all_samples(counts, n - 1) + counts[n - 1] }
}

/// A name's share of the samples never exceeds the total.
proof fn lemma_name_le_all(ids: Seq<usize>, counts: Seq<u64>, g: int, n: int)
    requires
        0 <= n <= ids.len(),
        n <= counts.len(),
    ensures
        0 <= name_samples(ids, counts, g, n) <= all_samples(counts, n),
    decreases n,
{
    if n > 0 {
        lemma_name_le_all(ids, counts, g, n - 1);
    }
}

/// The running total never decreases.
proof fn lemma_all_mono(counts: Seq<u64>, a: int, b: int)
    requires
        0 <= a <= b <= counts.len(),
    ensures
        all_samples(counts, a) <= all_samples(counts, b),
    decreases b - a,
{
    if a < b {
        lemma_all_mono(counts, a, b - 1);
    }
}

/// Tallies the profile per function name: entry `e` (with `counts[e]`
/// samples) went to the name `ids[e]` (its enclosing symbol's name, or the
/// name standing for "unknown"). Gives, per name, its sample count (`None`
/// for a name no entry went to) and the total number of samples.
pub fn tally(ids: &[usize], counts: &[u64], n_names: usize) -> (res: (Vec<Option<u64>>, u64))
    requires
        ids@.len() == counts@.len(),
        forall|e: int| 0 <= e < ids@.len() ==> #[trigger] ids@[e] < n_names,
        all_samples(counts@, counts@.len() as int) <= u64::MAX,
    ensures
        res.0@.len() == n_names,
        forall|g: int| 0 <= g < n_names ==> #[trigger] res.0@[g] == (if name_hit(ids@, g, ids@.len() as int) {
            Some(name_samples(ids@, counts@, g, ids@.len() as int) as u64)
        } else {
            None::<u64>
        }),
        res.1 == all_samples(counts@, counts@.len() as int),
{
    let mut per: Vec<Option<u64>> = Vec::new();
    let mut g: usize = 0;
    while g < n_names
        invariant
            g <= n_names,
            per@.len() == g,
            forall|h: int| 0 <= h < g ==> #[trigger] per@[h] == None::<u64>,
        decreases n_names - g,
    {
        per.push(None);
        g = g + 1;
    }
    let mut total: u64 = 0;
    let mut e: usize = 0;
    while e < ids.len()
        invariant
            e <= ids@.len(),
            ids@.len() == counts@.len(),
            per@.len() == n_names,
            forall|f: int| 0 <= f < ids@.len() ==> #[trigger] ids@[f] < n_names,
            all_samples(counts@, counts@.len() as int) <= u64::MAX,
            total == all_samples(counts@, e as int),
            forall|h: int| 0 <= h < n_names ==> #[trigger] per@[h] == (if name_hit(ids@, h, e as int) {
                Some(name_samples(ids@, counts@, h, e as int) as u64)
            } else {
                None::<u64>
            }),
        decreases ids@.len() - e,
    {
        let id: usize = ids[e];
        let c: u64 = counts[e];
        proof {
            lemma_all_mono(counts@, e + 1, counts@.len() as int);
            lemma_all_mono(counts@, e as int, counts@.len() as int);
            lemma_name_le_all(ids@, counts@, id as int, e + 1);
            lemma_name_le_all(ids@, counts@, id as int, e as int);
        }
        let prev: u64 = match per[id] {
            Some(v) => v,
            None => 0,
        };
        assert(prev == name_samples(ids@, counts@, id as int, e as int)) by {
            if !name_hit(ids@, id as int, e as int) {
                lemma_no_hit_zero(ids@, counts@, id as int, e as int);
            }
        }
        per.set(id, Some(prev + c));
        total = total + c;
        assert forall|h: int| 0 <= h < n_names implies #[trigger] per@[h] == (if name_hit(ids@, h, e + 1) {
            Some(name_samples(ids@, counts@, h, e + 1) as u64)
        } else {
            None::<u64>
        }) by {
            if h == id as int {
                assert(ids@[e as int] == h);
                assert(name_hit(ids@, h, e + 1));
            } else {
                assert(name_hit(ids@, h, e + 1) == name_hit(ids@, h, e as int)) by {
                    if name_hit(ids@, h, e + 1) {
                        let f = choose|f: int| 0 <= f < e + 1 && ids@[f] == h;
                        assert(f < e);
                    }
                }
            }
        }
        e = e + 1;
    }
    (per, total)
}

/// No entry went to `g`: its share is 0.
proof fn lemma_no_hit_zero(ids: Seq<usize>, counts: Seq<u64>, g: int, n: int)
    requires
        0 <= n <= ids.len(),
        !name_hit(ids, g, n),
    ensures
        name_samples(ids, counts, g, n) == 0,
    decreases n,
{
    if n > 0 {
        assert(!name_hit(ids, g, n - 1)) by {
            if name_hit(ids, g, n - 1) {
                let f = choose|f: int| 0 <= f < n - 1 && ids[f] == g;
                assert(0 <= f < n && ids[f] == g);
            }
        }
        lemma_no_hit_zero(ids, counts, g, n - 1);
        assert(ids[n - 1] != g);
    }
}

/// The sample count of a tallied name (0 for one with no entry).
pub open spec fn tallied(c: Option<u64>) -> int {
    match c {
        Some(v) => v as int,
        None => 0,
    }
}

/// The hottest names: up to `n` names that got entries, in order of
/// non-increasing sample count, every name left out having no more samples
/// than every name listed (ties go to the lower name index). Fewer than `n`
/// only when every name with entries is listed.
pub fn top_names(per: &[Option<u64>], n: usize) -> (res: Vec<usize>)
    ensures
        res@.len() <= n,
        forall|k: int| 0 <= k < res@.len() ==> #[trigger] res@[k] < per@.len() && per@[res@[k] as int] is Some,
        forall|k: int, l: int| 0 <= k < l < res@.len() ==> res@[k] != res@[l],
        forall|k: int, l: int| 0 <= k < l < res@.len() ==> tallied(per@[res@[k] as int]) >= tallied(per@[res@[l] as int]),
        forall|g: int, k: int| #![trigger per@[g], res@[k]]
            0 <= g < per@.len() && per@[g] is Some && !res@.contains(g as usize) && 0 <= k < res@.len()
                ==> tallied(per@[g]) <= tallied(per@[res@[k] as int]),
        res@.len() < n ==> forall|g: int| 0 <= g < per@.len() && #[trigger] per@[g] is Some ==> res@.contains(g as usize),
{
    let m: usize = per.len();
    let mut res: Vec<usize> = Vec::new();
    let mut taken: Vec<bool> = Vec::new();
    let mut i: usize = 0;
    while i < m
        invariant
            i <= m,
            taken@.len() == i,
            forall|h: int| 0 <= h < i ==> !#[trigger] taken@[h],
        decreases m - i,
    {
        taken.push(false);
        i = i + 1;
    }
    let mut done: bool = false;
    while res.len() < n && !done
        invariant
            m == per@.len(),
            taken@.len() == m,
            res@.len() <= n,
            forall|g: int| 0 <= g < m ==> (#[trigger] taken@[g] <==> res@.contains(g as usize)),
            forall|k: int| 0 <= k < res@.len() ==> #[trigger] res@[k] < m && per@[res@[k] as int] is Some,
            forall|k: int, l: int| 0 <= k < l < res@.len() ==> res@[k] != res@[l],
            forall|k: int, l: int| 0 <= k < l < res@.len() ==> tallied(per@[res@[k] as int]) >= tallied(per@[res@[l] as int]),
            forall|g: int, k: int| #![trigger per@[g], res@[k]]
                0 <= g < m && per@[g] is Some && !res@.contains(g as usize) && 0 <= k < res@.len()
                    ==> tallied(per@[g]) <= tallied(per@[res@[k] as int]),
            done ==> forall|g: int| 0 <= g < m && #[trigger] per@[g] is Some ==> res@.contains(g as usize),
        decreases n - res@.len(), if done { 0int } else { 1int },
    {
        // the untaken name with the most samples (the first such)
        let mut best: Option<usize> = None;
        let mut j: usize = 0;
        while j < m
            invariant
                j <= m,
                m == per@.len(),
                taken@.len() == m,
                best matches Some(b) ==> b < j && !taken@[b as int] && per@[b as int] is Some,
                best matches Some(b) ==> forall|g: int| 0 <= g < j && !taken@[g] && #[trigger] per@[g] is Some
                    ==> tallied(per@[g]) <= tallied(per@[b as int]),
                best is None ==> forall|g: int| 0 <= g < j ==> taken@[g] || !(#[trigger] per@[g] is Some),
            decreases m - j,
        {
            if !taken[j] {
                match per[j] {
                    Some(v) => {
                        let better: bool = match best {
                            None => true,
                            Some(b) => match per[b] {
                                Some(w) => v > w,
                                None => true,
                            },
                        };
                        if better {
                            best = Some(j);
                        }
                    },
                    None => {},
                }
            }
            j = j + 1;
        }
        match best {
            None => {
                assert forall|g: int| 0 <= g < m && #[trigger] per@[g] is Some implies res@.contains(g as usize) by {
                    assert(taken@[g]);
                }
                done = true;
            },
            Some(b) => {
                let ghost old_res = res@;
                res.push(b);
                taken.set(b, true);
                assert forall|g: int| 0 <= g < m implies (#[trigger] taken@[g] <==> res@.contains(g as usize)) by {
                    if g == b as int {
                        assert(res@[old_res.len() as int] == b);
                    } else {
                        if res@.contains(g as usize) {
                            let k = choose|k: int| 0 <= k < res@.len() && res@[k] == g as usize;
                            assert(k < old_res.len());
                            assert(old_res[k] == g as usize);
                        }
                        if old_res.contains(g as usize) {
                            let k = choose|k: int| 0 <= k < old_res.len() && old_res[k] == g as usize;
                            assert(res@[k] == g as usize);
                        }
                    }
                }
                assert forall|g: int, k: int| #![trigger per@[g], res@[k]]
                    0 <= g < m && per@[g] is Some && !res@.contains(g as usize) && 0 <= k < res@.len()
                        implies tallied(per@[g]) <= tallied(per@[res@[k] as int]) by {
                    assert(!old_res.contains(g as usize)) by {
                        if old_res.contains(g as usize) {
                            let k2 = choose|k2: int| 0 <= k2 < old_res.len() && old_res[k2] == g as usize;
                            assert(res@[k2] == g as usize);
                        }
                    }
                    assert(!taken@[g] || g == b as int);
                    if k < old_res.len() {
                        assert(res@[k] == old_res[k]);
                    } else {
                        assert(g != b as int) by {
                            assert(res@[old_res.len() as int] == b);
                        }
                    }
                }
                assert forall|k: int, l: int| 0 <= k < l < res@.len() implies res@[k] != res@[l] by {
                    if l == old_res.len() {
                        assert(!old_res.contains(b));
                        assert(old_res[k] == res@[k]);
                    }
                }
            },
        }
    }
    res
}

} // verus!
