//! The decision logic of the libretro benchmark harness: the FNV-1a rolling
//! hashes of the video, audio and memory streams, the joypad input schedule
//! and its `BTN@START-END` grammar, the harness's answer to each environment
//! command of the core, and where a profiler sample falls in the core DLL.

use vstd::prelude::*;
use vstd::string::StringSliceAdditionalSpecFns;

verus! {

/// FNV-1a 64-bit offset basis (the hash of the empty stream).
pub const FNV_OFFSET: u64 = 0xcbf2_9ce4_8422_2325;

/// FNV-1a 64-bit prime.
pub const FNV_PRIME: u64 = 0x100_0000_01b3;

/// One FNV-1a step: xor the byte in, multiply by the prime (mod 2^64).
pub open spec fn fnv1a_step(h: u64, b: u8) -> u64 {
    (h ^ (b as u64)).wrapping_mul(FNV_PRIME)
}

/// FNV-1a of the byte stream `s` continued from the hash `h`.
pub open spec fn fnv1a_spec(h: u64, s: Seq<u8>) -> u64
    decreases s.len(),
{
    if s.len() == 0 {
        h
    } else {
        fnv1a_step(fnv1a_spec(h, s.drop_last()), s.last())
    }
}

/// Continues the FNV-1a hash `hash` over `bytes`.
pub fn fnv1a(hash: u64, bytes: &[u8]) -> (res: u64)
    ensures
        res == fnv1a_spec(hash, bytes@),
{
    let mut h: u64 = hash;
    let mut i: usize = 0;
    while i < bytes.len()
        invariant
            i <= bytes@.len(),
            h == fnv1a_spec(hash, bytes@.subrange(0, i as int)),
        decreases bytes@.len() - i,
    {
        assert(bytes@.subrange(0, i + 1).drop_last() =~= bytes@.subrange(0, i as int));
        h = (h ^ bytes[i] as u64).wrapping_mul(FNV_PRIME);
        i = i + 1;
    }
    assert(bytes@.subrange(0, i as int) =~= bytes@);
    h
}

/// Hashing a stream in two pieces gives the hash of the whole stream:
/// `fnv1a(fnv1a(h, a), b) == fnv1a(h, a ++ b)`.
pub proof fn lemma_fnv1a_concat(h: u64, a: Seq<u8>, b: Seq<u8>)
    ensures
        fnv1a_spec(fnv1a_spec(h, a), b) == fnv1a_spec(h, a + b),
    decreases b.len(),
{
    if b.len() == 0 {
        assert(a + b =~= a);
    } else {
        lemma_fnv1a_concat(h, a, b.drop_last());
        assert((a + b).drop_last() =~= a + b.drop_last());
        assert((a + b).last() == b.last());
    }
}

/// Little-endian bytes of a 16-bit sample.
pub open spec fn le16(v: i16) -> Seq<u8> {
    seq![((v as u16) & 0xFF) as u8, ((v as u16) >> 8u16) as u8]
}

/// The audio hash after one stereo sample: the left then the right sample,
/// each as two little-endian bytes.
pub fn hash_audio_sample(hash: u64, left: i16, right: i16) -> (res: u64)
    ensures
        res == fnv1a_spec(hash, le16(left) + le16(right)),
{
    let l: u16 = left as u16;
    let r: u16 = right as u16;
    let bytes: [u8; 4] = [(l & 0xFF) as u8, (l >> 8) as u8, (r & 0xFF) as u8, (r >> 8) as u8];
    let res: u64 = fnv1a(hash, &bytes);
    assert(bytes@ =~= le16(left) + le16(right));
    res
}

/// Bytes per pixel of a libretro pixel format: 4 for XRGB8888, else 2.
pub open spec fn bytes_per_pixel(pixel_format: u32) -> int {
    if pixel_format == 1 { 4 } else { 2 }
}

/// The video hash after the first `rows` rows of a frame: each row is its
/// first `row_bytes` bytes, rows `pitch` bytes apart.
pub open spec fn frame_hash_spec(h: u64, data: Seq<u8>, row_bytes: int, pitch: int, rows: int) -> u64
    decreases rows,
{
    if rows <= 0 {
        h
    } else {
        let y = rows - 1;
        fnv1a_spec(frame_hash_spec(h, data, row_bytes, pitch, y), data.subrange(y * pitch, y * pitch + row_bytes))
    }
}

/// Whether a frame of `height` rows of `width` pixels, `pitch` bytes apart,
/// lies inside `len` bytes.
pub open spec fn frame_fits(len: int, width: u32, height: u32, pitch: usize, pixel_format: u32) -> bool {
    height == 0 || (height - 1) * pitch + width * bytes_per_pixel(pixel_format) <= len
}

/// The video hash after one frame (the video callback's hashing): every
/// row's visible bytes, top to bottom.
pub fn hash_frame(hash: u64, data: &[u8], width: u32, height: u32, pitch: usize, pixel_format: u32) -> (res: u64)
    requires
        frame_fits(data@.len() as int, width, height, pitch, pixel_format),
    ensures
        res == frame_hash_spec(
            hash,
            data@,
            width * bytes_per_pixel(pixel_format),
            pitch as int,
            height as int,
        ),
{
    let bpp: usize = if pixel_format == 1 { 4 } else { 2 };
    let ghost rb: int = width * bytes_per_pixel(pixel_format);
    if height == 0 {
        return hash;
    }
    assert(0 <= (height - 1) * pitch) by (nonlinear_arith)
        requires height >= 1, pitch >= 0;
    assert(0 <= width * bpp) by (nonlinear_arith)
        requires bpp >= 0;
    let n: usize = data.len();
    assert(rb <= n);
    let row_bytes: usize = (width as usize) * bpp;
    let mut h: u64 = hash;
    let mut y: usize = 0;
    while y < height as usize
        invariant
            y <= height,
            height >= 1,
            row_bytes == rb,
            frame_fits(data@.len() as int, width, height, pitch, pixel_format),
            h == frame_hash_spec(hash, data@, rb, pitch as int, y as int),
            (height - 1) * pitch + rb <= data@.len(),
            0 <= rb,
            n == data@.len(),
        decreases height - y,
    {
        assert(y * pitch <= (height - 1) * pitch) by (nonlinear_arith)
            requires y <= height - 1, pitch >= 0;
        let start: usize = y * pitch;
        let row: &[u8] = slice_range(data, start, start + row_bytes);
        h = fnv1a(h, row);
        y = y + 1;
    }
    h
}

/// The bytes `data[start..end]`.
fn slice_range(data: &[u8], start: usize, end: usize) -> (res: &[u8])
    requires
        start <= end <= data@.len(),
    ensures
        res@ == data@.subrange(start as int, end as int),
{
    let s: &[u8] = data.split_at(end).0;
    s.split_at(start).1
}

/// Whether the joypad button `id` is held at `frame` by an entry
/// `(first_frame, last_frame, button)` of the schedule (inclusive range).
pub open spec fn button_held(schedule: Seq<(u64, u64, u32)>, frame: u64, id: u32) -> bool {
    exists|i: int| 0 <= i < schedule.len() && #[trigger] entry_holds(schedule[i], frame, id)
}

/// Whether the schedule entry `(first_frame, last_frame, button)` holds
/// button `id` at `frame`.
pub open spec fn entry_holds(entry: (u64, u64, u32), frame: u64, id: u32) -> bool {
    entry.2 == id && entry.0 <= frame <= entry.1
}

/// The input-state callback: 1 if the scheduled joypad button `id` of port
/// 0 is held at `frame`, else 0.
pub fn input_state(schedule: &[(u64, u64, u32)], frame: u64, port: u32, device: u32, id: u32) -> (res: i16)
    ensures
        res == (if port == 0 && device == 1 && button_held(schedule@, frame, id) { 1i16 } else { 0i16 }),
{
    if port != 0 || device != 1 {
        return 0;
    }
    let mut i: usize = 0;
    while i < schedule.len()
        invariant
            i <= schedule@.len(),
            port == 0 && device == 1,
            forall|j: int| 0 <= j < i ==> !#[trigger] entry_holds(schedule@[j], frame, id),
        decreases schedule@.len() - i,
    {
        let entry: (u64, u64, u32) = schedule[i];
        let (start, end, button) = entry;
        if button == id && frame >= start && frame <= end {
            assert(entry_holds(schedule@[i as int], frame, id));
            return 1;
        }
        i = i + 1;
    }
    0
}

/// What the harness does for an environment command of the core.
pub enum EnvAction {
    /// Store this boolean at the command's data pointer and accept.
    SetBool(bool),
    /// Store this unsigned value at the data pointer and accept.
    SetU32(u32),
    /// Store this signed value at the data pointer and accept.
    SetI32(i32),
    /// Hand out the system directory and accept.
    GiveSystemDirectory,
    /// Hand out the save directory and accept.
    GiveSaveDirectory,
    /// Read the pixel format the core announces and accept.
    TakePixelFormat,
    /// Look up the requested core option; accept only if it is set.
    LookupVariable,
    /// Log the core's message and accept.
    LogMessage,
    /// Log the core's extended message (its first field) and accept.
    LogMessageExt,
    /// Record the core's shutdown request and accept.
    Shutdown,
    /// Accept without doing anything.
    Accept,
    /// Decline the command.
    Decline,
}

/// The harness's answer to environment command `cmd` (with the
/// experimental flag, bit 16, ignored): it reports frame duping, JIT and
/// full audio/video output as available, option API version 2, English,
/// no option updates; hands out the directories and options; accepts the
/// declarations it has no use for; declines everything else.
pub open spec fn env_action_spec(cmd: u32) -> EnvAction {
    let plain = cmd & !0x10000u32;
    if plain == 3 {
        EnvAction::SetBool(true)
    } else if plain == 9 {
        EnvAction::GiveSystemDirectory
    } else if plain == 31 {
        EnvAction::GiveSaveDirectory
    } else if plain == 10 {
        EnvAction::TakePixelFormat
    } else if plain == 15 {
        EnvAction::LookupVariable
    } else if plain == 17 {
        EnvAction::SetBool(false)
    } else if plain == 16 || plain == 53 || plain == 54 || plain == 55 || plain == 67 || plain == 68
        || plain == 69 || plain == 11 || plain == 35 || plain == 42 || plain == 65 || plain == 37
        || plain == 32 {
        EnvAction::Accept
    } else if plain == 52 {
        EnvAction::SetU32(2)
    } else if plain == 39 {
        EnvAction::SetU32(0)
    } else if plain == 47 {
        EnvAction::SetI32(3)
    } else if plain == 74 {
        EnvAction::SetBool(true)
    } else if plain == 6 {
        EnvAction::LogMessage
    } else if plain == 60 {
        EnvAction::LogMessageExt
    } else if plain == 7 {
        EnvAction::Shutdown
    } else {
        EnvAction::Decline
    }
}

/// The environment callback's decision for command `cmd`.
pub fn env_action(cmd: u32) -> (res: EnvAction)
    ensures
        res == env_action_spec(cmd),
{
    let plain: u32 = cmd & !0x10000u32;
    match plain {
        3 => EnvAction::SetBool(true),
        9 => EnvAction::GiveSystemDirectory,
        31 => EnvAction::GiveSaveDirectory,
        10 => EnvAction::TakePixelFormat,
        15 => EnvAction::LookupVariable,
        17 => EnvAction::SetBool(false),
        16 | 53 | 54 | 55 | 67 | 68 | 69 | 11 | 35 | 42 | 65 | 37 | 32 => EnvAction::Accept,
        52 => EnvAction::SetU32(2),
        39 => EnvAction::SetU32(0),
        47 => EnvAction::SetI32(3),
        74 => EnvAction::SetBool(true),
        6 => EnvAction::LogMessage,
        60 => EnvAction::LogMessageExt,
        7 => EnvAction::Shutdown,
        _ => EnvAction::Decline,
    }
}

/// Index of the first `b` in `s` at or after `k`.
pub open spec fn find_from(s: Seq<u8>, b: u8, k: int) -> Option<int>
    decreases s.len() - k,
{
    if k < 0 || k >= s.len() {
        None
    } else if s[k] == b {
        Some(k)
    } else {
        find_from(s, b, k + 1)
    }
}

/// Index of the first `b` in `s`.
fn find_byte(s: &[u8], b: u8) -> (res: Option<usize>)
    ensures
        res matches Some(i) ==> find_from(s@, b, 0) == Some(i as int) && i < s@.len() && s@[i as int] == b,
        res is None ==> find_from(s@, b, 0) is None,
{
    let mut i: usize = 0;
    while i < s.len()
        invariant
            i <= s@.len(),
            find_from(s@, b, 0) == find_from(s@, b, i as int),
        decreases s@.len() - i,
    {
        if s[i] == b {
            return Some(i);
        }
        i = i + 1;
    }
    None
}

/// Value of the decimal digits `s`.
pub open spec fn digits_value(s: Seq<u8>) -> int
    decreases s.len(),
{
    if s.len() == 0 {
        0
    } else {
        digits_value(s.drop_last()) * 10 + (s.last() - 48)
    }
}

/// Whether every byte of `s` is an ASCII digit.
pub open spec fn all_digits(s: Seq<u8>) -> bool {
    forall|i: int| 0 <= i < s.len() ==> 48 <= #[trigger] s[i] <= 57
}

/// An unsigned decimal as `str::parse::<u64>` reads it: an optional `+`,
/// then one or more digits, with a value that fits 64 bits.
pub open spec fn parse_u64_spec(s: Seq<u8>) -> Option<u64> {
    let d = if s.len() > 0 && s[0] == 43 { s.drop_first() } else { s };
    if d.len() > 0 && all_digits(d) && digits_value(d) <= u64::MAX {
        Some(digits_value(d) as u64)
    } else {
        None
    }
}

/// Parses an unsigned decimal (`str::parse::<u64>`).
pub fn parse_u64(s: &[u8]) -> (res: Option<u64>)
    ensures
        res == parse_u64_spec(s@),
{
    let start: usize = if s.len() > 0 && s[0] == 43 { 1 } else { 0 };
    let ghost d: Seq<u8> = if s@.len() > 0 && s@[0] == 43 { s@.drop_first() } else { s@ };
    assert(d =~= s@.subrange(start as int, s@.len() as int));
    if start >= s.len() {
        return None;
    }
    let mut acc: u64 = 0;
    let mut over: bool = false;
    let mut i: usize = start;
    while i < s.len()
        invariant
            start <= i <= s@.len(),
            d == (if s@.len() > 0 && s@[0] == 43 { s@.drop_first() } else { s@ }),
            d =~= s@.subrange(start as int, s@.len() as int),
            all_digits(s@.subrange(start as int, i as int)),
            over == (digits_value(s@.subrange(start as int, i as int)) > u64::MAX),
            !over ==> acc == digits_value(s@.subrange(start as int, i as int)),
            digits_value(s@.subrange(start as int, i as int)) >= 0,
        decreases s@.len() - i,
    {
        let c: u8 = s[i];
        if c < 48 || c > 57 {
            assert(d[i - start] == c);
            assert(!all_digits(d));
            return None;
        }
        let ghost pre = s@.subrange(start as int, i as int);
        assert(s@.subrange(start as int, i + 1).drop_last() =~= pre);
        let dv: u64 = (c - 48) as u64;
        if !over {
            if acc > (u64::MAX - dv) / 10 {
                over = true;
            } else {
                acc = acc * 10 + dv;
            }
        }
        i = i + 1;
    }
    assert(s@.subrange(start as int, i as int) =~= d);
    if over {
        None
    } else {
        Some(acc)
    }
}

/// ASCII upper case of a byte.
pub open spec fn ascii_upper(c: u8) -> u8 {
    if 97 <= c <= 122 { (c - 32) as u8 } else { c }
}

/// Whether `s` equals the upper-case name `name` ignoring ASCII case.
pub open spec fn eq_ignore_case(s: Seq<u8>, name: Seq<u8>) -> bool {
    s.len() == name.len() && forall|i: int| 0 <= i < s.len() ==> ascii_upper(#[trigger] s[i]) == name[i]
}

/// Compares `s` with the upper-case name `name`, ignoring ASCII case.
fn name_matches(s: &[u8], name: &[u8]) -> (res: bool)
    ensures
        res == eq_ignore_case(s@, name@),
{
    if s.len() != name.len() {
        return false;
    }
    let mut i: usize = 0;
    while i < s.len()
        invariant
            i <= s@.len(),
            s@.len() == name@.len(),
            forall|j: int| 0 <= j < i ==> ascii_upper(#[trigger] s@[j]) == name@[j],
        decreases s@.len() - i,
    {
        let c: u8 = s[i];
        let u: u8 = if c >= 97 && c <= 122 { c - 32 } else { c };
        if u != name[i] {
            return false;
        }
        i = i + 1;
    }
    true
}

/// The libretro joypad button id named `btn` (B, Y, SELECT, START, UP,
/// DOWN, LEFT, RIGHT, A, X, L, R: ids 0 to 11), ignoring ASCII case.
pub open spec fn button_id_spec(btn: Seq<u8>) -> Option<u32> {
    if eq_ignore_case(btn, seq![66u8]) {
        Some(0)
    } else if eq_ignore_case(btn, seq![89u8]) {
        Some(1)
    } else if eq_ignore_case(btn, seq![83u8, 69, 76, 69, 67, 84]) {
        Some(2)
    } else if eq_ignore_case(btn, seq![83u8, 84, 65, 82, 84]) {
        Some(3)
    } else if eq_ignore_case(btn, seq![85u8, 80]) {
        Some(4)
    } else if eq_ignore_case(btn, seq![68u8, 79, 87, 78]) {
        Some(5)
    } else if eq_ignore_case(btn, seq![76u8, 69, 70, 84]) {
        Some(6)
    } else if eq_ignore_case(btn, seq![82u8, 73, 71, 72, 84]) {
        Some(7)
    } else if eq_ignore_case(btn, seq![65u8]) {
        Some(8)
    } else if eq_ignore_case(btn, seq![88u8]) {
        Some(9)
    } else if eq_ignore_case(btn, seq![76u8]) {
        Some(10)
    } else if eq_ignore_case(btn, seq![82u8]) {
        Some(11)
    } else {
        None
    }
}

/// Looks a joypad button up by name.
pub fn button_id(btn: &[u8]) -> (res: Option<u32>)
    ensures
        res == button_id_spec(btn@),
{
    let b: [u8; 1] = [66];
    if name_matches(btn, &b) {
        assert(b@ =~= seq![66u8]);
        return Some(0);
    }
    assert(b@ =~= seq![66u8]);
    let y: [u8; 1] = [89];
    if name_matches(btn, &y) {
        assert(y@ =~= seq![89u8]);
        return Some(1);
    }
    assert(y@ =~= seq![89u8]);
    let select: [u8; 6] = [83, 69, 76, 69, 67, 84];
    assert(select@ =~= seq![83u8, 69, 76, 69, 67, 84]);
    if name_matches(btn, &select) {
        return Some(2);
    }
    let start: [u8; 5] = [83, 84, 65, 82, 84];
    assert(start@ =~= seq![83u8, 84, 65, 82, 84]);
    if name_matches(btn, &start) {
        return Some(3);
    }
    let up: [u8; 2] = [85, 80];
    assert(up@ =~= seq![85u8, 80]);
    if name_matches(btn, &up) {
        return Some(4);
    }
    let down: [u8; 4] = [68, 79, 87, 78];
    assert(down@ =~= seq![68u8, 79, 87, 78]);
    if name_matches(btn, &down) {
        return Some(5);
    }
    let left: [u8; 4] = [76, 69, 70, 84];
    assert(left@ =~= seq![76u8, 69, 70, 84]);
    if name_matches(btn, &left) {
        return Some(6);
    }
    let right: [u8; 5] = [82, 73, 71, 72, 84];
    assert(right@ =~= seq![82u8, 73, 71, 72, 84]);
    if name_matches(btn, &right) {
        return Some(7);
    }
    let a: [u8; 1] = [65];
    assert(a@ =~= seq![65u8]);
    if name_matches(btn, &a) {
        return Some(8);
    }
    let x: [u8; 1] = [88];
    assert(x@ =~= seq![88u8]);
    if name_matches(btn, &x) {
        return Some(9);
    }
    let l: [u8; 1] = [76];
    assert(l@ =~= seq![76u8]);
    if name_matches(btn, &l) {
        return Some(10);
    }
    let r: [u8; 1] = [82];
    assert(r@ =~= seq![82u8]);
    if name_matches(btn, &r) {
        return Some(11);
    }
    None
}

/// An input schedule entry `BTN@START-END`: the button name up to the
/// first `@`, then the first and last frame around the first `-` after it.
pub open spec fn input_spec_spec(s: Seq<u8>) -> Option<(u64, u64, u32)> {
    match find_from(s, 64, 0) {
        None => None,
        Some(i) => {
            let btn = s.subrange(0, i);
            let range = s.subrange(i + 1, s.len() as int);
            match find_from(range, 45, 0) {
                None => None,
                Some(j) => {
                    let first = parse_u64_spec(range.subrange(0, j));
                    let last = parse_u64_spec(range.subrange(j + 1, range.len() as int));
                    match (button_id_spec(btn), first, last) {
                        (Some(id), Some(a), Some(b)) => Some((a, b, id)),
                        _ => None,
                    }
                }
            }
        }
    }
}

/// Parses an input schedule entry `BTN@START-END` (`--input`): hold
/// button `BTN` from frame `START` to frame `END`, both inclusive.
pub fn parse_input_spec(spec: &str) -> (res: Option<(u64, u64, u32)>)
    ensures
        res == input_spec_spec(spec.spec_bytes()),
{
    let s: &[u8] = spec.as_bytes();
    let n: usize = s.len();
    let at: Option<usize> = find_byte(s, 64);
    match at {
        None => None,
        Some(i) => {
            assert(i < s@.len());
            let btn: &[u8] = slice_range(s, 0, i);
            let range: &[u8] = slice_range(s, i + 1, s.len());
            match find_byte(range, 45) {
                None => None,
                Some(j) => {
                    let id: Option<u32> = button_id(btn);
                    let first: Option<u64> = parse_u64(slice_range(range, 0, j));
                    let last: Option<u64> = parse_u64(slice_range(range, j + 1, range.len()));
                    match (id, first, last) {
                        (Some(id), Some(a), Some(b)) => Some((a, b, id)),
                        _ => None,
                    }
                }
            }
        }
    }
}

/// One profiler sample: the thread and the instruction address it was at.
pub struct Sample {
    pub tid: u32,
    pub rip: u64,
}

/// The address of a sample relative to the core DLL mapped at `dll_base`
/// with image size `dll_size`, if the sample lies inside it.
pub fn dll_rva(sample: &Sample, dll_base: u64, dll_size: u64) -> (res: Option<u64>)
    requires
        dll_base + dll_size <= u64::MAX,
    ensures
        res == (if dll_base <= sample.rip < dll_base + dll_size {
            Some((sample.rip - dll_base) as u64)
        } else {
            None
        }),
{
    if sample.rip >= dll_base && sample.rip < dll_base + dll_size {
        Some(sample.rip - dll_base)
    } else {
        None
    }
}

} // verus!
