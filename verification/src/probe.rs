//! Metadata prober: extracts media duration and frame resolution from the
//! decoder's diagnostic text.
//!
//! The text is scanned for two line fragments. A duration stamp
//! `Duration: HH:MM:SS.f...` (two digits each for hours, minutes and
//! seconds, then a dot and at least one fraction digit) gives the clip
//! duration; the earliest stamp in the text wins, and a missing stamp is
//! not an error. A video descriptor `Video:` followed, on the same line,
//! by ` WxH` with W and H runs of at least three digits gives the frame
//! size; the earliest `Video:` with such a pair on its line wins, and
//! within that line the last such pair wins. A digit run whose value
//! exceeds `u32::MAX` reads as zero, and a zero width or height — like a
//! missing descriptor — fails the probe.

use vstd::prelude::*;

verus! {

/// `c` is an ASCII decimal digit.
pub open spec fn is_digit(c: u8) -> bool {
    48 <= c && c <= 57
}

/// Numeric value of an ASCII digit.
pub open spec fn dval(c: u8) -> int {
    c - 48
}

/// The end of the digit run starting at `from`: the first position at or
/// after `from` holding a non-digit, or the text length.
pub open spec fn run_end(s: Seq<u8>, from: int) -> int
    decreases s.len() - from,
{
    if from < 0 || from >= s.len() {
        from
    } else if is_digit(s[from]) {
        run_end(s, from + 1)
    } else {
        from
    }
}

/// The run found by `run_end` lies inside the text, holds only digits,
/// and ends at a non-digit or at the end of the text.
pub proof fn lemma_run_end(s: Seq<u8>, from: int)
    requires
        0 <= from <= s.len(),
    ensures
        from <= run_end(s, from) <= s.len(),
        forall|k: int| from <= k < run_end(s, from) ==> is_digit(s[k]),
        run_end(s, from) == s.len() || !is_digit(s[run_end(s, from)]),
    decreases s.len() - from,
{
    if from < s.len() && is_digit(s[from]) {
        lemma_run_end(s, from + 1);
    }
}

/// Value of the digit run `s[a..b]` read as a decimal number.
pub open spec fn run_val(s: Seq<u8>, a: int, b: int) -> int
    decreases b - a,
{
    if b <= a {
        0
    } else {
        run_val(s, a, b - 1) * 10 + dval(s[b - 1])
    }
}

/// A digit run's value is never negative.
proof fn lemma_run_val_nonneg(s: Seq<u8>, a: int, b: int)
    requires
        forall|k: int| a <= k < b ==> is_digit(s[k]),
    ensures
        run_val(s, a, b) >= 0,
    decreases b - a,
{
    if b > a {
        lemma_run_val_nonneg(s, a, b - 1);
    }
}

/// Extending a digit run to the right never shrinks its value.
proof fn lemma_run_val_mono(s: Seq<u8>, a: int, m: int, b: int)
    requires
        a <= m <= b,
        forall|k: int| a <= k < b ==> is_digit(s[k]),
    ensures
        run_val(s, a, m) <= run_val(s, a, b),
    decreases b - m,
{
    if m < b {
        lemma_run_val_mono(s, a, m, b - 1);
        lemma_run_val_nonneg(s, a, b - 1);
    }
}

/// The value a digit run contributes after the lossy numeric conversion:
/// a run whose value exceeds `u32::MAX` reads as zero.
pub open spec fn val_or_zero(s: Seq<u8>, a: int, b: int) -> int {
    if run_val(s, a, b) <= u32::MAX {
        run_val(s, a, b)
    } else {
        0
    }
}

/// Value of the two-digit field at `i`.
pub open spec fn two_digit_val(s: Seq<u8>, i: int) -> int {
    dval(s[i]) * 10 + dval(s[i + 1])
}

/// A duration stamp `Duration: HH:MM:SS.f` begins at position `i`.
pub open spec fn dur_match_at(s: Seq<u8>, i: int) -> bool {
    &&& 0 <= i
    &&& i + 20 <= s.len()
    &&& s[i] == 68u8
    &&& s[i + 1] == 117u8
    &&& s[i + 2] == 114u8
    &&& s[i + 3] == 97u8
    &&& s[i + 4] == 116u8
    &&& s[i + 5] == 105u8
    &&& s[i + 6] == 111u8
    &&& s[i + 7] == 110u8
    &&& s[i + 8] == 58u8
    &&& s[i + 9] == 32u8
    &&& is_digit(s[i + 10]) && is_digit(s[i + 11])
    &&& s[i + 12] == 58u8
    &&& is_digit(s[i + 13]) && is_digit(s[i + 14])
    &&& s[i + 15] == 58u8
    &&& is_digit(s[i + 16]) && is_digit(s[i + 17])
    &&& s[i + 18] == 46u8
    &&& is_digit(s[i + 19])
}

/// The earliest duration stamp at or after position `i`.
pub open spec fn first_dur_from(s: Seq<u8>, i: int) -> Option<int>
    decreases s.len() - i,
{
    if i < 0 || i >= s.len() {
        None
    } else if dur_match_at(s, i) {
        Some(i)
    } else {
        first_dur_from(s, i + 1)
    }
}

/// A resolution pair ` WxH` is anchored at the space at position `q`:
/// a run of at least three digits, an `x`, and another run of at least
/// three digits.
pub open spec fn res_match_at(s: Seq<u8>, q: int) -> bool {
    let wstart = q + 1;
    let wend = run_end(s, wstart);
    let hstart = wend + 1;
    let hend = run_end(s, hstart);
    &&& 0 <= q < s.len()
    &&& s[q] == 32u8
    &&& wend - wstart >= 3
    &&& wend < s.len()
    &&& s[wend] == 120u8
    &&& hend - hstart >= 3
}

/// The last resolution pair anchored at or after `from` on the current
/// line: the scan stops at the end of the text or at a line break.
pub open spec fn last_res_from(s: Seq<u8>, from: int) -> Option<int>
    decreases s.len() - from,
{
    if from < 0 || from >= s.len() || s[from] == 10u8 {
        None
    } else {
        let rest = last_res_from(s, from + 1);
        if rest is Some {
            rest
        } else if res_match_at(s, from) {
            Some(from)
        } else {
            None
        }
    }
}

/// A video descriptor begins at `p`: the text `Video:` with a resolution
/// pair somewhere after it on the same line.
pub open spec fn video_match_at(s: Seq<u8>, p: int) -> bool {
    &&& 0 <= p
    &&& p + 6 <= s.len()
    &&& s[p] == 86u8
    &&& s[p + 1] == 105u8
    &&& s[p + 2] == 100u8
    &&& s[p + 3] == 101u8
    &&& s[p + 4] == 111u8
    &&& s[p + 5] == 58u8
    &&& last_res_from(s, p + 6) is Some
}

/// The earliest video descriptor at or after position `i`.
pub open spec fn first_video_from(s: Seq<u8>, i: int) -> Option<int>
    decreases s.len() - i,
{
    if i < 0 || i >= s.len() {
        None
    } else if video_match_at(s, i) {
        Some(i)
    } else {
        first_video_from(s, i + 1)
    }
}

/// The width and height encoded in the text, after the lossy numeric
/// conversion, or `None` when no video descriptor is present.
pub open spec fn spec_video_dims(s: Seq<u8>) -> Option<(int, int)> {
    match first_video_from(s, 0) {
        None => None,
        Some(p) => match last_res_from(s, p + 6) {
            None => None,
            Some(q) => {
                let wstart = q + 1;
                let wend = run_end(s, wstart);
                let hstart = wend + 1;
                let hend = run_end(s, hstart);
                Some((val_or_zero(s, wstart, wend), val_or_zero(s, hstart, hend)))
            },
        },
    }
}

/// A clip duration as written in the diagnostic text: hours, minutes and
/// seconds (each two digits, so at most 99), plus the fraction digits
/// after the dot, most significant first, each stored as its value.
#[derive(PartialEq, Debug)]
pub struct HmsTime {
    pub hours: u8,
    pub minutes: u8,
    pub seconds: u8,
    pub frac: Vec<u8>,
}

/// `a` and `b` denote the same duration stamp, digit for digit.
pub open spec fn hms_eq(a: HmsTime, b: HmsTime) -> bool {
    &&& a.hours == b.hours
    &&& a.minutes == b.minutes
    &&& a.seconds == b.seconds
    &&& a.frac@ == b.frac@
}

/// `a` and `b` are both absent, or the same stamp.
pub open spec fn opt_hms_eq(a: Option<HmsTime>, b: Option<HmsTime>) -> bool {
    match (a, b) {
        (None, None) => true,
        (Some(x), Some(y)) => hms_eq(x, y),
        _ => false,
    }
}

impl Clone for HmsTime {
    /// An exact copy: every field, fraction digits included.
    fn clone(&self) -> (r: Self)
        ensures
            hms_eq(*self, r),
    {
        let n = self.frac.len();
        let mut frac: Vec<u8> = Vec::new();
        let mut k: usize = 0;
        while k < n
            invariant
                k <= n,
                n == self.frac@.len(),
                frac@.len() == k,
                forall|t: int| 0 <= t < k ==> frac@[t] == self.frac@[t],
            decreases n - k,
        {
            frac.push(self.frac[k]);
            k += 1;
        }
        proof {
            assert(frac@ =~= self.frac@);
        }
        HmsTime { hours: self.hours, minutes: self.minutes, seconds: self.seconds, frac }
    }
}

impl HmsTime {
    /// The whole seconds the stamp denotes: `h*3600 + m*60 + s`,
    /// disregarding the fraction digits.
    pub fn whole_seconds(&self) -> (r: u32)
        ensures
            r == self.hours * 3600 + self.minutes * 60 + self.seconds,
    {
        (self.hours as u32) * 3600 + (self.minutes as u32) * 60 + (self.seconds as u32)
    }
}

/// `t` is exactly the duration stamp written at position `i` of the text.
pub open spec fn hms_matches(t: HmsTime, s: Seq<u8>, i: int) -> bool {
    &&& t.hours == two_digit_val(s, i + 10)
    &&& t.minutes == two_digit_val(s, i + 13)
    &&& t.seconds == two_digit_val(s, i + 16)
    &&& t.frac@.len() == run_end(s, i + 19) - (i + 19)
    &&& forall|k: int| 0 <= k < t.frac@.len() ==> t.frac@[k] == dval(s[i + 19 + k])
}

/// Why a probe failed.
#[derive(Clone, Copy, PartialEq, Eq, Structural, Debug)]
pub enum ProbeError {
    /// No video descriptor with a positive width and height was found.
    NoVideoStream,
}

impl ProbeError {
    /// Human-readable account of the failure.
    pub fn message(&self) -> (r: String)
        ensures
            r@ == "Could not parse video metadata"@,
    {
        "Could not parse video metadata".to_owned()
    }
}

/// Everything a successful probe yields: the duration stamp if one was
/// present, and the frame dimensions.
#[derive(PartialEq, Debug)]
pub struct ProbeInfo {
    pub duration: Option<HmsTime>,
    pub width: u32,
    pub height: u32,
}

/// `c` is an ASCII decimal digit.
fn is_digit_byte(c: u8) -> (r: bool)
    ensures
        r == is_digit(c),
{
    48 <= c && c <= 57
}

/// The end of the digit run starting at `from`.
fn digit_run_end(s: &Vec<u8>, from: usize) -> (r: usize)
    requires
        from <= s@.len(),
    ensures
        r == run_end(s@, from as int),
        from <= r <= s@.len(),
{
    let n = s.len();
    let mut e = from;
    while e < n && is_digit_byte(s[e])
        invariant
            from <= e <= n,
            n == s@.len(),
            run_end(s@, from as int) == run_end(s@, e as int),
        decreases n - e,
    {
        e += 1;
    }
    e
}

/// Reads the digit run `s[a..b]` as a decimal number; a value beyond
/// `u32::MAX` reads as zero.
fn parse_run_u32(s: &Vec<u8>, a: usize, b: usize) -> (r: u32)
    requires
        a <= b <= s@.len(),
        forall|k: int| a <= k < b ==> is_digit(s@[k]),
    ensures
        r == val_or_zero(s@, a as int, b as int),
{
    let mut val: u32 = 0;
    let mut m = a;
    while m < b
        invariant
            a <= m <= b,
            b <= s@.len(),
            forall|k: int| a <= k < b ==> is_digit(s@[k]),
            val == run_val(s@, a as int, m as int),
        decreases b - m,
    {
        let d: u8 = s[m] - 48;
        let stepped = match val.checked_mul(10) {
            Some(v) => v.checked_add(d as u32),
            None => None,
        };
        match stepped {
            Some(v) => {
                val = v;
            },
            None => {
                proof {
                    lemma_run_val_nonneg(s@, a as int, m as int);
                    lemma_run_val_mono(s@, a as int, m as int + 1, b as int);
                }
                return 0;
            },
        }
        m += 1;
    }
    proof {
        lemma_run_val_nonneg(s@, a as int, b as int);
    }
    val
}

/// Reads the two-digit field at `i`.
fn parse_two_digits(s: &Vec<u8>, i: usize) -> (r: u8)
    requires
        i + 2 <= s@.len(),
        is_digit(s@[i as int]),
        is_digit(s@[i as int + 1]),
    ensures
        r == two_digit_val(s@, i as int),
{
    let n = s.len();
    (s[i] - 48) * 10 + (s[i + 1] - 48)
}

/// Checks for a duration stamp at position `i`.
fn dur_check_at(s: &Vec<u8>, i: usize) -> (r: bool)
    requires
        i <= s@.len(),
    ensures
        r == dur_match_at(s@, i as int),
{
    let n = s.len();
    if n - i < 20 {
        return false;
    }
    s[i] == 68 && s[i + 1] == 117 && s[i + 2] == 114 && s[i + 3] == 97 && s[i + 4] == 116 && s[i
        + 5] == 105 && s[i + 6] == 111 && s[i + 7] == 110 && s[i + 8] == 58 && s[i + 9] == 32
        && is_digit_byte(s[i + 10]) && is_digit_byte(s[i + 11]) && s[i + 12] == 58 && is_digit_byte(
        s[i + 13],
    ) && is_digit_byte(s[i + 14]) && s[i + 15] == 58 && is_digit_byte(s[i + 16]) && is_digit_byte(
        s[i + 17],
    ) && s[i + 18] == 46 && is_digit_byte(s[i + 19])
}

/// Finds the earliest duration stamp in the text.
fn scan_first_dur(s: &Vec<u8>) -> (r: Option<usize>)
    ensures
        match (r, first_dur_from(s@, 0)) {
            (None, None) => true,
            (Some(i), Some(si)) => i == si && dur_match_at(s@, i as int),
            _ => false,
        },
{
    let n = s.len();
    let mut i: usize = 0;
    while i < n
        invariant
            i <= n,
            n == s@.len(),
            first_dur_from(s@, 0) == first_dur_from(s@, i as int),
        decreases n - i,
    {
        if dur_check_at(s, i) {
            return Some(i);
        }
        i += 1;
    }
    None
}

/// Checks for a resolution pair anchored at position `q`.
fn res_check_at(s: &Vec<u8>, q: usize) -> (r: bool)
    requires
        q < s@.len(),
    ensures
        r == res_match_at(s@, q as int),
{
    let n = s.len();
    if s[q] != 32 {
        return false;
    }
    let wstart = q + 1;
    let wend = digit_run_end(s, wstart);
    if wend - wstart < 3 {
        return false;
    }
    if wend >= n {
        return false;
    }
    if s[wend] != 120 {
        return false;
    }
    let hstart = wend + 1;
    let hend = digit_run_end(s, hstart);
    hend - hstart >= 3
}

/// Finds the last resolution pair at or after `from` on the current line.
fn find_last_res(s: &Vec<u8>, from: usize) -> (r: Option<usize>)
    requires
        from <= s@.len(),
    ensures
        match (r, last_res_from(s@, from as int)) {
            (None, None) => true,
            (Some(q), Some(sq)) => q == sq && res_match_at(s@, q as int),
            _ => false,
        },
{
    let n = s.len();
    let mut k = from;
    let mut best: Option<usize> = None;
    while k < n && s[k] != 10
        invariant
            from <= k <= n,
            n == s@.len(),
            match best {
                None => last_res_from(s@, from as int) == last_res_from(s@, k as int),
                Some(b) => {
                    &&& from <= b < k
                    &&& res_match_at(s@, b as int)
                    &&& last_res_from(s@, from as int) == (if last_res_from(s@, k as int) is Some {
                        last_res_from(s@, k as int)
                    } else {
                        Some(b as int)
                    })
                },
            },
        decreases n - k,
    {
        if res_check_at(s, k) {
            best = Some(k);
        }
        k += 1;
    }
    best
}

/// Checks for a video descriptor at position `p`.
fn video_check_at(s: &Vec<u8>, p: usize) -> (r: bool)
    requires
        p <= s@.len(),
    ensures
        r == video_match_at(s@, p as int),
{
    let n = s.len();
    if n - p < 6 {
        return false;
    }
    if !(s[p] == 86 && s[p + 1] == 105 && s[p + 2] == 100 && s[p + 3] == 101 && s[p + 4] == 111
        && s[p + 5] == 58) {
        return false;
    }
    match find_last_res(s, p + 6) {
        Some(_) => true,
        None => false,
    }
}

/// Finds the earliest video descriptor in the text.
fn scan_first_video(s: &Vec<u8>) -> (r: Option<usize>)
    ensures
        match (r, first_video_from(s@, 0)) {
            (None, None) => true,
            (Some(p), Some(sp)) => p == sp && video_match_at(s@, p as int),
            _ => false,
        },
{
    let n = s.len();
    let mut i: usize = 0;
    while i < n
        invariant
            i <= n,
            n == s@.len(),
            first_video_from(s@, 0) == first_video_from(s@, i as int),
        decreases n - i,
    {
        if video_check_at(s, i) {
            return Some(i);
        }
        i += 1;
    }
    None
}

/// Copies the duration stamp at position `i` into an `HmsTime`.
fn extract_hms(s: &Vec<u8>, i: usize) -> (r: HmsTime)
    requires
        dur_match_at(s@, i as int),
    ensures
        hms_matches(r, s@, i as int),
{
    let n = s.len();
    proof {
        lemma_run_end(s@, i as int + 19);
    }
    let hours = parse_two_digits(s, i + 10);
    let minutes = parse_two_digits(s, i + 13);
    let seconds = parse_two_digits(s, i + 16);
    let fstart = i + 19;
    let fend = digit_run_end(s, fstart);
    let mut frac: Vec<u8> = Vec::new();
    let mut k = fstart;
    while k < fend
        invariant
            fstart <= k <= fend,
            fend == run_end(s@, fstart as int),
            fstart == i + 19,
            fend <= s@.len(),
            forall|t: int| fstart <= t < fend ==> is_digit(s@[t]),
            frac@.len() == k - fstart,
            forall|t: int| 0 <= t < frac@.len() ==> frac@[t] == dval(s@[fstart + t]),
        decreases fend - k,
    {
        frac.push(s[k] - 48);
        k += 1;
    }
    HmsTime { hours, minutes, seconds, frac }
}

/// Parses the decoder's diagnostic text. Returns the duration stamp (if
/// one is present) and the frame dimensions; fails exactly when the text
/// holds no video descriptor, or the one it holds reads as a zero width
/// or height.
pub fn parse_metadata(text: &Vec<u8>) -> (r: Result<ProbeInfo, ProbeError>)
    ensures
        match r {
            Ok(info) => {
                &&& spec_video_dims(text@) == Some((info.width as int, info.height as int))
                &&& info.width > 0
                &&& info.height > 0
                &&& match (first_dur_from(text@, 0), info.duration) {
                    (None, None) => true,
                    (Some(i), Some(t)) => hms_matches(t, text@, i),
                    _ => false,
                }
            },
            Err(e) => {
                &&& e == ProbeError::NoVideoStream
                &&& match spec_video_dims(text@) {
                    None => true,
                    Some(dims) => dims.0 == 0 || dims.1 == 0,
                }
            },
        },
{
    let n = text.len();
    let duration = match scan_first_dur(text) {
        Some(i) => Some(extract_hms(text, i)),
        None => None,
    };
    let p = match scan_first_video(text) {
        Some(p) => p,
        None => {
            return Err(ProbeError::NoVideoStream);
        },
    };
    let q = match find_last_res(text, p + 6) {
        Some(q) => q,
        None => {
            // A video descriptor's line always holds a resolution pair.
            proof {
                assert(false);
            }
            return Err(ProbeError::NoVideoStream);
        },
    };
    proof {
        lemma_run_end(text@, q as int + 1);
    }
    let wstart = q + 1;
    let wend = digit_run_end(text, wstart);
    proof {
        lemma_run_end(text@, wend as int + 1);
    }
    let hstart = wend + 1;
    let hend = digit_run_end(text, hstart);
    let width = parse_run_u32(text, wstart, wend);
    let height = parse_run_u32(text, hstart, hend);
    if width > 0 && height > 0 {
        Ok(ProbeInfo { duration, width, height })
    } else {
        Err(ProbeError::NoVideoStream)
    }
}

/// The decimal digits of `v`, most significant first, as ASCII bytes.
pub open spec fn dec_bytes(v: int) -> Seq<u8>
    decreases v,
{
    if v < 0 {
        Seq::empty()
    } else if v < 10 {
        seq![(48 + v) as u8]
    } else {
        dec_bytes(v / 10).push((48 + v % 10) as u8)
    }
}

/// Every byte of a rendered number is a digit, and there is at least one.
proof fn lemma_dec_bytes_digits(v: int)
    requires
        v >= 0,
    ensures
        dec_bytes(v).len() >= 1,
        forall|k: int| 0 <= k < dec_bytes(v).len() ==> is_digit(#[trigger] dec_bytes(v)[k]),
    decreases v,
{
    if v >= 10 {
        lemma_dec_bytes_digits(v / 10);
    }
}

/// A number of at least one hundred renders as at least three digits.
proof fn lemma_dec_bytes_len3(v: int)
    requires
        v >= 100,
    ensures
        dec_bytes(v).len() >= 3,
{
    lemma_dec_bytes_digits(v / 100);
    assert(dec_bytes(v) == dec_bytes(v / 10).push((48 + v % 10) as u8));
    assert(dec_bytes(v / 10) == dec_bytes(v / 10 / 10).push((48 + (v / 10) % 10) as u8));
    assert(v / 10 / 10 == v / 100);
}

/// Digits written into the text read back as the number they render.
proof fn lemma_run_val_of_dec(s: Seq<u8>, a: int, b: int, v: int)
    requires
        v >= 0,
        0 <= a,
        b == a + dec_bytes(v).len(),
        b <= s.len(),
        forall|k: int| 0 <= k < dec_bytes(v).len() ==> s[a + k] == #[trigger] dec_bytes(v)[k],
    ensures
        run_val(s, a, b) == v,
    decreases v,
{
    lemma_dec_bytes_digits(v);
    if v < 10 {
        assert(s[a] == dec_bytes(v)[0]);
        assert(run_val(s, a, b) == run_val(s, a, a) * 10 + dval(s[a]));
        assert(run_val(s, a, a) == 0);
    } else {
        let pre = dec_bytes(v / 10);
        lemma_dec_bytes_digits(v / 10);
        assert(dec_bytes(v) == pre.push((48 + v % 10) as u8));
        assert(forall|k: int| 0 <= k < pre.len() ==> s[a + k] == #[trigger] pre[k]) by {
            assert(forall|k: int| 0 <= k < pre.len() ==> #[trigger] pre[k] == dec_bytes(v)[k]);
        }
        lemma_run_val_of_dec(s, a, b - 1, v / 10);
        assert(s[b - 1] == dec_bytes(v)[dec_bytes(v).len() - 1]);
        assert(run_val(s, a, b) == run_val(s, a, b - 1) * 10 + dval(s[b - 1]));
    }
}

/// The digit run starting at `a` ends exactly at `b` when `s[a..b]` holds
/// only digits and `b` sits at a non-digit or at the end of the text.
proof fn lemma_run_end_is(s: Seq<u8>, a: int, b: int)
    requires
        0 <= a <= b <= s.len(),
        forall|k: int| a <= k < b ==> is_digit(s[k]),
        b == s.len() || !is_digit(s[b]),
    ensures
        run_end(s, a) == b,
    decreases b - a,
{
    if a < b {
        lemma_run_end_is(s, a + 1, b);
    }
}

/// No resolution pair is anchored in `s[j..nl)` when nothing there is a
/// space, and the stretch runs to a line break or the end of the text.
proof fn lemma_last_res_none(s: Seq<u8>, j: int, nl: int)
    requires
        0 <= j <= nl <= s.len(),
        nl == s.len() || s[nl] == 10u8,
        forall|k: int| j <= k < nl ==> s[k] != 32u8 && s[k] != 10u8,
    ensures
        last_res_from(s, j) is None,
    decreases nl - j,
{
    if j < nl {
        lemma_last_res_none(s, j + 1, nl);
        assert(!res_match_at(s, j));
    }
}

/// The last resolution pair at or after `i` on the line is the one at `q`
/// when `q` anchors a pair and no space or break follows it on the line.
proof fn lemma_last_res_is(s: Seq<u8>, i: int, q: int, nl: int)
    requires
        0 <= i <= q,
        res_match_at(s, q),
        q < nl <= s.len(),
        nl == s.len() || s[nl] == 10u8,
        forall|k: int| q < k < nl ==> s[k] != 32u8 && s[k] != 10u8,
        forall|k: int| i <= k < q ==> s[k] != 10u8,
    ensures
        last_res_from(s, i) == Some(q),
    decreases q - i,
{
    if i < q {
        lemma_last_res_is(s, i + 1, q, nl);
    } else {
        lemma_last_res_none(s, q + 1, nl);
    }
}

/// The earliest video descriptor is the one at `p` when nothing before it
/// matches.
proof fn lemma_first_video_is(s: Seq<u8>, i: int, p: int)
    requires
        0 <= i <= p < s.len(),
        video_match_at(s, p),
        forall|k: int| i <= k < p ==> !video_match_at(s, k),
    ensures
        first_video_from(s, i) == Some(p),
    decreases p - i,
{
    if i < p {
        lemma_first_video_is(s, i + 1, p);
    }
}

/// Appends the decimal digits of `v`, most significant first.
fn push_decimal(out: &mut Vec<u8>, v: u32)
    ensures
        final(out)@ == old(out)@ + dec_bytes(v as int),
    decreases v,
{
    if v < 10 {
        out.push(48 + v as u8);
        proof {
            assert(final(out)@ =~= old(out)@ + dec_bytes(v as int));
        }
    } else {
        push_decimal(out, v / 10);
        out.push(48 + (v % 10) as u8);
        proof {
            assert(final(out)@ =~= old(out)@ + dec_bytes(v as int));
        }
    }
}

/// Renders a synthetic diagnostic text carrying the given duration stamp
/// and frame dimensions, in the exact shape the prober consumes. The
/// contract is the round trip: parsing the rendered text recovers every
/// number unchanged — the stamp digit for digit, and the dimensions as
/// the probed width and height.
pub fn render_diag(
    hours: u8,
    minutes: u8,
    seconds: u8,
    frac: &Vec<u8>,
    width: u32,
    height: u32,
) -> (out: Vec<u8>)
    requires
        hours <= 99,
        minutes <= 99,
        seconds <= 99,
        frac@.len() >= 1,
        forall|k: int| 0 <= k < frac@.len() ==> frac@[k] <= 9,
        width >= 100,
        height >= 100,
    ensures
        first_dur_from(out@, 0) == Some(0int),
        two_digit_val(out@, 10) == hours,
        two_digit_val(out@, 13) == minutes,
        two_digit_val(out@, 16) == seconds,
        run_end(out@, 19) == 19 + frac@.len(),
        forall|k: int| 0 <= k < frac@.len() ==> dval(out@[19 + k]) == frac@[k],
        spec_video_dims(out@) == Some((width as int, height as int)),
{
    let mut out: Vec<u8> = Vec::new();
    out.push(68);  // D
    out.push(117);  // u
    out.push(114);  // r
    out.push(97);  // a
    out.push(116);  // t
    out.push(105);  // i
    out.push(111);  // o
    out.push(110);  // n
    out.push(58);  // :
    out.push(32);
    out.push(48 + hours / 10);
    out.push(48 + hours % 10);
    out.push(58);
    out.push(48 + minutes / 10);
    out.push(48 + minutes % 10);
    out.push(58);
    out.push(48 + seconds / 10);
    out.push(48 + seconds % 10);
    out.push(46);  // .
    let ghost base19 = out@;
    assert(base19.len() == 19);
    let f = frac.len();
    let mut k: usize = 0;
    while k < f
        invariant
            k <= f,
            f == frac@.len(),
            forall|t: int| 0 <= t < f ==> frac@[t] <= 9,
            out@.len() == 19 + k,
            forall|t: int| 0 <= t < 19 ==> out@[t] == base19[t],
            forall|t: int| 19 <= t < 19 + k ==> #[trigger] out@[t] == 48 + frac@[t - 19],
        decreases f - k,
    {
        out.push(48 + frac[k]);
        k += 1;
    }
    out.push(10);  // line break
    out.push(86);  // V
    out.push(105);  // i
    out.push(100);  // d
    out.push(101);  // e
    out.push(111);  // o
    out.push(58);  // :
    out.push(32);
    let ghost head = out@;
    assert(head.len() == 27 + f);
    push_decimal(&mut out, width);
    out.push(120);  // x
    let ghost mid = out@;
    push_decimal(&mut out, height);
    proof {
        let s = out@;
        let fi = f as int;
        let wlen = dec_bytes(width as int).len();
        let hlen = dec_bytes(height as int).len();
        lemma_dec_bytes_digits(width as int);
        lemma_dec_bytes_digits(height as int);
        lemma_dec_bytes_len3(width as int);
        lemma_dec_bytes_len3(height as int);
        let q = 26 + fi;
        let wstart = q + 1;
        let wend = wstart + wlen;
        let hstart = wend + 1;
        let hend = hstart + hlen;
        assert(s.len() == hend);
        // The head of the text is stable under all the later appends.
        assert(forall|t: int| 0 <= t < 19 ==> s[t] == base19[t]);
        assert(forall|t: int| 19 <= t < 19 + fi ==> #[trigger] s[t] == 48 + frac@[t - 19]);
        assert(forall|t: int| wstart <= t < wend ==> #[trigger] s[t] == dec_bytes(
            width as int,
        )[t - wstart]) by {
            assert(forall|t: int| wstart <= t < wend ==> #[trigger] mid[t] == dec_bytes(
                width as int,
            )[t - wstart]);
        }
        assert(forall|t: int| hstart <= t < hend ==> #[trigger] s[t] == dec_bytes(
            height as int,
        )[t - hstart]);
        // The duration stamp sits at position zero.
        assert(forall|t: int| 19 <= t < 19 + fi ==> is_digit(#[trigger] s[t]));
        assert(dur_match_at(s, 0));
        assert(first_dur_from(s, 0) == Some(0int));
        assert(two_digit_val(s, 10) == hours);
        assert(two_digit_val(s, 13) == minutes);
        assert(two_digit_val(s, 16) == seconds);
        assert(s[19 + fi] == 10u8);
        lemma_run_end_is(s, 19, 19 + fi);
        // The resolution pair is anchored at the space after `Video:`.
        assert(s[q] == 32u8);
        assert(s[wend] == 120u8);
        lemma_run_end_is(s, wstart, wend);
        lemma_run_end_is(s, hstart, hend);
        assert(res_match_at(s, q));
        assert(forall|t: int| q < t < s.len() ==> s[t] != 32u8 && s[t] != 10u8) by {
            assert(forall|t: int| 0 <= t < wlen ==> is_digit(#[trigger] dec_bytes(width as int)[t]));
            assert(forall|t: int| 0 <= t < hlen ==> is_digit(
                #[trigger] dec_bytes(height as int)[t],
            ));
        }
        lemma_last_res_is(s, q, q, s.len() as int);
        // The video descriptor at its place is the first in the text:
        // no earlier byte is even a `V`.
        let p = 20 + fi;
        assert(video_match_at(s, p));
        assert(forall|t: int| 0 <= t < 19 ==> base19[t] != 86u8);
        assert(forall|t: int| 0 <= t < p ==> s[t] != 86u8);
        assert(forall|t: int| 0 <= t < p ==> !video_match_at(s, t));
        lemma_first_video_is(s, 0, p);
        assert(last_res_from(s, p + 6) == Some(q));
        lemma_run_val_of_dec(s, wstart, wend, width as int);
        lemma_run_val_of_dec(s, hstart, hend, height as int);
        assert(spec_video_dims(s) == Some((width as int, height as int)));
    }
    out
}

} // verus!
