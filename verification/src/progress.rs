//! Progress of SDK installs: the percentage in an `sdkmanager` progress line, the lines
//! of its output, and the percentage of a download.
use vstd::prelude::*;
use crate::number::{parse_u32, parse_u32_exec};
use crate::text::{
    chars_of, find_char, find_char_exec, is_ascii_digit, push_chars, slice_of, string_of, trim,
    trim_exec,
};

verus! {

// ───────────────────────────── percentage of a progress line ─────────────────────────────

/// The number of UTF-8 bytes of a character.
pub open spec fn utf8_width(c: char) -> nat {
    if (c as u32) < 0x80 {
        1
    } else if (c as u32) < 0x800 {
        2
    } else if (c as u32) < 0x10000 {
        3
    } else {
        4
    }
}

/// The byte offset of character `k` (the UTF-8 length of the first `k` characters).
pub open spec fn byte_offset(s: Seq<char>, k: int) -> nat
    decreases k,
{
    if k <= 0 || k > s.len() {
        0
    } else {
        byte_offset(s, k - 1) + utf8_width(s[k - 1])
    }
}

pub open spec fn is_digit_or_space(c: char) -> bool {
    is_ascii_digit(c) || c == ' '
}

/// Walking back from byte position `p`: while the character whose *character* index is
/// the position before is a digit or a space, step back one.
pub open spec fn scan_back(s: Seq<char>, p: int) -> int
    decreases p,
{
    if p <= 0 {
        p
    } else if p - 1 < s.len() && is_digit_or_space(s[p - 1]) {
        scan_back(s, p - 1)
    } else {
        p
    }
}

/// The first character index at or after `m` whose byte offset is `b`.
pub open spec fn char_index_from(s: Seq<char>, b: int, m: int) -> Option<int>
    decreases s.len() + 1 - m,
{
    if m < 0 || m > s.len() {
        None
    } else if byte_offset(s, m) == b {
        Some(m)
    } else {
        char_index_from(s, b, m + 1)
    }
}

/// The character index at byte offset `b`, when `b` is a character boundary.
pub open spec fn char_index_at(s: Seq<char>, b: int) -> Option<int> {
    char_index_from(s, b, 0)
}

/// Where the number before the first `%` starts, as a byte position (the walk back mixes
/// byte positions and character indices, as the progress parser does).
pub open spec fn number_start(s: Seq<char>, q: int) -> int {
    scan_back(s, byte_offset(s, q) as int)
}

/// A line on which the progress parser would slice inside a character (and panic).
pub open spec fn percentage_slices_inside_char(s: Seq<char>) -> bool {
    match find_char(s, '%') {
        Some(q) => char_index_at(s, number_start(s, q)) is None,
        None => false,
    }
}

/// The percentage of a progress line: the digits and spaces before the first `%`,
/// trimmed, read as a `u32`; `None` without `%` or when they do not parse.
pub open spec fn percentage_of(s: Seq<char>) -> Option<u32> {
    match find_char(s, '%') {
        None => None,
        Some(q) => match char_index_at(s, number_start(s, q)) {
            Some(m) => parse_u32(trim(s.subrange(m, q))),
            None => None,
        },
    }
}

fn utf8_width_exec(c: char) -> (r: u128)
    ensures
        r == utf8_width(c),
{
    let u = c as u32;
    if u < 0x80 {
        1
    } else if u < 0x800 {
        2
    } else if u < 0x10000 {
        3
    } else {
        4
    }
}

pub proof fn lemma_byte_offset_bounds(s: Seq<char>, k: int)
    requires
        0 <= k <= s.len(),
    ensures
        k <= byte_offset(s, k) <= 4 * k,
    decreases k,
{
    if k > 0 {
        lemma_byte_offset_bounds(s, k - 1);
    }
}

pub proof fn lemma_byte_offset_increasing(s: Seq<char>, a: int, b: int)
    requires
        0 <= a < b <= s.len(),
    ensures
        byte_offset(s, a) < byte_offset(s, b),
    decreases b - a,
{
    if b - 1 > a {
        lemma_byte_offset_increasing(s, a, b - 1);
    }
}

proof fn lemma_char_index_none_past(s: Seq<char>, b: int, m: int)
    requires
        0 <= m <= s.len(),
        byte_offset(s, m) > b,
    ensures
        char_index_from(s, b, m) is None,
    decreases s.len() + 1 - m,
{
    if m < s.len() {
        lemma_byte_offset_increasing(s, m, m + 1);
        lemma_char_index_none_past(s, b, m + 1);
    } else {
        assert(char_index_from(s, b, m + 1) is None);
    }
}

proof fn lemma_char_index_found(s: Seq<char>, b: int, m: int)
    requires
        0 <= m,
        char_index_from(s, b, m) is Some,
    ensures
        byte_offset(s, char_index_from(s, b, m)->0) == b,
        m <= char_index_from(s, b, m)->0 <= s.len(),
    decreases s.len() + 1 - m,
{
    if m <= s.len() && byte_offset(s, m) != b {
        lemma_char_index_found(s, b, m + 1);
    }
}

fn digit_or_space_at(s: &Vec<char>, i: u128) -> (r: bool)
    ensures
        r == (i < s@.len() && is_digit_or_space(s@[i as int])),
{
    if i < s.len() as u128 {
        let c = s[i as usize];
        ('0' <= c && c <= '9') || c == ' '
    } else {
        false
    }
}

fn char_index_of_offset(s: &Vec<char>, b: u128) -> (r: Option<usize>)
    ensures
        r matches Some(m) ==> char_index_at(s@, b as int) == Some(m as int) && m <= s@.len(),
        r is None ==> char_index_at(s@, b as int) is None,
{
    let mut m: usize = 0;
    let mut off: u128 = 0;
    loop
        invariant
            m <= s@.len(),
            off == byte_offset(s@, m as int),
            off <= 4 * m,
            char_index_at(s@, b as int) == char_index_from(s@, b as int, m as int),
        decreases s@.len() - m,
    {
        if off == b {
            return Some(m);
        }
        if off > b {
            proof {
                lemma_char_index_none_past(s@, b as int, m as int);
            }
            return None;
        }
        if m == s.len() {
            assert(char_index_from(s@, b as int, m + 1) is None);
            return None;
        }
        off = off + utf8_width_exec(s[m]);
        m += 1;
    }
}

/// The percentage of a progress line, or `Err` where the parser would slice inside a
/// character.
fn percentage_or_slice(s: &Vec<char>) -> (r: Result<Option<u32>, ()>)
    ensures
        r is Err <==> percentage_slices_inside_char(s@),
        r matches Ok(p) ==> p == percentage_of(s@),
{
    let q = match find_char_exec(s, '%') {
        Some(q) => q,
        None => return Ok(None),
    };
    proof {
        crate::text::lemma_find_char_from_bounds(s@, '%', 0);
    }
    // byte position of the `%`
    let mut pos: u128 = 0;
    let mut k: usize = 0;
    while k < q
        invariant
            k <= q < s@.len(),
            pos == byte_offset(s@, k as int),
            pos <= 4 * k,
        decreases q - k,
    {
        pos = pos + utf8_width_exec(s[k]);
        k += 1;
    }
    // walk back over digits and spaces
    let mut start: u128 = pos;
    while start > 0 && digit_or_space_at(s, start - 1)
        invariant
            start <= pos,
            scan_back(s@, pos as int) == scan_back(s@, start as int),
        decreases start,
    {
        start = start - 1;
    }
    // the character index at byte position `start`
    let m = match char_index_of_offset(s, start) {
        Some(m) => m,
        None => return Err(()),
    };
    proof {
        lemma_char_index_found(s@, start as int, 0);
        if m > q {
            lemma_byte_offset_increasing(s@, q as int, m as int);
        }
    }
    let digits = slice_of(s, m, q);
    let t = trim_exec(&digits);
    Ok(parse_u32_exec(&t))
}

/// The percentage of a progress line for any line: `None` where the digits before the
/// `%` would be cut out in the middle of a character, which `extract_percentage` rules out.
pub fn checked_percentage(line: &str) -> (r: Option<Option<u32>>)
    ensures
        r is None <==> percentage_slices_inside_char(line@),
        r matches Some(p) ==> p == percentage_of(line@),
{
    match percentage_or_slice(&chars_of(line)) {
        Ok(p) => Some(p),
        Err(_) => None,
    }
}

/// The percentage of an `sdkmanager` progress line such as ` [=====   ] 35%`.
pub fn extract_percentage(line: &str) -> (r: Option<u32>)
    requires
        !percentage_slices_inside_char(line@),
    ensures
        r == percentage_of(line@),
{
    let s = chars_of(line);
    match percentage_or_slice(&s) {
        Ok(p) => p,
        Err(_) => None,
    }
}

proof fn lemma_ascii_byte_offset(s: Seq<char>, k: int)
    requires
        0 <= k <= s.len(),
        forall|i: int| 0 <= i < s.len() ==> (#[trigger] s[i] as u32) < 0x80,
    ensures
        byte_offset(s, k) == k,
    decreases k,
{
    if k > 0 {
        lemma_ascii_byte_offset(s, k - 1);
    }
}

proof fn lemma_ascii_char_index(s: Seq<char>, b: int, m: int)
    requires
        0 <= m <= b <= s.len(),
        forall|i: int| 0 <= i < s.len() ==> (#[trigger] s[i] as u32) < 0x80,
    ensures
        char_index_from(s, b, m) == Some(b),
    decreases b - m,
{
    lemma_ascii_byte_offset(s, m);
    if m < b {
        lemma_ascii_char_index(s, b, m + 1);
    }
}

proof fn lemma_scan_back_bounds(s: Seq<char>, p: int)
    requires
        0 <= p,
    ensures
        0 <= scan_back(s, p) <= p,
    decreases p,
{
    if p > 0 && p - 1 < s.len() && is_digit_or_space(s[p - 1]) {
        lemma_scan_back_bounds(s, p - 1);
    }
}

/// On ASCII text the progress parser never slices inside a character, and reads the
/// digits and spaces just before the first `%` (trimmed) as the percentage.
pub proof fn lemma_ascii_percentage(s: Seq<char>)
    requires
        forall|i: int| 0 <= i < s.len() ==> (#[trigger] s[i] as u32) < 0x80,
    ensures
        !percentage_slices_inside_char(s),
        find_char(s, '%') matches Some(q) ==> percentage_of(s) == parse_u32(
            trim(s.subrange(scan_back(s, q), q)),
        ),
{
    crate::text::lemma_find_char_from_bounds(s, '%', 0);
    if let Some(q) = find_char(s, '%') {
        lemma_ascii_byte_offset(s, q);
        lemma_scan_back_bounds(s, q);
        lemma_ascii_char_index(s, scan_back(s, q), 0);
    }
}

// ───────────────────────────── `sdkmanager` output ─────────────────────────────

/// Calls `std::str::from_utf8`: the text of the bytes when they are valid UTF-8, as its
/// documentation says, and `None` otherwise.
#[verifier::external_body]
fn utf8_text(bytes: &[u8]) -> (r: Option<String>)
    ensures
        r.is_some() == vstd::utf8::valid_utf8(bytes@),
        r.is_some() ==> r.unwrap()@ == vstd::utf8::decode_utf8(bytes@),
{
    match std::str::from_utf8(bytes) {
        Ok(s) => Some(s.to_string()),
        Err(_) => None,
    }
}

/// A shown line of `sdkmanager`'s output, with the percentage it reports.
pub struct SdkLine {
    pub text: String,
    pub percent: Option<u32>,
}

/// What reading one more byte of `sdkmanager`'s output does, from the pending bytes of
/// the current line, the text kept so far and whether reading has stopped: the new state
/// and the line to show (with its percentage), if any. A line ends at `\n` or `\r`; an
/// empty, non-UTF-8 or blank line is dropped; a shown line is trimmed and kept followed by
/// `\n`. A line on which the percentage parser would slice inside a character stops the
/// reading.
pub open spec fn reader_step(pending: Seq<u8>, kept: Seq<char>, stopped: bool, b: u8) -> (
    (Seq<u8>, Seq<char>, bool),
    Option<(Seq<char>, Option<u32>)>,
) {
    if stopped {
        ((pending, kept, stopped), None)
    } else if b == 10 || b == 13 {
        if pending.len() == 0 {
            ((pending, kept, false), None)
        } else if !vstd::utf8::valid_utf8(pending) {
            ((seq![], kept, false), None)
        } else {
            let t = trim(vstd::utf8::decode_utf8(pending));
            if t.len() == 0 {
                ((seq![], kept, false), None)
            } else if percentage_slices_inside_char(t) {
                ((seq![], kept + t + seq!['\n'], true), Some((t, None)))
            } else {
                ((seq![], kept + t + seq!['\n'], false), Some((t, percentage_of(t))))
            }
        }
    } else {
        ((pending.push(b), kept, false), None)
    }
}

/// Reads `sdkmanager`'s output byte by byte.
pub struct SdkOutputReader {
    pending: Vec<u8>,
    kept: Vec<char>,
    stopped: bool,
}

impl View for SdkOutputReader {
    type V = (Seq<u8>, Seq<char>, bool);

    closed spec fn view(&self) -> (Seq<u8>, Seq<char>, bool) {
        (self.pending@, self.kept@, self.stopped)
    }
}

impl SdkOutputReader {
    pub fn new() -> (r: SdkOutputReader)
        ensures
            r@ == (Seq::<u8>::empty(), Seq::<char>::empty(), false),
    {
        SdkOutputReader { pending: Vec::new(), kept: Vec::new(), stopped: false }
    }

    /// Reads one byte; the line to show, if it completes one.
    pub fn feed(&mut self, b: u8) -> (r: Option<SdkLine>)
        ensures
            ({
                let (st, out) = reader_step(old(self)@.0, old(self)@.1, old(self)@.2, b);
                &&& final(self)@ == st
                &&& match out {
                    Some((t, p)) => r matches Some(l) && l.text@ == t && l.percent == p,
                    None => r is None,
                }
            }),
    {
        if self.stopped {
            return None;
        }
        if b == 10 || b == 13 {
            if self.pending.len() == 0 {
                return None;
            }
            let decoded = utf8_text(self.pending.as_slice());
            self.pending = Vec::new();
            let text = match decoded {
                Some(t) => t,
                None => return None,
            };
            let t = trim_exec(&chars_of(text.as_str()));
            if t.len() == 0 {
                return None;
            }
            push_chars(&mut self.kept, &t);
            self.kept.push('\n');
            let shown = string_of(&t);
            match percentage_or_slice(&t) {
                Ok(p) => Some(SdkLine { text: shown, percent: p }),
                Err(_) => {
                    self.stopped = true;
                    Some(SdkLine { text: shown, percent: None })
                },
            }
        } else {
            self.pending.push(b);
            None
        }
    }

    /// The text kept from the output: the shown lines, each followed by `\n`; empty when
    /// reading stopped.
    pub fn finish(self) -> (r: String)
        ensures
            r@ == (if self@.2 {
                Seq::<char>::empty()
            } else {
                self@.1
            }),
    {
        if self.stopped {
            String::new()
        } else {
            string_of(&self.kept)
        }
    }
}

// ───────────────────────────── download progress ─────────────────────────────

/// Percent of a download: `downloaded * 100 / total`, cut to `u32`, when the total is
/// known (non-zero).
pub open spec fn download_percent(downloaded: u64, total: u64) -> Option<u32> {
    if total > 0 {
        Some(((downloaded as int * 100) / (total as int)) as u32)
    } else {
        None
    }
}

/// Bytes received so far of a download of a known (or zero: unknown) size.
pub struct DownloadProgress {
    pub downloaded: u64,
    pub total: u64,
}

impl DownloadProgress {
    pub fn new(total: u64) -> (r: DownloadProgress)
        ensures
            r.downloaded == 0,
            r.total == total,
    {
        DownloadProgress { downloaded: 0, total }
    }

    /// Counts a received chunk; the percentage to report, if the size is known.
    pub fn on_chunk(&mut self, len: u64) -> (r: Option<u32>)
        requires
            old(self).downloaded + len <= u64::MAX,
            (old(self).downloaded + len) * 100 <= u64::MAX,
        ensures
            final(self).downloaded == old(self).downloaded + len,
            final(self).total == old(self).total,
            r == download_percent(final(self).downloaded, final(self).total),
    {
        self.downloaded = self.downloaded + len;
        if self.total > 0 {
            Some((self.downloaded * 100 / self.total) as u32)
        } else {
            None
        }
    }
}

} // verus!
