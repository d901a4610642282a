//! Character-level text model shared by the configuration and output parsers.
//!
//! Text is modelled as `Seq<char>` (the view of `str` and `String`).  The spec
//! functions here state what the `str` operations used by the launcher compute
//! (`trim`, `lines`, `find`, `starts_with`, `contains`, `split`, `replace`), and
//! the executable functions compute them on `Vec<char>`.
use vstd::prelude::*;

verus! {

// ───────────────────────────── character classes ─────────────────────────────

/// Unicode `White_Space` property (what `char::is_whitespace` and `str::trim` use).
pub open spec fn is_white_space(c: char) -> bool {
    let u = c as u32;
    (0x9 <= u && u <= 0xd) || u == 0x20 || u == 0x85 || u == 0xa0 || u == 0x1680 || (0x2000 <= u
        && u <= 0x200a) || u == 0x2028 || u == 0x2029 || u == 0x202f || u == 0x205f || u == 0x3000
}

pub fn is_white_space_char(c: char) -> (r: bool)
    ensures
        r == is_white_space(c),
{
    let u = c as u32;
    (0x9 <= u && u <= 0xd) || u == 0x20 || u == 0x85 || u == 0xa0 || u == 0x1680 || (0x2000 <= u
        && u <= 0x200a) || u == 0x2028 || u == 0x2029 || u == 0x202f || u == 0x205f || u == 0x3000
}

/// Unicode general category `Cc` (what `char::is_control` tests).
pub open spec fn is_control(c: char) -> bool {
    let u = c as u32;
    u <= 0x1f || (0x7f <= u && u <= 0x9f)
}

pub open spec fn is_ascii_digit(c: char) -> bool {
    '0' <= c && c <= '9'
}

// ───────────────────────────── conversions ─────────────────────────────

/// The characters of a string slice.
pub fn chars_of(s: &str) -> (v: Vec<char>)
    ensures
        v@ == s@,
{
    let mut v: Vec<char> = Vec::new();
    for c in it: s.chars()
        invariant
            v@ == it.seq().take(it.index() as int),
    {
        v.push(c);
    }
    v
}


/// A string built from characters.
#[verifier::external_body]
pub fn string_of(v: &Vec<char>) -> (s: String)
    ensures
        s@ == v@,
{
    v.iter().collect()
}

/// A copy of `s[a..b]`.
pub fn slice_of(s: &Vec<char>, a: usize, b: usize) -> (r: Vec<char>)
    requires
        a <= b <= s.len(),
    ensures
        r@ == s@.subrange(a as int, b as int),
{
    let mut r: Vec<char> = Vec::new();
    let mut i = a;
    while i < b
        invariant
            a <= i <= b <= s.len(),
            r@ == s@.subrange(a as int, i as int),
        decreases b - i,
    {
        r.push(s[i]);
        i += 1;
        assert(r@ =~= s@.subrange(a as int, i as int));
    }
    r
}

/// Appends the characters of `t` to `r`.
pub fn push_str(r: &mut Vec<char>, t: &str)
    ensures
        final(r)@ == old(r)@ + t@,
{
    let tv = chars_of(t);
    let mut i: usize = 0;
    while i < tv.len()
        invariant
            i <= tv.len(),
            tv@ == t@,
            r@ == old(r)@ + tv@.take(i as int),
        decreases tv.len() - i,
    {
        r.push(tv[i]);
        i += 1;
        assert(r@ =~= old(r)@ + tv@.take(i as int));
    }
    assert(tv@.take(tv@.len() as int) =~= tv@);
}

/// Appends the characters of `t` to `r`.
pub fn push_chars(r: &mut Vec<char>, t: &Vec<char>)
    ensures
        final(r)@ == old(r)@ + t@,
{
    let mut i: usize = 0;
    while i < t.len()
        invariant
            i <= t.len(),
            r@ == old(r)@ + t@.take(i as int),
        decreases t.len() - i,
    {
        r.push(t[i]);
        i += 1;
        assert(r@ =~= old(r)@ + t@.take(i as int));
    }
    assert(t@.take(t@.len() as int) =~= t@);
}

// ───────────────────────────── prefixes and searching ─────────────────────────────

pub open spec fn starts_with(s: Seq<char>, p: Seq<char>) -> bool {
    p.len() <= s.len() && s.subrange(0, p.len() as int) == p
}

pub open spec fn ends_with(s: Seq<char>, p: Seq<char>) -> bool {
    p.len() <= s.len() && s.subrange(s.len() - p.len(), s.len() as int) == p
}

/// `p` occurs in `s` at position `i`.
pub open spec fn matches_at(s: Seq<char>, p: Seq<char>, i: int) -> bool {
    0 <= i && i + p.len() <= s.len() && s.subrange(i, i + p.len()) == p
}

/// The first position at or after `i` where `p` occurs in `s`.
pub open spec fn find_from(s: Seq<char>, p: Seq<char>, i: int) -> Option<int>
    decreases s.len() + 1 - i,
{
    if i < 0 || i + p.len() > s.len() {
        None
    } else if matches_at(s, p, i) {
        Some(i)
    } else {
        find_from(s, p, i + 1)
    }
}

/// The first position where `p` occurs in `s` (`str::find`).
pub open spec fn find(s: Seq<char>, p: Seq<char>) -> Option<int> {
    find_from(s, p, 0)
}

/// `str::contains`.
pub open spec fn contains(s: Seq<char>, p: Seq<char>) -> bool {
    find(s, p) is Some
}

/// The first position at or after `i` holding `c`.
pub open spec fn find_char_from(s: Seq<char>, c: char, i: int) -> Option<int>
    decreases s.len() - i,
{
    if i < 0 || i >= s.len() {
        None
    } else if s[i] == c {
        Some(i)
    } else {
        find_char_from(s, c, i + 1)
    }
}

pub open spec fn find_char(s: Seq<char>, c: char) -> Option<int> {
    find_char_from(s, c, 0)
}

pub proof fn lemma_find_from_bounds(s: Seq<char>, p: Seq<char>, i: int)
    requires
        0 <= i,
    ensures
        find_from(s, p, i) matches Some(k) ==> i <= k && matches_at(s, p, k) && forall|j: int|
            i <= j < k ==> !matches_at(s, p, j),
        find_from(s, p, i) is None ==> forall|j: int| i <= j ==> !matches_at(s, p, j),
    decreases s.len() + 1 - i,
{
    if i < 0 || i + p.len() > s.len() {
    } else if matches_at(s, p, i) {
    } else {
        if p.len() == 0 {
            assert(s.subrange(i, i) =~= p);
        }
        lemma_find_from_bounds(s, p, i + 1);
    }
}

/// Text in which `p` occurs somewhere contains `p`.
pub proof fn lemma_contains_at(s: Seq<char>, p: Seq<char>, k: int)
    requires
        matches_at(s, p, k),
    ensures
        contains(s, p),
{
    lemma_find_from_bounds(s, p, 0);
}

/// Text that holds `big` holds every text found in `big`.
pub proof fn lemma_contains_within(s: Seq<char>, big: Seq<char>, small: Seq<char>, off: int)
    requires
        contains(s, big),
        matches_at(big, small, off),
    ensures
        contains(s, small),
{
    lemma_find_from_bounds(s, big, 0);
    let k = find(s, big).unwrap();
    assert(s.subrange(k + off, k + off + small.len()) =~= big.subrange(off, off + small.len()));
    assert(matches_at(s, small, k + off));
    lemma_find_from_bounds(s, small, 0);
}

pub proof fn lemma_find_char_from_bounds(s: Seq<char>, c: char, i: int)
    requires
        0 <= i,
    ensures
        find_char_from(s, c, i) matches Some(k) ==> i <= k < s.len() && s[k] == c && forall|j: int|
            i <= j < k ==> s[j] != c,
        find_char_from(s, c, i) is None ==> forall|j: int| i <= j < s.len() ==> s[j] != c,
    decreases s.len() - i,
{
    if i >= s.len() {
    } else if s[i] == c {
    } else {
        lemma_find_char_from_bounds(s, c, i + 1);
    }
}

pub fn starts_with_exec(s: &Vec<char>, p: &Vec<char>) -> (r: bool)
    ensures
        r == starts_with(s@, p@),
{
    if p.len() > s.len() {
        return false;
    }
    let mut i: usize = 0;
    while i < p.len()
        invariant
            p.len() <= s.len(),
            i <= p.len(),
            forall|j: int| 0 <= j < i ==> s@[j] == p@[j],
        decreases p.len() - i,
    {
        if s[i] != p[i] {
            assert(s@.subrange(0, p@.len() as int)[i as int] != p@[i as int]);
            return false;
        }
        i += 1;
    }
    assert(s@.subrange(0, p@.len() as int) =~= p@);
    true
}

pub fn starts_with_str(s: &Vec<char>, p: &str) -> (r: bool)
    ensures
        r == starts_with(s@, p@),
{
    let pv = chars_of(p);
    starts_with_exec(s, &pv)
}

pub fn ends_with_exec(s: &Vec<char>, p: &Vec<char>) -> (r: bool)
    ensures
        r == ends_with(s@, p@),
{
    if p.len() > s.len() {
        return false;
    }
    let off = s.len() - p.len();
    let mut i: usize = 0;
    while i < p.len()
        invariant
            p.len() <= s.len(),
            off == s.len() - p.len(),
            i <= p.len(),
            forall|j: int| 0 <= j < i ==> s@[off + j] == p@[j],
        decreases p.len() - i,
    {
        if s[off + i] != p[i] {
            assert(s@.subrange(off as int, s@.len() as int)[i as int] != p@[i as int]);
            return false;
        }
        i += 1;
    }
    assert(s@.subrange(off as int, s@.len() as int) =~= p@);
    true
}

/// Whether `p` occurs in `s` at `i`.
pub fn matches_at_exec(s: &Vec<char>, p: &Vec<char>, i: usize) -> (r: bool)
    ensures
        r == matches_at(s@, p@, i as int),
{
    if p.len() > s.len() || i > s.len() - p.len() {
        return false;
    }
    let mut j: usize = 0;
    while j < p.len()
        invariant
            p.len() <= s.len(),
            i + p.len() <= s.len(),
            j <= p.len(),
            forall|k: int| 0 <= k < j ==> s@[i + k] == p@[k],
        decreases p.len() - j,
    {
        if s[i + j] != p[j] {
            assert(s@.subrange(i as int, i + p@.len())[j as int] != p@[j as int]);
            return false;
        }
        j += 1;
    }
    assert(s@.subrange(i as int, i + p@.len()) =~= p@);
    true
}

/// `str::find` with a string pattern.
pub fn find_exec(s: &Vec<char>, p: &Vec<char>) -> (r: Option<usize>)
    ensures
        r matches Some(k) ==> find(s@, p@) == Some(k as int),
        r is None ==> find(s@, p@) is None,
{
    if p.len() > s.len() {
        return None;
    }
    if p.len() == 0 {
        assert(s@.subrange(0, 0) =~= p@);
        return Some(0);
    }
    let mut i: usize = 0;
    while i <= s.len() - p.len()
        invariant
            1 <= p.len() <= s.len(),
            i <= s.len(),
            find(s@, p@) == find_from(s@, p@, i as int),
        decreases s.len() - i,
    {
        if matches_at_exec(s, p, i) {
            return Some(i);
        }
        i += 1;
    }
    None
}

pub fn contains_exec(s: &Vec<char>, p: &Vec<char>) -> (r: bool)
    ensures
        r == contains(s@, p@),
{
    find_exec(s, p).is_some()
}

pub fn contains_str(s: &Vec<char>, p: &str) -> (r: bool)
    ensures
        r == contains(s@, p@),
{
    let pv = chars_of(p);
    contains_exec(s, &pv)
}

/// `str::find` with a character pattern.
pub fn find_char_exec(s: &Vec<char>, c: char) -> (r: Option<usize>)
    ensures
        r matches Some(k) ==> find_char(s@, c) == Some(k as int),
        r is None ==> find_char(s@, c) is None,
{
    let mut i: usize = 0;
    while i < s.len()
        invariant
            i <= s.len(),
            find_char(s@, c) == find_char_from(s@, c, i as int),
        decreases s.len() - i,
    {
        if s[i] == c {
            return Some(i);
        }
        i += 1;
    }
    None
}


/// Whether `v` is exactly `s`.
pub fn eq_str(v: &Vec<char>, s: &str) -> (r: bool)
    ensures
        r == (v@ == s@),
{
    let sv = chars_of(s);
    let r = v.len() == sv.len() && starts_with_exec(v, &sv);
    proof {
        assert(v@.subrange(0, v@.len() as int) =~= v@);
        if v@ == s@ {
            assert(starts_with(v@, sv@));
        }
    }
    r
}

/// `s` with every leading copy of `p` removed (`str::trim_start_matches`).
pub open spec fn trim_start_matches(s: Seq<char>, p: Seq<char>) -> Seq<char>
    decreases s.len(),
{
    if p.len() > 0 && starts_with(s, p) {
        trim_start_matches(s.subrange(p.len() as int, s.len() as int), p)
    } else {
        s
    }
}

pub fn trim_start_matches_exec(s: &Vec<char>, p: &Vec<char>) -> (r: Vec<char>)
    ensures
        r@ == trim_start_matches(s@, p@),
{
    let mut v = s.clone();
    if p.len() == 0 {
        return v;
    }
    while starts_with_exec(&v, p)
        invariant
            p@.len() > 0,
            trim_start_matches(s@, p@) == trim_start_matches(v@, p@),
        decreases v@.len(),
    {
        v = slice_of(&v, p.len(), v.len());
    }
    v
}

// ───────────────────────────── trimming ─────────────────────────────

/// Index of the first non-whitespace character at or after `i`.
pub open spec fn trim_start_index(s: Seq<char>, i: int) -> int
    decreases s.len() - i,
{
    if 0 <= i < s.len() && is_white_space(s[i]) {
        trim_start_index(s, i + 1)
    } else {
        i
    }
}

/// End (exclusive) of `s[lo..j]` once trailing whitespace is dropped.
pub open spec fn trim_end_index(s: Seq<char>, lo: int, j: int) -> int
    decreases j,
{
    if 0 < j && lo < j && j <= s.len() && is_white_space(s[j - 1]) {
        trim_end_index(s, lo, j - 1)
    } else {
        j
    }
}

/// `str::trim`: leading and trailing Unicode whitespace removed.
pub open spec fn trim(s: Seq<char>) -> Seq<char> {
    let a = trim_start_index(s, 0);
    s.subrange(a, trim_end_index(s, a, s.len() as int))
}

/// `str::trim_start`.
pub open spec fn trim_start(s: Seq<char>) -> Seq<char> {
    s.subrange(trim_start_index(s, 0), s.len() as int)
}

pub proof fn lemma_trim_start_index_bounds(s: Seq<char>, i: int)
    requires
        0 <= i <= s.len(),
    ensures
        i <= trim_start_index(s, i) <= s.len(),
    decreases s.len() - i,
{
    if 0 <= i < s.len() && is_white_space(s[i]) {
        lemma_trim_start_index_bounds(s, i + 1);
    }
}

pub proof fn lemma_trim_end_index_bounds(s: Seq<char>, lo: int, j: int)
    requires
        0 <= lo <= j <= s.len(),
    ensures
        lo <= trim_end_index(s, lo, j) <= j,
    decreases j,
{
    if 0 < j && lo < j && j <= s.len() && is_white_space(s[j - 1]) {
        lemma_trim_end_index_bounds(s, lo, j - 1);
    }
}

/// `str::trim`.
pub fn trim_exec(s: &Vec<char>) -> (r: Vec<char>)
    ensures
        r@ == trim(s@),
{
    let mut a: usize = 0;
    while a < s.len() && is_white_space_char(s[a])
        invariant
            a <= s.len(),
            trim_start_index(s@, 0) == trim_start_index(s@, a as int),
        decreases s.len() - a,
    {
        a += 1;
    }
    let mut b: usize = s.len();
    while b > a && is_white_space_char(s[b - 1])
        invariant
            a <= b <= s.len(),
            trim_start_index(s@, 0) == a,
            trim_end_index(s@, a as int, s@.len() as int) == trim_end_index(s@, a as int, b as int),
        decreases b,
    {
        b -= 1;
    }
    slice_of(s, a, b)
}

// ───────────────────────────── splitting ─────────────────────────────

/// `s` up to (not including) the first `c`, or all of `s`.
pub open spec fn up_to_char(s: Seq<char>, c: char) -> Seq<char> {
    match find_char(s, c) {
        Some(k) => s.subrange(0, k),
        None => s,
    }
}

/// `s.split(c).nth(1)`: the text between the first and the second `c`.
pub open spec fn second_field(s: Seq<char>, c: char) -> Option<Seq<char>> {
    match find_char(s, c) {
        Some(k) => Some(up_to_char(s.subrange(k + 1, s.len() as int), c)),
        None => None,
    }
}

/// `s.split_once(c)`.
pub open spec fn split_once(s: Seq<char>, c: char) -> Option<(Seq<char>, Seq<char>)> {
    match find_char(s, c) {
        Some(k) => Some((s.subrange(0, k), s.subrange(k + 1, s.len() as int))),
        None => None,
    }
}

pub fn up_to_char_exec(s: &Vec<char>, c: char) -> (r: Vec<char>)
    ensures
        r@ == up_to_char(s@, c),
{
    match find_char_exec(s, c) {
        Some(k) => {
            proof {
                lemma_find_char_from_bounds(s@, c, 0);
            }
            slice_of(s, 0, k)
        },
        None => s.clone(),
    }
}

pub fn second_field_exec(s: &Vec<char>, c: char) -> (r: Option<Vec<char>>)
    ensures
        r matches Some(v) ==> second_field(s@, c) == Some(v@),
        r is None ==> second_field(s@, c) is None,
{
    match find_char_exec(s, c) {
        Some(k) => {
            proof {
                lemma_find_char_from_bounds(s@, c, 0);
            }
            assert(k < s.len());
            let rest = slice_of(s, k + 1, s.len());
            Some(up_to_char_exec(&rest, c))
        },
        None => None,
    }
}

pub fn split_once_exec(s: &Vec<char>, c: char) -> (r: Option<(Vec<char>, Vec<char>)>)
    ensures
        r matches Some(v) ==> split_once(s@, c) == Some((v.0@, v.1@)),
        r is None ==> split_once(s@, c) is None,
{
    match find_char_exec(s, c) {
        Some(k) => {
            proof {
                lemma_find_char_from_bounds(s@, c, 0);
            }
            Some((slice_of(s, 0, k), slice_of(s, k + 1, s.len())))
        },
        None => None,
    }
}

/// Fields found and the pending field after reading `s` left to right, split at `c`.
pub open spec fn split_state(s: Seq<char>, c: char) -> (Seq<Seq<char>>, Seq<char>)
    decreases s.len(),
{
    if s.len() == 0 {
        (seq![], seq![])
    } else {
        let (done, cur) = split_state(s.drop_last(), c);
        if s.last() == c {
            (done.push(cur), seq![])
        } else {
            (done, cur.push(s.last()))
        }
    }
}

/// `s.split(c)`: the fields between the occurrences of `c` (one more than there are
/// occurrences).
pub open spec fn split_char(s: Seq<char>, c: char) -> Seq<Seq<char>> {
    let (done, cur) = split_state(s, c);
    done.push(cur)
}

/// `s.split(c)`.
pub fn split_char_exec(s: &Vec<char>, c: char) -> (r: Vec<Vec<char>>)
    ensures
        views(r@) == split_char(s@, c),
{
    let mut done: Vec<Vec<char>> = Vec::new();
    let mut cur: Vec<char> = Vec::new();
    let mut i: usize = 0;
    while i < s.len()
        invariant
            i <= s.len(),
            (views(done@), cur@) == split_state(s@.take(i as int), c),
        decreases s.len() - i,
    {
        assert(s@.take(i + 1).drop_last() =~= s@.take(i as int));
        if s[i] == c {
            let ghost prev = done@;
            done.push(cur);
            cur = Vec::new();
            assert(views(done@) =~= views(prev).push(done@[prev.len() as int]@));
        } else {
            cur.push(s[i]);
        }
        i += 1;
    }
    assert(s@.take(s@.len() as int) =~= s@);
    let ghost prev = done@;
    done.push(cur);
    assert(views(done@) =~= views(prev).push(done@[prev.len() as int]@));
    done
}

// ───────────────────────────── replacing ─────────────────────────────

/// `s[i..].replace(from, to)`: non-overlapping occurrences of a non-empty `from`,
/// taken from the left, each replaced by `to`.
pub open spec fn replace_from(s: Seq<char>, from: Seq<char>, to: Seq<char>, i: int) -> Seq<char>
    decreases s.len() - i,
{
    if i < 0 || i >= s.len() {
        seq![]
    } else if from.len() > 0 && matches_at(s, from, i) {
        to + replace_from(s, from, to, i + from.len())
    } else {
        seq![s[i]] + replace_from(s, from, to, i + 1)
    }
}

/// `str::replace` with a non-empty pattern.
pub open spec fn replace(s: Seq<char>, from: Seq<char>, to: Seq<char>) -> Seq<char> {
    replace_from(s, from, to, 0)
}

pub fn replace_exec(s: &Vec<char>, from: &Vec<char>, to: &Vec<char>) -> (r: Vec<char>)
    requires
        from.len() > 0,
    ensures
        r@ == replace(s@, from@, to@),
{
    let mut out: Vec<char> = Vec::new();
    let mut i: usize = 0;
    while i < s.len()
        invariant
            i <= s.len(),
            from.len() > 0,
            out@ + replace_from(s@, from@, to@, i as int) == replace(s@, from@, to@),
        decreases s.len() - i,
    {
        if matches_at_exec(s, from, i) {
            push_chars(&mut out, to);
            i += from.len();
        } else {
            out.push(s[i]);
            i += 1;
        }
    }
    assert(out@ + replace_from(s@, from@, to@, i as int) =~= out@);
    out
}

pub fn replace_str(s: &Vec<char>, from: &str, to: &str) -> (r: Vec<char>)
    requires
        from@.len() > 0,
    ensures
        r@ == replace(s@, from@, to@),
{
    let f = chars_of(from);
    let t = chars_of(to);
    replace_exec(s, &f, &t)
}

// ───────────────────────────── lines ─────────────────────────────

/// `line` without one trailing carriage return.
pub open spec fn strip_cr(line: Seq<char>) -> Seq<char> {
    if line.len() > 0 && line.last() == '\r' {
        line.drop_last()
    } else {
        line
    }
}

/// Finished lines and the pending partial line after reading `s` left to right.
pub open spec fn line_state(s: Seq<char>) -> (Seq<Seq<char>>, Seq<char>)
    decreases s.len(),
{
    if s.len() == 0 {
        (seq![], seq![])
    } else {
        let (done, cur) = line_state(s.drop_last());
        if s.last() == '\n' {
            (done.push(strip_cr(cur)), seq![])
        } else {
            (done, cur.push(s.last()))
        }
    }
}

/// `str::lines`: split at `\n`, one trailing `\r` dropped from each line ended by
/// `\n`, no final empty line after a trailing `\n`.
pub open spec fn lines(s: Seq<char>) -> Seq<Seq<char>> {
    let (done, cur) = line_state(s);
    if cur.len() == 0 {
        done
    } else {
        done.push(cur)
    }
}

/// The views of a vector of character vectors.
pub open spec fn views(v: Seq<Vec<char>>) -> Seq<Seq<char>> {
    v.map_values(|l: Vec<char>| l@)
}

pub fn strip_cr_exec(line: Vec<char>) -> (r: Vec<char>)
    ensures
        r@ == strip_cr(line@),
{
    let mut line = line;
    if line.len() > 0 && line[line.len() - 1] == '\r' {
        line.pop();
    }
    line
}

/// `str::lines`.
pub fn split_lines(s: &Vec<char>) -> (r: Vec<Vec<char>>)
    ensures
        views(r@) == lines(s@),
{
    let mut done: Vec<Vec<char>> = Vec::new();
    let mut cur: Vec<char> = Vec::new();
    let mut i: usize = 0;
    while i < s.len()
        invariant
            i <= s.len(),
            (views(done@), cur@) == line_state(s@.take(i as int)),
        decreases s.len() - i,
    {
        assert(s@.take(i + 1).drop_last() =~= s@.take(i as int));
        if s[i] == '\n' {
            let line = strip_cr_exec(cur);
            done.push(line);
            cur = Vec::new();
            assert(views(done@) =~= line_state(s@.take(i + 1)).0);
        } else {
            cur.push(s[i]);
        }
        i += 1;
    }
    assert(s@.take(s@.len() as int) =~= s@);
    if cur.len() > 0 {
        done.push(cur);
        assert(views(done@) =~= lines(s@));
    }
    done
}

// ───────────────────────────── joining ─────────────────────────────

/// `parts.join(sep)`.
pub open spec fn join(parts: Seq<Seq<char>>, sep: Seq<char>) -> Seq<char>
    decreases parts.len(),
{
    if parts.len() == 0 {
        seq![]
    } else if parts.len() == 1 {
        parts[0]
    } else {
        join(parts.drop_last(), sep) + sep + parts.last()
    }
}

/// `parts.join(sep)`.
pub fn join_exec(parts: &Vec<Vec<char>>, sep: &Vec<char>) -> (r: Vec<char>)
    ensures
        r@ == join(views(parts@), sep@),
{
    let mut out: Vec<char> = Vec::new();
    let mut i: usize = 0;
    while i < parts.len()
        invariant
            i <= parts.len(),
            out@ == join(views(parts@).take(i as int), sep@),
        decreases parts.len() - i,
    {
        assert(views(parts@).take(i + 1).drop_last() =~= views(parts@).take(i as int));
        if i > 0 {
            push_chars(&mut out, sep);
        }
        push_chars(&mut out, &parts[i]);
        i += 1;
    }
    assert(views(parts@).take(parts@.len() as int) =~= views(parts@));
    out
}


// ───────────────────────────── reading joined lines back ─────────────────────────────

/// No line break in `l`.
pub open spec fn no_newline(l: Seq<char>) -> bool {
    forall|i: int| 0 <= i < l.len() ==> l[i] != '\n'
}

/// Each line without one trailing carriage return.
pub open spec fn strip_cr_all(ls: Seq<Seq<char>>) -> Seq<Seq<char>> {
    ls.map_values(|l: Seq<char>| strip_cr(l))
}

/// Text without a line break continues the pending line.
pub proof fn lemma_line_state_append(a: Seq<char>, b: Seq<char>)
    requires
        no_newline(b),
    ensures
        line_state(a + b) == (line_state(a).0, line_state(a).1 + b),
    decreases b.len(),
{
    if b.len() == 0 {
        assert(a + b =~= a);
        assert(line_state(a).1 + b =~= line_state(a).1);
    } else {
        lemma_line_state_append(a, b.drop_last());
        assert((a + b).drop_last() =~= a + b.drop_last());
        assert((line_state(a).1 + b.drop_last()).push(b.last()) =~= line_state(a).1 + b);
    }
}

/// Neither a finished nor the pending line holds a line break.
pub proof fn lemma_line_state_no_newline(s: Seq<char>)
    ensures
        forall|k: int| 0 <= k < line_state(s).0.len() ==> no_newline(#[trigger] line_state(s).0[k]),
        no_newline(line_state(s).1),
    decreases s.len(),
{
    if s.len() > 0 {
        lemma_line_state_no_newline(s.drop_last());
        let (done, cur) = line_state(s.drop_last());
        if s.last() == '\n' {
            assert(no_newline(strip_cr(cur)));
            assert forall|k: int| 0 <= k < done.push(strip_cr(cur)).len() implies no_newline(
                #[trigger] done.push(strip_cr(cur))[k],
            ) by {
                if k < done.len() {
                    assert(done.push(strip_cr(cur))[k] == done[k]);
                }
            }
        }
    }
}

/// The lines of a text hold no line break.
pub proof fn lemma_lines_no_newline(s: Seq<char>)
    ensures
        forall|k: int| 0 <= k < lines(s).len() ==> no_newline(#[trigger] lines(s)[k]),
{
    lemma_line_state_no_newline(s);
    let (done, cur) = line_state(s);
    if cur.len() > 0 {
        assert forall|k: int| 0 <= k < done.push(cur).len() implies no_newline(
            #[trigger] done.push(cur)[k],
        ) by {
            if k < done.len() {
                assert(done.push(cur)[k] == done[k]);
            }
        }
    }
}

/// Reading `ls` joined by line breaks: every line but the last is finished (and loses one
/// trailing carriage return); the last is pending.
pub proof fn lemma_line_state_join(ls: Seq<Seq<char>>)
    requires
        ls.len() >= 1,
        forall|k: int| 0 <= k < ls.len() ==> no_newline(#[trigger] ls[k]),
    ensures
        line_state(join(ls, "\n"@)) == (strip_cr_all(ls.drop_last()), ls.last()),
    decreases ls.len(),
{
    reveal_strlit("\n");
    if ls.len() == 1 {
        assert(no_newline(ls[0]));
        lemma_line_state_append(seq![], ls[0]);
        assert(Seq::<char>::empty() + ls[0] =~= ls[0]);
        assert(strip_cr_all(ls.drop_last()) =~= seq![]);
        assert(Seq::<char>::empty() + ls[0] =~= ls[0]);
    } else {
        let p = ls.drop_last();
        assert forall|k: int| 0 <= k < p.len() implies no_newline(#[trigger] p[k]) by {
            assert(p[k] == ls[k]);
        }
        lemma_line_state_join(p);
        let a = join(p, "\n"@) + "\n"@;
        assert(a.drop_last() =~= join(p, "\n"@));
        assert(a.last() == '\n');
        assert(strip_cr_all(p.drop_last()).push(strip_cr(p.last())) =~= strip_cr_all(p));
        assert(no_newline(ls.last()));
        lemma_line_state_append(a, ls.last());
        assert(Seq::<char>::empty() + ls.last() =~= ls.last());
    }
}

/// The lines of `ls` joined by line breaks.
pub proof fn lemma_lines_of_join(ls: Seq<Seq<char>>)
    requires
        ls.len() >= 1,
        forall|k: int| 0 <= k < ls.len() ==> no_newline(#[trigger] ls[k]),
    ensures
        lines(join(ls, "\n"@)) == (if ls.last().len() == 0 {
            strip_cr_all(ls.drop_last())
        } else {
            strip_cr_all(ls.drop_last()).push(ls.last())
        }),
{
    lemma_line_state_join(ls);
}

proof fn lemma_trim_start_index_cr(l: Seq<char>, i: int)
    requires
        l.len() > 0,
        l.last() == '\r',
        0 <= i <= l.len() - 1,
    ensures
        trim_start_index(l, i) == (if trim_start_index(l.drop_last(), i) < l.len() - 1 {
            trim_start_index(l.drop_last(), i)
        } else {
            l.len() as int
        }),
    decreases l.len() - i,
{
    let m = l.drop_last();
    assert(is_white_space('\r'));
    if i < m.len() {
        assert(l[i] == m[i]);
        if is_white_space(m[i]) {
            lemma_trim_start_index_cr(l, i + 1);
        }
    } else {
        assert(trim_start_index(l, i + 1) == l.len());
    }
}

proof fn lemma_trim_end_index_prefix(l: Seq<char>, m: Seq<char>, lo: int, j: int)
    requires
        m.len() <= l.len(),
        forall|k: int| 0 <= k < m.len() ==> l[k] == m[k],
        0 <= lo <= j <= m.len(),
    ensures
        trim_end_index(l, lo, j) == trim_end_index(m, lo, j),
    decreases j,
{
    if 0 < j && lo < j {
        assert(l[j - 1] == m[j - 1]);
        lemma_trim_end_index_prefix(l, m, lo, j - 1);
    }
}

/// A trailing carriage return is whitespace: trimming ignores it.
pub proof fn lemma_trim_strip_cr(l: Seq<char>)
    ensures
        trim(strip_cr(l)) == trim(l),
{
    if l.len() > 0 && l.last() == '\r' {
        let m = l.drop_last();
        assert(is_white_space('\r'));
        lemma_trim_start_index_cr(l, 0);
        let am = trim_start_index(m, 0);
        lemma_trim_start_index_bounds(m, 0);
        if am < m.len() {
            assert(trim_end_index(l, am, l.len() as int) == trim_end_index(l, am, m.len() as int));
            lemma_trim_end_index_prefix(l, m, am, m.len() as int);
            lemma_trim_end_index_bounds(m, am, m.len() as int);
            assert(trim(l) =~= trim(m));
        } else {
            assert(trim(l) =~= seq![]);
            assert(trim(m) =~= seq![]);
        }
    }
}

/// With a non-whitespace character at `k` in `s[lo..j]`, trimming the end stops after it.
pub proof fn lemma_trim_end_index_keeps(s: Seq<char>, lo: int, k: int, j: int)
    requires
        0 <= lo <= k < j <= s.len(),
        !is_white_space(s[k]),
    ensures
        trim_end_index(s, lo, j) > k,
    decreases j,
{
    if j - 1 > k && is_white_space(s[j - 1]) {
        lemma_trim_end_index_keeps(s, lo, k, j - 1);
    }
}

/// A text that starts with a key beginning and ending in non-whitespace still starts
/// with it once trimmed.
pub proof fn lemma_trim_keeps_key(s: Seq<char>, k: Seq<char>)
    requires
        starts_with(s, k),
        k.len() > 0,
        !is_white_space(k[0]),
        !is_white_space(k.last()),
    ensures
        starts_with(trim(s), k),
{
    assert(s[0] == s.subrange(0, k.len() as int)[0]);
    assert(trim_start_index(s, 0) == 0);
    assert(s[k.len() - 1] == s.subrange(0, k.len() as int)[k.len() - 1]);
    lemma_trim_end_index_keeps(s, 0, k.len() - 1, s.len() as int);
    lemma_trim_end_index_bounds(s, 0, s.len() as int);
    assert(trim(s).subrange(0, k.len() as int) =~= s.subrange(0, k.len() as int));
}

/// Text without whitespace is its own trim.
pub proof fn lemma_trim_plain(s: Seq<char>)
    requires
        forall|i: int| 0 <= i < s.len() ==> !is_white_space(#[trigger] s[i]),
    ensures
        trim(s) == s,
{
    if s.len() > 0 {
        assert(trim_start_index(s, 0) == 0);
        assert(trim_end_index(s, 0, s.len() as int) == s.len());
        assert(trim(s) =~= s);
    } else {
        assert(trim(s) =~= s);
    }
}

} // verus!
