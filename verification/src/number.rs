//! Decimal text of integers: what `to_string()` prints and what `str::parse` accepts.
use vstd::prelude::*;
use crate::text::{is_ascii_digit, push_chars, slice_of};

verus! {

/// The ASCII digit for `d < 10`.
pub open spec fn digit_char(d: nat) -> char {
    if d == 0 {
        '0'
    } else if d == 1 {
        '1'
    } else if d == 2 {
        '2'
    } else if d == 3 {
        '3'
    } else if d == 4 {
        '4'
    } else if d == 5 {
        '5'
    } else if d == 6 {
        '6'
    } else if d == 7 {
        '7'
    } else if d == 8 {
        '8'
    } else {
        '9'
    }
}

/// The value of an ASCII digit.
pub open spec fn digit_value(c: char) -> nat {
    (c as u32 - '0' as u32) as nat
}

/// Decimal text of `n`, without leading zeros (`n.to_string()`).
pub open spec fn decimal(n: nat) -> Seq<char>
    decreases n,
{
    if n < 10 {
        seq![digit_char(n)]
    } else {
        decimal(n / 10).push(digit_char(n % 10))
    }
}

/// Decimal text of a signed integer (`i.to_string()`).
pub open spec fn signed_decimal(n: int) -> Seq<char> {
    if n < 0 {
        seq!['-'] + decimal((-n) as nat)
    } else {
        decimal(n as nat)
    }
}

pub open spec fn all_digits(s: Seq<char>) -> bool {
    forall|i: int| 0 <= i < s.len() ==> is_ascii_digit(#[trigger] s[i])
}

/// The number that a string of decimal digits denotes.
pub open spec fn digits_value(s: Seq<char>) -> nat
    decreases s.len(),
{
    if s.len() == 0 {
        0
    } else {
        digits_value(s.drop_last()) * 10 + digit_value(s.last())
    }
}

/// `s` without one leading `+`.
pub open spec fn unsigned_digits(s: Seq<char>) -> Seq<char> {
    if s.len() > 0 && s[0] == '+' {
        s.drop_first()
    } else {
        s
    }
}

/// What `s.parse::<uN>()` gives, where `max` is `uN::MAX`: an optional `+`, then one or
/// more ASCII digits whose value is at most `max`.
pub open spec fn parse_unsigned(s: Seq<char>, max: nat) -> Option<nat> {
    let d = unsigned_digits(s);
    if d.len() > 0 && all_digits(d) && digits_value(d) <= max {
        Some(digits_value(d))
    } else {
        None
    }
}

/// What `s.parse::<iN>()` gives, where `min..=max` is the range of `iN`: an optional sign,
/// then one or more ASCII digits whose signed value lies in the range.
pub open spec fn parse_signed(s: Seq<char>, min: int, max: int) -> Option<int> {
    if s.len() > 0 && s[0] == '-' {
        let d = s.drop_first();
        if d.len() > 0 && all_digits(d) && min <= -(digits_value(d) as int) {
            Some(-(digits_value(d) as int))
        } else {
            None
        }
    } else {
        match parse_unsigned(s, max as nat) {
            Some(v) => Some(v as int),
            None => None,
        }
    }
}

pub open spec fn parse_u32(s: Seq<char>) -> Option<u32> {
    match parse_unsigned(s, u32::MAX as nat) {
        Some(v) => Some(v as u32),
        None => None,
    }
}

pub open spec fn parse_u64(s: Seq<char>) -> Option<u64> {
    match parse_unsigned(s, u64::MAX as nat) {
        Some(v) => Some(v as u64),
        None => None,
    }
}

pub open spec fn parse_i32(s: Seq<char>) -> Option<i32> {
    match parse_signed(s, i32::MIN as int, i32::MAX as int) {
        Some(v) => Some(v as i32),
        None => None,
    }
}

fn digit_char_exec(d: u64) -> (c: char)
    requires
        d < 10,
    ensures
        c == digit_char(d as nat),
{
    if d == 0 {
        '0'
    } else if d == 1 {
        '1'
    } else if d == 2 {
        '2'
    } else if d == 3 {
        '3'
    } else if d == 4 {
        '4'
    } else if d == 5 {
        '5'
    } else if d == 6 {
        '6'
    } else if d == 7 {
        '7'
    } else if d == 8 {
        '8'
    } else {
        '9'
    }
}

/// `n.to_string()`.
pub fn decimal_exec(n: u64) -> (r: Vec<char>)
    ensures
        r@ == decimal(n as nat),
{
    let mut out: Vec<char> = Vec::new();
    out.push(digit_char_exec(n % 10));
    let mut m: u64 = n / 10;
    assert(n >= 10 ==> decimal(n as nat) == decimal(m as nat).push(out@[0]));
    assert(decimal(n as nat) =~= (if m == 0 { seq![] } else { decimal(m as nat) }) + out@);
    while m > 0
        invariant
            decimal(n as nat) == (if m == 0 { seq![] } else { decimal(m as nat) }) + out@,
        decreases m,
    {
        let c = digit_char_exec(m % 10);
        let ghost old_out = out@;
        let ghost old_m = m;
        out.insert(0, c);
        m = m / 10;
        proof {
            assert(out@ =~= seq![c] + old_out);
            if old_m < 10 {
                assert(decimal(old_m as nat) == seq![c]);
            } else {
                assert(decimal(old_m as nat) == decimal(m as nat).push(c));
            }
            assert(decimal(n as nat) =~= (if m == 0 { seq![] } else { decimal(m as nat) }) + out@);
        }
    }
    out
}

/// `n.to_string()` for a signed integer.
pub fn signed_decimal_exec(n: i64) -> (r: Vec<char>)
    ensures
        r@ == signed_decimal(n as int),
{
    if n < 0 {
        let mag: u64 = if n == i64::MIN {
            9223372036854775808u64
        } else {
            (-n) as u64
        };
        let digits = decimal_exec(mag);
        let mut out: Vec<char> = Vec::new();
        out.push('-');
        push_chars(&mut out, &digits);
        assert(out@ =~= seq!['-'] + digits@);
        out
    } else {
        decimal_exec(n as u64)
    }
}

pub proof fn lemma_digits_value_take_monotone(s: Seq<char>, k: int, j: int)
    requires
        0 <= k <= j <= s.len(),
    ensures
        digits_value(s.take(k)) <= digits_value(s.take(j)),
    decreases j - k,
{
    if k < j {
        lemma_digits_value_take_monotone(s, k, j - 1);
        assert(s.take(j).drop_last() =~= s.take(j - 1));
    }
}

/// The value of a non-empty run of ASCII digits when it is at most `max`.
fn parse_digits(d: &Vec<char>, max: u64) -> (r: Option<u64>)
    ensures
        r matches Some(v) ==> d@.len() > 0 && all_digits(d@) && digits_value(d@) == v && v <= max,
        r is None ==> !(d@.len() > 0 && all_digits(d@) && digits_value(d@) <= max),
{
    if d.len() == 0 {
        return None;
    }
    let mut i: usize = 0;
    while i < d.len()
        invariant
            i <= d.len(),
            forall|j: int| 0 <= j < i ==> is_ascii_digit(#[trigger] d@[j]),
        decreases d.len() - i,
    {
        if !('0' <= d[i] && d[i] <= '9') {
            return None;
        }
        i += 1;
    }
    let mut v: u64 = 0;
    let mut k: usize = 0;
    while k < d.len()
        invariant
            k <= d.len(),
            all_digits(d@),
            v == digits_value(d@.take(k as int)),
            v <= max,
        decreases d.len() - k,
    {
        assert(d@.take(k + 1).drop_last() =~= d@.take(k as int));
        assert(is_ascii_digit(d@[k as int]));
        let c = d[k];
        let dv: u64 = (c as u32 - '0' as u32) as u64;
        assert(dv < 10);
        if dv > max || v > (max - dv) / 10 {
            assert(v * 10 + dv > max) by (nonlinear_arith)
                requires
                    dv > max || v > (max - dv) / 10,
                    dv < 10,
            ;
            proof {
                lemma_digits_value_take_monotone(d@, k + 1, d@.len() as int);
                assert(d@.take(d@.len() as int) =~= d@);
            }
            return None;
        }
        assert(v * 10 + dv <= max) by (nonlinear_arith)
            requires
                v <= (max - dv) / 10,
                dv <= max,
        ;
        v = v * 10 + dv;
        k += 1;
    }
    assert(d@.take(d@.len() as int) =~= d@);
    Some(v)
}

/// `s.parse::<u64>().ok()`.
pub fn parse_u64_exec(s: &Vec<char>) -> (r: Option<u64>)
    ensures
        r == parse_u64(s@),
{
    let d = if s.len() > 0 && s[0] == '+' {
        slice_of(s, 1, s.len())
    } else {
        s.clone()
    };
    assert(d@ =~= unsigned_digits(s@));
    parse_digits(&d, u64::MAX)
}

/// `s.parse::<u32>().ok()`.
pub fn parse_u32_exec(s: &Vec<char>) -> (r: Option<u32>)
    ensures
        r == parse_u32(s@),
{
    let d = if s.len() > 0 && s[0] == '+' {
        slice_of(s, 1, s.len())
    } else {
        s.clone()
    };
    assert(d@ =~= unsigned_digits(s@));
    match parse_digits(&d, u32::MAX as u64) {
        Some(v) => Some(v as u32),
        None => None,
    }
}

/// `s.parse::<i32>().ok()`.
pub fn parse_i32_exec(s: &Vec<char>) -> (r: Option<i32>)
    ensures
        r == parse_i32(s@),
{
    if s.len() > 0 && s[0] == '-' {
        let d = slice_of(s, 1, s.len());
        assert(d@ =~= s@.drop_first());
        match parse_digits(&d, 2147483648u64) {
            Some(v) => Some((0 - (v as i64)) as i32),
            None => None,
        }
    } else {
        let d = if s.len() > 0 && s[0] == '+' {
            slice_of(s, 1, s.len())
        } else {
            s.clone()
        };
        assert(d@ =~= unsigned_digits(s@));
        match parse_digits(&d, i32::MAX as u64) {
            Some(v) => Some(v as i32),
            None => None,
        }
    }
}

} // verus!
