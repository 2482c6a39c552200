//! Byte-level building blocks: runs of bytes, decimal numbers and UTF-8 text.
use vstd::prelude::*;
use vstd::string::StringSliceAdditionalSpecFns;
use vstd::utf8::*;

use crate::error::ParseError;

verus! {

broadcast use encode_utf8_decode_utf8;

pub const TAB: u8 = 9;
pub const NEWLINE: u8 = 10;
pub const CARRIAGE_RETURN: u8 = 13;
pub const PLUS: u8 = 43;
pub const MINUS: u8 = 45;
pub const DOT: u8 = 46;
pub const COMMA: u8 = 44;
pub const COLON: u8 = 58;
pub const AT: u8 = 64;

/// Number of bytes from `p` on before the first `b` or the end of `s`.
pub open spec fn run_len(s: Seq<u8>, p: int, b: u8) -> nat
    decreases s.len() - p,
{
    if p < 0 || p >= s.len() || s[p] == b {
        0
    } else {
        1 + run_len(s, p + 1, b)
    }
}

pub proof fn lemma_run_len(s: Seq<u8>, p: int, j: int, b: u8)
    requires
        0 <= p <= j <= s.len(),
        forall|k: int| p <= k < j ==> s[k] != b,
        j == s.len() || s[j] == b,
    ensures
        run_len(s, p, b) == j - p,
    decreases j - p,
{
    if p < j {
        lemma_run_len(s, p + 1, j, b);
    }
}

pub open spec fn is_digit(c: u8) -> bool {
    48 <= c <= 57
}

/// Number of ASCII digits from `p` on.
pub open spec fn digit_run(s: Seq<u8>, p: int) -> nat
    decreases s.len() - p,
{
    if p < 0 || p >= s.len() || !is_digit(s[p]) {
        0
    } else {
        1 + digit_run(s, p + 1)
    }
}

pub proof fn lemma_digit_run(s: Seq<u8>, p: int, j: int)
    requires
        0 <= p <= j <= s.len(),
        forall|k: int| p <= k < j ==> is_digit(s[k]),
        j == s.len() || !is_digit(s[j]),
    ensures
        digit_run(s, p) == j - p,
    decreases j - p,
{
    if p < j {
        lemma_digit_run(s, p + 1, j);
    }
}

/// The number that the decimal digits `s[a..b]` write.
pub open spec fn digits_value(s: Seq<u8>, a: int, b: int) -> nat
    decreases b - a,
{
    if b <= a {
        0
    } else {
        digits_value(s, a, b - 1) * 10 + (s[b - 1] - 48) as nat
    }
}

pub proof fn lemma_digits_value_grows(s: Seq<u8>, a: int, k: int, b: int)
    requires
        a <= k <= b,
        forall|i: int| a <= i < b ==> is_digit(s[i]),
    ensures
        digits_value(s, a, k) <= digits_value(s, a, b),
    decreases b - k,
{
    if k < b {
        lemma_digits_value_grows(s, a, k, b - 1);
    }
}

/// `s[a..b]` is one or more decimal digits.
pub open spec fn all_digits(s: Seq<u8>, a: int, b: int) -> bool {
    0 <= a < b <= s.len() && forall|k: int| a <= k < b ==> is_digit(s[k])
}

/// `s[a..]` is one or more decimal digits.
pub open spec fn all_digits_from(s: Seq<u8>, a: int) -> bool {
    all_digits(s, a, s.len() as int)
}

/// What `str::parse` yields for an unsigned integer type: an optional `+`,
/// then one or more digits.
pub open spec fn unsigned_text(s: Seq<u8>) -> Option<nat> {
    let a: int = if s.len() > 0 && s[0] == PLUS { 1 } else { 0 };
    if all_digits_from(s, a) {
        Some(digits_value(s, a, s.len() as int))
    } else {
        None
    }
}

/// What `str::parse` yields for a signed integer type: an optional `+` or `-`,
/// then one or more digits.
pub open spec fn signed_text(s: Seq<u8>) -> Option<int> {
    if s.len() > 0 && s[0] == MINUS {
        if all_digits_from(s, 1) {
            Some(-digits_value(s, 1, s.len() as int))
        } else {
            None
        }
    } else {
        match unsigned_text(s) {
            Some(n) => Some(n as int),
            None => None,
        }
    }
}

pub open spec fn at_most(v: Option<nat>, max: nat) -> Option<nat> {
    match v {
        Some(n) => if n <= max { Some(n) } else { None },
        None => None,
    }
}

/// Reads the digits `s[a..b]` as a number no larger than `max`.
pub fn digits_at_most(s: &[u8], a: usize, b: usize, max: u64) -> (r: Option<u64>)
    requires
        a <= b <= s@.len(),
    ensures
        r matches Some(n) ==> all_digits(s@, a as int, b as int) && n == digits_value(s@, a as int, b as int) && n <= max,
        r is None ==> !all_digits(s@, a as int, b as int) || digits_value(s@, a as int, b as int) > max,
{
    if a >= b {
        return None;
    }
    let mut acc: u64 = 0;
    let mut i: usize = a;
    while i < b
        invariant
            a <= i <= b <= s@.len(),
            forall|k: int| a <= k < i ==> is_digit(s@[k]),
            acc == digits_value(s@, a as int, i as int),
            acc <= max,
        decreases b - i,
    {
        let c = s[i];
        if c < 48 || c > 57 {
            return None;
        }
        let d = (c - 48) as u64;
        if d > max || acc > (max - d) / 10 {
            proof {
                assert(digits_value(s@, a as int, i as int + 1) > max) by (nonlinear_arith)
                    requires
                        d > max || acc > (max - d) / 10,
                        digits_value(s@, a as int, i as int + 1) == acc * 10 + d,
                        d <= 9,
                ;
                if all_digits(s@, a as int, b as int) {
                    lemma_digits_value_grows(s@, a as int, i as int + 1, b as int);
                }
            }
            return None;
        }
        proof {
            assert(acc * 10 + d <= max) by (nonlinear_arith)
                requires
                    acc <= (max - d) / 10,
                    d <= max,
            ;
        }
        acc = acc * 10 + d;
        i = i + 1;
    }
    Some(acc)
}

/// Reads an unsigned decimal no larger than `max`, as `str::parse` does.
pub fn parse_unsigned(s: &[u8], max: u64) -> (r: Option<u64>)
    ensures
        r matches Some(n) ==> at_most(unsigned_text(s@), max as nat) == Some(n as nat),
        r is None ==> at_most(unsigned_text(s@), max as nat) is None,
{
    let a: usize = if s.len() > 0 && s[0] == PLUS { 1 } else { 0 };
    digits_at_most(s, a, s.len(), max)
}

/// Reads a decimal that fits an `i32`, as `str::parse` does.
pub fn parse_i32(s: &[u8]) -> (r: Option<i32>)
    ensures
        r matches Some(n) ==> signed_text(s@) == Some(n as int),
        r is None ==> !(signed_text(s@) matches Some(n) && i32::MIN <= n <= i32::MAX),
{
    if s.len() > 0 && s[0] == MINUS {
        match digits_at_most(s, 1, s.len(), 0x8000_0000) {
            Some(n) => Some((0 - (n as i64)) as i32),
            None => None,
        }
    } else {
        let a: usize = if s.len() > 0 && s[0] == PLUS { 1 } else { 0 };
        match digits_at_most(s, a, s.len(), 0x7fff_ffff) {
            Some(n) => Some(n as i32),
            None => None,
        }
    }
}

/// Relies on `std::str::from_utf8`: it succeeds exactly on well-formed UTF-8,
/// and the string slice it returns is made of the very same bytes.
#[verifier::external_body]
fn utf8_str(b: &[u8]) -> (r: Option<&str>)
    ensures
        r is Some <==> valid_utf8(b@),
        r matches Some(t) ==> t.spec_bytes() == b@,
{
    std::str::from_utf8(b).ok()
}

/// What a field's bytes mean as text, if they are well-formed UTF-8.
pub open spec fn text_of(b: Seq<u8>) -> Result<Seq<char>, ParseError> {
    if valid_utf8(b) {
        Ok(decode_utf8(b))
    } else {
        Err(ParseError::InvalidEncoding)
    }
}

/// Decodes a field's bytes into an owned string.
pub fn decode_text(b: &[u8]) -> (r: Result<String, ParseError>)
    ensures
        r matches Ok(t) ==> text_of(b@) == Ok::<Seq<char>, ParseError>(t@),
        r matches Err(e) ==> text_of(b@) == Err::<Seq<char>, ParseError>(e),
{
    match utf8_str(b) {
        Some(t) => {
            let owned = t.to_owned();
            proof {
                assert(decode_utf8(encode_utf8(t@)) == t@);
            }
            Ok(owned)
        },
        None => Err(ParseError::InvalidEncoding),
    }
}

} // verus!
