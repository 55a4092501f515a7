//! Character classes, string helpers, and decimal conversion used by every
//! stage of the compiler.
use vstd::prelude::*;

verus! {

// ---------------------------------------------------------------------------
// Character classes
// ---------------------------------------------------------------------------
pub open spec fn is_digit_char(c: char) -> bool {
    48 <= c as u32 <= 57
}

pub open spec fn is_alpha_char(c: char) -> bool {
    (65 <= c as u32 <= 90) || (97 <= c as u32 <= 122)
}

/// Characters that may start an identifier: a letter or an underscore.
pub open spec fn is_ident_start_char(c: char) -> bool {
    is_alpha_char(c) || c == '_'
}

/// Characters that may continue an identifier: a letter, a digit or an
/// underscore.
pub open spec fn is_word_char(c: char) -> bool {
    is_alpha_char(c) || is_digit_char(c) || c == '_'
}

pub fn digit_char(c: char) -> (r: bool)
    ensures
        r == is_digit_char(c),
{
    let u = c as u32;
    48 <= u && u <= 57
}

pub fn alpha_char(c: char) -> (r: bool)
    ensures
        r == is_alpha_char(c),
{
    let u = c as u32;
    (65 <= u && u <= 90) || (97 <= u && u <= 122)
}

pub fn ident_start_char(c: char) -> (r: bool)
    ensures
        r == is_ident_start_char(c),
{
    alpha_char(c) || c == '_'
}

pub fn word_char(c: char) -> (r: bool)
    ensures
        r == is_word_char(c),
{
    alpha_char(c) || digit_char(c) || c == '_'
}

// ---------------------------------------------------------------------------
// Strings
// ---------------------------------------------------------------------------
/// Relies on String::push, which appends one character at the end of the
/// string.
#[verifier::external_body]
pub fn push_char(s: &mut String, c: char)
    ensures
        final(s)@ == old(s)@.push(c),
{
    s.push(c)
}

/// The characters of a string slice, as a vector.
pub fn str_to_chars(s: &str) -> (r: Vec<char>)
    ensures
        r@ == s@,
{
    let n = s.unicode_len();
    let mut r: Vec<char> = Vec::new();
    let mut i: usize = 0;
    while i < n
        invariant
            i <= n,
            n == s@.len(),
            r@ == s@.subrange(0, i as int),
        decreases n - i,
    {
        r.push(s.get_char(i));
        i = i + 1;
        proof {
            assert(r@ =~= s@.subrange(0, i as int));
        }
    }
    proof {
        assert(r@ =~= s@);
    }
    r
}

/// Whether two string slices hold the same characters.
pub fn str_eq(a: &str, b: &str) -> (r: bool)
    ensures
        r == (a@ == b@),
{
    let n = a.unicode_len();
    let m = b.unicode_len();
    if n != m {
        proof {
            assert(a@.len() != b@.len());
        }
        return false;
    }
    let mut i: usize = 0;
    while i < n
        invariant
            i <= n,
            n == a@.len(),
            n == b@.len(),
            forall|k: int| 0 <= k < i ==> a@[k] == b@[k],
        decreases n - i,
    {
        if a.get_char(i) != b.get_char(i) {
            return false;
        }
        i = i + 1;
    }
    proof {
        assert(a@ =~= b@);
    }
    true
}

// ---------------------------------------------------------------------------
// Decimal rendering
// ---------------------------------------------------------------------------
/// The decimal digits of a nonnegative integer, most significant first.
pub open spec fn dec_nat(n: nat) -> Seq<char>
    decreases n,
{
    if n < 10 {
        seq![digit_to_char(n)]
    } else {
        dec_nat(n / 10).push(digit_to_char(n % 10))
    }
}

pub open spec fn digit_to_char(d: nat) -> char {
    ((d + 48) as u8) as char
}

/// The decimal rendering of an integer, with a leading minus sign when it is
/// negative.
pub open spec fn dec_int(n: int) -> Seq<char> {
    if n < 0 {
        seq!['-'] + dec_nat((-n) as nat)
    } else {
        dec_nat(n as nat)
    }
}

pub fn u64_to_dec(n: u64) -> (s: String)
    ensures
        s@ == dec_nat(n as nat),
    decreases n,
{
    if n < 10 {
        let mut s = String::new();
        let d: u8 = 48 + (n as u8);
        push_char(&mut s, d as char);
        proof {
            assert(s@ =~= dec_nat(n as nat));
        }
        s
    } else {
        let mut s = u64_to_dec(n / 10);
        let d: u8 = 48 + ((n % 10) as u8);
        push_char(&mut s, d as char);
        s
    }
}

pub fn u32_to_dec(n: u32) -> (s: String)
    ensures
        s@ == dec_nat(n as nat),
{
    u64_to_dec(n as u64)
}

pub fn i32_to_dec(n: i32) -> (s: String)
    ensures
        s@ == dec_int(n as int),
{
    if n < 0 {
        let mut s = String::new();
        push_char(&mut s, '-');
        let mag: u64 = (-(n as i64)) as u64;
        let digits = u64_to_dec(mag);
        s.append(digits.as_str());
        proof {
            assert(s@ =~= dec_int(n as int));
        }
        s
    } else {
        u64_to_dec(n as u64)
    }
}

// ---------------------------------------------------------------------------
// Decimal parsing
// ---------------------------------------------------------------------------
/// The value of a sequence of decimal digits, most significant first.
pub open spec fn int_of_digits(s: Seq<char>) -> int
    decreases s.len(),
{
    if s.len() == 0 {
        0
    } else {
        int_of_digits(s.drop_last()) * 10 + (s.last() as u32 - 48)
    }
}

pub open spec fn all_digits(s: Seq<char>) -> bool {
    forall|k: int| 0 <= k < s.len() ==> is_digit_char(s[k])
}

/// Whether a lexeme is a well-formed nonnegative integer literal whose value
/// fits in an `i32`.
pub open spec fn is_i32_literal(s: Seq<char>) -> bool {
    s.len() > 0 && all_digits(s) && int_of_digits(s) <= i32::MAX as int
}

proof fn lemma_int_of_digits_nonneg(s: Seq<char>)
    requires
        all_digits(s),
    ensures
        int_of_digits(s) >= 0,
    decreases s.len(),
{
    if s.len() > 0 {
        assert(all_digits(s.drop_last()));
        lemma_int_of_digits_nonneg(s.drop_last());
    }
}

/// Parses a nonnegative decimal integer that fits in an `i32`. Returns `None`
/// when the text is empty, holds a character that is not a digit, or encodes a
/// value above `i32::MAX`.
pub fn parse_i32(s: &str) -> (r: Option<i32>)
    ensures
        is_i32_literal(s@) ==> r == Some((int_of_digits(s@) as i32)),
        !is_i32_literal(s@) ==> r is None,
{
    let n = s.unicode_len();
    if n == 0 {
        return None;
    }
    let mut acc: i64 = 0;
    let mut i: usize = 0;
    while i < n
        invariant
            i <= n,
            n == s@.len(),
            n > 0,
            all_digits(s@.subrange(0, i as int)),
            acc == int_of_digits(s@.subrange(0, i as int)),
            0 <= acc <= i32::MAX,
        decreases n - i,
    {
        let c = s.get_char(i);
        if !digit_char(c) {
            proof {
                assert(!all_digits(s@)) by {
                    assert(!is_digit_char(s@[i as int]));
                }
            }
            return None;
        }
        let d: i64 = (c as u32 - 48) as i64;
        let next: i64 = acc * 10 + d;
        proof {
            assert(s@.subrange(0, i + 1 as int).drop_last() =~= s@.subrange(0, i as int));
            assert(s@.subrange(0, i + 1 as int).last() == s@[i as int]);
        }
        if next > i32::MAX as i64 {
            proof {
                if all_digits(s@) {
                    lemma_int_of_digits_prefix_monotonic(s@, i + 1 as int);
                }
            }
            return None;
        }
        acc = next;
        i = i + 1;
    }
    proof {
        assert(s@.subrange(0, n as int) =~= s@);
    }
    Some(acc as i32)
}

/// Once a prefix of a digit string exceeds `i32::MAX`, the whole string does.
proof fn lemma_int_of_digits_prefix_monotonic(s: Seq<char>, k: int)
    requires
        0 <= k <= s.len(),
        all_digits(s),
        int_of_digits(s.subrange(0, k)) > i32::MAX as int,
    ensures
        int_of_digits(s) > i32::MAX as int,
    decreases s.len() - k,
{
    if k < s.len() {
        assert(s.subrange(0, k + 1).drop_last() =~= s.subrange(0, k));
        assert(is_digit_char(s.subrange(0, k + 1).last())) by {
            assert(s.subrange(0, k + 1).last() == s[k]);
        }
        lemma_int_of_digits_prefix_monotonic(s, k + 1);
    } else {
        assert(s.subrange(0, k) =~= s);
    }
}

} // verus!
