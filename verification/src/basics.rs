//! Small arithmetic and ownership helpers.

use crate::text::find_char;
use crate::text::lemma_find_char_at;
use vstd::math::abs;
use vstd::prelude::*;
use vstd::string::StrSliceExecFns;
use vstd::string::StringExecFns;

verus! {

/// Sum of two machine integers; the caller keeps the sum in range.
pub fn add_numbers(a: i32, b: i32) -> (r: i32)
    requires
        i32::MIN <= a + b <= i32::MAX,
    ensures
        r == a + b,
{
    a + b
}

/// Sum of two machine integers; the caller keeps the sum in range.
pub fn add(a: i32, b: i32) -> (r: i32)
    requires
        i32::MIN <= a + b <= i32::MAX,
    ensures
        r == a + b,
{
    a + b
}

/// Quotient of division truncated toward zero, as Rust's `/` computes it.
pub open spec fn quotient_toward_zero(a: int, b: int) -> int {
    let q = (abs(a) / abs(b)) as int;
    if (a < 0) != (b < 0) {
        -q
    } else {
        q
    }
}

/// Remainder matching `quotient_toward_zero`, as Rust's `%` computes it.
pub open spec fn remainder_toward_zero(a: int, b: int) -> int {
    let m = (abs(a) % abs(b)) as int;
    if a < 0 {
        -m
    } else {
        m
    }
}

/// Quotient and remainder of truncating integer division.
pub fn divide(dividend: i32, divisor: i32) -> (r: (i32, i32))
    requires
        divisor != 0,
        !(dividend == i32::MIN && divisor == -1),
    ensures
        r.0 == quotient_toward_zero(dividend as int, divisor as int),
        r.1 == remainder_toward_zero(dividend as int, divisor as int),
{
    let a64: i64 = dividend as i64;
    let b64: i64 = divisor as i64;
    let aa: u64 = (if a64 < 0 { -a64 } else { a64 }) as u64;
    let bb: u64 = (if b64 < 0 { -b64 } else { b64 }) as u64;
    let q: u64 = aa / bb;
    let m: u64 = aa % bb;
    proof {
        assert(aa == abs(dividend as int));
        assert(bb == abs(divisor as int));
        vstd::arithmetic::div_mod::lemma_div_is_ordered_by_denominator(aa as int, 1, bb as int);
        vstd::arithmetic::div_mod::lemma_div_basics(aa as int);
        assert(q <= aa);
        assert(m < bb);
    }
    let neg: bool = (dividend < 0) != (divisor < 0);
    proof {
        if bb == 1 {
            assert(q == aa);
        } else {
            vstd::arithmetic::div_mod::lemma_div_is_ordered_by_denominator(aa as int, 2, bb as int);
            vstd::arithmetic::div_mod::lemma_div_is_ordered(aa as int, 0x8000_0000, 2);
            assert(q <= 0x4000_0000);
        }
        assert(aa == 0x8000_0000 && bb == 1 ==> neg);
    }
    let qs: i64 = if neg { -(q as i64) } else { q as i64 };
    let ms: i64 = if dividend < 0 { -(m as i64) } else { m as i64 };
    (qs as i32, ms as i32)
}

/// A fresh owned string with fixed text.
pub fn gives_ownership() -> (s: String)
    ensures
        s@ == "yours"@,
{
    "yours".to_owned()
}

/// Hands the string straight back to the caller.
pub fn takes_and_gives_back(a_string: String) -> (s: String)
    ensures
        s == a_string,
{
    a_string
}

/// The string's length in characters; for ASCII text — every character
/// one byte — that is also its length in bytes.
pub fn calculate_length(s: &String) -> (n: usize)
    ensures
        n == s@.len(),
{
    s.as_str().unicode_len()
}

/// Appends a greeting tail to the string.
pub fn change(some_string: &mut String)
    ensures
        final(some_string)@ == old(some_string)@ + ", world"@,
{
    some_string.append(", world");
}

/// The string's first word: everything before the first space, or the
/// whole string when it has no space.
pub fn first_word(s: &String) -> (w: &str)
    ensures
        w@ == s@.take(find_char(s@, ' ')),
{
    let text = s.as_str();
    let n = text.unicode_len();
    let mut i: usize = 0;
    while i < n && text.get_char(i) != ' '
        invariant
            0 <= i <= n,
            n == text@.len(),
            text@ == s@,
            forall|j: int| 0 <= j < i ==> text@[j] != ' ',
        decreases n - i,
    {
        i = i + 1;
    }
    proof {
        lemma_find_char_at(s@, ' ', i as int);
    }
    let w = text.substring_char(0, i);
    proof {
        assert(w@ =~= s@.take(find_char(s@, ' ')));
    }
    w
}

} // verus!
