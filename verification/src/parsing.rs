//! Reading numbers and words out of text, with the accepted language and
//! each failure pinned down exactly.

use crate::numtext::{dec_val, is_dec_string, parse_u32};
use crate::text::str_eq;
use vstd::prelude::*;
use vstd::string::StrSliceExecFns;

verus! {

/// Why a number failed to parse.
#[derive(Clone, Copy, Debug, PartialEq, Eq, Structural)]
pub enum ParseError {
    /// The text was empty.
    Empty,
    /// A character was no digit — a lone sign counts here too.
    InvalidDigit,
    /// The number does not fit the target type.
    OutOfRange,
}

/// The digits of an integer literal: everything after an optional sign.
pub open spec fn digits_part(s: Seq<char>) -> Seq<char> {
    if s.len() > 0 && (s[0] == '+' || s[0] == '-') {
        s.drop_first()
    } else {
        s
    }
}

/// Whether the literal denotes a negative number.
pub open spec fn is_negative_literal(s: Seq<char>) -> bool {
    s.len() > 0 && s[0] == '-'
}

/// What parsing text as a signed machine integer yields: the denoted value
/// when the text is an optional sign followed by digits and the value fits,
/// and the exact error otherwise.
pub open spec fn spec_parse_i32(s: Seq<char>) -> Result<int, ParseError> {
    if s.len() == 0 {
        Err(ParseError::Empty)
    } else if !is_dec_string(digits_part(s)) {
        Err(ParseError::InvalidDigit)
    } else {
        let v = if is_negative_literal(s) {
            -dec_val(digits_part(s))
        } else {
            dec_val(digits_part(s))
        };
        if v < i32::MIN || v > i32::MAX {
            Err(ParseError::OutOfRange)
        } else {
            Ok(v)
        }
    }
}

/// Whether every character of `s` is a decimal digit and there is at
/// least one.
fn all_dec_digits(s: &str) -> (r: bool)
    ensures
        r == is_dec_string(s@),
{
    let n = s.unicode_len();
    if n == 0 {
        return false;
    }
    let mut i: usize = 0;
    while i < n
        invariant
            0 <= i <= n,
            n == s@.len(),
            forall|j: int| 0 <= j < i ==> crate::numtext::is_dec_digit(#[trigger] s@[j]),
        decreases n - i,
    {
        let code: u32 = s.get_char(i) as u32;
        if code < 48 || code > 57 {
            return false;
        }
        i = i + 1;
    }
    true
}

/// Reads a signed machine integer: an optional `+` or `-`, then digits.
/// Returns the denoted value, or says exactly what was wrong: `Empty` for
/// empty text, `InvalidDigit` for any non-digit (a lone sign included),
/// `OutOfRange` for a well-formed number outside the type's range.
pub fn parse_number(s: &str) -> (r: Result<i32, ParseError>)
    ensures
        r matches Ok(n) ==> spec_parse_i32(s@) == Ok::<int, ParseError>(n as int),
        r matches Err(e) ==> spec_parse_i32(s@) == Err::<int, ParseError>(e),
{
    let n = s.unicode_len();
    if n == 0 {
        return Err(ParseError::Empty);
    }
    let first = s.get_char(0);
    let negative = first == '-';
    let start: usize = if first == '-' || first == '+' {
        1
    } else {
        0
    };
    let digits = s.substring_char(start, n);
    proof {
        assert(digits@ =~= digits_part(s@));
    }
    match parse_u32(digits) {
        Some(magnitude) => {
            if negative {
                if magnitude > 0x8000_0000u32 {
                    Err(ParseError::OutOfRange)
                } else {
                    Ok((-(magnitude as i64)) as i32)
                }
            } else {
                if magnitude > 0x7fff_ffffu32 {
                    Err(ParseError::OutOfRange)
                } else {
                    Ok(magnitude as i32)
                }
            }
        },
        None => {
            if all_dec_digits(digits) {
                proof {
                    crate::numtext::lemma_dec_val_nonneg(digits@);
                }
                Err(ParseError::OutOfRange)
            } else {
                Err(ParseError::InvalidDigit)
            }
        },
    }
}

/// The sum of two numbers given as text. Each operand is read as
/// `parse_number` reads it; the first failure is reported, the left
/// operand's first. The caller keeps the sum representable.
pub fn add_numbers_from_strings(a: &str, b: &str) -> (r: Result<i32, ParseError>)
    requires
        spec_parse_i32(a@) matches Ok(x) && spec_parse_i32(b@) matches Ok(y) ==> i32::MIN <= x + y
            <= i32::MAX,
    ensures
        r matches Ok(n) ==> spec_parse_i32(a@) matches Ok(x) && spec_parse_i32(b@) matches Ok(y)
            && n == x + y,
        r matches Err(e) ==> spec_parse_i32(a@) == Err::<int, ParseError>(e) || (spec_parse_i32(a@)
            is Ok && spec_parse_i32(b@) == Err::<int, ParseError>(e)),
{
    let x = match parse_number(a) {
        Ok(x) => x,
        Err(e) => {
            return Err(e);
        },
    };
    let y = match parse_number(b) {
        Ok(y) => y,
        Err(e) => {
            return Err(e);
        },
    };
    Ok(x + y)
}

/// Whether `word` occurs in `text` starting at character position `i`.
pub open spec fn occurs_at(text: Seq<char>, word: Seq<char>, i: int) -> bool {
    0 <= i && i + word.len() <= text.len() && text.subrange(i, i + word.len()) == word
}

/// The position of the first occurrence of `word` in `text`, counted in
/// characters, if it occurs at all.
pub fn find_word(text: &str, word: &str) -> (r: Option<usize>)
    ensures
        r matches Some(i) ==> occurs_at(text@, word@, i as int) && forall|j: int|
            0 <= j < i ==> !occurs_at(text@, word@, j),
        r is None ==> forall|j: int| !occurs_at(text@, word@, j),
{
    let t_len = text.unicode_len();
    let w_len = word.unicode_len();
    if w_len > t_len {
        return None;
    }
    if w_len == 0 {
        proof {
            assert(text@.subrange(0, 0) =~= word@);
        }
        return Some(0);
    }
    let mut i: usize = 0;
    while i <= t_len - w_len
        invariant
            0 <= i <= t_len - w_len + 1,
            0 < w_len <= t_len,
            t_len == text@.len(),
            w_len == word@.len(),
            forall|j: int| 0 <= j < i ==> !occurs_at(text@, word@, j),
        decreases t_len - w_len + 1 - i,
    {
        let piece = text.substring_char(i, i + w_len);
        if str_eq(piece, word) {
            return Some(i);
        }
        i = i + 1;
    }
    None
}

/// The blank characters a word ends on.
pub open spec fn is_space(c: char) -> bool {
    c == ' ' || c == '\t' || c == '\n' || c == '\r' || c == '\u{0C}'
}

/// Whether `text[from..to]` is a word flush against leading blanks: only
/// blanks before it, no blank inside it, and a blank or the end after it.
pub open spec fn word_span(text: Seq<char>, from: int, to: int) -> bool {
    &&& 0 <= from < to <= text.len()
    &&& forall|j: int| 0 <= j < from ==> is_space(#[trigger] text[j])
    &&& forall|j: int| from <= j < to ==> !is_space(#[trigger] text[j])
    &&& (to == text.len() || is_space(text[to]))
}

/// Whether this character separates words. Blanks are the ASCII ones.
fn space_char(c: char) -> (r: bool)
    ensures
        r == is_space(c),
{
    c == ' ' || c == '\t' || c == '\n' || c == '\r' || c == '\u{0C}'
}

/// The first blank-separated word of the text, if the text holds any
/// non-blank character.
pub fn get_first_word(text: &str) -> (r: Option<&str>)
    ensures
        r is None <==> (forall|j: int| 0 <= j < text@.len() ==> is_space(#[trigger] text@[j])),
        r matches Some(w) ==> exists|from: int, to: int|
            word_span(text@, from, to) && w@ == text@.subrange(from, to),
{
    let n = text.unicode_len();
    let mut from: usize = 0;
    while from < n && space_char(text.get_char(from))
        invariant
            0 <= from <= n,
            n == text@.len(),
            forall|j: int| 0 <= j < from ==> is_space(#[trigger] text@[j]),
        decreases n - from,
    {
        from = from + 1;
    }
    if from == n {
        return None;
    }
    let mut to: usize = from + 1;
    while to < n && !space_char(text.get_char(to))
        invariant
            from < to <= n,
            n == text@.len(),
            forall|j: int| 0 <= j < from ==> is_space(#[trigger] text@[j]),
            forall|j: int| from <= j < to ==> !is_space(#[trigger] text@[j]),
        decreases n - to,
    {
        to = to + 1;
    }
    let w = text.substring_char(from, to);
    proof {
        assert(word_span(text@, from as int, to as int));
    }
    Some(w)
}

} // verus!
