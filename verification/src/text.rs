//! Text helpers: equality, ASCII-case-insensitive equality, and splitting
//! on a separator character, each pinned to a specification function.

use vstd::prelude::*;
use vstd::string::StrSliceExecFns;
use vstd::string::StringExecFns;

verus! {

/// The character's code with an ASCII capital folded to its small form.
pub open spec fn folded_code(c: char) -> int {
    if 65 <= c as int <= 90 {
        c as int + 32
    } else {
        c as int
    }
}

/// Character-wise equality up to ASCII case.
pub open spec fn seq_eq_ignore_ascii_case(a: Seq<char>, b: Seq<char>) -> bool {
    a.len() == b.len() && forall|i: int|
        0 <= i < a.len() ==> folded_code(#[trigger] a[i]) == folded_code(b[i])
}

/// Whether two pieces of text hold the same characters.
pub fn str_eq(a: &str, b: &str) -> (r: bool)
    ensures
        r == (a@ == b@),
{
    let a_len = a.unicode_len();
    let b_len = b.unicode_len();
    if a_len != b_len {
        return false;
    }
    let mut i: usize = 0;
    while i < a_len
        invariant
            0 <= i <= a_len,
            a_len == a@.len(),
            a_len == b@.len(),
            forall|j: int| 0 <= j < i ==> a@[j] == b@[j],
        decreases a_len - i,
    {
        if a.get_char(i) != b.get_char(i) {
            return false;
        }
        i = i + 1;
    }
    proof {
        assert(a@ =~= b@);
    }
    true
}

/// Whether two pieces of text hold the same characters up to ASCII case.
pub fn str_eq_ignore_ascii_case(a: &str, b: &str) -> (r: bool)
    ensures
        r == seq_eq_ignore_ascii_case(a@, b@),
{
    let a_len = a.unicode_len();
    let b_len = b.unicode_len();
    if a_len != b_len {
        return false;
    }
    let mut i: usize = 0;
    while i < a_len
        invariant
            0 <= i <= a_len,
            a_len == a@.len(),
            a_len == b@.len(),
            forall|j: int| 0 <= j < i ==> folded_code(#[trigger] a@[j]) == folded_code(b@[j]),
        decreases a_len - i,
    {
        let ca: u32 = a.get_char(i) as u32;
        let cb: u32 = b.get_char(i) as u32;
        let fa: u32 = if 65 <= ca && ca <= 90 {
            ca + 32
        } else {
            ca
        };
        let fb: u32 = if 65 <= cb && cb <= 90 {
            cb + 32
        } else {
            cb
        };
        if fa != fb {
            return false;
        }
        i = i + 1;
    }
    true
}

/// The index of the first occurrence of `sep`, or the length when absent.
pub open spec fn find_char(s: Seq<char>, sep: char) -> int
    decreases s.len(),
{
    if s.len() == 0 {
        0
    } else if s[0] == sep {
        0
    } else {
        1 + find_char(s.drop_first(), sep)
    }
}

/// The pieces of `s` between occurrences of `sep`: always one piece more
/// than there are separators, pieces never hold the separator.
pub open spec fn split_on(s: Seq<char>, sep: char) -> Seq<Seq<char>>
    decreases s.len(),
{
    let i = find_char(s, sep);
    if i < 0 || i >= s.len() {
        seq![s]
    } else {
        seq![s.take(i)] + split_on(s.skip(i + 1), sep)
    }
}

/// Where the first separator sits: within the text, on a separator, with
/// none before it.
pub proof fn lemma_find_char(s: Seq<char>, sep: char)
    ensures
        0 <= find_char(s, sep) <= s.len(),
        find_char(s, sep) < s.len() ==> s[find_char(s, sep)] == sep,
        forall|j: int| 0 <= j < find_char(s, sep) ==> s[j] != sep,
    decreases s.len(),
{
    if s.len() > 0 && s[0] != sep {
        lemma_find_char(s.drop_first(), sep);
        assert forall|j: int| 0 <= j < find_char(s, sep) implies s[j] != sep by {
            if j > 0 {
                assert(s[j] == s.drop_first()[j - 1]);
            }
        }
    }
}

/// A text with no separator before position `i` and a separator at `i`
/// finds its first separator exactly at `i`.
pub proof fn lemma_find_char_at(s: Seq<char>, sep: char, i: int)
    requires
        0 <= i <= s.len(),
        forall|j: int| 0 <= j < i ==> s[j] != sep,
        i < s.len() ==> s[i] == sep,
    ensures
        find_char(s, sep) == if i < s.len() {
            i
        } else {
            s.len() as int
        },
    decreases s.len(),
{
    lemma_find_char(s, sep);
    if s.len() > 0 && s[0] != sep {
        assert(forall|j: int| 0 <= j < s.drop_first().len() ==> s.drop_first()[j] == s[j + 1]);
        lemma_find_char_at(s.drop_first(), sep, if i > 0 {
            i - 1
        } else {
            0
        });
    }
}

/// Splits text on a separator character. The result holds the pieces in
/// order: one more piece than there are separators in the text, and never
/// an occurrence of the separator inside a piece.
pub fn split_text(s: &str, sep: char) -> (parts: Vec<String>)
    ensures
        parts@.len() == split_on(s@, sep).len(),
        forall|k: int| 0 <= k < parts@.len() ==> parts@[k]@ == #[trigger] split_on(s@, sep)[k],
{
    let n = s.unicode_len();
    let mut parts: Vec<String> = Vec::new();
    let mut piece = String::new();
    let mut start: usize = 0;
    let mut i: usize = 0;
    proof {
        assert(s@.skip(0) =~= s@);
        assert(piece@ =~= s@.subrange(0, 0));
        assert(parts@.map_values(|p: String| p@) + split_on(s@.skip(0), sep) =~~= split_on(
            s@,
            sep,
        ));
    }
    while i < n
        invariant
            0 <= start <= i <= n,
            n == s@.len(),
            piece@ == s@.subrange(start as int, i as int),
            forall|j: int| start <= j < i ==> s@[j] != sep,
            split_on(s@, sep) == parts@.map_values(|p: String| p@) + split_on(
                s@.skip(start as int),
                sep,
            ),
        decreases n - i,
    {
        let c = s.get_char(i);
        if c == sep {
            proof {
                let rest = s@.skip(start as int);
                assert(forall|j: int| 0 <= j < i - start ==> rest[j] == s@[j + start]);
                lemma_find_char_at(rest, sep, i - start);
                assert(rest.take(i - start) =~= piece@);
                assert(rest.skip(i - start + 1) =~= s@.skip(i + 1));
                assert(split_on(rest, sep) =~~= seq![piece@] + split_on(s@.skip(i + 1), sep));
                assert((parts@.push(piece).map_values(|p: String| p@)) =~~= parts@.map_values(
                    |p: String| p@,
                ).push(piece@));
                assert(parts@.push(piece).map_values(|p: String| p@) + split_on(
                    s@.skip(i + 1),
                    sep,
                ) =~~= split_on(s@, sep));
            }
            parts.push(piece);
            piece = String::new();
            start = i + 1;
            proof {
                assert(piece@ =~= s@.subrange(start as int, i + 1));
            }
        } else {
            piece.append(s.substring_char(i, i + 1));
            proof {
                assert(piece@ =~= s@.subrange(start as int, i + 1));
            }
        }
        i = i + 1;
    }
    proof {
        let rest = s@.skip(start as int);
        assert(forall|j: int| 0 <= j < rest.len() ==> rest[j] == s@[j + start]);
        lemma_find_char_at(rest, sep, n - start);
        assert(rest =~= piece@);
        assert(split_on(rest, sep) =~~= seq![piece@]);
        assert((parts@.push(piece).map_values(|p: String| p@)) =~~= parts@.map_values(
            |p: String| p@,
        ).push(piece@));
        assert(parts@.push(piece).map_values(|p: String| p@) =~~= split_on(s@, sep));
    }
    parts.push(piece);
    parts
}

/// Text without the separator splits into itself alone.
pub proof fn lemma_split_no_sep(piece: Seq<char>, sep: char)
    requires
        forall|j: int| 0 <= j < piece.len() ==> piece[j] != sep,
    ensures
        split_on(piece, sep) == seq![piece],
{
    lemma_find_char_at(piece, sep, piece.len() as int);
}

/// Splitting peels one piece at a time: a separator-free piece, the
/// separator, then anything.
pub proof fn lemma_split_joined(piece: Seq<char>, rest: Seq<char>, sep: char)
    requires
        forall|j: int| 0 <= j < piece.len() ==> piece[j] != sep,
    ensures
        split_on(piece + seq![sep] + rest, sep) == seq![piece] + split_on(rest, sep),
{
    let s = piece + seq![sep] + rest;
    assert(forall|j: int| 0 <= j < piece.len() ==> s[j] == piece[j]);
    assert(s[piece.len() as int] == sep);
    lemma_find_char_at(s, sep, piece.len() as int);
    assert(s.take(piece.len() as int) =~= piece);
    assert(s.skip(piece.len() as int + 1) =~= rest);
    assert(split_on(s, sep) =~~= seq![piece] + split_on(rest, sep));
}

/// Whether the text never holds the character `c`.
pub open spec fn free_of(s: Seq<char>, c: char) -> bool {
    forall|j: int| 0 <= j < s.len() ==> s[j] != c
}

/// Freedom from a character survives concatenation.
pub proof fn lemma_free_of_concat(a: Seq<char>, b: Seq<char>, c: char)
    requires
        free_of(a, c),
        free_of(b, c),
    ensures
        free_of(a + b, c),
{
    assert forall|j: int| 0 <= j < (a + b).len() implies (a + b)[j] != c by {
        if j < a.len() {
            assert((a + b)[j] == a[j]);
        } else {
            assert((a + b)[j] == b[j - a.len()]);
        }
    }
}

} // verus!
