//! Character classification and searching over character sequences.
//!
//! These spec functions describe the primitive questions the scanner asks of
//! the source text: which class a character belongs to, where a run of
//! characters ends, and how many times a character occurs in a range.

use vstd::prelude::*;

verus! {

/// An ASCII decimal digit.
pub open spec fn is_digit(c: char) -> bool {
    48 <= c as u32 <= 57
}

/// An ASCII letter; only these start an identifier.
pub open spec fn is_alpha(c: char) -> bool {
    (65 <= c as u32 <= 90) || (97 <= c as u32 <= 122)
}

/// A character that may continue an identifier: letter, digit or underscore.
pub open spec fn is_ident_char(c: char) -> bool {
    is_alpha(c) || is_digit(c) || c == '_'
}

pub fn check_digit(c: char) -> (b: bool)
    ensures
        b == is_digit(c),
{
    let u = c as u32;
    48 <= u && u <= 57
}

pub fn check_alpha(c: char) -> (b: bool)
    ensures
        b == is_alpha(c),
{
    let u = c as u32;
    (65 <= u && u <= 90) || (97 <= u && u <= 122)
}

pub fn check_ident_char(c: char) -> (b: bool)
    ensures
        b == is_ident_char(c),
{
    check_alpha(c) || check_digit(c) || c == '_'
}

/// The first position at or after `j` where `c` occurs, or the length of the
/// sequence when `c` does not occur there at all.
pub open spec fn find_from(s: Seq<char>, j: int, c: char) -> int
    decreases s.len() - j,
{
    if j < 0 || j >= s.len() {
        s.len() as int
    } else if s[j] == c {
        j
    } else {
        find_from(s, j + 1, c)
    }
}

pub proof fn lemma_find_from(s: Seq<char>, j: int, c: char)
    requires
        0 <= j <= s.len(),
    ensures
        j <= find_from(s, j, c) <= s.len(),
        find_from(s, j, c) < s.len() ==> s[find_from(s, j, c)] == c,
        forall|k: int| j <= k < find_from(s, j, c) ==> s[k] != c,
    decreases s.len() - j,
{
    if j < s.len() && s[j] != c {
        lemma_find_from(s, j + 1, c);
    }
}

/// Where a run of digits beginning at `j` ends: the first position at or
/// after `j` that is past the end or holds a non-digit.
pub open spec fn digit_end(s: Seq<char>, j: int) -> int
    decreases s.len() - j,
{
    if j < 0 || j >= s.len() {
        s.len() as int
    } else if is_digit(s[j]) {
        digit_end(s, j + 1)
    } else {
        j
    }
}

pub proof fn lemma_digit_end(s: Seq<char>, j: int)
    requires
        0 <= j <= s.len(),
    ensures
        j <= digit_end(s, j) <= s.len(),
        digit_end(s, j) < s.len() ==> !is_digit(s[digit_end(s, j)]),
        forall|k: int| j <= k < digit_end(s, j) ==> is_digit(#[trigger] s[k]),
    decreases s.len() - j,
{
    if j < s.len() && is_digit(s[j]) {
        lemma_digit_end(s, j + 1);
    }
}

/// Where a run of identifier characters beginning at `j` ends.
pub open spec fn ident_end(s: Seq<char>, j: int) -> int
    decreases s.len() - j,
{
    if j < 0 || j >= s.len() {
        s.len() as int
    } else if is_ident_char(s[j]) {
        ident_end(s, j + 1)
    } else {
        j
    }
}

pub proof fn lemma_ident_end(s: Seq<char>, j: int)
    requires
        0 <= j <= s.len(),
    ensures
        j <= ident_end(s, j) <= s.len(),
        ident_end(s, j) < s.len() ==> !is_ident_char(s[ident_end(s, j)]),
        forall|k: int| j <= k < ident_end(s, j) ==> is_ident_char(#[trigger] s[k]),
    decreases s.len() - j,
{
    if j < s.len() && is_ident_char(s[j]) {
        lemma_ident_end(s, j + 1);
    }
}

/// How many times `c` occurs in `s` at positions in `[from, to)`.
pub open spec fn count_char(s: Seq<char>, from: int, to: int, c: char) -> nat
    decreases to - from,
{
    if from >= to {
        0
    } else {
        (if s[from] == c {
            1nat
        } else {
            0nat
        }) + count_char(s, from + 1, to, c)
    }
}

/// Extending the range by one position on the right adds one occurrence
/// exactly when the new position holds `c`.
pub proof fn lemma_count_char_snoc(s: Seq<char>, from: int, to: int, c: char)
    requires
        from <= to,
    ensures
        count_char(s, from, to + 1, c) == count_char(s, from, to, c) + (if s[to] == c {
            1nat
        } else {
            0nat
        }),
    decreases to - from,
{
    if from < to {
        lemma_count_char_snoc(s, from + 1, to, c);
    } else {
        assert(count_char(s, from + 1, to + 1, c) == 0);
    }
}

} // verus!
