//! Translation of a character offset into a 1-indexed (row, column) pair.
//!
//! The row counts the line feeds preceding the offset; the column counts
//! the characters since the last line feed, plus one. Both count
//! characters, never bytes, so the translation is correct for text with
//! multi-byte characters.

use vstd::prelude::*;

verus! {

/// Number of `'\n'` characters in `s` strictly before offset `i`.
pub open spec fn newline_count(s: Seq<char>, i: int) -> int
    decreases i,
{
    if i <= 0 {
        0
    } else {
        newline_count(s, i - 1) + if s[i - 1] == '\n' {
            1int
        } else {
            0int
        }
    }
}

/// Offset of the first character of the line that offset `i` lies on:
/// the offset just after the last `'\n'` strictly before `i`, or `0`.
pub open spec fn line_start(s: Seq<char>, i: int) -> int
    decreases i,
{
    if i <= 0 {
        0
    } else if s[i - 1] == '\n' {
        i
    } else {
        line_start(s, i - 1)
    }
}

/// The (row, column) pair for character offset `i` of `s`, both 1-indexed.
///
/// Degenerate inputs get a defined fallback instead of a fault: an empty
/// document translates to `(0, 0)`, and an offset at or past the end of
/// the input translates to `(0, 1)`.
pub open spec fn spec_row_col(s: Seq<char>, i: int) -> (int, int) {
    if s.len() == 0 {
        (0int, 0int)
    } else if i >= s.len() {
        (0int, 1int)
    } else {
        (newline_count(s, i) + 1, i - line_start(s, i) + 1)
    }
}

proof fn lemma_newline_count_bound(s: Seq<char>, i: int)
    requires
        0 <= i,
    ensures
        0 <= newline_count(s, i) <= i,
    decreases i,
{
    if i > 0 {
        lemma_newline_count_bound(s, i - 1);
    }
}

proof fn lemma_line_start_bound(s: Seq<char>, i: int)
    requires
        0 <= i,
    ensures
        0 <= line_start(s, i) <= i,
    decreases i,
{
    if i > 0 {
        lemma_line_start_bound(s, i - 1);
    }
}

/// Translates a character offset into `text` into a 1-indexed
/// (row, column) pair, counting characters (not bytes) for both.
pub fn index_to_row_col(index: usize, text: &str) -> (rc: (usize, usize))
    ensures
        rc.0 == spec_row_col(text@, index as int).0,
        rc.1 == spec_row_col(text@, index as int).1,
{
    let n = text.unicode_len();
    if n == 0 {
        return (0, 0);
    }
    if index >= n {
        return (0, 1);
    }
    let ghost s = text@;
    let mut newlines: usize = 0;
    let mut start: usize = 0;
    let mut j: usize = 0;
    while j < index
        invariant
            j <= index < n == s.len(),
            s == text@,
            newlines == newline_count(s, j as int),
            start == line_start(s, j as int),
            0 <= newlines <= j,
            0 <= start <= j,
        decreases index - j,
    {
        let c = text.get_char(j);
        if c == '\n' {
            newlines = newlines + 1;
            start = j + 1;
        }
        j = j + 1;
        proof {
            lemma_newline_count_bound(s, j as int);
            lemma_line_start_bound(s, j as int);
        }
    }
    (newlines + 1, index - start + 1)
}

} // verus!
