//! Lexical scanners over a character buffer.
//!
//! Each spec function computes the offset where a scan stops; each exec
//! function returns exactly that offset. Offsets are character offsets
//! into the buffer, never byte offsets.

use vstd::prelude::*;

verus! {

/// Whitespace as the grammar sees it: space, tab, line feed, carriage
/// return.
pub open spec fn is_ws(c: char) -> bool {
    c == ' ' || c == '\t' || c == '\n' || c == '\r'
}

/// Whitespace that cannot end a line: space or tab.
pub open spec fn is_inline_ws(c: char) -> bool {
    c == ' ' || c == '\t'
}

/// A character that terminates a line's text.
pub open spec fn is_line_break(c: char) -> bool {
    c == '\n' || c == '\r'
}

/// True when a comment opens at offset `i`: `//` or `/*`.
pub open spec fn comment_opens(s: Seq<char>, i: int) -> bool {
    &&& 0 <= i
    &&& i + 1 < s.len()
    &&& s[i] == '/'
    &&& (s[i + 1] == '/' || s[i + 1] == '*')
}

/// True when a divert marker `->` stands at offset `i`.
pub open spec fn divert_opens(s: Seq<char>, i: int) -> bool {
    &&& 0 <= i
    &&& i + 1 < s.len()
    &&& s[i] == '-'
    &&& s[i + 1] == '>'
}

/// True when the capture of dialog text stops at offset `i`: a line
/// break, a tag opener `#`, or a comment opener.
pub open spec fn dialog_stop(s: Seq<char>, i: int) -> bool {
    is_line_break(s[i]) || s[i] == '#' || comment_opens(s, i)
}

/// First offset at or after `i` holding a non-whitespace character, or
/// the end of the buffer.
pub open spec fn skip_ws(s: Seq<char>, i: int) -> int
    decreases s.len() - i,
{
    if i < s.len() && is_ws(s[i]) {
        skip_ws(s, i + 1)
    } else {
        i
    }
}

/// First offset at or after `i` holding a character that is not a space
/// or tab, or the end of the buffer.
pub open spec fn skip_inline_ws(s: Seq<char>, i: int) -> int
    decreases s.len() - i,
{
    if i < s.len() && is_inline_ws(s[i]) {
        skip_inline_ws(s, i + 1)
    } else {
        i
    }
}

/// First offset at or after `i` holding a line break, or the end of the
/// buffer.
pub open spec fn find_line_break(s: Seq<char>, i: int) -> int
    decreases s.len() - i,
{
    if i < s.len() && !is_line_break(s[i]) {
        find_line_break(s, i + 1)
    } else if i < s.len() {
        i
    } else {
        s.len() as int
    }
}

/// First offset at or after `i` where dialog-text capture stops, or the
/// end of the buffer.
pub open spec fn find_dialog_stop(s: Seq<char>, i: int) -> int
    decreases s.len() - i,
{
    if i < s.len() && !dialog_stop(s, i) {
        find_dialog_stop(s, i + 1)
    } else if i < s.len() {
        i
    } else {
        s.len() as int
    }
}

/// First offset at or after `i` where a tag's capture stops: `#`, a line
/// break, or the end of the buffer.
pub open spec fn find_tag_stop(s: Seq<char>, i: int) -> int
    decreases s.len() - i,
{
    if i < s.len() && !(s[i] == '#' || is_line_break(s[i])) {
        find_tag_stop(s, i + 1)
    } else if i < s.len() {
        i
    } else {
        s.len() as int
    }
}

/// First offset at or after `i` where a knot title's capture stops:
/// whitespace, `=`, or the end of the buffer.
pub open spec fn find_title_stop(s: Seq<char>, i: int) -> int
    decreases s.len() - i,
{
    if i < s.len() && !(is_ws(s[i]) || s[i] == '=') {
        find_title_stop(s, i + 1)
    } else if i < s.len() {
        i
    } else {
        s.len() as int
    }
}

/// First offset at or after `i` holding a character other than `=`, or
/// the end of the buffer.
pub open spec fn eq_run_end(s: Seq<char>, i: int) -> int
    decreases s.len() - i,
{
    if i < s.len() && s[i] == '=' {
        eq_run_end(s, i + 1)
    } else {
        i
    }
}

/// Offset of the first `*/` at or after `i`, or the length of the buffer
/// when there is none. A find is distinguished by leaving room for both
/// characters: the close was found exactly when the result is at most
/// `s.len() - 2`.
pub open spec fn find_comment_close(s: Seq<char>, i: int) -> int
    decreases s.len() - i,
{
    if i + 1 < s.len() {
        if s[i] == '*' && s[i + 1] == '/' {
            i
        } else {
            find_comment_close(s, i + 1)
        }
    } else {
        s.len() as int
    }
}

/// Largest `k` with `i <= k <= j` such that no whitespace stands in
/// `[k, j)`: trims trailing whitespace off the capture `[i, j)`.
pub open spec fn rtrim_from(s: Seq<char>, i: int, j: int) -> int
    decreases j - i,
{
    if j > i && is_ws(s[j - 1]) {
        rtrim_from(s, i, j - 1)
    } else {
        j
    }
}

/// Smallest `k` with `i <= k <= j` such that no whitespace stands in
/// `[i, k)`: trims leading whitespace off the capture `[i, j)`.
pub open spec fn ltrim_from(s: Seq<char>, i: int, j: int) -> int
    decreases j - i,
{
    if i < j && is_ws(s[i]) {
        ltrim_from(s, i + 1, j)
    } else {
        i
    }
}

/// Offset just after the line terminator standing at `i` (`\n` or
/// `\r\n`), or `i` itself when none stands there.
pub open spec fn consume_line_end(s: Seq<char>, i: int) -> int {
    if i < s.len() && s[i] == '\n' {
        i + 1
    } else if i + 1 < s.len() && s[i] == '\r' && s[i + 1] == '\n' {
        i + 2
    } else {
        i
    }
}

/// [`skip_ws`] stays within `[i, s.len()]`.
pub proof fn lemma_skip_ws_bounds(s: Seq<char>, i: int)
    requires
        0 <= i <= s.len(),
    ensures
        i <= skip_ws(s, i) <= s.len(),
    decreases s.len() - i,
{
    if i < s.len() && is_ws(s[i]) {
        lemma_skip_ws_bounds(s, i + 1);
    }
}

/// [`skip_inline_ws`] stays within `[i, s.len()]`.
pub proof fn lemma_skip_inline_ws_bounds(s: Seq<char>, i: int)
    requires
        0 <= i <= s.len(),
    ensures
        i <= skip_inline_ws(s, i) <= s.len(),
    decreases s.len() - i,
{
    if i < s.len() && is_inline_ws(s[i]) {
        lemma_skip_inline_ws_bounds(s, i + 1);
    }
}

/// [`find_line_break`] stays within `[i, s.len()]`.
pub proof fn lemma_find_line_break_bounds(s: Seq<char>, i: int)
    requires
        0 <= i <= s.len(),
    ensures
        i <= find_line_break(s, i) <= s.len(),
    decreases s.len() - i,
{
    if i < s.len() && !is_line_break(s[i]) {
        lemma_find_line_break_bounds(s, i + 1);
    }
}

/// [`find_dialog_stop`] stays within `[i, s.len()]`, and nothing in the
/// scanned range stops a dialog-text capture.
pub proof fn lemma_find_dialog_stop_bounds(s: Seq<char>, i: int)
    requires
        0 <= i <= s.len(),
    ensures
        i <= find_dialog_stop(s, i) <= s.len(),
        forall|k: int| i <= k < find_dialog_stop(s, i) ==> !dialog_stop(s, k),
    decreases s.len() - i,
{
    if i < s.len() && !dialog_stop(s, i) {
        lemma_find_dialog_stop_bounds(s, i + 1);
    }
}

/// [`find_tag_stop`] stays within `[i, s.len()]`.
pub proof fn lemma_find_tag_stop_bounds(s: Seq<char>, i: int)
    requires
        0 <= i <= s.len(),
    ensures
        i <= find_tag_stop(s, i) <= s.len(),
    decreases s.len() - i,
{
    if i < s.len() && !(s[i] == '#' || is_line_break(s[i])) {
        lemma_find_tag_stop_bounds(s, i + 1);
    }
}

/// [`find_title_stop`] stays within `[i, s.len()]`.
pub proof fn lemma_find_title_stop_bounds(s: Seq<char>, i: int)
    requires
        0 <= i <= s.len(),
    ensures
        i <= find_title_stop(s, i) <= s.len(),
    decreases s.len() - i,
{
    if i < s.len() && !(is_ws(s[i]) || s[i] == '=') {
        lemma_find_title_stop_bounds(s, i + 1);
    }
}

/// [`eq_run_end`] stays within `[i, s.len()]`.
pub proof fn lemma_eq_run_end_bounds(s: Seq<char>, i: int)
    requires
        0 <= i <= s.len(),
    ensures
        i <= eq_run_end(s, i) <= s.len(),
    decreases s.len() - i,
{
    if i < s.len() && s[i] == '=' {
        lemma_eq_run_end_bounds(s, i + 1);
    }
}

/// [`find_comment_close`] stays within `[i, s.len()]`.
pub proof fn lemma_find_comment_close_bounds(s: Seq<char>, i: int)
    requires
        0 <= i <= s.len(),
    ensures
        i <= find_comment_close(s, i) <= s.len(),
    decreases s.len() - i,
{
    if i + 1 < s.len() && !(s[i] == '*' && s[i + 1] == '/') {
        lemma_find_comment_close_bounds(s, i + 1);
    }
}

/// [`rtrim_from`] stays within `[i, j]`.
pub proof fn lemma_rtrim_bounds(s: Seq<char>, i: int, j: int)
    requires
        i <= j,
    ensures
        i <= rtrim_from(s, i, j) <= j,
    decreases j - i,
{
    if j > i && is_ws(s[j - 1]) {
        lemma_rtrim_bounds(s, i, j - 1);
    }
}

pub fn is_ws_char(c: char) -> (r: bool)
    ensures
        r == is_ws(c),
{
    c == ' ' || c == '\t' || c == '\n' || c == '\r'
}

/// Exec mirror of [`skip_ws`].
pub fn ws_end(text: &Vec<char>, from: usize) -> (r: usize)
    requires
        from <= text.len(),
    ensures
        r as int == skip_ws(text@, from as int),
        from <= r <= text.len(),
{
    let mut j = from;
    while j < text.len() && is_ws_char(text[j])
        invariant
            from <= j <= text.len(),
            skip_ws(text@, from as int) == skip_ws(text@, j as int),
        decreases text.len() - j,
    {
        j = j + 1;
    }
    j
}

/// Exec mirror of [`skip_inline_ws`].
pub fn inline_ws_end(text: &Vec<char>, from: usize) -> (r: usize)
    requires
        from <= text.len(),
    ensures
        r as int == skip_inline_ws(text@, from as int),
        from <= r <= text.len(),
{
    let mut j = from;
    while j < text.len() && (text[j] == ' ' || text[j] == '\t')
        invariant
            from <= j <= text.len(),
            skip_inline_ws(text@, from as int) == skip_inline_ws(text@, j as int),
        decreases text.len() - j,
    {
        j = j + 1;
    }
    j
}

/// Exec mirror of [`find_line_break`].
pub fn line_break_at(text: &Vec<char>, from: usize) -> (r: usize)
    requires
        from <= text.len(),
    ensures
        r as int == find_line_break(text@, from as int),
        from <= r <= text.len(),
{
    let mut j = from;
    while j < text.len() && !(text[j] == '\n' || text[j] == '\r')
        invariant
            from <= j <= text.len(),
            find_line_break(text@, from as int) == find_line_break(text@, j as int),
        decreases text.len() - j,
    {
        j = j + 1;
    }
    j
}

fn dialog_stops_at(text: &Vec<char>, j: usize) -> (r: bool)
    requires
        j < text.len(),
    ensures
        r == dialog_stop(text@, j as int),
{
    let c = text[j];
    if c == '\n' || c == '\r' || c == '#' {
        true
    } else if c == '/' && j + 1 < text.len() && (text[j + 1] == '/' || text[j + 1] == '*') {
        true
    } else {
        false
    }
}

/// Exec mirror of [`find_dialog_stop`].
pub fn dialog_stop_at(text: &Vec<char>, from: usize) -> (r: usize)
    requires
        from <= text.len(),
    ensures
        r as int == find_dialog_stop(text@, from as int),
        from <= r <= text.len(),
{
    let mut j = from;
    while j < text.len() && !dialog_stops_at(text, j)
        invariant
            from <= j <= text.len(),
            find_dialog_stop(text@, from as int) == find_dialog_stop(text@, j as int),
        decreases text.len() - j,
    {
        j = j + 1;
    }
    j
}

/// Exec mirror of [`find_tag_stop`].
pub fn tag_stop_at(text: &Vec<char>, from: usize) -> (r: usize)
    requires
        from <= text.len(),
    ensures
        r as int == find_tag_stop(text@, from as int),
        from <= r <= text.len(),
{
    let mut j = from;
    while j < text.len() && !(text[j] == '#' || text[j] == '\n' || text[j] == '\r')
        invariant
            from <= j <= text.len(),
            find_tag_stop(text@, from as int) == find_tag_stop(text@, j as int),
        decreases text.len() - j,
    {
        j = j + 1;
    }
    j
}

/// Exec mirror of [`find_title_stop`].
pub fn title_stop_at(text: &Vec<char>, from: usize) -> (r: usize)
    requires
        from <= text.len(),
    ensures
        r as int == find_title_stop(text@, from as int),
        from <= r <= text.len(),
{
    let mut j = from;
    while j < text.len() && !(is_ws_char(text[j]) || text[j] == '=')
        invariant
            from <= j <= text.len(),
            find_title_stop(text@, from as int) == find_title_stop(text@, j as int),
        decreases text.len() - j,
    {
        j = j + 1;
    }
    j
}

/// Exec mirror of [`eq_run_end`].
pub fn eq_run_end_at(text: &Vec<char>, from: usize) -> (r: usize)
    requires
        from <= text.len(),
    ensures
        r as int == eq_run_end(text@, from as int),
        from <= r <= text.len(),
{
    let mut j = from;
    while j < text.len() && text[j] == '='
        invariant
            from <= j <= text.len(),
            eq_run_end(text@, from as int) == eq_run_end(text@, j as int),
        decreases text.len() - j,
    {
        j = j + 1;
    }
    j
}

/// Exec mirror of [`find_comment_close`].
pub fn comment_close_at(text: &Vec<char>, from: usize) -> (r: usize)
    requires
        from <= text.len(),
    ensures
        r as int == find_comment_close(text@, from as int),
        from <= r <= text.len(),
{
    let mut j = from;
    while j < text.len() && j + 1 < text.len()
        invariant
            from <= j <= text.len(),
            find_comment_close(text@, from as int) == find_comment_close(text@, j as int),
        decreases text.len() - j,
    {
        if text[j] == '*' && text[j + 1] == '/' {
            return j;
        }
        j = j + 1;
    }
    text.len()
}

/// Exec mirror of [`rtrim_from`].
pub fn rtrim_at(text: &Vec<char>, from: usize, to: usize) -> (r: usize)
    requires
        from <= to <= text.len(),
    ensures
        r as int == rtrim_from(text@, from as int, to as int),
        from <= r <= to,
{
    let mut j = to;
    while j > from && is_ws_char(text[j - 1])
        invariant
            from <= j <= to <= text.len(),
            rtrim_from(text@, from as int, to as int) == rtrim_from(text@, from as int, j as int),
        decreases j,
    {
        j = j - 1;
    }
    j
}

/// Exec mirror of [`ltrim_from`].
pub fn ltrim_at(text: &Vec<char>, from: usize, to: usize) -> (r: usize)
    requires
        from <= to <= text.len(),
    ensures
        r as int == ltrim_from(text@, from as int, to as int),
        from <= r <= to,
{
    let mut j = from;
    while j < to && is_ws_char(text[j])
        invariant
            from <= j <= to <= text.len(),
            ltrim_from(text@, from as int, to as int) == ltrim_from(text@, j as int, to as int),
        decreases to - j,
    {
        j = j + 1;
    }
    j
}

/// Exec mirror of [`consume_line_end`].
pub fn line_end_after(text: &Vec<char>, at: usize) -> (r: usize)
    requires
        at <= text.len(),
    ensures
        r as int == consume_line_end(text@, at as int),
        at <= r <= text.len(),
{
    if at < text.len() && text[at] == '\n' {
        at + 1
    } else if at < text.len() && at + 1 < text.len() && text[at] == '\r' && text[at + 1] == '\n' {
        at + 2
    } else {
        at
    }
}

/// Copies the characters `[from, to)` of `text` into a fresh vector.
pub fn copy_range(text: &Vec<char>, from: usize, to: usize) -> (r: Vec<char>)
    requires
        from <= to <= text.len(),
    ensures
        r@ == text@.subrange(from as int, to as int),
{
    let mut r: Vec<char> = Vec::new();
    let mut i = from;
    while i < to
        invariant
            from <= i <= to <= text.len(),
            r@ == text@.subrange(from as int, i as int),
        decreases to - i,
    {
        r.push(text[i]);
        i = i + 1;
        proof {
            assert(text@.subrange(from as int, i as int) =~= text@.subrange(
                from as int,
                i - 1,
            ).push(text@[i - 1]));
        }
    }
    r
}

} // verus!
