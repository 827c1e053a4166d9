//! The grammar of the script format, as total spec functions.
//!
//! Each function either accepts a prefix of the input starting at a
//! character offset — returning the parsed value and the offset just
//! after it — or rejects, returning the offset of the failure and the
//! construct that was expected there. The executable parser in
//! [`crate::parser`] is proved to return exactly these results, so the
//! functions here are the single authority on what parses and what does
//! not.
//!
//! Line-oriented rules: a line terminator is `\n` or `\r\n` and may be
//! absent at the end of the input. A single-line comment `//…` runs up
//! to, not including, the next line terminator; a multi-line comment
//! `/*…*/` may span lines and does not nest — one left unclosed is
//! rejected where it opens. Alternatives are resolved by one character
//! of lookahead (`+` opens a choice, `->` a divert, `==` a knot header),
//! so the grammar is deterministic.
//!
//! Recursive functions recurse only when the inner parse has consumed
//! input, with explicit progress guards (`i < p <= s.len()`) so that
//! termination is structural; the guards are always true, which the
//! executable parser proves as it goes.

use vstd::prelude::*;
use crate::err::Expected;
use crate::model::{SpecChoice, SpecDialogLine, SpecDivert, SpecKnot, SpecKnotEnding, SpecStory};
use crate::scan::{
    comment_opens, consume_line_end, dialog_stop, divert_opens, eq_run_end, find_comment_close,
    find_dialog_stop, find_line_break, find_tag_stop, find_title_stop, is_ws, ltrim_from,
    rtrim_from, skip_inline_ws, skip_ws,
};

verus! {

/// The reserved title of the implicit leading knot.
pub open spec fn intro_title() -> Seq<char> {
    seq!['I', 'N', 'T', 'R', 'O']
}

/// Captures the rest of the line: one or more characters up to the next
/// line break, then the line terminator itself if one stands there.
/// An empty capture is rejected as `exp`.
pub open spec fn sp_rest_of_line(s: Seq<char>, i: int, exp: Expected) -> Result<
    (Seq<char>, int),
    (int, Expected),
> {
    let j = find_line_break(s, i);
    if j == i {
        Err((i, exp))
    } else {
        Ok((s.subrange(i, j), consume_line_end(s, j)))
    }
}

/// Captures one `#`-tag: the `#`, then the tag's text up to the next
/// `#`, line break, or end of input, trimmed of surrounding whitespace.
/// The returned offset stands on whatever stopped the capture.
pub open spec fn sp_tag(s: Seq<char>, i: int) -> Result<(Seq<char>, int), (int, Expected)> {
    if 0 <= i && i < s.len() && s[i] == '#' {
        let j = find_tag_stop(s, i + 1);
        let a = ltrim_from(s, i + 1, j);
        let b = rtrim_from(s, a, j);
        Ok((s.subrange(a, b), j))
    } else {
        Err((i, Expected::Tag))
    }
}

/// Captures zero or more `#`-tags, each re-triggered by a fresh `#`.
/// Cannot fail.
pub open spec fn sp_tags(s: Seq<char>, i: int) -> (Seq<Seq<char>>, int)
    decreases s.len() - i,
{
    match sp_tag(s, i) {
        Err(_) => (Seq::empty(), i),
        Ok((tag, j)) => {
            if i < j && j <= s.len() {
                let (rest, k) = sp_tags(s, j);
                (seq![tag] + rest, k)
            } else {
                (seq![tag], j)
            }
        },
    }
}

/// Consumes the comment standing at `i`, if one does: a single-line
/// comment up to (not including) the next line break, or a multi-line
/// comment through its closing `*/`. A multi-line comment left unclosed
/// is rejected where it opened.
pub open spec fn sp_opt_comment(s: Seq<char>, i: int) -> Result<int, (int, Expected)> {
    if comment_opens(s, i) {
        if s[i + 1] == '/' {
            Ok(find_line_break(s, i + 2))
        } else {
            let c = find_comment_close(s, i + 2);
            if c + 1 < s.len() {
                Ok(c + 2)
            } else {
                Err((i, Expected::CommentClose))
            }
        }
    } else {
        Ok(i)
    }
}

/// Parses one dialog line, the caller having skipped leading whitespace:
/// one or more characters of text (stopping at a line break, tag opener,
/// or comment opener), trimmed of trailing whitespace; then a run of
/// tags; then an optional trailing comment; then the line terminator if
/// one stands there.
pub open spec fn sp_dialog_line(s: Seq<char>, i: int) -> Result<
    (SpecDialogLine, int),
    (int, Expected),
> {
    let j = find_dialog_stop(s, i);
    if j == i {
        Err((i, Expected::DialogText))
    } else {
        let text = s.subrange(i, rtrim_from(s, i, j));
        let (tags, k) = sp_tags(s, j);
        match sp_opt_comment(s, k) {
            Err(e) => Err(e),
            Ok(m) => Ok((SpecDialogLine { text, tags }, consume_line_end(s, m))),
        }
    }
}

/// Parses a run of zero or more dialog lines for a knot or choice body,
/// skipping blank lines and comment-only lines between them. The run
/// stops before a choice marker `+`, a divert marker `->`, the end of
/// the input, or any line no dialog line can start (the ending parser
/// then reports its failure there).
pub open spec fn sp_body_lines(s: Seq<char>, i: int) -> (Seq<SpecDialogLine>, int)
    decreases s.len() - i,
{
    let a = skip_ws(s, i);
    if a >= s.len() {
        (Seq::empty(), a)
    } else if s[a] == '+' || divert_opens(s, a) {
        (Seq::empty(), a)
    } else if comment_opens(s, a) {
        if s[a + 1] == '/' {
            let b = find_line_break(s, a + 2);
            if i < b && b <= s.len() {
                sp_body_lines(s, b)
            } else {
                (Seq::empty(), b)
            }
        } else {
            let c = find_comment_close(s, a + 2);
            if c + 1 < s.len() {
                if i < c + 2 {
                    sp_body_lines(s, c + 2)
                } else {
                    (Seq::empty(), c + 2)
                }
            } else {
                (Seq::empty(), a)
            }
        }
    } else {
        match sp_dialog_line(s, a) {
            Err(_) => (Seq::empty(), a),
            Ok((dl, p)) => {
                if i < p && p <= s.len() {
                    let (rest, q) = sp_body_lines(s, p);
                    (seq![dl] + rest, q)
                } else {
                    (seq![dl], p)
                }
            },
        }
    }
}

/// Parses a divert: optional whitespace, the literal `->`, optional
/// whitespace, then the target title captured verbatim to the end of the
/// line. The target's content is not validated here: whether it names an
/// existing knot (or the reserved literal `END`) is the consumer's check.
pub open spec fn sp_divert(s: Seq<char>, i: int) -> Result<(SpecDivert, int), (int, Expected)> {
    let a = skip_ws(s, i);
    if divert_opens(s, a) {
        let b = skip_ws(s, a + 2);
        match sp_rest_of_line(s, b, Expected::DivertTarget) {
            Err(e) => Err(e),
            Ok((t, p)) => Ok((SpecDivert { target: t }, p)),
        }
    } else {
        Err((a, Expected::Divert))
    }
}

/// Parses one choice: the marker `+`, at least one whitespace character,
/// the choice's own text to the end of the line, an optional run of
/// dialog lines, and a mandatory divert — a choice without a divert
/// rejects, it never parses partially.
pub open spec fn sp_choice(s: Seq<char>, i: int) -> Result<(SpecChoice, int), (int, Expected)> {
    if 0 <= i && i < s.len() && s[i] == '+' {
        if i + 1 < s.len() && is_ws(s[i + 1]) {
            let b = skip_ws(s, i + 1);
            match sp_rest_of_line(s, b, Expected::ChoiceText) {
                Err(e) => Err(e),
                Ok((t, p)) => {
                    let (lines, q) = sp_body_lines(s, p);
                    match sp_divert(s, q) {
                        Err(e) => Err(e),
                        Ok((d, r)) => Ok((SpecChoice { text: t, body: lines, divert: d }, r)),
                    }
                },
            }
        } else {
            Err((i + 1, Expected::SpaceAfterChoice))
        }
    } else {
        Err((i, Expected::Choice))
    }
}

/// Parses one or more consecutive choices, tolerating whitespace before
/// each `+`.
pub open spec fn sp_choices(s: Seq<char>, i: int) -> Result<(Seq<SpecChoice>, int), (int, Expected)>
    decreases s.len() - i,
{
    match sp_choice(s, i) {
        Err(e) => Err(e),
        Ok((c, p)) => {
            let a = skip_ws(s, p);
            if a < s.len() && s[a] == '+' {
                if i < a {
                    match sp_choices(s, a) {
                        Err(e) => Err(e),
                        Ok((rest, q)) => Ok((seq![c] + rest, q)),
                    }
                } else {
                    Ok((seq![c], p))
                }
            } else {
                Ok((seq![c], p))
            }
        },
    }
}

/// Parses a knot's ending: one-or-more choices when the next character
/// is `+`, a divert when the next two are `->`, and a rejection
/// otherwise — a knot must end in something.
pub open spec fn sp_knot_end(s: Seq<char>, i: int) -> Result<
    (SpecKnotEnding, int),
    (int, Expected),
> {
    let a = skip_ws(s, i);
    if a < s.len() && s[a] == '+' {
        match sp_choices(s, a) {
            Err(e) => Err(e),
            Ok((cs, p)) => Ok((SpecKnotEnding::Choices(cs), p)),
        }
    } else if divert_opens(s, a) {
        match sp_divert(s, a) {
            Err(e) => Err(e),
            Ok((d, p)) => Ok((SpecKnotEnding::Divert(d), p)),
        }
    } else {
        Err((a, Expected::ChoiceOrDivert))
    }
}

/// Parses a knot's body: zero or more dialog lines, then exactly one
/// ending.
pub open spec fn sp_knot_body(s: Seq<char>, i: int) -> Result<
    ((Seq<SpecDialogLine>, SpecKnotEnding), int),
    (int, Expected),
> {
    let (lines, p) = sp_body_lines(s, i);
    match sp_knot_end(s, p) {
        Err(e) => Err(e),
        Ok((end, q)) => Ok(((lines, end), q)),
    }
}

/// Parses a knot header: optional whitespace, two or more `=`, optional
/// whitespace, a title token (no whitespace, no `=`), an optional
/// decorative run of two or more `=`, then a line terminator or the end
/// of the input.
pub open spec fn sp_knot_header(s: Seq<char>, i: int) -> Result<(Seq<char>, int), (int, Expected)> {
    let a = skip_ws(s, i);
    if a + 1 < s.len() && s[a] == '=' && s[a + 1] == '=' {
        let b = eq_run_end(s, a + 2);
        let c = skip_ws(s, b);
        let d = find_title_stop(s, c);
        if d == c {
            Err((c, Expected::KnotTitle))
        } else {
            let title = s.subrange(c, d);
            let e = skip_inline_ws(s, d);
            let f = if e + 1 < s.len() && s[e] == '=' && s[e + 1] == '=' {
                skip_inline_ws(s, eq_run_end(s, e + 2))
            } else {
                e
            };
            if f >= s.len() {
                Ok((title, f))
            } else {
                let g = consume_line_end(s, f);
                if g > f {
                    Ok((title, g))
                } else {
                    Err((f, Expected::HeaderEnd))
                }
            }
        }
    } else {
        Err((a, Expected::KnotHeader))
    }
}

/// Parses the remaining explicit knots — (header, body) pairs — through
/// the end of the input. A header whose title was already used (the
/// titles parsed so far stand in `seen`) is rejected where it stands:
/// duplicate knot titles are a hard error, never a silent overwrite.
pub open spec fn sp_knots(s: Seq<char>, i: int, seen: Seq<Seq<char>>) -> Result<
    (Seq<SpecKnot>, int),
    (int, Expected),
>
    decreases s.len() - i,
{
    let a = skip_ws(s, i);
    if a >= s.len() {
        Ok((Seq::empty(), a))
    } else {
        match sp_knot_header(s, a) {
            Err(e) => Err(e),
            Ok((title, p)) => {
                if seen.contains(title) {
                    Err((a, Expected::UniqueKnotTitle))
                } else {
                    match sp_knot_body(s, p) {
                        Err(e) => Err(e),
                        Ok(((lines, end), q)) => {
                            let knot = SpecKnot { title, body: lines, ending: end };
                            if i < q && q <= s.len() {
                                match sp_knots(s, q, seen.push(title)) {
                                    Err(e) => Err(e),
                                    Ok((rest, r)) => Ok((seq![knot] + rest, r)),
                                }
                            } else {
                                Ok((seq![knot], q))
                            }
                        },
                    }
                }
            },
        }
    }
}

/// Parses a whole document: the implicit leading knot — dialog lines and
/// an ending before any header, under the reserved title `INTRO` — then
/// zero or more explicit knots, through the end of the input. The result
/// keeps source order, leading knot first.
pub open spec fn sp_story(s: Seq<char>) -> Result<SpecStory, (int, Expected)> {
    match sp_knot_body(s, 0) {
        Err(e) => Err(e),
        Ok(((lines, end), p)) => {
            let intro = SpecKnot { title: intro_title(), body: lines, ending: end };
            match sp_knots(s, p, seq![intro_title()]) {
                Err(e) => Err(e),
                Ok((rest, _q)) => Ok(SpecStory { knots: seq![intro] + rest }),
            }
        },
    }
}

} // verus!
