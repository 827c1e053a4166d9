//! The executable parser.
//!
//! Every function here mirrors one spec function of [`crate::grammar`]
//! and is proved to return exactly its result: the parsed value's view
//! and the offset on success, the failing offset and the expected
//! construct on rejection. The component parsers work on a `Vec<char>`
//! buffer with character offsets; [`parse_story`] and [`dialog_line`]
//! take the document as `&str`.

use vstd::prelude::*;
use crate::err::{Expected, ParseErr, SyntaxError};
use crate::grammar::{
    intro_title, sp_body_lines, sp_choice, sp_choices, sp_dialog_line, sp_divert, sp_knot_body,
    sp_knot_end, sp_knot_header, sp_knots, sp_opt_comment, sp_rest_of_line, sp_story, sp_tag,
    sp_tags,
};
use crate::model::{
    Choice, DialogLine, Divert, Knot, KnotEnding, SpecChoice, SpecDialogLine, SpecDivert,
    SpecKnot, SpecKnotEnding, SpecStory, Story,
};
use crate::pos::{index_to_row_col, spec_row_col};
use crate::scan::{
    comment_close_at, copy_range, dialog_stop_at, eq_run_end_at, inline_ws_end, is_ws_char,
    line_break_at, line_end_after, ltrim_at, rtrim_at, tag_stop_at, title_stop_at, ws_end,
};
use crate::scan::skip_ws;
use crate::text::{chars_to_string, str_eq, str_to_chars};

verus! {

/// Captures the rest of the line — one or more characters — and consumes
/// the line terminator if one follows; an empty capture is rejected as
/// `exp`. Mirrors [`sp_rest_of_line`].
pub fn rest_of_the_line(text: &Vec<char>, from: usize, exp: Expected) -> (r: Result<
    (String, usize),
    ParseErr,
>)
    requires
        from <= text.len(),
    ensures
        match r {
            Ok((t, p)) => sp_rest_of_line(text@, from as int, exp) == Ok::<
                (Seq<char>, int),
                (int, Expected),
            >((t@, p as int)) && from < p <= text.len(),
            Err(e) => sp_rest_of_line(text@, from as int, exp) == Err::<
                (Seq<char>, int),
                (int, Expected),
            >((e.at as int, e.expected)),
        },
{
    let j = line_break_at(text, from);
    if j == from {
        return Err(ParseErr { at: from, expected: exp });
    }
    let cap = copy_range(text, from, j);
    let p = line_end_after(text, j);
    Ok((chars_to_string(&cap), p))
}

/// Captures one `#`-tag, trimmed of surrounding whitespace. Mirrors
/// [`sp_tag`].
pub fn tag(text: &Vec<char>, from: usize) -> (r: Result<(String, usize), ParseErr>)
    requires
        from <= text.len(),
    ensures
        match r {
            Ok((t, p)) => sp_tag(text@, from as int) == Ok::<(Seq<char>, int), (int, Expected)>(
                (t@, p as int),
            ) && from < p <= text.len(),
            Err(e) => sp_tag(text@, from as int) == Err::<(Seq<char>, int), (int, Expected)>(
                (e.at as int, e.expected),
            ),
        },
{
    if from < text.len() && text[from] == '#' {
        let j = tag_stop_at(text, from + 1);
        let a = ltrim_at(text, from + 1, j);
        let b = rtrim_at(text, a, j);
        let cap = copy_range(text, a, b);
        Ok((chars_to_string(&cap), j))
    } else {
        Err(ParseErr { at: from, expected: Expected::Tag })
    }
}

/// Captures zero or more `#`-tags. Mirrors [`sp_tags`].
pub fn tags(text: &Vec<char>, from: usize) -> (r: (Vec<String>, usize))
    requires
        from <= text.len(),
    ensures
        r.0.deep_view() == sp_tags(text@, from as int).0,
        r.1 as int == sp_tags(text@, from as int).1,
        from <= r.1 <= text.len(),
    decreases text.len() - from,
{
    match tag(text, from) {
        Err(_) => {
            let v: Vec<String> = Vec::new();
            proof {
                assert(v.deep_view() =~= Seq::<Seq<char>>::empty());
            }
            (v, from)
        },
        Ok((t, j)) => {
            let ghost tv = t@;
            let (rest, k) = tags(text, j);
            let ghost rv = rest.deep_view();
            let mut v = rest;
            v.insert(0, t);
            proof {
                assert(v.deep_view() =~= seq![tv] + rv);
            }
            (v, k)
        },
    }
}

/// Consumes the comment standing at `from`, if one does. Mirrors
/// [`sp_opt_comment`].
pub fn opt_comment(text: &Vec<char>, from: usize) -> (r: Result<usize, ParseErr>)
    requires
        from <= text.len(),
    ensures
        match r {
            Ok(p) => sp_opt_comment(text@, from as int) == Ok::<int, (int, Expected)>(p as int)
                && from <= p <= text.len(),
            Err(e) => sp_opt_comment(text@, from as int) == Err::<int, (int, Expected)>(
                (e.at as int, e.expected),
            ),
        },
{
    if from < text.len() && from + 1 < text.len() && text[from] == '/' && (text[from + 1] == '/'
        || text[from + 1] == '*') {
        if text[from + 1] == '/' {
            Ok(line_break_at(text, from + 2))
        } else {
            let c = comment_close_at(text, from + 2);
            if c < text.len() && c + 1 < text.len() {
                Ok(c + 2)
            } else {
                Err(ParseErr { at: from, expected: Expected::CommentClose })
            }
        }
    } else {
        Ok(from)
    }
}

/// Parses one dialog line standing exactly at `from`: text, tags, an
/// optional trailing comment, and the line terminator. Mirrors
/// [`sp_dialog_line`].
pub fn dialog_line_at(text: &Vec<char>, from: usize) -> (r: Result<(DialogLine, usize), ParseErr>)
    requires
        from <= text.len(),
    ensures
        match r {
            Ok((dl, p)) => sp_dialog_line(text@, from as int) == Ok::<
                (SpecDialogLine, int),
                (int, Expected),
            >((dl@, p as int)) && from < p <= text.len(),
            Err(e) => sp_dialog_line(text@, from as int) == Err::<
                (SpecDialogLine, int),
                (int, Expected),
            >((e.at as int, e.expected)),
        },
{
    let j = dialog_stop_at(text, from);
    if j == from {
        return Err(ParseErr { at: from, expected: Expected::DialogText });
    }
    let t_end = rtrim_at(text, from, j);
    let cap = copy_range(text, from, t_end);
    let (tgs, k) = tags(text, j);
    match opt_comment(text, k) {
        Err(e) => Err(e),
        Ok(m) => {
            let p = line_end_after(text, m);
            Ok((DialogLine { text: chars_to_string(&cap), tags: tgs }, p))
        },
    }
}

/// Parses a run of zero or more dialog lines for a knot or choice body,
/// skipping blank and comment-only lines between them. Mirrors
/// [`sp_body_lines`].
pub fn dialog_lines(text: &Vec<char>, from: usize) -> (r: (Vec<DialogLine>, usize))
    requires
        from <= text.len(),
    ensures
        r.0.deep_view() == sp_body_lines(text@, from as int).0,
        r.1 as int == sp_body_lines(text@, from as int).1,
        from <= r.1 <= text.len(),
    decreases text.len() - from,
{
    let a = ws_end(text, from);
    if a >= text.len() {
        let v: Vec<DialogLine> = Vec::new();
        proof {
            assert(v.deep_view() =~= Seq::<SpecDialogLine>::empty());
        }
        return (v, a);
    }
    if text[a] == '+' || (a + 1 < text.len() && text[a] == '-' && text[a + 1] == '>') {
        let v: Vec<DialogLine> = Vec::new();
        proof {
            assert(v.deep_view() =~= Seq::<SpecDialogLine>::empty());
        }
        return (v, a);
    }
    if a + 1 < text.len() && text[a] == '/' && (text[a + 1] == '/' || text[a + 1] == '*') {
        if text[a + 1] == '/' {
            let b = line_break_at(text, a + 2);
            return dialog_lines(text, b);
        } else {
            let c = comment_close_at(text, a + 2);
            if c < text.len() && c + 1 < text.len() {
                return dialog_lines(text, c + 2);
            } else {
                let v: Vec<DialogLine> = Vec::new();
                proof {
                    assert(v.deep_view() =~= Seq::<SpecDialogLine>::empty());
                }
                return (v, a);
            }
        }
    }
    match dialog_line_at(text, a) {
        Err(_) => {
            let v: Vec<DialogLine> = Vec::new();
            proof {
                assert(v.deep_view() =~= Seq::<SpecDialogLine>::empty());
            }
            (v, a)
        },
        Ok((dl, p)) => {
            let ghost dv = dl@;
            let (rest, q) = dialog_lines(text, p);
            let ghost rv = rest.deep_view();
            let mut v = rest;
            v.insert(0, dl);
            proof {
                assert(v.deep_view() =~= seq![dv] + rv);
            }
            (v, q)
        },
    }
}

/// Parses a divert: `->` after optional whitespace, then the target
/// title to the end of the line. Mirrors [`sp_divert`].
pub fn divert(text: &Vec<char>, from: usize) -> (r: Result<(Divert, usize), ParseErr>)
    requires
        from <= text.len(),
    ensures
        match r {
            Ok((d, p)) => sp_divert(text@, from as int) == Ok::<(SpecDivert, int), (int, Expected)>(
                (d@, p as int),
            ) && from < p <= text.len(),
            Err(e) => sp_divert(text@, from as int) == Err::<(SpecDivert, int), (int, Expected)>(
                (e.at as int, e.expected),
            ),
        },
{
    let a = ws_end(text, from);
    if a < text.len() && a + 1 < text.len() && text[a] == '-' && text[a + 1] == '>' {
        let b = ws_end(text, a + 2);
        match rest_of_the_line(text, b, Expected::DivertTarget) {
            Err(e) => Err(e),
            Ok((t, p)) => Ok((Divert { target: t }, p)),
        }
    } else {
        Err(ParseErr { at: a, expected: Expected::Divert })
    }
}

/// Parses one choice: `+`, at least one whitespace character, the
/// choice's text, an optional run of dialog lines, and a mandatory
/// divert. Mirrors [`sp_choice`].
pub fn parse_choice(text: &Vec<char>, from: usize) -> (r: Result<(Choice, usize), ParseErr>)
    requires
        from <= text.len(),
    ensures
        match r {
            Ok((c, p)) => sp_choice(text@, from as int) == Ok::<(SpecChoice, int), (int, Expected)>(
                (c@, p as int),
            ) && from < p <= text.len(),
            Err(e) => sp_choice(text@, from as int) == Err::<(SpecChoice, int), (int, Expected)>(
                (e.at as int, e.expected),
            ),
        },
{
    if from < text.len() && text[from] == '+' {
        if from + 1 < text.len() && is_ws_char(text[from + 1]) {
            let b = ws_end(text, from + 1);
            match rest_of_the_line(text, b, Expected::ChoiceText) {
                Err(e) => Err(e),
                Ok((t, p)) => {
                    let (lines, q) = dialog_lines(text, p);
                    match divert(text, q) {
                        Err(e) => Err(e),
                        Ok((d, after)) => Ok((Choice { text: t, body: lines, divert: d }, after)),
                    }
                },
            }
        } else {
            Err(ParseErr { at: from + 1, expected: Expected::SpaceAfterChoice })
        }
    } else {
        Err(ParseErr { at: from, expected: Expected::Choice })
    }
}

/// Parses one or more consecutive choices, tolerating whitespace before
/// each `+`. Mirrors [`sp_choices`].
pub fn choices(text: &Vec<char>, from: usize) -> (r: Result<(Vec<Choice>, usize), ParseErr>)
    requires
        from <= text.len(),
    ensures
        match r {
            Ok((cs, p)) => sp_choices(text@, from as int) == Ok::<
                (Seq<SpecChoice>, int),
                (int, Expected),
            >((cs.deep_view(), p as int)) && from < p <= text.len(),
            Err(e) => sp_choices(text@, from as int) == Err::<
                (Seq<SpecChoice>, int),
                (int, Expected),
            >((e.at as int, e.expected)),
        },
    decreases text.len() - from,
{
    match parse_choice(text, from) {
        Err(e) => Err(e),
        Ok((c, p)) => {
            let ghost cv = c@;
            let a = ws_end(text, p);
            if a < text.len() && text[a] == '+' {
                match choices(text, a) {
                    Err(e) => Err(e),
                    Ok((rest, q)) => {
                        let ghost rv = rest.deep_view();
                        let mut v = rest;
                        v.insert(0, c);
                        proof {
                            assert(v.deep_view() =~= seq![cv] + rv);
                        }
                        Ok((v, q))
                    },
                }
            } else {
                let mut v: Vec<Choice> = Vec::new();
                v.push(c);
                proof {
                    assert(v.deep_view() =~= seq![cv]);
                }
                Ok((v, p))
            }
        },
    }
}

/// Parses a knot's ending: choices when the lookahead is `+`, a divert
/// when it is `->`, a rejection otherwise. Mirrors [`sp_knot_end`].
pub fn knot_end(text: &Vec<char>, from: usize) -> (r: Result<(KnotEnding, usize), ParseErr>)
    requires
        from <= text.len(),
    ensures
        match r {
            Ok((end, p)) => sp_knot_end(text@, from as int) == Ok::<
                (SpecKnotEnding, int),
                (int, Expected),
            >((end@, p as int)) && from < p <= text.len(),
            Err(e) => sp_knot_end(text@, from as int) == Err::<
                (SpecKnotEnding, int),
                (int, Expected),
            >((e.at as int, e.expected)),
        },
{
    let a = ws_end(text, from);
    if a < text.len() && text[a] == '+' {
        match choices(text, a) {
            Err(e) => Err(e),
            Ok((cs, p)) => Ok((KnotEnding::Choices(cs), p)),
        }
    } else if a < text.len() && a + 1 < text.len() && text[a] == '-' && text[a + 1] == '>' {
        match divert(text, a) {
            Err(e) => Err(e),
            Ok((d, p)) => Ok((KnotEnding::Divert(d), p)),
        }
    } else {
        Err(ParseErr { at: a, expected: Expected::ChoiceOrDivert })
    }
}

/// Parses a knot header and returns its title. Mirrors
/// [`sp_knot_header`].
pub fn knot_title(text: &Vec<char>, from: usize) -> (r: Result<(String, usize), ParseErr>)
    requires
        from <= text.len(),
    ensures
        match r {
            Ok((t, p)) => sp_knot_header(text@, from as int) == Ok::<
                (Seq<char>, int),
                (int, Expected),
            >((t@, p as int)) && from < p <= text.len(),
            Err(e) => sp_knot_header(text@, from as int) == Err::<
                (Seq<char>, int),
                (int, Expected),
            >((e.at as int, e.expected)),
        },
{
    let a = ws_end(text, from);
    if a < text.len() && a + 1 < text.len() && text[a] == '=' && text[a + 1] == '=' {
        let b = eq_run_end_at(text, a + 2);
        let c = ws_end(text, b);
        let d = title_stop_at(text, c);
        if d == c {
            return Err(ParseErr { at: c, expected: Expected::KnotTitle });
        }
        let cap = copy_range(text, c, d);
        let e1 = inline_ws_end(text, d);
        let f = if e1 < text.len() && e1 + 1 < text.len() && text[e1] == '=' && text[e1 + 1]
            == '=' {
            let run = eq_run_end_at(text, e1 + 2);
            inline_ws_end(text, run)
        } else {
            e1
        };
        if f >= text.len() {
            Ok((chars_to_string(&cap), f))
        } else {
            let g = line_end_after(text, f);
            if g > f {
                Ok((chars_to_string(&cap), g))
            } else {
                Err(ParseErr { at: f, expected: Expected::HeaderEnd })
            }
        }
    } else {
        Err(ParseErr { at: a, expected: Expected::KnotHeader })
    }
}

/// Parses a knot's body: dialog lines, then exactly one ending. Mirrors
/// [`sp_knot_body`].
fn knot_body_at(text: &Vec<char>, from: usize) -> (r: Result<
    ((Vec<DialogLine>, KnotEnding), usize),
    ParseErr,
>)
    requires
        from <= text.len(),
    ensures
        match r {
            Ok(((lines, end), p)) => sp_knot_body(text@, from as int) == Ok::<
                ((Seq<SpecDialogLine>, SpecKnotEnding), int),
                (int, Expected),
            >(((lines.deep_view(), end@), p as int)) && from < p <= text.len(),
            Err(e) => sp_knot_body(text@, from as int) == Err::<
                ((Seq<SpecDialogLine>, SpecKnotEnding), int),
                (int, Expected),
            >((e.at as int, e.expected)),
        },
{
    let (lines, p) = dialog_lines(text, from);
    match knot_end(text, p) {
        Err(e) => Err(e),
        Ok((end, q)) => Ok(((lines, end), q)),
    }
}

/// Builds the reserved title of the implicit leading knot.
fn intro_title_string() -> (r: String)
    ensures
        r@ == intro_title(),
{
    let mut v: Vec<char> = Vec::new();
    v.push('I');
    v.push('N');
    v.push('T');
    v.push('R');
    v.push('O');
    proof {
        assert(v@ =~= intro_title());
    }
    chars_to_string(&v)
}

/// Parses the leading knot — dialog lines and an ending, no header —
/// under the reserved title `INTRO`. Mirrors [`sp_knot_body`].
pub fn knot_without_title(text: &Vec<char>, from: usize) -> (r: Result<(Knot, usize), ParseErr>)
    requires
        from <= text.len(),
    ensures
        match r {
            Ok((k, p)) => sp_knot_body(text@, from as int) matches Ok(v) && k@
                == (SpecKnot { title: intro_title(), body: v.0.0, ending: v.0.1 }) && p as int
                == v.1 && from < p <= text.len(),
            Err(e) => sp_knot_body(text@, from as int) == Err::<
                ((Seq<SpecDialogLine>, SpecKnotEnding), int),
                (int, Expected),
            >((e.at as int, e.expected)),
        },
{
    match knot_body_at(text, from) {
        Err(e) => Err(e),
        Ok(((lines, end), q)) => Ok(
            (Knot { title: intro_title_string(), body: lines, ending: end }, q),
        ),
    }
}

/// True when one of `seen` holds exactly the characters of `title`.
fn contains_title(seen: &Vec<String>, title: &String) -> (r: bool)
    ensures
        r == seen.deep_view().contains(title@),
{
    let mut i: usize = 0;
    while i < seen.len()
        invariant
            i <= seen.len(),
            forall|k: int| 0 <= k < i ==> seen.deep_view()[k] != title@,
        decreases seen.len() - i,
    {
        if str_eq(seen[i].as_str(), title.as_str()) {
            proof {
                assert(seen.deep_view()[i as int] == title@);
            }
            return true;
        }
        i = i + 1;
    }
    proof {
        assert(!seen.deep_view().contains(title@)) by {
            if seen.deep_view().contains(title@) {
                let k = choose|k: int|
                    0 <= k < seen.deep_view().len() && seen.deep_view()[k] == title@;
                assert(seen.deep_view()[k] != title@);
            }
        }
    }
    false
}

/// Parses the remaining explicit knots through the end of the input,
/// rejecting a header whose title stands in `seen` or repeats. Mirrors
/// [`sp_knots`].
fn knots(text: &Vec<char>, from: usize, seen: Vec<String>) -> (r: Result<
    (Vec<Knot>, usize),
    ParseErr,
>)
    requires
        from <= text.len(),
    ensures
        match r {
            Ok((ks, p)) => sp_knots(text@, from as int, seen.deep_view()) == Ok::<
                (Seq<SpecKnot>, int),
                (int, Expected),
            >((ks.deep_view(), p as int)) && from <= p <= text.len(),
            Err(e) => sp_knots(text@, from as int, seen.deep_view()) == Err::<
                (Seq<SpecKnot>, int),
                (int, Expected),
            >((e.at as int, e.expected)),
        },
    decreases text.len() - from,
{
    let ghost sv = seen.deep_view();
    let a = ws_end(text, from);
    if a >= text.len() {
        let v: Vec<Knot> = Vec::new();
        proof {
            assert(v.deep_view() =~= Seq::<SpecKnot>::empty());
        }
        return Ok((v, a));
    }
    match knot_title(text, a) {
        Err(e) => Err(e),
        Ok((title, p)) => {
            if contains_title(&seen, &title) {
                Err(ParseErr { at: a, expected: Expected::UniqueKnotTitle })
            } else {
                match knot_body_at(text, p) {
                    Err(e) => Err(e),
                    Ok(((lines, end), q)) => {
                        let ghost tv = title@;
                        let title2 = title.clone();
                        let knot = Knot { title, body: lines, ending: end };
                        let ghost kv = knot@;
                        let mut seen2 = seen;
                        seen2.push(title2);
                        proof {
                            assert(seen2.deep_view() =~= sv.push(tv));
                        }
                        match knots(text, q, seen2) {
                            Err(e) => Err(e),
                            Ok((rest, after)) => {
                                let ghost rv = rest.deep_view();
                                let mut v = rest;
                                v.insert(0, knot);
                                proof {
                                    assert(v.deep_view() =~= seq![kv] + rv);
                                }
                                Ok((v, after))
                            },
                        }
                    },
                }
            }
        },
    }
}

/// Parses a whole document held in a character buffer. Mirrors
/// [`sp_story`].
fn story_at(text: &Vec<char>) -> (r: Result<Story, ParseErr>)
    ensures
        match r {
            Ok(st) => sp_story(text@) == Ok::<SpecStory, (int, Expected)>(st@),
            Err(e) => sp_story(text@) == Err::<SpecStory, (int, Expected)>(
                (e.at as int, e.expected),
            ),
        },
{
    match knot_body_at(text, 0) {
        Err(e) => Err(e),
        Ok(((lines, end), p)) => {
            let title = intro_title_string();
            let title2 = title.clone();
            let intro = Knot { title, body: lines, ending: end };
            let ghost iv = intro@;
            let mut seen: Vec<String> = Vec::new();
            seen.push(title2);
            proof {
                assert(seen.deep_view() =~= seq![intro_title()]);
            }
            match knots(text, p, seen) {
                Err(e) => Err(e),
                Ok((rest, _after)) => {
                    let ghost rv = rest.deep_view();
                    let mut ks = rest;
                    ks.insert(0, intro);
                    proof {
                        assert(ks.deep_view() =~= seq![iv] + rv);
                    }
                    Ok(Story { knots: ks })
                },
            }
        },
    }
}

/// What [`parse_story`] promises of its result: a parsed story is
/// exactly what the grammar accepts, and a failure carries the grammar's
/// failing offset translated to its (row, column) position.
pub open spec fn parse_result_matches(t: Seq<char>, r: Result<Story, SyntaxError>) -> bool {
    match r {
        Ok(st) => sp_story(t) == Ok::<SpecStory, (int, Expected)>(st@),
        Err(e) => sp_story(t) matches Err(er) && e.expected == er.1 && e.row as int
            == spec_row_col(t, er.0).0 && e.col as int == spec_row_col(t, er.0).1,
    }
}

/// Parses a whole document: the implicit leading knot (reserved title
/// `INTRO`), then zero or more explicit knots, through the end of the
/// input. All-or-nothing: any failure anywhere aborts the whole parse
/// and is reported at its 1-indexed (row, column) position together with
/// the construct that was expected there.
pub fn parse_story(text: &str) -> (r: Result<Story, SyntaxError>)
    ensures
        parse_result_matches(text@, r),
{
    let chars = str_to_chars(text);
    match story_at(&chars) {
        Ok(st) => Ok(st),
        Err(pe) => {
            let rc = index_to_row_col(pe.at, text);
            Err(SyntaxError { row: rc.0, col: rc.1, expected: pe.expected })
        },
    }
}

/// Parses one dialog line standing at the start of `text`, after any
/// leading whitespace. Returns the line together with the character
/// offset at which parsing stopped.
pub fn dialog_line(text: &str) -> (r: Result<(DialogLine, usize), ParseErr>)
    ensures
        match r {
            Ok((dl, p)) => sp_dialog_line(text@, skip_ws(text@, 0)) == Ok::<
                (SpecDialogLine, int),
                (int, Expected),
            >((dl@, p as int)) && p <= text@.len(),
            Err(e) => sp_dialog_line(text@, skip_ws(text@, 0)) == Err::<
                (SpecDialogLine, int),
                (int, Expected),
            >((e.at as int, e.expected)),
        },
{
    let chars = str_to_chars(text);
    let a = ws_end(&chars, 0);
    dialog_line_at(&chars, a)
}

} // verus!
