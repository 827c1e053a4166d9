//! Laws of the parser, proved once and for all over the grammar of
//! [`crate::grammar`]. Since every executable parse function is proved
//! to return exactly what the grammar says, these laws hold of every
//! value the parser ever returns.

use vstd::prelude::*;
use crate::err::{Expected, SyntaxError};
use crate::grammar::{
    intro_title, sp_body_lines, sp_choice, sp_choices, sp_dialog_line, sp_divert, sp_knot_body,
    sp_knot_end, sp_knot_header, sp_knots, sp_opt_comment, sp_rest_of_line, sp_story, sp_tags,
};
use crate::model::{
    knot_wf, story_wf, SpecChoice, SpecDialogLine, SpecKnot, SpecKnotEnding, SpecStory, Story,
};
use crate::parser::parse_result_matches;
use crate::scan::{
    comment_opens, dialog_stop, divert_opens, find_dialog_stop, is_line_break, is_ws,
    lemma_eq_run_end_bounds, lemma_find_comment_close_bounds, lemma_find_dialog_stop_bounds,
    lemma_find_line_break_bounds, lemma_find_tag_stop_bounds, lemma_find_title_stop_bounds,
    lemma_rtrim_bounds, lemma_skip_inline_ws_bounds, lemma_skip_ws_bounds, rtrim_from, skip_ws,
};

verus! {

// ---------------------------------------------------------------------
// Positions: every parse that accepts lands strictly inside the input.
// ---------------------------------------------------------------------

proof fn lemma_sp_rest_of_line_pos(s: Seq<char>, i: int, exp: Expected)
    requires
        0 <= i <= s.len(),
    ensures
        match sp_rest_of_line(s, i, exp) {
            Ok((_, p)) => i < p <= s.len(),
            Err(_) => true,
        },
{
    lemma_find_line_break_bounds(s, i);
}

proof fn lemma_sp_tags_pos(s: Seq<char>, i: int)
    requires
        0 <= i <= s.len(),
    ensures
        i <= sp_tags(s, i).1 <= s.len(),
    decreases s.len() - i,
{
    if i < s.len() && s[i] == '#' {
        lemma_find_tag_stop_bounds(s, i + 1);
        let j = crate::scan::find_tag_stop(s, i + 1);
        lemma_sp_tags_pos(s, j);
    }
}

proof fn lemma_sp_opt_comment_pos(s: Seq<char>, i: int)
    requires
        0 <= i <= s.len(),
    ensures
        match sp_opt_comment(s, i) {
            Ok(m) => i <= m <= s.len(),
            Err(_) => true,
        },
{
    if comment_opens(s, i) {
        if s[i + 1] == '/' {
            lemma_find_line_break_bounds(s, i + 2);
        } else {
            lemma_find_comment_close_bounds(s, i + 2);
        }
    }
}

proof fn lemma_sp_dialog_line_pos(s: Seq<char>, i: int)
    requires
        0 <= i <= s.len(),
    ensures
        match sp_dialog_line(s, i) {
            Ok((_, p)) => i < p <= s.len(),
            Err(_) => true,
        },
{
    lemma_find_dialog_stop_bounds(s, i);
    let j = find_dialog_stop(s, i);
    if j != i {
        lemma_sp_tags_pos(s, j);
        let k = sp_tags(s, j).1;
        lemma_sp_opt_comment_pos(s, k);
    }
}

proof fn lemma_sp_body_lines_pos(s: Seq<char>, i: int)
    requires
        0 <= i <= s.len(),
    ensures
        i <= sp_body_lines(s, i).1 <= s.len(),
    decreases s.len() - i,
{
    lemma_skip_ws_bounds(s, i);
    let a = skip_ws(s, i);
    if a >= s.len() {
    } else if s[a] == '+' || divert_opens(s, a) {
    } else if comment_opens(s, a) {
        if s[a + 1] == '/' {
            lemma_find_line_break_bounds(s, a + 2);
            let b = crate::scan::find_line_break(s, a + 2);
            if i < b && b <= s.len() {
                lemma_sp_body_lines_pos(s, b);
            }
        } else {
            lemma_find_comment_close_bounds(s, a + 2);
            let c = crate::scan::find_comment_close(s, a + 2);
            if c + 1 < s.len() && i < c + 2 {
                lemma_sp_body_lines_pos(s, c + 2);
            }
        }
    } else {
        lemma_sp_dialog_line_pos(s, a);
        match sp_dialog_line(s, a) {
            Err(_) => {},
            Ok((_, p)) => {
                if i < p && p <= s.len() {
                    lemma_sp_body_lines_pos(s, p);
                }
            },
        }
    }
}

proof fn lemma_sp_divert_pos(s: Seq<char>, i: int)
    requires
        0 <= i <= s.len(),
    ensures
        match sp_divert(s, i) {
            Ok((_, p)) => i < p <= s.len(),
            Err(_) => true,
        },
{
    lemma_skip_ws_bounds(s, i);
    let a = skip_ws(s, i);
    if divert_opens(s, a) {
        lemma_skip_ws_bounds(s, a + 2);
        let b = skip_ws(s, a + 2);
        lemma_sp_rest_of_line_pos(s, b, Expected::DivertTarget);
    }
}

proof fn lemma_sp_choice_pos(s: Seq<char>, i: int)
    requires
        0 <= i <= s.len(),
    ensures
        match sp_choice(s, i) {
            Ok((_, p)) => i < p <= s.len(),
            Err(_) => true,
        },
{
    if 0 <= i && i < s.len() && s[i] == '+' && i + 1 < s.len() && is_ws(s[i + 1]) {
        lemma_skip_ws_bounds(s, i + 1);
        let b = skip_ws(s, i + 1);
        lemma_sp_rest_of_line_pos(s, b, Expected::ChoiceText);
        match sp_rest_of_line(s, b, Expected::ChoiceText) {
            Err(_) => {},
            Ok((_, p0)) => {
                lemma_sp_body_lines_pos(s, p0);
                let q = sp_body_lines(s, p0).1;
                lemma_sp_divert_pos(s, q);
            },
        }
    }
}

proof fn lemma_sp_choices_pos(s: Seq<char>, i: int)
    requires
        0 <= i <= s.len(),
    ensures
        match sp_choices(s, i) {
            Ok((_, p)) => i < p <= s.len(),
            Err(_) => true,
        },
    decreases s.len() - i,
{
    lemma_sp_choice_pos(s, i);
    match sp_choice(s, i) {
        Err(_) => {},
        Ok((_, p1)) => {
            lemma_skip_ws_bounds(s, p1);
            let a = skip_ws(s, p1);
            if a < s.len() && s[a] == '+' && i < a {
                lemma_sp_choices_pos(s, a);
            }
        },
    }
}

proof fn lemma_sp_knot_end_pos(s: Seq<char>, i: int)
    requires
        0 <= i <= s.len(),
    ensures
        match sp_knot_end(s, i) {
            Ok((_, p)) => i < p <= s.len(),
            Err(_) => true,
        },
{
    lemma_skip_ws_bounds(s, i);
    let a = skip_ws(s, i);
    if a < s.len() && s[a] == '+' {
        lemma_sp_choices_pos(s, a);
    } else if divert_opens(s, a) {
        lemma_sp_divert_pos(s, a);
    }
}

proof fn lemma_sp_knot_body_pos(s: Seq<char>, i: int)
    requires
        0 <= i <= s.len(),
    ensures
        match sp_knot_body(s, i) {
            Ok((_, q)) => i < q <= s.len(),
            Err(_) => true,
        },
{
    lemma_sp_body_lines_pos(s, i);
    let p = sp_body_lines(s, i).1;
    lemma_sp_knot_end_pos(s, p);
}

proof fn lemma_sp_knot_header_pos(s: Seq<char>, i: int)
    requires
        0 <= i <= s.len(),
    ensures
        match sp_knot_header(s, i) {
            Ok((_, p)) => i < p <= s.len(),
            Err(_) => true,
        },
{
    lemma_skip_ws_bounds(s, i);
    let a = skip_ws(s, i);
    if a + 1 < s.len() && s[a] == '=' && s[a + 1] == '=' {
        lemma_eq_run_end_bounds(s, a + 2);
        let b = crate::scan::eq_run_end(s, a + 2);
        lemma_skip_ws_bounds(s, b);
        let c = skip_ws(s, b);
        lemma_find_title_stop_bounds(s, c);
        let d = crate::scan::find_title_stop(s, c);
        if d != c {
            lemma_skip_inline_ws_bounds(s, d);
            let e = crate::scan::skip_inline_ws(s, d);
            if e + 1 < s.len() && s[e] == '=' && s[e + 1] == '=' {
                lemma_eq_run_end_bounds(s, e + 2);
                lemma_skip_inline_ws_bounds(s, crate::scan::eq_run_end(s, e + 2));
            }
        }
    }
}

// ---------------------------------------------------------------------
// Comment and tag hygiene of parsed dialog text.
// ---------------------------------------------------------------------

/// Dialog text as the parser produces it: no line break, no tag opener
/// `#`, and no comment opener `//` or `/*` anywhere in it.
pub open spec fn dialog_text_clean(t: Seq<char>) -> bool {
    &&& forall|k: int| 0 <= k < t.len() ==> !(is_line_break(#[trigger] t[k]) || t[k] == '#')
    &&& forall|k: int|
        #![trigger t[k]]
        0 <= k && k + 1 < t.len() ==> !(t[k] == '/' && (t[k + 1] == '/' || t[k + 1] == '*'))
}

/// Every dialog line of the run has clean text.
pub open spec fn dialog_lines_clean(ls: Seq<SpecDialogLine>) -> bool {
    forall|m: int| 0 <= m < ls.len() ==> dialog_text_clean((#[trigger] ls[m]).text)
}

/// Every dialog line of the knot — in its body and in the bodies of its
/// choices — has clean text.
pub open spec fn knot_clean(k: SpecKnot) -> bool {
    &&& dialog_lines_clean(k.body)
    &&& match k.ending {
        SpecKnotEnding::Choices(cs) => forall|m: int|
            0 <= m < cs.len() ==> dialog_lines_clean((#[trigger] cs[m]).body),
        SpecKnotEnding::Divert(_) => true,
    }
}

/// Every knot of the story is clean.
pub open spec fn story_clean(st: SpecStory) -> bool {
    forall|m: int| 0 <= m < st.knots.len() ==> knot_clean(#[trigger] st.knots[m])
}

proof fn lemma_sp_dialog_line_clean(s: Seq<char>, i: int, dl: SpecDialogLine, p: int)
    requires
        0 <= i <= s.len(),
        sp_dialog_line(s, i) == Ok::<(SpecDialogLine, int), (int, Expected)>((dl, p)),
    ensures
        dialog_text_clean(dl.text),
{
    lemma_find_dialog_stop_bounds(s, i);
    let j = find_dialog_stop(s, i);
    lemma_rtrim_bounds(s, i, j);
    let e = rtrim_from(s, i, j);
    assert(dl.text == s.subrange(i, e));
    assert forall|k: int| 0 <= k < dl.text.len() implies !(is_line_break(#[trigger] dl.text[k])
        || dl.text[k] == '#') by {
        assert(dl.text[k] == s[i + k]);
        assert(!dialog_stop(s, i + k));
    }
    assert forall|k: int|
        #![trigger dl.text[k]]
        0 <= k && k + 1 < dl.text.len() implies !(dl.text[k] == '/' && (dl.text[k + 1] == '/'
        || dl.text[k + 1] == '*')) by {
        if dl.text[k] == '/' && (dl.text[k + 1] == '/' || dl.text[k + 1] == '*') {
            assert(dl.text[k] == s[i + k]);
            assert(dl.text[k + 1] == s[i + k + 1]);
            assert(i + k + 1 < s.len());
            assert(comment_opens(s, i + k));
            assert(!dialog_stop(s, i + k));
        }
    }
}

proof fn lemma_sp_body_lines_clean(s: Seq<char>, i: int)
    requires
        0 <= i <= s.len(),
    ensures
        dialog_lines_clean(sp_body_lines(s, i).0),
    decreases s.len() - i,
{
    lemma_skip_ws_bounds(s, i);
    let a = skip_ws(s, i);
    if a >= s.len() {
    } else if s[a] == '+' || divert_opens(s, a) {
    } else if comment_opens(s, a) {
        if s[a + 1] == '/' {
            let b = crate::scan::find_line_break(s, a + 2);
            lemma_find_line_break_bounds(s, a + 2);
            if i < b && b <= s.len() {
                lemma_sp_body_lines_clean(s, b);
            }
        } else {
            let c = crate::scan::find_comment_close(s, a + 2);
            lemma_find_comment_close_bounds(s, a + 2);
            if c + 1 < s.len() && i < c + 2 {
                lemma_sp_body_lines_clean(s, c + 2);
            }
        }
    } else {
        match sp_dialog_line(s, a) {
            Err(_) => {},
            Ok((dl, p)) => {
                lemma_sp_dialog_line_clean(s, a, dl, p);
                if i < p && p <= s.len() {
                    lemma_sp_body_lines_clean(s, p);
                    let rest = sp_body_lines(s, p).0;
                    let whole = sp_body_lines(s, i).0;
                    assert(whole == seq![dl] + rest);
                    assert forall|m: int| 0 <= m < whole.len() implies dialog_text_clean(
                        (#[trigger] whole[m]).text,
                    ) by {
                        if m > 0 {
                            assert(whole[m] == rest[m - 1]);
                        }
                    }
                }
            },
        }
    }
}

proof fn lemma_sp_choice_clean(s: Seq<char>, i: int, c: SpecChoice, p: int)
    requires
        0 <= i <= s.len(),
        sp_choice(s, i) == Ok::<(SpecChoice, int), (int, Expected)>((c, p)),
    ensures
        dialog_lines_clean(c.body),
{
    lemma_skip_ws_bounds(s, i + 1);
    let b = skip_ws(s, i + 1);
    lemma_sp_rest_of_line_pos(s, b, Expected::ChoiceText);
    match sp_rest_of_line(s, b, Expected::ChoiceText) {
        Err(_) => {},
        Ok((_, p0)) => {
            lemma_sp_body_lines_clean(s, p0);
        },
    }
}

proof fn lemma_sp_choices_good(s: Seq<char>, i: int, cs: Seq<SpecChoice>, p: int)
    requires
        0 <= i <= s.len(),
        sp_choices(s, i) == Ok::<(Seq<SpecChoice>, int), (int, Expected)>((cs, p)),
    ensures
        cs.len() >= 1,
        forall|m: int| 0 <= m < cs.len() ==> dialog_lines_clean((#[trigger] cs[m]).body),
    decreases s.len() - i,
{
    lemma_sp_choice_pos(s, i);
    match sp_choice(s, i) {
        Err(_) => {},
        Ok((c, p1)) => {
            lemma_sp_choice_clean(s, i, c, p1);
            lemma_skip_ws_bounds(s, p1);
            let a = skip_ws(s, p1);
            if a < s.len() && s[a] == '+' && i < a {
                match sp_choices(s, a) {
                    Err(_) => {},
                    Ok((rest, _)) => {
                        lemma_sp_choices_good(s, a, rest, sp_choices(s, a)->Ok_0.1);
                        assert(cs == seq![c] + rest);
                        assert forall|m: int| 0 <= m < cs.len() implies dialog_lines_clean(
                            (#[trigger] cs[m]).body,
                        ) by {
                            if m > 0 {
                                assert(cs[m] == rest[m - 1]);
                            }
                        }
                    },
                }
            } else {
                assert(cs == seq![c]);
            }
        },
    }
}

proof fn lemma_sp_knot_body_good(
    s: Seq<char>,
    i: int,
    lines: Seq<SpecDialogLine>,
    end: SpecKnotEnding,
    q: int,
)
    requires
        0 <= i <= s.len(),
        sp_knot_body(s, i) == Ok::<((Seq<SpecDialogLine>, SpecKnotEnding), int), (int, Expected)>(
            ((lines, end), q),
        ),
    ensures
        dialog_lines_clean(lines),
        match end {
            SpecKnotEnding::Choices(cs) => cs.len() >= 1 && forall|m: int|
                0 <= m < cs.len() ==> dialog_lines_clean((#[trigger] cs[m]).body),
            SpecKnotEnding::Divert(_) => true,
        },
{
    lemma_sp_body_lines_clean(s, i);
    lemma_sp_body_lines_pos(s, i);
    let p = sp_body_lines(s, i).1;
    lemma_skip_ws_bounds(s, p);
    let a = skip_ws(s, p);
    if a < s.len() && s[a] == '+' {
        match sp_choices(s, a) {
            Err(_) => {},
            Ok((cs, cp)) => {
                lemma_sp_choices_good(s, a, cs, cp);
            },
        }
    }
}

proof fn lemma_sp_knots_good(s: Seq<char>, i: int, seen: Seq<Seq<char>>, ks: Seq<SpecKnot>, p: int)
    requires
        0 <= i <= s.len(),
        sp_knots(s, i, seen) == Ok::<(Seq<SpecKnot>, int), (int, Expected)>((ks, p)),
    ensures
        forall|m: int| 0 <= m < ks.len() ==> knot_wf(#[trigger] ks[m]),
        forall|m: int| 0 <= m < ks.len() ==> knot_clean(#[trigger] ks[m]),
        forall|m: int| 0 <= m < ks.len() ==> !seen.contains((#[trigger] ks[m]).title),
        forall|m: int, n: int| 0 <= m < n < ks.len() ==> ks[m].title != ks[n].title,
    decreases s.len() - i,
{
    lemma_skip_ws_bounds(s, i);
    let a = skip_ws(s, i);
    if a >= s.len() {
    } else {
        lemma_sp_knot_header_pos(s, a);
        match sp_knot_header(s, a) {
            Err(_) => {},
            Ok((title, p0)) => {
                if !seen.contains(title) {
                    match sp_knot_body(s, p0) {
                        Err(_) => {},
                        Ok(((lines, end), q)) => {
                            lemma_sp_knot_body_good(s, p0, lines, end, q);
                            let knot = SpecKnot { title, body: lines, ending: end };
                            if i < q && q <= s.len() {
                                match sp_knots(s, q, seen.push(title)) {
                                    Err(_) => {},
                                    Ok((rest, r)) => {
                                        lemma_sp_knots_good(s, q, seen.push(title), rest, r);
                                        assert(ks == seq![knot] + rest);
                                        assert forall|m: int| 0 <= m < ks.len() implies knot_wf(
                                            #[trigger] ks[m],
                                        ) && knot_clean(ks[m]) by {
                                            if m > 0 {
                                                assert(ks[m] == rest[m - 1]);
                                            }
                                        }
                                        assert forall|m: int| 0 <= m < ks.len() implies !seen
                                            .contains((#[trigger] ks[m]).title) by {
                                            if m > 0 {
                                                assert(ks[m] == rest[m - 1]);
                                                assert(!seen.push(title).contains(rest[m - 1].title));
                                                if seen.contains(rest[m - 1].title) {
                                                    let w = choose|w: int|
                                                        0 <= w < seen.len() && seen[w] == rest[m
                                                            - 1].title;
                                                    assert(seen.push(title)[w] == rest[m - 1].title);
                                                }
                                            }
                                        }
                                        assert forall|m: int, n: int|
                                            0 <= m < n < ks.len() implies ks[m].title != ks[n].title by {
                                            if m == 0 {
                                                assert(ks[n] == rest[n - 1]);
                                                assert(!seen.push(title).contains(rest[n - 1].title));
                                                assert(seen.push(title)[seen.len() as int] == title);
                                                if rest[n - 1].title == title {
                                                    assert(seen.push(title).contains(title));
                                                }
                                            } else {
                                                assert(ks[m] == rest[m - 1]);
                                                assert(ks[n] == rest[n - 1]);
                                            }
                                        }
                                    },
                                }
                            } else {
                                assert(ks == seq![knot]);
                            }
                        },
                    }
                }
            },
        }
    }
}

// ---------------------------------------------------------------------
// The laws.
// ---------------------------------------------------------------------

/// Law: parsing is deterministic. Two results that both conform to the
/// parser's contract on the same text are equal — equal story views on
/// success, equal positioned errors on failure, and never one of each.
pub proof fn lemma_parse_deterministic(
    t: Seq<char>,
    r1: Result<Story, SyntaxError>,
    r2: Result<Story, SyntaxError>,
)
    requires
        parse_result_matches(t, r1),
        parse_result_matches(t, r2),
    ensures
        match (r1, r2) {
            (Ok(a), Ok(b)) => a@ == b@,
            (Err(x), Err(y)) => x == y,
            _ => false,
        },
{
}

/// Law: every story the parser accepts is well-formed. Each knot ends in
/// exactly one of a non-empty run of choices or a divert — never both,
/// never neither — and no two knots share a title: a duplicate title is
/// rejected as a syntax error, never silently overwritten. That every
/// choice carries a divert needs no lemma: the model makes the divert a
/// mandatory field, and the grammar rejects a choice without one.
pub proof fn lemma_parse_story_wf(t: Seq<char>, st: SpecStory)
    requires
        sp_story(t) == Ok::<SpecStory, (int, Expected)>(st),
    ensures
        story_wf(st),
{
    match sp_knot_body(t, 0) {
        Err(_) => {},
        Ok(((lines, end), p)) => {
            lemma_sp_knot_body_good(t, 0, lines, end, p);
            lemma_sp_knot_body_pos(t, 0);
            let intro = SpecKnot { title: intro_title(), body: lines, ending: end };
            match sp_knots(t, p, seq![intro_title()]) {
                Err(_) => {},
                Ok((rest, q)) => {
                    lemma_sp_knots_good(t, p, seq![intro_title()], rest, q);
                    assert(st.knots == seq![intro] + rest);
                    assert forall|m: int| 0 <= m < st.knots.len() implies knot_wf(
                        #[trigger] st.knots[m],
                    ) by {
                        if m > 0 {
                            assert(st.knots[m] == rest[m - 1]);
                        }
                    }
                    assert forall|m: int, n: int|
                        0 <= m < n < st.knots.len() implies st.knots[m].title != st.knots[n].title by {
                        if m == 0 {
                            assert(st.knots[n] == rest[n - 1]);
                            assert(!seq![intro_title()].contains(rest[n - 1].title));
                            if rest[n - 1].title == intro_title() {
                                assert(seq![intro_title()][0] == intro_title());
                            }
                        } else {
                            assert(st.knots[m] == rest[m - 1]);
                            assert(st.knots[n] == rest[n - 1]);
                        }
                    }
                },
            }
        },
    }
}

/// Law: the parser strips comments and tags. No dialog line of a parsed
/// story — in a knot's body or in a choice's body — carries a line
/// break, a tag opener `#`, or a comment opener `//` or `/*` in its
/// text. (A choice's own text is captured verbatim to the end of its
/// line and is not covered: the grammar leaves it untouched.)
pub proof fn lemma_parse_story_comment_free(t: Seq<char>, st: SpecStory)
    requires
        sp_story(t) == Ok::<SpecStory, (int, Expected)>(st),
    ensures
        story_clean(st),
{
    match sp_knot_body(t, 0) {
        Err(_) => {},
        Ok(((lines, end), p)) => {
            lemma_sp_knot_body_good(t, 0, lines, end, p);
            lemma_sp_knot_body_pos(t, 0);
            let intro = SpecKnot { title: intro_title(), body: lines, ending: end };
            match sp_knots(t, p, seq![intro_title()]) {
                Err(_) => {},
                Ok((rest, q)) => {
                    lemma_sp_knots_good(t, p, seq![intro_title()], rest, q);
                    assert(st.knots == seq![intro] + rest);
                    assert forall|m: int| 0 <= m < st.knots.len() implies knot_clean(
                        #[trigger] st.knots[m],
                    ) by {
                        if m > 0 {
                            assert(st.knots[m] == rest[m - 1]);
                        }
                    }
                },
            }
        },
    }
}

} // verus!
