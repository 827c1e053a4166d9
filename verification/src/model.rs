//! The story document model.
//!
//! A parsed document is a [`Story`]: a sequence of [`Knot`]s with pairwise
//! distinct titles. Every knot owns its dialog lines and exactly one
//! [`KnotEnding`]; every [`Choice`] owns its body and a mandatory
//! [`Divert`]. Cross-knot references are plain title strings, resolved by
//! lookup against the story — never object references — so the model is an
//! acyclic ownership tree.
//!
//! Each executable type has a spec-level counterpart over `Seq`, reached
//! through its view; all parser contracts speak of those counterparts.

use vstd::prelude::*;
use crate::text::str_eq;

verus! {

/// Spec-level counterpart of [`DialogLine`].
#[verifier::ext_equal]
pub ghost struct SpecDialogLine {
    pub text: Seq<char>,
    pub tags: Seq<Seq<char>>,
}

/// Spec-level counterpart of [`Divert`].
#[verifier::ext_equal]
pub ghost struct SpecDivert {
    pub target: Seq<char>,
}

/// Spec-level counterpart of [`Choice`].
#[verifier::ext_equal]
pub ghost struct SpecChoice {
    pub text: Seq<char>,
    pub body: Seq<SpecDialogLine>,
    pub divert: SpecDivert,
}

/// Spec-level counterpart of [`KnotEnding`].
#[verifier::ext_equal]
pub ghost enum SpecKnotEnding {
    Choices(Seq<SpecChoice>),
    Divert(SpecDivert),
}

/// Spec-level counterpart of [`Knot`].
#[verifier::ext_equal]
pub ghost struct SpecKnot {
    pub title: Seq<char>,
    pub body: Seq<SpecDialogLine>,
    pub ending: SpecKnotEnding,
}

/// Spec-level counterpart of [`Story`].
#[verifier::ext_equal]
pub ghost struct SpecStory {
    pub knots: Seq<SpecKnot>,
}

/// One line of narrative text together with its trailing `#`-tags, in
/// source order. The text carries no comment or tag syntax and no
/// surrounding whitespace.
#[derive(Debug, Clone, PartialEq, Eq)]
pub struct DialogLine {
    pub text: String,
    pub tags: Vec<String>,
}

/// An unconditional jump to the knot with the given title, or to the
/// reserved literal `END`, which signals story termination to the
/// downstream runtime.
#[derive(Debug, Clone, PartialEq, Eq)]
pub struct Divert {
    pub target: String,
}

/// A player-selectable option: its own text, an optional run of dialog
/// lines, and a mandatory divert — a choice without a divert is a syntax
/// error, not an optional field.
#[derive(Debug, Clone, PartialEq, Eq)]
pub struct Choice {
    pub text: String,
    pub body: Vec<DialogLine>,
    pub divert: Divert,
}

/// How a knot ends: either one-or-more choices, or a single divert.
/// Exactly one variant is active per knot; a knot body with neither is a
/// syntax error.
#[derive(Debug, Clone, PartialEq, Eq)]
pub enum KnotEnding {
    Choices(Vec<Choice>),
    Divert(Divert),
}

/// A named section of the story: dialog lines followed by one ending.
#[derive(Debug, Clone, PartialEq, Eq)]
pub struct Knot {
    pub title: String,
    pub body: Vec<DialogLine>,
    pub ending: KnotEnding,
}

/// The complete parsed document: knots in source order, with the implicit
/// leading knot (reserved title `INTRO`) first and pairwise distinct
/// titles.
#[derive(Debug, Clone, PartialEq, Eq)]
pub struct Story {
    pub knots: Vec<Knot>,
}

impl View for DialogLine {
    type V = SpecDialogLine;

    open spec fn view(&self) -> SpecDialogLine {
        SpecDialogLine { text: self.text@, tags: self.tags.deep_view() }
    }
}

impl DeepView for DialogLine {
    type V = SpecDialogLine;

    open spec fn deep_view(&self) -> SpecDialogLine {
        self.view()
    }
}

impl View for Divert {
    type V = SpecDivert;

    open spec fn view(&self) -> SpecDivert {
        SpecDivert { target: self.target@ }
    }
}

impl DeepView for Divert {
    type V = SpecDivert;

    open spec fn deep_view(&self) -> SpecDivert {
        self.view()
    }
}

impl View for Choice {
    type V = SpecChoice;

    open spec fn view(&self) -> SpecChoice {
        SpecChoice { text: self.text@, body: self.body.deep_view(), divert: self.divert@ }
    }
}

impl DeepView for Choice {
    type V = SpecChoice;

    open spec fn deep_view(&self) -> SpecChoice {
        self.view()
    }
}

impl View for KnotEnding {
    type V = SpecKnotEnding;

    open spec fn view(&self) -> SpecKnotEnding {
        match self {
            KnotEnding::Choices(cs) => SpecKnotEnding::Choices(cs.deep_view()),
            KnotEnding::Divert(d) => SpecKnotEnding::Divert(d@),
        }
    }
}

impl DeepView for KnotEnding {
    type V = SpecKnotEnding;

    open spec fn deep_view(&self) -> SpecKnotEnding {
        self.view()
    }
}

impl View for Knot {
    type V = SpecKnot;

    open spec fn view(&self) -> SpecKnot {
        SpecKnot { title: self.title@, body: self.body.deep_view(), ending: self.ending@ }
    }
}

impl DeepView for Knot {
    type V = SpecKnot;

    open spec fn deep_view(&self) -> SpecKnot {
        self.view()
    }
}

impl View for Story {
    type V = SpecStory;

    open spec fn view(&self) -> SpecStory {
        SpecStory { knots: self.knots.deep_view() }
    }
}

impl DeepView for Story {
    type V = SpecStory;

    open spec fn deep_view(&self) -> SpecStory {
        self.view()
    }
}

/// A well-formed knot ends in a non-empty run of choices or in a divert:
/// never neither, and the `Choices` variant never holds an empty run.
pub open spec fn knot_wf(k: SpecKnot) -> bool {
    match k.ending {
        SpecKnotEnding::Choices(cs) => cs.len() > 0,
        SpecKnotEnding::Divert(_) => true,
    }
}

/// A well-formed story holds only well-formed knots, under pairwise
/// distinct titles.
pub open spec fn story_wf(st: SpecStory) -> bool {
    &&& forall|i: int| 0 <= i < st.knots.len() ==> knot_wf(#[trigger] st.knots[i])
    &&& forall|i: int, j: int|
        0 <= i < j < st.knots.len() ==> st.knots[i].title != st.knots[j].title
}

/// The first knot of `knots`, from index `i` on, whose title is `title`.
pub open spec fn find_knot_from(knots: Seq<SpecKnot>, title: Seq<char>, i: int) -> Option<
    SpecKnot,
>
    decreases knots.len() - i,
{
    if i < 0 || i >= knots.len() {
        None
    } else if knots[i].title == title {
        Some(knots[i])
    } else {
        find_knot_from(knots, title, i + 1)
    }
}

/// The knot of `st` titled `title`, if any. Titles are unique in a
/// well-formed story, so at most one knot matches.
pub open spec fn find_knot(st: SpecStory, title: Seq<char>) -> Option<SpecKnot> {
    find_knot_from(st.knots, title, 0)
}

impl Default for DialogLine {
    /// The empty dialog line: no text, no tags.
    fn default() -> (r: Self)
        ensures
            r@.text.len() == 0,
            r@.tags.len() == 0,
    {
        DialogLine { text: String::new(), tags: Vec::new() }
    }
}

impl Default for Story {
    /// The empty story: no knots at all.
    fn default() -> (r: Self)
        ensures
            r@.knots.len() == 0,
    {
        Story { knots: Vec::new() }
    }
}

impl Story {
    /// Looks up a knot by its title.
    pub fn get(&self, title: &str) -> (r: Option<&Knot>)
        ensures
            match r {
                Some(k) => find_knot(self@, title@) == Some(k@),
                None => find_knot(self@, title@) is None,
            },
    {
        let mut i: usize = 0;
        while i < self.knots.len()
            invariant
                i <= self.knots.len(),
                find_knot(self@, title@) == find_knot_from(
                    self@.knots,
                    title@,
                    i as int,
                ),
            decreases self.knots.len() - i,
        {
            if str_eq(self.knots[i].title.as_str(), title) {
                return Some(&self.knots[i]);
            }
            i = i + 1;
        }
        None
    }
}

} // verus!
