//! Error types for the script parser.
//!
//! Every grammar-level failure is fatal to the whole parse: there is no
//! recovery or partial result. A failure names the construct that was
//! expected and where it was expected.

use vstd::prelude::*;

verus! {

/// The grammar construct that failed to match.
#[derive(Clone, Copy, Debug, PartialEq, Eq, Structural)]
pub enum Expected {
    /// A dialog line must start with at least one character of narrative
    /// text.
    DialogText,
    /// A tag: a `#` opening the capture of the tag's text.
    Tag,
    /// A multi-line comment was opened with `/*` but never closed with `*/`.
    CommentClose,
    /// A divert: `->` followed by a target knot title.
    Divert,
    /// The knot title after `->` was missing.
    DivertTarget,
    /// A choice: a line beginning with `+`.
    Choice,
    /// The `+` of a choice must be followed by at least one whitespace
    /// character.
    SpaceAfterChoice,
    /// The choice's own text after `+ ` was missing.
    ChoiceText,
    /// A knot body must end in one-or-more choices or in a divert.
    ChoiceOrDivert,
    /// A knot header: a run of two or more `=` characters.
    KnotHeader,
    /// The title token of a knot header was missing.
    KnotTitle,
    /// After a knot title only a decorative `==`(2+) run and a line
    /// terminator may follow.
    HeaderEnd,
    /// Two knots may not share a title: the later header is rejected.
    UniqueKnotTitle,
}

impl Expected {
    /// The name of the expected construct, as [`describe`](Self::describe)
    /// returns it.
    pub open spec fn spec_describe(&self) -> Seq<char> {
        match self {
            Expected::DialogText => "dialog text"@,
            Expected::Tag => "a tag"@,
            Expected::CommentClose => "a closing */"@,
            Expected::Divert => "a divert"@,
            Expected::DivertTarget => "a divert target"@,
            Expected::Choice => "a choice"@,
            Expected::SpaceAfterChoice => "a space after +"@,
            Expected::ChoiceText => "the choice's text"@,
            Expected::ChoiceOrDivert => "a choice or a divert"@,
            Expected::KnotHeader => "a knot header"@,
            Expected::KnotTitle => "a knot title"@,
            Expected::HeaderEnd => "a line end after the knot title"@,
            Expected::UniqueKnotTitle => "an unused knot title"@,
        }
    }

    /// Names the expected construct, for error reports.
    pub fn describe(&self) -> (r: String)
        ensures
            r@ == self.spec_describe(),
    {
        match self {
            Expected::DialogText => String::from_str("dialog text"),
            Expected::Tag => String::from_str("a tag"),
            Expected::CommentClose => String::from_str("a closing */"),
            Expected::Divert => String::from_str("a divert"),
            Expected::DivertTarget => String::from_str("a divert target"),
            Expected::Choice => String::from_str("a choice"),
            Expected::SpaceAfterChoice => String::from_str("a space after +"),
            Expected::ChoiceText => String::from_str("the choice's text"),
            Expected::ChoiceOrDivert => String::from_str("a choice or a divert"),
            Expected::KnotHeader => String::from_str("a knot header"),
            Expected::KnotTitle => String::from_str("a knot title"),
            Expected::HeaderEnd => String::from_str("a line end after the knot title"),
            Expected::UniqueKnotTitle => String::from_str("an unused knot title"),
        }
    }
}

/// A parse failure at a character offset into the input.
#[derive(Clone, Copy, Debug, PartialEq, Eq, Structural)]
pub struct ParseErr {
    /// Character offset (not byte offset) into the input at which the
    /// expected construct failed to match.
    pub at: usize,
    /// The construct that was expected at `at`.
    pub expected: Expected,
}

/// A parse failure positioned as a 1-indexed (row, column) pair.
///
/// Row and column count characters, not bytes, so they are correct for
/// text containing multi-byte characters. The degenerate positions follow
/// [`crate::pos::spec_row_col`]: `(0, 0)` for an empty document and
/// `(0, 1)` for an offset at or past the end of the input.
#[derive(Clone, Copy, Debug, PartialEq, Eq, Structural)]
pub struct SyntaxError {
    /// 1-indexed row of the failure.
    pub row: usize,
    /// 1-indexed column of the failure.
    pub col: usize,
    /// The construct that was expected at (row, col).
    pub expected: Expected,
}

} // verus!
