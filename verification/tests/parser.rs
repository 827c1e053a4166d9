use inkscript::err::Expected;
use inkscript::model::Choice;
use inkscript::model::DialogLine;
use inkscript::model::Divert;
use inkscript::model::Knot;
use inkscript::model::KnotEnding;
use inkscript::model::Story;
use inkscript::parser::dialog_line;
use inkscript::parser::dialog_line_at;
use inkscript::parser::dialog_lines;
use inkscript::parser::divert;
use inkscript::parser::knot_title;
use inkscript::parser::knot_without_title;
use inkscript::parser::opt_comment;
use inkscript::parser::parse_choice;
use inkscript::parser::parse_story;
use inkscript::parser::tag;
use inkscript::parser::tags;
use inkscript::pos::index_to_row_col;

fn chars(s: &str) -> Vec<char> {
    s.chars().collect()
}

fn dl(s: &str) -> DialogLine {
    DialogLine {
        text: s.to_string(),
        tags: vec![],
    }
}

fn dv(s: &str) -> Divert {
    Divert {
        target: s.to_string(),
    }
}

fn find_x(text: &str) -> (usize, usize) {
    index_to_row_col(text.find('X').unwrap(), text)
}

#[test]
fn text_index_to_row_col() {
    assert_eq!(find_x("X"), (1, 1));
    assert_eq!(find_x("     X      "), (1, 6));
    assert_eq!(find_x("     X\n     "), (1, 6));
    assert_eq!(find_x("     \nX     "), (2, 1));
    assert_eq!(find_x("     \n X    "), (2, 2));
    assert_eq!(find_x("\n     X      "), (2, 6));
    assert_eq!(find_x("\n\n     X      "), (3, 6));
    assert_eq!(find_x("\n    \nX      "), (3, 1));
    assert_eq!(find_x(" \n  \nX"), (3, 1));
}

#[test]
fn index_to_row_col_degenerate_inputs() {
    assert_eq!(index_to_row_col(0, ""), (0, 0));
    assert_eq!(index_to_row_col(7, ""), (0, 0));
    assert_eq!(index_to_row_col(3, "abc"), (0, 1));
    assert_eq!(index_to_row_col(99, "abc"), (0, 1));
}

#[test]
fn test_dialog_line() {
    let src = "no line endings";
    assert_eq!(
        dialog_line(src).unwrap(),
        (dl("no line endings"), src.chars().count())
    );

    let src = "one line ending\n";
    assert_eq!(
        dialog_line(src).unwrap(),
        (dl("one line ending"), src.chars().count())
    );

    let src = "both line endings\r\n";
    assert_eq!(
        dialog_line(src).unwrap(),
        (dl("both line endings"), src.chars().count())
    );

    let src = "          line starting with spaces\r\n";
    assert_eq!(
        dialog_line(src).unwrap(),
        (dl("line starting with spaces"), src.chars().count())
    );

    let src = "       \n \r\n   line starting with newlines and spaces\r\n";
    assert_eq!(
        dialog_line(src).unwrap(),
        (
            dl("line starting with newlines and spaces"),
            src.chars().count()
        )
    );
}

#[test]
fn test_divert() {
    let src = chars("-> yeah");
    assert_eq!(divert(&src, 0).unwrap(), (dv("yeah"), src.len()));

    let src = chars("    -> yeah");
    assert_eq!(divert(&src, 0).unwrap(), (dv("yeah"), src.len()));
}

#[test]
fn divert_errors() {
    let src = chars("= x");
    let e = divert(&src, 0).unwrap_err();
    assert_eq!(e.at, 0);
    assert_eq!(e.expected, Expected::Divert);

    let src = chars("->");
    let e = divert(&src, 0).unwrap_err();
    assert_eq!(e.at, 2);
    assert_eq!(e.expected, Expected::DivertTarget);
}

#[test]
fn test_choice() {
    let text = "-> divert";
    let e = parse_choice(&chars(text), 0).unwrap_err();
    assert_eq!(index_to_row_col(e.at, text), (1, 1));
    assert_eq!(e.expected, Expected::Choice);

    let src = chars("+ yeah\n-> divert");
    assert_eq!(
        parse_choice(&src, 0).unwrap(),
        (
            Choice {
                text: "yeah".to_string(),
                body: vec![],
                divert: dv("divert"),
            },
            src.len()
        )
    );

    let src = chars("+ yeah\n   -> divert");
    assert_eq!(
        parse_choice(&src, 0).unwrap(),
        (
            Choice {
                text: "yeah".to_string(),
                body: vec![],
                divert: dv("divert"),
            },
            src.len()
        )
    );

    let src = chars("+ yeah\n  one\ntwo\n     three\n-> divert");
    assert_eq!(
        parse_choice(&src, 0).unwrap(),
        (
            Choice {
                text: "yeah".to_string(),
                body: vec![dl("one"), dl("two"), dl("three")],
                divert: dv("divert"),
            },
            src.len()
        )
    );

    let src = chars("+ yeah\n  one\ntwo\n-> paris");
    assert_eq!(
        parse_choice(&src, 0).unwrap(),
        (
            Choice {
                text: "yeah".to_string(),
                body: vec![dl("one"), dl("two")],
                divert: dv("paris"),
            },
            src.len()
        )
    );

    let src = chars("+ yeah\n  one\ntwo\n   -> paris");
    assert_eq!(
        parse_choice(&src, 0).unwrap(),
        (
            Choice {
                text: "yeah".to_string(),
                body: vec![dl("one"), dl("two")],
                divert: dv("paris"),
            },
            src.len()
        )
    );

    // blank dialog lines inside a choice body are consumed and discarded
    let src = chars("+ yeah\n  \n  one\n   \ntwo\n   -> paris");
    assert_eq!(
        parse_choice(&src, 0).unwrap(),
        (
            Choice {
                text: "yeah".to_string(),
                body: vec![dl("one"), dl("two")],
                divert: dv("paris"),
            },
            src.len()
        )
    );
}

#[test]
fn choice_errors() {
    let src = chars("+x");
    let e = parse_choice(&src, 0).unwrap_err();
    assert_eq!(e.at, 1);
    assert_eq!(e.expected, Expected::SpaceAfterChoice);

    let src = chars("+ ");
    let e = parse_choice(&src, 0).unwrap_err();
    assert_eq!(e.at, 2);
    assert_eq!(e.expected, Expected::ChoiceText);
}

fn paris_knot() -> Knot {
    Knot {
        title: "paris".to_string(),
        body: vec![dl("We are in paris.")],
        ending: KnotEnding::Divert(dv("ending")),
    }
}

fn ending_knot() -> Knot {
    Knot {
        title: "ending".to_string(),
        body: vec![dl("THE END now.")],
        ending: KnotEnding::Divert(dv("END")),
    }
}

const TWO_KNOTS: &str = "to paris\n\
-> paris\n\
== paris\n\
We are in paris.\n\
-> ending\n\
== ending\n\
THE END now.\n\
-> END\n";

const TWO_KNOTS_WITH_CHOICES: &str = "to paris?\n\
+ yeah\n\
yes, please\n\
-> paris\n\
+ no\n\
no, thank you\n\
-> ending\n\
== paris\n\
We are in paris.\n\
-> ending\n\
== ending\n\
THE END now.\n\
-> END\n";

const BASIC_STORY: &str = "Want to go to paris?\n\
PLEASE!?\n\
will you?????????\n\
+ yeah!\n\
-> paris\n\
+ \"Around the world, Monsieur?\"\n\
I was utterly astonished.\n\
\"You are in jest!\" I told him in dignified affront. THIS IS A VERY LONG LINE OF TEXT SO LONG ON MY SO LOOOOOOOOOOOOOOOOOOOOOOOOOOOOOOOOOOOOOOOOOOOOOOOOOOOOOOOOOOOOOOOOOOOOOOOOOOOOOOOOOOOOOOOOOONG!\n\
-> ending\n\
== paris\n\
We are in paris.\n\
-> ending\n\
== ending\n\
THE END now.\n\
-> END\n";

const SPACES_BEFORE_DIVERT: &str = "a thing\n+ \u{1F64F}\n   -> ending\n";

#[test]
fn test_story() {
    assert_eq!(
        parse_story(TWO_KNOTS).unwrap(),
        Story {
            knots: vec![
                Knot {
                    title: "INTRO".to_string(),
                    body: vec![dl("to paris")],
                    ending: KnotEnding::Divert(dv("paris")),
                },
                paris_knot(),
                ending_knot(),
            ]
        }
    );

    assert_eq!(
        parse_story(TWO_KNOTS_WITH_CHOICES).unwrap(),
        Story {
            knots: vec![
                Knot {
                    title: "INTRO".to_string(),
                    body: vec![dl("to paris?")],
                    ending: KnotEnding::Choices(vec![
                        Choice {
                            text: "yeah".to_string(),
                            body: vec![dl("yes, please")],
                            divert: dv("paris"),
                        },
                        Choice {
                            text: "no".to_string(),
                            body: vec![dl("no, thank you")],
                            divert: dv("ending"),
                        },
                    ]),
                },
                paris_knot(),
                ending_knot(),
            ]
        }
    );

    assert_eq!(
        parse_story(BASIC_STORY).unwrap(),
        Story {
            knots: vec![
                Knot {
                    title: "INTRO".to_string(),
                    body: vec![
                        dl("Want to go to paris?"),
                        dl("PLEASE!?"),
                        dl("will you?????????"),
                    ],
                    ending: KnotEnding::Choices(vec![
                        Choice {
                            text: "yeah!".to_string(),
                            body: vec![],
                            divert: dv("paris"),
                        },
                        Choice {
                            text: "\"Around the world, Monsieur?\"".to_string(),
                            body: vec![
                                dl("I was utterly astonished."),
                                dl("\"You are in jest!\" I told him in dignified affront. THIS IS A VERY LONG LINE OF TEXT SO LONG ON MY SO LOOOOOOOOOOOOOOOOOOOOOOOOOOOOOOOOOOOOOOOOOOOOOOOOOOOOOOOOOOOOOOOOOOOOOOOOOOOOOOOOOOOOOOOOOONG!"),
                            ],
                            divert: dv("ending"),
                        },
                    ]),
                },
                paris_knot(),
                ending_knot(),
            ]
        }
    );

    assert_eq!(
        parse_story(SPACES_BEFORE_DIVERT).unwrap(),
        Story {
            knots: vec![Knot {
                title: "INTRO".to_string(),
                body: vec![dl("a thing")],
                ending: KnotEnding::Choices(vec![Choice {
                    text: "\u{1F64F}".to_string(),
                    body: vec![],
                    divert: dv("ending"),
                }]),
            }]
        }
    );
}

#[test]
fn test_comments() {
    let src = chars("/* comment */");
    assert_eq!(opt_comment(&src, 0).unwrap(), src.len());

    let src = chars("/*\n comment \n*/");
    assert_eq!(opt_comment(&src, 0).unwrap(), src.len());

    // a single-line comment runs up to, not including, the terminator
    let src = chars("//cool\n text \n");
    assert_eq!(opt_comment(&src, 0).unwrap(), 6);
    assert_eq!(src[6], '\n');

    let src = chars("text // comment");
    assert_eq!(dialog_line_at(&src, 0).unwrap(), (dl("text"), src.len()));

    let src = chars("text /* comment */");
    assert_eq!(dialog_line_at(&src, 0).unwrap(), (dl("text"), src.len()));

    let src = chars("text /* comment\n */\ncool // comment 2\n yeah");
    assert_eq!(
        dialog_lines(&src, 0),
        (vec![dl("text"), dl("cool"), dl("yeah")], src.len())
    );

    let src = chars("dialog 1\n// comment 1\ndialog 2");
    assert_eq!(
        dialog_lines(&src, 0),
        (vec![dl("dialog 1"), dl("dialog 2")], src.len())
    );

    let src = chars("text /* comment\n */\ncool // comment 2\n yeah");
    assert_eq!(
        dialog_lines(&src, 0),
        (vec![dl("text"), dl("cool"), dl("yeah")], src.len())
    );

    let src = chars("dialog 1\n// comment 1\n-> END");
    assert_eq!(
        knot_without_title(&src, 0).unwrap(),
        (
            Knot {
                title: "INTRO".to_string(),
                body: vec![dl("dialog 1")],
                ending: KnotEnding::Divert(dv("END")),
            },
            src.len()
        )
    );
}

#[test]
fn unclosed_comment_is_an_error() {
    let e = dialog_line("text /* unclosed").unwrap_err();
    assert_eq!(e.at, 5);
    assert_eq!(e.expected, Expected::CommentClose);
}

#[test]
fn comment_only_line_gives_no_dialog_text() {
    let e = dialog_line("// only a comment").unwrap_err();
    assert_eq!(e.at, 0);
    assert_eq!(e.expected, Expected::DialogText);
}

#[test]
fn test_knot() {
    let src = " === title1\nthing\n";
    let (title, pos) = knot_title(&chars(src), 0).unwrap();
    assert_eq!(title, "title1");
    assert_eq!(&src[pos..], "thing\n");

    assert!(knot_title(&chars("=== Knot name has spaces\n"), 0).is_err());

    assert!(knot_title(&chars("=== Knot =\n"), 0).is_err());

    let src = "=== Knot\nbody\n";
    let (title, pos) = knot_title(&chars(src), 0).unwrap();
    assert_eq!(title, "Knot");
    assert_eq!(&src[pos..], "body\n");

    let src = "=== Knot ===\nbody\n";
    let (title, pos) = knot_title(&chars(src), 0).unwrap();
    assert_eq!(title, "Knot");
    assert_eq!(&src[pos..], "body\n");
}

#[test]
fn knot_header_errors() {
    let src = chars("== ==\n");
    let e = knot_title(&src, 0).unwrap_err();
    assert_eq!(e.at, 3);
    assert_eq!(e.expected, Expected::KnotTitle);

    let src = chars("=== Knot =\n");
    let e = knot_title(&src, 0).unwrap_err();
    assert_eq!(e.at, 9);
    assert_eq!(e.expected, Expected::HeaderEnd);
}

#[test]
fn test_tags() {
    assert!(tag(&chars("no line endings"), 0).is_err());

    let src = chars("# one # two");
    assert_eq!(
        tags(&src, 0),
        (vec!["one".to_string(), "two".to_string()], src.len())
    );

    let src = "Passepartout: Really, Monsieur. # surly # really_monsieur.ogg";
    assert_eq!(
        dialog_line(src).unwrap(),
        (
            DialogLine {
                text: "Passepartout: Really, Monsieur.".to_string(),
                tags: vec!["surly".to_string(), "really_monsieur.ogg".to_string()],
            },
            src.chars().count()
        )
    );
}

#[test]
fn parse_is_deterministic() {
    let r1 = parse_story(TWO_KNOTS_WITH_CHOICES);
    let r2 = parse_story(TWO_KNOTS_WITH_CHOICES);
    assert_eq!(r1, r2);

    let bad = "to nowhere\n";
    let e1 = parse_story(bad);
    let e2 = parse_story(bad);
    assert_eq!(e1, e2);
    assert!(e1.is_err());
}

#[test]
fn duplicate_knot_title_is_an_error() {
    let src = "a\n-> x\n== k\nb\n-> x\n== k\nc\n-> x\n";
    let e = parse_story(src).unwrap_err();
    assert_eq!(e.expected, Expected::UniqueKnotTitle);
    assert_eq!((e.row, e.col), (6, 1));

    let src = "a\n-> x\n== INTRO\nb\n-> x\n";
    let e = parse_story(src).unwrap_err();
    assert_eq!(e.expected, Expected::UniqueKnotTitle);
    assert_eq!((e.row, e.col), (3, 1));
}

#[test]
fn choice_without_divert_fails_the_whole_parse() {
    let src = "hi\n+ a\nword\n";
    let e = parse_story(src).unwrap_err();
    assert_eq!(e.expected, Expected::Divert);
}

#[test]
fn knot_without_ending_fails_the_whole_parse() {
    let e = parse_story("just text\n").unwrap_err();
    assert_eq!(e.expected, Expected::ChoiceOrDivert);

    let e = parse_story("").unwrap_err();
    assert_eq!(e.expected, Expected::ChoiceOrDivert);
    assert_eq!((e.row, e.col), (0, 0));
}

#[test]
fn stray_text_after_a_knot_is_an_error() {
    let src = "a\n-> x\nstray\n";
    let e = parse_story(src).unwrap_err();
    assert_eq!(e.expected, Expected::KnotHeader);
    assert_eq!((e.row, e.col), (3, 1));
}

#[test]
fn scenario_choices() {
    let src = chars("hi\n+ a\n-> x\n+ b\n-> y");
    let (knot, pos) = knot_without_title(&src, 0).unwrap();
    assert_eq!(pos, src.len());
    assert_eq!(knot.title, "INTRO");
    assert_eq!(knot.body, vec![dl("hi")]);
    assert_eq!(
        knot.ending,
        KnotEnding::Choices(vec![
            Choice {
                text: "a".to_string(),
                body: vec![],
                divert: dv("x"),
            },
            Choice {
                text: "b".to_string(),
                body: vec![],
                divert: dv("y"),
            },
        ])
    );
}

#[test]
fn crlf_line_endings_parse_like_lf() {
    let src = "one\r\ntwo\r\n-> END\r\n";
    let story = parse_story(src).unwrap();
    assert_eq!(story.knots.len(), 1);
    assert_eq!(story.knots[0].body, vec![dl("one"), dl("two")]);
    assert_eq!(story.knots[0].ending, KnotEnding::Divert(dv("END")));
}

#[test]
fn tags_trim_whitespace_and_may_be_empty() {
    let src = chars("#  spaced out  # x");
    assert_eq!(
        tags(&src, 0),
        (vec!["spaced out".to_string(), "x".to_string()], src.len())
    );

    let (line, _) = dialog_line("text #").unwrap();
    assert_eq!(line.text, "text");
    assert_eq!(line.tags, vec!["".to_string()]);
}

#[test]
fn expected_names_the_construct() {
    assert_eq!(Expected::KnotHeader.describe(), "a knot header");
    assert_eq!(Expected::Divert.describe(), "a divert");
    assert_eq!(Expected::UniqueKnotTitle.describe(), "an unused knot title");
}

#[test]
fn story_lookup_by_title() {
    let story = parse_story(TWO_KNOTS).unwrap();
    assert_eq!(story.get("paris").unwrap(), &paris_knot());
    assert_eq!(story.get("ending").unwrap(), &ending_knot());
    assert!(story.get("INTRO").is_some());
    assert!(story.get("nowhere").is_none());
}
