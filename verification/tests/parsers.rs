use par_soeur::input::LineBasedStr;
use par_soeur::mappers::{BindLeft, BindPair, BindRight};
use par_soeur::primitives::{parse_lexeme, parse_spaces, parse_u32};
use par_soeur::Parser;

#[test]
fn parse_u32_test() {
    assert_eq!(
        parse_u32().parse(LineBasedStr::from("123lol")),
        Parser::Parsed {
            data: 123,
            input: LineBasedStr {
                input: "lol",
                line: 0,
                col: 3,
            }
        }
    );
}

#[test]
fn parse_spaces_test() {
    assert_eq!(
        parse_spaces().parse(LineBasedStr::from("       lol")),
        Parser::Parsed {
            data: (),
            input: LineBasedStr {
                input: "lol",
                line: 0,
                col: 7,
            }
        }
    );
}

#[test]
fn parse_spaces_with_newlines_test() {
    assert_eq!(
        parse_spaces().parse(LineBasedStr::from(" \n  \n    lol")),
        Parser::Parsed {
            data: (),
            input: LineBasedStr {
                input: "lol",
                line: 2,
                col: 4,
            }
        }
    );
}

#[test]
fn and_then_test() {
    let parser = parse_u32()
        .and_then(BindLeft::new(parse_spaces::<LineBasedStr>()))
        .and_then(BindPair::new(parse_u32::<LineBasedStr>()));

    assert_eq!(
        parser.parse(LineBasedStr::from("123 \n\n  456lol")),
        Parser::Parsed {
            data: (123, 456),
            input: LineBasedStr {
                input: "lol",
                line: 2,
                col: 5,
            }
        }
    );
}

#[test]
fn many0_test() {
    let parser = parse_u32().and_then(BindLeft::new(parse_spaces::<LineBasedStr>())).many0();

    assert_eq!(
        parser.parse(LineBasedStr::from("1\n 2 3 \n4\n lol")),
        Parser::Parsed {
            data: vec![1, 2, 3, 4],
            input: LineBasedStr {
                input: "lol",
                line: 3,
                col: 1
            }
        }
    );

    assert_eq!(
        parser.parse(LineBasedStr::from("lol")),
        Parser::Parsed {
            data: Vec::new(),
            input: LineBasedStr {
                input: "lol",
                line: 0,
                col: 0,
            }
        }
    );
}

#[test]
fn many1_test() {
    let parser = parse_u32().and_then(BindLeft::new(parse_spaces::<LineBasedStr>())).many1();

    assert_eq!(
        parser.parse(LineBasedStr::from("1 2 3 4 lol")),
        Parser::Parsed {
            data: vec![1, 2, 3, 4],
            input: LineBasedStr {
                input: "lol",
                line: 0,
                col: 8,
            }
        }
    );

    assert_eq!(parser.parse(LineBasedStr::from("lol")), Parser::NoParse);
}

#[test]
fn opt_test() {
    let parser = parse_spaces()
        .and_then(BindRight::new(parse_u32::<LineBasedStr>().opt()))
        .many1();

    assert_eq!(
        parser.parse(LineBasedStr::from("    1  2 3   ")),
        Parser::Parsed {
            data: vec![Some(1), Some(2), Some(3), None],
            input: LineBasedStr {
                input: "",
                line: 0,
                col: 13,
            }
        }
    );
}

#[test]
fn lexeme_test() {
    let parser = parse_lexeme("foo");

    assert_eq!(
        parser.parse(LineBasedStr::from("foobarzoo")),
        Parser::Parsed {
            data: (),
            input: LineBasedStr {
                input: "barzoo",
                line: 0,
                col: 3,
            }
        }
    );
}
