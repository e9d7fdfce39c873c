use par_soeur::input::LineBasedStr;
use par_soeur::mappers::{PairWith, TakeLeft, TakeRight};
use par_soeur::primitives::{
    parse_lexeme, parse_spaces, parse_take, parse_u32, parse_while, AlphaPred,
};
use par_soeur::Parser;

#[test]
fn lexeme_rejects_test() {
    let parser = parse_lexeme("foo");
    assert_eq!(parser.parse(LineBasedStr::from("fobzoo")), Parser::NoParse);
    assert_eq!(parser.parse(LineBasedStr::from("")), Parser::NoParse);
}

#[test]
fn parse_u32_no_digit_test() {
    assert_eq!(parse_u32().parse(LineBasedStr::from("lol")), Parser::NoParse);
    assert_eq!(parse_u32().parse(LineBasedStr::from("")), Parser::NoParse);
}

#[test]
fn parse_u32_overflow_test() {
    assert_eq!(
        parse_u32().parse(LineBasedStr::from("4294967296")),
        Parser::NoParse
    );
    assert_eq!(
        parse_u32().parse(LineBasedStr::from("4294967295z")),
        Parser::Parsed {
            data: 4294967295,
            input: LineBasedStr {
                input: "z",
                line: 0,
                col: 10,
            }
        }
    );
}

#[test]
fn parse_spaces_idempotent_test() {
    let first = parse_spaces().parse(LineBasedStr::from("  \t\nlol"));
    let expected = LineBasedStr {
        input: "lol",
        line: 1,
        col: 0,
    };
    assert_eq!(
        first,
        Parser::Parsed {
            data: (),
            input: expected.clone(),
        }
    );
    assert_eq!(
        parse_spaces().parse(expected.clone()),
        Parser::Parsed {
            data: (),
            input: expected,
        }
    );
}

#[test]
fn parse_spaces_crlf_test() {
    assert_eq!(
        parse_spaces().parse(LineBasedStr::from(" \r\n lol")),
        Parser::Parsed {
            data: (),
            input: LineBasedStr {
                input: "lol",
                line: 1,
                col: 1,
            }
        }
    );
    assert_eq!(
        parse_spaces().parse(LineBasedStr::from("\r lol")),
        Parser::Parsed {
            data: (),
            input: LineBasedStr {
                input: "lol",
                line: 0,
                col: 2,
            }
        }
    );
}

#[test]
fn zip_test() {
    let parser = parse_u32().zip(parse_lexeme("foo"), TakeLeft);
    assert_eq!(
        parser.parse(LineBasedStr::from("123foolol")),
        Parser::Parsed {
            data: 123,
            input: LineBasedStr {
                input: "lol",
                line: 0,
                col: 6,
            }
        }
    );
    assert_eq!(parser.parse(LineBasedStr::from("123barlol")), Parser::NoParse);
}

#[test]
fn left_test() {
    let parser = parse_u32().left(parse_spaces());
    assert_eq!(
        parser.parse(LineBasedStr::from("123  lol")),
        Parser::Parsed {
            data: 123,
            input: LineBasedStr {
                input: "lol",
                line: 0,
                col: 5,
            }
        }
    );
}

#[test]
fn right_test() {
    let parser = parse_spaces().right(parse_u32());
    assert_eq!(
        parser.parse(LineBasedStr::from("   123lol")),
        Parser::Parsed {
            data: 123,
            input: LineBasedStr {
                input: "lol",
                line: 0,
                col: 6,
            }
        }
    );
}

#[test]
fn zip_take_right_test() {
    let parser = parse_lexeme("#").zip(parse_u32(), TakeRight);
    assert_eq!(
        parser.parse(LineBasedStr::from("#42")),
        Parser::Parsed {
            data: 42,
            input: LineBasedStr {
                input: "",
                line: 0,
                col: 3,
            }
        }
    );
}

#[test]
fn map_test() {
    let parser = parse_u32().map(PairWith { a: true });
    assert_eq!(
        parser.parse(LineBasedStr::from("5x")),
        Parser::Parsed {
            data: (true, 5),
            input: LineBasedStr {
                input: "x",
                line: 0,
                col: 1,
            }
        }
    );
}

#[test]
fn const_map_test() {
    let parser = parse_lexeme("foo").const_map(7u32);
    assert_eq!(
        parser.parse(LineBasedStr::from("foobar")),
        Parser::Parsed {
            data: 7,
            input: LineBasedStr {
                input: "bar",
                line: 0,
                col: 3,
            }
        }
    );
    assert_eq!(parser.parse(LineBasedStr::from("bar")), Parser::NoParse);
}

#[test]
fn or_test() {
    let parser = parse_lexeme("foo").or(parse_lexeme("bar"));
    assert_eq!(
        parser.parse(LineBasedStr::from("foozoo")),
        Parser::Parsed {
            data: (),
            input: LineBasedStr {
                input: "zoo",
                line: 0,
                col: 3,
            }
        }
    );
    assert_eq!(
        parser.parse(LineBasedStr::from("barzoo")),
        Parser::Parsed {
            data: (),
            input: LineBasedStr {
                input: "zoo",
                line: 0,
                col: 3,
            }
        }
    );
    assert_eq!(parser.parse(LineBasedStr::from("zoo")), Parser::NoParse);
}

#[test]
fn or_left_biased_test() {
    let parser = parse_lexeme("foo").or(parse_lexeme("foobar"));
    assert_eq!(
        parser.parse(LineBasedStr::from("foobar")),
        Parser::Parsed {
            data: (),
            input: LineBasedStr {
                input: "bar",
                line: 0,
                col: 3,
            }
        }
    );
}

#[test]
fn opt_failure_keeps_input_test() {
    let parser = parse_u32().opt();
    assert_eq!(
        parser.parse(LineBasedStr::from("lol")),
        Parser::Parsed {
            data: None,
            input: LineBasedStr {
                input: "lol",
                line: 0,
                col: 0,
            }
        }
    );
}

#[test]
fn many0_zero_width_stops_test() {
    let parser = parse_spaces().many0();
    assert_eq!(
        parser.parse(LineBasedStr::from("lol")),
        Parser::Parsed {
            data: Vec::new(),
            input: LineBasedStr {
                input: "lol",
                line: 0,
                col: 0,
            }
        }
    );
}

#[test]
fn many0_zero_width_lexeme_test() {
    let parser = parse_lexeme("").many0();
    assert_eq!(
        parser.parse(LineBasedStr::from("abc")),
        Parser::Parsed {
            data: Vec::new(),
            input: LineBasedStr {
                input: "abc",
                line: 0,
                col: 0,
            }
        }
    );
}

#[test]
fn delimited0_zero_width_separator_test() {
    // A separator that always succeeds can never end the loop in the
    // separator state, so a non-empty list ends while an item is expected:
    // a dangling separator, which fails the whole parse.
    let parser = parse_u32().delimited0(parse_spaces());
    assert_eq!(parser.parse(LineBasedStr::from("1 2 3lol")), Parser::NoParse);
    assert_eq!(
        parser.parse(LineBasedStr::from("lol")),
        Parser::Parsed {
            data: Vec::new(),
            input: LineBasedStr {
                input: "lol",
                line: 0,
                col: 0,
            }
        }
    );
}

#[test]
fn delimited0_test() {
    let parser = parse_u32().delimited0(parse_lexeme(","));
    assert_eq!(parser.parse(LineBasedStr::from("1,2,")), Parser::NoParse);
    assert_eq!(
        parser.parse(LineBasedStr::from("1,2,3")),
        Parser::Parsed {
            data: vec![1, 2, 3],
            input: LineBasedStr {
                input: "",
                line: 0,
                col: 5,
            }
        }
    );
    assert_eq!(
        parser.parse(LineBasedStr::from("")),
        Parser::Parsed {
            data: Vec::new(),
            input: LineBasedStr {
                input: "",
                line: 0,
                col: 0,
            }
        }
    );
}

#[test]
fn delimited1_test() {
    let parser = parse_u32().delimited1(parse_lexeme(","));
    assert_eq!(parser.parse(LineBasedStr::from("")), Parser::NoParse);
    assert_eq!(parser.parse(LineBasedStr::from("1,2,")), Parser::NoParse);
    assert_eq!(
        parser.parse(LineBasedStr::from("1")),
        Parser::Parsed {
            data: vec![1],
            input: LineBasedStr {
                input: "",
                line: 0,
                col: 1,
            }
        }
    );
    assert_eq!(
        parser.parse(LineBasedStr::from("1,2lol")),
        Parser::Parsed {
            data: vec![1, 2],
            input: LineBasedStr {
                input: "lol",
                line: 0,
                col: 3,
            }
        }
    );
}

#[test]
fn parse_take_test() {
    let parser = parse_take(3);
    assert_eq!(
        parser.parse("foolol"),
        Parser::Parsed {
            data: "foo",
            input: "lol",
        }
    );
    assert_eq!(parser.parse("fo"), Parser::NoParse);
}

#[test]
fn parse_while_test() {
    let parser = parse_while(AlphaPred);
    assert_eq!(
        parser.parse("Henry 48"),
        Parser::Parsed {
            data: "Henry",
            input: " 48",
        }
    );
    assert_eq!(parser.parse("48"), Parser::NoParse);
}

#[test]
fn parser_from_option_test() {
    let present = Parser::Parsed {
        data: 1u32,
        input: "rest",
    };
    assert_eq!(Parser::from_option(Some(present.clone())), present);
    assert_eq!(Parser::from_option(None::<Parser<u32, &str>>), Parser::NoParse);
}

#[test]
fn parser_ok_test() {
    let parsed = parse_u32().parse(LineBasedStr::from("7!"));
    assert_eq!(parsed.ok(), Some(7));
    let missed = parse_u32().parse(LineBasedStr::from("!"));
    assert_eq!(missed.ok(), None);
}
