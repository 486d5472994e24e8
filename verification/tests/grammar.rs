use mud_server::world::actions::Action;
use mud_server::world::errors::Error;
use mud_server::text::verb_char;
use mud_server::world::grammar::{tokenize, tokens_of, Token};
use mud_server::world::properties::{Color, Lighting, Property, Temperature};

fn look(target: &str, preposition: &str, properties: Vec<Property>) -> Action {
    Action::Look {
        target: Some(target.to_string()),
        preposition: Some(preposition.to_string()),
        properties: Some(properties),
    }
}

fn plain_look() -> Action {
    Action::Look { target: None, preposition: None, properties: None }
}

#[test]
fn verbs_are_read_in_any_case() {
    for text in ["read", "READ", "Read", "rEaD"] {
        assert_eq!(Action::parse_str(text), Ok(Action::Read));
    }
    for text in ["enter", "ENTER", "eNtEr"] {
        assert_eq!(Action::parse_str(text), Ok(Action::Enter));
    }
    for text in ["connect", "CONNECT", "Connect"] {
        assert_eq!(Action::parse_str(text), Ok(Action::Connect));
    }
    for text in ["access", "ACCESS", "Access"] {
        assert_eq!(Action::parse_str(text), Ok(Action::Access));
    }
    for text in ["open", "OPEN", "Open"] {
        assert_eq!(Action::parse_str(text), Ok(Action::Open));
    }
    for text in ["look", "LOOK", "Look", "lOOk"] {
        assert_eq!(Action::parse_str(text), Ok(plain_look()));
    }
}

#[test]
fn what_follows_a_verb_without_object_is_ignored() {
    assert_eq!(Action::parse_str("read the sign, please!"), Ok(Action::Read));
    assert_eq!(Action::parse_str("open 42"), Ok(Action::Open));
    assert_eq!(Action::parse_str("enter."), Ok(Action::Enter));
    assert_eq!(Action::parse_str("connect\tnow"), Ok(Action::Connect));
    assert_eq!(Action::parse_str("access ???"), Ok(Action::Access));
}

#[test]
fn look_alone_is_a_plain_look() {
    assert_eq!(Action::parse_str("look"), Ok(plain_look()));
    assert_eq!(Action::parse_str("look."), Ok(plain_look()));
    assert_eq!(Action::parse_str("look   ."), Ok(plain_look()));
    assert_eq!(Action::parse_str("look   "), Ok(plain_look()));
    assert_eq!(Action::parse_str("look .  "), Ok(plain_look()));
    assert_eq!(Action::parse_str("look\t.\n"), Ok(plain_look()));
}

#[test]
fn look_at_red_shiny_port() {
    assert_eq!(
        Action::parse_str("look at red, shiny port"),
        Ok(look("port", "at", vec![Property::Color(Color::Red), Property::Custom("shiny".to_string())]))
    );
}

#[test]
fn look_with_phrase_variants() {
    assert_eq!(Action::parse_str("look at port"), Ok(look("port", "at", vec![])));
    assert_eq!(Action::parse_str("look at port."), Ok(look("port", "at", vec![])));
    assert_eq!(Action::parse_str("look   at   port  .  "), Ok(look("port", "at", vec![])));
    assert_eq!(
        Action::parse_str("look at red shiny port"),
        Ok(look("port", "at", vec![Property::Color(Color::Red), Property::Custom("shiny".to_string())]))
    );
    assert_eq!(
        Action::parse_str("look at red ,shiny , port"),
        Ok(look("port", "at", vec![Property::Color(Color::Red), Property::Custom("shiny".to_string())]))
    );
    assert_eq!(
        Action::parse_str("look at cold,dark port"),
        Ok(look(
            "port",
            "at",
            vec![Property::Temperature(Temperature::Cold), Property::Lighting(Lighting::Dark)]
        ))
    );
    assert_eq!(Action::parse_str("look red port"), Ok(look("port", "red", vec![])));
}

#[test]
fn properties_of_a_look_are_read_in_any_case() {
    assert_eq!(
        Action::parse_str("LOOK At RED Shiny Port"),
        Ok(look("Port", "At", vec![Property::Color(Color::Red), Property::Custom("Shiny".to_string())]))
    );
}

#[test]
fn words_may_hold_any_letters() {
    assert_eq!(
        Action::parse_str("look auf r\u{f6}tliche T\u{fc}r"),
        Ok(look("T\u{fc}r", "auf", vec![Property::Custom("r\u{f6}tliche".to_string())]))
    );
    // The Kelvin sign is a letter whose lowercase form is the ASCII letter k.
    assert_eq!(
        Action::parse_str("look at dar\u{212a} port"),
        Ok(look("port", "at", vec![Property::Lighting(Lighting::Dark)]))
    );
}

#[test]
fn words_hold_letters_only() {
    // A Roman numeral, a vowel sign and a combining accent are no letters.
    assert_eq!(Action::parse_str("look at \u{2167} port"), Err(Error::VerbEncodingError));
    assert_eq!(
        Action::parse_str("look at \u{915}\u{93e}\u{932}\u{93e} port"),
        Err(Error::VerbEncodingError)
    );
    assert_eq!(Action::parse_str("look at cafe\u{301} port"), Err(Error::VerbEncodingError));
    assert_eq!(
        Action::parse_str("look at \u{915}\u{932} port"),
        Ok(look("port", "at", vec![Property::Custom("\u{915}\u{932}".to_string())]))
    );
}

#[test]
fn blanks_may_be_any_white_space() {
    assert_eq!(
        Action::parse_str("look\u{2003}at\u{a0}red\u{3000}port\u{2028}"),
        Ok(look("port", "at", vec![Property::Color(Color::Red)]))
    );
}

#[test]
fn unknown_verb() {
    assert_eq!(Action::parse_str("xyzzy"), Err(Error::VerbUnknownError));
    assert_eq!(Action::parse(b"xyzzy"), Err(Error::VerbUnknownError));
}

#[test]
fn a_line_without_verb_has_an_unknown_verb() {
    assert_eq!(Action::parse_str(""), Err(Error::VerbUnknownError));
    assert_eq!(Action::parse_str(" look"), Err(Error::VerbUnknownError));
    assert_eq!(Action::parse_str(".look"), Err(Error::VerbUnknownError));
    assert_eq!(Action::parse_str("!"), Err(Error::VerbUnknownError));
}

#[test]
fn a_verb_is_the_whole_leading_word() {
    assert_eq!(Action::parse_str("lookat port"), Err(Error::VerbUnknownError));
    assert_eq!(Action::parse_str("look-at port"), Err(Error::VerbUnknownError));
    assert_eq!(Action::parse_str("look_ at port"), Err(Error::VerbUnknownError));
    assert_eq!(Action::parse_str("look2"), Err(Error::VerbUnknownError));
    assert_eq!(Action::parse_str("reader"), Err(Error::VerbUnknownError));
    assert_eq!(Action::parse_str("rea"), Err(Error::VerbUnknownError));
}

#[test]
fn invalid_utf8_is_an_encoding_error() {
    assert_eq!(Action::parse(&[0xff, 0xfe, 0xfd]), Err(Error::VerbEncodingError));
    assert_eq!(Action::parse(&[b'l', b'o', b'o', b'k', 0x80]), Err(Error::VerbEncodingError));
    assert_eq!(Action::parse(&[0xc3]), Err(Error::VerbEncodingError));
    assert_eq!(Action::parse(&[0xed, 0xa0, 0x80]), Err(Error::VerbEncodingError));
}

#[test]
fn bytes_are_read_as_their_text() {
    assert_eq!(Action::parse(b"look"), Ok(plain_look()));
    assert_eq!(Action::parse(b"READ"), Ok(Action::Read));
    assert_eq!(
        Action::parse("look at r\u{f6}d port".as_bytes()),
        Ok(look("port", "at", vec![Property::Custom("r\u{f6}d".to_string())]))
    );
    assert_eq!(Action::parse(b""), Err(Error::VerbUnknownError));
}

#[test]
fn malformed_look_is_an_encoding_error() {
    for text in [
        "look port",
        "look at, port",
        "look , at port",
        "look at red,, port",
        "look at red, port,",
        "look at port ..",
        "look . at port",
        "look at port9",
        "look at 9port",
        "look at the_port",
        "look at port!",
        "look at red; port",
        "look ..",
        "look,",
    ] {
        assert_eq!(Action::parse_str(text), Err(Error::VerbEncodingError), "{:?}", text);
    }
}

#[test]
fn tokens_of_a_sentence() {
    assert_eq!(
        tokenize("at red, shiny port.", 0),
        vec![
            Token::Word("at".to_string()),
            Token::Word("red".to_string()),
            Token::Comma,
            Token::Word("shiny".to_string()),
            Token::Word("port".to_string()),
            Token::Period,
        ]
    );
    assert_eq!(tokenize("look at", 4), vec![Token::Word("at".to_string())]);
    assert_eq!(tokenize("a1b", 0), vec![Token::Word("a".to_string()), Token::Other, Token::Word("b".to_string())]);
    assert_eq!(tokenize("  \t ", 0), vec![]);
    assert_eq!(tokenize("abc", 3), vec![]);
    assert_eq!(tokenize("abc", 7), vec![]);
    assert_eq!(tokenize("\u{e4}\u{f6} x", 1), vec![Token::Word("\u{f6}".to_string()), Token::Word("x".to_string())]);
}

#[test]
fn look_from_tokens() {
    let word = |w: &str| Token::Word(w.to_string());
    assert_eq!(Action::from_look_tokens(&vec![]), Ok(plain_look()));
    assert_eq!(Action::from_look_tokens(&vec![Token::Period]), Ok(plain_look()));
    assert_eq!(
        Action::from_look_tokens(&vec![word("at"), word("hot"), Token::Comma, word("port"), Token::Period]),
        Ok(look("port", "at", vec![Property::Temperature(Temperature::Hot)]))
    );
    assert_eq!(Action::from_look_tokens(&vec![word("port")]), Err(Error::VerbEncodingError));
    assert_eq!(
        Action::from_look_tokens(&vec![word("at"), Token::Comma, word("port")]),
        Err(Error::VerbEncodingError)
    );
    assert_eq!(
        Action::from_look_tokens(&vec![word("at"), word("port"), Token::Other]),
        Err(Error::VerbEncodingError)
    );
    assert_eq!(
        Action::from_look_tokens(&vec![word("at"), word("port"), Token::Comma]),
        Err(Error::VerbEncodingError)
    );
    assert_eq!(
        Action::from_look_tokens(&vec![Token::Period, Token::Period]),
        Err(Error::VerbEncodingError)
    );
}

#[test]
fn actions_as_sentences() {
    assert_eq!(plain_look().to_string(), "look");
    assert_eq!(
        look("port", "at", vec![Property::Color(Color::Red)]).to_string(),
        "look at properties printing not yet implemented port"
    );
    assert_eq!(
        look("port", "at", vec![]).to_string(),
        "look at properties printing not yet implemented port"
    );
    assert_eq!(
        Action::Look { target: Some("port".to_string()), preposition: Some("at".to_string()), properties: None }
            .to_string(),
        "look at port"
    );
    assert_eq!(
        Action::Look { target: Some("port".to_string()), preposition: None, properties: None }.to_string(),
        "look port"
    );
    assert_eq!(
        Action::Look { target: Some("port".to_string()), preposition: None, properties: Some(vec![]) }
            .to_string(),
        "look properties printing not yet implemented port"
    );
    assert_eq!(
        Action::Look { target: None, preposition: Some("at".to_string()), properties: Some(vec![]) }.to_string(),
        "look"
    );
    assert_eq!(Action::Read.to_string(), "read (todo)");
    assert_eq!(Action::Enter.to_string(), "enter (todo)");
    assert_eq!(Action::Connect.to_string(), "connect (todo)");
    assert_eq!(Action::Access.to_string(), "access (todo)");
    assert_eq!(Action::Open.to_string(), "open (todo)");
}

#[test]
fn an_action_without_object_is_read_back_from_its_sentence() {
    for action in [Action::Read, Action::Enter, Action::Connect, Action::Access, Action::Open, plain_look()] {
        assert_eq!(Action::parse_str(&action.to_string()), Ok(action));
    }
}

#[test]
fn white_space_is_the_set_of_25_characters() {
    let mut count = 0;
    for code in 0..=0x10ffffu32 {
        if let Some(c) = char::from_u32(code) {
            let listed = matches!(
                code,
                0x9..=0xd | 0x20 | 0x85 | 0xa0 | 0x1680 | 0x2000..=0x200a | 0x2028 | 0x2029 | 0x202f | 0x205f | 0x3000
            );
            let skipped = tokens_of(&c.to_string(), 0, &Vec::new()).is_empty();
            assert_eq!(skipped, listed, "{:x}", code);
            assert_eq!(c.is_whitespace(), listed, "{:x}", code);
            if listed {
                count += 1;
            }
        }
    }
    assert_eq!(count, 25);
}

#[test]
fn letters_are_told_by_their_category() {
    for c in ['a', 'Z', '\u{f6}', '\u{3a9}', '\u{4eac}', '\u{2b0}', '\u{1c5}', '\u{212a}'] {
        assert_eq!(tokenize(&c.to_string(), 0), vec![Token::Word(c.to_string())], "{:?}", c);
    }
    for c in ['1', '_', '-', '\u{2167}', '\u{93e}', '\u{301}', '\u{24b6}', '\u{1f49d}'] {
        assert_eq!(tokenize(&c.to_string(), 0), vec![Token::Other], "{:?}", c);
    }
}

#[test]
fn tokens_go_by_the_runs_that_are_given() {
    let runs = |words: &[&str]| words.iter().map(|w| w.to_string()).collect::<Vec<String>>();
    let word = |w: &str| Token::Word(w.to_string());
    assert_eq!(
        tokens_of(" at red, port.", 0, &runs(&["at", "red", "port"])),
        vec![word("at"), word("red"), Token::Comma, word("port"), Token::Period]
    );
    // A run that is not given is no word, and a run that does not stand there is not used.
    assert_eq!(
        tokens_of("at port", 0, &runs(&["port"])),
        vec![Token::Other, Token::Other, word("port")]
    );
    assert_eq!(tokens_of("ab", 0, &runs(&["b", "a"])), vec![Token::Other, word("b")]);
    assert_eq!(tokens_of("ab", 0, &runs(&["abc"])), vec![Token::Other, Token::Other]);
    assert_eq!(tokens_of("ab", 0, &runs(&["", "ab"])), vec![Token::Other, Token::Other]);
    assert_eq!(tokens_of("ab", 0, &runs(&[])), vec![Token::Other, Token::Other]);
    // Anything may be given as a run, digits too.
    assert_eq!(tokens_of("look 42", 4, &runs(&["42"])), vec![word("42")]);
    // White space, commas and periods are looked for before a run is.
    assert_eq!(tokens_of(" ,.x", 0, &runs(&[" ,.x"])), vec![Token::Comma, Token::Period, Token::Other]);
    assert_eq!(tokens_of("ab", 2, &runs(&["ab"])), vec![]);
    assert_eq!(tokens_of("ab", 9, &runs(&["ab"])), vec![]);
}

#[test]
fn verb_characters() {
    for c in ['a', 'z', 'A', 'Z', '0', '9', '_', '-'] {
        assert!(verb_char(c), "{:?}", c);
    }
    for c in [' ', '.', ',', '\u{f6}', '@', '[', '`', '{', '/', ':'] {
        assert!(!verb_char(c), "{:?}", c);
    }
}
