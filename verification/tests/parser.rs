use backlight::{Action, Error, SetMode};

#[test]
fn test_action_fits_in_usize() {
    assert!(std::mem::size_of::<Action>() <= std::mem::size_of::<usize>());
}

#[test]
fn test_action_parser() {
    // we'll compute every valid case and just check things exhaustively
    let mut valid_cases = Vec::with_capacity(601);

    valid_cases.push(("".to_string(), Action::Get));
    for i in 0u8..=100 {
        valid_cases.push((format!("{i}"), Action::SetBrightness(i, SetMode::Absolute)));
        valid_cases.push((format!("{i}%"), Action::SetBrightness(i, SetMode::Absolute)));
        valid_cases.push((format!("+{i}"), Action::SetBrightness(i, SetMode::RelativeUp)));
        valid_cases.push((format!("+{i}%"), Action::SetBrightness(i, SetMode::RelativeUp)));
        valid_cases.push((format!("-{i}"), Action::SetBrightness(i, SetMode::RelativeDown)));
        valid_cases.push((format!("-{i}%"), Action::SetBrightness(i, SetMode::RelativeDown)));
    }

    for (input, expected) in valid_cases {
        match str::parse::<Action>(&input) {
            Err(e) => panic!("expected {expected:?} from {input}, got error {e:?}"),
            Ok(got) => assert_eq!(
                got, expected,
                "expected {expected:?} from '{input}', got {got:?}"
            ),
        }
    }

    // these should error out in some way
    let invalid_inputs = vec![
        "hi", "max", "min", "101", "101%", "1.2", "+1.2", "-1.2", "5.3%", "+5.3%", "-5.3%",
    ];

    for input in invalid_inputs {
        match str::parse::<Action>(input) {
            Err(_) => (),
            Ok(got) => panic!("expected an error from '{input}', got {got:?}"),
        }
    }
}

fn parsed(input: &str) -> Action {
    match Action::from_str(input) {
        Ok(action) => action,
        Err(e) => panic!("expected an action from '{input}', got error {e:?}"),
    }
}

fn refused(input: &str) -> Error {
    match Action::from_str(input) {
        Ok(action) => panic!("expected an error from '{input}', got {action:?}"),
        Err(e) => e,
    }
}

#[test]
fn from_str_and_parse_agree() {
    for input in ["", "5", "+5%", "-100", "101", "x", "+", "%"] {
        let direct = Action::from_str(input);
        let by_trait = input.parse::<Action>();
        match (direct, by_trait) {
            (Ok(a), Ok(b)) => assert_eq!(a, b),
            (Err(a), Err(b)) => {
                assert_eq!(a.message, b.message);
                assert_eq!(a.cause, b.cause);
            }
            (a, b) => panic!("'{input}' gave {a:?} and {b:?}"),
        }
    }
}

#[test]
fn empty_text_is_get() {
    assert_eq!(parsed(""), Action::Get);
}

#[test]
fn zero_parses_in_every_mode() {
    assert_eq!(parsed("0"), Action::SetBrightness(0, SetMode::Absolute));
    assert_eq!(parsed("+0"), Action::SetBrightness(0, SetMode::RelativeUp));
    assert_eq!(parsed("-0"), Action::SetBrightness(0, SetMode::RelativeDown));
    assert_eq!(parsed("0%"), Action::SetBrightness(0, SetMode::Absolute));
    assert_eq!(parsed("+0%"), Action::SetBrightness(0, SetMode::RelativeUp));
    assert_eq!(parsed("-0%"), Action::SetBrightness(0, SetMode::RelativeDown));
}

#[test]
fn bounds_of_the_range() {
    assert_eq!(parsed("100"), Action::SetBrightness(100, SetMode::Absolute));
    assert_eq!(parsed("+100%"), Action::SetBrightness(100, SetMode::RelativeUp));
    assert_eq!(parsed("-100"), Action::SetBrightness(100, SetMode::RelativeDown));
    assert!(Action::from_str("101").is_err());
    assert!(Action::from_str("+101").is_err());
    assert!(Action::from_str("-101%").is_err());
}

#[test]
fn leading_zeros_and_inner_plus_are_part_of_a_number() {
    assert_eq!(parsed("007"), Action::SetBrightness(7, SetMode::Absolute));
    assert_eq!(parsed("+0100%"), Action::SetBrightness(100, SetMode::RelativeUp));
    assert_eq!(parsed("++5"), Action::SetBrightness(5, SetMode::RelativeUp));
    assert_eq!(parsed("-+5%"), Action::SetBrightness(5, SetMode::RelativeDown));
    assert_eq!(parsed("0000000000000000000000042"), Action::SetBrightness(42, SetMode::Absolute));
}

#[test]
fn lone_sign_or_percent_is_invalid() {
    for input in ["+", "-", "%", "+%", "-%"] {
        let e = refused(input);
        assert_eq!(e.message, "could not parse ''");
        assert_eq!(e.cause.as_deref(), Some("cannot parse integer from empty string"));
    }
    for input in ["++", "-+", "++%"] {
        let e = refused(input);
        assert_eq!(e.message, "could not parse '+'");
        assert_eq!(e.cause.as_deref(), Some("invalid digit found in string"));
    }
}

#[test]
fn only_one_percent_sign_is_dropped() {
    let e = refused("5%%");
    assert_eq!(e.message, "could not parse '5%'");
    assert_eq!(e.cause.as_deref(), Some("invalid digit found in string"));
    let e = refused("%5");
    assert_eq!(e.message, "could not parse '%5'");
}

#[test]
fn fractional_numbers_are_rejected() {
    for (input, number) in [("1.2", "1.2"), ("+1.2", "1.2"), ("-1.2", "1.2"), ("5.3%", "5.3")] {
        let e = refused(input);
        assert_eq!(e.message, format!("could not parse '{number}'"));
        assert_eq!(e.cause.as_deref(), Some("invalid digit found in string"));
    }
}

#[test]
fn white_space_and_words_are_rejected() {
    for input in [" 5", "5 ", "+ 5", "hi", "max", "min", "5x", "x5", "--5", "+-5", "５"] {
        let e = refused(input);
        assert_eq!(e.cause.as_deref(), Some("invalid digit found in string"), "for '{input}'");
    }
}

#[test]
fn numbers_above_hundred_are_out_of_range() {
    for (input, number) in [("101", "101"), ("101%", "101"), ("+255", "255"), ("-0200%", "200")] {
        let e = refused(input);
        assert_eq!(e.message, format!("'{number}' is greater than 100%"));
        assert_eq!(e.cause, None);
    }
}

#[test]
fn numbers_above_the_limit_are_no_numbers() {
    for (input, number) in [("256", "256"), ("+1000%", "1000"), ("-99999999999999999999", "99999999999999999999")] {
        let e = refused(input);
        assert_eq!(e.message, format!("could not parse '{number}'"));
        assert_eq!(e.cause.as_deref(), Some("number too large to fit in target type"));
    }
}

#[test]
fn first_fault_from_the_left_decides_the_cause() {
    assert_eq!(refused("99x").cause.as_deref(), Some("invalid digit found in string"));
    assert_eq!(refused("25x5").cause.as_deref(), Some("invalid digit found in string"));
    assert_eq!(refused("256x").cause.as_deref(), Some("number too large to fit in target type"));
    assert_eq!(refused("999x").cause.as_deref(), Some("number too large to fit in target type"));
    assert_eq!(refused("x999").cause.as_deref(), Some("invalid digit found in string"));
}

#[test]
fn cause_reads_as_the_standard_integer_parser_puts_it() {
    let numbers = [
        "", "+", "-", "x", "1.2", "256", "999", "99x", "999x", "2560", "25 ", "-1", "+300", "0x10",
        "1_0", "٣",
    ];
    for number in numbers {
        let expected = match number.parse::<u8>() {
            Ok(n) => panic!("'{number}' is the number {n}"),
            Err(e) => e.to_string(),
        };
        // in front of a `-` the number part is taken as it stands
        let e = refused(&format!("-{number}"));
        assert_eq!(e.message, format!("could not parse '{number}'"));
        assert_eq!(e.cause, Some(expected), "for '{number}'");
    }
}

#[test]
fn short_texts_parse_as_the_standard_parser_would() {
    let alphabet = ['0', '1', '2', '5', '9', '+', '-', '%', '.', ' ', 'a'];
    let mut texts = vec![String::new()];
    let mut last = vec![String::new()];
    for _ in 0..4 {
        let mut next = Vec::new();
        for t in &last {
            for c in alphabet {
                let mut longer = t.clone();
                longer.push(c);
                next.push(longer);
            }
        }
        texts.extend(next.iter().cloned());
        last = next;
    }
    for text in texts {
        let expected = if text.is_empty() {
            Some(Action::Get)
        } else {
            let (rest, mode) = match text.chars().next() {
                Some('+') => (&text[1..], SetMode::RelativeUp),
                Some('-') => (&text[1..], SetMode::RelativeDown),
                _ => (&text[..], SetMode::Absolute),
            };
            let rest = rest.strip_suffix('%').unwrap_or(rest);
            match rest.parse::<u8>() {
                Ok(n) if n <= 100 => Some(Action::SetBrightness(n, mode)),
                _ => None,
            }
        };
        assert_eq!(Action::from_str(&text).ok(), expected, "for '{text}'");
    }
}
