use backlight::Error;

#[test]
fn msg_has_no_cause() {
    let e = Error::msg("out of range".to_string());
    assert_eq!(e.message, "out of range");
    assert_eq!(e.cause, None);
}

#[test]
fn with_cause_keeps_both() {
    let e = Error::with_cause("could not read".to_string(), "permission denied".to_string());
    assert_eq!(e.message, "could not read");
    assert_eq!(e.cause.as_deref(), Some("permission denied"));
}

#[test]
fn text_of_an_error_without_cause_is_its_message() {
    assert_eq!(Error::msg("'101' is greater than 100%".to_string()).to_text(), "'101' is greater than 100%");
    assert_eq!(Error::msg(String::new()).to_text(), "");
}

#[test]
fn text_of_an_error_with_cause_puts_it_in_parentheses() {
    let e = Error::with_cause("could not parse 'x'".to_string(), "invalid digit found in string".to_string());
    assert_eq!(e.to_text(), "could not parse 'x' (invalid digit found in string)");
    let e = Error::with_cause("m".to_string(), String::new());
    assert_eq!(e.to_text(), "m ()");
}

#[test]
fn text_of_a_parse_error() {
    let e = backlight::Action::from_str("12a").unwrap_err();
    assert_eq!(e.to_text(), "could not parse '12a' (invalid digit found in string)");
    let e = backlight::Action::from_str("+150%").unwrap_err();
    assert_eq!(e.to_text(), "'150' is greater than 100%");
}
