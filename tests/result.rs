use credit_core::result::{Error, ErrorCode};

#[test]
fn empty_note_takes_the_default() {
    let e = Error::new("", ErrorCode::Tech);
    assert_eq!(e.code(), ErrorCode::Tech);
    assert_eq!(e.note(), "A technical issue occured. Please try again later.");
    assert!(!e.has_meta());
    assert_eq!(Error::user("").note(), "An issue occured due to your input.");
    assert_eq!(Error::notfound("").note(), "The information you seek was not found.");
}

#[test]
fn given_note_is_kept() {
    let e = Error::user("bad amount");
    assert_eq!(e.code(), ErrorCode::User);
    assert_eq!(e.note(), "bad amount");
    assert_eq!(Error::tech("down").code(), ErrorCode::Tech);
    assert_eq!(Error::notfound("no such account").code(), ErrorCode::NotFound);
}

#[test]
fn add_meta_sets_and_replaces() {
    let mut e = Error::tech("");
    e.add_meta("from", "varerror");
    assert!(e.has_meta());
    assert_eq!(e.meta("from"), Some("varerror"));
    e.add_meta("error", "missing");
    e.add_meta("from", "parse_int_err");
    assert_eq!(e.meta("from"), Some("parse_int_err"));
    assert_eq!(e.meta("error"), Some("missing"));
    assert_eq!(e.meta("other"), None);
}

#[test]
fn add_meta_x_hands_the_error_back() {
    let e = Error::notfound("gone").add_meta_x("id", "42").add_meta_x("id", "43");
    assert_eq!(e.code(), ErrorCode::NotFound);
    assert_eq!(e.note(), "gone");
    assert_eq!(e.meta("id"), Some("43"));
}

#[test]
fn parse_int_error_becomes_a_tech_error() {
    let parse_error = "12x".parse::<i32>().unwrap_err();
    let e: Error = parse_error.into();
    assert_eq!(e.code(), ErrorCode::Tech);
    assert_eq!(e.note(), "A technical issue occured. Please try again later.");
    assert_eq!(e.meta("from"), Some("parse_int_err"));
    assert_eq!(e.meta("error"), Some("invalid digit found in string"));
}
