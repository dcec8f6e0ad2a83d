//! Validation of subscriber names and email addresses.

use zero_to_prod::domain::SubscriberEmail;
use zero_to_prod::domain::SubscriberName;

#[test]
fn name_ok() {
    assert!(SubscriberName::parse("a".repeat(256)).is_ok());
    assert!(SubscriberName::parse("john".to_string()).is_ok());
}

#[test]
fn too_long() {
    assert!(SubscriberName::parse("a".repeat(257)).is_err());
}

#[test]
fn whitespace() {
    assert!(SubscriberName::parse(" ".to_string()).is_err());
}

#[test]
fn subscriber_name_empty() {
    assert!(SubscriberName::parse("".to_string()).is_err());
}

#[test]
fn bad_chars() {
    for c in r#"/()"<>\{}"#.chars() {
        assert!(SubscriberName::parse(c.to_string()).is_err());
    }
}

#[test]
fn subscriber_email_empty() {
    assert!(SubscriberEmail::parse("".to_string()).is_err());
}

#[test]
fn no_at() {
    assert!(SubscriberEmail::parse("johnfoo.com".to_string()).is_err());
}

#[test]
fn no_subject() {
    assert!(SubscriberEmail::parse("@foo.com".to_string()).is_err());
}

#[test]
fn email_ok_roundtrip() {
    let email = SubscriberEmail::parse("john@foo.com".to_string()).unwrap();
    assert_eq!(email.as_ref(), "john@foo.com");
    let name = SubscriberName::parse("John".to_string()).unwrap();
    assert_eq!(name.as_ref(), "John");
}
