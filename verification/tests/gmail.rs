//! Messages of the Gmail API.
use chrono::Datelike;

use zeroterm::gmail::{parse_message, parse_message_at, GmailMessage};
use zeroterm::timestamp::{choose_date, parse_email_date, Timestamp};

#[test]
fn gmail_test_parse_email_date_rfc2822() {
    // January 25, 2026 is a Sunday
    let date = parse_email_date("Sun, 25 Jan 2026 10:30:00 -0500");
    assert!(date.is_some());
    let t = date.unwrap();
    let dt = chrono::DateTime::from_timestamp(t.secs, t.nanos).unwrap();
    assert_eq!(dt.year(), 2026);
    assert_eq!(dt.month(), 1);
    assert_eq!(dt.day(), 25);
}

#[test]
fn gmail_test_parse_email_date_no_day_name() {
    let date = parse_email_date("25 Jan 2026 10:30:00 +0000");
    assert!(date.is_some());
}

#[test]
fn gmail_test_parse_email_date_invalid() {
    let date = parse_email_date("invalid date");
    assert!(date.is_none());
}

fn at(secs: i64) -> Timestamp {
    Timestamp { secs, nanos: 0 }
}

#[test]
fn dates_are_read_in_turn() {
    assert_eq!(
        parse_email_date("Sun, 25 Jan 2026 10:30:00 -0500"),
        Some(at(1769355000))
    );
    assert_eq!(parse_email_date("1769355000"), Some(at(1769355000)));
    assert_eq!(parse_email_date("-1"), Some(at(-1)));
    assert_eq!(parse_email_date("8210266876800"), None);
    assert_eq!(parse_email_date("8210266876799"), Some(at(8210266876799)));
    assert_eq!(parse_email_date(""), None);
    assert_eq!(choose_date(Some(at(1)), &vec![Some(at(2))], "3"), Some(at(1)));
    assert_eq!(choose_date(None, &vec![None, Some(at(2))], "3"), Some(at(2)));
    assert_eq!(choose_date(None, &vec![None], "3"), Some(at(3)));
}

fn header(name: &str, value: &str) -> (Option<String>, Option<String>) {
    (Some(name.to_string()), Some(value.to_string()))
}

#[test]
fn headers_make_a_message() {
    let message = GmailMessage {
        id: Some("id".to_string()),
        thread_id: Some("t".to_string()),
        snippet: None,
        headers: Some(vec![
            header("FROM", "Alice <alice@example.com>"),
            header("Subject", "First"),
            header("subject", "Second"),
            (Some("From".to_string()), None),
            header("Date", "Sun, 25 Jan 2026 10:30:00 -0500"),
        ]),
    };
    let email = parse_message_at(&message, at(0)).unwrap();
    assert_eq!(email.id, "id");
    assert_eq!(email.from_email, "alice@example.com");
    assert_eq!(email.from_domain, "example.com");
    assert_eq!(email.subject, "Second");
    assert_eq!(email.snippet, "");
    assert_eq!(email.date, at(1769355000));
    assert_eq!(parse_message(&message), Some(email));
}

#[test]
fn messages_without_a_date_are_dated_now() {
    let mut message = GmailMessage {
        id: Some("id".to_string()),
        thread_id: None,
        snippet: Some("s".to_string()),
        headers: Some(vec![]),
    };
    let email = parse_message_at(&message, at(7)).unwrap();
    assert_eq!(email.date, at(7));
    assert_eq!(email.from, "");
    assert_eq!(email.snippet, "s");
    assert!(parse_message(&message).unwrap().date.secs > 1_700_000_000);
    message.headers = None;
    assert_eq!(parse_message(&message), None);
}
