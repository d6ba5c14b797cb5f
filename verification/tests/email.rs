//! Addresses, messages and threads.
use zeroterm::email::{extract_domain, extract_email, Email, EmailBuilder};
use zeroterm::threading::build_thread_ids;
use zeroterm::timestamp::Timestamp;

fn now() -> Timestamp {
    let t = chrono::Utc::now();
    Timestamp {
        secs: t.timestamp(),
        nanos: t.timestamp_subsec_nanos(),
    }
}

#[test]
fn test_extract_email_with_name_and_brackets() {
    assert_eq!(
        extract_email("John Doe <john@example.com>"),
        "john@example.com"
    );
}

#[test]
fn test_extract_email_with_only_brackets() {
    assert_eq!(extract_email("<jane@test.org>"), "jane@test.org");
}

#[test]
fn test_extract_email_without_brackets() {
    assert_eq!(extract_email("plain@email.com"), "plain@email.com");
}

#[test]
fn test_extract_email_with_whitespace() {
    assert_eq!(extract_email("  spaced@email.com  "), "spaced@email.com");
}

#[test]
fn test_extract_email_complex_name() {
    assert_eq!(
        extract_email("\"Doe, John\" <john.doe@company.co.uk>"),
        "john.doe@company.co.uk"
    );
}

#[test]
fn test_extract_domain_simple() {
    assert_eq!(extract_domain("user@example.com"), "example.com");
}

#[test]
fn test_extract_domain_subdomain() {
    assert_eq!(extract_domain("user@mail.example.com"), "mail.example.com");
}

#[test]
fn test_extract_domain_no_at_symbol_returns_full_input() {
    // Returns full input to avoid grouping unrelated malformed addresses
    assert_eq!(extract_domain("invalid"), "invalid");
}

#[test]
fn test_email_struct_creation() {
    let date = now();
    let email = Email::new(
        "msg123".to_string(),
        "thread456".to_string(),
        "John Doe <john@example.com>".to_string(),
        "Hello World".to_string(),
        "This is a snippet...".to_string(),
        date,
    );

    assert_eq!(email.id, "msg123");
    assert_eq!(email.thread_id, "thread456");
    assert_eq!(email.from, "John Doe <john@example.com>");
    assert_eq!(email.from_email, "john@example.com");
    assert_eq!(email.from_domain, "example.com");
    assert_eq!(email.subject, "Hello World");
    assert_eq!(email.snippet, "This is a snippet...");
}

#[test]
fn test_email_struct_plain_email() {
    let date = now();
    let email = Email::new(
        "msg789".to_string(),
        "thread789".to_string(),
        "noreply@service.io".to_string(),
        "Notification".to_string(),
        "You have a new message".to_string(),
        date,
    );

    assert_eq!(email.from_email, "noreply@service.io");
    assert_eq!(email.from_domain, "service.io");
}

#[test]
fn test_build_thread_ids_single_email() {
    let date = now();
    let mut emails = vec![
        EmailBuilder::new()
            .id("1")
            .from("alice@example.com")
            .subject("Subject")
            .snippet("Snippet")
            .date(date)
            .message_id("<msg1@example.com>")
            .build(),
    ];

    build_thread_ids(&mut emails);
    assert_eq!(emails[0].thread_id, "thread_0");
}

#[test]
fn test_build_thread_ids_reply_chain() {
    let date = now();
    let mut emails = vec![
        EmailBuilder::new()
            .id("1")
            .from("alice@example.com")
            .subject("Subject")
            .snippet("Original")
            .date(date)
            .message_id("<msg1@example.com>")
            .build(),
        EmailBuilder::new()
            .id("2")
            .from("bob@example.com")
            .subject("Re: Subject")
            .snippet("Reply")
            .date(date)
            .message_id("<msg2@example.com>")
            .in_reply_to("<msg1@example.com>")
            .build(),
    ];

    build_thread_ids(&mut emails);
    // Both should have the same thread ID
    assert_eq!(emails[0].thread_id, emails[1].thread_id);
}

#[test]
fn test_build_thread_ids_separate_threads() {
    let date = now();
    let mut emails = vec![
        EmailBuilder::new()
            .id("1")
            .from("alice@example.com")
            .subject("Subject A")
            .snippet("Email A")
            .date(date)
            .message_id("<msg1@example.com>")
            .build(),
        EmailBuilder::new()
            .id("2")
            .from("bob@example.com")
            .subject("Subject B")
            .snippet("Email B")
            .date(date)
            .message_id("<msg2@example.com>")
            .build(),
    ];

    build_thread_ids(&mut emails);
    // Should have different thread IDs
    assert_ne!(emails[0].thread_id, emails[1].thread_id);
}

#[test]
fn test_build_thread_ids_three_email_chain() {
    let date = now();
    let mut emails = vec![
        EmailBuilder::new()
            .id("1")
            .from("alice@example.com")
            .subject("Subject")
            .snippet("Original")
            .date(date)
            .message_id("<msg1@example.com>")
            .build(),
        EmailBuilder::new()
            .id("2")
            .from("bob@example.com")
            .subject("Re: Subject")
            .snippet("Reply 1")
            .date(date)
            .message_id("<msg2@example.com>")
            .in_reply_to("<msg1@example.com>")
            .build(),
        EmailBuilder::new()
            .id("3")
            .from("alice@example.com")
            .subject("Re: Subject")
            .snippet("Reply 2")
            .date(date)
            .message_id("<msg3@example.com>")
            .in_reply_to("<msg2@example.com>")
            .build(),
    ];

    build_thread_ids(&mut emails);
    // All three should have the same thread ID
    assert_eq!(emails[0].thread_id, emails[1].thread_id);
    assert_eq!(emails[1].thread_id, emails[2].thread_id);
}

#[test]
fn test_build_thread_ids_with_references() {
    // Test that References header can connect emails even when intermediate is missing
    let date = now();
    let mut emails = vec![
        // Original email
        EmailBuilder::new()
            .id("1")
            .from("alice@example.com")
            .subject("Subject")
            .snippet("Original")
            .date(date)
            .message_id("<msg1@example.com>")
            .build(),
        // Reply 3 - intermediate reply (msg2) is missing from inbox
        // But References header contains the full chain
        EmailBuilder::new()
            .id("3")
            .from("charlie@example.com")
            .subject("Re: Subject")
            .snippet("Reply to missing email")
            .date(date)
            .message_id("<msg3@example.com>")
            .in_reply_to("<msg2@example.com>") // This won't match (msg2 not in inbox)
            .references(vec![
                "<msg1@example.com>".to_string(),
                "<msg2@example.com>".to_string(),
            ])
            .build(),
    ];

    build_thread_ids(&mut emails);
    // Should be in same thread because References contains msg1
    assert_eq!(emails[0].thread_id, emails[1].thread_id);
}

#[test]
fn test_build_thread_ids_shared_in_reply_to_missing_email() {
    // Two emails that both reply to a common email that's not in the inbox
    let date = now();
    let mut emails = vec![
        EmailBuilder::new()
            .id("1")
            .from("alice@example.com")
            .subject("Re: Subject")
            .snippet("Reply 1")
            .date(date)
            .message_id("<reply1@example.com>")
            .in_reply_to("<original@example.com>") // Not in inbox
            .build(),
        EmailBuilder::new()
            .id("2")
            .from("bob@example.com")
            .subject("Re: Subject")
            .snippet("Reply 2")
            .date(date)
            .message_id("<reply2@example.com>")
            .in_reply_to("<original@example.com>") // Not in inbox
            .build(),
    ];

    build_thread_ids(&mut emails);
    // Should be in same thread because they share a common In-Reply-To
    assert_eq!(emails[0].thread_id, emails[1].thread_id);
}

#[test]
fn test_build_thread_ids_shared_reference_to_missing_email() {
    // Two emails that both reference a common email that's not in the inbox
    let date = now();
    let mut emails = vec![
        EmailBuilder::new()
            .id("1")
            .from("alice@example.com")
            .subject("Re: Subject")
            .snippet("Reply 1")
            .date(date)
            .message_id("<reply1@example.com>")
            .references(vec!["<original@example.com>".to_string()])
            .build(),
        EmailBuilder::new()
            .id("2")
            .from("bob@example.com")
            .subject("Re: Subject")
            .snippet("Reply 2")
            .date(date)
            .message_id("<reply2@example.com>")
            .references(vec!["<original@example.com>".to_string()])
            .build(),
    ];

    build_thread_ids(&mut emails);
    // Should be in same thread because they share a common reference
    assert_eq!(emails[0].thread_id, emails[1].thread_id);
}
