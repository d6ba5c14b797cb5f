//! The made-up messages.
use std::collections::HashSet;

use zeroterm::demo::create_demo_emails;

#[test]
fn test_demo_emails_created() {
    let emails = create_demo_emails();
    assert!(!emails.is_empty());
    // Should have at least 15 emails
    assert!(emails.len() >= 15);
}

#[test]
fn test_demo_emails_have_unique_ids() {
    let emails = create_demo_emails();
    let ids: HashSet<_> = emails.iter().map(|e| &e.id).collect();
    assert_eq!(ids.len(), emails.len());
}

#[test]
fn test_demo_emails_have_threads() {
    let emails = create_demo_emails();
    // All emails should have thread IDs
    assert!(emails.iter().all(|e| !e.thread_id.is_empty()));

    // Some threads should have multiple messages (the conversations)
    let thread_ids: HashSet<_> = emails.iter().map(|e| &e.thread_id).collect();
    let multi_message_threads = thread_ids
        .iter()
        .filter(|tid| emails.iter().filter(|e| &e.thread_id == **tid).count() > 1)
        .count();
    assert!(
        multi_message_threads >= 2,
        "Should have at least 2 multi-message threads"
    );
}

#[test]
fn test_demo_emails_have_sent_mail() {
    let emails = create_demo_emails();
    let sent_count = emails
        .iter()
        .filter(|e| e.source_folder == "[Gmail]/Sent Mail")
        .count();
    assert!(sent_count >= 2, "Should have at least 2 sent emails");
}

#[test]
fn test_demo_emails_have_variety_of_senders() {
    let emails = create_demo_emails();
    let domains: HashSet<_> = emails.iter().map(|e| &e.from_domain).collect();
    assert!(
        domains.len() >= 5,
        "Should have at least 5 different domains"
    );
}
