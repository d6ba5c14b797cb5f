//! Getting deleted messages back.
use zeroterm::config::CommandOutput;
use zeroterm::imap_client::{Address, Envelope, FetchedMessage};
use zeroterm::recover::{
    count_senders, fetch_range, fetch_start, is_agreement, latest_first, line_of, parse_args,
    recover_email, report_counts, report_sender, resolve_password, restore_batches,
    uids_to_restore, RecoverEmail,
};
use zeroterm::timestamp::Timestamp;

fn args(list: &[&str]) -> Vec<String> {
    list.iter().map(|a| a.to_string()).collect()
}

#[test]
fn arguments_ask_for_a_command() {
    assert!(parse_args(&args(&["recover"])).is_none());
    assert!(parse_args(&args(&["recover", "--from", "x"])).is_none());
    let a = parse_args(&args(&["recover", "--check"])).unwrap();
    assert!(a.check_mode && !a.restore_mode && !a.list_accounts);
    assert_eq!(a.account_name, None);
    assert_eq!(a.to_folder, "INBOX");
    assert_eq!(a.limit, 2000);
    assert_eq!(a.count, None);
    let a = parse_args(&args(&[
        "recover", "--restore", "--account", "home", "--from", "GitHub", "--to", "Kept",
        "--limit", "10", "--count", "3",
    ]))
    .unwrap();
    assert!(a.restore_mode);
    assert_eq!(a.account_name.as_deref(), Some("home"));
    assert_eq!(a.from_filter.as_deref(), Some("github"));
    assert_eq!(a.to_folder, "Kept");
    assert_eq!(a.limit, 10);
    assert_eq!(a.count, Some(3));
    let a = parse_args(&args(&["recover", "--list-accounts", "--limit", "many", "--count"])).unwrap();
    assert!(a.list_accounts);
    assert_eq!(a.limit, 2000);
    assert_eq!(a.count, None);
}

#[test]
fn passwords_are_resolved() {
    assert_eq!(resolve_password("plain", &None).unwrap(), "plain");
    assert_eq!(
        resolve_password("op://a/b/c", &None).unwrap_err(),
        "Failed to run 'op' command"
    );
    let output = |success: bool| {
        Some(CommandOutput {
            success,
            stdout: b"secret\n".to_vec(),
            stderr: Vec::new(),
        })
    };
    assert_eq!(resolve_password("op://a/b/c", &output(true)).unwrap(), "secret");
    assert_eq!(
        resolve_password("op://a/b/c", &output(false)).unwrap_err(),
        "Failed to read from 1Password"
    );
}

#[test]
fn the_latest_messages_are_fetched() {
    assert_eq!(fetch_start(5000, 2000), 3001);
    assert_eq!(fetch_start(2000, 2000), 1);
    assert_eq!(fetch_start(10, 2000), 1);
    assert_eq!(fetch_range(3001, 5000), "3001:5000");
}

fn text(s: &str) -> Option<Vec<u8>> {
    Some(s.as_bytes().to_vec())
}

#[test]
fn envelopes_make_messages() {
    let mut message = FetchedMessage {
        uid: Some(7),
        envelope: Some(Envelope {
            from: Some(vec![Address {
                name: None,
                mailbox: text("alice"),
                host: None,
            }]),
            subject: text("Hi"),
            date: text("Sun, 25 Jan 2026 10:30:00 -0500"),
        }),
        header: None,
    };
    let email = recover_email(&message).unwrap();
    assert_eq!(email.uid, 7);
    assert_eq!(email.from, "alice@");
    assert_eq!(email.subject, "Hi");
    assert_eq!(email.date.unwrap().secs, 1769355000);
    message.envelope = Some(Envelope { from: Some(vec![]), subject: None, date: text("1769355000") });
    let email = recover_email(&message).unwrap();
    assert_eq!(email.from, "unknown");
    assert_eq!(email.subject, "");
    assert_eq!(email.date, None);
    message.uid = None;
    assert!(recover_email(&message).is_none());
}

fn email(uid: u32, from: &str) -> RecoverEmail {
    RecoverEmail {
        uid,
        from: from.to_string(),
        subject: "Subject".to_string(),
        date: Some(Timestamp { secs: 1769355000, nanos: 0 }),
    }
}

#[test]
fn the_latest_come_first() {
    let sorted = latest_first(vec![email(3, "a"), email(9, "b"), email(5, "c")]);
    let uids: Vec<u32> = sorted.iter().map(|e| e.uid).collect();
    assert_eq!(uids, vec![9, 5, 3]);
}

#[test]
fn a_sender_is_listed() {
    let mut emails: Vec<RecoverEmail> = (0..52).map(|i| email(i, "GitHub@example.com")).collect();
    emails.push(email(100, "other@example.com"));
    emails[0].date = None;
    let lines = report_sender(&emails, "github");
    assert_eq!(lines.len(), 53);
    assert_eq!(lines[0], "Found 52 deleted emails from senders matching 'github':");
    assert_eq!(lines[1], "");
    assert_eq!(lines[2], "  [unknown date] GitHub@example.com - Subject");
    assert_eq!(lines[3], "  [2026-01-25 15:30] GitHub@example.com - Subject");
    assert_eq!(lines[52], "  ... and 2 more");
    assert_eq!(report_sender(&emails, "nobody").len(), 2);
    emails[0].subject = "x".repeat(70);
    assert_eq!(line_of("d", &emails[0]), format!("  [d] GitHub@example.com - {}", "x".repeat(60)));
}

#[test]
fn senders_are_counted() {
    let emails = vec![email(1, "a"), email(2, "b"), email(3, "b"), email(4, "c"), email(5, "c")];
    let counts = count_senders(&emails);
    assert_eq!(
        counts,
        vec![("b".to_string(), 2), ("c".to_string(), 2), ("a".to_string(), 1)]
    );
    let lines = report_counts(emails.len(), &counts);
    assert_eq!(lines[0], "Top senders in [Gmail]/Trash (most recent 5 emails):");
    assert_eq!(lines[2], "      2  b");
    assert_eq!(lines.len(), 5);
    let many: Vec<(String, usize)> = (0..33).map(|i| (format!("s{i}"), 123456)).collect();
    let lines = report_counts(99, &many);
    assert_eq!(lines.len(), 33);
    assert_eq!(lines[2], "  123456  s0");
    assert_eq!(lines[32], "  ... and 3 more senders");
}

#[test]
fn restoring_is_limited() {
    let emails = vec![email(9, "Alice@x"), email(5, "bob@x"), email(3, "alice@x")];
    assert_eq!(
        uids_to_restore(&emails, &None, None).unwrap_err(),
        "--restore without --from requires --count to prevent accidents"
    );
    assert_eq!(uids_to_restore(&emails, &None, Some(2)).unwrap(), vec![9, 5]);
    assert_eq!(uids_to_restore(&emails, &None, Some(7)).unwrap(), vec![9, 5, 3]);
    let filter = Some("alice".to_string());
    assert_eq!(uids_to_restore(&emails, &filter, None).unwrap(), vec![9, 3]);
    assert_eq!(uids_to_restore(&emails, &filter, Some(1)).unwrap(), vec![9]);
}

#[test]
fn restoring_goes_by_batches() {
    assert!(restore_batches(&vec![]).is_empty());
    let uids: Vec<u32> = (1..=250).collect();
    let batches = restore_batches(&uids);
    assert_eq!(batches.len(), 3);
    assert!(batches[0].0.starts_with("1,2,3,"));
    assert!(batches[0].0.ends_with(",100"));
    assert_eq!(batches[0].1, 100);
    assert_eq!(batches[2].1, 250);
    assert_eq!(batches[2].0.split(',').count(), 50);
}

#[test]
fn only_yes_agrees() {
    assert!(is_agreement("y\n"));
    assert!(is_agreement(" Y "));
    assert!(!is_agreement("yes"));
    assert!(!is_agreement(""));
}
