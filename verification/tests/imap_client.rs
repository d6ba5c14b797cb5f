//! What the server sends and what it is sent.
use chrono::Datelike;
use vstd::hash_map::StringHashMap;

use zeroterm::email::Email;
use zeroterm::headers::{
    decode_header_value, parse_message_id_list, parse_threading_headers, threading_headers_of,
};
use zeroterm::imap_client::{
    batch_command, body_text, fetch_sequence, move_command, parse_message, parse_message_at, restore_steps,
    search_query, Address, EmailClient, Envelope, FetchedMessage, Restore, RestoreStep,
};
use zeroterm::replies::{check_reply, MAX_NESTING};
use zeroterm::timestamp::{parse_email_date, Timestamp};
use zeroterm::uids::{
    expand_uid_set, extract_uid_ranges, pair_uids, parse_copyuid_response, read_copyuid_response,
    UidMember,
};

fn date_of(t: Timestamp) -> (i32, u32, u32) {
    let d = chrono::DateTime::from_timestamp(t.secs, t.nanos).unwrap();
    (d.year(), d.month(), d.day())
}

#[test]
fn imap_client_test_parse_email_date_rfc2822() {
    // January 25, 2026 is a Sunday
    let date = parse_email_date("Sun, 25 Jan 2026 10:30:00 -0500");
    assert!(date.is_some());
    assert_eq!(date_of(date.unwrap()), (2026, 1, 25));
}

#[test]
fn imap_client_test_parse_email_date_no_day_name() {
    let date = parse_email_date("25 Jan 2026 10:30:00 +0000");
    assert!(date.is_some());
}

#[test]
fn imap_client_test_parse_email_date_invalid() {
    let date = parse_email_date("invalid date");
    assert!(date.is_none());
}

#[test]
fn test_parse_threading_headers() {
    let headers = b"Message-ID: <abc123@example.com>\r\nIn-Reply-To: <def456@example.com>\r\n";
    let (msg_id, reply_to, refs) = parse_threading_headers(headers);
    assert_eq!(msg_id, Some("<abc123@example.com>".to_string()));
    assert_eq!(reply_to, Some("<def456@example.com>".to_string()));
    assert!(refs.is_empty());
}

#[test]
fn test_parse_threading_headers_no_reply() {
    let headers = b"Message-ID: <abc123@example.com>\r\nSubject: Test\r\n";
    let (msg_id, reply_to, refs) = parse_threading_headers(headers);
    assert_eq!(msg_id, Some("<abc123@example.com>".to_string()));
    assert_eq!(reply_to, None);
    assert!(refs.is_empty());
}

#[test]
fn test_parse_threading_headers_with_references() {
    let headers = b"Message-ID: <msg3@example.com>\r\nIn-Reply-To: <msg2@example.com>\r\nReferences: <msg1@example.com> <msg2@example.com>\r\n";
    let (msg_id, reply_to, refs) = parse_threading_headers(headers);
    assert_eq!(msg_id, Some("<msg3@example.com>".to_string()));
    assert_eq!(reply_to, Some("<msg2@example.com>".to_string()));
    assert_eq!(refs, vec!["<msg1@example.com>", "<msg2@example.com>"]);
}

#[test]
fn test_parse_message_id_list() {
    let list = "<msg1@example.com> <msg2@example.com> <msg3@example.com>";
    let ids = parse_message_id_list(list);
    assert_eq!(
        ids,
        vec![
            "<msg1@example.com>",
            "<msg2@example.com>",
            "<msg3@example.com>"
        ]
    );
}

#[test]
fn test_parse_message_id_list_with_extra_whitespace() {
    let list = "  <msg1@example.com>   <msg2@example.com>  ";
    let ids = parse_message_id_list(list);
    assert_eq!(ids, vec!["<msg1@example.com>", "<msg2@example.com>"]);
}

#[test]
fn message_ids_are_read_back_whatever_stands_between() {
    assert_eq!(parse_message_id_list("\t <a@b>\t\t<c@d><e@f> \t "), vec!["<a@b>", "<c@d>", "<e@f>"]);
    assert!(parse_message_id_list(" \t ").is_empty());
}

#[test]
fn threading_headers_are_read_out_of_text() {
    let (id, parent, references) =
        threading_headers_of("Message-ID: <a@b>\r\nreferences: <c@d>\r\n\t<e@f>\r\nX: y\r\n");
    assert_eq!(id, Some("<a@b>".to_string()));
    assert_eq!(parent, None);
    assert_eq!(references, vec!["<c@d>", "<e@f>"]);
}

#[test]
fn bodies_are_decoded() {
    assert_eq!(body_text(b"gr\xc3\xbcn"), "gr\u{fc}n");
    assert_eq!(body_text(b"a\xffb"), "a\u{fffd}b");
}

// A client that answers what it is told to.
struct MockEmailClient {
    expected: (String, String),
    answer: Option<u32>,
}

impl EmailClient for MockEmailClient {
    fn archive_email(&mut self, email_id: &str, folder: &str) -> Result<Option<u32>, String> {
        assert_eq!((email_id, folder), (self.expected.0.as_str(), self.expected.1.as_str()));
        Ok(self.answer)
    }

    fn delete_email(&mut self, email_id: &str, folder: &str) -> Result<Option<u32>, String> {
        assert_eq!((email_id, folder), (self.expected.0.as_str(), self.expected.1.as_str()));
        Ok(self.answer)
    }

    fn archive_batch(
        &mut self,
        _uids: &[String],
        _folder: &str,
    ) -> Result<StringHashMap<u32>, String> {
        Err("not expected".to_string())
    }

    fn delete_batch(
        &mut self,
        _uids: &[String],
        _folder: &str,
    ) -> Result<StringHashMap<u32>, String> {
        Err("not expected".to_string())
    }

    fn restore_emails(&mut self, _emails: &[Restore]) -> Result<(), String> {
        Ok(())
    }
}

fn mock(email_id: &str, answer: Option<u32>) -> MockEmailClient {
    MockEmailClient {
        expected: (email_id.to_string(), "INBOX".to_string()),
        answer,
    }
}

#[test]
fn imap_client_test_mock_client_archive() {
    let mut mock = mock("email123", Some(100)); // Returns destination UID

    let result = mock.archive_email("email123", "INBOX");
    assert!(result.is_ok());
    assert_eq!(result.unwrap(), Some(100));
}

#[test]
fn imap_client_test_mock_client_delete() {
    let mut mock = mock("email456", Some(200)); // Returns destination UID

    let result = mock.delete_email("email456", "INBOX");
    assert!(result.is_ok());
    assert_eq!(result.unwrap(), Some(200));
}

#[test]
fn test_mock_client_restore() {
    let mut mock = mock("", None);

    // (message_id, dest_uid, current_folder, dest_folder)
    let restore_ops = vec![
        (
            Some("<123@example.com>".to_string()),
            Some(100),
            "[Gmail]/All Mail".to_string(),
            "INBOX".to_string(),
        ),
        (
            Some("<456@example.com>".to_string()),
            Some(200),
            "[Gmail]/Trash".to_string(),
            "INBOX".to_string(),
        ),
    ];
    let result = mock.restore_emails(&restore_ops);
    assert!(result.is_ok());
}

#[test]
fn test_mock_client_restore_fallback() {
    // Restore works with only Message-ID (no dest_uid)
    let mut mock = mock("", None);

    // No dest_uid, should fall back to Message-ID search
    let restore_ops = vec![(
        Some("<789@example.com>".to_string()),
        None,
        "[Gmail]/All Mail".to_string(),
        "INBOX".to_string(),
    )];
    let result = mock.restore_emails(&restore_ops);
    assert!(result.is_ok());
}

#[test]
fn test_extract_uid_ranges_empty() {
    let ranges = extract_uid_ranges(&[]);
    assert!(ranges.is_empty());
}

#[test]
fn test_extract_uid_ranges_single() {
    let ranges = extract_uid_ranges(&[42]);
    assert_eq!(ranges, vec![(42, 42)]);
}

#[test]
fn test_extract_uid_ranges_consecutive() {
    let ranges = extract_uid_ranges(&[1, 2, 3, 4, 5]);
    assert_eq!(ranges, vec![(1, 5)]);
}

#[test]
fn test_extract_uid_ranges_scattered() {
    let ranges = extract_uid_ranges(&[1, 3, 5, 7, 9]);
    assert_eq!(ranges, vec![(1, 1), (3, 3), (5, 5), (7, 7), (9, 9)]);
}

#[test]
fn test_extract_uid_ranges_mixed() {
    // [1,2,3,5,7,8,9] -> [(1,3), (5,5), (7,9)]
    let ranges = extract_uid_ranges(&[1, 2, 3, 5, 7, 8, 9]);
    assert_eq!(ranges, vec![(1, 3), (5, 5), (7, 9)]);
}

#[test]
fn test_extract_uid_ranges_unsorted() {
    // Input doesn't need to be sorted
    let ranges = extract_uid_ranges(&[5, 1, 3, 2, 4]);
    assert_eq!(ranges, vec![(1, 5)]);
}

#[test]
fn test_extract_uid_ranges_with_duplicates() {
    // Duplicates should be handled
    let ranges = extract_uid_ranges(&[1, 1, 2, 2, 3, 5, 5]);
    assert_eq!(ranges, vec![(1, 3), (5, 5)]);
}

fn bytes(s: &str) -> Option<Vec<u8>> {
    Some(s.as_bytes().to_vec())
}

fn fetched(name: Option<&str>, host: Option<&str>) -> FetchedMessage {
    FetchedMessage {
        uid: Some(42),
        envelope: Some(Envelope {
            from: Some(vec![Address {
                name: name.map(|n| n.as_bytes().to_vec()),
                mailbox: bytes("alice"),
                host: host.map(|h| h.as_bytes().to_vec()),
            }]),
            subject: bytes("=?UTF-8?Q?Caf=C3=A9?="),
            date: bytes("Sun, 25 Jan 2026 10:30:00 -0500"),
        }),
        header: bytes("Message-ID: <a@b>\r\nReferences: <x@y>\r\n <z@y>\r\n"),
    }
}

#[test]
fn fetched_messages_are_parsed() {
    let now = Timestamp { secs: 0, nanos: 0 };
    let email: Email = parse_message_at(&fetched(Some("Alice"), Some("b.com")), "INBOX", now).unwrap();
    assert_eq!(email.id, "42");
    assert_eq!(email.from, "Alice <alice@b.com>");
    assert_eq!(email.from_email, "alice@b.com");
    assert_eq!(email.subject, "Café");
    assert_eq!(email.snippet, "Café");
    assert_eq!(email.date.secs, 1769355000);
    assert_eq!(email.message_id.as_deref(), Some("<a@b>"));
    assert_eq!(email.in_reply_to, None);
    assert_eq!(email.references, vec!["<x@y>", "<z@y>"]);
    assert_eq!(email.source_folder, "INBOX");
    let plain = parse_message_at(&fetched(None, Some("b.com")), "Sent", now).unwrap();
    assert_eq!(plain.from, "alice@b.com");
    assert_eq!(plain.source_folder, "Sent");
    let unknown = parse_message_at(&fetched(Some("Alice"), None), "INBOX", now).unwrap();
    assert_eq!(unknown.from, "unknown");
}

#[test]
fn incomplete_messages_are_passed_over() {
    let mut m = fetched(None, Some("b.com"));
    m.uid = None;
    assert!(parse_message(&m, "INBOX").is_none());
    let mut m = fetched(None, Some("b.com"));
    m.envelope = None;
    assert!(parse_message(&m, "INBOX").is_none());
    let mut m = fetched(None, Some("b.com"));
    m.envelope.as_mut().unwrap().from = Some(vec![]);
    assert!(parse_message(&m, "INBOX").is_none());
    let mut m = fetched(None, Some("b.com"));
    m.envelope.as_mut().unwrap().date = None;
    assert!(parse_message(&m, "INBOX").unwrap().date.secs > 1_700_000_000);
}

#[test]
fn header_values_are_decoded() {
    assert_eq!(decode_header_value(b"plain"), "plain");
    assert_eq!(decode_header_value(b"=?UTF-8?B?SGVsbG8=?="), "Hello");
    assert_eq!(decode_header_value(&[0x41, 0xFF]), "A\u{FFFD}");
}

#[test]
fn folded_headers_are_read() {
    let headers = b"message-id:\r\n <abc@example.com>\r\nReferences: <1@x>\r\n\t<2@x>\r\n";
    let (msg_id, reply_to, refs) = parse_threading_headers(headers);
    assert_eq!(msg_id, Some("<abc@example.com>".to_string()));
    assert_eq!(reply_to, None);
    assert_eq!(refs, vec!["<1@x>", "<2@x>"]);
}

#[test]
fn commands_are_quoted() {
    assert_eq!(move_command("1,2", "INBOX"), "UID MOVE 1,2 INBOX");
    assert_eq!(
        move_command("1", "[Gmail]/All Mail"),
        "UID MOVE 1 \"[Gmail]/All Mail\""
    );
    assert_eq!(move_command("1", "a\"b"), "UID MOVE 1 \"a\\\"b\"");
    let uids = vec!["1".to_string(), "5".to_string()];
    assert_eq!(
        batch_command(&uids, "[Gmail]/Trash").unwrap(),
        "UID MOVE 1,5 [Gmail]/Trash"
    );
    assert_eq!(batch_command(&vec![], "INBOX"), None);
    assert_eq!(fetch_sequence(1, 20).unwrap(), "1:20");
    assert_eq!(fetch_sequence(0, 20), None);
    assert_eq!(fetch_sequence(3, 2), None);
    assert_eq!(search_query("<a@b>"), "HEADER Message-ID <a@b>");
}

#[test]
fn uid_sets_are_expanded_and_paired() {
    let set = vec![UidMember::Uid(4), UidMember::Range(7, 9)];
    assert_eq!(expand_uid_set(&set), vec![4, 7, 8, 9]);
    let map = pair_uids(&set, &vec![UidMember::Range(100, 102)]);
    assert_eq!(map.get("4"), Some(&100));
    assert_eq!(map.get("8"), Some(&102));
    assert_eq!(map.get("9"), None);
}

#[test]
fn copyuid_is_found_in_replies() {
    let reply = b"* 3 EXPUNGE\r\na1 OK [COPYUID 1 4,7:8 100:102] Done\r\n";
    assert!(check_reply(reply));
    let map = parse_copyuid_response(reply);
    assert_eq!(map.get("4"), Some(&100));
    assert_eq!(map.get("7"), Some(&101));
    assert_eq!(map.get("8"), Some(&102));
    assert_eq!(map.len(), 3);
    assert_eq!(parse_copyuid_response(b"a1 OK Done\r\n").len(), 0);
    assert_eq!(parse_copyuid_response(b"").len(), 0);
    let tagged = b"a1 OK [COPYUID 1 4 100] INTERNALDATE NIL\r\n";
    assert_eq!(read_copyuid_response(tagged).unwrap().get("4"), Some(&100));
}

#[test]
fn replies_that_cannot_be_parsed_are_told() {
    assert!(check_reply(b""));
    assert!(!check_reply(b"* 1 FETCH (internaldate nil)\r\n"));
    assert!(!check_reply(b"* METADATA \"A\" (/shared/comment {1}\r\n\xff)\r\n"));
    assert!(!check_reply(b"* metadata \"A\" (/shared/comment {1}\r\n\xff)\r\n"));
    assert!(check_reply(b"* 1 FETCH (RFC822 {1}\r\n\xff)\r\n"));
    assert!(check_reply(b"a1 OK INTERNALDATE NIL\r\n"));
    assert!(!check_reply(b"a1 OK Done\r\n* 1 FETCH (INTERNALDATE NIL)\r\n"));
    assert!(read_copyuid_response(b"* 1 FETCH (INTERNALDATE NIL)\r\n").is_none());

    let depth = MAX_NESTING as usize;
    let nested = |open: usize| format!("* 1 FETCH (BODYSTRUCTURE {})\r\n", "(".repeat(open));
    assert!(check_reply(nested(depth).as_bytes()));
    assert!(!check_reply(nested(depth + 1).as_bytes()));
    let closed = format!("* 1 fetch (bodystructure {}", "(\")\" ".repeat(depth + 1));
    assert!(!check_reply(closed.as_bytes()));
    let literal = format!("* 1 fetch (bodystructure {}", "({1}\r\n) ".repeat(depth + 1));
    assert!(!check_reply(literal.as_bytes()));
    let quoted = format!("* 1 FETCH (BODYSTRUCTURE (\"\\\"{}\") ", "(".repeat(depth + 1));
    assert!(check_reply(quoted.as_bytes()));
    let side_by_side = format!("* 1 FETCH (BODYSTRUCTURE ({}", "(NIL)".repeat(depth + 1));
    assert!(check_reply(side_by_side.as_bytes()));
}

#[test]
fn copyuid_is_found_behind_annotations_and_body_structures() {
    let reply: &[u8] = b"* METADATA \"A\" (/shared/comment \"x\")\r\n\
        * 1 FETCH (BODYSTRUCTURE ((\"TEXT\" \"PLAIN\" (\"CHARSET\" \"UTF-8\") NIL {3}\r\n(()\
         \"7BIT\" 5 1)(\"TEXT\" \"HTML\" NIL NIL NIL \"7BIT\" 9 2) \"ALTERNATIVE\"))\r\n\
        a1 OK [COPYUID 1 4 100] Done\r\n";
    assert!(check_reply(reply));
    let map = parse_copyuid_response(reply);
    assert_eq!(map.get("4"), Some(&100));
    assert_eq!(map.len(), 1);
}

#[test]
fn structures_are_parsed_as_deep_as_they_may_nest() {
    let depth = MAX_NESTING as usize;
    let text = "(\"TEXT\" \"PLAIN\" NIL NIL NIL \"7BIT\" 5 1)".to_string();
    let fields = "\"MESSAGE\" \"RFC822\" NIL NIL NIL \"7BIT\" 5";
    let envelope = "(NIL NIL NIL NIL NIL NIL NIL NIL NIL NIL)";
    let (mut parts, mut messages) = (text.clone(), text);
    for _ in 1..depth {
        parts = format!("({parts} \"MIXED\")");
        messages = format!("({fields} {envelope} {messages} 1)");
    }
    let extension = format!(
        "(\"TEXT\" \"PLAIN\" NIL NIL NIL \"7BIT\" 5 1 NIL NIL NIL NIL {}1{})",
        "(".repeat(depth - 1),
        ")".repeat(depth - 1)
    );
    for body in [parts, messages, extension] {
        let reply = format!("* 1 FETCH (BODYSTRUCTURE {body})\r\na1 OK [COPYUID 1 4 100] Done\r\n");
        assert!(check_reply(reply.as_bytes()));
        assert_eq!(parse_copyuid_response(reply.as_bytes()).get("4"), Some(&100));
        let deeper = reply.replace(&body, &format!("({body} \"MIXED\")"));
        assert!(!check_reply(deeper.as_bytes()));
    }
}

fn put_back(id: &str, uid: Option<u32>, from: &str) -> Restore {
    (Some(id.to_string()), uid, from.to_string(), "INBOX".to_string())
}

#[test]
fn restoring_moves_what_is_known_and_seeks_the_rest() {
    let steps = restore_steps(&vec![
        put_back("<1>", Some(3), "Trash"),
        put_back("<2>", None, "Archive"),
        put_back("<3>", Some(4), "Trash"),
        put_back("<4>", Some(9), "Trash"),
        put_back("<5>", None, "Archive"),
        (None, None, "Trash".to_string(), "INBOX".to_string()),
    ]);
    let inbox = || "INBOX".to_string();
    assert_eq!(
        steps,
        vec![
            RestoreStep::Select { folder: "Trash".to_string() },
            RestoreStep::Move { uids: "3:4".to_string(), folder: inbox() },
            RestoreStep::Move { uids: "9".to_string(), folder: inbox() },
            RestoreStep::Select { folder: "Archive".to_string() },
            RestoreStep::Find { message_id: "<2>".to_string(), folder: inbox() },
            RestoreStep::Find { message_id: "<5>".to_string(), folder: inbox() },
        ]
    );
    assert!(restore_steps(&vec![]).is_empty());
}
