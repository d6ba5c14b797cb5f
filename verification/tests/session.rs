//! Keys, answers of the server, and the demonstration.
use vstd::hash_map::StringHashMap;

use zeroterm::demo::create_demo_emails_at;
use zeroterm::demo_session::{is_due, DemoEffect, DemoSession};
use zeroterm::desk::{Key, KeyPress, Settings, REVIEW_FIRST};
use zeroterm::email::{Email, EmailBuilder};
use zeroterm::modes::View;
use zeroterm::session::{
    email_url, Connection, Effect, ImapCommand, ImapResponse, Session,
};
use zeroterm::timestamp::Timestamp;
use zeroterm::ui::screen::{render, scroll_to, BottomBar, Pane};
use zeroterm::ui::widgets::{
    ConfirmAction, EmailListWidget, GroupListWidget, TextViewState, ThreadViewWidget,
};
use zeroterm::undo::{UndoActionType, UndoContext};

fn email(id: &str, from: &str, thread: &str, secs: i64) -> Email {
    let mut e = EmailBuilder::new()
        .id(id)
        .from(from)
        .subject("Subject")
        .message_id(&format!("<{id}@x>"))
        .date(Timestamp { secs, nanos: 0 })
        .source_folder("INBOX")
        .build();
    e.thread_id = thread.to_string();
    e
}

fn settings(protect_threads: bool) -> Settings {
    Settings {
        parallel_connections: 4,
        advance_on_select: true,
        protect_threads,
    }
}

fn session(protect_threads: bool) -> Session {
    let mut s = Session::start("home", "me@example.com", settings(protect_threads));
    s.handle_response(ImapResponse::Emails(Ok(vec![
        email("1", "alice@x.com", "a", 10),
        email("2", "bob@x.com", "a", 20),
        email("3", "alice@x.com", "b", 30),
    ])));
    s
}

fn press(s: &mut Session, key: Key) -> Effect {
    s.handle_key(KeyPress { key, control: false })
}

fn char_key(s: &mut Session, c: char) -> Effect {
    press(s, Key::Char(c))
}

fn map(list: &[(&str, u32)]) -> StringHashMap<u32> {
    let mut m = StringHashMap::new();
    for (k, v) in list {
        m.insert(k.to_string(), *v);
    }
    m
}

#[test]
fn a_session_connects_and_loads() {
    let mut s = Session::start("home", "me@example.com", settings(true));
    assert!(s.desk.ui.busy);
    assert_eq!(s.desk.ui.status_message.as_deref(), Some("Connecting to home..."));
    let (state, effect) = s.connect(&ImapResponse::Connected);
    assert_eq!(state, Connection::Ready);
    match effect {
        Effect::Send(ImapCommand::FetchInbox { parallel_connections }) => {
            assert_eq!(parallel_connections, 4)
        }
        _ => panic!("expected a fetch"),
    }
    let mut s = Session::start("home", "me@example.com", settings(true));
    let (state, _) = s.connect(&ImapResponse::Error("no".to_string()));
    assert!(matches!(state, Connection::Failed(_)));
}

#[test]
fn busy_sessions_ignore_keys() {
    let mut s = Session::start("home", "me@example.com", settings(true));
    assert!(matches!(char_key(&mut s, 'q'), Effect::Nothing));
    assert!(!s.desk.ui.is_confirming());
}

#[test]
fn a_thread_is_archived_and_undone() {
    let mut s = session(true);
    press(&mut s, Key::Enter);
    assert_eq!(s.desk.app.current_email().unwrap().id, "3");
    match char_key(&mut s, 'a') {
        Effect::Send(ImapCommand::ArchiveMultiple(ids)) => {
            assert_eq!(ids, vec![("3".to_string(), "INBOX".to_string())])
        }
        _ => panic!("expected a move"),
    }
    assert!(s.desk.ui.busy);
    s.handle_response(ImapResponse::MultiArchiveResult(Ok(map(&[("3", 77)]))));
    assert!(!s.desk.ui.busy);
    assert_eq!(s.desk.app.mailbox.emails().len(), 2);
    let entry = s.desk.app.current_undo_entry().unwrap();
    assert_eq!(entry.action_type, UndoActionType::Archive);
    assert_eq!(entry.current_folder, "[Gmail]/All Mail");
    assert_eq!(entry.emails[0].1, Some(77));
    char_key(&mut s, 'u');
    assert_eq!(s.desk.app.view, View::UndoHistory);
    match press(&mut s, Key::Enter) {
        Effect::Send(ImapCommand::RestoreEmails(items)) => {
            assert_eq!(items.len(), 1);
            assert_eq!(items[0].0.as_deref(), Some("<3@x>"));
            assert_eq!(items[0].1, Some(77));
            assert_eq!(items[0].2, "[Gmail]/All Mail");
            assert_eq!(items[0].3, "INBOX");
        }
        _ => panic!("expected a restore"),
    }
    match s.handle_response(ImapResponse::RestoreResult(Ok(()))) {
        Effect::Send(ImapCommand::FetchInbox { .. }) => {}
        _ => panic!("expected a fetch"),
    }
    assert_eq!(s.desk.app.undo_history_len(), 0);
}

#[test]
fn failed_moves_change_nothing() {
    let mut s = session(false);
    press(&mut s, Key::Enter);
    char_key(&mut s, 'd');
    s.handle_response(ImapResponse::MultiDeleteResult(Err("no".to_string())));
    assert_eq!(s.desk.app.mailbox.emails().len(), 3);
    assert_eq!(s.desk.app.undo_history_len(), 0);
    assert!(!s.desk.ui.busy);
    let mut s = session(false);
    press(&mut s, Key::Enter);
    char_key(&mut s, 'a');
    s.handle_response(ImapResponse::MultiArchiveResult(Ok(map(&[]))));
    char_key(&mut s, 'u');
    press(&mut s, Key::Enter);
    s.handle_response(ImapResponse::RestoreResult(Err("gone".to_string())));
    assert_eq!(s.desk.ui.status_message.as_deref(), Some("Undo failed: gone"));
    assert_eq!(s.desk.app.undo_history_len(), 1);
}

#[test]
fn threads_have_to_be_reviewed_first() {
    let mut s = session(true);
    press(&mut s, Key::Enter);
    char_key(&mut s, 'j');
    assert_eq!(s.desk.app.current_email().unwrap().id, "1");
    assert!(matches!(char_key(&mut s, 'd'), Effect::Nothing));
    assert_eq!(s.desk.ui.status_message.as_deref(), Some(REVIEW_FIRST));
    let mut s = session(false);
    press(&mut s, Key::Enter);
    char_key(&mut s, 'j');
    match char_key(&mut s, 'd') {
        Effect::Send(ImapCommand::DeleteMultiple(ids)) => assert_eq!(ids.len(), 2),
        _ => panic!("expected a move"),
    }
}

#[test]
fn bulk_actions_are_confirmed() {
    let mut s = session(true);
    press(&mut s, Key::Enter);
    assert!(matches!(char_key(&mut s, 'A'), Effect::Nothing));
    match &s.desk.ui.confirm_action {
        Some(ConfirmAction::ArchiveEmails { sender, count }) => {
            assert_eq!(sender, "alice@x.com");
            assert_eq!(*count, 3);
        }
        _ => panic!("expected a question"),
    }
    assert!(matches!(char_key(&mut s, 'n'), Effect::Nothing));
    assert!(!s.desk.ui.is_confirming());
    assert_eq!(s.desk.app.mailbox.emails().len(), 3);
    char_key(&mut s, 'A');
    match char_key(&mut s, 'y') {
        Effect::Send(ImapCommand::ArchiveMultiple(ids)) => assert_eq!(ids.len(), 3),
        _ => panic!("expected a move"),
    }
    s.handle_response(ImapResponse::MultiArchiveResult(Ok(map(&[]))));
    assert!(s.desk.app.mailbox.emails().is_empty());
}

#[test]
fn a_thread_view_acts_on_the_whole_thread() {
    let mut s = session(true);
    press(&mut s, Key::Enter);
    char_key(&mut s, 'j');
    press(&mut s, Key::Enter);
    assert_eq!(s.desk.app.view, View::Thread);
    char_key(&mut s, 'D');
    match &s.desk.ui.confirm_action {
        Some(ConfirmAction::DeleteThread { thread_email_count }) => assert_eq!(*thread_email_count, 2),
        _ => panic!("expected a question"),
    }
    match char_key(&mut s, 'y') {
        Effect::Send(ImapCommand::DeleteMultiple(ids)) => assert_eq!(ids.len(), 2),
        _ => panic!("expected a move"),
    }
    s.handle_response(ImapResponse::MultiDeleteResult(Ok(map(&[("1", 5)]))));
    assert_eq!(s.desk.app.view, View::EmailList);
    let entry = s.desk.app.current_undo_entry().unwrap();
    assert_eq!(entry.current_folder, "[Gmail]/Trash");
    assert_eq!(entry.context, UndoContext::Thread { subject: "Subject".to_string() });
}

#[test]
fn selected_threads_are_moved_together() {
    let mut s = session(true);
    press(&mut s, Key::Enter);
    char_key(&mut s, ' ');
    assert_eq!(s.desk.app.selected_email, Some(1));
    char_key(&mut s, ' ');
    assert_eq!(s.desk.app.selected_email_count(), 2);
    char_key(&mut s, 'a');
    match &s.desk.ui.confirm_action {
        Some(ConfirmAction::ArchiveSelected { count }) => assert_eq!(*count, 3),
        _ => panic!("expected a question"),
    }
    match char_key(&mut s, 'y') {
        Effect::Send(ImapCommand::ArchiveMultiple(ids)) => assert_eq!(ids.len(), 3),
        _ => panic!("expected a move"),
    }
    s.handle_response(ImapResponse::MultiArchiveResult(Ok(map(&[]))));
    assert_eq!(
        s.desk.app.current_undo_entry().unwrap().context,
        UndoContext::Group { sender: "3 selected".to_string() }
    );
}

#[test]
fn bodies_are_fetched_once() {
    let mut s = session(true);
    press(&mut s, Key::Enter);
    char_key(&mut s, 'j');
    press(&mut s, Key::Enter);
    assert_eq!(s.desk.app.view, View::Thread);
    match press(&mut s, Key::Enter) {
        Effect::Send(ImapCommand::FetchBody { uid, folder }) => {
            assert_eq!((uid.as_str(), folder.as_str()), ("2", "INBOX"))
        }
        _ => panic!("expected a fetch"),
    }
    assert!(matches!(s.desk.ui.text_view_state, TextViewState::Loading));
    // An answer about another message is not shown.
    s.handle_response(ImapResponse::BodyResult {
        uid: "1".to_string(),
        result: Ok("Other".to_string()),
    });
    assert!(matches!(s.desk.ui.text_view_state, TextViewState::Loading));
    s.handle_response(ImapResponse::BodyResult {
        uid: "2".to_string(),
        result: Ok("Body".to_string()),
    });
    assert!(matches!(&s.desk.ui.text_view_state, TextViewState::Loaded(b) if b == "Body"));
    press(&mut s, Key::Esc);
    assert_eq!(s.desk.app.view, View::Thread);
    assert!(matches!(press(&mut s, Key::Enter), Effect::Nothing));
    assert!(matches!(&s.desk.ui.text_view_state, TextViewState::Loaded(b) if b == "Body"));
}

#[test]
fn bodies_that_cannot_be_fetched_are_told() {
    let mut s = session(true);
    press(&mut s, Key::Enter);
    match press(&mut s, Key::Enter) {
        Effect::Send(ImapCommand::FetchBody { uid, .. }) => assert_eq!(uid, "3"),
        _ => panic!("expected a fetch"),
    }
    s.handle_response(ImapResponse::BodyResult {
        uid: "3".to_string(),
        result: Err("gone".to_string()),
    });
    assert!(matches!(&s.desk.ui.text_view_state, TextViewState::Error(e) if e == "gone"));
}

#[test]
fn messages_open_in_the_browser() {
    assert_eq!(
        email_url("<a+b@x.com>", "me@example.com"),
        "https://mail.google.com/mail/u/me@example.com/#search/rfc822msgid:%3Ca%2Bb%40x.com%3E"
    );
    let mut s = session(true);
    press(&mut s, Key::Enter);
    match char_key(&mut s, 'e') {
        Effect::Open(url) => assert!(url.ends_with("rfc822msgid:%3C3%40x%3E")),
        _ => panic!("expected an address"),
    }
}

#[test]
fn progress_is_told() {
    let mut s = session(true);
    s.handle_response(ImapResponse::Progress(3, 10, "Archiving".to_string()));
    assert_eq!(s.desk.ui.status_message.as_deref(), Some("Archiving 3 of 10..."));
    s.handle_response(ImapResponse::Retrying {
        attempt: 1,
        max_attempts: 3,
        action: "archive".to_string(),
    });
    assert_eq!(s.desk.ui.status_message.as_deref(), Some("Retrying archive (1/3)..."));
    s.handle_response(ImapResponse::Emails(Err("down".to_string())));
    assert_eq!(s.desk.ui.status_message.as_deref(), Some("Error: down"));
}

#[test]
fn leaving_is_asked() {
    let mut s = session(true);
    assert!(matches!(char_key(&mut s, 'q'), Effect::Nothing));
    assert!(matches!(char_key(&mut s, 'y'), Effect::Quit));
}

#[test]
fn a_filter_is_typed() {
    let mut s = session(true);
    press(&mut s, Key::Enter);
    char_key(&mut s, '/');
    for c in "zz".chars() {
        char_key(&mut s, c);
    }
    assert_eq!(s.desk.app.text_filter(), Some("zz"));
    assert!(s.desk.app.filtered_threads_in_current_group().is_empty());
    press(&mut s, Key::Backspace);
    press(&mut s, Key::Backspace);
    assert!(!s.desk.app.has_text_filter());
    press(&mut s, Key::Enter);
    char_key(&mut s, 'g');
    char_key(&mut s, 'G');
    assert_eq!(s.desk.app.selected_email, Some(1));
    char_key(&mut s, 'g');
    char_key(&mut s, 'g');
    assert_eq!(s.desk.app.selected_email, Some(0));
}

fn demo() -> DemoSession {
    DemoSession::start_with(create_demo_emails_at(Timestamp { secs: 1769355000, nanos: 0 }))
}

fn demo_key(s: &mut DemoSession, key: Key) -> DemoEffect {
    s.handle_key(KeyPress { key, control: false })
}

#[test]
fn the_demonstration_removes_and_restores() {
    let mut s = demo();
    let total = s.desk.app.mailbox.emails().len();
    demo_key(&mut s, Key::Enter);
    demo_key(&mut s, Key::Char('A'));
    assert!(s.desk.ui.is_confirming());
    assert!(matches!(demo_key(&mut s, Key::Char('y')), DemoEffect::Wait));
    assert!(s.desk.ui.busy);
    assert!(matches!(s.pass(), DemoEffect::Nothing));
    assert!(s.desk.app.mailbox.emails().len() < total);
    assert_eq!(s.desk.app.undo_history_len(), 1);
    assert_eq!(s.storage.emails.len(), 1);
    demo_key(&mut s, Key::Char('u'));
    assert!(matches!(demo_key(&mut s, Key::Enter), DemoEffect::Wait));
    s.pass();
    assert_eq!(s.desk.app.mailbox.emails().len(), total);
    assert_eq!(s.desk.app.undo_history_len(), 0);
    assert!(s.storage.emails.is_empty());
}

#[test]
fn the_demonstration_removes_a_selection_one_by_one() {
    let mut s = demo();
    let total = s.desk.app.mailbox.emails().len();
    demo_key(&mut s, Key::Enter);
    demo_key(&mut s, Key::Char(' '));
    demo_key(&mut s, Key::Char('d'));
    assert!(matches!(demo_key(&mut s, Key::Char('y')), DemoEffect::Wait));
    let removed = s.storage.emails[0].len();
    for k in 1..=removed {
        let effect = s.pass();
        assert_eq!(matches!(effect, DemoEffect::Wait), k < removed);
    }
    assert_eq!(s.desk.app.mailbox.emails().len(), total - removed);
    assert_eq!(s.desk.app.selected_email_count(), 0);
    demo_key(&mut s, Key::Char('u'));
    assert!(matches!(demo_key(&mut s, Key::Enter), DemoEffect::Wait));
    s.pass();
    assert_eq!(s.desk.app.mailbox.emails().len(), total);
    assert_eq!(s.desk.app.undo_history_len(), 0);
}

#[test]
fn the_demonstration_takes_its_time() {
    assert!(!is_due(299));
    assert!(is_due(300));
    let mut s = demo();
    demo_key(&mut s, Key::Char('r'));
    assert_eq!(s.desk.ui.status_message.as_deref(), Some("Demo mode: refresh simulated"));
}

#[test]
fn the_screen_follows_the_state() {
    let mut s = session(true);
    let screen = render(&s.desk.app, &mut s.desk.ui, 10, 5);
    assert!(matches!(screen.pane, Pane::Groups { offset: 0 }));
    assert!(matches!(screen.bar, BottomBar::Help));
    assert!(!screen.confirm && !screen.busy && !screen.status && !screen.help);
    press(&mut s, Key::Enter);
    char_key(&mut s, 'q');
    let screen = render(&s.desk.app, &mut s.desk.ui, 10, 5);
    assert!(matches!(screen.pane, Pane::Emails { selected: Some(0) }));
    assert!(screen.confirm);
    let mut empty = Session::start("home", "me@example.com", settings(true));
    empty.handle_response(ImapResponse::Emails(Ok(vec![])));
    let screen = render(&empty.desk.app, &mut empty.desk.ui, 10, 5);
    assert!(matches!(screen.pane, Pane::InboxZero));
}

#[test]
fn lists_scroll_to_the_selection() {
    assert_eq!(scroll_to(0, 3, 5), 0);
    assert_eq!(scroll_to(0, 7, 5), 3);
    assert_eq!(scroll_to(6, 2, 5), 2);
    assert_eq!(scroll_to(scroll_to(0, 7, 5), 7, 5), 3);
}

#[test]
fn lists_have_titles_and_rows() {
    let mut s = session(true);
    let groups = GroupListWidget::new(&s.desk.app, 0);
    assert_eq!(groups.total(), Some(3));
    let rows = groups.rows(10);
    assert_eq!(rows.len(), 2);
    assert!(rows[0].0.contains("alice@x.com"));
    assert!(rows[0].1);
    assert!(!groups.title().is_empty());
    press(&mut s, Key::Enter);
    let emails = EmailListWidget::new(&s.desk.app);
    assert!(emails.counts_fit());
    assert!(emails.title().contains("alice@x.com"));
    let rows = emails.rows();
    assert_eq!(rows.len(), 2);
    assert!(!rows[0].multi && rows[1].multi);
    char_key(&mut s, 'j');
    press(&mut s, Key::Enter);
    let thread = ThreadViewWidget::new(&s.desk.app);
    let rows = thread.rows();
    assert_eq!(rows.len(), 2);
    assert!(rows[0].other_sender && !rows[1].other_sender);
}
