//! What the parts keep together.
use zeroterm::app::App;
use zeroterm::email::{Email, EmailBuilder};
use zeroterm::grouping::group_emails;
use zeroterm::modes::{GroupMode, ThreadFilter, View};
use zeroterm::text::{
    contains, decimal_text, eq_ignore_ascii_case, first_chars, join, lines, parse_signed,
    parse_unsigned, replace, starts_with, trim,
};
use zeroterm::threading::build_thread_ids;
use zeroterm::timestamp::Timestamp;

fn email(id: &str, thread: &str, from: &str, secs: i64) -> Email {
    Email::new(
        id.to_string(),
        thread.to_string(),
        from.to_string(),
        format!("Subject {id}"),
        String::new(),
        Timestamp { secs, nanos: 0 },
    )
}

fn loaded() -> App {
    let mut app = App::new();
    app.set_emails(vec![
        email("1", "a", "alice@example.com", 10),
        email("2", "a", "bob@example.com", 30),
        email("3", "b", "alice@example.com", 20),
        email("4", "c", "carol@other.com", 40),
    ]);
    app
}

fn ids(emails: &[&Email]) -> Vec<String> {
    emails.iter().map(|e| e.id.clone()).collect()
}

#[test]
fn groups_are_ranked_and_newest_first() {
    let app = loaded();
    let keys: Vec<&str> = app.groups.iter().map(|g| g.key.as_str()).collect();
    assert_eq!(keys, vec!["alice@example.com", "bob@example.com", "carol@other.com"]);
    let alice: Vec<&str> = app.groups[0].emails.iter().map(|e| e.id.as_str()).collect();
    assert_eq!(alice, vec!["3", "1"]);
    let total: usize = app.groups.iter().map(|g| g.count()).sum();
    assert_eq!(total, app.mailbox.emails().len());
}

#[test]
fn own_messages_make_no_group() {
    let emails = vec![
        email("1", "a", "me@example.com", 1),
        email("2", "a", "bob@example.com", 2),
    ];
    let groups = group_emails(&emails, &Some("ME@example.com".to_string()), GroupMode::BySenderEmail);
    let keys: Vec<&str> = groups.iter().map(|g| g.key.as_str()).collect();
    assert_eq!(keys, vec!["bob@example.com"]);
}

#[test]
fn toggling_the_group_mode_twice_changes_nothing() {
    let mut app = loaded();
    let before: Vec<String> = app.groups.iter().map(|g| g.key.clone()).collect();
    app.toggle_group_mode();
    assert_eq!(app.groups[0].key, "example.com");
    assert_eq!(app.groups[0].count(), 3);
    app.toggle_group_mode();
    let after: Vec<String> = app.groups.iter().map(|g| g.key.clone()).collect();
    assert_eq!(before, after);
}

#[test]
fn thread_filters_split_the_list() {
    let mut app = loaded();
    app.enter();
    let all = ids(&app.filtered_threads_in_current_group());
    app.toggle_thread_filter();
    let multi = ids(&app.filtered_threads_in_current_group());
    app.toggle_thread_filter();
    let single = ids(&app.filtered_threads_in_current_group());
    assert_eq!(app.thread_filter, ThreadFilter::NoThreads);
    assert_eq!(multi, vec!["1"]);
    assert_eq!(single, vec!["3"]);
    assert_eq!(all.len(), multi.len() + single.len());
}

#[test]
fn moving_on_and_back_returns() {
    let mut app = loaded();
    app.select_next();
    assert!(app.can_move_back());
    app.select_previous();
    assert_eq!(app.selected_group, 0);
    app.select_next_n(10);
    assert_eq!(app.selected_group, 2);
    app.select_previous_n(10);
    assert_eq!(app.selected_group, 0);
}

#[test]
fn threads_are_shown_whole() {
    let mut app = loaded();
    app.enter();
    app.select_next();
    assert_eq!(app.current_email().unwrap().id, "1");
    app.enter();
    assert_eq!(app.view, View::Thread);
    assert_eq!(ids(&app.current_thread_emails()), vec!["2", "1"]);
    app.exit();
    assert_eq!(app.view, View::EmailList);
    app.exit();
    assert_eq!(app.view, View::GroupList);
}

#[test]
fn restoring_undoes_removing() {
    let contents = |app: &App| {
        let mut groups: Vec<(String, Vec<String>)> = app
            .groups
            .iter()
            .map(|g| {
                let mut held: Vec<String> = g.emails.iter().map(|e| e.id.clone()).collect();
                held.sort();
                (g.key.clone(), held)
            })
            .collect();
        groups.sort();
        groups
    };
    let mut app = loaded();
    let before = contents(&app);
    app.enter();
    let removed = app.current_group_thread_emails_cloned();
    assert_eq!(removed.len(), 3);
    let announced: Vec<String> = app
        .current_group_thread_email_ids()
        .iter()
        .map(|p| p.0.clone())
        .collect();
    app.remove_current_group_threads();
    assert_eq!(app.mailbox.emails().len(), 1);
    for id in &announced {
        assert!(app.mailbox.emails().iter().all(|e| &e.id != id));
    }
    app.restore_emails(removed);
    assert_eq!(app.mailbox.emails().len(), 4);
    assert_eq!(app.groups.len(), 3);
    assert_eq!(contents(&app), before);
}

#[test]
fn threads_follow_links_and_are_stable() {
    let build = |id: &str, mid: &str, parent: &str| {
        let b = EmailBuilder::new().id(id).from("a@b").message_id(mid);
        if parent.is_empty() {
            b.build()
        } else {
            b.in_reply_to(parent).build()
        }
    };
    let mut emails = vec![
        build("1", "<1>", ""),
        build("2", "<2>", ""),
        build("3", "<3>", "<2>"),
        build("4", "<4>", "<missing>"),
        build("5", "<5>", "<missing>"),
    ];
    build_thread_ids(&mut emails);
    let first: Vec<String> = emails.iter().map(|e| e.thread_id.clone()).collect();
    assert_eq!(first[1], first[2]);
    assert_eq!(first[3], first[4]);
    assert_ne!(first[0], first[1]);
    assert_ne!(first[1], first[3]);
    build_thread_ids(&mut emails);
    let second: Vec<String> = emails.iter().map(|e| e.thread_id.clone()).collect();
    assert_eq!(first, second);
}

#[test]
fn counts_per_thread_agree() {
    let app = loaded();
    let alice = &app.groups[0];
    assert_eq!(app.filtered_thread_count_for_group(alice), 2);
    assert_eq!(app.thread_email_total(alice), Some(3));
    assert_eq!(app.full_thread_email_count_for_group(alice), 3);
    assert!(app.group_has_single_message_threads(alice));
    assert_eq!(app.mailbox.thread_count("a"), 2);
    assert!(app.mailbox.is_multi("a"));
    assert!(!app.mailbox.is_multi("b"));
}

#[test]
fn bodies_are_kept() {
    let mut app = loaded();
    app.enter();
    app.enter_text_view("3");
    assert_eq!(app.view, View::EmailBody);
    assert_eq!(app.viewing_email().unwrap().id, "3");
    app.set_email_body("3", "Hello".to_string());
    assert_eq!(app.viewing_email().unwrap().body.as_deref(), Some("Hello"));
    app.scroll_text_view_down(5);
    app.scroll_text_view_up(2);
    assert_eq!(app.text_view_scroll, 3);
    app.exit_text_view();
    assert_eq!(app.view, View::EmailList);
}

#[test]
fn numbers_are_written_and_read() {
    for n in [0u64, 7, 10, 4294967295, u64::MAX] {
        assert_eq!(decimal_text(n), n.to_string());
        assert_eq!(parse_unsigned(&decimal_text(n)), Some(n));
    }
    assert_eq!(parse_unsigned("+5"), Some(5));
    assert_eq!(parse_unsigned("18446744073709551616"), None);
    assert_eq!(parse_unsigned(""), None);
    assert_eq!(parse_signed("-9223372036854775808"), Some(i64::MIN));
    assert_eq!(parse_signed("9223372036854775808"), None);
    assert_eq!(parse_signed("-"), None);
}

#[test]
fn texts_are_cut_and_searched() {
    assert_eq!(trim(" \u{3000}a b\n"), "a b");
    assert_eq!(replace("a\r\n b\r\n", "\r\n ", " "), "a b\r\n");
    assert_eq!(lines("a\r\nb\n\nc"), vec!["a", "b", "", "c"]);
    assert_eq!(join(&vec!["1".to_string(), "2".to_string()], ","), "1,2");
    assert_eq!(first_chars("héllo", 2), "hé");
    assert!(contains("hello", "ell"));
    assert!(contains("x", ""));
    assert!(!starts_with("op:/", "op://"));
    assert!(eq_ignore_ascii_case("Message-ID", "message-id"));
}

#[test]
fn a_viewed_group_stays_selected() {
    let mut app = loaded();
    app.select_next();
    app.enter();
    assert_eq!(app.viewing_group_key(), Some("bob@example.com"));
    app.set_emails(vec![
        email("2", "a", "bob@example.com", 30),
        email("5", "d", "zoe@example.com", 50),
        email("6", "e", "zoe@example.com", 60),
        email("7", "f", "amy@example.com", 70),
        email("8", "g", "amy@example.com", 80),
    ]);
    assert_eq!(app.current_group().unwrap().key, "bob@example.com");
}

#[test]
fn a_group_that_is_gone_gives_way() {
    let mut app = loaded();
    app.select_next();
    app.select_next();
    app.enter();
    assert_eq!(app.viewing_group_key(), Some("carol@other.com"));
    app.set_emails(vec![email("1", "a", "alice@example.com", 10)]);
    assert_eq!(app.selected_group, 0);
    assert_eq!(app.viewing_group_key(), Some("alice@example.com"));
    app.set_emails(vec![]);
    assert_eq!(app.viewing_group_key(), None);
}

#[test]
fn groups_hold_every_message_of_others_once() {
    let mut app = App::new();
    app.set_user_email("Me@example.com".to_string());
    app.set_emails(vec![
        email("1", "a", "alice@example.com", 10),
        email("2", "a", "me@example.com", 20),
        email("3", "b", "bob@other.com", 30),
        email("3", "b", "bob@other.com", 30),
    ]);
    for _ in 0..2 {
        let mut held: Vec<&str> =
            app.groups.iter().flat_map(|g| g.emails.iter().map(|e| e.id.as_str())).collect();
        held.sort();
        assert_eq!(held, vec!["1", "3", "3"]);
        assert_eq!(app.mailbox.emails().len(), 4);
        app.toggle_group_mode();
    }
}

#[test]
fn the_last_item_is_the_last_shown() {
    let mut app = loaded();
    app.thread_filter = ThreadFilter::OnlyThreads;
    app.select_last();
    assert_eq!(app.current_group().unwrap().key, "bob@example.com");
    app.select_next();
    assert_eq!(app.current_group().unwrap().key, "bob@example.com");
    app.select_first();
    assert_eq!(app.current_group().unwrap().key, "alice@example.com");
    app.thread_filter = ThreadFilter::All;
    app.enter();
    app.select_last();
    assert_eq!(app.selected_email, Some(1));
    app.select_next();
    assert_eq!(app.selected_email, Some(1));
    app.enter();
    app.exit();
    app.select_first();
    assert_eq!(app.selected_email, Some(0));
}

#[test]
fn counts_are_those_of_the_lists() {
    let mut app = loaded();
    app.enter();
    for (filter, threads, emails) in [
        (ThreadFilter::All, 2, 3),
        (ThreadFilter::OnlyThreads, 1, 2),
        (ThreadFilter::NoThreads, 1, 1),
    ] {
        app.thread_filter = filter;
        let group = app.current_group().unwrap();
        assert_eq!(app.filtered_thread_count_for_group(group), threads);
        assert_eq!(app.filtered_threads_in_current_group().len(), threads);
        assert_eq!(app.full_thread_email_count_for_group(group), emails);
        assert_eq!(app.current_group_thread_email_ids().len(), emails);
    }
}

#[test]
fn validating_twice_is_validating_once() {
    let mut app = loaded();
    app.enter();
    app.selected_email = Some(99);
    app.ensure_valid_selection();
    let once = (app.selected_group, app.selected_email, app.selected_thread_email);
    assert_eq!(once, (0, Some(0), None));
    app.ensure_valid_selection();
    assert_eq!(once, (app.selected_group, app.selected_email, app.selected_thread_email));
}
