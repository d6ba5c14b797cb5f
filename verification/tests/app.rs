//! Groups, threads, selections and the undo history.
use zeroterm::app::App;
use zeroterm::email::Email;
use zeroterm::modes::{GroupMode, SelectionResult, ThreadFilter, View};
use zeroterm::timestamp::Timestamp;
use zeroterm::undo::{UndoActionType, UndoContext, UndoEntry};

fn now() -> Timestamp {
    let t = chrono::Utc::now();
    Timestamp {
        secs: t.timestamp(),
        nanos: t.timestamp_subsec_nanos(),
    }
}

fn create_test_email(id: &str, from: &str) -> Email {
    Email::new(
        id.to_string(),
        format!("thread_{id}"),
        from.to_string(),
        "Subject".to_string(),
        "Snippet".to_string(),
        now(),
    )
}

fn create_test_email_with_thread(id: &str, thread_id: &str, from: &str) -> Email {
    Email::new(
        id.to_string(),
        thread_id.to_string(),
        from.to_string(),
        "Subject".to_string(),
        "Snippet".to_string(),
        now(),
    )
}

#[test]
fn test_app_default_state() {
    let app = App::new();
    assert_eq!(app.group_mode, GroupMode::BySenderEmail);
    assert_eq!(app.view, View::GroupList);
    assert_eq!(app.selected_group, 0);
    assert_eq!(app.selected_email, None);
    assert_eq!(app.selected_thread_email, None);
    assert!(app.groups.is_empty());
    assert!(!app.has_loaded_emails());
}

#[test]
fn test_has_loaded_emails_set_after_set_emails() {
    let mut app = App::new();
    assert!(!app.has_loaded_emails());

    // Even setting empty emails should mark as loaded
    app.set_emails(vec![]);
    assert!(app.has_loaded_emails());
    assert!(app.groups.is_empty());
}

#[test]
fn test_group_by_email() {
    let mut app = App::new();
    app.set_emails(vec![
        create_test_email("1", "alice@example.com"),
        create_test_email("2", "bob@example.com"),
        create_test_email("3", "alice@example.com"),
    ]);

    assert_eq!(app.groups.len(), 2);

    let alice_group = app.groups.iter().find(|g| g.key == "alice@example.com");
    assert!(alice_group.is_some());
    assert_eq!(alice_group.unwrap().count(), 2);

    let bob_group = app.groups.iter().find(|g| g.key == "bob@example.com");
    assert!(bob_group.is_some());
    assert_eq!(bob_group.unwrap().count(), 1);
}

#[test]
fn test_group_by_domain() {
    let mut app = App::new();
    app.group_mode = GroupMode::ByDomain;
    app.set_emails(vec![
        create_test_email("1", "alice@example.com"),
        create_test_email("2", "bob@other.com"),
        create_test_email("3", "charlie@example.com"),
    ]);

    assert_eq!(app.groups.len(), 2);

    let example_group = app.groups.iter().find(|g| g.key == "example.com");
    assert!(example_group.is_some());
    assert_eq!(example_group.unwrap().count(), 2);
}

#[test]
fn test_toggle_group_mode() {
    let mut app = App::new();
    assert_eq!(app.group_mode, GroupMode::BySenderEmail);

    app.toggle_group_mode();
    assert_eq!(app.group_mode, GroupMode::ByDomain);

    app.toggle_group_mode();
    assert_eq!(app.group_mode, GroupMode::BySenderEmail);
}

#[test]
fn test_navigation_groups() {
    let mut app = App::new();
    app.set_emails(vec![
        create_test_email("1", "a@test.com"),
        create_test_email("2", "b@test.com"),
        create_test_email("3", "c@test.com"),
    ]);

    assert_eq!(app.selected_group, 0);

    app.select_next();
    assert_eq!(app.selected_group, 1);

    app.select_next();
    assert_eq!(app.selected_group, 2);

    app.select_next();
    assert_eq!(app.selected_group, 2); // Bounds check

    app.select_previous();
    assert_eq!(app.selected_group, 1);

    app.select_previous();
    assert_eq!(app.selected_group, 0);

    app.select_previous();
    assert_eq!(app.selected_group, 0); // Bounds check
}

#[test]
fn test_navigation_emails() {
    let mut app = App::new();
    app.set_emails(vec![
        create_test_email("1", "alice@example.com"),
        create_test_email("2", "alice@example.com"),
        create_test_email("3", "alice@example.com"),
    ]);

    app.enter();
    assert_eq!(app.view, View::EmailList);
    assert_eq!(app.selected_email, Some(0));

    app.select_next();
    assert_eq!(app.selected_email, Some(1));

    app.select_next();
    assert_eq!(app.selected_email, Some(2));

    app.select_next();
    assert_eq!(app.selected_email, Some(2)); // Bounds check

    app.select_previous();
    assert_eq!(app.selected_email, Some(1));
}

#[test]
fn test_select_first_and_last_groups() {
    let mut app = App::new();
    app.set_emails(vec![
        create_test_email("1", "a@test.com"),
        create_test_email("2", "b@test.com"),
        create_test_email("3", "c@test.com"),
    ]);

    assert_eq!(app.selected_group, 0);

    app.select_last();
    assert_eq!(app.selected_group, 2);

    app.select_first();
    assert_eq!(app.selected_group, 0);
}

#[test]
fn test_select_first_and_last_emails() {
    let mut app = App::new();
    app.set_emails(vec![
        create_test_email("1", "alice@example.com"),
        create_test_email("2", "alice@example.com"),
        create_test_email("3", "alice@example.com"),
    ]);

    app.enter();
    assert_eq!(app.selected_email, Some(0));

    app.select_last();
    assert_eq!(app.selected_email, Some(2));

    app.select_first();
    assert_eq!(app.selected_email, Some(0));
}

#[test]
fn test_select_first_and_last_thread() {
    let mut app = App::new();
    app.set_emails(vec![
        create_test_email_with_thread("1", "thread_a", "alice@example.com"),
        create_test_email_with_thread("2", "thread_a", "bob@example.com"),
        create_test_email_with_thread("3", "thread_a", "charlie@example.com"),
    ]);

    // Navigate to thread view
    let alice_idx = app
        .groups
        .iter()
        .position(|g| g.key == "alice@example.com")
        .unwrap();
    app.selected_group = alice_idx;
    app.enter(); // Enter email list
    app.enter(); // Enter thread view

    assert_eq!(app.selected_thread_email, Some(0));

    app.select_last();
    assert_eq!(app.selected_thread_email, Some(2));

    app.select_first();
    assert_eq!(app.selected_thread_email, Some(0));
}

#[test]
fn test_three_level_navigation() {
    let mut app = App::new();
    app.set_emails(vec![
        create_test_email_with_thread("1", "thread_a", "alice@example.com"),
        create_test_email_with_thread("2", "thread_a", "bob@example.com"),
    ]);

    // Start at group list
    assert_eq!(app.view, View::GroupList);

    // Enter email list
    app.enter();
    assert_eq!(app.view, View::EmailList);

    // Enter thread view
    app.enter();
    assert_eq!(app.view, View::Thread);
    assert_eq!(app.selected_thread_email, Some(0));

    // Navigate in thread
    app.select_next();
    assert_eq!(app.selected_thread_email, Some(1));

    // Exit to email list
    app.exit();
    assert_eq!(app.view, View::EmailList);
    assert_eq!(app.selected_thread_email, None);

    // Exit to group list
    app.exit();
    assert_eq!(app.view, View::GroupList);
}

#[test]
fn test_thread_emails() {
    let mut app = App::new();
    app.set_emails(vec![
        create_test_email_with_thread("1", "thread_a", "alice@example.com"),
        create_test_email_with_thread("2", "thread_a", "bob@example.com"),
        create_test_email_with_thread("3", "thread_b", "alice@example.com"),
    ]);

    // Select alice's group and first email
    let alice_idx = app
        .groups
        .iter()
        .position(|g| g.key == "alice@example.com")
        .unwrap();
    app.selected_group = alice_idx;
    app.enter(); // Enter email list

    // Find the email from thread_a (could be at index 0 or 1 depending on order)
    let thread_a_idx = app
        .current_group()
        .unwrap()
        .emails
        .iter()
        .position(|e| e.thread_id == "thread_a")
        .unwrap();
    app.selected_email = Some(thread_a_idx);

    // Get thread emails - should include both alice and bob's emails in thread_a
    let thread_emails = app.current_thread_emails();
    assert_eq!(thread_emails.len(), 2);

    // Verify we got the correct emails (from thread_a, not thread_b)
    let thread_ids: Vec<&str> = thread_emails.iter().map(|e| e.id.as_str()).collect();
    assert!(
        thread_ids.contains(&"1"),
        "Should contain alice's email from thread_a"
    );
    assert!(
        thread_ids.contains(&"2"),
        "Should contain bob's email from thread_a"
    );
    assert!(
        !thread_ids.contains(&"3"),
        "Should not contain alice's email from thread_b"
    );
}

#[test]
fn test_thread_has_multiple_messages() {
    let mut app = App::new();
    app.set_emails(vec![
        create_test_email_with_thread("1", "thread_a", "alice@example.com"),
        create_test_email_with_thread("2", "thread_a", "bob@example.com"),
        create_test_email_with_thread("3", "thread_b", "alice@example.com"),
    ]);

    // thread_a has 2 messages
    assert!(app.thread_has_multiple_messages("thread_a"));
    // thread_b has only 1 message
    assert!(!app.thread_has_multiple_messages("thread_b"));
}

#[test]
fn test_current_email_is_multi_message_thread_returns_true_for_threads() {
    let mut app = App::new();
    app.set_emails(vec![
        create_test_email_with_thread("1", "thread_a", "alice@example.com"),
        create_test_email_with_thread("2", "thread_a", "bob@example.com"),
    ]);

    // Enter alice's group
    app.enter();
    assert!(app.view == View::EmailList);

    // Email is part of a multi-message thread (thread_a has 2 emails)
    // This means pressing Enter should show thread view
    assert!(app.current_email_is_multi_message_thread());
}

#[test]
fn test_current_email_is_multi_message_thread_returns_false_for_single_emails() {
    let mut app = App::new();
    app.set_emails(vec![create_test_email_with_thread(
        "1",
        "thread_a",
        "alice@example.com",
    )]);

    // Enter alice's group
    app.enter();
    assert!(app.view == View::EmailList);

    // Email is NOT part of a multi-message thread (only 1 email)
    // This means pressing Enter should open directly in browser
    assert!(!app.current_email_is_multi_message_thread());
}

#[test]
fn test_remove_thread() {
    let mut app = App::new();
    app.set_emails(vec![
        create_test_email_with_thread("1", "thread_a", "alice@example.com"),
        create_test_email_with_thread("2", "thread_a", "bob@example.com"),
        create_test_email_with_thread("3", "thread_b", "alice@example.com"),
    ]);

    assert_eq!(app.mailbox.emails().len(), 3);

    app.remove_thread("thread_a");

    assert_eq!(app.mailbox.emails().len(), 1);
    assert_eq!(app.mailbox.emails()[0].id, "3");
}

#[test]
fn test_remove_current_group_threads() {
    let mut app = App::new();
    app.set_emails(vec![
        create_test_email_with_thread("1", "thread_a", "alice@example.com"),
        create_test_email_with_thread("2", "thread_a", "bob@example.com"),
        create_test_email_with_thread("3", "thread_b", "charlie@example.com"),
    ]);

    let alice_idx = app
        .groups
        .iter()
        .position(|g| g.key == "alice@example.com")
        .unwrap();
    app.selected_group = alice_idx;

    app.remove_current_group_threads();

    // thread_a is removed entirely (including bob), only charlie remains
    assert_eq!(app.mailbox.emails().len(), 1);
    assert_eq!(app.mailbox.emails()[0].from_email, "charlie@example.com");
}

#[test]
fn test_remove_group_threads_selects_first_in_new_group() {
    // Regression test: when deleting all threads from a group causes a switch
    // to a different group, selected_email should be Some(0), not None
    let mut app = App::new();
    app.set_emails(vec![
        create_test_email("1", "alice@example.com"),
        create_test_email("2", "bob@example.com"),
    ]);

    // Enter alice's group (should be first due to alphabetical sort)
    let alice_idx = app
        .groups
        .iter()
        .position(|g| g.key == "alice@example.com")
        .unwrap();
    app.selected_group = alice_idx;
    app.enter(); // Enter EmailList view
    assert_eq!(app.view, View::EmailList);
    assert_eq!(app.selected_email, Some(0));

    // Delete all threads touched by alice's group
    app.remove_current_group_threads();

    // Now bob's group should be selected, with first email selected
    assert_eq!(app.groups.len(), 1);
    assert_eq!(app.groups[0].key, "bob@example.com");
    assert_eq!(
        app.selected_email,
        Some(0),
        "selected_email should be Some(0) after switching to new group"
    );
}

#[test]
fn test_remove_email_maintains_valid_selection() {
    // Regression test: ensure selected_email is valid after email removal
    let mut app = App::new();
    app.set_emails(vec![
        create_test_email("1", "alice@example.com"),
        create_test_email("2", "alice@example.com"),
    ]);

    app.enter(); // Enter EmailList view
    app.select_next(); // Select second email
    assert_eq!(app.selected_email, Some(1));

    // Remove one email, selection should adjust to remain valid
    app.remove_email("2");
    assert_eq!(app.selected_email, Some(0));
}

#[test]
fn test_groups_sorted_by_count() {
    let mut app = App::new();
    // Create bob first to verify sorting actually reorders groups
    app.set_emails(vec![
        create_test_email("1", "bob@example.com"),
        create_test_email("2", "alice@example.com"),
        create_test_email("3", "alice@example.com"),
        create_test_email("4", "alice@example.com"),
    ]);

    assert_eq!(app.groups[0].count(), 3); // alice
    assert_eq!(app.groups[1].count(), 1); // bob
}

#[test]
fn test_groups_sorted_alphabetically_when_count_equal() {
    let mut app = App::new();
    // Create groups with equal counts, in non-alphabetical order
    app.set_emails(vec![
        create_test_email("1", "zara@example.com"),
        create_test_email("2", "bob@example.com"),
        create_test_email("3", "Alice@example.com"), // uppercase to test case-insensitivity
    ]);

    // All have count 1, should be sorted alphabetically (case-insensitive)
    assert_eq!(app.groups[0].key, "Alice@example.com");
    assert_eq!(app.groups[1].key, "bob@example.com");
    assert_eq!(app.groups[2].key, "zara@example.com");
}

#[test]
fn test_group_thread_count() {
    let mut app = App::new();
    app.set_emails(vec![
        create_test_email_with_thread("1", "thread_a", "alice@example.com"),
        create_test_email_with_thread("2", "thread_a", "alice@example.com"),
        create_test_email_with_thread("3", "thread_b", "alice@example.com"),
    ]);

    let alice_group = app
        .groups
        .iter()
        .find(|g| g.key == "alice@example.com")
        .unwrap();
    assert_eq!(alice_group.count(), 3); // 3 emails
    assert_eq!(alice_group.thread_count(), 2); // 2 threads
}

#[test]
fn test_current_thread_email() {
    let mut app = App::new();
    app.set_emails(vec![
        create_test_email_with_thread("1", "thread_a", "alice@example.com"),
        create_test_email_with_thread("2", "thread_a", "bob@example.com"),
    ]);

    // Navigate to thread view
    app.enter(); // Enter email list
    app.enter(); // Enter thread view

    // Should return the first email in the thread
    let email_id = app.current_thread_email().map(|e| e.id.clone());
    assert!(email_id.is_some());

    // Navigate to second email in thread
    app.select_next();
    let email2_id = app.current_thread_email().map(|e| e.id.clone());
    assert!(email2_id.is_some());
    assert_ne!(email_id, email2_id);
}

#[test]
fn test_group_has_multi_message_threads() {
    let mut app = App::new();
    app.set_emails(vec![
        // Thread with multiple messages
        create_test_email_with_thread("1", "thread_a", "alice@example.com"),
        create_test_email_with_thread("2", "thread_a", "bob@example.com"),
        // Thread with single message
        create_test_email_with_thread("3", "thread_b", "charlie@example.com"),
    ]);

    let alice_group = app
        .groups
        .iter()
        .find(|g| g.key == "alice@example.com")
        .unwrap();
    assert!(app.group_has_multi_message_threads(alice_group));

    let charlie_group = app
        .groups
        .iter()
        .find(|g| g.key == "charlie@example.com")
        .unwrap();
    assert!(!app.group_has_multi_message_threads(charlie_group));
}

#[test]
fn test_toggle_thread_filter() {
    let mut app = App::new();
    app.set_emails(vec![
        // Multi-message thread
        create_test_email_with_thread("1", "thread_a", "alice@example.com"),
        create_test_email_with_thread("2", "thread_a", "alice@example.com"),
        // Single-message thread
        create_test_email_with_thread("3", "thread_b", "alice@example.com"),
    ]);

    app.enter(); // Enter email list
    assert_eq!(app.thread_filter, ThreadFilter::All);

    // Without filter, should see 2 threads
    assert_eq!(app.filtered_threads_in_current_group().len(), 2);

    // Toggle to OnlyThreads
    app.toggle_thread_filter();
    assert_eq!(app.thread_filter, ThreadFilter::OnlyThreads);

    // With OnlyThreads filter, should only see 1 thread (thread_a with multiple messages)
    assert_eq!(app.filtered_threads_in_current_group().len(), 1);

    // Toggle to NoThreads
    app.toggle_thread_filter();
    assert_eq!(app.thread_filter, ThreadFilter::NoThreads);

    // With NoThreads filter, should only see 1 thread (thread_b with single message)
    assert_eq!(app.filtered_threads_in_current_group().len(), 1);

    // Toggle back to All
    app.toggle_thread_filter();
    assert_eq!(app.thread_filter, ThreadFilter::All);
    assert_eq!(app.filtered_threads_in_current_group().len(), 2);
}

#[test]
fn test_current_email_respects_thread_filter() {
    // Regression test: current_email() must return the email at the selected
    // index in the FILTERED list, not the unfiltered list. Otherwise, pressing
    // Enter on what looks like a multi-message thread opens the browser instead
    // of expanding the thread view.
    let mut app = App::new();
    app.set_emails(vec![
        // Single-message thread (will be filtered out)
        create_test_email_with_thread("1", "thread_single_1", "alice@example.com"),
        // Multi-message thread
        create_test_email_with_thread("2", "thread_multi_1", "alice@example.com"),
        create_test_email_with_thread("3", "thread_multi_1", "alice@example.com"),
        // Another single-message thread (will be filtered out)
        create_test_email_with_thread("4", "thread_single_2", "alice@example.com"),
        // Another multi-message thread
        create_test_email_with_thread("5", "thread_multi_2", "alice@example.com"),
        create_test_email_with_thread("6", "thread_multi_2", "alice@example.com"),
    ]);

    app.enter(); // Enter email list for alice's group

    // Verify unfiltered state: 4 threads total
    assert_eq!(app.filtered_threads_in_current_group().len(), 4);

    // Enable thread filter (OnlyThreads)
    app.toggle_thread_filter();
    assert_eq!(app.thread_filter, ThreadFilter::OnlyThreads);

    // With filter, should only see 2 threads (the multi-message ones)
    assert_eq!(app.filtered_threads_in_current_group().len(), 2);

    // Collect thread_ids from the filtered list for comparison
    let filtered_thread_ids: Vec<String> = app
        .filtered_threads_in_current_group()
        .iter()
        .map(|e| e.thread_id.clone())
        .collect();

    // Verify that every position in the filtered list returns a multi-message thread
    // This is the key invariant: what you see (filtered) is what you get (current_email)
    for (idx, expected_thread_id) in filtered_thread_ids.iter().enumerate() {
        app.selected_email = Some(idx);
        let current = app.current_email().expect("should have current email");

        // The current email must be from a multi-message thread
        assert!(
            app.thread_has_multiple_messages(&current.thread_id),
            "index {} should return a multi-message thread, got {}",
            idx,
            current.thread_id
        );

        // And it must match what's displayed at that position
        assert_eq!(
            &current.thread_id, expected_thread_id,
            "current_email() at index {} should match filtered list",
            idx
        );
    }
}

#[test]
fn test_filtered_groups() {
    let mut app = App::new();
    app.set_emails(vec![
        // Multi-message thread for alice
        create_test_email_with_thread("1", "thread_a", "alice@example.com"),
        create_test_email_with_thread("2", "thread_a", "alice@example.com"),
        // Single-message thread for bob
        create_test_email_with_thread("3", "thread_b", "bob@example.com"),
        // Single-message thread for charlie
        create_test_email_with_thread("4", "thread_c", "charlie@example.com"),
    ]);

    // Without filter, should see all 3 groups
    assert_eq!(app.filtered_groups().len(), 3);

    // Toggle filter on
    app.toggle_thread_filter();

    // With filter, should only see alice's group (has multi-message thread)
    let filtered = app.filtered_groups();
    assert_eq!(filtered.len(), 1);
    assert_eq!(filtered[0].key, "alice@example.com");
}

#[test]
fn test_undo_history_push_and_pop() {
    let mut app = App::new();
    assert_eq!(app.undo_history_len(), 0);

    // Push an entry
    let entry1 = UndoEntry {
        action_type: UndoActionType::Archive,
        context: UndoContext::Thread {
            subject: "Test Email".to_string(),
        },
        emails: vec![(
            Some("<1@example.com>".to_string()),
            Some(100),
            "INBOX".to_string(),
        )],
        current_folder: "[Gmail]/All Mail".to_string(),
    };
    app.push_undo(entry1);
    assert_eq!(app.undo_history_len(), 1);

    // Push another entry
    let entry2 = UndoEntry {
        action_type: UndoActionType::Delete,
        context: UndoContext::Group {
            sender: "test@example.com".to_string(),
        },
        emails: vec![
            (
                Some("<2@example.com>".to_string()),
                Some(101),
                "INBOX".to_string(),
            ),
            (
                Some("<3@example.com>".to_string()),
                Some(102),
                "INBOX".to_string(),
            ),
        ],
        current_folder: "[Gmail]/Trash".to_string(),
    };
    app.push_undo(entry2);
    assert_eq!(app.undo_history_len(), 2);

    // Newest entry should be at index 0
    let current = app.current_undo_entry().unwrap();
    assert_eq!(current.action_type, UndoActionType::Delete);

    // Pop the first entry
    let popped = app.pop_undo(0).unwrap();
    assert_eq!(popped.action_type, UndoActionType::Delete);
    assert_eq!(app.undo_history_len(), 1);

    // Now the archive entry should be at index 0
    let current = app.current_undo_entry().unwrap();
    assert_eq!(current.action_type, UndoActionType::Archive);
}

#[test]
fn test_undo_history_max_size() {
    let mut app = App::new();

    // Push more than MAX_UNDO_HISTORY entries
    for i in 0..60 {
        let entry = UndoEntry {
            action_type: UndoActionType::Archive,
            context: UndoContext::Thread {
                subject: format!("Email {}", i),
            },
            emails: vec![(
                Some(format!("<{}@example.com>", i)),
                Some(i as u32),
                "INBOX".to_string(),
            )],
            current_folder: "[Gmail]/All Mail".to_string(),
        };
        app.push_undo(entry);
    }

    // Should be capped at MAX_UNDO_HISTORY (50)
    assert_eq!(app.undo_history_len(), 50);

    // The newest entry (59) should be at index 0
    let current = app.current_undo_entry().unwrap();
    if let UndoContext::Thread { subject } = &current.context {
        assert_eq!(subject, "Email 59");
    } else {
        panic!("Expected Thread context");
    }
}

#[test]
fn test_undo_history_navigation() {
    let mut app = App::new();

    // Push some entries
    for i in 0..5 {
        let entry = UndoEntry {
            action_type: UndoActionType::Archive,
            context: UndoContext::Thread {
                subject: format!("Email {}", i),
            },
            emails: vec![(
                Some(format!("<{}@example.com>", i)),
                Some(i as u32),
                "INBOX".to_string(),
            )],
            current_folder: "[Gmail]/All Mail".to_string(),
        };
        app.push_undo(entry);
    }

    app.enter_undo_history();
    assert_eq!(app.view, View::UndoHistory);
    assert_eq!(app.selected_undo, 0);

    // Navigate down
    app.select_next();
    assert_eq!(app.selected_undo, 1);

    app.select_next();
    assert_eq!(app.selected_undo, 2);

    // Navigate up
    app.select_previous();
    assert_eq!(app.selected_undo, 1);

    // Jump to first
    app.select_first();
    assert_eq!(app.selected_undo, 0);

    // Jump to last
    app.select_last();
    assert_eq!(app.selected_undo, 4);

    // Exit undo history
    app.exit_undo_history();
    assert_eq!(app.view, View::GroupList);
}

#[test]
fn test_enter_undo_history_empty() {
    let mut app = App::new();

    // Should enter undo history view even when empty
    app.enter_undo_history();
    assert_eq!(app.view, View::UndoHistory);

    // Can exit back to previous view
    app.exit_undo_history();
    assert_eq!(app.view, View::GroupList);
}

#[test]
fn test_undo_context_variants() {
    // Test all context variants
    let group = UndoContext::Group {
        sender: "test@example.com".to_string(),
    };
    assert!(matches!(group, UndoContext::Group { .. }));

    let thread = UndoContext::Thread {
        subject: "Thread Subject".to_string(),
    };
    assert!(matches!(thread, UndoContext::Thread { .. }));
}

#[test]
fn test_ensure_valid_selection_snaps_to_visible_group() {
    // Regression test: ensure_valid_selection should snap selection to a
    // visible group when the current selection is filtered out
    let mut app = App::new();
    app.set_emails(vec![
        // Multi-message thread for alice
        create_test_email_with_thread("1", "thread_a", "alice@example.com"),
        create_test_email_with_thread("2", "thread_a", "alice@example.com"),
        // Single-message emails for bob and charlie (no threads)
        create_test_email_with_thread("3", "thread_b", "bob@example.com"),
        create_test_email_with_thread("4", "thread_c", "charlie@example.com"),
    ]);

    // Enable thread filter - only alice should be visible
    app.toggle_thread_filter();
    assert_eq!(app.filtered_groups().len(), 1);

    // Manually set selected_group to bob's index (simulating what happens
    // after deleting alice's emails - the app advances to next group)
    let bob_idx = app
        .groups
        .iter()
        .position(|g| g.key == "bob@example.com")
        .unwrap();
    app.selected_group = bob_idx;

    // Before ensure_valid_selection, selection points to hidden group
    assert_eq!(app.current_group().unwrap().key, "bob@example.com");

    // After ensure_valid_selection, selection should snap to visible group
    app.ensure_valid_selection();
    assert_eq!(
        app.current_group().unwrap().key,
        "alice@example.com",
        "Selection should snap to visible group"
    );
}

#[test]
fn test_ensure_valid_selection_clamps_email_index() {
    // Test that ensure_valid_selection clamps email selection when out of bounds
    let mut app = App::new();
    app.set_emails(vec![
        create_test_email_with_thread("1", "thread_a", "alice@example.com"),
        create_test_email_with_thread("2", "thread_b", "alice@example.com"),
    ]);

    app.enter(); // Enter email list
    app.selected_email = Some(10); // Set to invalid index

    app.ensure_valid_selection();
    assert_eq!(
        app.selected_email,
        Some(0),
        "Selection should snap to first email when out of bounds"
    );
}

#[test]
fn test_toggle_email_selection() {
    let mut app = App::new();
    app.set_emails(vec![
        create_test_email("1", "alice@example.com"),
        create_test_email("2", "alice@example.com"),
    ]);

    // Must be in EmailList view to toggle selection
    app.enter();
    assert_eq!(app.view, View::EmailList);

    // Initially no selections
    assert_eq!(app.selected_email_count(), 0);
    assert!(!app.has_selection());

    // Get the current email's ID
    let first_email_id = app.current_email().unwrap().id.clone();

    // Toggle selection on first email
    assert_eq!(app.toggle_email_selection(), SelectionResult::Toggled);
    assert!(app.is_email_selected(&first_email_id));
    assert_eq!(app.selected_email_count(), 1);

    // Move to second email and get its ID
    app.select_next();
    let second_email_id = app.current_email().unwrap().id.clone();
    assert_ne!(first_email_id, second_email_id);

    // Toggle selection on second email
    assert_eq!(app.toggle_email_selection(), SelectionResult::Toggled);
    assert!(app.is_email_selected(&first_email_id));
    assert!(app.is_email_selected(&second_email_id));
    assert_eq!(app.selected_email_count(), 2);

    // Toggle again to deselect
    assert_eq!(app.toggle_email_selection(), SelectionResult::Toggled);
    assert!(app.is_email_selected(&first_email_id));
    assert!(!app.is_email_selected(&second_email_id));
    assert_eq!(app.selected_email_count(), 1);
}

#[test]
fn test_toggle_email_selection_only_works_in_email_list_view() {
    let mut app = App::new();
    app.set_emails(vec![create_test_email("1", "alice@example.com")]);

    // In GroupList view, toggle should return NoEmail
    assert_eq!(app.view, View::GroupList);
    assert_eq!(app.toggle_email_selection(), SelectionResult::NoEmail);
    assert_eq!(app.selected_email_count(), 0);

    // Enter email list
    app.enter();
    assert_eq!(app.view, View::EmailList);

    // Now toggle should work
    assert_eq!(app.toggle_email_selection(), SelectionResult::Toggled);
    assert_eq!(app.selected_email_count(), 1);
}

#[test]
fn test_toggle_email_selection_allows_threads() {
    let mut app = App::new();
    // Create a multi-message thread
    app.set_emails(vec![
        create_test_email_with_thread("1", "thread_a", "alice@example.com"),
        create_test_email_with_thread("2", "thread_a", "bob@example.com"),
    ]);

    app.enter();
    assert_eq!(app.view, View::EmailList);

    // Selecting an email that's part of a thread should work
    assert_eq!(app.toggle_email_selection(), SelectionResult::Toggled);
    assert_eq!(app.selected_email_count(), 1);
}

#[test]
fn test_selection_cleared_on_view_change() {
    let mut app = App::new();
    // Use separate threads so emails can be selected
    app.set_emails(vec![
        create_test_email("1", "alice@example.com"),
        create_test_email("2", "alice@example.com"),
    ]);

    // Enter email list and select an email
    app.enter();
    assert_eq!(app.toggle_email_selection(), SelectionResult::Toggled);
    assert_eq!(app.selected_email_count(), 1);

    // Enter thread view - selection should be cleared
    app.enter();
    assert_eq!(app.view, View::Thread);
    assert_eq!(app.selected_email_count(), 0);

    // Exit to email list and select again
    app.exit();
    assert_eq!(app.view, View::EmailList);
    assert_eq!(app.toggle_email_selection(), SelectionResult::Toggled);
    assert_eq!(app.selected_email_count(), 1);

    // Exit to group list - selection should be cleared
    app.exit();
    assert_eq!(app.view, View::GroupList);
    assert_eq!(app.selected_email_count(), 0);
}

#[test]
fn test_selection_cleared_on_group_mode_toggle() {
    let mut app = App::new();
    app.set_emails(vec![create_test_email("1", "alice@example.com")]);

    // Enter email list and select
    app.enter();
    app.toggle_email_selection();
    assert_eq!(app.selected_email_count(), 1);

    // Exit to group list
    app.exit();

    // Select again
    app.enter();
    app.toggle_email_selection();
    assert_eq!(app.selected_email_count(), 1);

    // Exit and toggle group mode
    app.exit();
    app.toggle_group_mode();
    assert_eq!(app.selected_email_count(), 0);
}

fn create_test_email_with_subject(id: &str, from: &str, subject: &str) -> Email {
    Email::new(
        id.to_string(),
        format!("thread_{id}"),
        from.to_string(),
        subject.to_string(),
        "Snippet".to_string(),
        now(),
    )
}

#[test]
fn test_text_filter_hides_non_matching_emails() {
    let mut app = App::new();
    app.set_emails(vec![
        create_test_email_with_subject("1", "alice@example.com", "Hello World"),
        create_test_email_with_subject("2", "alice@example.com", "Goodbye Moon"),
        create_test_email_with_subject("3", "alice@example.com", "Hello Again"),
    ]);

    app.enter(); // Enter email list
    assert_eq!(app.view, View::EmailList);
    assert_eq!(app.filtered_threads_in_current_group().len(), 3);

    // Apply filter for "hello"
    app.set_text_filter(Some("hello".to_string()));
    let filtered = app.filtered_threads_in_current_group();
    assert_eq!(filtered.len(), 2);
    assert!(
        filtered
            .iter()
            .all(|e| e.subject.to_lowercase().contains("hello"))
    );

    // Clear filter shows all emails again
    app.clear_text_filter();
    assert_eq!(app.filtered_threads_in_current_group().len(), 3);
}

#[test]
fn test_text_filter_is_case_insensitive() {
    let mut app = App::new();
    app.set_emails(vec![
        create_test_email_with_subject("1", "alice@example.com", "HELLO World"),
        create_test_email_with_subject("2", "alice@example.com", "Goodbye Moon"),
    ]);

    app.enter();
    app.set_text_filter(Some("hello".to_string()));
    let filtered = app.filtered_threads_in_current_group();
    assert_eq!(filtered.len(), 1);
    assert!(filtered[0].subject.contains("HELLO"));
}

#[test]
fn test_text_filter_matches_sender() {
    let mut app = App::new();
    app.set_emails(vec![
        create_test_email_with_subject("1", "alice@example.com", "Subject One"),
        create_test_email_with_subject("2", "alice@example.com", "Subject Two"),
    ]);

    app.enter();
    // Filter by partial sender name (which appears in from field)
    app.set_text_filter(Some("alice".to_string()));
    // Both should match since they're from alice
    assert_eq!(app.filtered_threads_in_current_group().len(), 2);

    // Filter by something that doesn't match
    app.set_text_filter(Some("bob".to_string()));
    assert_eq!(app.filtered_threads_in_current_group().len(), 0);
}

#[test]
fn test_text_filter_adjusts_selection() {
    let mut app = App::new();
    app.set_emails(vec![
        create_test_email_with_subject("1", "alice@example.com", "First"),
        create_test_email_with_subject("2", "alice@example.com", "Second"),
        create_test_email_with_subject("3", "alice@example.com", "Third"),
    ]);

    app.enter();
    app.selected_email = Some(2); // Select the third email

    // Apply filter that hides the selected email
    app.set_text_filter(Some("First".to_string()));

    // Selection should be adjusted to first visible
    assert_eq!(app.selected_email, Some(0));
}

#[test]
fn test_text_filter_cleared_on_exit_to_groups() {
    let mut app = App::new();
    app.set_emails(vec![
        create_test_email("1", "alice@example.com"),
        create_test_email("2", "bob@example.com"),
    ]);

    app.enter(); // Enter email list
    app.set_text_filter(Some("test".to_string()));
    assert!(app.has_text_filter());

    app.exit(); // Exit back to group list
    assert!(!app.has_text_filter());
}

#[test]
fn test_current_group_thread_email_ids_includes_other_senders() {
    // When operating on a group, we should get ALL emails from affected threads,
    // including emails from other senders
    let mut app = App::new();
    app.set_emails(vec![
        // Thread shared between alice and bob
        create_test_email_with_thread("1", "thread_a", "alice@example.com"),
        create_test_email_with_thread("2", "thread_a", "bob@example.com"),
        // Alice's solo thread
        create_test_email_with_thread("3", "thread_b", "alice@example.com"),
        // Charlie's unrelated thread
        create_test_email_with_thread("4", "thread_c", "charlie@example.com"),
    ]);

    // Select alice's group
    let alice_idx = app
        .groups
        .iter()
        .position(|g| g.key == "alice@example.com")
        .unwrap();
    app.selected_group = alice_idx;

    // Get thread email IDs - should include bob's email from thread_a
    let thread_email_ids = app.current_group_thread_email_ids();
    let ids: Vec<&str> = thread_email_ids.iter().map(|(id, _)| id.as_str()).collect();

    // Should include alice's emails (1, 3)
    assert!(
        ids.contains(&"1"),
        "Should contain alice's email from thread_a"
    );
    assert!(
        ids.contains(&"3"),
        "Should contain alice's email from thread_b"
    );
    // Should include bob's email from the shared thread
    assert!(
        ids.contains(&"2"),
        "Should contain bob's email from thread_a (same thread as alice)"
    );
    // Should NOT include charlie's unrelated email
    assert!(
        !ids.contains(&"4"),
        "Should not contain charlie's unrelated email"
    );

    // Total should be 3 emails
    assert_eq!(thread_email_ids.len(), 3);
}

#[test]
fn test_current_group_thread_email_ids_respects_filter() {
    // When a thread filter is active, only threads visible in that filter should be included
    let mut app = App::new();
    app.set_emails(vec![
        // Multi-message thread
        create_test_email_with_thread("1", "thread_multi", "alice@example.com"),
        create_test_email_with_thread("2", "thread_multi", "alice@example.com"),
        create_test_email_with_thread("3", "thread_multi", "bob@example.com"),
        // Single-message thread
        create_test_email_with_thread("4", "thread_single", "alice@example.com"),
    ]);

    // Enter alice's group
    app.enter();

    // Filter to only multi-message threads
    app.toggle_thread_filter();
    assert_eq!(app.thread_filter, ThreadFilter::OnlyThreads);

    let thread_email_ids = app.current_group_thread_email_ids();
    let ids: Vec<&str> = thread_email_ids.iter().map(|(id, _)| id.as_str()).collect();

    // Should include all emails from thread_multi (including bob's)
    assert!(ids.contains(&"1"));
    assert!(ids.contains(&"2"));
    assert!(
        ids.contains(&"3"),
        "Should include bob's email from the filtered thread"
    );
    // Should NOT include the single-message thread (filtered out)
    assert!(
        !ids.contains(&"4"),
        "Should not include email from filtered-out single thread"
    );
}

#[test]
fn test_current_group_thread_email_ids_for_undo_includes_other_senders() {
    // The undo data should also include all emails from affected threads
    let mut app = App::new();
    app.set_emails(vec![
        create_test_email_with_thread("1", "thread_a", "alice@example.com"),
        create_test_email_with_thread("2", "thread_a", "bob@example.com"),
    ]);

    let alice_idx = app
        .groups
        .iter()
        .position(|g| g.key == "alice@example.com")
        .unwrap();
    app.selected_group = alice_idx;

    let undo_data = app.current_group_thread_emails_for_undo();

    // Should have both alice and bob's emails for undo
    assert_eq!(undo_data.len(), 2);
}

#[test]
fn test_selected_thread_email_ids_includes_other_senders() {
    // When operating on selected emails, we should get ALL emails from affected threads
    let mut app = App::new();
    app.set_emails(vec![
        // Single-message threads that can be selected
        create_test_email_with_thread("1", "thread_a", "alice@example.com"),
        create_test_email_with_thread("2", "thread_a", "bob@example.com"),
    ]);

    app.enter(); // Enter alice's group

    // Select alice's email (thread_a email 1)
    app.selected_emails.insert("1".to_string());

    let thread_email_ids = app.selected_thread_email_ids();
    let ids: Vec<&str> = thread_email_ids.iter().map(|(id, _)| id.as_str()).collect();

    // Should include both emails from the thread
    assert!(ids.contains(&"1"), "Should contain selected email");
    assert!(
        ids.contains(&"2"),
        "Should contain bob's email from same thread"
    );
}

#[test]
fn test_remove_selected_threads_preserves_hidden_selections() {
    // When filtering hides some selected emails, removing visible selections
    // should preserve the hidden selections
    let mut app = App::new();
    app.set_emails(vec![
        create_test_email_with_thread("1", "thread_a", "alice@example.com"),
        create_test_email_with_thread("2", "thread_b", "alice@example.com"),
        create_test_email_with_thread("3", "thread_c", "alice@example.com"),
    ]);

    // Give the emails different subjects for filtering
    let mut emails = app.mailbox.emails().clone();
    emails[0].subject = "Important meeting".to_string();
    emails[1].subject = "Urgent task".to_string();
    emails[2].subject = "Important update".to_string();
    app.set_emails(emails);

    app.enter(); // Enter alice's group

    // Select all three emails
    app.selected_emails.insert("1".to_string());
    app.selected_emails.insert("2".to_string());
    app.selected_emails.insert("3".to_string());

    // Apply filter that hides email 2 ("Urgent task")
    app.set_text_filter(Some("Important".to_string()));

    // Remove selected threads (should only remove 1 and 3)
    app.remove_selected_threads();

    // Email 2's selection should be preserved since it was hidden
    assert!(
        app.is_email_selected("2"),
        "Hidden selection should be preserved"
    );
    assert!(
        !app.is_email_selected("1"),
        "Deleted email should not be selected"
    );
    assert!(
        !app.is_email_selected("3"),
        "Deleted email should not be selected"
    );
}

#[test]
fn test_has_visible_selection_false_with_no_selections() {
    let mut app = App::new();
    app.set_emails(vec![
        create_test_email("1", "alice@example.com"),
        create_test_email("2", "alice@example.com"),
    ]);
    app.enter();

    assert!(!app.has_visible_selection());
}

#[test]
fn test_has_visible_selection_true_with_visible_selections() {
    let mut app = App::new();
    app.set_emails(vec![
        create_test_email("1", "alice@example.com"),
        create_test_email("2", "alice@example.com"),
    ]);
    app.enter();

    app.selected_emails.insert("1".to_string());
    assert!(app.has_visible_selection());
}

#[test]
fn test_has_visible_selection_false_when_all_selections_hidden() {
    let mut app = App::new();
    app.set_emails(vec![
        create_test_email_with_subject("1", "alice@example.com", "Important meeting"),
        create_test_email_with_subject("2", "alice@example.com", "Urgent task"),
    ]);
    app.enter();

    // Select email 2 which has "Urgent" in subject
    app.selected_emails.insert("2".to_string());

    // Filter to only show "Important" — hides email 2
    app.set_text_filter(Some("Important".to_string()));

    assert!(app.has_selection(), "Selection still exists");
    assert!(
        !app.has_visible_selection(),
        "No visible selection since email 2 is hidden"
    );
}

#[test]
fn test_has_visible_selection_true_when_some_visible_some_hidden() {
    let mut app = App::new();
    app.set_emails(vec![
        create_test_email_with_subject("1", "alice@example.com", "Important meeting"),
        create_test_email_with_subject("2", "alice@example.com", "Urgent task"),
        create_test_email_with_subject("3", "alice@example.com", "Important update"),
    ]);
    app.enter();

    // Select emails 1 and 2
    app.selected_emails.insert("1".to_string());
    app.selected_emails.insert("2".to_string());

    // Filter to only show "Important" — hides email 2 but email 1 is still visible
    app.set_text_filter(Some("Important".to_string()));

    assert!(
        app.has_visible_selection(),
        "Should be true because email 1 is visible and selected"
    );
}
