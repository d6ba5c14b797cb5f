//! Dialogs and the state of the screen.
use zeroterm::app::App;
use zeroterm::desk::Settings;
use zeroterm::email::Email;
use zeroterm::modes::{ThreadFilter, View};
use zeroterm::session::Session;
use zeroterm::timestamp::Timestamp;
use zeroterm::ui::widgets::{
    centered_column, date_pattern, modal_area, Area, BusyModalWidget, ConfirmAction,
    ConfirmDialogWidget, EmailListWidget, HelpBarWidget, StatusModalWidget, UiState,
    ViewportHeights, SPINNER_LEN,
};

#[test]
fn test_confirm_action_archive_emails() {
    let action = ConfirmAction::ArchiveEmails {
        sender: "test@example.com".to_string(),
        count: 5,
    };
    let lines = action.message();
    assert_eq!(lines.len(), 2);
    assert!(lines[0].contains("Archive 5 email(s)"));
    assert!(lines[0].contains("test@example.com"));
}

#[test]
fn test_confirm_action_delete_emails() {
    let action = ConfirmAction::DeleteEmails {
        sender: "test@example.com".to_string(),
        count: 3,
    };
    let lines = action.message();
    assert_eq!(lines.len(), 2);
    assert!(lines[0].contains("Delete 3 email(s)"));
    assert!(lines[0].contains("test@example.com"));
}

#[test]
fn test_confirm_action_delete_thread() {
    let action = ConfirmAction::DeleteThread {
        thread_email_count: 3,
    };
    let lines = action.message();
    assert!(lines[0].contains("Delete entire thread"));
    assert!(lines[0].contains("3 email(s)"));
}

#[test]
fn test_ui_state_confirm_flow() {
    let mut state = UiState::new();
    assert!(!state.is_confirming());

    state.set_confirm(ConfirmAction::ArchiveThread {
        thread_email_count: 1,
    });
    assert!(state.is_confirming());

    state.clear_confirm();
    assert!(!state.is_confirming());
}

#[test]
fn test_ui_state_status() {
    let mut state = UiState::new();
    assert!(state.status_message.is_none());

    state.set_status("Loading...");
    assert_eq!(state.status_message, Some("Loading...".to_string()));

    state.clear_status();
    assert!(state.status_message.is_none());
}

fn screen() -> Area {
    Area { x: 0, y: 0, width: 80, height: 24 }
}

#[test]
fn modals_stand_in_the_middle() {
    assert_eq!(modal_area("hi", screen()), Area { x: 30, y: 10, width: 20, height: 3 });
    let long = "x".repeat(100);
    assert_eq!(modal_area(&long, screen()), Area { x: 2, y: 10, width: 76, height: 3 });
    assert_eq!(centered_column("abcd", screen()), 38);
    assert_eq!(centered_column(&long, screen()), 0);
}

#[test]
fn the_spinner_turns() {
    let mut state = UiState::new();
    state.set_busy("Working");
    assert!(state.is_busy());
    let first = state.spinner_char();
    state.tick_spinner();
    assert_ne!(state.spinner_char(), first);
    for _ in 0..SPINNER_LEN - 1 {
        state.tick_spinner();
    }
    assert_eq!(state.spinner_char(), first);
    state.update_busy_message("Still working");
    let text = BusyModalWidget::new(state.status_message.as_deref().unwrap(), first).text();
    assert_eq!(text, format!("{first} Still working"));
    state.clear_busy();
    assert!(!state.is_busy() && !state.has_status());
}

#[test]
fn warnings_are_told_apart() {
    assert!(StatusModalWidget::new("⚠ careful").is_warning());
    assert!(!StatusModalWidget::new("fine").is_warning());
    let action = ConfirmAction::DeleteThread { thread_email_count: 2 };
    let widget = ConfirmDialogWidget::new(&action);
    assert_eq!(widget.lines(1).len(), 1);
    assert_eq!(widget.lines(50).len(), action.message().len());
}

#[test]
fn dates_show_the_year_when_it_is_another() {
    assert_eq!(date_pattern(2026, 2026), "%b %d %H:%M");
    assert_eq!(date_pattern(2025, 2026), "%b %d  %Y");
}

#[test]
fn a_filter_that_hides_all_is_explained() {
    let mut app = App::new();
    app.set_emails(vec![Email::new(
        "1".to_string(),
        "t".to_string(),
        "a@b.com".to_string(),
        "S".to_string(),
        String::new(),
        Timestamp { secs: 0, nanos: 0 },
    )]);
    app.enter();
    assert_eq!(EmailListWidget::new(&app).placeholder(), None);
    app.thread_filter = ThreadFilter::OnlyThreads;
    assert_eq!(
        EmailListWidget::new(&app).placeholder(),
        Some("No threads in this group (press t to show all)")
    );
    let title = EmailListWidget::new(&app).title();
    assert!(title.starts_with(" Threads from "));
    assert!(title.ends_with(" [Threads] — 1 threads (0 emails) "));
    assert!(HelpBarWidget::new(&app).text().contains("Enter: thread"));
}

#[test]
fn a_browser_that_fails_is_told() {
    let mut s = Session::start(
        "home",
        "me@example.com",
        Settings { parallel_connections: 1, advance_on_select: true, protect_threads: true },
    );
    s.browser_failed("no display");
    assert!(s.desk.ui.status_message.as_deref().unwrap().contains("no display"));
}

#[test]
fn viewports_are_kept_per_view() {
    let mut heights = ViewportHeights::default();
    heights.group_list = 7;
    heights.thread_view = 9;
    assert_eq!(heights.for_view(View::GroupList), 7);
    assert_eq!(heights.for_view(View::Thread), 9);
}
