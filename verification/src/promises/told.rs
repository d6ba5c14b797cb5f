//! What the user reads on screen.
use vstd::prelude::*;
use vstd::utf8::encode_utf8;
use vstd::view::View as _;

use crate::grouping::GroupV;
use crate::laws::group_members;
use crate::modes::{GroupMode, View};
use crate::promises::moves::{asked_count, asked_for, lemma_meant, meant, Scope};
use crate::promises::places::{
    law_groups_are_marked_by_their_threads, lemma_threads_opened, threads_opened,
};
use crate::promises::seen::has_company;
use crate::session::{
    browser_url, hex_digit, is_unreserved, percent_encoded, ResponseV, SessionV,
};
use crate::state::AppV;
use crate::text::decimal;
use crate::ui::screen::{is_inbox_zero, screen_of, BottomBar, Pane};
use crate::ui::widgets::{
    email_list_title, filter_mark, group_list_title, group_row, group_total, modal_box, mode_word,
    thread_title, Area, ConfirmV, UiV,
};
use crate::undo::UndoActionType;

verus! {

broadcast use vstd::seq_lib::group_seq_properties;

/// Whether a text stands in another one.
pub open spec fn reads(s: Seq<char>, t: Seq<char>) -> bool {
    exists|i: int|
        0 <= i && i + t.len() <= s.len() && #[trigger] s.subrange(i, i + t.len()) == t
}

/// Whether a text starts with another one.
pub open spec fn opens_with(s: Seq<char>, t: Seq<char>) -> bool {
    t.len() <= s.len() && s.take(t.len() as int) == t
}

/// What stands between two texts is read in the whole.
pub proof fn lemma_reads(a: Seq<char>, t: Seq<char>, b: Seq<char>)
    ensures
        reads(a + t + b, t),
{
    let s = a + t + b;
    let i = a.len() as int;
    assert(s.subrange(i, i + t.len()) =~= t);
}

/// The question about an action says what is going to be done, with how many messages, and
/// to whose where it is about a sender.
pub proof fn law_questions_say_what_is_done(c: ConfirmV)
    ensures
        match asked_for(c) {
            Some((action, scope)) => {
                &&& opens_with(
                    c.question(),
                    match action {
                        UndoActionType::Archive => "Archive "@,
                        UndoActionType::Delete => "Delete "@,
                    },
                )
                &&& reads(c.question(), decimal(asked_count(c)))
                &&& scope is Thread ==> reads(c.question(), "entire thread"@)
                &&& scope is Selection ==> reads(c.question(), "selected"@)
            },
            None => opens_with(c.question(), "Quit"@),
        },
        match c {
            ConfirmV::ArchiveEmails { sender, .. } => reads(c.question(), sender),
            ConfirmV::DeleteEmails { sender, .. } => reads(c.question(), sender),
            _ => true,
        },
        c.message()[0] == c.question(),
{
    let q = c.question();
    let n = decimal(asked_count(c));
    match c {
        ConfirmV::ArchiveEmails { sender, count } => {
            let tail = " email(s) from "@ + sender + "?"@;
            assert(q =~= "Archive "@ + n + tail);
            lemma_reads("Archive "@, n, tail);
            assert(q.take("Archive "@.len() as int) =~= "Archive "@);
            lemma_reads("Archive "@ + n + " email(s) from "@, sender, "?"@);
        },
        ConfirmV::DeleteEmails { sender, count } => {
            let tail = " email(s) from "@ + sender + "?"@;
            assert(q =~= "Delete "@ + n + tail);
            lemma_reads("Delete "@, n, tail);
            assert(q.take("Delete "@.len() as int) =~= "Delete "@);
            lemma_reads("Delete "@ + n + " email(s) from "@, sender, "?"@);
        },
        ConfirmV::ArchiveThread { .. } => {
            reveal_strlit("Archive entire thread (");
            reveal_strlit("Archive ");
            reveal_strlit("entire thread");
            lemma_reads("Archive entire thread ("@, n, " email(s))?"@);
            assert(q.take("Archive "@.len() as int) =~= "Archive "@);
            assert(q.subrange(8, 8int + "entire thread"@.len()) =~= "entire thread"@);
        },
        ConfirmV::DeleteThread { .. } => {
            reveal_strlit("Delete entire thread (");
            reveal_strlit("Delete ");
            reveal_strlit("entire thread");
            lemma_reads("Delete entire thread ("@, n, " email(s))?"@);
            assert(q.take("Delete "@.len() as int) =~= "Delete "@);
            assert(q.subrange(7, 7int + "entire thread"@.len()) =~= "entire thread"@);
        },
        ConfirmV::ArchiveSelected { .. } => {
            reveal_strlit(" selected email(s)?");
            reveal_strlit("selected");
            lemma_reads("Archive "@, n, " selected email(s)?"@);
            assert(q.take("Archive "@.len() as int) =~= "Archive "@);
            let i = "Archive "@.len() + n.len() as int + 1;
            assert(q.subrange(i, i + "selected"@.len()) =~= "selected"@);
        },
        ConfirmV::DeleteSelected { .. } => {
            reveal_strlit(" selected email(s)?");
            reveal_strlit("selected");
            lemma_reads("Delete "@, n, " selected email(s)?"@);
            assert(q.take("Delete "@.len() as int) =~= "Delete "@);
            let i = "Delete "@.len() + n.len() as int + 1;
            assert(q.subrange(i, i + "selected"@.len()) =~= "selected"@);
        },
        ConfirmV::Quit => {
            reveal_strlit("Quit?");
            reveal_strlit("Quit");
            assert(q.take("Quit"@.len() as int) =~= "Quit"@);
        },
    }
}

/// Word of how far the server is names what it does, and how far it is out of how much.
pub proof fn law_progress_is_told(
    s: SessionV,
    current: usize,
    total: usize,
    attempt: u32,
    max_attempts: u32,
    action: Seq<char>,
)
    ensures
        ({
            let told = s.answered(
                ResponseV::Progress(current, total, action),
            ).0.desk.ui.status_message->0;
            &&& opens_with(told, action)
            &&& reads(told, decimal(current as nat) + " of "@ + decimal(total as nat))
        }),
        ({
            let told = s.answered(
                ResponseV::Retrying { attempt, max_attempts, action },
            ).0.desk.ui.status_message->0;
            &&& opens_with(told, "Retrying "@)
            &&& reads(told, action)
            &&& reads(told, decimal(attempt as nat) + "/"@ + decimal(max_attempts as nat))
        }),
{
    let a = crate::session::progress_text(current, total, action);
    let part = decimal(current as nat) + " of "@ + decimal(total as nat);
    assert(a =~= action + " "@ + part + "..."@);
    lemma_reads(action + " "@, part, "..."@);
    assert(a.take(action.len() as int) =~= action);
    let b = crate::session::retry_text(attempt, max_attempts, action);
    let tries = decimal(attempt as nat) + "/"@ + decimal(max_attempts as nat);
    let tail = " ("@ + tries + ")..."@;
    assert(b =~= "Retrying "@ + action + tail);
    lemma_reads("Retrying "@, action, tail);
    assert(b =~= ("Retrying "@ + action + " ("@) + tries + ")..."@);
    lemma_reads("Retrying "@ + action + " ("@, tries, ")..."@);
    assert(b.take("Retrying "@.len() as int) =~= "Retrying "@);
}

// ---------------------------------------------------------------------------
// Titles and rows

proof fn lemma_group_total(groups: Seq<GroupV>)
    ensures
        group_total(groups) == group_members(groups).len(),
    decreases groups.len(),
{
    if groups.len() > 0 {
        lemma_group_total(groups.drop_last());
        groups.last().emails.to_multiset_ensures();
    }
}

proof fn lemma_title(a: Seq<char>, word: Seq<char>, b: Seq<char>, n: Seq<char>, m: Seq<char>)
    ensures
        ({
            let title = a + word + b + n + " emails in "@ + m + " groups "@;
            &&& reads(title, word)
            &&& reads(title, n + " emails"@)
            &&& reads(title, m + " groups"@)
        }),
{
    let title = a + word + b + n + " emails in "@ + m + " groups "@;
    let tail = b + n + " emails in "@ + m + " groups "@;
    assert(title =~= a + word + tail);
    lemma_reads(a, word, tail);
    assert(" emails in "@ =~= " emails"@ + " in "@) by {
        reveal_strlit(" emails in ");
        reveal_strlit(" emails");
        reveal_strlit(" in ");
    }
    let start = a + word + b;
    let part = n + " emails"@;
    let tail = " in "@ + m + " groups "@;
    assert(title =~= start + part + tail);
    lemma_reads(start, part, tail);
    assert(" groups "@ =~= " groups"@ + " "@) by {
        reveal_strlit(" groups ");
        reveal_strlit(" groups");
        reveal_strlit(" ");
    }
    let start = a + word + b + n + " emails in "@;
    let part = m + " groups"@;
    assert(title =~= start + part + " "@);
    lemma_reads(start, part, " "@);
}

/// The title of the list of senders says how they are grouped, how many groups are listed, and
/// how many messages they hold together.
pub proof fn law_the_title_counts_what_is_listed(app: AppV)
    ensures
        ({
            let title = group_list_title(app);
            let groups = app.filtered_groups();
            &&& reads(title, decimal(group_members(groups).len()) + " emails"@)
            &&& reads(title, decimal(groups.len()) + " groups"@)
            &&& app.group_mode == GroupMode::BySenderEmail ==> reads(title, "email"@)
            &&& app.group_mode == GroupMode::ByDomain ==> reads(title, "domain"@)
        }),
{
    let groups = app.filtered_groups();
    let n = decimal(group_total(groups));
    let m = decimal(groups.len());
    let word = mode_word(app.group_mode);
    let mark = filter_mark(app.thread_filter);
    lemma_group_total(groups);
    lemma_title(" Senders (by "@, word, ")"@ + mark + " — "@, n, m);
    assert(group_list_title(app) =~= " Senders (by "@ + word + (")"@ + mark + " — "@) + n
        + " emails in "@ + m + " groups "@);
}

/// The row of a group names it, and how many messages it holds; it is marked just if one of
/// them is in company.
pub proof fn law_rows_name_the_group(app: AppV, g: GroupV)
    ensures
        ({
            let row = group_row(app, g);
            &&& reads(row, g.key)
            &&& reads(row, decimal(g.emails.len()) + " emails"@)
            &&& opens_with(row, "◈ "@) <==> exists|k: int|
                0 <= k < g.emails.len() && has_company(
                    app.emails,
                    (#[trigger] g.emails[k]).thread_id,
                )
        }),
{
    let row = group_row(app, g);
    let sign = if app.has_multi(g) {
        "◈ "@
    } else {
        "  "@
    };
    let threads = crate::listing::thread_heads(g.emails).len();
    let n = decimal(g.emails.len());
    let tail = if threads == g.emails.len() {
        ")"@
    } else {
        " in "@ + decimal(threads) + " threads)"@
    };
    law_groups_are_marked_by_their_threads(app, g);
    reveal_strlit("◈ ");
    reveal_strlit("  ");
    assert(row =~= sign + g.key + (" ("@ + n + " emails"@ + tail));
    lemma_reads(sign, g.key, " ("@ + n + " emails"@ + tail);
    let part = n + " emails"@;
    assert(row =~= (sign + g.key + " ("@) + part + tail);
    lemma_reads(sign + g.key + " ("@, part, tail);
    assert(row.take(2) =~= sign);
    assert("◈ "@[0] != "  "@[0]);
}

/// The title of a thread names its subject and how many messages it has, whoever sent them.
pub proof fn law_the_thread_title_counts_its_messages(app: AppV)
    requires
        app.current_email() is Some,
    ensures
        reads(thread_title(app), app.current_email()->0.subject),
        reads(thread_title(app), decimal(meant(app, Scope::Thread).len()) + " email"@),
{
    lemma_meant(app);
    let subject = app.current_email()->0.subject;
    let n = app.thread_emails().len();
    let title = thread_title(app);
    let start = " Thread: "@ + subject + " — "@;
    reveal_strlit("1 email ");
    reveal_strlit(" emails ");
    reveal_strlit(" email");
    let tail = if n == 1 {
        "1 email "@
    } else {
        decimal(n) + " emails "@
    };
    assert(title =~= " Thread: "@ + subject + (" — "@ + tail));
    lemma_reads(" Thread: "@, subject, " — "@ + tail);
    let part = decimal(n) + " email"@;
    if n == 1 {
        assert(decimal(1) =~= seq!['1']);
        assert(part =~= "1 email"@) by {
            reveal_strlit("1 email");
        }
        reveal_strlit("1 email");
        reveal_strlit(" ");
        assert(title =~= start + part + " "@);
        lemma_reads(start, part, " "@);
    } else {
        reveal_strlit("s ");
        assert(title =~= start + part + "s "@);
        lemma_reads(start, part, "s "@);
    }
}

/// The title of the list of threads names the group, and how many threads it has.
pub proof fn law_the_list_title_counts_its_threads(app: AppV)
    requires
        app.selected_group < app.groups.len(),
    ensures
        reads(email_list_title(app), app.groups[app.selected_group as int].key),
        reads(email_list_title(app), decimal(threads_opened(app)) + " threads"@),
{
    let g = app.groups[app.selected_group as int];
    let title = email_list_title(app);
    let mark = filter_mark(app.thread_filter);
    let threads = crate::listing::thread_heads(g.emails).len();
    let emails = app.shown_thread_email_count(g);
    lemma_threads_opened(app);
    reveal_strlit(" threads ");
    reveal_strlit(" threads");
    reveal_strlit(" ");
    let n = decimal(threads);
    let rest = if threads == emails {
        Seq::empty()
    } else {
        "("@ + decimal(emails) + " emails) "@
    };
    let tail = mark + " — "@ + n + " threads "@ + rest;
    assert(title =~= " Threads from "@ + g.key + tail);
    lemma_reads(" Threads from "@, g.key, tail);
    let part = n + " threads"@;
    let start = " Threads from "@ + g.key + mark + " — "@;
    assert(title =~= start + part + (" "@ + rest));
    lemma_reads(start, part, " "@ + rest);
}

/// The screen shows the view that is on, with its own selection; behind the undo history it
/// shows the view that this was opened from. What is asked, explained, or being worked on is
/// shown on top.
pub proof fn law_the_screen_shows_the_view(app: AppV, ui: UiV)
    ensures
        ({
            let screen = screen_of(app, ui);
            &&& app.view == View::EmailList ==> screen.pane == (Pane::Emails {
                selected: app.selected_email,
            })
            &&& app.view == View::Thread ==> screen.pane == (Pane::Thread {
                selected: app.selected_thread_email,
            })
            &&& app.view == View::EmailBody && app.text_view_scroll < 10000 ==> screen.pane == (
            Pane::Body { scroll: app.text_view_scroll })
            &&& app.view == View::GroupList && (app.groups.len() > 0 || !app.emails_loaded)
                ==> screen.pane == (Pane::Groups { offset: ui.group_scroll_offset })
            &&& app.view == View::GroupList && app.groups.len() == 0 && app.emails_loaded
                ==> screen.pane == Pane::InboxZero
            &&& app.view == View::UndoHistory && app.previous_view == Some(View::EmailList)
                ==> screen.pane == (Pane::Emails { selected: app.selected_email })
            &&& app.view == View::UndoHistory && app.previous_view == Some(View::Thread)
                ==> screen.pane == (Pane::Thread { selected: app.selected_thread_email })
            &&& screen.undo is Some <==> app.view == View::UndoHistory
            &&& screen.confirm <==> ui.confirm_action is Some
            &&& screen.help <==> ui.showing_help
            &&& screen.bar == BottomBar::Filter <==> ui.filter_input_active
            &&& ui.status_message is Some && ui.confirm_action is None ==> screen.busy == ui.busy
                && screen.status == !ui.busy
            &&& ui.status_message is None ==> !screen.busy && !screen.status
        }),
{
}

// ---------------------------------------------------------------------------
// The browser

/// The value of a digit to the base sixteen.
pub open spec fn hex_value(c: char) -> int {
    if '0' <= c <= '9' {
        c as int - '0' as int
    } else if 'A' <= c <= 'F' {
        c as int - 'A' as int + 10
    } else {
        -1
    }
}

/// The bytes that an encoded text stands for: a percent sign and two digits for one byte, and
/// any other ASCII character for itself.
pub open spec fn percent_decoded(s: Seq<char>) -> Option<Seq<u8>>
    decreases s.len(),
{
    if s.len() == 0 {
        Some(Seq::empty())
    } else if s[0] == '%' {
        if s.len() >= 3 && hex_value(s[1]) >= 0 && hex_value(s[2]) >= 0 {
            match percent_decoded(s.skip(3)) {
                Some(rest) => Some(seq![(hex_value(s[1]) * 16 + hex_value(s[2])) as u8] + rest),
                None => None,
            }
        } else {
            None
        }
    } else if (s[0] as int) < 128 {
        match percent_decoded(s.skip(1)) {
            Some(rest) => Some(seq![s[0] as u8] + rest),
            None => None,
        }
    } else {
        None
    }
}

proof fn lemma_decoded_add(a: Seq<char>, b: Seq<char>)
    requires
        percent_decoded(a) is Some,
        percent_decoded(b) is Some,
    ensures
        percent_decoded(a + b) == Some(percent_decoded(a)->0 + percent_decoded(b)->0),
    decreases a.len(),
{
    let s = a + b;
    if a.len() == 0 {
        assert(s =~= b);
        assert(percent_decoded(a)->0 + percent_decoded(b)->0 =~= percent_decoded(b)->0);
    } else if a[0] == '%' {
        lemma_decoded_add(a.skip(3), b);
        assert(s.skip(3) =~= a.skip(3) + b);
        let x = seq![(hex_value(a[1]) * 16 + hex_value(a[2])) as u8];
        assert(x + (percent_decoded(a.skip(3))->0 + percent_decoded(b)->0) =~= (x
            + percent_decoded(a.skip(3))->0) + percent_decoded(b)->0);
    } else {
        lemma_decoded_add(a.skip(1), b);
        assert(s.skip(1) =~= a.skip(1) + b);
        let x = seq![a[0] as u8];
        assert(x + (percent_decoded(a.skip(1))->0 + percent_decoded(b)->0) =~= (x
            + percent_decoded(a.skip(1))->0) + percent_decoded(b)->0);
    }
}

proof fn lemma_one_byte(b: u8)
    ensures
        percent_decoded(
            if is_unreserved(b) {
                seq![b as char]
            } else {
                seq!['%', hex_digit((b / 16) as int), hex_digit((b % 16) as int)]
            },
        ) == Some(seq![b]),
{
    let none = Seq::<char>::empty();
    assert(percent_decoded(none) == Some(Seq::<u8>::empty()));
    if is_unreserved(b) {
        let s = seq![b as char];
        assert(s.skip(1) =~= none);
        assert(s[0] as u8 == b);
        assert(seq![b] + Seq::<u8>::empty() =~= seq![b]);
    } else {
        let hi = (b / 16) as int;
        let lo = (b % 16) as int;
        let s = seq!['%', hex_digit(hi), hex_digit(lo)];
        assert(s.skip(3) =~= none);
        assert(hex_value(hex_digit(hi)) == hi);
        assert(hex_value(hex_digit(lo)) == lo);
        assert((hi * 16 + lo) as u8 == b);
        assert(seq![b] + Seq::<u8>::empty() =~= seq![b]);
    }
}

/// Encoded bytes read back as they were.
pub proof fn law_encoded_bytes_read_back(bytes: Seq<u8>)
    ensures
        percent_decoded(percent_encoded(bytes)) == Some(bytes),
    decreases bytes.len(),
{
    if bytes.len() == 0 {
        assert(bytes =~= Seq::<u8>::empty());
    } else {
        let t = bytes.drop_last();
        let b = bytes.last();
        law_encoded_bytes_read_back(t);
        lemma_one_byte(b);
        lemma_decoded_add(
            percent_encoded(t),
            if is_unreserved(b) {
                seq![b as char]
            } else {
                seq!['%', hex_digit((b / 16) as int), hex_digit((b % 16) as int)]
            },
        );
        assert(t + seq![b] =~= bytes);
    }
}

/// The address that the browser opens is that of the user's web mail, and what it searches for
/// reads as the Message-ID.
pub proof fn law_the_browser_searches_for_the_message(message_id: Seq<char>, user: Seq<char>)
    ensures
        ({
            let url = browser_url(message_id, user);
            let start = "https://mail.google.com/mail/u/"@ + user + "/#search/rfc822msgid:"@;
            &&& opens_with(url, start)
            &&& percent_decoded(url.skip(start.len() as int)) == Some(encode_utf8(message_id))
        }),
{
    let url = browser_url(message_id, user);
    let start = "https://mail.google.com/mail/u/"@ + user + "/#search/rfc822msgid:"@;
    assert(url.take(start.len() as int) =~= start);
    assert(url.skip(start.len() as int) =~= percent_encoded(encode_utf8(message_id)));
    law_encoded_bytes_read_back(encode_utf8(message_id));
}

// ---------------------------------------------------------------------------
// Drawing

/// After drawing, the selected sender and the selected entry of the undo history are on
/// screen, where the lists have any height; drawing changes nothing that was asked, said or
/// typed.
pub proof fn law_the_selection_is_on_screen(ui: UiV, app: AppV, height: usize, undo_height: usize)
    requires
        height > 0,
        undo_height > 2,
    ensures
        ({
            let t = ui.drawn(app, height, undo_height);
            &&& app.view == View::GroupList && !is_inbox_zero(app) ==> t.group_scroll_offset
                <= app.selected_group < t.group_scroll_offset + height
            &&& app.view == View::UndoHistory ==> t.undo_scroll_offset <= app.selected_undo
                < t.undo_scroll_offset + (undo_height - 2)
            &&& app.view == View::GroupList && !is_inbox_zero(app)
                ==> t.viewport_heights.group_list == height
            &&& app.view == View::EmailList ==> t.viewport_heights.email_list == height
            &&& app.view == View::Thread ==> t.viewport_heights.thread_view == height
            &&& app.view == View::EmailBody ==> t.viewport_heights.text_view == height
            &&& t.confirm_action == ui.confirm_action
            &&& t.status_message == ui.status_message
            &&& t.busy == ui.busy
            &&& t.showing_help == ui.showing_help
            &&& t.filter_input_active == ui.filter_input_active
            &&& t.filter_query == ui.filter_query
            &&& t.text_view_state == ui.text_view_state
        }),
{
}

/// A dialog stays inside the area that it is drawn in, and in the middle of it.
pub proof fn law_dialogs_stay_on_screen(s: Seq<char>, area: Area)
    requires
        area.fits(),
        area.height >= 3,
    ensures
        ({
            let b = modal_box(s, area);
            let left = b.x - area.x;
            let right = area.x + area.width - (b.x + b.width);
            let above = b.y - area.y;
            let below = area.y + area.height - (b.y + b.height);
            &&& 0 <= left <= right <= left + 1
            &&& 0 <= above <= below <= above + 1
            &&& b.height == 3
        }),
{
}

} // verus!
