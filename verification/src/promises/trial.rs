//! The demonstration: it does to its messages what a session has the server do.
use vstd::prelude::*;
use vstd::view::View as _;

use crate::demo_session::{DemoEffect, DemoOpV, DemoV};
use crate::desk::{Key, KeyPress};
use crate::email::EmailV;
use crate::grouping::grouping;
use crate::modes::{GroupMode, View};
use crate::promises::moves::{
    asked_for, is_act_key, is_yes, lemma_meant, lemma_outside, lemma_pushing_shows_the_same, meant,
    nothing_selected, Scope,
};
use crate::promises::seen::{
    has_company, is_on_screen, law_filters_show_what_they_ask_for, lemma_same_filter,
};
use crate::state::{other_id, outside_thread};
use crate::undo::{UndoActionType, UndoContextV, UndoEntryV, MAX_UNDO_HISTORY};

verus! {

broadcast use vstd::seq_lib::group_seq_properties;

/// Whether an operation does an action to what it is meant for, with all the messages of it.
pub open spec fn is_for(
    op: DemoOpV,
    action: UndoActionType,
    scope: Scope,
    list: Seq<EmailV>,
) -> bool {
    match (op, scope) {
        (DemoOpV::Group { action: a, emails, .. }, Scope::Sender) => a == action && emails == list,
        (DemoOpV::Thread { action: a, thread_emails, .. }, Scope::Thread) => a == action
            && thread_emails.to_multiset() == list.to_multiset(),
        (
            DemoOpV::Selected { action: a, emails, processed, processed_ids, .. },
            Scope::Selection,
        ) => a == action && emails == list && processed == 0 && processed_ids.len() == 0,
        _ => false,
    }
}

/// Whether an entry of the history is of an action on some messages.
pub open spec fn is_entry_of(
    entry: UndoEntryV,
    action: UndoActionType,
    emails: Seq<EmailV>,
) -> bool {
    &&& entry.action_type == action
    &&& entry.current_folder == match action {
        UndoActionType::Archive => "[Gmail]/All Mail"@,
        UndoActionType::Delete => "[Gmail]/Trash"@,
    }
    &&& entry.emails.len() == emails.len()
    &&& forall|k: int|
        0 <= k < emails.len() ==> #[trigger] entry.emails[k] == (
            emails[k].message_id,
            None::<u32>,
            emails[k].source_folder,
        )
}

/// Whether an action on some messages came first in the history, with the messages kept
/// for undoing it, and nothing else but the oldest entry changed.
pub open spec fn is_kept(s: DemoV, action: UndoActionType, emails: Seq<EmailV>, t: DemoV) -> bool {
    let old_history = s.desk.app.undo_history;
    let history = t.desk.app.undo_history;
    &&& 0 < history.len() <= MAX_UNDO_HISTORY
    &&& history.len() == old_history.len() + 1 || history.len() == MAX_UNDO_HISTORY
    &&& is_entry_of(history[0], action, emails)
    &&& forall|i: int| 1 <= i < history.len() ==> #[trigger] history[i] == old_history[i - 1]
    &&& 0 < t.storage.len() <= MAX_UNDO_HISTORY
    &&& t.storage.len() == s.storage.len() + 1 || t.storage.len() == MAX_UNDO_HISTORY
    &&& t.storage[0] == emails
    &&& forall|i: int| 1 <= i < t.storage.len() ==> #[trigger] t.storage[i] == s.storage[i - 1]
}

/// Saying yes begins the action that was asked about, on the messages that were meant and on
/// no others. No message is gone before its time; what is done to a selection can be undone
/// from the start.
pub proof fn law_yes_begins_what_was_asked(s: DemoV, p: KeyPress)
    requires
        s.desk.ui.confirm_action is Some,
        asked_for(s.desk.ui.confirm_action->0) is Some,
        is_yes(p),
    ensures
        ({
            let app = s.desk.app;
            let (action, scope) = asked_for(s.desk.ui.confirm_action->0)->0;
            let list = meant(app, scope);
            let (t, effect) = s.pressed(p);
            &&& t.desk.app.emails == app.emails
            &&& t.desk.ui.confirm_action is None
            &&& list.len() > 0 ==> {
                &&& effect == DemoEffect::Wait
                &&& t.desk.ui.busy
                &&& t.pending is Some
                &&& is_for(t.pending->0, action, scope, list)
                &&& match scope {
                    Scope::Selection => is_kept(s, action, list, t),
                    _ => t.desk.app == app && t.storage == s.storage,
                }
            }
            &&& list.len() == 0 && !(scope is Thread) ==> effect == DemoEffect::Nothing && t.pending
                == s.pending && t.desk.app == app && t.storage == s.storage
        }),
{
    lemma_meant(s.desk.app);
}

/// In the list of threads, with nothing selected, `a` archives and `d` deletes the current
/// thread; one with several messages has to be looked at first.
pub proof fn law_demo_act_keys_act_on_the_current_thread(
    s: DemoV,
    p: KeyPress,
    action: UndoActionType,
)
    requires
        s.desk.ui.confirm_action is None,
        s.desk.ui.status_message is None,
        !s.desk.ui.showing_help,
        !s.desk.ui.filter_input_active,
        s.desk.app.view == View::EmailList,
        nothing_selected(s.desk.app),
        is_act_key(p, action),
    ensures
        ({
            let app = s.desk.app;
            let list = meant(app, Scope::Thread);
            let (t, effect) = s.pressed(p);
            &&& t.desk.app == app
            &&& t.storage == s.storage
            &&& if s.settings.protect_threads && app.current_email() is Some && has_company(
                app.emails,
                app.current_email()->0.thread_id,
            ) {
                &&& effect == DemoEffect::Nothing
                &&& t.pending == s.pending
                &&& t.desk.ui.status_message is Some
            } else if list.len() > 0 {
                &&& effect == DemoEffect::Wait
                &&& t.pending is Some
                &&& is_for(t.pending->0, action, Scope::Thread, list)
            } else {
                effect == DemoEffect::Nothing && t.pending == s.pending
            }
        }),
{
    lemma_meant(s.desk.app);
    if let Some(e) = s.desk.app.current_email() {
        law_filters_show_what_they_ask_for(s.desk.app, e);
    }
}

/// When the time of an action on a sender or a thread has passed, its threads are gone whole,
/// no other message is, and the action can be undone.
pub proof fn law_the_action_takes_place(s: DemoV, op: DemoOpV)
    requires
        s.pending == Some(op),
        op is Group || op is Thread,
    ensures
        ({
            let app = s.desk.app;
            let (t, effect) = s.passed();
            &&& effect == DemoEffect::Nothing
            &&& t.pending is None
            &&& !t.desk.ui.busy
            &&& match op {
                DemoOpV::Group { action, emails, sender } => {
                    &&& t.desk.app.emails == app.emails.filter(
                        |e: EmailV| !is_on_screen(app, e.thread_id),
                    )
                    &&& emails.len() > 0 ==> is_kept(s, action, emails, t)
                        && t.desk.app.undo_history[0].context == (UndoContextV::Group { sender })
                },
                DemoOpV::Thread { action, thread_id, thread_emails, subject } => {
                    &&& t.desk.app.emails == app.emails.filter(
                        |e: EmailV| e.thread_id != thread_id,
                    )
                    &&& thread_emails.len() > 0 ==> is_kept(s, action, thread_emails, t)
                        && t.desk.app.undo_history[0].context == (UndoContextV::Thread { subject })
                },
                _ => true,
            }
        }),
{
    let app = s.desk.app;
    match op {
        DemoOpV::Group { action, emails, sender } => {
            let entry = crate::session::entry_of(
                action,
                UndoContextV::Group { sender },
                crate::demo_session::remembered(emails),
            );
            lemma_pushing_shows_the_same(app, entry);
            lemma_outside(app);
        },
        DemoOpV::Thread { thread_id, .. } => {
            lemma_same_filter(
                app.emails,
                outside_thread(thread_id),
                |e: EmailV| e.thread_id != thread_id,
            );
        },
        _ => {},
    }
}

/// A selection goes message by message: each time the first of those that are left is gone,
/// and no other. After the last one nothing is left to do, and none of the messages that are
/// gone is selected.
pub proof fn law_selections_go_one_by_one(s: DemoV, op: DemoOpV)
    requires
        s.pending == Some(op),
        op is Selected,
        op->Selected_emails.len() > 0,
    ensures
        ({
            let app = s.desk.app;
            let (t, effect) = s.passed();
            let left = op->Selected_emails;
            let gone = op->processed_ids.push(left[0].id);
            &&& t.desk.app.emails == app.emails.filter(|e: EmailV| e.id != left[0].id)
            &&& t.desk.app.undo_history == app.undo_history
            &&& t.storage == s.storage
            &&& if left.len() > 1 {
                &&& effect == DemoEffect::Wait
                &&& t.pending matches Some(
                    DemoOpV::Selected { action, emails, count, processed, processed_ids },
                )
                &&& action == op->Selected_action
                &&& emails == left.skip(1)
                &&& count == op->Selected_count
                &&& processed_ids == gone
                &&& op->Selected_processed < usize::MAX ==> processed == op->Selected_processed + 1
                &&& t.desk.app.selected_emails == app.selected_emails
            } else {
                &&& effect == DemoEffect::Nothing
                &&& t.pending is None
                &&& !t.desk.ui.busy
                &&& forall|id: Seq<char>| #[trigger]
                    t.desk.app.selected_emails.contains(id) <==> app.selected_emails.contains(id)
                        && !gone.contains(id)
            }
        }),
{
    let left = op->Selected_emails;
    lemma_same_filter(s.desk.app.emails, other_id(left[0].id), |e: EmailV| e.id != left[0].id);
    assert(left.drop_first() =~= left.skip(1));
    assert(left.first() == left[0]);
}

/// Enter in the undo history takes the messages of the selected action out of the storage, of
/// no other; when the time has passed they are back, and the entry is gone from the history.
pub proof fn law_demo_undo_restores_the_selected_entry(s: DemoV, p: KeyPress)
    requires
        s.desk.ui.confirm_action is None,
        s.desk.ui.status_message is None,
        !s.desk.ui.showing_help,
        !s.desk.ui.filter_input_active,
        s.desk.app.view == View::UndoHistory,
        p.key == Key::Enter,
        s.storage.len() == s.desk.app.undo_history.len(),
    ensures
        ({
            let app = s.desk.app;
            let at = app.selected_undo as int;
            let (t, effect) = s.pressed(p);
            let (u, _) = t.passed();
            if at < app.undo_history.len() {
                &&& effect == DemoEffect::Wait
                &&& t.desk.app == app
                &&& u.pending is None
                &&& u.desk.app.emails == app.emails + s.storage[at]
                &&& u.storage.len() == s.storage.len() - 1
                &&& u.desk.app.undo_history.len() == app.undo_history.len() - 1
                &&& forall|i: int|
                    0 <= i < at ==> #[trigger] u.storage[i] == s.storage[i]
                        && u.desk.app.undo_history[i] == app.undo_history[i]
                &&& forall|i: int|
                    at <= i < u.storage.len() ==> #[trigger] u.storage[i] == s.storage[i + 1]
                        && u.desk.app.undo_history[i] == app.undo_history[i + 1]
            } else {
                effect == DemoEffect::Nothing && t.desk.app == app && t.storage == s.storage
                    && t.pending == s.pending
            }
        }),
{
}

/// The demonstration starts with its messages loaded and grouped, with nothing to undo and
/// nothing pending, and it protects threads.
pub proof fn law_the_demonstration_starts_loaded(emails: Seq<EmailV>)
    ensures
        ({
            let s = DemoV::started(emails);
            &&& s.desk.app.emails == emails
            &&& s.desk.app.emails_loaded
            &&& s.desk.app.groups == grouping(
                emails,
                s.desk.app.user_email,
                GroupMode::BySenderEmail,
            )
            &&& s.desk.app.undo_history.len() == 0
            &&& s.storage.len() == 0
            &&& s.pending is None
            &&& !s.desk.ui.busy
            &&& s.settings.protect_threads
        }),
{
}

/// What can be seen of a message's body in the demonstration: who sent it, and its subject.
pub proof fn law_demo_bodies_name_the_message(from: Seq<char>, subject: Seq<char>)
    ensures
        exists|i: int|
            0 <= i && i + from.len() <= crate::demo_session::demo_body(from, subject).len()
                && #[trigger] crate::demo_session::demo_body(from, subject).subrange(
                i,
                i + from.len(),
            ) == from,
        exists|i: int|
            0 <= i && i + subject.len() <= crate::demo_session::demo_body(from, subject).len()
                && #[trigger] crate::demo_session::demo_body(from, subject).subrange(
                i,
                i + subject.len(),
            ) == subject,
{
    let start =
        "This is a demo email body.\n\nIn real mode, the actual email content would be fetched from the server.\n\nFrom: "@;
    let mid = "\nSubject: "@;
    let body = crate::demo_session::demo_body(from, subject);
    let i = start.len() as int;
    let j = i + from.len() + mid.len();
    assert(body.subrange(i, i + from.len()) =~= from);
    assert(body.subrange(j, j + subject.len()) =~= subject);
}

} // verus!
