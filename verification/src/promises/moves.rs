//! Archiving, deleting and undoing: what the server is told, and what its answers change.
use vstd::prelude::*;
use vstd::view::View as _;

use crate::desk::{Key, KeyPress};
use crate::email::EmailV;
use crate::laws::{law_newest_first, lemma_filter_members};
use crate::listing::{in_thread, in_threads_of};
use crate::modes::View;
use crate::promises::seen::{
    has_company, is_on_screen, is_picked, law_filters_show_what_they_ask_for, lemma_same_filter,
    lemma_threads_on_screen,
};
use crate::session::{CommandV, EffectV, LeavingV, PendingV, ResponseV, SessionV};
use crate::state::{has_id, outside_thread, outside_threads_of, AppV};
use crate::text::decimal;
use crate::ui::widgets::ConfirmV;
use crate::undo::{UndoActionType, UndoContextV, MAX_UNDO_HISTORY};

verus! {

broadcast use vstd::seq_lib::group_seq_properties;

// ---------------------------------------------------------------------------
// How moves are told

/// The UID and the folder of each message.
pub open spec fn names(s: Seq<EmailV>) -> Seq<(Seq<char>, Seq<char>)> {
    Seq::new(s.len(), |i: int| (s[i].id, s[i].source_folder))
}

/// The UID, the Message-ID and the folder of each message.
pub open spec fn notes(s: Seq<EmailV>) -> Seq<LeavingV> {
    Seq::new(s.len(), |i: int| (s[i].id, s[i].message_id, s[i].source_folder))
}

/// The messages that an effect tells the server to move the way an action moves them.
pub open spec fn told_to_move(effect: EffectV, action: UndoActionType) -> Option<
    Seq<(Seq<char>, Seq<char>)>,
> {
    match (action, effect) {
        (UndoActionType::Archive, EffectV::Send(CommandV::ArchiveMultiple(ids))) => Some(ids),
        (UndoActionType::Delete, EffectV::Send(CommandV::DeleteMultiple(ids))) => Some(ids),
        _ => None,
    }
}

/// What an action is meant for.
pub enum Scope {
    /// The threads on screen.
    Sender,
    /// The current thread.
    Thread,
    /// The threads that are picked.
    Selection,
}

/// What a question asks for.
pub open spec fn asked_for(c: ConfirmV) -> Option<(UndoActionType, Scope)> {
    match c {
        ConfirmV::ArchiveEmails { .. } => Some((UndoActionType::Archive, Scope::Sender)),
        ConfirmV::DeleteEmails { .. } => Some((UndoActionType::Delete, Scope::Sender)),
        ConfirmV::ArchiveThread { .. } => Some((UndoActionType::Archive, Scope::Thread)),
        ConfirmV::DeleteThread { .. } => Some((UndoActionType::Delete, Scope::Thread)),
        ConfirmV::ArchiveSelected { .. } => Some((UndoActionType::Archive, Scope::Selection)),
        ConfirmV::DeleteSelected { .. } => Some((UndoActionType::Delete, Scope::Selection)),
        ConfirmV::Quit => None,
    }
}

/// The messages that an action is meant for: all those of the threads it is meant for,
/// whoever sent them.
pub open spec fn meant(app: AppV, scope: Scope) -> Seq<EmailV> {
    match scope {
        Scope::Sender => app.emails.filter(|e: EmailV| is_on_screen(app, e.thread_id)),
        Scope::Thread => match app.current_email() {
            Some(c) => app.emails.filter(|e: EmailV| e.thread_id == c.thread_id),
            None => Seq::empty(),
        },
        Scope::Selection => app.emails.filter(|e: EmailV| is_picked(app, e.thread_id)),
    }
}

/// Whether an operation notes down an action on some messages, for undoing it later.
pub open spec fn notes_down(
    op: PendingV,
    action: UndoActionType,
    scope: Scope,
    list: Seq<LeavingV>,
) -> bool {
    match (op, scope) {
        (PendingV::Group { action: a, emails, .. }, Scope::Sender) => a == action && emails == list,
        (PendingV::Thread { action: a, emails, .. }, Scope::Thread) => a == action && emails
            == list,
        (PendingV::Selected { action: a, emails, .. }, Scope::Selection) => a == action && emails
            == list,
        _ => false,
    }
}

/// Whether the server is told to do an action to what it is meant for, and to nothing else:
/// the command is of the kind of the action, it names the messages that are meant, each as
/// often as it is there, and the same messages are noted down. Where no message is meant
/// nothing is asked of the server.
pub open spec fn does(
    s: SessionV,
    action: UndoActionType,
    scope: Scope,
    t: SessionV,
    effect: EffectV,
) -> bool {
    let app = s.desk.app;
    let list = meant(app, scope);
    &&& t.desk.app == app
    &&& t.user_email == s.user_email
    &&& t.settings == s.settings
    &&& list.len() == 0 ==> effect == EffectV::Nothing && t.pending == s.pending
        && t.desk.ui.busy == s.desk.ui.busy
    &&& list.len() > 0 ==> exists|sent: Seq<EmailV>|
        {
            &&& sent.to_multiset() == list.to_multiset()
            &&& told_to_move(effect, action) == Some(#[trigger] names(sent))
            &&& t.pending is Some && notes_down(t.pending->0, action, scope, notes(sent))
            &&& t.desk.ui.busy
        }
}

/// Whether a key is a yes.
pub open spec fn is_yes(p: KeyPress) -> bool {
    p.key == Key::Char('y') || p.key == Key::Char('Y')
}

// ---------------------------------------------------------------------------
// What the server is told

/// The messages that an action is meant for are those that the lists give.
pub proof fn lemma_meant(app: AppV)
    ensures
        app.group_thread_emails() == meant(app, Scope::Sender),
        app.selected_thread_emails() == meant(app, Scope::Selection),
        app.thread_emails().to_multiset() == meant(app, Scope::Thread).to_multiset(),
        app.thread_emails().len() == meant(app, Scope::Thread).len(),
{
    assert forall|e: EmailV| #[trigger] in_threads_of(app.filtered_emails())(e) == is_on_screen(
        app,
        e.thread_id,
    ) && in_threads_of(app.selected_shown())(e) == is_picked(app, e.thread_id) by {
        lemma_threads_on_screen(app, e.thread_id);
    }
    assert forall|e: EmailV| #[trigger] in_threads_of(app.selected_shown())(e) == is_picked(
        app,
        e.thread_id,
    ) by {
        lemma_threads_on_screen(app, e.thread_id);
    }
    lemma_same_filter(
        app.emails,
        in_threads_of(app.filtered_emails()),
        |e: EmailV| is_on_screen(app, e.thread_id),
    );
    lemma_same_filter(
        app.emails,
        in_threads_of(app.selected_shown()),
        |e: EmailV| is_picked(app, e.thread_id),
    );
    if let Some(c) = app.current_email() {
        lemma_same_filter(
            app.emails,
            in_thread(c.thread_id),
            |e: EmailV| e.thread_id == c.thread_id,
        );
        law_newest_first(app.emails.filter(in_thread(c.thread_id)), c);
        app.thread_emails().to_multiset_ensures();
        meant(app, Scope::Thread).to_multiset_ensures();
    }
}

proof fn lemma_lists(s: Seq<EmailV>)
    ensures
        crate::state::ids_and_folders(s) == names(s),
        crate::state::for_undo(s) == notes(s),
{
    assert(crate::state::ids_and_folders(s) =~= names(s));
    assert(crate::state::for_undo(s) =~= notes(s));
}

proof fn lemma_thread_moving(s: SessionV, action: UndoActionType)
    ensures
        does(s, action, Scope::Thread, s.thread_moving(action).0, s.thread_moving(action).1),
        meant(s.desk.app, Scope::Thread).len() > 0 ==> {
            &&& s.thread_moving(action).0.pending matches Some(
                PendingV::Thread { thread_id, subject, .. },
            )
            &&& thread_id == s.desk.app.current_email()->0.thread_id
            &&& subject == s.desk.app.current_email()->0.subject
        },
{
    lemma_meant(s.desk.app);
    lemma_lists(s.desk.app.thread_emails());
}

proof fn lemma_group_moving(s: SessionV, action: UndoActionType, sender: Seq<char>)
    ensures
        does(
            s,
            action,
            Scope::Sender,
            s.group_moving(action, sender).0,
            s.group_moving(action, sender).1,
        ),
{
    lemma_meant(s.desk.app);
    lemma_lists(s.desk.app.group_thread_emails());
}

proof fn lemma_selection_moving(s: SessionV, action: UndoActionType, count: usize)
    ensures
        does(
            s,
            action,
            Scope::Selection,
            s.selection_moving(action, count).0,
            s.selection_moving(action, count).1,
        ),
{
    lemma_meant(s.desk.app);
    lemma_lists(s.desk.app.selected_thread_emails());
}

/// Whether an operation is called what the question called it: by the sender, by how many
/// were selected, or by the current thread.
pub open spec fn is_named_by(op: PendingV, c: ConfirmV, app: AppV) -> bool {
    match (op, c) {
        (PendingV::Group { sender: a, .. }, ConfirmV::ArchiveEmails { sender: b, .. }) => a == b,
        (PendingV::Group { sender: a, .. }, ConfirmV::DeleteEmails { sender: b, .. }) => a == b,
        (PendingV::Selected { count: a, .. }, ConfirmV::ArchiveSelected { count: b }) => a == b,
        (PendingV::Selected { count: a, .. }, ConfirmV::DeleteSelected { count: b }) => a == b,
        (PendingV::Thread { thread_id, subject, .. }, _) => app.current_email() is Some && thread_id
            == app.current_email()->0.thread_id && subject == app.current_email()->0.subject,
        _ => false,
    }
}

/// Saying yes to a question about messages has the server do just what was asked: archive
/// where it was to archive, delete where it was to delete, and only the messages of the
/// threads that were meant, all of them.
pub proof fn law_yes_does_what_was_asked(s: SessionV, p: KeyPress)
    requires
        !s.desk.ui.busy,
        s.desk.ui.confirm_action is Some,
        asked_for(s.desk.ui.confirm_action->0) is Some,
        is_yes(p),
    ensures
        ({
            let (action, scope) = asked_for(s.desk.ui.confirm_action->0)->0;
            let (t, effect) = s.pressed(p);
            &&& does(s, action, scope, t, effect)
            &&& t.desk.ui.confirm_action is None
            &&& meant(s.desk.app, scope).len() > 0 ==> is_named_by(
                t.pending->0,
                s.desk.ui.confirm_action->0,
                s.desk.app,
            )
        }),
{
    let c = s.desk.ui.confirm_action->0;
    let (desk, request) = s.desk.pressed(p, s.settings);
    let u = SessionV { desk, ..s };
    lemma_thread_moving(u, UndoActionType::Archive);
    lemma_thread_moving(u, UndoActionType::Delete);
    match c {
        ConfirmV::ArchiveEmails { sender, .. } => {
            lemma_group_moving(u, UndoActionType::Archive, sender);
        },
        ConfirmV::DeleteEmails { sender, .. } => {
            lemma_group_moving(u, UndoActionType::Delete, sender);
        },
        ConfirmV::ArchiveSelected { count } => {
            lemma_selection_moving(u, UndoActionType::Archive, count);
        },
        ConfirmV::DeleteSelected { count } => {
            lemma_selection_moving(u, UndoActionType::Delete, count);
        },
        _ => {},
    }
}

/// Whether keys reach the lists: nothing is being worked on, asked, said, explained or typed.
pub open spec fn is_ready(s: SessionV) -> bool {
    &&& !s.desk.ui.busy
    &&& s.desk.ui.confirm_action is None
    &&& s.desk.ui.status_message is None
    &&& !s.desk.ui.showing_help
    &&& !s.desk.ui.filter_input_active
}

/// Whether a key is the one that does an action to the current thread.
pub open spec fn is_act_key(p: KeyPress, action: UndoActionType) -> bool {
    match action {
        UndoActionType::Archive => p.key == Key::Char('a'),
        UndoActionType::Delete => p.key == Key::Char('d') && !p.control,
    }
}

/// Whether a key is the one that does an action to all.
pub open spec fn is_act_all_key(p: KeyPress, action: UndoActionType) -> bool {
    match action {
        UndoActionType::Archive => p.key == Key::Char('A'),
        UndoActionType::Delete => p.key == Key::Char('D'),
    }
}

/// Whether nothing is selected.
pub open spec fn nothing_selected(app: AppV) -> bool {
    forall|id: Seq<char>| !(#[trigger] app.selected_emails.contains(id))
}

/// In the list of threads, with nothing selected, `a` archives and `d` deletes the current
/// thread, whoever sent its messages, and nothing else. A thread with several messages is
/// left alone where threads are protected: the user is told to look at it.
pub proof fn law_act_keys_act_on_the_current_thread(
    s: SessionV,
    p: KeyPress,
    action: UndoActionType,
)
    requires
        is_ready(s),
        s.desk.app.view == View::EmailList,
        nothing_selected(s.desk.app),
        is_act_key(p, action),
    ensures
        ({
            let app = s.desk.app;
            let (t, effect) = s.pressed(p);
            if s.settings.protect_threads && app.current_email() is Some && has_company(
                app.emails,
                app.current_email()->0.thread_id,
            ) {
                &&& effect == EffectV::Nothing
                &&& t.desk.app == app
                &&& t.pending == s.pending
                &&& !t.desk.ui.busy
                &&& t.desk.ui.status_message is Some
            } else {
                &&& does(s, action, Scope::Thread, t, effect)
                &&& meant(app, Scope::Thread).len() > 0 ==> match t.pending->0 {
                    PendingV::Thread { thread_id, subject, .. } => thread_id
                        == app.current_email()->0.thread_id && subject
                        == app.current_email()->0.subject,
                    _ => false,
                }
            }
        }),
{
    let (desk, request) = s.desk.pressed(p, s.settings);
    lemma_thread_moving(SessionV { desk, ..s }, action);
    if let Some(e) = s.desk.app.current_email() {
        law_filters_show_what_they_ask_for(s.desk.app, e);
    }
}

/// Outside of the list of threads `a` and `d` do nothing: a single key moves messages only
/// where the list of threads is on screen.
pub proof fn law_act_keys_do_nothing_elsewhere(s: SessionV, p: KeyPress, action: UndoActionType)
    requires
        is_ready(s),
        s.desk.app.view != View::EmailList,
        is_act_key(p, action),
    ensures
        s.pressed(p).1 == EffectV::Nothing,
        s.pressed(p).0.desk.app == s.desk.app,
        s.pressed(p).0.desk.ui == s.desk.ui,
        s.pressed(p).0.pending == s.pending,
{
}

/// A character that stands for nothing does nothing, in every view.
pub proof fn law_other_keys_do_nothing(s: SessionV, p: KeyPress, c: char)
    requires
        is_ready(s),
        p.key == Key::Char(c),
        c != 'q' && c != 'j' && c != 'k' && c != 'g' && c != 'G' && c != 'd' && c != 'D' && c != 'u'
            && c != 'a' && c != 'A' && c != 'e' && c != 'm' && c != 'r' && c != 't' && c != ' ' && c
            != '/' && c != '?',
    ensures
        s.pressed(p).1 == EffectV::Nothing,
        s.pressed(p).0.desk.app == s.desk.app,
        s.pressed(p).0.desk.ui == s.desk.ui,
        s.pressed(p).0.pending == s.pending,
{
}

/// What a question asks, in numbers.
pub open spec fn asked_count(c: ConfirmV) -> nat {
    match c {
        ConfirmV::ArchiveEmails { count, .. } => count as nat,
        ConfirmV::DeleteEmails { count, .. } => count as nat,
        ConfirmV::ArchiveThread { thread_email_count } => thread_email_count as nat,
        ConfirmV::DeleteThread { thread_email_count } => thread_email_count as nat,
        ConfirmV::ArchiveSelected { count } => count as nat,
        ConfirmV::DeleteSelected { count } => count as nat,
        ConfirmV::Quit => 0,
    }
}

/// Whether a key did no more than to ask about an action on what it is meant for, with the
/// number of messages in the question.
pub open spec fn only_asks(
    s: SessionV,
    action: UndoActionType,
    scope: Scope,
    t: SessionV,
    effect: EffectV,
) -> bool {
    &&& effect == EffectV::Nothing
    &&& t.desk.app == s.desk.app
    &&& t.pending == s.pending
    &&& !t.desk.ui.busy
    &&& t.desk.ui.confirm_action is Some
    &&& asked_for(t.desk.ui.confirm_action->0) == Some((action, scope))
    &&& asked_count(t.desk.ui.confirm_action->0) == meant(s.desk.app, scope).len()
}

/// With something selected, `a`, `A`, `d` and `D` in the list of threads ask about the
/// threads that are picked, and about nothing where none is.
pub proof fn law_selections_are_asked_about(s: SessionV, p: KeyPress, action: UndoActionType)
    requires
        is_ready(s),
        s.desk.app.view == View::EmailList,
        !nothing_selected(s.desk.app),
        is_act_key(p, action) || is_act_all_key(p, action),
        meant(s.desk.app, Scope::Selection).len() <= usize::MAX,
    ensures
        ({
            let (t, effect) = s.pressed(p);
            if meant(s.desk.app, Scope::Selection).len() > 0 {
                only_asks(s, action, Scope::Selection, t, effect)
            } else {
                effect == EffectV::Nothing && t.desk.app == s.desk.app && t.pending == s.pending
                    && t.desk.ui == s.desk.ui
            }
        }),
{
    lemma_meant(s.desk.app);
}

/// With nothing selected, `A` and `D` ask about all threads on screen in the list of threads,
/// naming the sender, and about the thread in the view of a thread.
pub proof fn law_all_keys_ask_about_all(s: SessionV, p: KeyPress, action: UndoActionType)
    requires
        is_ready(s),
        is_act_all_key(p, action),
        meant(s.desk.app, Scope::Sender).len() <= usize::MAX,
        meant(s.desk.app, Scope::Thread).len() <= usize::MAX,
    ensures
        ({
            let app = s.desk.app;
            let (t, effect) = s.pressed(p);
            &&& app.view == View::EmailList && nothing_selected(app) && app.selected_group
                < app.groups.len() ==> {
                &&& only_asks(s, action, Scope::Sender, t, effect)
                &&& match t.desk.ui.confirm_action->0 {
                    ConfirmV::ArchiveEmails { sender, .. } => sender
                        == app.groups[app.selected_group as int].key,
                    ConfirmV::DeleteEmails { sender, .. } => sender
                        == app.groups[app.selected_group as int].key,
                    _ => false,
                }
            }
            &&& app.view == View::Thread && meant(app, Scope::Thread).len() > 0 ==> only_asks(
                s,
                action,
                Scope::Thread,
                t,
                effect,
            )
            &&& app.view == View::GroupList || app.view == View::UndoHistory || app.view
                == View::EmailBody ==> effect == EffectV::Nothing && t.desk.app == app && t.pending
                == s.pending && t.desk.ui == s.desk.ui
        }),
{
    lemma_meant(s.desk.app);
}

/// Saying no, or nothing that is an answer, has the server do nothing and loses nothing; the
/// question goes with a no and stays otherwise.
pub proof fn law_only_yes_does_anything(s: SessionV, p: KeyPress)
    requires
        s.desk.ui.confirm_action is Some,
        !is_yes(p),
    ensures
        ({
            let (t, effect) = s.pressed(p);
            &&& effect == EffectV::Nothing
            &&& t.desk.app == s.desk.app
            &&& t.pending == s.pending
            &&& t.desk.ui.busy == s.desk.ui.busy
            &&& !s.desk.ui.busy && (p.key == Key::Char('n') || p.key == Key::Char('N') || p.key
                == Key::Esc) ==> t.desk.ui.confirm_action is None
            &&& p.key != Key::Char('n') && p.key != Key::Char('N') && p.key != Key::Esc
                ==> t.desk.ui.confirm_action == s.desk.ui.confirm_action
        }),
{
}

// ---------------------------------------------------------------------------
// Undoing

/// Enter in the undo history has the server put back the messages of the selected entry, and
/// of no other: each out of the folder that the entry says they are in, back to the folder
/// that it came from. The entry is the one that goes when the server is done.
pub proof fn law_undo_restores_the_selected_entry(s: SessionV, p: KeyPress)
    requires
        is_ready(s),
        s.desk.app.view == View::UndoHistory,
        p.key == Key::Enter,
    ensures
        ({
            let app = s.desk.app;
            let (t, effect) = s.pressed(p);
            &&& t.desk.app == app
            &&& if app.selected_undo < app.undo_history.len()
                && app.undo_history[app.selected_undo as int].emails.len() > 0 {
                let entry = app.undo_history[app.selected_undo as int];
                &&& t.pending == Some(PendingV::Undo(app.selected_undo))
                &&& t.desk.ui.busy
                &&& effect matches EffectV::Send(CommandV::RestoreEmails(items))
                    && items.len() == entry.emails.len() && forall|k: int|
                    0 <= k < items.len() ==> #[trigger] items[k] == (
                        entry.emails[k].0,
                        entry.emails[k].1,
                        entry.current_folder,
                        entry.emails[k].2,
                    )
            } else {
                effect == EffectV::Nothing && t.pending == s.pending && !t.desk.ui.busy
            }
        }),
{
}

/// When the server has put messages back, the entry that was being undone is dropped from
/// the history, no other one, and the messages are loaded anew. When it failed the history
/// stays, and the user is told why.
pub proof fn law_undone_entries_are_dropped(s: SessionV, index: usize, e: Seq<char>)
    requires
        s.pending == Some(PendingV::Undo(index)),
        index < s.desk.app.undo_history.len(),
    ensures
        ({
            let old_history = s.desk.app.undo_history;
            let (t, effect) = s.answered(ResponseV::RestoreResult(Ok(())));
            let history = t.desk.app.undo_history;
            &&& history.len() == old_history.len() - 1
            &&& forall|i: int| 0 <= i < index ==> #[trigger] history[i] == old_history[i]
            &&& forall|i: int| index <= i < history.len() ==> #[trigger] history[i] == old_history[i
                + 1]
            &&& history.len() > 0 && s.desk.app.selected_undo < old_history.len()
                ==> t.desk.app.selected_undo < history.len()
            &&& t.desk.app.emails == s.desk.app.emails
            &&& t.pending is None
            &&& t.desk.ui.busy
            &&& effect == EffectV::Send(
                CommandV::FetchInbox { parallel_connections: s.settings.parallel_connections },
            )
        }),
        ({
            let (t, effect) = s.answered(ResponseV::RestoreResult(Err(e)));
            &&& t.desk.app == s.desk.app
            &&& t.pending is None
            &&& !t.desk.ui.busy
            &&& effect == EffectV::Nothing
            &&& t.desk.ui.status_message is Some
            &&& t.desk.ui.status_message->0.len() >= e.len()
            &&& t.desk.ui.status_message->0.skip(t.desk.ui.status_message->0.len() - e.len()) == e
        }),
{
    let told = "Undo failed: "@ + e;
    assert(told.skip(told.len() - e.len()) =~= e);
}

// ---------------------------------------------------------------------------
// What answers change

/// The action of an operation.
pub open spec fn action_of(op: PendingV) -> Option<UndoActionType> {
    match op {
        PendingV::Group { action, .. } => Some(action),
        PendingV::Thread { action, .. } => Some(action),
        PendingV::Selected { action, .. } => Some(action),
        PendingV::Undo(_) => None,
    }
}

/// The messages that an operation has noted down.
pub open spec fn noted(op: PendingV) -> Seq<LeavingV> {
    match op {
        PendingV::Group { emails, .. } => emails,
        PendingV::Thread { emails, .. } => emails,
        PendingV::Selected { emails, .. } => emails,
        PendingV::Undo(_) => Seq::empty(),
    }
}

/// Whether a thread leaves the lists when an operation is done.
pub open spec fn leaves(app: AppV, op: PendingV, thread_id: Seq<char>) -> bool {
    match op {
        PendingV::Group { .. } => is_on_screen(app, thread_id),
        PendingV::Thread { thread_id: gone, .. } => thread_id == gone,
        PendingV::Selected { .. } => is_picked(app, thread_id),
        PendingV::Undo(_) => false,
    }
}

/// The answer that an action has come to an end.
pub open spec fn done(action: UndoActionType, map: Map<Seq<char>, u32>) -> ResponseV {
    match action {
        UndoActionType::Archive => ResponseV::MultiArchiveResult(Ok(map)),
        UndoActionType::Delete => ResponseV::MultiDeleteResult(Ok(map)),
    }
}

/// The messages that stay are those outside the threads that leave.
pub proof fn lemma_outside(app: AppV)
    ensures
        app.emails.filter(outside_threads_of(app.filtered_emails())) == app.emails.filter(
            |e: EmailV| !is_on_screen(app, e.thread_id),
        ),
        app.emails.filter(outside_threads_of(app.selected_shown())) == app.emails.filter(
            |e: EmailV| !is_picked(app, e.thread_id),
        ),
{
    assert forall|e: EmailV| #[trigger] outside_threads_of(app.filtered_emails())(e)
        == !is_on_screen(app, e.thread_id) by {
        lemma_threads_on_screen(app, e.thread_id);
    }
    assert forall|e: EmailV| #[trigger] outside_threads_of(app.selected_shown())(e) == !is_picked(
        app,
        e.thread_id,
    ) by {
        lemma_threads_on_screen(app, e.thread_id);
    }
    lemma_same_filter(
        app.emails,
        outside_threads_of(app.filtered_emails()),
        |e: EmailV| !is_on_screen(app, e.thread_id),
    );
    lemma_same_filter(
        app.emails,
        outside_threads_of(app.selected_shown()),
        |e: EmailV| !is_picked(app, e.thread_id),
    );
}

/// One more entry in the undo history changes nothing on screen.
pub proof fn lemma_pushing_shows_the_same(app: AppV, entry: crate::undo::UndoEntryV)
    ensures
        app.undo_pushed(entry).filtered_emails() == app.filtered_emails(),
        app.undo_pushed(entry).selected_shown() == app.selected_shown(),
        app.undo_pushed(entry).emails == app.emails,
{
    let t = app.undo_pushed(entry);
    assert(t.shown() =~= app.shown());
    assert(t.is_selected() =~= app.is_selected());
}

/// When the server has archived or deleted messages, the threads that were meant leave the
/// lists whole and no other message does. The action can be undone: it stands first in the
/// history, with the folder that the messages are in now, their UIDs there as far as the
/// server told them, and the folders that they came from.
pub proof fn law_finished_moves_are_kept(s: SessionV, op: PendingV, map: Map<Seq<char>, u32>)
    requires
        s.pending == Some(op),
        action_of(op) is Some,
    ensures
        ({
            let app = s.desk.app;
            let action = action_of(op)->0;
            let (t, effect) = s.answered(done(action, map));
            let history = t.desk.app.undo_history;
            &&& effect == EffectV::Nothing
            &&& t.pending is None
            &&& !t.desk.ui.busy
            &&& t.desk.app.emails == app.emails.filter(|e: EmailV| !leaves(app, op, e.thread_id))
            &&& history.len() > 0
            &&& history.len() <= MAX_UNDO_HISTORY
            &&& history.len() == app.undo_history.len() + 1 || history.len() == MAX_UNDO_HISTORY
            &&& forall|i: int| 1 <= i < history.len() ==> #[trigger] history[i]
                == app.undo_history[i - 1]
            &&& history[0].action_type == action
            &&& history[0].current_folder == match action {
                UndoActionType::Archive => "[Gmail]/All Mail"@,
                UndoActionType::Delete => "[Gmail]/Trash"@,
            }
            &&& history[0].emails.len() == noted(op).len()
            &&& forall|k: int|
                0 <= k < noted(op).len() ==> {
                    let (uid, message_id, folder) = noted(op)[k];
                    &&& (#[trigger] history[0].emails[k]).0 == message_id
                    &&& map.contains_key(uid) ==> history[0].emails[k].1 == Some(map[uid])
                    &&& !map.contains_key(uid) ==> history[0].emails[k].1 is None
                    &&& history[0].emails[k].2 == folder
                }
            &&& match op {
                PendingV::Group { sender, .. } => history[0].context == (UndoContextV::Group {
                    sender,
                }),
                PendingV::Thread { subject, .. } => history[0].context == (UndoContextV::Thread {
                    subject,
                }),
                PendingV::Selected { count, .. } => history[0].context == (UndoContextV::Group {
                    sender: decimal(count as nat) + " selected"@,
                }),
                _ => true,
            }
        }),
{
    let app = s.desk.app;
    let action = action_of(op)->0;
    let t = s.answered(done(action, map)).0;
    let entry = t.desk.app.undo_history[0];
    match op {
        PendingV::Group { sender, emails, .. } => {
            let entry = crate::session::entry_of(
                action,
                UndoContextV::Group { sender },
                emails.map_values(crate::session::landed(map)),
            );
            lemma_pushing_shows_the_same(app, entry);
            lemma_outside(app);
            lemma_same_filter(
                app.emails,
                |e: EmailV| !is_on_screen(app, e.thread_id),
                |e: EmailV| !leaves(app, op, e.thread_id),
            );
        },
        PendingV::Thread { thread_id, .. } => {
            lemma_same_filter(
                app.emails,
                outside_thread(thread_id),
                |e: EmailV| !leaves(app, op, e.thread_id),
            );
        },
        PendingV::Selected { count, emails, .. } => {
            let entry = crate::session::entry_of(
                action,
                UndoContextV::Group { sender: crate::session::selection_name(count) },
                emails.map_values(crate::session::landed(map)),
            );
            lemma_pushing_shows_the_same(app, entry);
            lemma_outside(app);
            lemma_same_filter(
                app.emails,
                |e: EmailV| !is_picked(app, e.thread_id),
                |e: EmailV| !leaves(app, op, e.thread_id),
            );
        },
        _ => {},
    }
}

/// When the server has archived or deleted messages, a message is selected just if it was
/// selected before and is none of those that a selection has moved.
pub proof fn law_moved_messages_are_no_longer_selected(
    s: SessionV,
    op: PendingV,
    map: Map<Seq<char>, u32>,
    id: Seq<char>,
)
    requires
        s.pending == Some(op),
        action_of(op) is Some,
    ensures
        ({
            let app = s.desk.app;
            let t = s.answered(done(action_of(op)->0, map)).0;
            match op {
                PendingV::Selected { .. } => t.desk.app.selected_emails.contains(id)
                    <==> app.selected_emails.contains(id) && !(exists|k: int|
                    0 <= k < app.emails.len() && (#[trigger] app.emails[k]).id == id && is_picked(
                        app,
                        app.emails[k].thread_id,
                    )),
                PendingV::Thread { .. } => t.desk.app.view == View::EmailList && app.view
                    != View::EmailList || t.desk.app.selected_emails == app.selected_emails,
                _ => t.desk.app.selected_emails == app.selected_emails,
            }
        }),
{
    let app = s.desk.app;
    if let PendingV::Selected { count, emails, .. } = op {
        let entry = crate::session::entry_of(
            action_of(op)->0,
            UndoContextV::Group { sender: crate::session::selection_name(count) },
            emails.map_values(crate::session::landed(map)),
        );
        lemma_pushing_shows_the_same(app, entry);
        lemma_meant(app);
        let picked = |e: EmailV| is_picked(app, e.thread_id);
        let gone = app.selected_thread_emails();
        assert(gone == app.emails.filter(picked));
        if exists|k: int|
            0 <= k < app.emails.len() && (#[trigger] app.emails[k]).id == id && is_picked(
                app,
                app.emails[k].thread_id,
            ) {
            let k = choose|k: int|
                0 <= k < app.emails.len() && (#[trigger] app.emails[k]).id == id && is_picked(
                    app,
                    app.emails[k].thread_id,
                );
            assert(app.emails.contains(app.emails[k]));
            lemma_filter_members(app.emails, picked, app.emails[k]);
            assert(gone[gone.index_of(app.emails[k])].id == id);
        }
        if has_id(gone, id) {
            let j = choose|j: int| 0 <= j < gone.len() && (#[trigger] gone[j]).id == id;
            assert(gone.contains(gone[j]));
            lemma_filter_members(app.emails, picked, gone[j]);
            assert(app.emails[app.emails.index_of(gone[j])] == gone[j]);
        }
    }
}

} // verus!
