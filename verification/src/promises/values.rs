//! What values stand for: commands, answers, messages and questions are what they say.
use vstd::prelude::*;
use vstd::view::View as _;

use crate::app::App;
use crate::desk::{Desk, Request, RequestV};
use crate::email::Email;
use crate::grouping::EmailGroup;
use crate::imap_client::{RestoreStep, RestoreStepV};
use crate::imap_worker::{EventV, Orders, Work, WorkV, WorkerEvent};
use crate::session::{
    CommandV, Effect, EffectV, ImapCommand, ImapResponse, PendingOp, PendingV, ResponseV, Session,
};
use crate::ui::widgets::{ConfirmAction, ConfirmV, TextViewState, TextViewV, UiState};
use crate::undo::{UndoContext, UndoContextV, UndoEntry};
use crate::worker::{Fetched, FetchedV};

verus! {

/// Whether an optional text reads as another.
pub open spec fn reads_as(o: Option<String>, t: Option<Seq<char>>) -> bool {
    match (o, t) {
        (Some(a), Some(b)) => a@ == b,
        (None, None) => true,
        _ => false,
    }
}

/// A command to archive is one, with the same messages in the same order, and so is each other
/// command what it says.
pub proof fn law_commands_are_what_they_say(c: ImapCommand, k: int)
    ensures
        match (c, c@) {
            (
                ImapCommand::FetchInbox { parallel_connections: a },
                CommandV::FetchInbox { parallel_connections: b },
            ) => a == b,
            (ImapCommand::ArchiveMultiple(a), CommandV::ArchiveMultiple(b)) => a@.len() == b.len()
                && (0 <= k < b.len() ==> a@[k].0@ == b[k].0 && a@[k].1@ == b[k].1),
            (ImapCommand::DeleteMultiple(a), CommandV::DeleteMultiple(b)) => a@.len() == b.len() && (
            0 <= k < b.len() ==> a@[k].0@ == b[k].0 && a@[k].1@ == b[k].1),
            (ImapCommand::RestoreEmails(a), CommandV::RestoreEmails(b)) => a@.len() == b.len() && (0
                <= k < b.len() ==> reads_as(a@[k].0, b[k].0) && a@[k].1 == b[k].1 && a@[k].2@
                == b[k].2 && a@[k].3@ == b[k].3),
            (
                ImapCommand::FetchBody { uid: a, folder: f },
                CommandV::FetchBody { uid: b, folder: g },
            ) => a@ == b && f@ == g,
            (ImapCommand::Shutdown, CommandV::Shutdown) => true,
            _ => false,
        },
{
}

/// What is left for the outside is what it says: a command to be sent, an address to be
/// opened, leaving, or nothing.
pub proof fn law_effects_are_what_they_say(e: Effect)
    ensures
        match (e, e@) {
            (Effect::Nothing, EffectV::Nothing) => true,
            (Effect::Send(a), EffectV::Send(b)) => a@ == b,
            (Effect::Open(a), EffectV::Open(b)) => a@ == b,
            (Effect::Quit, EffectV::Quit) => true,
            _ => false,
        },
{
}

/// An answer of the server is what it says, with the same messages, the same UIDs, the same
/// text and the same error.
pub proof fn law_answers_are_what_they_say(r: ImapResponse, k: int)
    ensures
        match (r, r@) {
            (ImapResponse::Emails(Ok(a)), ResponseV::Emails(Ok(b))) => a@.len() == b.len() && (0
                <= k < b.len() ==> a@[k]@ == b[k]),
            (ImapResponse::Emails(Err(a)), ResponseV::Emails(Err(b))) => a@ == b,
            (
                ImapResponse::MultiArchiveResult(Ok(a)),
                ResponseV::MultiArchiveResult(Ok(b)),
            ) => a@ == b,
            (
                ImapResponse::MultiArchiveResult(Err(a)),
                ResponseV::MultiArchiveResult(Err(b)),
            ) => a@ == b,
            (
                ImapResponse::MultiDeleteResult(Ok(a)),
                ResponseV::MultiDeleteResult(Ok(b)),
            ) => a@ == b,
            (
                ImapResponse::MultiDeleteResult(Err(a)),
                ResponseV::MultiDeleteResult(Err(b)),
            ) => a@ == b,
            (ImapResponse::RestoreResult(Ok(_)), ResponseV::RestoreResult(Ok(_))) => true,
            (ImapResponse::RestoreResult(Err(a)), ResponseV::RestoreResult(Err(b))) => a@ == b,
            (
                ImapResponse::BodyResult { uid: a, result: Ok(x) },
                ResponseV::BodyResult { uid: b, result: Ok(y) },
            ) => a@ == b && x@ == y,
            (
                ImapResponse::BodyResult { uid: a, result: Err(x) },
                ResponseV::BodyResult { uid: b, result: Err(y) },
            ) => a@ == b && x@ == y,
            (ImapResponse::Progress(a, b, c), ResponseV::Progress(x, y, z)) => a == x && b == y
                && c@ == z,
            (
                ImapResponse::Retrying { attempt: a, max_attempts: b, action: c },
                ResponseV::Retrying { attempt: x, max_attempts: y, action: z },
            ) => a == x && b == y && c@ == z,
            (ImapResponse::Connected, ResponseV::Connected) => true,
            (ImapResponse::Error(a), ResponseV::Error(b)) => a@ == b,
            _ => false,
        },
{
}

/// The work of the connection is what it says: a move archives or deletes, in the folder and
/// with the UIDs that it names, and so on.
pub proof fn law_work_is_what_it_says(w: Work, k: int)
    ensures
        match (w, w@) {
            (Work::Await, WorkV::Await) => true,
            (Work::Count { folder: a }, WorkV::Count { folder: b }) => a@ == b,
            (
                Work::Fetch { inbox: a, sent: b, total: c },
                WorkV::Fetch { inbox: x, sent: y, total: z },
            ) => a@ == x && b@ == y && c == z,
            (
                Work::Move { action: a, folder: b, uids: c },
                WorkV::Move { action: x, folder: y, uids: z },
            ) => a == x && b@ == y && c@.len() == z.len() && (0 <= k < z.len() ==> c@[k]@ == z[k]),
            (Work::Restore(a), WorkV::Restore(b)) => a@.len() == b.len() && (0 <= k < b.len()
                ==> reads_as(a@[k].0, b[k].0) && a@[k].1 == b[k].1 && a@[k].2@ == b[k].2 && a@[k].3@
                == b[k].3),
            (Work::Read { uid: a, folder: b }, WorkV::Read { uid: x, folder: y }) => a@ == x && b@
                == y,
            (Work::Stop, WorkV::Stop) => true,
            _ => false,
        },
{
}

/// What the worker is told is what it says, and what it orders is what it says.
pub proof fn law_events_and_orders_are_what_they_say(event: WorkerEvent, orders: Orders, k: int)
    ensures
        match (event, event@) {
            (WorkerEvent::Command(a), EventV::Command(b)) => a@ == b,
            (WorkerEvent::Counted(Ok(a)), EventV::Counted(Ok(b))) => a == b,
            (WorkerEvent::Counted(Err(a)), EventV::Counted(Err(b))) => a@ == b,
            (WorkerEvent::Fetched(a), EventV::Fetched(b)) => a@.len() == b.len() && (0 <= k < b.len()
                ==> a@[k]@ == b[k]),
            (WorkerEvent::Moved(Ok(a)), EventV::Moved(Ok(b))) => a@ == b,
            (WorkerEvent::Moved(Err(a)), EventV::Moved(Err(b))) => a@ == b,
            (WorkerEvent::Restored(Ok(_)), EventV::Restored(Ok(_))) => true,
            (WorkerEvent::Restored(Err(a)), EventV::Restored(Err(b))) => a@ == b,
            (WorkerEvent::Read(Ok(a)), EventV::Read(Ok(b))) => a@ == b,
            (WorkerEvent::Read(Err(a)), EventV::Read(Err(b))) => a@ == b,
            _ => false,
        },
        orders@.work == orders.work@,
        orders@.responses.len() == orders.responses@.len(),
        0 <= k < orders.responses@.len() ==> orders@.responses[k] == orders.responses@[k]@,
        match (orders.pause, orders@.pause) {
            (Some(a), Some(b)) => a == b,
            (None, None) => true,
            _ => false,
        },
{
}

/// What a connection came to is what it says.
pub proof fn law_catches_are_what_they_say(f: Fetched, k: int)
    ensures
        match (f, f@) {
            (Fetched::Emails(a), FetchedV::Emails(b)) => a@.len() == b.len() && (0 <= k < b.len()
                ==> a@[k]@ == b[k]),
            (Fetched::Failed(a), FetchedV::Failed(b)) => a@ == b,
            (Fetched::Panicked, FetchedV::Panicked) => true,
            _ => false,
        },
{
}

/// A step of putting messages back is what it says.
pub proof fn law_steps_are_what_they_say(step: RestoreStep)
    ensures
        match (step, step@) {
            (RestoreStep::Select { folder: a }, RestoreStepV::Select { folder: b }) => a@ == b,
            (
                RestoreStep::Move { uids: a, folder: b },
                RestoreStepV::Move { uids: x, folder: y },
            ) => a@ == x && b@ == y,
            (
                RestoreStep::Find { message_id: a, folder: b },
                RestoreStepV::Find { message_id: x, folder: y },
            ) => a@ == x && b@ == y,
            _ => false,
        },
{
}

/// A message is told by its parts, and a group by its key and its messages.
pub proof fn law_messages_are_told_by_their_parts(e: Email, g: EmailGroup, k: int)
    ensures
        e@.id == e.id@,
        e@.thread_id == e.thread_id@,
        e@.from == e.from@,
        e@.from_email == e.from_email@,
        e@.from_domain == e.from_domain@,
        e@.subject == e.subject@,
        e@.snippet == e.snippet@,
        e@.date == e.date,
        reads_as(e.message_id, e@.message_id),
        reads_as(e.in_reply_to, e@.in_reply_to),
        e@.references.len() == e.references@.len(),
        0 <= k < e.references@.len() ==> e@.references[k] == e.references@[k]@,
        e@.source_folder == e.source_folder@,
        reads_as(e.body, e@.body),
        g@.key == g.key@,
        g@.emails.len() == g.emails@.len(),
        0 <= k < g.emails@.len() ==> g@.emails[k] == g.emails@[k]@,
{
}

/// An entry of the undo history is told by its parts.
pub proof fn law_entries_are_told_by_their_parts(u: UndoEntry, k: int)
    ensures
        u@.action_type == u.action_type,
        match (u.context, u@.context) {
            (UndoContext::Group { sender: a }, UndoContextV::Group { sender: b }) => a@ == b,
            (UndoContext::Thread { subject: a }, UndoContextV::Thread { subject: b }) => a@ == b,
            _ => false,
        },
        u@.current_folder == u.current_folder@,
        u@.emails.len() == u.emails@.len(),
        0 <= k < u.emails@.len() ==> reads_as(u.emails@[k].0, u@.emails[k].0) && u@.emails[k].1
            == u.emails@[k].1 && u@.emails[k].2 == u.emails@[k].2@,
{
}

/// A question is what it says: about archiving or deleting, and about what.
pub proof fn law_questions_are_what_they_say(c: ConfirmAction)
    ensures
        match (c, c@) {
            (
                ConfirmAction::ArchiveEmails { sender: a, count: m },
                ConfirmV::ArchiveEmails { sender: b, count: n },
            ) => a@ == b && m == n,
            (
                ConfirmAction::DeleteEmails { sender: a, count: m },
                ConfirmV::DeleteEmails { sender: b, count: n },
            ) => a@ == b && m == n,
            (
                ConfirmAction::ArchiveThread { thread_email_count: m },
                ConfirmV::ArchiveThread { thread_email_count: n },
            ) => m == n,
            (
                ConfirmAction::DeleteThread { thread_email_count: m },
                ConfirmV::DeleteThread { thread_email_count: n },
            ) => m == n,
            (
                ConfirmAction::ArchiveSelected { count: m },
                ConfirmV::ArchiveSelected { count: n },
            ) => m == n,
            (
                ConfirmAction::DeleteSelected { count: m },
                ConfirmV::DeleteSelected { count: n },
            ) => m == n,
            (ConfirmAction::Quit, ConfirmV::Quit) => true,
            _ => false,
        },
{
}

/// What a key asks for is what it says.
pub proof fn law_requests_are_what_they_say(r: Request)
    ensures
        match (r, r@) {
            (Request::Nothing, RequestV::Nothing) => true,
            (Request::Quit, RequestV::Quit) => true,
            (Request::Confirmed(a), RequestV::Confirmed(b)) => a@ == b,
            (Request::Act(a), RequestV::Act(b)) => a == b,
            (Request::Undo, RequestV::Undo) => true,
            (Request::Read(a), RequestV::Read(b)) => a@ == b,
            (Request::Browse, RequestV::Browse) => true,
            (Request::Refresh, RequestV::Refresh) => true,
            _ => false,
        },
{
}

/// What the server is at work on is what it says.
pub proof fn law_operations_are_what_they_say(op: PendingOp, k: int)
    ensures
        match (op, op@) {
            (
                PendingOp::Group { action: a, sender: b, emails: c },
                PendingV::Group { action: x, sender: y, emails: z },
            ) => a == x && b@ == y && c@.len() == z.len() && (0 <= k < z.len() ==> c@[k].0@ == z[k].0
                && reads_as(c@[k].1, z[k].1) && c@[k].2@ == z[k].2),
            (
                PendingOp::Thread { action: a, thread_id: t, subject: b, emails: c },
                PendingV::Thread { action: x, thread_id: u, subject: y, emails: z },
            ) => a == x && t@ == u && b@ == y && c@.len() == z.len() && (0 <= k < z.len()
                ==> c@[k].0@ == z[k].0 && reads_as(c@[k].1, z[k].1) && c@[k].2@ == z[k].2),
            (
                PendingOp::Selected { action: a, count: b, emails: c },
                PendingV::Selected { action: x, count: y, emails: z },
            ) => a == x && b == y && c@.len() == z.len() && (0 <= k < z.len() ==> c@[k].0@ == z[k].0
                && reads_as(c@[k].1, z[k].1) && c@[k].2@ == z[k].2),
            (PendingOp::Undo(a), PendingV::Undo(b)) => a == b,
            _ => false,
        },
{
}

/// A session is told by the application, the screen, what is pending, the user and the
/// settings, each as it is.
pub proof fn law_sessions_are_told_by_their_parts(s: Session, ui: UiState, desk: Desk)
    ensures
        s@.desk == s.desk@,
        s@.user_email == s.user_email@,
        s@.settings == s.settings,
        match (s.pending, s@.pending) {
            (Some(a), Some(b)) => a@ == b,
            (None, None) => true,
            _ => false,
        },
        desk@.app == desk.app@,
        desk@.ui == desk.ui@,
        desk@.pending_g == desk.pending_g,
        match (ui.confirm_action, ui@.confirm_action) {
            (Some(a), Some(b)) => a@ == b,
            (None, None) => true,
            _ => false,
        },
        reads_as(ui.status_message, ui@.status_message),
        ui@.busy == ui.busy,
        ui@.showing_help == ui.showing_help,
        ui@.filter_input_active == ui.filter_input_active,
        ui@.filter_query == ui.filter_query@,
        ui@.group_scroll_offset == ui.group_scroll_offset,
        ui@.undo_scroll_offset == ui.undo_scroll_offset,
        ui@.viewport_heights == ui.viewport_heights,
        match (ui.text_view_state, ui@.text_view_state) {
            (TextViewState::Loading, TextViewV::Loading) => true,
            (TextViewState::Loaded(a), TextViewV::Loaded(b)) => a@ == b,
            (TextViewState::Error(a), TextViewV::Error(b)) => a@ == b,
            _ => false,
        },
{
}

/// The application is told by what it shows and by what is selected, each as it is.
pub proof fn law_the_application_is_told_by_its_parts(a: App, k: int)
    ensures
        a@.groups.len() == a.groups@.len(),
        0 <= k < a.groups@.len() ==> a@.groups[k] == a.groups@[k]@,
        a@.group_mode == a.group_mode,
        a@.selected_group == a.selected_group,
        a@.selected_email == a.selected_email,
        a@.selected_thread_email == a.selected_thread_email,
        a@.view == a.view,
        a@.thread_filter == a.thread_filter,
        a@.undo_history.len() == a.undo_history@.len(),
        0 <= k < a.undo_history@.len() ==> a@.undo_history[k] == a.undo_history@[k]@,
        a@.selected_undo == a.selected_undo,
        a@.text_view_scroll == a.text_view_scroll,
{
}

} // verus!
