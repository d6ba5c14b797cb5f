//! A session with a mail server: what is asked of it, and what its answers change.
use vstd::hash_map::StringHashMap;
use vstd::prelude::*;
use vstd::string::StringExecFns;
use vstd::utf8::encode_utf8;
use vstd::view::View as _;

use crate::app::{pairs, triples, App};
use crate::desk::{Desk, DeskV, KeyPress, Request, RequestV, Settings};
use crate::email::{clone_opt, mails, Email, EmailV};
use crate::imap_client::{restore_views, Restore, RestoreV, ALL_MAIL, TRASH};
use crate::modes::View;
use crate::state::{for_undo, ids_and_folders, AppV};
use crate::text::{decimal, decimal_text, opt_text, str_eq};
use crate::ui::widgets::{around, ConfirmAction, ConfirmV, TextViewState, TextViewV, UiV};
use crate::undo::{
    moved_view, moved_views, Moved, MovedV, UndoActionType, UndoContext, UndoContextV, UndoEntry,
    UndoEntryV,
};

verus! {

// ---------------------------------------------------------------------------
// Commands and responses

/// A command to the mail server.
pub enum ImapCommand {
    FetchInbox { parallel_connections: usize },
    /// The UIDs and folders of messages.
    ArchiveMultiple(Vec<(String, String)>),
    /// The UIDs and folders of messages.
    DeleteMultiple(Vec<(String, String)>),
    RestoreEmails(Vec<Restore>),
    FetchBody { uid: String, folder: String },
    Shutdown,
}

/// What an [`ImapCommand`] holds.
#[verifier::ext_equal]
pub enum CommandV {
    FetchInbox { parallel_connections: usize },
    ArchiveMultiple(Seq<(Seq<char>, Seq<char>)>),
    DeleteMultiple(Seq<(Seq<char>, Seq<char>)>),
    RestoreEmails(Seq<RestoreV>),
    FetchBody { uid: Seq<char>, folder: Seq<char> },
    Shutdown,
}

impl vstd::view::View for ImapCommand {
    type V = CommandV;

    open spec fn view(&self) -> CommandV {
        match self {
            ImapCommand::FetchInbox { parallel_connections } => CommandV::FetchInbox {
                parallel_connections: *parallel_connections,
            },
            ImapCommand::ArchiveMultiple(ids) => CommandV::ArchiveMultiple(pairs(ids@)),
            ImapCommand::DeleteMultiple(ids) => CommandV::DeleteMultiple(pairs(ids@)),
            ImapCommand::RestoreEmails(emails) => CommandV::RestoreEmails(restore_views(emails@)),
            ImapCommand::FetchBody { uid, folder } => CommandV::FetchBody {
                uid: uid@,
                folder: folder@,
            },
            ImapCommand::Shutdown => CommandV::Shutdown,
        }
    }
}

/// An answer of the mail server.
pub enum ImapResponse {
    Emails(Result<Vec<Email>, String>),
    /// The UIDs of archived messages in the archive.
    MultiArchiveResult(Result<StringHashMap<u32>, String>),
    /// The UIDs of deleted messages in the trash.
    MultiDeleteResult(Result<StringHashMap<u32>, String>),
    RestoreResult(Result<(), String>),
    BodyResult { uid: String, result: Result<String, String> },
    /// How far the server is with what it does.
    Progress(usize, usize, String),
    Retrying { attempt: u32, max_attempts: u32, action: String },
    Connected,
    Error(String),
}

/// What an [`ImapResponse`] holds.
#[verifier::ext_equal]
pub enum ResponseV {
    Emails(Result<Seq<EmailV>, Seq<char>>),
    MultiArchiveResult(Result<Map<Seq<char>, u32>, Seq<char>>),
    MultiDeleteResult(Result<Map<Seq<char>, u32>, Seq<char>>),
    RestoreResult(Result<(), Seq<char>>),
    BodyResult { uid: Seq<char>, result: Result<Seq<char>, Seq<char>> },
    Progress(usize, usize, Seq<char>),
    Retrying { attempt: u32, max_attempts: u32, action: Seq<char> },
    Connected,
    Error(Seq<char>),
}

/// What the outcome of a move holds.
pub open spec fn move_view(r: Result<StringHashMap<u32>, String>) -> Result<
    Map<Seq<char>, u32>,
    Seq<char>,
> {
    match r {
        Ok(map) => Ok(map@),
        Err(e) => Err(e@),
    }
}

impl vstd::view::View for ImapResponse {
    type V = ResponseV;

    open spec fn view(&self) -> ResponseV {
        match self {
            ImapResponse::Emails(Ok(emails)) => ResponseV::Emails(Ok(mails(emails@))),
            ImapResponse::Emails(Err(e)) => ResponseV::Emails(Err(e@)),
            ImapResponse::MultiArchiveResult(r) => ResponseV::MultiArchiveResult(move_view(*r)),
            ImapResponse::MultiDeleteResult(r) => ResponseV::MultiDeleteResult(move_view(*r)),
            ImapResponse::RestoreResult(Ok(())) => ResponseV::RestoreResult(Ok(())),
            ImapResponse::RestoreResult(Err(e)) => ResponseV::RestoreResult(Err(e@)),
            ImapResponse::BodyResult { uid, result } => ResponseV::BodyResult {
                uid: uid@,
                result: match result {
                    Ok(body) => Ok(body@),
                    Err(e) => Err(e@),
                },
            },
            ImapResponse::Progress(current, total, action) => ResponseV::Progress(
                *current,
                *total,
                action@,
            ),
            ImapResponse::Retrying { attempt, max_attempts, action } => ResponseV::Retrying {
                attempt: *attempt,
                max_attempts: *max_attempts,
                action: action@,
            },
            ImapResponse::Connected => ResponseV::Connected,
            ImapResponse::Error(e) => ResponseV::Error(e@),
        }
    }
}

/// What is left for the outside after an event.
pub enum Effect {
    Nothing,
    Send(ImapCommand),
    /// Open an address in the browser.
    Open(String),
    /// Shut the connection down and leave.
    Quit,
}

/// What an [`Effect`] holds.
#[verifier::ext_equal]
pub enum EffectV {
    Nothing,
    Send(CommandV),
    Open(Seq<char>),
    Quit,
}

impl vstd::view::View for Effect {
    type V = EffectV;

    open spec fn view(&self) -> EffectV {
        match self {
            Effect::Nothing => EffectV::Nothing,
            Effect::Send(command) => EffectV::Send(command@),
            Effect::Open(url) => EffectV::Open(url@),
            Effect::Quit => EffectV::Quit,
        }
    }
}

// ---------------------------------------------------------------------------
// The browser

/// Whether a byte stands for itself in an encoded address.
pub open spec fn is_unreserved(b: u8) -> bool {
    ||| 48 <= b <= 57
    ||| 65 <= b <= 90
    ||| 97 <= b <= 122
    ||| b == 45 || b == 46 || b == 95 || b == 126
}

/// A digit to the base sixteen.
pub open spec fn hex_digit(n: int) -> char {
    if n < 10 {
        ((48 + n) as u8) as char
    } else {
        ((55 + n) as u8) as char
    }
}

/// Bytes with all but letters, digits and `-._~` written as `%` and two digits.
pub open spec fn percent_encoded(bytes: Seq<u8>) -> Seq<char>
    decreases bytes.len(),
{
    if bytes.len() == 0 {
        Seq::empty()
    } else {
        let b = bytes.last();
        percent_encoded(bytes.drop_last()) + if is_unreserved(b) {
            seq![b as char]
        } else {
            seq!['%', hex_digit((b / 16) as int), hex_digit((b % 16) as int)]
        }
    }
}

/// `urlencoding::encode`: every byte of the UTF-8 form but letters, digits and `-._~` is
/// written as `%` and two uppercase hexadecimal digits.
#[verifier::external_body]
fn url_encode(data: &str) -> (r: String)
    ensures
        r@ == percent_encoded(encode_utf8(data@)),
{
    urlencoding::encode(data).into_owned()
}

/// The address at which the web mail of a user shows a message.
pub open spec fn browser_url(message_id: Seq<char>, user_email: Seq<char>) -> Seq<char> {
    "https://mail.google.com/mail/u/"@ + user_email + "/#search/rfc822msgid:"@ + percent_encoded(
        encode_utf8(message_id),
    )
}

/// The address at which the web mail of a user shows a message.
pub fn email_url(message_id: &str, user_email: &str) -> (r: String)
    ensures
        r@ == browser_url(message_id@, user_email@),
{
    "https://mail.google.com/mail/u/".to_owned().concat(user_email).concat(
        "/#search/rfc822msgid:",
    ).concat(url_encode(message_id).as_str())
}

// ---------------------------------------------------------------------------
// Pending operations

/// A message on its way: its UID, its Message-ID and its folder.
pub type Leaving = (String, Option<String>, String);

/// What a [`Leaving`] holds.
pub type LeavingV = (Seq<char>, Option<Seq<char>>, Seq<char>);

/// What the mail server is at work on.
pub enum PendingOp {
    /// All threads of a sender.
    Group { action: UndoActionType, sender: String, emails: Vec<Leaving> },
    /// A thread.
    Thread {
        action: UndoActionType,
        thread_id: String,
        subject: String,
        emails: Vec<Leaving>,
    },
    /// The selected threads.
    Selected { action: UndoActionType, count: usize, emails: Vec<Leaving> },
    /// Undoing an action.
    Undo(usize),
}

/// What a [`PendingOp`] holds.
#[verifier::ext_equal]
pub enum PendingV {
    Group { action: UndoActionType, sender: Seq<char>, emails: Seq<LeavingV> },
    Thread {
        action: UndoActionType,
        thread_id: Seq<char>,
        subject: Seq<char>,
        emails: Seq<LeavingV>,
    },
    Selected { action: UndoActionType, count: usize, emails: Seq<LeavingV> },
    Undo(usize),
}

impl vstd::view::View for PendingOp {
    type V = PendingV;

    open spec fn view(&self) -> PendingV {
        match self {
            PendingOp::Group { action, sender, emails } => PendingV::Group {
                action: *action,
                sender: sender@,
                emails: triples(emails@),
            },
            PendingOp::Thread { action, thread_id, subject, emails } => PendingV::Thread {
                action: *action,
                thread_id: thread_id@,
                subject: subject@,
                emails: triples(emails@),
            },
            PendingOp::Selected { action, count, emails } => PendingV::Selected {
                action: *action,
                count: *count,
                emails: triples(emails@),
            },
            PendingOp::Undo(index) => PendingV::Undo(*index),
        }
    }
}

/// What an optional pending operation holds.
pub open spec fn opt_pending(o: Option<PendingOp>) -> Option<PendingV> {
    match o {
        Some(op) => Some(op@),
        None => None,
    }
}

/// The folder that an action moves messages to.
pub open spec fn folder_of(action: UndoActionType) -> Seq<char> {
    match action {
        UndoActionType::Archive => ALL_MAIL@,
        UndoActionType::Delete => TRASH@,
    }
}

/// The folder that an action moves messages to.
pub fn destination(action: UndoActionType) -> (r: &'static str)
    ensures
        r@ == folder_of(action),
{
    match action {
        UndoActionType::Archive => ALL_MAIL,
        UndoActionType::Delete => TRASH,
    }
}

/// What an action is called while it goes on.
pub open spec fn verb_of(action: UndoActionType) -> Seq<char> {
    match action {
        UndoActionType::Archive => "Archiving "@,
        UndoActionType::Delete => "Deleting "@,
    }
}

fn verb(action: UndoActionType) -> (r: &'static str)
    ensures
        r@ == verb_of(action),
{
    match action {
        UndoActionType::Archive => "Archiving ",
        UndoActionType::Delete => "Deleting ",
    }
}

/// What a message that has left is remembered as, given where messages went.
pub open spec fn landed(map: Map<Seq<char>, u32>) -> spec_fn(LeavingV) -> MovedV {
    |e: LeavingV| (e.1, if map.contains_key(e.0) { Some(map[e.0]) } else { None }, e.2)
}

/// The command that moves messages.
pub open spec fn move_of(
    action: UndoActionType,
    ids: Seq<(Seq<char>, Seq<char>)>,
) -> CommandV {
    match action {
        UndoActionType::Archive => CommandV::ArchiveMultiple(ids),
        UndoActionType::Delete => CommandV::DeleteMultiple(ids),
    }
}

/// An undo entry for messages that an action moved.
pub open spec fn entry_of(
    action: UndoActionType,
    context: UndoContextV,
    emails: Seq<MovedV>,
) -> UndoEntryV {
    UndoEntryV { action_type: action, context, emails, current_folder: folder_of(action) }
}

/// What a selection is remembered as.
pub open spec fn selection_name(count: usize) -> Seq<char> {
    decimal(count as nat) + " selected"@
}

/// How far an action has come.
pub open spec fn progress_text(current: usize, total: usize, action: Seq<char>) -> Seq<char> {
    action + " "@ + decimal(current as nat) + " of "@ + decimal(total as nat) + "..."@
}

/// How often an action was tried.
pub open spec fn retry_text(attempt: u32, max_attempts: u32, action: Seq<char>) -> Seq<char> {
    "Retrying "@ + action + " ("@ + decimal(attempt as nat) + "/"@ + decimal(max_attempts as nat)
        + ")..."@
}

/// The messages that undoing an action puts back.
pub open spec fn restores(entry: UndoEntryV) -> Seq<RestoreV> {
    entry.emails.map_values(|m: MovedV| (m.0, m.1, entry.current_folder, m.2))
}

// ---------------------------------------------------------------------------
// The session

/// A session.
pub struct Session {
    pub desk: Desk,
    pub pending: Option<PendingOp>,
    pub user_email: String,
    pub settings: Settings,
}

/// What a [`Session`] holds.
#[verifier::ext_equal]
pub struct SessionV {
    pub desk: DeskV,
    pub pending: Option<PendingV>,
    pub user_email: Seq<char>,
    pub settings: Settings,
}

impl vstd::view::View for Session {
    type V = SessionV;

    open spec fn view(&self) -> SessionV {
        SessionV {
            desk: self.desk@,
            pending: opt_pending(self.pending),
            user_email: self.user_email@,
            settings: self.settings,
        }
    }
}

impl SessionV {
    /// The state with another state of the screen.
    pub open spec fn with_ui(self, ui: UiV) -> SessionV {
        SessionV { desk: DeskV { ui, ..self.desk }, ..self }
    }

    /// The state with another state of the application.
    pub open spec fn with_app(self, app: AppV) -> SessionV {
        SessionV { desk: DeskV { app, ..self.desk }, ..self }
    }

    /// The session at the start: the server is connected to.
    pub open spec fn started(name: Seq<char>, user_email: Seq<char>, settings: Settings) -> SessionV {
        SessionV {
            desk: DeskV {
                app: AppV { user_email: Some(user_email), ..AppV::initial() },
                ui: UiV::initial().working("Connecting to "@ + name + "..."@),
                pending_g: false,
            },
            pending: None,
            user_email,
            settings,
        }
    }

    /// The command that loads the messages.
    pub open spec fn fetch(self) -> EffectV {
        EffectV::Send(
            CommandV::FetchInbox { parallel_connections: self.settings.parallel_connections },
        )
    }

    /// Setting the server to work on moving messages.
    pub open spec fn set_to_work(
        self,
        op: PendingV,
        message: Seq<char>,
        action: UndoActionType,
        emails: Seq<EmailV>,
    ) -> (SessionV, EffectV) {
        (
            SessionV { pending: Some(op), ..self.with_ui(self.desk.ui.working(message)) },
            EffectV::Send(move_of(action, ids_and_folders(emails))),
        )
    }

    /// Archiving or deleting the selected thread.
    pub open spec fn thread_moving(self, action: UndoActionType) -> (SessionV, EffectV) {
        let app = self.desk.app;
        let emails = app.thread_emails();
        if emails.len() > 0 && app.current_email() is Some {
            let e = app.current_email()->0;
            self.set_to_work(
                PendingV::Thread {
                    action,
                    thread_id: e.thread_id,
                    subject: e.subject,
                    emails: for_undo(emails),
                },
                verb_of(action) + "thread ("@ + decimal(emails.len()) + " emails)..."@,
                action,
                emails,
            )
        } else {
            (self, EffectV::Nothing)
        }
    }

    /// Archiving or deleting all threads of a sender.
    pub open spec fn group_moving(self, action: UndoActionType, sender: Seq<char>) -> (
        SessionV,
        EffectV,
    ) {
        let emails = self.desk.app.group_thread_emails();
        if emails.len() > 0 {
            self.set_to_work(
                PendingV::Group { action, sender, emails: for_undo(emails) },
                verb_of(action) + decimal(emails.len()) + " emails..."@,
                action,
                emails,
            )
        } else {
            (self, EffectV::Nothing)
        }
    }

    /// Archiving or deleting the selected threads.
    pub open spec fn selection_moving(self, action: UndoActionType, count: usize) -> (
        SessionV,
        EffectV,
    ) {
        let emails = self.desk.app.selected_thread_emails();
        if emails.len() > 0 {
            self.set_to_work(
                PendingV::Selected { action, count, emails: for_undo(emails) },
                verb_of(action) + decimal(emails.len()) + " emails..."@,
                action,
                emails,
            )
        } else {
            (self, EffectV::Nothing)
        }
    }

    /// Doing what was confirmed.
    pub open spec fn confirmed(self, action: ConfirmV) -> (SessionV, EffectV) {
        match action {
            ConfirmV::ArchiveEmails { sender, .. } => self.group_moving(
                UndoActionType::Archive,
                sender,
            ),
            ConfirmV::DeleteEmails { sender, .. } => self.group_moving(
                UndoActionType::Delete,
                sender,
            ),
            ConfirmV::ArchiveThread { .. } => self.thread_moving(UndoActionType::Archive),
            ConfirmV::DeleteThread { .. } => self.thread_moving(UndoActionType::Delete),
            ConfirmV::ArchiveSelected { count } => self.selection_moving(
                UndoActionType::Archive,
                count,
            ),
            ConfirmV::DeleteSelected { count } => self.selection_moving(
                UndoActionType::Delete,
                count,
            ),
            ConfirmV::Quit => (self, EffectV::Quit),
        }
    }

    /// Undoing the selected action.
    pub open spec fn undoing(self) -> (SessionV, EffectV) {
        let app = self.desk.app;
        if app.selected_undo < app.undo_history.len() {
            let items = restores(app.undo_history[app.selected_undo as int]);
            if items.len() > 0 {
                (
                    SessionV {
                        pending: Some(PendingV::Undo(app.selected_undo)),
                        ..self.with_ui(
                            self.desk.ui.working(
                                "Restoring "@ + decimal(items.len()) + " email(s)..."@,
                            ),
                        )
                    },
                    EffectV::Send(CommandV::RestoreEmails(items)),
                )
            } else {
                (self, EffectV::Nothing)
            }
        } else {
            (self, EffectV::Nothing)
        }
    }

    /// Showing the body of a message: the one at hand, or the one that is fetched.
    pub open spec fn reading(self, email: EmailV) -> (SessionV, EffectV) {
        if email.body is Some {
            match self.desk.app.viewing_email() {
                Some(EmailV { body: Some(body), .. }) => (
                    self.with_ui(
                        UiV { text_view_state: TextViewV::Loaded(body), ..self.desk.ui },
                    ),
                    EffectV::Nothing,
                ),
                _ => (self, EffectV::Nothing),
            }
        } else {
            (
                self.with_ui(UiV { text_view_state: TextViewV::Loading, ..self.desk.ui }),
                EffectV::Send(
                    CommandV::FetchBody { uid: email.id, folder: email.source_folder },
                ),
            )
        }
    }

    /// The message that is opened in the browser.
    pub open spec fn to_browse(self) -> Option<EmailV> {
        match self.desk.app.view {
            View::Thread => self.desk.app.current_thread_email(),
            View::EmailList => self.desk.app.current_email(),
            View::EmailBody => self.desk.app.viewing_email(),
            _ => None,
        }
    }

    /// Opening the current message in the browser.
    pub open spec fn browsing(self) -> (SessionV, EffectV) {
        match self.to_browse() {
            Some(e) => match e.message_id {
                Some(id) => (self, EffectV::Open(browser_url(id, self.user_email))),
                None => (
                    self.with_ui(self.desk.ui.saying("Email has no Message-ID"@)),
                    EffectV::Nothing,
                ),
            },
            None => (self, EffectV::Nothing),
        }
    }

    /// Doing what a key asks for.
    pub open spec fn requested(self, request: RequestV) -> (SessionV, EffectV) {
        match request {
            RequestV::Nothing => (self, EffectV::Nothing),
            RequestV::Quit => (self, EffectV::Quit),
            RequestV::Confirmed(action) => self.confirmed(action),
            RequestV::Act(action) => self.thread_moving(action),
            RequestV::Undo => self.undoing(),
            RequestV::Read(email) => self.reading(email),
            RequestV::Browse => self.browsing(),
            RequestV::Refresh => (
                self.with_ui(self.desk.ui.working("Refreshing..."@)),
                self.fetch(),
            ),
        }
    }

    /// A key. While the server is at work, keys do nothing.
    pub open spec fn pressed(self, p: KeyPress) -> (SessionV, EffectV) {
        if self.desk.ui.busy {
            (self, EffectV::Nothing)
        } else {
            let (desk, request) = self.desk.pressed(p, self.settings);
            SessionV { desk, ..self }.requested(request)
        }
    }

    /// What a finished move changes.
    pub open spec fn finished(app: AppV, op: PendingV, map: Map<Seq<char>, u32>) -> AppV {
        match op {
            PendingV::Group { action, sender, emails } => app.undo_pushed(
                entry_of(
                    action,
                    UndoContextV::Group { sender },
                    emails.map_values(landed(map)),
                ),
            ).without_group_threads(),
            PendingV::Thread { action, thread_id, subject, emails } => {
                let after = app.undo_pushed(
                    entry_of(
                        action,
                        UndoContextV::Thread { subject },
                        emails.map_values(landed(map)),
                    ),
                ).without_thread(thread_id);
                if after.view == View::Thread {
                    after.exited()
                } else {
                    after
                }
            },
            PendingV::Selected { action, count, emails } => app.undo_pushed(
                entry_of(
                    action,
                    UndoContextV::Group { sender: selection_name(count) },
                    emails.map_values(landed(map)),
                ),
            ).without_selected_threads(),
            PendingV::Undo(_) => app,
        }
    }

    /// Whether an operation is a move of a kind.
    pub open spec fn is_move(op: PendingV, kind: UndoActionType) -> bool {
        match op {
            PendingV::Group { action, .. } => action == kind,
            PendingV::Thread { action, .. } => action == kind,
            PendingV::Selected { action, .. } => action == kind,
            PendingV::Undo(_) => false,
        }
    }

    /// The outcome of a move. Only a move that is waited for, and that went well, changes
    /// anything.
    pub open spec fn moved(
        self,
        kind: UndoActionType,
        result: Result<Map<Seq<char>, u32>, Seq<char>>,
    ) -> SessionV {
        let s = SessionV { pending: None, ..self.with_ui(self.desk.ui.idle()) };
        match (self.pending, result) {
            (Some(op), Ok(map)) => if SessionV::is_move(op, kind) {
                s.with_app(SessionV::finished(self.desk.app, op, map))
            } else {
                s
            },
            _ => s,
        }
    }

    /// The outcome of undoing an action.
    pub open spec fn restored(self, result: Result<(), Seq<char>>) -> (SessionV, EffectV) {
        let s = SessionV { pending: None, ..self };
        match self.pending {
            Some(PendingV::Undo(index)) => match result {
                Ok(()) => (
                    s.with_app(self.desk.app.undo_popped(index)).with_ui(
                        self.desk.ui.working("Refreshing..."@),
                    ),
                    self.fetch(),
                ),
                Err(e) => (
                    s.with_ui(self.desk.ui.idle().saying("Undo failed: "@ + e)),
                    EffectV::Nothing,
                ),
            },
            _ => (s.with_ui(self.desk.ui.idle()), EffectV::Nothing),
        }
    }

    /// A body that was fetched: it is kept and shown if the message is still on screen.
    pub open spec fn body_fetched(
        self,
        uid: Seq<char>,
        result: Result<Seq<char>, Seq<char>>,
    ) -> SessionV {
        if self.desk.app.viewing_email_id == Some(uid) {
            match result {
                Ok(body) => self.with_app(self.desk.app.with_body(uid, body)).with_ui(
                    UiV { text_view_state: TextViewV::Loaded(body), ..self.desk.ui },
                ),
                Err(e) => self.with_ui(
                    UiV { text_view_state: TextViewV::Error(e), ..self.desk.ui },
                ),
            }
        } else {
            self
        }
    }

    /// The messages that were fetched.
    pub open spec fn fetched(self, result: Result<Seq<EmailV>, Seq<char>>) -> SessionV {
        match result {
            Ok(emails) => self.with_app(self.desk.app.loaded(emails)).with_ui(self.desk.ui.idle()),
            Err(e) => self.with_ui(self.desk.ui.idle().saying("Error: "@ + e)),
        }
    }

    /// An answer of the mail server.
    pub open spec fn answered(self, response: ResponseV) -> (SessionV, EffectV) {
        match response {
            ResponseV::Emails(result) => (self.fetched(result), EffectV::Nothing),
            ResponseV::MultiArchiveResult(result) => (
                self.moved(UndoActionType::Archive, result),
                EffectV::Nothing,
            ),
            ResponseV::MultiDeleteResult(result) => (
                self.moved(UndoActionType::Delete, result),
                EffectV::Nothing,
            ),
            ResponseV::RestoreResult(result) => self.restored(result),
            ResponseV::BodyResult { uid, result } => (
                self.body_fetched(uid, result),
                EffectV::Nothing,
            ),
            ResponseV::Progress(current, total, action) => (
                self.with_ui(self.desk.ui.saying(progress_text(current, total, action))),
                EffectV::Nothing,
            ),
            ResponseV::Retrying { attempt, max_attempts, action } => (
                self.with_ui(self.desk.ui.saying(retry_text(attempt, max_attempts, action))),
                EffectV::Nothing,
            ),
            ResponseV::Connected => (self, EffectV::Nothing),
            ResponseV::Error(_) => (self, EffectV::Nothing),
        }
    }
}

/// What messages that have left are remembered as.
fn land(emails: &Vec<Leaving>, map: &StringHashMap<u32>) -> (r: Vec<Moved>)
    ensures
        moved_views(r@) == triples(emails@).map_values(landed(map@)),
{
    let ghost all = triples(emails@);
    let mut r: Vec<Moved> = Vec::new();
    let mut i: usize = 0;
    while i < emails.len()
        invariant
            i <= emails@.len(),
            all == triples(emails@),
            r@.len() == i,
            forall|k: int| 0 <= k < i ==> moved_view(#[trigger] r@[k]) == landed(map@)(all[k]),
        decreases emails@.len() - i,
    {
        let dest: Option<u32> = match map.get(emails[i].0.as_str()) {
            Some(uid) => Some(*uid),
            None => None,
        };
        let moved: Moved = (clone_opt(&emails[i].1), dest, emails[i].2.clone());
        assert(all[i as int] == (emails@[i as int].0@, opt_text(emails@[i as int].1),
            emails@[i as int].2@));
        assert(moved_view(moved) == landed(map@)(all[i as int]));
        r.push(moved);
        i += 1;
    }
    assert(moved_views(r@) =~= all.map_values(landed(map@)));
    r
}

/// The messages that undoing an action puts back.
fn list_restores(entry: &UndoEntry) -> (r: Vec<Restore>)
    ensures
        restore_views(r@) == restores(entry@),
{
    let mut r: Vec<Restore> = Vec::new();
    let mut i: usize = 0;
    while i < entry.emails.len()
        invariant
            i <= entry.emails@.len(),
            r@.len() == i,
            forall|k: int|
                0 <= k < i ==> ({
                    let m = #[trigger] r@[k];
                    (opt_text(m.0), m.1, m.2@, m.3@) == restores(entry@)[k]
                }),
        decreases entry.emails@.len() - i,
    {
        assert(entry@.emails[i as int] == moved_view(entry.emails@[i as int]));
        r.push(
            (
                clone_opt(&entry.emails[i].0),
                entry.emails[i].1,
                entry.current_folder.clone(),
                entry.emails[i].2.clone(),
            ),
        );
        i += 1;
    }
    assert(restore_views(r@) =~= restores(entry@));
    r
}

/// Changes the application after a move that went well.
fn finish(app: &mut App, op: PendingOp, map: &StringHashMap<u32>)
    ensures
        final(app)@ == SessionV::finished(old(app)@, op@, map@),
{
    match op {
        PendingOp::Group { action, sender, emails } => {
            app.push_undo(
                UndoEntry {
                    action_type: action,
                    context: UndoContext::Group { sender },
                    emails: land(&emails, map),
                    current_folder: destination(action).to_owned(),
                },
            );
            app.remove_current_group_threads();
        },
        PendingOp::Thread { action, thread_id, subject, emails } => {
            app.push_undo(
                UndoEntry {
                    action_type: action,
                    context: UndoContext::Thread { subject },
                    emails: land(&emails, map),
                    current_folder: destination(action).to_owned(),
                },
            );
            app.remove_thread(thread_id.as_str());
            if app.view == View::Thread {
                app.exit();
            }
        },
        PendingOp::Selected { action, count, emails } => {
            app.push_undo(
                UndoEntry {
                    action_type: action,
                    context: UndoContext::Group {
                        sender: decimal_text(count as u64).concat(" selected"),
                    },
                    emails: land(&emails, map),
                    current_folder: destination(action).to_owned(),
                },
            );
            app.remove_selected_threads();
        },
        PendingOp::Undo(_) => {},
    }
}

fn is_move(op: &PendingOp, kind: UndoActionType) -> (r: bool)
    ensures
        r == SessionV::is_move(op@, kind),
{
    match op {
        PendingOp::Group { action, .. } => *action == kind,
        PendingOp::Thread { action, .. } => *action == kind,
        PendingOp::Selected { action, .. } => *action == kind,
        PendingOp::Undo(_) => false,
    }
}

/// What waiting for the connection has come to.
#[derive(Debug, PartialEq)]
pub enum Connection {
    Waiting,
    Ready,
    Failed(String),
}

impl Session {
    /// A session that is connecting to the mail server.
    pub fn start(account_name: &str, user_email: &str, settings: Settings) -> (r: Self)
        ensures
            r@ == SessionV::started(account_name@, user_email@, settings),
    {
        let mut desk: Desk = Desk::new();
        desk.app.set_user_email(user_email.to_owned());
        let message: String = "Connecting to ".to_owned().concat(account_name).concat("...");
        desk.ui.set_busy(message.as_str());
        Session { desk, pending: None, user_email: user_email.to_owned(), settings }
    }

    /// An answer while the session is connecting. Once connected, the messages are loaded.
    pub fn connect(&mut self, response: &ImapResponse) -> (r: (Connection, Effect))
        ensures
            match response@ {
                ResponseV::Connected => {
                    &&& r.0 is Ready
                    &&& r.1@ == old(self)@.fetch()
                    &&& final(self)@ == old(self)@.with_ui(
                        old(self)@.desk.ui.working("Loading emails..."@),
                    )
                },
                ResponseV::Error(e) => {
                    &&& r.0 matches Connection::Failed(message) && message@ == e
                    &&& r.1@ == EffectV::Nothing
                    &&& final(self)@ == old(self)@
                },
                _ => {
                    &&& r.0 is Waiting
                    &&& r.1@ == EffectV::Nothing
                    &&& final(self)@ == old(self)@
                },
            },
    {
        match response {
            ImapResponse::Connected => {
                self.desk.ui.set_busy("Loading emails...");
                (Connection::Ready, self.fetch())
            },
            ImapResponse::Error(e) => (Connection::Failed(e.clone()), Effect::Nothing),
            _ => (Connection::Waiting, Effect::Nothing),
        }
    }

    fn fetch(&self) -> (r: Effect)
        ensures
            r@ == self@.fetch(),
    {
        Effect::Send(
            ImapCommand::FetchInbox { parallel_connections: self.settings.parallel_connections },
        )
    }

    fn send_move(action: UndoActionType, ids: Vec<(String, String)>) -> (r: Effect)
        ensures
            r@ == EffectV::Send(move_of(action, pairs(ids@))),
    {
        match action {
            UndoActionType::Archive => Effect::Send(ImapCommand::ArchiveMultiple(ids)),
            UndoActionType::Delete => Effect::Send(ImapCommand::DeleteMultiple(ids)),
        }
    }

    fn move_thread(&mut self, action: UndoActionType) -> (r: Effect)
        ensures
            (final(self)@, r@) == old(self)@.thread_moving(action),
    {
        let ids: Vec<(String, String)> = self.desk.app.current_thread_email_ids();
        let emails: Vec<Leaving> = self.desk.app.current_thread_emails_for_undo();
        assert(pairs(ids@).len() == ids@.len());
        let current: Option<(String, String)> = match self.desk.app.current_email() {
            Some(email) => Some((email.thread_id.clone(), email.subject.clone())),
            None => None,
        };
        match current {
            Some((thread_id, subject)) => {
                if ids.len() == 0 {
                    return Effect::Nothing;
                }
                let message: String = verb(action).to_owned().concat("thread (").concat(
                    decimal_text(ids.len() as u64).as_str(),
                ).concat(" emails)...");
                self.desk.ui.set_busy(message.as_str());
                self.pending = Some(PendingOp::Thread { action, thread_id, subject, emails });
                Session::send_move(action, ids)
            },
            None => Effect::Nothing,
        }
    }

    fn move_group(&mut self, action: UndoActionType, sender: String) -> (r: Effect)
        ensures
            (final(self)@, r@) == old(self)@.group_moving(action, sender@),
    {
        let ids: Vec<(String, String)> = self.desk.app.current_group_thread_email_ids();
        let emails: Vec<Leaving> = self.desk.app.current_group_thread_emails_for_undo();
        assert(pairs(ids@).len() == ids@.len());
        if ids.len() == 0 {
            return Effect::Nothing;
        }
        let message: String = around(verb(action), ids.len(), " emails...");
        self.desk.ui.set_busy(message.as_str());
        self.pending = Some(PendingOp::Group { action, sender, emails });
        Session::send_move(action, ids)
    }

    fn move_selected(&mut self, action: UndoActionType, count: usize) -> (r: Effect)
        ensures
            (final(self)@, r@) == old(self)@.selection_moving(action, count),
    {
        let ids: Vec<(String, String)> = self.desk.app.selected_thread_email_ids();
        let emails: Vec<Leaving> = self.desk.app.selected_thread_emails_for_undo();
        assert(pairs(ids@).len() == ids@.len());
        if ids.len() == 0 {
            return Effect::Nothing;
        }
        let message: String = around(verb(action), ids.len(), " emails...");
        self.desk.ui.set_busy(message.as_str());
        self.pending = Some(PendingOp::Selected { action, count, emails });
        Session::send_move(action, ids)
    }

    /// Does what was confirmed.
    pub fn handle_confirmed_action(&mut self, action: ConfirmAction) -> (r: Effect)
        requires
            !(action is Quit),
        ensures
            (final(self)@, r@) == old(self)@.confirmed(action@),
    {
        match action {
            ConfirmAction::ArchiveEmails { sender, .. } => self.move_group(
                UndoActionType::Archive,
                sender,
            ),
            ConfirmAction::DeleteEmails { sender, .. } => self.move_group(
                UndoActionType::Delete,
                sender,
            ),
            ConfirmAction::ArchiveThread { .. } => self.move_thread(UndoActionType::Archive),
            ConfirmAction::DeleteThread { .. } => self.move_thread(UndoActionType::Delete),
            ConfirmAction::ArchiveSelected { count } => self.move_selected(
                UndoActionType::Archive,
                count,
            ),
            ConfirmAction::DeleteSelected { count } => self.move_selected(
                UndoActionType::Delete,
                count,
            ),
            ConfirmAction::Quit => Effect::Quit,
        }
    }

    fn undo(&mut self) -> (r: Effect)
        ensures
            (final(self)@, r@) == old(self)@.undoing(),
    {
        let items: Vec<Restore> = match self.desk.app.current_undo_entry() {
            Some(entry) => list_restores(entry),
            None => {
                return Effect::Nothing;
            },
        };
        assert(restore_views(items@).len() == items@.len());
        if items.len() == 0 {
            return Effect::Nothing;
        }
        let message: String = around("Restoring ", items.len(), " email(s)...");
        self.desk.ui.set_busy(message.as_str());
        self.pending = Some(PendingOp::Undo(self.desk.app.selected_undo));
        Effect::Send(ImapCommand::RestoreEmails(items))
    }

    fn read(&mut self, email: Email) -> (r: Effect)
        ensures
            (final(self)@, r@) == old(self)@.reading(email@),
    {
        if email.body.is_some() {
            let body: Option<String> = match self.desk.app.viewing_email() {
                Some(viewed) => clone_opt(&viewed.body),
                None => None,
            };
            if let Some(body) = body {
                self.desk.ui.text_view_state = TextViewState::Loaded(body);
            }
            Effect::Nothing
        } else {
            self.desk.ui.text_view_state = TextViewState::Loading;
            Effect::Send(ImapCommand::FetchBody { uid: email.id, folder: email.source_folder })
        }
    }

    fn browse(&mut self) -> (r: Effect)
        ensures
            (final(self)@, r@) == old(self)@.browsing(),
    {
        let found: Option<Option<String>> = match self.desk.app.view {
            View::Thread => match self.desk.app.current_thread_email() {
                Some(email) => Some(clone_opt(&email.message_id)),
                None => None,
            },
            View::EmailList => match self.desk.app.current_email() {
                Some(email) => Some(clone_opt(&email.message_id)),
                None => None,
            },
            View::EmailBody => match self.desk.app.viewing_email() {
                Some(email) => Some(clone_opt(&email.message_id)),
                None => None,
            },
            _ => None,
        };
        match found {
            Some(Some(id)) => Effect::Open(email_url(id.as_str(), self.user_email.as_str())),
            Some(None) => {
                self.desk.ui.set_status("Email has no Message-ID");
                Effect::Nothing
            },
            None => Effect::Nothing,
        }
    }

    fn do_request(&mut self, request: Request) -> (r: Effect)
        ensures
            (final(self)@, r@) == old(self)@.requested(request@),
    {
        match request {
            Request::Nothing => Effect::Nothing,
            Request::Quit => Effect::Quit,
            Request::Confirmed(action) => match action {
                ConfirmAction::Quit => Effect::Quit,
                other => self.handle_confirmed_action(other),
            },
            Request::Act(action) => self.move_thread(action),
            Request::Undo => self.undo(),
            Request::Read(email) => self.read(email),
            Request::Browse => self.browse(),
            Request::Refresh => {
                self.desk.ui.set_busy("Refreshing...");
                self.fetch()
            },
        }
    }

    /// Takes a key.
    pub fn handle_key(&mut self, p: KeyPress) -> (r: Effect)
        ensures
            (final(self)@, r@) == old(self)@.pressed(p),
    {
        if self.desk.ui.is_busy() {
            return Effect::Nothing;
        }
        let settings: Settings = self.settings;
        let request: Request = self.desk.press(p, &settings);
        self.do_request(request)
    }

    /// Says that the browser could not be opened.
    pub fn browser_failed(&mut self, error: &str)
        ensures
            final(self)@ == old(self)@.with_ui(
                old(self)@.desk.ui.saying("Failed to open browser: "@ + error@),
            ),
    {
        let message: String = "Failed to open browser: ".to_owned().concat(error);
        self.desk.ui.set_status(message.as_str());
    }

    fn finish_move(&mut self, kind: UndoActionType, result: Result<StringHashMap<u32>, String>)
        ensures
            final(self)@ == old(self)@.moved(kind, move_view(result)),
    {
        if let Some(op) = self.pending.take() {
            if let Ok(map) = result {
                if is_move(&op, kind) {
                    finish(&mut self.desk.app, op, &map);
                }
            }
        }
        self.desk.ui.clear_busy();
    }

    fn finish_undo(&mut self, result: Result<(), String>) -> (r: Effect)
        ensures
            (final(self)@, r@) == old(self)@.restored(
                match result {
                    Ok(()) => Ok(()),
                    Err(e) => Err(e@),
                },
            ),
    {
        match self.pending.take() {
            Some(PendingOp::Undo(index)) => match result {
                Ok(()) => {
                    let _ = self.desk.app.pop_undo(index);
                    self.desk.ui.set_busy("Refreshing...");
                    self.fetch()
                },
                Err(e) => {
                    self.desk.ui.clear_busy();
                    let message: String = "Undo failed: ".to_owned().concat(e.as_str());
                    self.desk.ui.set_status(message.as_str());
                    Effect::Nothing
                },
            },
            _ => {
                self.desk.ui.clear_busy();
                Effect::Nothing
            },
        }
    }

    fn show_body(&mut self, uid: String, result: Result<String, String>)
        ensures
            final(self)@ == old(self)@.body_fetched(
                uid@,
                match result {
                    Ok(body) => Ok(body@),
                    Err(e) => Err(e@),
                },
            ),
    {
        let on_screen: bool = match &self.desk.app.viewing_email_id {
            Some(id) => str_eq(id.as_str(), uid.as_str()),
            None => false,
        };
        if on_screen {
            match result {
                Ok(body) => {
                    self.desk.app.set_email_body(uid.as_str(), body.clone());
                    self.desk.ui.text_view_state = TextViewState::Loaded(body);
                },
                Err(e) => {
                    self.desk.ui.text_view_state = TextViewState::Error(e);
                },
            }
        }
    }

    fn finish_fetch(&mut self, result: Result<Vec<Email>, String>)
        ensures
            final(self)@ == old(self)@.fetched(
                match result {
                    Ok(emails) => Ok(mails(emails@)),
                    Err(e) => Err(e@),
                },
            ),
    {
        match result {
            Ok(emails) => {
                self.desk.app.set_emails(emails);
                self.desk.ui.clear_busy();
            },
            Err(e) => {
                self.desk.ui.clear_busy();
                let message: String = "Error: ".to_owned().concat(e.as_str());
                self.desk.ui.set_status(message.as_str());
            },
        }
    }

    fn show_progress(&mut self, current: usize, total: usize, action: String)
        ensures
            final(self)@ == old(self)@.with_ui(
                old(self)@.desk.ui.saying(progress_text(current, total, action@)),
            ),
    {
        let message: String = action.concat(" ").concat(
            decimal_text(current as u64).as_str(),
        ).concat(" of ").concat(decimal_text(total as u64).as_str()).concat("...");
        self.desk.ui.update_busy_message(message.as_str());
    }

    fn show_retry(&mut self, attempt: u32, max_attempts: u32, action: String)
        ensures
            final(self)@ == old(self)@.with_ui(
                old(self)@.desk.ui.saying(retry_text(attempt, max_attempts, action@)),
            ),
    {
        let message: String = "Retrying ".to_owned().concat(action.as_str()).concat(" (").concat(
            decimal_text(attempt as u64).as_str(),
        ).concat("/").concat(decimal_text(max_attempts as u64).as_str()).concat(")...");
        self.desk.ui.update_busy_message(message.as_str());
    }

    /// Takes the outcome of a fetch, a move or an undoing.
    fn take_outcome(&mut self, response: ImapResponse) -> (r: Effect)
        requires
            response is Emails || response is MultiArchiveResult || response is MultiDeleteResult
                || response is RestoreResult,
        ensures
            (final(self)@, r@) == old(self)@.answered(response@),
    {
        match response {
            ImapResponse::Emails(result) => self.finish_fetch(result),
            ImapResponse::MultiArchiveResult(result) => {
                self.finish_move(UndoActionType::Archive, result)
            },
            ImapResponse::MultiDeleteResult(result) => {
                self.finish_move(UndoActionType::Delete, result)
            },
            ImapResponse::RestoreResult(result) => {
                return self.finish_undo(result);
            },
            _ => {},
        }
        Effect::Nothing
    }

    /// Takes word of how things go.
    fn take_notice(&mut self, response: ImapResponse) -> (r: Effect)
        requires
            response is Progress || response is Retrying || response is Connected
                || response is Error,
        ensures
            (final(self)@, r@) == old(self)@.answered(response@),
    {
        match response {
            ImapResponse::Progress(current, total, action) => {
                self.show_progress(current, total, action)
            },
            ImapResponse::Retrying { attempt, max_attempts, action } => {
                self.show_retry(attempt, max_attempts, action)
            },
            _ => {},
        }
        Effect::Nothing
    }

    /// Takes an answer of the mail server.
    pub fn handle_response(&mut self, response: ImapResponse) -> (r: Effect)
        ensures
            (final(self)@, r@) == old(self)@.answered(response@),
    {
        let is_notice: bool = match &response {
            ImapResponse::Progress(..) => true,
            ImapResponse::Retrying { .. } => true,
            ImapResponse::Connected => true,
            ImapResponse::Error(_) => true,
            _ => false,
        };
        if is_notice {
            return self.take_notice(response);
        }
        match response {
            ImapResponse::BodyResult { uid, result } => {
                self.show_body(uid, result);
                Effect::Nothing
            },
            outcome => self.take_outcome(outcome),
        }
    }
}

// ---------------------------------------------------------------------------
// Laws

/// While the server is at work, keys do nothing.
pub proof fn law_busy_sessions_ignore_keys(s: SessionV, p: KeyPress)
    requires
        s.desk.ui.busy,
    ensures
        s.pressed(p) == (s, EffectV::Nothing),
{
}

/// Messages leave the list only when the server has moved them: a move that failed, or that
/// nobody waits for, leaves the application as it was.
pub proof fn law_failed_moves_change_nothing(
    s: SessionV,
    kind: UndoActionType,
    result: Result<Map<Seq<char>, u32>, Seq<char>>,
)
    requires
        result is Err || s.pending is None || !SessionV::is_move(s.pending->0, kind),
    ensures
        s.moved(kind, result).desk.app == s.desk.app,
        s.moved(kind, result).pending is None,
        !s.moved(kind, result).desk.ui.busy,
{
}

/// The messages that a move was made of.
pub open spec fn leaving(op: PendingV) -> Seq<LeavingV> {
    match op {
        PendingV::Group { emails, .. } => emails,
        PendingV::Thread { emails, .. } => emails,
        PendingV::Selected { emails, .. } => emails,
        PendingV::Undo(_) => Seq::empty(),
    }
}

proof fn lemma_finished_history(
    app: AppV,
    kind: UndoActionType,
    op: PendingV,
    map: Map<Seq<char>, u32>,
)
    requires
        SessionV::is_move(op, kind),
    ensures
        SessionV::finished(app, op, map).undo_history.len() > 0,
        SessionV::finished(app, op, map).undo_history[0].emails == leaving(op).map_values(
            landed(map),
        ),
        SessionV::finished(app, op, map).undo_history[0].current_folder == folder_of(kind),
{
}

/// Undoing a move puts each of its messages back: out of the folder that the move put it in,
/// into the folder that it was in, by the UID that the server gave it, if it gave one, and by
/// its Message-ID otherwise.
pub proof fn law_undo_puts_back_what_was_moved(
    app: AppV,
    kind: UndoActionType,
    op: PendingV,
    map: Map<Seq<char>, u32>,
    k: int,
)
    requires
        SessionV::is_move(op, kind),
        0 <= k < leaving(op).len(),
    ensures
        ({
            let (uid, message_id, folder) = leaving(op)[k];
            let items = restores(SessionV::finished(app, op, map).undo_history[0]);
            let dest = if map.contains_key(uid) {
                Some(map[uid])
            } else {
                None
            };
            &&& items.len() == leaving(op).len()
            &&& items[k] == (message_id, dest, folder_of(kind), folder)
        }),
{
    lemma_finished_history(app, kind, op, map);
}

/// The messages that a move tells the server to take away are those that the application
/// then takes away, and those that undoing it can bring back.
pub proof fn law_moves_are_what_was_shown(s: SessionV, action: UndoActionType, sender: Seq<char>)
    requires
        s.desk.app.group_thread_emails().len() > 0,
    ensures
        ({
            let emails = s.desk.app.group_thread_emails();
            let (t, effect) = s.group_moving(action, sender);
            &&& effect == EffectV::Send(move_of(action, ids_and_folders(emails)))
            &&& t.pending matches Some(op) && leaving(op) == for_undo(emails)
            &&& t.desk.app == s.desk.app
            &&& t.desk.ui.busy
        }),
{
}

} // verus!
