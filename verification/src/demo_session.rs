//! The demonstration: a session whose actions only seem to reach a server.
use vstd::prelude::*;
use vstd::string::StringExecFns;
use vstd::view::View as _;

use crate::demo::{create_demo_emails, demo_emails};
use crate::desk::{Desk, DeskV, KeyPress, Request, RequestV, Settings};
use crate::email::{clone_mails, clone_opt, mail_refs, mails, Email, EmailV};
use crate::laws::{
    law_newest_first, law_restoring_undoes_removing, law_undo_history, lemma_filter_members,
};
use crate::listing::{in_thread, in_threads_of};
use crate::modes::View;
use crate::session::{destination, entry_of, selection_name};
use crate::state::{has_id, other_id, outside_threads_of, AppV};
use crate::text::{decimal, decimal_text, texts};
use crate::timestamp::{Timestamp, LAST_SECOND};
use crate::ui::widgets::{ConfirmAction, ConfirmV, TextViewState, TextViewV, UiV};
use crate::undo::{
    moved_view, moved_views, Moved, MovedV, UndoActionType, UndoContext, UndoContextV, UndoEntry,
    MAX_UNDO_HISTORY,
};

verus! {

broadcast use vstd::seq_lib::group_seq_properties;

/// How long an action seems to take, in milliseconds.
pub const DEMO_LATENCY_MS: u64 = 300;

/// Whether an action has taken long enough.
pub fn is_due(elapsed_ms: u64) -> (r: bool)
    ensures
        r == (elapsed_ms >= DEMO_LATENCY_MS),
{
    elapsed_ms >= DEMO_LATENCY_MS
}

// ---------------------------------------------------------------------------
// Removed messages

/// The messages of the actions that can be undone, newest first.
pub struct DemoUndoStorage {
    pub emails: Vec<Vec<Email>>,
}

/// What lists of messages hold.
pub open spec fn shelves(v: Seq<Vec<Email>>) -> Seq<Seq<EmailV>> {
    v.map_values(|emails: Vec<Email>| mails(emails@))
}

impl vstd::view::View for DemoUndoStorage {
    type V = Seq<Seq<EmailV>>;

    open spec fn view(&self) -> Seq<Seq<EmailV>> {
        shelves(self.emails@)
    }
}

/// A storage with the messages of one more action: the oldest are dropped once there are too
/// many.
pub open spec fn stored(storage: Seq<Seq<EmailV>>, emails: Seq<EmailV>) -> Seq<Seq<EmailV>> {
    let longer = seq![emails] + storage;
    if longer.len() > MAX_UNDO_HISTORY {
        longer.take(MAX_UNDO_HISTORY as int)
    } else {
        longer
    }
}

impl DemoUndoStorage {
    pub fn new() -> (r: Self)
        ensures
            r@ == Seq::<Seq<EmailV>>::empty(),
    {
        let r: DemoUndoStorage = DemoUndoStorage { emails: Vec::new() };
        assert(r@ =~= Seq::<Seq<EmailV>>::empty());
        r
    }

    /// Stores the messages of an action.
    pub fn push(&mut self, emails: Vec<Email>)
        ensures
            final(self)@ == stored(old(self)@, mails(emails@)),
    {
        let ghost before = self@;
        self.emails.insert(0, emails);
        assert(self@ =~= seq![mails(emails@)] + before);
        if self.emails.len() > MAX_UNDO_HISTORY {
            self.emails.truncate(MAX_UNDO_HISTORY);
            assert(self@ =~= (seq![mails(emails@)] + before).take(MAX_UNDO_HISTORY as int));
        }
    }

    /// Takes the messages of an action out.
    pub fn remove(&mut self, index: usize) -> (r: Option<Vec<Email>>)
        ensures
            match r {
                Some(emails) => index < old(self)@.len() && mails(emails@) == old(
                    self,
                )@[index as int] && final(self)@ == old(self)@.remove(index as int),
                None => index >= old(self)@.len() && final(self)@ == old(self)@,
            },
    {
        if index < self.emails.len() {
            let ghost before = self@;
            let emails: Vec<Email> = self.emails.remove(index);
            assert(self@ =~= before.remove(index as int));
            Some(emails)
        } else {
            None
        }
    }
}

// ---------------------------------------------------------------------------
// Pending operations

/// An action that seems to go on.
pub enum DemoPendingOp {
    /// All threads of a sender.
    Group { action: UndoActionType, emails: Vec<Email>, sender: String },
    /// A thread.
    Thread {
        action: UndoActionType,
        thread_id: String,
        thread_emails: Vec<Email>,
        subject: String,
    },
    /// The selected threads, message by message.
    Selected {
        action: UndoActionType,
        emails: Vec<Email>,
        count: usize,
        processed: usize,
        processed_ids: Vec<String>,
    },
    /// Undoing an action.
    Undo { index: usize, emails: Vec<Email> },
}

/// What a [`DemoPendingOp`] holds.
#[verifier::ext_equal]
pub enum DemoOpV {
    Group { action: UndoActionType, emails: Seq<EmailV>, sender: Seq<char> },
    Thread {
        action: UndoActionType,
        thread_id: Seq<char>,
        thread_emails: Seq<EmailV>,
        subject: Seq<char>,
    },
    Selected {
        action: UndoActionType,
        emails: Seq<EmailV>,
        count: usize,
        processed: usize,
        processed_ids: Seq<Seq<char>>,
    },
    Undo { index: usize, emails: Seq<EmailV> },
}

impl vstd::view::View for DemoPendingOp {
    type V = DemoOpV;

    open spec fn view(&self) -> DemoOpV {
        match self {
            DemoPendingOp::Group { action, emails, sender } => DemoOpV::Group {
                action: *action,
                emails: mails(emails@),
                sender: sender@,
            },
            DemoPendingOp::Thread { action, thread_id, thread_emails, subject } => DemoOpV::Thread {
                action: *action,
                thread_id: thread_id@,
                thread_emails: mails(thread_emails@),
                subject: subject@,
            },
            DemoPendingOp::Selected { action, emails, count, processed, processed_ids } =>
                DemoOpV::Selected {
                action: *action,
                emails: mails(emails@),
                count: *count,
                processed: *processed,
                processed_ids: texts(processed_ids@),
            },
            DemoPendingOp::Undo { index, emails } => DemoOpV::Undo {
                index: *index,
                emails: mails(emails@),
            },
        }
    }
}

/// What an optional operation holds.
pub open spec fn opt_op(o: Option<DemoPendingOp>) -> Option<DemoOpV> {
    match o {
        Some(op) => Some(op@),
        None => None,
    }
}

/// What an action is called while it goes on.
pub open spec fn demo_verb(action: UndoActionType) -> Seq<char> {
    match action {
        UndoActionType::Archive => "Archiving"@,
        UndoActionType::Delete => "Deleting"@,
    }
}

fn verb(action: UndoActionType) -> (r: &'static str)
    ensures
        r@ == demo_verb(action),
{
    match action {
        UndoActionType::Archive => "Archiving",
        UndoActionType::Delete => "Deleting",
    }
}

/// How far the selected threads are.
pub open spec fn progress_text(action: UndoActionType, at: nat, count: usize) -> Seq<char> {
    demo_verb(action) + " "@ + decimal(at) + " of "@ + decimal(count as nat) + "..."@
}

fn progress(action: UndoActionType, at: usize, count: usize) -> (r: String)
    ensures
        r@ == progress_text(action, at as nat, count),
{
    verb(action).to_owned().concat(" ").concat(decimal_text(at as u64).as_str()).concat(
        " of ",
    ).concat(decimal_text(count as u64).as_str()).concat("...")
}

impl DemoOpV {
    /// What is said while an operation goes on.
    pub open spec fn busy_message(self) -> Seq<char> {
        match self {
            DemoOpV::Group { action, .. } => demo_verb(action) + "..."@,
            DemoOpV::Thread { action, .. } => demo_verb(action) + "..."@,
            DemoOpV::Selected { action, .. } => demo_verb(action) + "..."@,
            DemoOpV::Undo { .. } => "Restoring..."@,
        }
    }

    /// Whether the messages that are done can be counted.
    pub open spec fn fits(self) -> bool {
        self matches DemoOpV::Selected { emails, processed, .. } ==> processed + emails.len()
            <= usize::MAX
    }
}

impl DemoPendingOp {
    /// What is said while the operation goes on.
    pub fn busy_message(&self) -> (r: String)
        ensures
            r@ == self@.busy_message(),
    {
        match self {
            DemoPendingOp::Group { action, .. } => verb(*action).to_owned().concat("..."),
            DemoPendingOp::Thread { action, .. } => verb(*action).to_owned().concat("..."),
            DemoPendingOp::Selected { action, .. } => verb(*action).to_owned().concat("..."),
            DemoPendingOp::Undo { .. } => "Restoring...".to_owned(),
        }
    }
}

/// What removed messages are remembered as: there is no server to give them UIDs.
pub open spec fn remembered(emails: Seq<EmailV>) -> Seq<MovedV> {
    emails.map_values(|e: EmailV| (e.message_id, None::<u32>, e.source_folder))
}

fn remember(emails: &Vec<Email>) -> (r: Vec<Moved>)
    ensures
        moved_views(r@) == remembered(mails(emails@)),
{
    let ghost all = mails(emails@);
    let mut r: Vec<Moved> = Vec::new();
    let mut i: usize = 0;
    while i < emails.len()
        invariant
            i <= emails@.len(),
            all == mails(emails@),
            r@.len() == i,
            forall|k: int| 0 <= k < i ==> moved_view(#[trigger] r@[k]) == remembered(all)[k],
        decreases emails@.len() - i,
    {
        assert(all[i as int] == emails@[i as int]@);
        r.push((clone_opt(&emails[i].message_id), None, emails[i].source_folder.clone()));
        i += 1;
    }
    assert(moved_views(r@) =~= remembered(all));
    r
}

/// The body that the demonstration shows for a message.
pub open spec fn demo_body(from: Seq<char>, subject: Seq<char>) -> Seq<char> {
    "This is a demo email body.\n\nIn real mode, the actual email content would be fetched from the server.\n\nFrom: "@
        + from + "\nSubject: "@ + subject
        + "\n\nLorem ipsum dolor sit amet, consectetur adipiscing elit. Sed do eiusmod tempor incididunt ut labore et dolore magna aliqua."@
}

fn write_body(from: &str, subject: &str) -> (r: String)
    ensures
        r@ == demo_body(from@, subject@),
{
    "This is a demo email body.\n\nIn real mode, the actual email content would be fetched from the server.\n\nFrom: ".to_owned().concat(
        from,
    ).concat("\nSubject: ").concat(subject).concat(
        "\n\nLorem ipsum dolor sit amet, consectetur adipiscing elit. Sed do eiusmod tempor incididunt ut labore et dolore magna aliqua.",
    )
}

// ---------------------------------------------------------------------------
// The session

/// What is left for the outside after an event.
#[derive(Debug, Clone, Copy, PartialEq, Eq, Structural)]
pub enum DemoEffect {
    Nothing,
    /// Let some time pass.
    Wait,
    Quit,
}

/// A demonstration.
pub struct DemoSession {
    pub desk: Desk,
    pub storage: DemoUndoStorage,
    pub pending: Option<DemoPendingOp>,
    pub settings: Settings,
}

/// What a [`DemoSession`] holds.
#[verifier::ext_equal]
pub struct DemoV {
    pub desk: DeskV,
    pub storage: Seq<Seq<EmailV>>,
    pub pending: Option<DemoOpV>,
    pub settings: Settings,
}

impl vstd::view::View for DemoSession {
    type V = DemoV;

    open spec fn view(&self) -> DemoV {
        DemoV {
            desk: self.desk@,
            storage: self.storage@,
            pending: opt_op(self.pending),
            settings: self.settings,
        }
    }
}

impl DemoV {
    /// The demonstration at the start.
    pub open spec fn started(emails: Seq<EmailV>) -> DemoV {
        DemoV {
            desk: DeskV {
                app: AppV { user_email: Some("demo@example.com"@), ..AppV::initial() }.loaded(
                    emails,
                ),
                ui: UiV::initial(),
                pending_g: false,
            },
            storage: Seq::empty(),
            pending: None,
            settings: Settings {
                parallel_connections: 0,
                advance_on_select: true,
                protect_threads: true,
            },
        }
    }

    /// The state with another state of the screen.
    pub open spec fn with_ui(self, ui: UiV) -> DemoV {
        DemoV { desk: DeskV { ui, ..self.desk }, ..self }
    }

    /// The state with another state of the application.
    pub open spec fn with_app(self, app: AppV) -> DemoV {
        DemoV { desk: DeskV { app, ..self.desk }, ..self }
    }

    /// The state in which an action can be undone; nothing can where there are no messages.
    pub open spec fn recorded(
        self,
        action: UndoActionType,
        context: UndoContextV,
        emails: Seq<EmailV>,
    ) -> DemoV {
        if emails.len() == 0 {
            self
        } else {
            DemoV {
                storage: stored(self.storage, emails),
                ..self.with_app(
                    self.desk.app.undo_pushed(entry_of(action, context, remembered(emails))),
                )
            }
        }
    }

    /// The operation on the selected thread.
    pub open spec fn thread_op(self, action: UndoActionType) -> Option<DemoOpV> {
        match self.desk.app.current_email() {
            Some(e) => Some(
                DemoOpV::Thread {
                    action,
                    thread_id: e.thread_id,
                    thread_emails: self.desk.app.thread_emails(),
                    subject: e.subject,
                },
            ),
            None => None,
        }
    }

    /// The operation of an action on all threads of a sender.
    pub open spec fn group_op(self, action: UndoActionType, sender: Seq<char>) -> Option<DemoOpV> {
        let emails = self.desk.app.group_thread_emails();
        if emails.len() == 0 {
            None
        } else {
            Some(DemoOpV::Group { action, emails, sender })
        }
    }

    /// The operation of an action on the selected threads.
    pub open spec fn selection_op(self, action: UndoActionType, count: usize) -> Option<DemoOpV> {
        let emails = self.desk.app.selected_thread_emails();
        if emails.len() == 0 {
            None
        } else {
            Some(
                DemoOpV::Selected {
                    action,
                    emails,
                    count,
                    processed: 0,
                    processed_ids: Seq::empty(),
                },
            )
        }
    }

    /// The operation that was confirmed.
    pub open spec fn confirmed(self, action: ConfirmV) -> Option<DemoOpV> {
        match action {
            ConfirmV::ArchiveEmails { sender, .. } => self.group_op(
                UndoActionType::Archive,
                sender,
            ),
            ConfirmV::DeleteEmails { sender, .. } => self.group_op(UndoActionType::Delete, sender),
            ConfirmV::ArchiveThread { .. } => self.thread_op(UndoActionType::Archive),
            ConfirmV::DeleteThread { .. } => self.thread_op(UndoActionType::Delete),
            ConfirmV::ArchiveSelected { count } => self.selection_op(
                UndoActionType::Archive,
                count,
            ),
            ConfirmV::DeleteSelected { count } => self.selection_op(UndoActionType::Delete, count),
            ConfirmV::Quit => None,
        }
    }

    /// The state in which an operation goes on.
    pub open spec fn begun(self, op: DemoOpV) -> DemoV {
        DemoV { pending: Some(op), ..self.with_ui(self.desk.ui.working(op.busy_message())) }
    }

    /// The state in which a confirmed operation goes on. What becomes of selected threads can
    /// be undone from the start.
    pub open spec fn begun_confirmed(self, op: DemoOpV) -> DemoV {
        match op {
            DemoOpV::Selected { action, emails, count, .. } => {
                let s = self.recorded(
                    action,
                    UndoContextV::Group { sender: selection_name(count) },
                    emails,
                );
                DemoV {
                    pending: Some(op),
                    ..s.with_ui(s.desk.ui.working(progress_text(action, 1, count)))
                }
            },
            _ => self.begun(op),
        }
    }

    /// The state after an operation has begun, if there is one.
    pub open spec fn begun_if(self, op: Option<DemoOpV>) -> (DemoV, DemoEffect) {
        match op {
            Some(op) => (self.begun(op), DemoEffect::Wait),
            None => (self, DemoEffect::Nothing),
        }
    }

    /// Undoing the selected action.
    pub open spec fn undoing(self) -> (DemoV, DemoEffect) {
        let index = self.desk.app.selected_undo;
        if index < self.storage.len() {
            (
                DemoV { storage: self.storage.remove(index as int), ..self }.begun(
                    DemoOpV::Undo { index, emails: self.storage[index as int] },
                ),
                DemoEffect::Wait,
            )
        } else {
            (self, DemoEffect::Nothing)
        }
    }

    /// Doing what a key asks for.
    pub open spec fn requested(self, request: RequestV) -> (DemoV, DemoEffect) {
        match request {
            RequestV::Nothing => (self, DemoEffect::Nothing),
            RequestV::Quit => (self, DemoEffect::Quit),
            RequestV::Confirmed(action) => match self.confirmed(action) {
                Some(op) => (self.begun_confirmed(op), DemoEffect::Wait),
                None => (self, DemoEffect::Nothing),
            },
            RequestV::Act(action) => if self.desk.app.thread_emails().len() > 0 {
                self.begun_if(self.thread_op(action))
            } else {
                (self, DemoEffect::Nothing)
            },
            RequestV::Undo => self.undoing(),
            RequestV::Read(email) => (
                self.with_ui(
                    UiV {
                        text_view_state: TextViewV::Loaded(demo_body(email.from, email.subject)),
                        ..self.desk.ui
                    },
                ),
                DemoEffect::Nothing,
            ),
            RequestV::Browse => if self.desk.app.view == View::GroupList || self.desk.app.view
                == View::UndoHistory {
                (self, DemoEffect::Nothing)
            } else {
                (
                    self.with_ui(
                        self.desk.ui.saying("Demo mode: would open email in browser"@),
                    ),
                    DemoEffect::Nothing,
                )
            },
            RequestV::Refresh => (
                self.with_ui(self.desk.ui.saying("Demo mode: refresh simulated"@)),
                DemoEffect::Nothing,
            ),
        }
    }

    /// A key.
    pub open spec fn pressed(self, p: KeyPress) -> (DemoV, DemoEffect) {
        let (desk, request) = self.desk.pressed(p, self.settings);
        DemoV { desk, ..self }.requested(request)
    }

    /// The state after one message of the selected threads, and the operation that is left.
    pub open spec fn one_removed(
        self,
        action: UndoActionType,
        emails: Seq<EmailV>,
        count: usize,
        processed: usize,
        processed_ids: Seq<Seq<char>>,
    ) -> (DemoV, Option<DemoOpV>) {
        if emails.len() == 0 {
            (self.with_ui(self.desk.ui.idle()).forgotten(processed_ids), None)
        } else {
            let id = emails.first().id;
            let s = self.with_app(self.desk.app.without_email(id));
            let ids = processed_ids.push(id);
            let rest = emails.drop_first();
            if rest.len() == 0 {
                (s.with_ui(s.desk.ui.idle()).forgotten(ids), None)
            } else {
                (
                    s.with_ui(
                        s.desk.ui.working(progress_text(action, (processed + 2) as nat, count)),
                    ),
                    Some(
                        DemoOpV::Selected {
                            action,
                            emails: rest,
                            count,
                            processed: (processed + 1) as usize,
                            processed_ids: ids,
                        },
                    ),
                )
            }
        }
    }

    /// The state with some messages no longer selected.
    pub open spec fn forgotten(self, ids: Seq<Seq<char>>) -> DemoV {
        self.with_app(
            AppV {
                selected_emails: self.desk.app.selected_emails.filter(
                    |id: Seq<char>| !ids.contains(id),
                ),
                ..self.desk.app
            },
        )
    }

    /// The state after an operation, and what is left of it.
    pub open spec fn executed(self, op: DemoOpV) -> (DemoV, Option<DemoOpV>) {
        match op {
            DemoOpV::Group { action, emails, sender } => {
                let s = self.with_ui(self.desk.ui.idle()).recorded(
                    action,
                    UndoContextV::Group { sender },
                    emails,
                );
                (s.with_app(s.desk.app.without_group_threads()), None)
            },
            DemoOpV::Thread { action, thread_id, thread_emails, subject } => {
                let s = self.with_ui(self.desk.ui.idle()).recorded(
                    action,
                    UndoContextV::Thread { subject },
                    thread_emails,
                );
                let app = s.desk.app.without_thread(thread_id);
                (
                    s.with_app(
                        if app.view == View::Thread {
                            app.exited()
                        } else {
                            app
                        },
                    ),
                    None,
                )
            },
            DemoOpV::Selected { action, emails, count, processed, processed_ids } =>
                self.one_removed(action, emails, count, processed, processed_ids),
            DemoOpV::Undo { index, emails } => (
                self.with_ui(self.desk.ui.idle()).with_app(
                    self.desk.app.restored(emails).undo_popped(index),
                ),
                None,
            ),
        }
    }

    /// The state once the latency of the pending operation has passed.
    pub open spec fn passed(self) -> (DemoV, DemoEffect) {
        match self.pending {
            Some(op) => {
                let (s, left) = DemoV { pending: None, ..self }.executed(op);
                match left {
                    Some(op) => (DemoV { pending: Some(op), ..s }, DemoEffect::Wait),
                    None => (s, DemoEffect::Nothing),
                }
            },
            None => (self, DemoEffect::Nothing),
        }
    }

    /// Whether the pending operation can be counted.
    pub open spec fn fits(self) -> bool {
        self.pending matches Some(op) ==> op.fits()
    }
}

impl DemoSession {
    /// A demonstration with its messages loaded.
    pub fn start_with(emails: Vec<Email>) -> (r: Self)
        ensures
            r@ == DemoV::started(mails(emails@)),
    {
        let mut desk: Desk = Desk::new();
        desk.app.set_user_email("demo@example.com".to_owned());
        desk.app.set_emails(emails);
        DemoSession {
            desk,
            storage: DemoUndoStorage::new(),
            pending: None,
            settings: Settings {
                parallel_connections: 0,
                advance_on_select: true,
                protect_threads: true,
            },
        }
    }

    /// A demonstration with the sample messages.
    pub fn start() -> (r: Self)
        ensures
            exists|now: Timestamp|
                0 <= now.secs <= LAST_SECOND && r@ == DemoV::started(#[trigger] demo_emails(now)),
    {
        DemoSession::start_with(create_demo_emails())
    }

    fn record(&mut self, action: UndoActionType, context: UndoContext, emails: Vec<Email>)
        ensures
            final(self)@ == old(self)@.recorded(action, context@, mails(emails@)),
    {
        assert(mails(emails@).len() == emails@.len());
        if emails.len() > 0 {
            let entry: UndoEntry = UndoEntry {
                action_type: action,
                context,
                emails: remember(&emails),
                current_folder: destination(action).to_owned(),
            };
            self.storage.push(emails);
            self.desk.app.push_undo(entry);
        }
    }

    fn copy_thread(&self) -> (r: Vec<Email>)
        ensures
            mails(r@) == self@.desk.app.thread_emails(),
    {
        let thread: Vec<&Email> = self.desk.app.current_thread_emails();
        let ghost all = mail_refs(thread@);
        let mut r: Vec<Email> = Vec::new();
        for i in 0..thread.len()
            invariant
                r@.len() == i,
                forall|k: int| 0 <= k < i ==> (#[trigger] r@[k])@ == thread@[k]@,
        {
            r.push((*thread[i]).clone());
        }
        assert(mails(r@) =~= all);
        r
    }

    fn plan_thread(&self, action: UndoActionType) -> (r: Option<DemoPendingOp>)
        ensures
            opt_op(r) == self@.thread_op(action),
            r is Some ==> r->0@.fits(),
    {
        let thread_emails: Vec<Email> = self.copy_thread();
        match self.desk.app.current_email() {
            Some(email) => Some(
                DemoPendingOp::Thread {
                    action,
                    thread_id: email.thread_id.clone(),
                    thread_emails,
                    subject: email.subject.clone(),
                },
            ),
            None => None,
        }
    }

    fn plan_group(&self, action: UndoActionType, sender: String) -> (r: Option<DemoPendingOp>)
        ensures
            opt_op(r) == self@.group_op(action, sender@),
            r is Some ==> r->0@.fits(),
    {
        let emails: Vec<Email> = self.desk.app.current_group_thread_emails_cloned();
        assert(mails(emails@).len() == emails@.len());
        if emails.len() == 0 {
            None
        } else {
            Some(DemoPendingOp::Group { action, emails, sender })
        }
    }

    fn plan_selected(&self, action: UndoActionType, count: usize) -> (r: Option<DemoPendingOp>)
        ensures
            opt_op(r) == self@.selection_op(action, count),
            r is Some ==> r->0@.fits(),
    {
        let emails: Vec<Email> = self.desk.app.selected_thread_emails_cloned();
        let processed_ids: Vec<String> = Vec::new();
        assert(mails(emails@).len() == emails@.len());
        assert(texts(processed_ids@) =~= Seq::<Seq<char>>::empty());
        if emails.len() == 0 {
            None
        } else {
            Some(DemoPendingOp::Selected { action, emails, count, processed: 0, processed_ids })
        }
    }

    /// The operation that was confirmed.
    pub fn handle_demo_confirmed_action(&self, action: ConfirmAction) -> (r: Option<DemoPendingOp>)
        requires
            !(action is Quit),
        ensures
            opt_op(r) == self@.confirmed(action@),
            r is Some ==> r->0@.fits(),
    {
        match action {
            ConfirmAction::ArchiveEmails { sender, .. } => self.plan_group(
                UndoActionType::Archive,
                sender,
            ),
            ConfirmAction::DeleteEmails { sender, .. } => self.plan_group(
                UndoActionType::Delete,
                sender,
            ),
            ConfirmAction::ArchiveThread { .. } => self.plan_thread(UndoActionType::Archive),
            ConfirmAction::DeleteThread { .. } => self.plan_thread(UndoActionType::Delete),
            ConfirmAction::ArchiveSelected { count } => self.plan_selected(
                UndoActionType::Archive,
                count,
            ),
            ConfirmAction::DeleteSelected { count } => self.plan_selected(
                UndoActionType::Delete,
                count,
            ),
            ConfirmAction::Quit => None,
        }
    }

    fn begin(&mut self, op: DemoPendingOp)
        ensures
            final(self)@ == old(self)@.begun(op@),
    {
        let message: String = op.busy_message();
        self.desk.ui.set_busy(message.as_str());
        self.pending = Some(op);
    }

    fn begin_confirmed(&mut self, op: DemoPendingOp)
        ensures
            final(self)@ == old(self)@.begun_confirmed(op@),
    {
        match op {
            DemoPendingOp::Selected { action, emails, count, processed, processed_ids } => {
                let sender: String = decimal_text(count as u64).concat(" selected");
                self.record(action, UndoContext::Group { sender }, clone_mails(&emails));
                let message: String = progress(action, 1, count);
                self.desk.ui.set_busy(message.as_str());
                self.pending = Some(
                    DemoPendingOp::Selected { action, emails, count, processed, processed_ids },
                );
            },
            other => self.begin(other),
        }
    }

    /// Undoes the selected action.
    fn handle_demo_undo(&mut self) -> (r: DemoEffect)
        ensures
            (final(self)@, r) == old(self)@.undoing(),
    {
        let index: usize = self.desk.app.selected_undo;
        match self.storage.remove(index) {
            Some(emails) => {
                self.begin(DemoPendingOp::Undo { index, emails });
                DemoEffect::Wait
            },
            None => DemoEffect::Nothing,
        }
    }

    fn do_request(&mut self, request: Request) -> (r: DemoEffect)
        ensures
            (final(self)@, r) == old(self)@.requested(request@),
            old(self)@.fits() ==> final(self)@.fits(),
    {
        match request {
            Request::Nothing => DemoEffect::Nothing,
            Request::Quit => DemoEffect::Quit,
            Request::Confirmed(action) => {
                let op: Option<DemoPendingOp> = match action {
                    ConfirmAction::Quit => None,
                    other => self.handle_demo_confirmed_action(other),
                };
                match op {
                    Some(op) => {
                        self.begin_confirmed(op);
                        DemoEffect::Wait
                    },
                    None => DemoEffect::Nothing,
                }
            },
            Request::Act(action) => {
                let thread: Vec<&Email> = self.desk.app.current_thread_emails();
                let n: usize = thread.len();
                assert(mail_refs(thread@).len() == n);
                if n == 0 {
                    return DemoEffect::Nothing;
                }
                match self.plan_thread(action) {
                    Some(op) => {
                        self.begin(op);
                        DemoEffect::Wait
                    },
                    None => DemoEffect::Nothing,
                }
            },
            Request::Undo => self.handle_demo_undo(),
            Request::Read(email) => {
                let body: String = write_body(email.from.as_str(), email.subject.as_str());
                self.desk.ui.text_view_state = TextViewState::Loaded(body);
                DemoEffect::Nothing
            },
            Request::Browse => {
                if self.desk.app.view != View::GroupList && self.desk.app.view
                    != View::UndoHistory {
                    self.desk.ui.set_status("Demo mode: would open email in browser");
                }
                DemoEffect::Nothing
            },
            Request::Refresh => {
                self.desk.ui.set_status("Demo mode: refresh simulated");
                DemoEffect::Nothing
            },
        }
    }

    /// Takes a key.
    pub fn handle_key(&mut self, p: KeyPress) -> (r: DemoEffect)
        ensures
            (final(self)@, r) == old(self)@.pressed(p),
            old(self)@.fits() ==> final(self)@.fits(),
    {
        let settings: Settings = self.settings;
        let request: Request = self.desk.press(p, &settings);
        self.do_request(request)
    }

    fn remove_one(
        &mut self,
        action: UndoActionType,
        emails: Vec<Email>,
        count: usize,
        processed: usize,
        processed_ids: Vec<String>,
    ) -> (r: Option<DemoPendingOp>)
        requires
            processed + emails@.len() <= usize::MAX,
        ensures
            (final(self)@, opt_op(r)) == old(self)@.one_removed(
                action,
                mails(emails@),
                count,
                processed,
                texts(processed_ids@),
            ),
    {
        let ghost all = mails(emails@);
        let ghost ids = texts(processed_ids@);
        let mut rest: Vec<Email> = emails;
        let mut done: Vec<String> = processed_ids;
        assert(all.len() == rest@.len());
        if rest.len() == 0 {
            self.desk.ui.clear_busy();
            self.desk.app.deselect_emails(done.as_slice());
            return None;
        }
        let email: Email = rest.remove(0);
        proof {
            assert(all.first() == email@);
            assert(mails(rest@) =~= all.drop_first());
        }
        self.desk.app.remove_email(email.id.as_str());
        done.push(email.id.clone());
        assert(texts(done@) =~= ids.push(email@.id));
        if rest.len() == 0 {
            self.desk.ui.clear_busy();
            self.desk.app.deselect_emails(done.as_slice());
            None
        } else {
            let message: String = progress(action, processed + 2, count);
            self.desk.ui.set_busy(message.as_str());
            Some(
                DemoPendingOp::Selected {
                    action,
                    emails: rest,
                    count,
                    processed: processed + 1,
                    processed_ids: done,
                },
            )
        }
    }

    /// Does an operation. Returns what is left of it.
    pub fn execute_demo_op(&mut self, op: DemoPendingOp) -> (r: Option<DemoPendingOp>)
        requires
            op@.fits(),
        ensures
            (final(self)@, opt_op(r)) == old(self)@.executed(op@),
            r is Some ==> r->0@.fits(),
    {
        match op {
            DemoPendingOp::Group { action, emails, sender } => {
                self.desk.ui.clear_busy();
                self.record(action, UndoContext::Group { sender }, emails);
                self.desk.app.remove_current_group_threads();
                None
            },
            DemoPendingOp::Thread { action, thread_id, thread_emails, subject } => {
                self.desk.ui.clear_busy();
                self.record(action, UndoContext::Thread { subject }, thread_emails);
                self.desk.app.remove_thread(thread_id.as_str());
                if self.desk.app.view == View::Thread {
                    self.desk.app.exit();
                }
                None
            },
            DemoPendingOp::Selected { action, emails, count, processed, processed_ids } => {
                assert(mails(emails@).len() == emails@.len());
                self.remove_one(action, emails, count, processed, processed_ids)
            },
            DemoPendingOp::Undo { index, emails } => {
                self.desk.ui.clear_busy();
                self.desk.app.restore_emails(emails);
                let _ = self.desk.app.pop_undo(index);
                None
            },
        }
    }

    /// Goes on with the pending operation once its latency has passed.
    pub fn pass(&mut self) -> (r: DemoEffect)
        requires
            old(self)@.fits(),
        ensures
            (final(self)@, r) == old(self)@.passed(),
            final(self)@.fits(),
    {
        match self.pending.take() {
            Some(op) => {
                let left: Option<DemoPendingOp> = self.execute_demo_op(op);
                match left {
                    Some(op) => {
                        self.pending = Some(op);
                        DemoEffect::Wait
                    },
                    None => DemoEffect::Nothing,
                }
            },
            None => DemoEffect::Nothing,
        }
    }
}

// ---------------------------------------------------------------------------
// Laws

/// The state with the newest action of the undo history selected.
pub open spec fn at_newest(s: DemoV) -> DemoV {
    s.with_app(AppV { selected_undo: 0, ..s.desk.app })
}

/// A list that holds what can be undone, without what had to make room for one action more.
pub open spec fn making_room<A>(s: Seq<A>) -> Seq<A> {
    if s.len() < MAX_UNDO_HISTORY {
        s
    } else {
        s.take(MAX_UNDO_HISTORY - 1)
    }
}

proof fn lemma_recorded(
    s: DemoV,
    action: UndoActionType,
    context: UndoContextV,
    emails: Seq<EmailV>,
)
    requires
        emails.len() > 0,
    ensures
        s.recorded(action, context, emails).storage[0] == emails,
        s.recorded(action, context, emails).storage.len() > 0,
        s.recorded(action, context, emails).storage.remove(0) == making_room(s.storage),
        s.recorded(action, context, emails).desk.app == s.desk.app.undo_pushed(
            entry_of(action, context, remembered(emails)),
        ),
        s.recorded(action, context, emails).desk.app.group_thread_emails()
            == s.desk.app.group_thread_emails(),
        s.recorded(action, context, emails).desk.app.emails == s.desk.app.emails,
{
    let t = s.recorded(action, context, emails);
    assert(t.desk.app.shown() =~= s.desk.app.shown());
    assert(t.desk.app.filtered_emails() == s.desk.app.filtered_emails());
    assert(t.storage.remove(0) =~= making_room(s.storage));
}

/// Archiving or deleting the threads of a sender and undoing it brings every message back,
/// and the undo history with its messages to what it was, but for what had to make room.
pub proof fn law_demo_group_undo(s: DemoV, action: UndoActionType, sender: Seq<char>)
    requires
        s.group_op(action, sender) is Some,
    ensures
        ({
            let done = s.executed(s.group_op(action, sender)->0).0;
            let (begun, effect) = at_newest(done).undoing();
            let undone = begun.passed().0;
            &&& effect == DemoEffect::Wait
            &&& undone.desk.app.emails.to_multiset() == s.desk.app.emails.to_multiset()
            &&& undone.desk.app.undo_history == making_room(s.desk.app.undo_history)
            &&& undone.storage == making_room(s.storage)
        }),
{
    let emails = s.desk.app.group_thread_emails();
    let context = UndoContextV::Group { sender };
    let idle = s.with_ui(s.desk.ui.idle());
    lemma_recorded(idle, action, context, emails);
    let app = idle.recorded(action, context, emails).desk.app;
    law_restoring_undoes_removing(app, Seq::empty());
    law_undo_history(s.desk.app, entry_of(action, context, remembered(emails)));
    let done = s.executed(s.group_op(action, sender)->0).0;
    let begun = at_newest(done).undoing().0;
    assert(begun.pending == Some(DemoOpV::Undo { index: 0, emails }));
    assert(begun.desk.app.emails == app.without_group_threads().emails);
}

/// Archiving or deleting a thread and undoing it brings every message of it back, and the
/// undo history with its messages to what it was, but for what had to make room.
pub proof fn law_demo_thread_undo(s: DemoV, action: UndoActionType)
    requires
        s.thread_op(action) is Some,
        s.desk.app.thread_emails().len() > 0,
    ensures
        ({
            let done = s.executed(s.thread_op(action)->0).0;
            let (begun, effect) = at_newest(done).undoing();
            let undone = begun.passed().0;
            &&& effect == DemoEffect::Wait
            &&& undone.desk.app.emails.to_multiset() == s.desk.app.emails.to_multiset()
            &&& undone.desk.app.undo_history == making_room(s.desk.app.undo_history)
            &&& undone.storage == making_room(s.storage)
        }),
{
    let e = s.desk.app.current_email()->0;
    let emails = s.desk.app.thread_emails();
    let context = UndoContextV::Thread { subject: e.subject };
    let idle = s.with_ui(s.desk.ui.idle());
    lemma_recorded(idle, action, context, emails);
    let app = idle.recorded(action, context, emails).desk.app;
    law_restoring_undoes_removing(app, e.thread_id);
    law_undo_history(s.desk.app, entry_of(action, context, remembered(emails)));
    let done = s.executed(s.thread_op(action)->0).0;
    let begun = at_newest(done).undoing().0;
    assert(begun.pending == Some(DemoOpV::Undo { index: 0, emails }));
    let left = app.without_thread(e.thread_id).emails;
    assert(begun.desk.app.emails == left);
    let thread = s.desk.app.emails.filter(in_thread(e.thread_id));
    law_newest_first(thread, e);
    left.to_multiset_ensures();
    vstd::seq_lib::lemma_multiset_commutative(left, emails);
    vstd::seq_lib::lemma_multiset_commutative(left, thread);
}

/// The state after the latency has passed so many times.
pub open spec fn passed_times(s: DemoV, n: nat) -> DemoV
    decreases n,
{
    if n == 0 {
        s
    } else {
        passed_times(s.passed().0, (n - 1) as nat)
    }
}

/// The messages whose ids are not those of some messages.
pub open spec fn without_ids(gone: Seq<EmailV>) -> spec_fn(EmailV) -> bool {
    |e: EmailV| !has_id(gone, e.id)
}

proof fn lemma_filter_same(s: Seq<EmailV>, p: spec_fn(EmailV) -> bool, q: spec_fn(EmailV) -> bool)
    requires
        forall|k: int| 0 <= k < s.len() ==> p(#[trigger] s[k]) == q(s[k]),
    ensures
        s.filter(p) == s.filter(q),
    decreases s.len(),
{
    reveal(Seq::filter);
    if s.len() > 0 {
        let t = s.drop_last();
        assert forall|k: int| 0 <= k < t.len() implies p(#[trigger] t[k]) == q(t[k]) by {
            assert(t[k] == s[k]);
        }
        lemma_filter_same(t, p, q);
        assert(p(s[s.len() - 1]) == q(s[s.len() - 1]));
    }
}

proof fn lemma_filter_twice(s: Seq<EmailV>, id: Seq<char>, gone: Seq<EmailV>)
    requires
        gone.len() > 0,
        gone.first().id == id,
    ensures
        s.filter(other_id(id)).filter(without_ids(gone.drop_first())) == s.filter(
            without_ids(gone),
        ),
    decreases s.len(),
{
    reveal(Seq::filter);
    let rest = gone.drop_first();
    if s.len() > 0 {
        let t = s.drop_last();
        let z = s.last();
        lemma_filter_twice(t, id, gone);
        assert(s =~= t.push(z));
        t.lemma_filter_push(z, other_id(id));
        t.lemma_filter_push(z, without_ids(gone));
        t.filter(other_id(id)).lemma_filter_push(z, without_ids(rest));
        if has_id(rest, z.id) {
            let k = choose|k: int| 0 <= k < rest.len() && (#[trigger] rest[k]).id == z.id;
            assert(gone[k + 1].id == z.id);
        }
        if has_id(gone, z.id) && z.id != id {
            let k = choose|k: int| 0 <= k < gone.len() && (#[trigger] gone[k]).id == z.id;
            assert(rest[k - 1].id == z.id);
        }
        if z.id == id {
            assert(gone[0].id == z.id);
        }
    }
}

/// Removing messages one by one removes them all, and leaves what can be undone as it is.
proof fn lemma_selected_removed(
    s: DemoV,
    action: UndoActionType,
    emails: Seq<EmailV>,
    count: usize,
    processed: usize,
    ids: Seq<Seq<char>>,
)
    requires
        emails.len() > 0,
        s.pending == Some(
            DemoOpV::Selected { action, emails, count, processed, processed_ids: ids },
        ),
    ensures
        ({
            let t = passed_times(s, emails.len());
            &&& t.pending is None
            &&& t.storage == s.storage
            &&& t.desk.app.undo_history == s.desk.app.undo_history
            &&& t.desk.app.emails == s.desk.app.emails.filter(without_ids(emails))
        }),
    decreases emails.len(),
{
    let id = emails.first().id;
    let rest = emails.drop_first();
    let t = s.passed().0;
    lemma_filter_twice(s.desk.app.emails, id, emails);
    assert(t.desk.app.emails == s.desk.app.emails.filter(other_id(id)));
    assert(t.storage == s.storage);
    assert(t.desk.app.undo_history == s.desk.app.undo_history);
    if rest.len() == 0 {
        assert(passed_times(t, 0) == t);
        lemma_filter_same(
            t.desk.app.emails,
            without_ids(rest),
            |e: EmailV| true,
        );
        lemma_filter_true(t.desk.app.emails);
        assert(passed_times(s, emails.len()) == passed_times(t, (emails.len() - 1) as nat));
    } else {
        lemma_selected_removed(
            t,
            action,
            rest,
            count,
            (processed + 1) as usize,
            ids.push(id),
        );
    }
}

proof fn lemma_filter_true(s: Seq<EmailV>)
    ensures
        s.filter(|e: EmailV| true) == s,
    decreases s.len(),
{
    reveal(Seq::filter);
    if s.len() > 0 {
        lemma_filter_true(s.drop_last());
        assert(s =~= s.drop_last().push(s.last()));
    }
}

/// Archiving or deleting the selected threads, message by message, and undoing it brings
/// every message back, and the undo history with its messages to what it was, but for what
/// had to make room, as long as no two messages share an id.
pub proof fn law_demo_selection_undo(s: DemoV, action: UndoActionType, count: usize)
    requires
        s.selection_op(action, count) is Some,
        forall|i: int, j: int|
            0 <= i < j < s.desk.app.emails.len() ==> (#[trigger] s.desk.app.emails[i]).id != (
            #[trigger] s.desk.app.emails[j]).id,
    ensures
        ({
            let steps = s.desk.app.selected_thread_emails().len();
            let done = passed_times(s.begun_confirmed(s.selection_op(action, count)->0), steps);
            let (begun, effect) = at_newest(done).undoing();
            let undone = begun.passed().0;
            &&& done.pending is None
            &&& done.desk.app.emails == s.desk.app.without_selected_threads().emails
            &&& effect == DemoEffect::Wait
            &&& undone.desk.app.emails.to_multiset() == s.desk.app.emails.to_multiset()
            &&& undone.desk.app.undo_history == making_room(s.desk.app.undo_history)
            &&& undone.storage == making_room(s.storage)
        }),
{
    let all = s.desk.app.emails;
    let emails = s.desk.app.selected_thread_emails();
    let context = UndoContextV::Group { sender: selection_name(count) };
    let p = in_threads_of(s.desk.app.selected_shown());
    let q = outside_threads_of(s.desk.app.selected_shown());
    lemma_recorded(s, action, context, emails);
    law_undo_history(s.desk.app, entry_of(action, context, remembered(emails)));
    law_restoring_undoes_removing(s.desk.app, Seq::empty());
    let started = s.begun_confirmed(s.selection_op(action, count)->0);
    assert(started.desk.app.emails == all);
    lemma_selected_removed(started, action, emails, count, 0, Seq::empty());
    assert forall|k: int| 0 <= k < all.len() implies without_ids(emails)(#[trigger] all[k]) == q(
        all[k],
    ) by {
        lemma_filter_members(all, p, all[k]);
        assert(all.contains(all[k]));
        if p(all[k]) {
            let j = emails.index_of(all[k]);
            assert(emails[j].id == all[k].id);
        }
        if has_id(emails, all[k].id) {
            let j = choose|j: int|
                0 <= j < emails.len() && (#[trigger] emails[j]).id == all[k].id;
            lemma_filter_members(all, p, emails[j]);
            assert(emails.contains(emails[j]));
            let i = all.index_of(emails[j]);
            assert(all[i].id == all[k].id);
            assert(i == k);
        }
    }
    lemma_filter_same(all, without_ids(emails), q);
    let done = passed_times(started, emails.len());
    assert(done.desk.app.emails == all.filter(q));
    let begun = at_newest(done).undoing().0;
    assert(begun.pending == Some(DemoOpV::Undo { index: 0, emails }));
}

/// An action of the demonstration adds its messages to the storage just where it adds an
/// entry to the undo history: the two stay in step.
pub proof fn law_demo_storage_in_step(s: DemoV, op: DemoOpV)
    requires
        s.storage.len() == s.desk.app.undo_history.len(),
        !(op is Undo),
    ensures
        s.executed(op).0.storage.len() == s.executed(op).0.desk.app.undo_history.len(),
        s.begun_confirmed(op).storage.len() == s.begun_confirmed(op).desk.app.undo_history.len(),
{
}

} // verus!
