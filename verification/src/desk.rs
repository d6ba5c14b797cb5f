//! Keys: what they do to what is on screen, and what they ask for.
use vstd::prelude::*;
use vstd::view::View as _;

use crate::app::App;
use crate::email::{Email, EmailV};
use crate::modes::{SelectionResult, View};
use crate::state::AppV;
use crate::ui::widgets::{ConfirmAction, ConfirmV, UiState, UiV};
use crate::undo::UndoActionType;

verus! {

broadcast use vstd::seq_lib::group_seq_properties;

/// A key.
#[derive(Debug, Clone, Copy, PartialEq, Eq, Structural)]
pub enum Key {
    Char(char),
    Enter,
    Esc,
    Backspace,
    Up,
    Down,
    Other,
}

/// A key that was pressed, and whether the control key was held.
#[derive(Debug, Clone, Copy, PartialEq, Eq, Structural)]
pub struct KeyPress {
    pub key: Key,
    pub control: bool,
}

/// What the user has set.
#[derive(Debug, Clone, Copy, PartialEq, Eq, Structural)]
pub struct Settings {
    /// The number of connections that messages are loaded over.
    pub parallel_connections: usize,
    /// Whether selecting a message moves on to the next.
    pub advance_on_select: bool,
    /// Whether threads with several messages have to be looked at before they are archived
    /// or deleted.
    pub protect_threads: bool,
}

/// What is left to do after a key.
pub enum Request {
    Nothing,
    Quit,
    /// Do what was confirmed.
    Confirmed(ConfirmAction),
    /// Archive or delete the selected thread.
    Act(UndoActionType),
    /// Undo the selected action.
    Undo,
    /// Show the body of a message.
    Read(Email),
    /// Open the current message in the browser.
    Browse,
    /// Load the messages anew.
    Refresh,
}

/// What a [`Request`] holds.
#[verifier::ext_equal]
pub enum RequestV {
    Nothing,
    Quit,
    Confirmed(ConfirmV),
    Act(UndoActionType),
    Undo,
    Read(EmailV),
    Browse,
    Refresh,
}

impl vstd::view::View for Request {
    type V = RequestV;

    open spec fn view(&self) -> RequestV {
        match self {
            Request::Nothing => RequestV::Nothing,
            Request::Quit => RequestV::Quit,
            Request::Confirmed(action) => RequestV::Confirmed(action@),
            Request::Act(action) => RequestV::Act(*action),
            Request::Undo => RequestV::Undo,
            Request::Read(email) => RequestV::Read(email@),
            Request::Browse => RequestV::Browse,
            Request::Refresh => RequestV::Refresh,
        }
    }
}

/// The application and the screen.
pub struct Desk {
    pub app: App,
    pub ui: UiState,
    /// Whether `g` was pressed once.
    pub pending_g: bool,
}

/// What a [`Desk`] holds.
#[verifier::ext_equal]
pub struct DeskV {
    pub app: AppV,
    pub ui: UiV,
    pub pending_g: bool,
}

impl vstd::view::View for Desk {
    type V = DeskV;

    open spec fn view(&self) -> DeskV {
        DeskV { app: self.app@, ui: self.ui@, pending_g: self.pending_g }
    }
}

/// What is said where messages of a thread cannot be selected.
pub const NO_SELECTION_IN_THREAD: &'static str =
    "Cannot select individual emails in thread view. Press Enter to open the thread.";

/// What is said where a thread has to be looked at first.
pub const REVIEW_FIRST: &'static str =
    "⚠ This thread has several emails. Press Enter to review it first.";

// ---------------------------------------------------------------------------
// What keys do

impl AppV {
    /// The state after moving back, where that is possible.
    pub open spec fn stepped_back(self) -> AppV {
        if self.can_move_back() {
            self.moved_back()
        } else {
            self
        }
    }

    /// The state after moving back several times, where that is possible.
    pub open spec fn stepped_back_by(self, n: nat) -> AppV {
        if self.can_move_back() {
            self.moved_back_by(n)
        } else {
            self
        }
    }

    /// Whether anything is selected.
    pub open spec fn has_selection(self) -> bool {
        exists|id: Seq<char>| self.selected_emails.contains(id)
    }
}

/// Half the height of a view, but at least one row.
pub open spec fn half_page(ui: UiV, view: View) -> nat {
    let half = ui.viewport_heights.height(view) / 2;
    if half == 0 {
        1
    } else {
        half as nat
    }
}

/// The question about the selected threads.
pub open spec fn ask_selected(action: UndoActionType, count: usize) -> ConfirmV {
    match action {
        UndoActionType::Archive => ConfirmV::ArchiveSelected { count },
        UndoActionType::Delete => ConfirmV::DeleteSelected { count },
    }
}

/// The question about the threads of a sender.
pub open spec fn ask_group(action: UndoActionType, sender: Seq<char>, count: usize) -> ConfirmV {
    match action {
        UndoActionType::Archive => ConfirmV::ArchiveEmails { sender, count },
        UndoActionType::Delete => ConfirmV::DeleteEmails { sender, count },
    }
}

/// The question about a thread.
pub open spec fn ask_thread(action: UndoActionType, thread_email_count: usize) -> ConfirmV {
    match action {
        UndoActionType::Archive => ConfirmV::ArchiveThread { thread_email_count },
        UndoActionType::Delete => ConfirmV::DeleteThread { thread_email_count },
    }
}

impl DeskV {
    /// The state with a question asked.
    pub open spec fn asking(self, action: ConfirmV) -> DeskV {
        DeskV { ui: self.ui.asking(action), ..self }
    }

    /// The state with a message shown.
    pub open spec fn saying(self, message: Seq<char>) -> DeskV {
        DeskV { ui: self.ui.saying(message), ..self }
    }

    /// The state with another state of the application.
    pub open spec fn with_app(self, app: AppV) -> DeskV {
        DeskV { app, ..self }
    }

    /// Asking about the selected threads, if any of their messages are on screen.
    pub open spec fn asking_selected(self, action: UndoActionType) -> DeskV {
        let count = self.app.selected_thread_emails().len();
        if count > 0 {
            self.asking(ask_selected(action, count as usize))
        } else {
            self
        }
    }

    /// `a` and `d`: the selected threads are asked about; without a selection the current
    /// thread is acted on, unless it has to be looked at first.
    pub open spec fn act_pressed(self, action: UndoActionType, settings: Settings) -> (
        DeskV,
        RequestV,
    ) {
        if self.app.view != View::EmailList {
            (self, RequestV::Nothing)
        } else if self.app.has_selection() {
            (self.asking_selected(action), RequestV::Nothing)
        } else if settings.protect_threads && (self.app.current_email() matches Some(e)
            && self.app.is_multi(e.thread_id)) {
            (self.saying(REVIEW_FIRST@), RequestV::Nothing)
        } else {
            (self, RequestV::Act(action))
        }
    }

    /// `A` and `D`: the selected threads are asked about; without a selection all threads of
    /// the sender, or the thread on screen.
    pub open spec fn act_all_pressed(self, action: UndoActionType) -> DeskV {
        match self.app.view {
            View::EmailList => if self.app.has_selection() {
                self.asking_selected(action)
            } else {
                match self.app.current_group() {
                    Some(g) => self.asking(
                        ask_group(action, g.key, self.app.group_thread_emails().len() as usize),
                    ),
                    None => self,
                }
            },
            View::Thread => {
                let count = self.app.thread_emails().len();
                if count > 0 {
                    self.asking(ask_thread(action, count as usize))
                } else {
                    self
                }
            },
            _ => self,
        }
    }

    /// A key while a question is asked.
    pub open spec fn answered(self, p: KeyPress) -> (DeskV, RequestV) {
        let cleared = DeskV { ui: UiV { confirm_action: None, ..self.ui }, ..self };
        if p.key == Key::Char('y') || p.key == Key::Char('Y') {
            match self.ui.confirm_action {
                Some(ConfirmV::Quit) => (cleared, RequestV::Quit),
                Some(action) => (cleared, RequestV::Confirmed(action)),
                None => (self, RequestV::Nothing),
            }
        } else if p.key == Key::Char('n') || p.key == Key::Char('N') || p.key == Key::Esc {
            (cleared, RequestV::Nothing)
        } else {
            (self, RequestV::Nothing)
        }
    }

    /// A key while the help is shown.
    pub open spec fn help_pressed(self, p: KeyPress) -> DeskV {
        if p.key == Key::Char('?') || p.key == Key::Esc || p.key == Key::Char('q') {
            DeskV { ui: UiV { showing_help: false, ..self.ui }, ..self }
        } else {
            self
        }
    }

    /// A key while a filter is typed: the filter follows what is typed.
    pub open spec fn filter_pressed(self, p: KeyPress) -> DeskV {
        match p.key {
            Key::Esc => DeskV {
                app: AppV { text_filter: None, ..self.app },
                ui: UiV { filter_query: Seq::empty(), filter_input_active: false, ..self.ui },
                ..self
            },
            Key::Enter => DeskV { ui: UiV { filter_input_active: false, ..self.ui }, ..self },
            Key::Backspace => {
                let query = if self.ui.filter_query.len() == 0 {
                    Seq::empty()
                } else {
                    self.ui.filter_query.drop_last()
                };
                DeskV {
                    app: if query.len() == 0 {
                        AppV { text_filter: None, ..self.app }
                    } else {
                        self.app.text_filtered(Some(query))
                    },
                    ui: UiV { filter_query: query, ..self.ui },
                    ..self
                }
            },
            Key::Char(c) => {
                let query = self.ui.filter_query.push(c);
                DeskV {
                    app: self.app.text_filtered(Some(query)),
                    ui: UiV { filter_query: query, ..self.ui },
                    ..self
                }
            },
            _ => self,
        }
    }

    /// Starting to type a filter, or going on with the one that is set.
    pub open spec fn filter_started(self) -> DeskV {
        DeskV {
            ui: UiV {
                filter_input_active: true,
                filter_query: match self.app.text_filter {
                    Some(query) => query,
                    None => Seq::empty(),
                },
                ..self.ui
            },
            ..self
        }
    }

    /// `g`: the second one in a row goes to the first item.
    pub open spec fn g_pressed(self) -> DeskV {
        if self.pending_g {
            DeskV { app: self.app.at_first(), pending_g: false, ..self }
        } else {
            DeskV { pending_g: true, ..self }
        }
    }

    /// Whether a key moves in a list, in every view in the same way.
    pub open spec fn moves(p: KeyPress) -> bool {
        ||| p.key == Key::Char('q')
        ||| p.key == Key::Char('j') || p.key == Key::Down
        ||| p.key == Key::Char('k') || p.key == Key::Up
        ||| p.key == Key::Char('g') || p.key == Key::Char('G')
        ||| p.key == Key::Char('d') && p.control
        ||| p.key == Key::Char('u') && p.control
    }

    /// A key that moves in a list.
    pub open spec fn moved(self, p: KeyPress) -> DeskV {
        if p.key == Key::Char('q') {
            self.asking(ConfirmV::Quit)
        } else if p.key == Key::Char('j') || p.key == Key::Down {
            self.with_app(self.app.moved_on())
        } else if p.key == Key::Char('k') || p.key == Key::Up {
            self.with_app(self.app.stepped_back())
        } else if p.key == Key::Char('g') {
            self.g_pressed()
        } else if p.key == Key::Char('G') {
            DeskV { app: self.app.at_last(), pending_g: false, ..self }
        } else if p.key == Key::Char('d') {
            self.with_app(self.app.moved_on_by(half_page(self.ui, self.app.view)))
        } else {
            self.with_app(self.app.stepped_back_by(half_page(self.ui, self.app.view)))
        }
    }

    /// A key that moves in the body of a message.
    pub open spec fn scrolled(self, p: KeyPress) -> DeskV {
        let half = half_page(self.ui, View::EmailBody) as usize;
        if p.key == Key::Char('d') {
            self.with_app(self.app.scrolled_down(half))
        } else if p.key == Key::Char('u') {
            self.with_app(self.app.scrolled_up(half))
        } else {
            self.moved(p)
        }
    }

    /// The message whose body `Enter` shows: the selected one of a thread, or the only one of
    /// a thread in the message list.
    pub open spec fn to_read(self) -> Option<EmailV> {
        match self.app.view {
            View::Thread => self.app.current_thread_email(),
            View::EmailList => self.app.current_email(),
            _ => None,
        }
    }

    /// Whether `Enter` shows a body rather than opening a list.
    pub open spec fn enter_reads(self) -> bool {
        self.app.view == View::Thread || (self.app.view == View::EmailList && !(
        self.app.current_email() matches Some(e) && self.app.is_multi(e.thread_id)))
    }

    /// `Enter` in a list.
    pub open spec fn enter_pressed(self) -> (DeskV, RequestV) {
        if self.enter_reads() {
            match self.to_read() {
                Some(e) => (self.with_app(self.app.text_view_entered(e.id)), RequestV::Read(e)),
                None => (self, RequestV::Nothing),
            }
        } else {
            (self.with_app(self.app.entered()), RequestV::Nothing)
        }
    }

    /// `Esc` in a list: a filter is cleared first.
    pub open spec fn esc_pressed(self) -> DeskV {
        if self.app.view == View::EmailList && self.app.text_filter is Some {
            DeskV {
                app: AppV { text_filter: None, ..self.app },
                ui: UiV { filter_query: Seq::empty(), ..self.ui },
                ..self
            }
        } else if self.app.view != View::GroupList {
            self.with_app(self.app.exited())
        } else {
            self
        }
    }

    /// The space bar.
    pub open spec fn space_pressed(self, settings: Settings) -> DeskV {
        if self.app.view == View::Thread {
            self.saying(NO_SELECTION_IN_THREAD@)
        } else if self.app.view == View::EmailList {
            let toggled = self.app.selection_toggled();
            if self.app.toggle_result() == SelectionResult::Toggled && settings.advance_on_select {
                self.with_app(toggled.moved_on())
            } else {
                self.with_app(toggled)
            }
        } else {
            self
        }
    }

    /// A key in the undo history.
    pub open spec fn undo_pressed(self, p: KeyPress) -> (DeskV, RequestV) {
        if DeskV::moves(p) {
            (self.moved(p), RequestV::Nothing)
        } else if p.key == Key::Esc {
            (self.with_app(self.app.undo_history_exited()), RequestV::Nothing)
        } else if p.key == Key::Enter {
            (self, RequestV::Undo)
        } else {
            (self, RequestV::Nothing)
        }
    }

    /// A key in the body of a message.
    pub open spec fn body_pressed(self, p: KeyPress) -> (DeskV, RequestV) {
        if DeskV::moves(p) {
            (self.scrolled(p), RequestV::Nothing)
        } else if p.key == Key::Esc {
            (self.with_app(self.app.text_view_exited()), RequestV::Nothing)
        } else if p.key == Key::Char('e') {
            (self, RequestV::Browse)
        } else {
            (self, RequestV::Nothing)
        }
    }

    /// A key in a list of groups or messages.
    pub open spec fn list_pressed(self, p: KeyPress, settings: Settings) -> (DeskV, RequestV) {
        let in_lists = self.app.view == View::GroupList || self.app.view == View::EmailList;
        if DeskV::moves(p) {
            (self.moved(p), RequestV::Nothing)
        } else {
            match p.key {
                Key::Esc => (self.esc_pressed(), RequestV::Nothing),
                Key::Enter => self.enter_pressed(),
                Key::Char(c) => if c == 'e' {
                    (self, RequestV::Browse)
                } else if c == 'm' && self.app.view == View::GroupList {
                    (self.with_app(self.app.group_mode_toggled()), RequestV::Nothing)
                } else if c == 'r' {
                    (self, RequestV::Refresh)
                } else if c == 't' && in_lists {
                    (self.with_app(self.app.thread_filter_toggled()), RequestV::Nothing)
                } else if c == 'u' {
                    (self.with_app(self.app.undo_history_entered()), RequestV::Nothing)
                } else if c == 'a' {
                    self.act_pressed(UndoActionType::Archive, settings)
                } else if c == 'A' {
                    (self.act_all_pressed(UndoActionType::Archive), RequestV::Nothing)
                } else if c == 'd' {
                    self.act_pressed(UndoActionType::Delete, settings)
                } else if c == 'D' {
                    (self.act_all_pressed(UndoActionType::Delete), RequestV::Nothing)
                } else if c == ' ' {
                    (self.space_pressed(settings), RequestV::Nothing)
                } else {
                    (self, RequestV::Nothing)
                },
                _ => (self, RequestV::Nothing),
            }
        }
    }

    /// A key. A question comes before a message, a message before the help, and the help
    /// before a filter.
    pub open spec fn pressed(self, p: KeyPress, settings: Settings) -> (DeskV, RequestV) {
        if self.ui.confirm_action is Some {
            self.answered(p)
        } else if self.ui.status_message is Some {
            (DeskV { ui: self.ui.silent(), ..self }, RequestV::Nothing)
        } else if self.ui.showing_help {
            (self.help_pressed(p), RequestV::Nothing)
        } else if self.ui.filter_input_active {
            (self.filter_pressed(p), RequestV::Nothing)
        } else if p.key == Key::Char('?') {
            (DeskV { ui: UiV { showing_help: true, ..self.ui }, ..self }, RequestV::Nothing)
        } else if p.key == Key::Char('/') && self.app.view == View::EmailList {
            (self.filter_started(), RequestV::Nothing)
        } else {
            let s = if p.key == Key::Char('g') || p.key == Key::Char('G') {
                self
            } else {
                DeskV { pending_g: false, ..self }
            };
            match self.app.view {
                View::UndoHistory => s.undo_pressed(p),
                View::EmailBody => s.body_pressed(p),
                _ => s.list_pressed(p, settings),
            }
        }
    }
}

// ---------------------------------------------------------------------------
// Doing it

/// Asks about the selected threads, if any of their messages are on screen.
fn ask_about_selected(desk: &mut Desk, action: UndoActionType)
    ensures
        final(desk)@ == old(desk)@.asking_selected(action),
{
    let ids: Vec<(String, String)> = desk.app.selected_thread_email_ids();
    let count: usize = ids.len();
    assert(crate::app::pairs(ids@).len() == count);
    if count > 0 {
        desk.ui.set_confirm(
            match action {
                UndoActionType::Archive => ConfirmAction::ArchiveSelected { count },
                UndoActionType::Delete => ConfirmAction::DeleteSelected { count },
            },
        );
    }
}

/// `A` and `D`: asks about all threads of a sender, or about the thread on screen.
fn ask_about_all(desk: &mut Desk, action: UndoActionType)
    ensures
        final(desk)@ == old(desk)@.act_all_pressed(action),
{
    match desk.app.view {
        View::EmailList => {
            if desk.app.has_selection() {
                ask_about_selected(desk, action);
                return;
            }
            let ids: Vec<(String, String)> = desk.app.current_group_thread_email_ids();
            let count: usize = ids.len();
            assert(crate::app::pairs(ids@).len() == count);
            let sender: Option<String> = match desk.app.current_group() {
                Some(group) => Some(group.key.clone()),
                None => None,
            };
            if let Some(sender) = sender {
                desk.ui.set_confirm(
                    match action {
                        UndoActionType::Archive => ConfirmAction::ArchiveEmails { sender, count },
                        UndoActionType::Delete => ConfirmAction::DeleteEmails { sender, count },
                    },
                );
            }
        },
        View::Thread => {
            let emails: Vec<&Email> = desk.app.current_thread_emails();
            let thread_email_count: usize = emails.len();
            assert(crate::email::mail_refs(emails@).len() == thread_email_count);
            if thread_email_count > 0 {
                desk.ui.set_confirm(
                    match action {
                        UndoActionType::Archive => ConfirmAction::ArchiveThread {
                            thread_email_count,
                        },
                        UndoActionType::Delete => ConfirmAction::DeleteThread {
                            thread_email_count,
                        },
                    },
                );
            }
        },
        _ => {},
    }
}

impl Desk {
    /// A desk with nothing on it.
    pub fn new() -> (r: Self)
        ensures
            r@ == (DeskV { app: AppV::initial(), ui: UiV::initial(), pending_g: false }),
    {
        Desk { app: App::new(), ui: UiState::new(), pending_g: false }
    }

    /// `a`: archives the current thread, or asks about the selected ones.
    pub fn handle_archive(&mut self, settings: &Settings) -> (r: Request)
        ensures
            (final(self)@, r@) == old(self)@.act_pressed(UndoActionType::Archive, *settings),
    {
        self.act(UndoActionType::Archive, settings)
    }

    /// `d`: deletes the current thread, or asks about the selected ones.
    pub fn handle_delete(&mut self, settings: &Settings) -> (r: Request)
        ensures
            (final(self)@, r@) == old(self)@.act_pressed(UndoActionType::Delete, *settings),
    {
        self.act(UndoActionType::Delete, settings)
    }

    /// `A`: asks whether to archive all.
    pub fn handle_archive_all(&mut self)
        ensures
            final(self)@ == old(self)@.act_all_pressed(UndoActionType::Archive),
    {
        ask_about_all(self, UndoActionType::Archive);
    }

    /// `D`: asks whether to delete all.
    pub fn handle_delete_all(&mut self)
        ensures
            final(self)@ == old(self)@.act_all_pressed(UndoActionType::Delete),
    {
        ask_about_all(self, UndoActionType::Delete);
    }

    fn act(&mut self, action: UndoActionType, settings: &Settings) -> (r: Request)
        ensures
            (final(self)@, r@) == old(self)@.act_pressed(action, *settings),
    {
        if self.app.view != View::EmailList {
            return Request::Nothing;
        }
        if self.app.has_selection() {
            ask_about_selected(self, action);
            return Request::Nothing;
        }
        if settings.protect_threads && self.app.current_email_is_multi_message_thread() {
            self.ui.set_status(REVIEW_FIRST);
            return Request::Nothing;
        }
        Request::Act(action)
    }

    fn answer(&mut self, p: KeyPress) -> (r: Request)
        ensures
            (final(self)@, r@) == old(self)@.answered(p),
    {
        if p.key == Key::Char('y') || p.key == Key::Char('Y') {
            match self.ui.confirm_action.take() {
                Some(action) => {
                    match action {
                        ConfirmAction::Quit => Request::Quit,
                        other => Request::Confirmed(other),
                    }
                },
                None => Request::Nothing,
            }
        } else {
            if p.key == Key::Char('n') || p.key == Key::Char('N') || p.key == Key::Esc {
                self.ui.clear_confirm();
            }
            Request::Nothing
        }
    }

    fn type_filter(&mut self, p: KeyPress)
        ensures
            final(self)@ == old(self)@.filter_pressed(p),
    {
        match p.key {
            Key::Esc => {
                self.app.clear_text_filter();
                self.ui.clear_filter_query();
                self.ui.exit_filter_input_mode();
            },
            Key::Enter => {
                self.ui.exit_filter_input_mode();
            },
            Key::Backspace => {
                self.ui.backspace_filter();
                let query: String = self.ui.filter_query().to_owned();
                if query.as_str().is_empty() {
                    self.app.clear_text_filter();
                } else {
                    self.app.set_text_filter(Some(query));
                }
            },
            Key::Char(c) => {
                self.ui.append_filter_char(c);
                let query: String = self.ui.filter_query().to_owned();
                self.app.set_text_filter(Some(query));
            },
            _ => {},
        }
    }

    fn start_filter(&mut self)
        ensures
            final(self)@ == old(self)@.filter_started(),
    {
        let query: Option<String> = crate::email::clone_opt(&self.app.text_filter);
        match query {
            Some(query) => self.ui.enter_filter_input_mode_with_query(query.as_str()),
            None => self.ui.enter_filter_input_mode(),
        }
    }

    fn half(&self, view: View) -> (r: usize)
        ensures
            r == half_page(self.ui@, view),
    {
        let half: usize = self.ui.viewport_heights.for_view(view) / 2;
        if half == 0 {
            1
        } else {
            half
        }
    }

    fn moves(p: KeyPress) -> (r: bool)
        ensures
            r == DeskV::moves(p),
    {
        p.key == Key::Char('q') || p.key == Key::Char('j') || p.key == Key::Down || p.key
            == Key::Char('k') || p.key == Key::Up || p.key == Key::Char('g') || p.key == Key::Char(
            'G',
        ) || (p.key == Key::Char('d') && p.control) || (p.key == Key::Char('u') && p.control)
    }

    fn step_back(&mut self, n: usize)
        ensures
            final(self)@ == old(self)@.with_app(old(self)@.app.stepped_back_by(n as nat)),
    {
        if self.app.can_move_back() {
            self.app.select_previous_n(n);
        }
    }

    fn move_by(&mut self, p: KeyPress)
        requires
            DeskV::moves(p),
        ensures
            final(self)@ == old(self)@.moved(p),
    {
        if p.key == Key::Char('q') {
            self.ui.set_confirm(ConfirmAction::Quit);
        } else if p.key == Key::Char('j') || p.key == Key::Down {
            self.app.select_next();
        } else if p.key == Key::Char('k') || p.key == Key::Up {
            if self.app.can_move_back() {
                self.app.select_previous();
            }
        } else if p.key == Key::Char('g') {
            if self.pending_g {
                self.app.select_first();
                self.pending_g = false;
            } else {
                self.pending_g = true;
            }
        } else if p.key == Key::Char('G') {
            self.pending_g = false;
            self.app.select_last();
        } else if p.key == Key::Char('d') {
            let half: usize = self.half(self.app.view);
            self.app.select_next_n(half);
        } else {
            let half: usize = self.half(self.app.view);
            self.step_back(half);
        }
    }

    fn scroll_by(&mut self, p: KeyPress)
        requires
            DeskV::moves(p),
        ensures
            final(self)@ == old(self)@.scrolled(p),
    {
        if p.key == Key::Char('d') {
            let half: usize = self.half(View::EmailBody);
            self.app.scroll_text_view_down(half);
        } else if p.key == Key::Char('u') {
            let half: usize = self.half(View::EmailBody);
            self.app.scroll_text_view_up(half);
        } else {
            self.move_by(p);
        }
    }

    fn enter(&mut self) -> (r: Request)
        ensures
            (final(self)@, r@) == old(self)@.enter_pressed(),
    {
        let reads: bool = self.app.view == View::Thread || (self.app.view == View::EmailList
            && !self.app.current_email_is_multi_message_thread());
        if reads {
            let email: Option<Email> = if self.app.view == View::Thread {
                match self.app.current_thread_email() {
                    Some(email) => Some(email.clone()),
                    None => None,
                }
            } else {
                match self.app.current_email() {
                    Some(email) => Some(email.clone()),
                    None => None,
                }
            };
            match email {
                Some(email) => {
                    self.app.enter_text_view(email.id.as_str());
                    Request::Read(email)
                },
                None => Request::Nothing,
            }
        } else {
            self.app.enter();
            Request::Nothing
        }
    }

    fn escape(&mut self)
        ensures
            final(self)@ == old(self)@.esc_pressed(),
    {
        if self.app.view == View::EmailList && self.app.has_text_filter() {
            self.app.clear_text_filter();
            self.ui.clear_filter_query();
        } else if self.app.view != View::GroupList {
            self.app.exit();
        }
    }

    fn space(&mut self, settings: &Settings)
        ensures
            final(self)@ == old(self)@.space_pressed(*settings),
    {
        if self.app.view == View::Thread {
            self.ui.set_status(NO_SELECTION_IN_THREAD);
        } else if self.app.view == View::EmailList {
            let toggled: SelectionResult = self.app.toggle_email_selection();
            if toggled == SelectionResult::Toggled && settings.advance_on_select {
                self.app.select_next();
            }
        }
    }

    fn press_in_list(&mut self, p: KeyPress, settings: &Settings) -> (r: Request)
        ensures
            (final(self)@, r@) == old(self)@.list_pressed(p, *settings),
    {
        if Desk::moves(p) {
            self.move_by(p);
            return Request::Nothing;
        }
        match p.key {
            Key::Esc => {
                self.escape();
                Request::Nothing
            },
            Key::Enter => self.enter(),
            Key::Char(c) => {
                let view: View = self.app.view;
                if c == 'e' {
                    return Request::Browse;
                }
                if c == 'r' {
                    return Request::Refresh;
                }
                if c == 'a' {
                    return self.handle_archive(settings);
                }
                if c == 'd' {
                    return self.handle_delete(settings);
                }
                if c == 'm' && view == View::GroupList {
                    self.app.toggle_group_mode();
                } else if c == 't' && (view == View::GroupList || view == View::EmailList) {
                    self.app.toggle_thread_filter();
                } else if c == 'u' {
                    self.app.enter_undo_history();
                } else if c == 'A' {
                    self.handle_archive_all();
                } else if c == 'D' {
                    self.handle_delete_all();
                } else if c == ' ' {
                    self.space(settings);
                }
                Request::Nothing
            },
            _ => Request::Nothing,
        }
    }

    /// Takes a key.
    pub fn press(&mut self, p: KeyPress, settings: &Settings) -> (r: Request)
        ensures
            (final(self)@, r@) == old(self)@.pressed(p, *settings),
    {
        if self.ui.is_confirming() {
            return self.answer(p);
        }
        if self.ui.has_status() {
            self.ui.clear_status();
            return Request::Nothing;
        }
        if self.ui.is_showing_help() {
            if p.key == Key::Char('?') || p.key == Key::Esc || p.key == Key::Char('q') {
                self.ui.hide_help();
            }
            return Request::Nothing;
        }
        if self.ui.is_filter_input_active() {
            self.type_filter(p);
            return Request::Nothing;
        }
        if p.key == Key::Char('?') {
            self.ui.show_help();
            return Request::Nothing;
        }
        if p.key == Key::Char('/') && self.app.view == View::EmailList {
            self.start_filter();
            return Request::Nothing;
        }
        if !(p.key == Key::Char('g') || p.key == Key::Char('G')) {
            self.pending_g = false;
        }
        match self.app.view {
            View::UndoHistory => {
                if Desk::moves(p) {
                    self.move_by(p);
                    Request::Nothing
                } else if p.key == Key::Esc {
                    self.app.exit_undo_history();
                    Request::Nothing
                } else if p.key == Key::Enter {
                    Request::Undo
                } else {
                    Request::Nothing
                }
            },
            View::EmailBody => {
                if Desk::moves(p) {
                    self.scroll_by(p);
                    Request::Nothing
                } else if p.key == Key::Esc {
                    self.app.exit_text_view();
                    Request::Nothing
                } else if p.key == Key::Char('e') {
                    Request::Browse
                } else {
                    Request::Nothing
                }
            },
            _ => self.press_in_list(p, settings),
        }
    }
}

// ---------------------------------------------------------------------------
// Laws

proof fn lemma_moving_keeps_messages(s: AppV, n: nat)
    ensures
        s.moved_on_by(n).emails == s.emails,
        s.moved_back_by(n).emails == s.emails,
        s.moved_on_by(n).undo_history == s.undo_history,
        s.moved_back_by(n).undo_history == s.undo_history,
    decreases n,
{
    if n > 0 {
        lemma_moving_keeps_messages(s, (n - 1) as nat);
    }
}

proof fn lemma_list_keys_keep_messages(s: DeskV, p: KeyPress, settings: Settings)
    ensures
        s.list_pressed(p, settings).0.app.emails == s.app.emails,
        s.list_pressed(p, settings).0.app.undo_history == s.app.undo_history,
{
    lemma_moving_keeps_messages(s.app, half_page(s.ui, s.app.view));
}

/// A key alone takes no message away and adds none, and leaves the undo history alone:
/// messages come and go with the answers of the mail server.
pub proof fn law_keys_keep_messages(s: DeskV, p: KeyPress, settings: Settings)
    ensures
        s.pressed(p, settings).0.app.emails == s.app.emails,
        s.pressed(p, settings).0.app.undo_history == s.app.undo_history,
{
    let t = if p.key == Key::Char('g') || p.key == Key::Char('G') {
        s
    } else {
        DeskV { pending_g: false, ..s }
    };
    lemma_moving_keeps_messages(s.app, half_page(s.ui, s.app.view));
    lemma_list_keys_keep_messages(t, p, settings);
}

/// Nothing is done in bulk without a question: `A` and `D` only ask, and so do `a` and `d`
/// while anything is selected.
pub proof fn law_bulk_actions_are_confirmed(
    s: DeskV,
    action: UndoActionType,
    settings: Settings,
)
    ensures
        s.act_all_pressed(action).app == s.app,
        s.app.has_selection() ==> s.act_pressed(action, settings).1 == RequestV::Nothing,
        s.act_pressed(action, settings).0.app == s.app,
{
}

/// With threads protected, `a` and `d` never act on a thread with several messages.
pub proof fn law_threads_are_protected(s: DeskV, action: UndoActionType, settings: Settings)
    requires
        settings.protect_threads,
        s.act_pressed(action, settings).1 != RequestV::Nothing,
    ensures
        s.app.current_email() matches Some(e) ==> !s.app.is_multi(e.thread_id),
{
}

/// Answering no to a question leaves everything but the question as it was.
pub proof fn law_no_changes_nothing(s: DeskV, p: KeyPress, settings: Settings)
    requires
        s.ui.confirm_action is Some,
        p.key == Key::Char('n') || p.key == Key::Char('N') || p.key == Key::Esc,
    ensures
        s.pressed(p, settings) == (
            DeskV { ui: UiV { confirm_action: None, ..s.ui }, ..s },
            RequestV::Nothing,
        ),
{
}

} // verus!
