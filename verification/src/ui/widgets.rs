//! Dialogs, lists and bars: what they say and where they stand.
use vstd::prelude::*;
use vstd::string::StringExecFns;
use vstd::utf8::encode_utf8;
use vstd::view::View as _;

use crate::app::{opt_str, App};
use crate::config::AccountConfig;
use crate::email::{mail_refs, Email};
use crate::grouping::{group_refs, EmailGroup, GroupV};
use crate::listing::thread_heads;
use crate::modes::{GroupMode, ThreadFilter, View};
use crate::state::AppV;
use crate::text::{decimal, decimal_text, opt_text, str_eq, texts, to_chars};
use crate::timestamp::Timestamp;

verus! {

broadcast use vstd::seq_lib::group_seq_properties;

/// The character that warnings begin with.
pub const WARNING_CHAR: char = '⚠';

// ---------------------------------------------------------------------------
// Confirmation

/// What the user is asked to confirm.
#[derive(Debug, PartialEq)]
pub enum ConfirmAction {
    /// Archive the threads of a sender.
    ArchiveEmails { sender: String, count: usize },
    /// Delete the threads of a sender.
    DeleteEmails { sender: String, count: usize },
    /// Archive a thread, with the messages of other senders.
    ArchiveThread { thread_email_count: usize },
    /// Delete a thread, with the messages of other senders.
    DeleteThread { thread_email_count: usize },
    /// Archive the selected threads.
    ArchiveSelected { count: usize },
    /// Delete the selected threads.
    DeleteSelected { count: usize },
    /// Leave the program.
    Quit,
}

/// What a [`ConfirmAction`] holds.
#[verifier::ext_equal]
pub enum ConfirmV {
    ArchiveEmails { sender: Seq<char>, count: usize },
    DeleteEmails { sender: Seq<char>, count: usize },
    ArchiveThread { thread_email_count: usize },
    DeleteThread { thread_email_count: usize },
    ArchiveSelected { count: usize },
    DeleteSelected { count: usize },
    Quit,
}

impl vstd::view::View for ConfirmAction {
    type V = ConfirmV;

    open spec fn view(&self) -> ConfirmV {
        match self {
            ConfirmAction::ArchiveEmails { sender, count } => ConfirmV::ArchiveEmails {
                sender: sender@,
                count: *count,
            },
            ConfirmAction::DeleteEmails { sender, count } => ConfirmV::DeleteEmails {
                sender: sender@,
                count: *count,
            },
            ConfirmAction::ArchiveThread { thread_email_count } => ConfirmV::ArchiveThread {
                thread_email_count: *thread_email_count,
            },
            ConfirmAction::DeleteThread { thread_email_count } => ConfirmV::DeleteThread {
                thread_email_count: *thread_email_count,
            },
            ConfirmAction::ArchiveSelected { count } => ConfirmV::ArchiveSelected { count: *count },
            ConfirmAction::DeleteSelected { count } => ConfirmV::DeleteSelected { count: *count },
            ConfirmAction::Quit => ConfirmV::Quit,
        }
    }
}

impl ConfirmV {
    /// The question that is asked.
    pub open spec fn question(self) -> Seq<char> {
        match self {
            ConfirmV::ArchiveEmails { sender, count } => "Archive "@ + decimal(count as nat)
                + " email(s) from "@ + sender + "?"@,
            ConfirmV::DeleteEmails { sender, count } => "Delete "@ + decimal(count as nat)
                + " email(s) from "@ + sender + "?"@,
            ConfirmV::ArchiveThread { thread_email_count } => "Archive entire thread ("@ + decimal(
                thread_email_count as nat,
            ) + " email(s))?"@,
            ConfirmV::DeleteThread { thread_email_count } => "Delete entire thread ("@ + decimal(
                thread_email_count as nat,
            ) + " email(s))?"@,
            ConfirmV::ArchiveSelected { count } => "Archive "@ + decimal(count as nat)
                + " selected email(s)?"@,
            ConfirmV::DeleteSelected { count } => "Delete "@ + decimal(count as nat)
                + " selected email(s)?"@,
            ConfirmV::Quit => "Quit?"@,
        }
    }

    /// The lines of the dialog.
    pub open spec fn message(self) -> Seq<Seq<char>> {
        seq![self.question(), "(y/n)"@]
    }
}

/// A number with text around it.
pub fn around(before: &str, n: usize, after: &str) -> (r: String)
    ensures
        r@ == before@ + decimal(n as nat) + after@,
{
    before.to_owned().concat(decimal_text(n as u64).as_str()).concat(after)
}

impl ConfirmAction {
    /// The question that is asked, and the answers to it.
    pub fn message(&self) -> (r: Vec<String>)
        ensures
            texts(r@) == self@.message(),
    {
        let question: String = match self {
            ConfirmAction::ArchiveEmails { sender, count } => around(
                "Archive ",
                *count,
                " email(s) from ",
            ).concat(sender.as_str()).concat("?"),
            ConfirmAction::DeleteEmails { sender, count } => around(
                "Delete ",
                *count,
                " email(s) from ",
            ).concat(sender.as_str()).concat("?"),
            ConfirmAction::ArchiveThread { thread_email_count } => around(
                "Archive entire thread (",
                *thread_email_count,
                " email(s))?",
            ),
            ConfirmAction::DeleteThread { thread_email_count } => around(
                "Delete entire thread (",
                *thread_email_count,
                " email(s))?",
            ),
            ConfirmAction::ArchiveSelected { count } => around(
                "Archive ",
                *count,
                " selected email(s)?",
            ),
            ConfirmAction::DeleteSelected { count } => around(
                "Delete ",
                *count,
                " selected email(s)?",
            ),
            ConfirmAction::Quit => "Quit?".to_owned(),
        };
        let mut r: Vec<String> = Vec::new();
        r.push(question);
        r.push("(y/n)".to_owned());
        assert(texts(r@) =~= self@.message());
        r
    }
}

impl Clone for ConfirmAction {
    fn clone(&self) -> (r: Self)
        ensures
            r@ == self@,
    {
        match self {
            ConfirmAction::ArchiveEmails { sender, count } => ConfirmAction::ArchiveEmails {
                sender: sender.clone(),
                count: *count,
            },
            ConfirmAction::DeleteEmails { sender, count } => ConfirmAction::DeleteEmails {
                sender: sender.clone(),
                count: *count,
            },
            ConfirmAction::ArchiveThread { thread_email_count } => ConfirmAction::ArchiveThread {
                thread_email_count: *thread_email_count,
            },
            ConfirmAction::DeleteThread { thread_email_count } => ConfirmAction::DeleteThread {
                thread_email_count: *thread_email_count,
            },
            ConfirmAction::ArchiveSelected { count } => ConfirmAction::ArchiveSelected {
                count: *count,
            },
            ConfirmAction::DeleteSelected { count } => ConfirmAction::DeleteSelected {
                count: *count,
            },
            ConfirmAction::Quit => ConfirmAction::Quit,
        }
    }
}

// ---------------------------------------------------------------------------
// State of the screen

/// The heights of the lists, for scrolling by half a page.
#[derive(Debug, Clone, Copy, PartialEq, Eq, Structural)]
pub struct ViewportHeights {
    pub group_list: usize,
    pub email_list: usize,
    pub thread_view: usize,
    pub undo_history: usize,
    pub text_view: usize,
}

impl ViewportHeights {
    /// The height of a view.
    pub open spec fn height(self, view: View) -> usize {
        match view {
            View::GroupList => self.group_list,
            View::EmailList => self.email_list,
            View::Thread => self.thread_view,
            View::UndoHistory => self.undo_history,
            View::EmailBody => self.text_view,
        }
    }

    /// The height of a view.
    pub fn for_view(&self, view: View) -> (r: usize)
        ensures
            r == self.height(view),
    {
        match view {
            View::GroupList => self.group_list,
            View::EmailList => self.email_list,
            View::Thread => self.thread_view,
            View::UndoHistory => self.undo_history,
            View::EmailBody => self.text_view,
        }
    }
}

impl Default for ViewportHeights {
    fn default() -> (r: Self)
        ensures
            r == (ViewportHeights {
                group_list: 0,
                email_list: 0,
                thread_view: 0,
                undo_history: 0,
                text_view: 0,
            }),
    {
        ViewportHeights {
            group_list: 0,
            email_list: 0,
            thread_view: 0,
            undo_history: 0,
            text_view: 0,
        }
    }
}

/// The body of the message on screen.
#[derive(Debug, PartialEq)]
pub enum TextViewState {
    Loading,
    Loaded(String),
    Error(String),
}

/// What a [`TextViewState`] holds.
#[verifier::ext_equal]
pub enum TextViewV {
    Loading,
    Loaded(Seq<char>),
    Error(Seq<char>),
}

impl vstd::view::View for TextViewState {
    type V = TextViewV;

    open spec fn view(&self) -> TextViewV {
        match self {
            TextViewState::Loading => TextViewV::Loading,
            TextViewState::Loaded(body) => TextViewV::Loaded(body@),
            TextViewState::Error(message) => TextViewV::Error(message@),
        }
    }
}

/// The state of the screen besides that of the application.
#[derive(Debug, PartialEq)]
pub struct UiState {
    pub confirm_action: Option<ConfirmAction>,
    pub status_message: Option<String>,
    /// Whether the mail server is at work.
    pub busy: bool,
    pub spinner_frame: usize,
    pub viewport_heights: ViewportHeights,
    pub group_scroll_offset: usize,
    pub undo_scroll_offset: usize,
    pub text_view_state: TextViewState,
    pub showing_help: bool,
    /// Whether a filter is being typed.
    pub filter_input_active: bool,
    pub filter_query: String,
    pub celebration_frame: usize,
}

/// What a [`UiState`] holds.
#[verifier::ext_equal]
pub struct UiV {
    pub confirm_action: Option<ConfirmV>,
    pub status_message: Option<Seq<char>>,
    pub busy: bool,
    pub spinner_frame: usize,
    pub viewport_heights: ViewportHeights,
    pub group_scroll_offset: usize,
    pub undo_scroll_offset: usize,
    pub text_view_state: TextViewV,
    pub showing_help: bool,
    pub filter_input_active: bool,
    pub filter_query: Seq<char>,
    pub celebration_frame: usize,
}

/// What an optional confirmation holds.
pub open spec fn opt_confirm(o: Option<ConfirmAction>) -> Option<ConfirmV> {
    match o {
        Some(action) => Some(action@),
        None => None,
    }
}

impl vstd::view::View for UiState {
    type V = UiV;

    open spec fn view(&self) -> UiV {
        UiV {
            confirm_action: opt_confirm(self.confirm_action),
            status_message: opt_text(self.status_message),
            busy: self.busy,
            spinner_frame: self.spinner_frame,
            viewport_heights: self.viewport_heights,
            group_scroll_offset: self.group_scroll_offset,
            undo_scroll_offset: self.undo_scroll_offset,
            text_view_state: self.text_view_state@,
            showing_help: self.showing_help,
            filter_input_active: self.filter_input_active,
            filter_query: self.filter_query@,
            celebration_frame: self.celebration_frame,
        }
    }
}

impl UiV {
    /// The state at the start.
    pub open spec fn initial() -> UiV {
        UiV {
            confirm_action: None,
            status_message: None,
            busy: false,
            spinner_frame: 0,
            viewport_heights: ViewportHeights {
                group_list: 0,
                email_list: 0,
                thread_view: 0,
                undo_history: 0,
                text_view: 0,
            },
            group_scroll_offset: 0,
            undo_scroll_offset: 0,
            text_view_state: TextViewV::Loading,
            showing_help: false,
            filter_input_active: false,
            filter_query: Seq::empty(),
            celebration_frame: 0,
        }
    }

    /// The state with a question asked.
    pub open spec fn asking(self, action: ConfirmV) -> UiV {
        UiV { confirm_action: Some(action), ..self }
    }

    /// The state with a message shown.
    pub open spec fn saying(self, message: Seq<char>) -> UiV {
        UiV { status_message: Some(message), ..self }
    }

    /// The state with the mail server at work.
    pub open spec fn working(self, message: Seq<char>) -> UiV {
        UiV { busy: true, status_message: Some(message), spinner_frame: 0, ..self }
    }

    /// The state with the mail server idle.
    pub open spec fn idle(self) -> UiV {
        UiV { busy: false, status_message: None, ..self }
    }

    /// The state with no message shown.
    pub open spec fn silent(self) -> UiV {
        UiV { status_message: None, ..self }
    }
}

/// The number of frames of the spinner.
pub const SPINNER_LEN: usize = 10;

/// A frame of the spinner.
pub open spec fn spinner_frame(n: usize) -> char {
    match n {
        0 => '⠋',
        1 => '⠙',
        2 => '⠹',
        3 => '⠸',
        4 => '⠼',
        5 => '⠴',
        6 => '⠦',
        7 => '⠧',
        8 => '⠇',
        _ => '⠏',
    }
}

impl UiState {
    pub fn new() -> (r: Self)
        ensures
            r@ == UiV::initial(),
    {
        UiState {
            confirm_action: None,
            status_message: None,
            busy: false,
            spinner_frame: 0,
            viewport_heights: ViewportHeights {
                group_list: 0,
                email_list: 0,
                thread_view: 0,
                undo_history: 0,
                text_view: 0,
            },
            group_scroll_offset: 0,
            undo_scroll_offset: 0,
            text_view_state: TextViewState::Loading,
            showing_help: false,
            filter_input_active: false,
            filter_query: String::new(),
            celebration_frame: 0,
        }
    }

    /// Asks for confirmation.
    pub fn set_confirm(&mut self, action: ConfirmAction)
        ensures
            final(self)@ == old(self)@.asking(action@),
    {
        self.confirm_action = Some(action);
    }

    /// Asks no more.
    pub fn clear_confirm(&mut self)
        ensures
            final(self)@ == (UiV { confirm_action: None, ..old(self)@ }),
    {
        self.confirm_action = None;
    }

    /// Whether the user is asked to confirm something.
    pub fn is_confirming(&self) -> (r: bool)
        ensures
            r == (self@.confirm_action is Some),
    {
        self.confirm_action.is_some()
    }

    /// Shows a message.
    pub fn set_status(&mut self, msg: &str)
        ensures
            final(self)@ == old(self)@.saying(msg@),
    {
        self.status_message = Some(msg.to_owned());
    }

    /// Shows that the mail server is at work.
    pub fn set_busy(&mut self, msg: &str)
        ensures
            final(self)@ == old(self)@.working(msg@),
    {
        self.busy = true;
        self.status_message = Some(msg.to_owned());
        self.spinner_frame = 0;
    }

    /// Changes the message while the spinner turns on.
    pub fn update_busy_message(&mut self, msg: &str)
        ensures
            final(self)@ == old(self)@.saying(msg@),
    {
        self.status_message = Some(msg.to_owned());
    }

    /// Shows that the mail server is idle.
    pub fn clear_busy(&mut self)
        ensures
            final(self)@ == old(self)@.idle(),
    {
        self.busy = false;
        self.status_message = None;
    }

    /// Whether the mail server is at work.
    pub fn is_busy(&self) -> (r: bool)
        ensures
            r == self@.busy,
    {
        self.busy
    }

    /// Turns the spinner.
    pub fn tick_spinner(&mut self)
        requires
            old(self)@.spinner_frame < usize::MAX,
        ensures
            final(self)@ == (UiV {
                spinner_frame: ((old(self)@.spinner_frame + 1) % (SPINNER_LEN as int)) as usize,
                ..old(self)@
            }),
    {
        self.spinner_frame = (self.spinner_frame + 1) % SPINNER_LEN;
    }

    /// The present frame of the spinner.
    pub fn spinner_char(&self) -> (r: char)
        ensures
            r == spinner_frame(self@.spinner_frame % SPINNER_LEN),
    {
        match self.spinner_frame % SPINNER_LEN {
            0 => '⠋',
            1 => '⠙',
            2 => '⠹',
            3 => '⠸',
            4 => '⠼',
            5 => '⠴',
            6 => '⠦',
            7 => '⠧',
            8 => '⠇',
            _ => '⠏',
        }
    }

    /// Shows no message.
    pub fn clear_status(&mut self)
        ensures
            final(self)@ == old(self)@.silent(),
    {
        self.status_message = None;
    }

    /// Whether a message is shown.
    pub fn has_status(&self) -> (r: bool)
        ensures
            r == (self@.status_message is Some),
    {
        self.status_message.is_some()
    }

    pub fn show_help(&mut self)
        ensures
            final(self)@ == (UiV { showing_help: true, ..old(self)@ }),
    {
        self.showing_help = true;
    }

    pub fn hide_help(&mut self)
        ensures
            final(self)@ == (UiV { showing_help: false, ..old(self)@ }),
    {
        self.showing_help = false;
    }

    pub fn is_showing_help(&self) -> (r: bool)
        ensures
            r == self@.showing_help,
    {
        self.showing_help
    }

    /// Whether a filter is being typed.
    pub fn is_filter_input_active(&self) -> (r: bool)
        ensures
            r == self@.filter_input_active,
    {
        self.filter_input_active
    }

    /// Starts typing a filter.
    pub fn enter_filter_input_mode(&mut self)
        ensures
            final(self)@ == (UiV {
                filter_input_active: true,
                filter_query: Seq::empty(),
                ..old(self)@
            }),
    {
        self.filter_input_active = true;
        self.filter_query = String::new();
    }

    /// Goes on typing a filter.
    pub fn enter_filter_input_mode_with_query(&mut self, query: &str)
        ensures
            final(self)@ == (UiV {
                filter_input_active: true,
                filter_query: query@,
                ..old(self)@
            }),
    {
        self.filter_input_active = true;
        self.filter_query = query.to_owned();
    }

    /// Stops typing a filter.
    pub fn exit_filter_input_mode(&mut self)
        ensures
            final(self)@ == (UiV { filter_input_active: false, ..old(self)@ }),
    {
        self.filter_input_active = false;
    }

    pub fn clear_filter_query(&mut self)
        ensures
            final(self)@ == (UiV { filter_query: Seq::empty(), ..old(self)@ }),
    {
        self.filter_query = String::new();
    }

    /// The filter being typed.
    pub fn filter_query(&self) -> (r: &str)
        ensures
            r@ == self@.filter_query,
    {
        self.filter_query.as_str()
    }

    pub fn append_filter_char(&mut self, c: char)
        ensures
            final(self)@ == (UiV { filter_query: old(self)@.filter_query.push(c), ..old(self)@ }),
    {
        self.filter_query.push(c);
    }

    /// Takes the last character off the filter.
    pub fn backspace_filter(&mut self)
        ensures
            final(self)@ == (UiV {
                filter_query: if old(self)@.filter_query.len() == 0 {
                    Seq::empty()
                } else {
                    old(self)@.filter_query.drop_last()
                },
                ..old(self)@
            }),
    {
        let v: Vec<char> = to_chars(self.filter_query.as_str());
        if v.len() == 0 {
            self.filter_query = String::new();
        } else {
            self.filter_query = crate::text::from_chars(&v, 0, v.len() - 1);
            assert(self.filter_query@ =~= old(self)@.filter_query.drop_last());
        }
    }

    /// Moves the celebration of an empty inbox on.
    pub fn tick_celebration(&mut self)
        ensures
            final(self)@ == (UiV {
                celebration_frame: if old(self)@.celebration_frame == usize::MAX {
                    0
                } else {
                    (old(self)@.celebration_frame + 1) as usize
                },
                ..old(self)@
            }),
    {
        self.celebration_frame = if self.celebration_frame == usize::MAX {
            0
        } else {
            self.celebration_frame + 1
        };
    }
}

impl Default for UiState {
    fn default() -> (r: Self)
        ensures
            r@ == UiV::initial(),
    {
        UiState::new()
    }
}

// ---------------------------------------------------------------------------
// Places on screen

/// A rectangle on screen.
#[derive(Debug, Clone, Copy, PartialEq, Eq, Structural)]
pub struct Area {
    pub x: u16,
    pub y: u16,
    pub width: u16,
    pub height: u16,
}

impl Area {
    /// Whether the far corner can be written down.
    pub open spec fn fits(self) -> bool {
        self.x + self.width <= u16::MAX && self.y + self.height <= u16::MAX
    }
}

/// The number of bytes of a text.
pub open spec fn byte_len(s: Seq<char>) -> usize {
    encode_utf8(s).len() as usize
}

/// The room that a text is given: its bytes, counted in sixteen bits.
pub open spec fn text_width(s: Seq<char>) -> int {
    (byte_len(s) % 0x1_0000) as int
}

/// `a - b`, but not below zero.
pub open spec fn cut(a: int, b: int) -> int {
    if a >= b {
        a - b
    } else {
        0
    }
}

/// A box in the middle of an area that is as wide as a text asks for, as far as there is
/// room.
pub open spec fn modal_box(s: Seq<char>, area: Area) -> Area {
    let wanted = vstd::math::max(text_width(s) + 4, 20);
    let width = vstd::math::min(wanted, cut(area.width as int, 4));
    Area {
        x: (area.x + cut(area.width as int, width) / 2) as u16,
        y: (area.y + cut(area.height as int, 3) / 2) as u16,
        width: width as u16,
        height: 3,
    }
}

/// The column at which a text stands in the middle of an area.
pub open spec fn centered(s: Seq<char>, area: Area) -> int {
    area.x + cut(area.width as int, text_width(s)) / 2
}

/// The room that a text is given.
fn measure(s: &str) -> (r: u16)
    ensures
        r == text_width(s@),
{
    (s.len() % 0x1_0000) as u16
}

/// A box in the middle of an area for a text.
pub fn modal_area(s: &str, area: Area) -> (r: Area)
    requires
        text_width(s@) + 4 <= u16::MAX,
        area.fits(),
    ensures
        r == modal_box(s@, area),
{
    let wanted: u16 = if measure(s) + 4 > 20 {
        measure(s) + 4
    } else {
        20
    };
    let room: u16 = area.width.saturating_sub(4);
    let width: u16 = if wanted < room {
        wanted
    } else {
        room
    };
    Area {
        x: area.x + area.width.saturating_sub(width) / 2,
        y: area.y + area.height.saturating_sub(3) / 2,
        width,
        height: 3,
    }
}

/// The column at which a text stands in the middle of an area.
pub fn centered_column(s: &str, area: Area) -> (r: u16)
    requires
        area.fits(),
    ensures
        r == centered(s@, area),
{
    area.x + area.width.saturating_sub(measure(s)) / 2
}

/// Whether a text is a warning.
pub open spec fn is_warning_text(s: Seq<char>) -> bool {
    s.len() > 0 && s[0] == WARNING_CHAR
}

/// Whether a text is a warning.
fn warns(s: &str) -> (r: bool)
    ensures
        r == is_warning_text(s@),
{
    let v: Vec<char> = to_chars(s);
    v.len() > 0 && v[0] == WARNING_CHAR
}

/// The box that is shown while the mail server is at work.
pub struct BusyModalWidget<'a> {
    pub message: &'a str,
    pub spinner: char,
}

impl<'a> BusyModalWidget<'a> {
    pub fn new(message: &'a str, spinner: char) -> (r: Self)
        ensures
            r.message == message,
            r.spinner == spinner,
    {
        BusyModalWidget { message, spinner }
    }

    /// The spinner and the message.
    pub fn text(&self) -> (r: String)
        ensures
            r@ == seq![self.spinner] + " "@ + self.message@,
    {
        let mut r: String = String::new();
        r.push(self.spinner);
        assert(r@ =~= seq![self.spinner]);
        r.concat(" ").concat(self.message)
    }
}

/// The box of a message.
pub struct StatusModalWidget<'a> {
    pub message: &'a str,
}

impl<'a> StatusModalWidget<'a> {
    pub fn new(message: &'a str) -> (r: Self)
        ensures
            r.message == message,
    {
        StatusModalWidget { message }
    }

    /// Whether the message is a warning.
    pub fn is_warning(&self) -> (r: bool)
        ensures
            r == is_warning_text(self.message@),
    {
        warns(self.message)
    }
}

/// The confirmation dialog.
pub struct ConfirmDialogWidget<'a> {
    pub action: &'a ConfirmAction,
}

impl<'a> ConfirmDialogWidget<'a> {
    pub fn new(action: &'a ConfirmAction) -> (r: Self)
        ensures
            r.action == action,
    {
        ConfirmDialogWidget { action }
    }

    /// The lines that there is room for, each with whether it is a warning.
    pub fn lines(&self, height: usize) -> (r: Vec<(String, bool)>)
        ensures
            r@.len() == vstd::math::min(self.action@.message().len() as int, height as int),
            forall|k: int|
                0 <= k < r@.len() ==> (#[trigger] r@[k]).0@ == self.action@.message()[k] && r@[k].1
                    == is_warning_text(self.action@.message()[k]),
    {
        let all: Vec<String> = self.action.message();
        let mut r: Vec<(String, bool)> = Vec::new();
        let mut i: usize = 0;
        while i < all.len() && i < height
            invariant
                i <= all@.len(),
                i <= height,
                r@.len() == i,
                texts(all@) == self.action@.message(),
                forall|k: int|
                    0 <= k < i ==> (#[trigger] r@[k]).0@ == self.action@.message()[k] && r@[k].1
                        == is_warning_text(self.action@.message()[k]),
            decreases all@.len() - i,
        {
            assert(self.action@.message()[i as int] == all@[i as int]@);
            r.push((all[i].clone(), warns(all[i].as_str())));
            i += 1;
        }
        assert(texts(all@).len() == all@.len());
        r
    }
}

// ---------------------------------------------------------------------------
// Lists

/// How a date is written in lists: with the time in the present year, with the year in any
/// other.
pub open spec fn pattern_for(local_year: i32, current_year: i32) -> Seq<char> {
    if local_year == current_year {
        "%b %d %H:%M"@
    } else {
        "%b %d  %Y"@
    }
}

/// How a date is written in lists.
pub fn date_pattern(local_year: i32, current_year: i32) -> (r: &'static str)
    ensures
        r@ == pattern_for(local_year, current_year),
{
    if local_year == current_year {
        "%b %d %H:%M"
    } else {
        "%b %d  %Y"
    }
}

/// The mark of a thread filter in titles.
pub open spec fn filter_mark(filter: ThreadFilter) -> Seq<char> {
    match filter {
        ThreadFilter::All => ""@,
        ThreadFilter::OnlyThreads => " [Threads]"@,
        ThreadFilter::NoThreads => " [No Threads]"@,
    }
}

fn mark(filter: ThreadFilter) -> (r: &'static str)
    ensures
        r@ == filter_mark(filter),
{
    match filter {
        ThreadFilter::All => "",
        ThreadFilter::OnlyThreads => " [Threads]",
        ThreadFilter::NoThreads => " [No Threads]",
    }
}

/// The word for a group mode in titles.
pub open spec fn mode_word(mode: GroupMode) -> Seq<char> {
    match mode {
        GroupMode::BySenderEmail => "email"@,
        GroupMode::ByDomain => "domain"@,
    }
}

/// The number of messages in groups.
pub open spec fn group_total(groups: Seq<GroupV>) -> nat
    decreases groups.len(),
{
    if groups.len() == 0 {
        0
    } else {
        group_total(groups.drop_last()) + groups.last().emails.len()
    }
}

/// The title of the group list.
pub open spec fn group_list_title(s: AppV) -> Seq<char> {
    " Senders (by "@ + mode_word(s.group_mode) + ")"@ + filter_mark(s.thread_filter) + " — "@
        + decimal(group_total(s.filtered_groups())) + " emails in "@ + decimal(
        s.filtered_groups().len(),
    ) + " groups "@
}

/// The row of a group.
pub open spec fn group_row(s: AppV, g: GroupV) -> Seq<char> {
    let threads = thread_heads(g.emails).len();
    let emails = g.emails.len();
    let start = if s.has_multi(g) {
        "◈ "@
    } else {
        "  "@
    } + g.key + " ("@ + decimal(emails) + " emails"@;
    if threads == emails {
        start + ")"@
    } else {
        start + " in "@ + decimal(threads) + " threads)"@
    }
}

/// Whether a group has the key of the selected group.
pub open spec fn is_selected_key(s: AppV, key: Seq<char>) -> bool {
    s.current_group() matches Some(g) && g.key == key
}

proof fn lemma_group_total_grows(groups: Seq<GroupV>, i: int)
    requires
        0 <= i <= groups.len(),
    ensures
        group_total(groups.take(i)) <= group_total(groups),
    decreases groups.len(),
{
    if i == groups.len() {
        assert(groups.take(i) =~= groups);
    } else {
        lemma_group_total_grows(groups.drop_last(), i);
        assert(groups.drop_last().take(i) =~= groups.take(i));
    }
}

/// The list of groups.
pub struct GroupListWidget<'a> {
    pub app: &'a App,
    pub scroll_offset: usize,
}

impl<'a> GroupListWidget<'a> {
    pub fn new(app: &'a App, scroll_offset: usize) -> (r: Self)
        ensures
            r.app == app,
            r.scroll_offset == scroll_offset,
    {
        GroupListWidget { app, scroll_offset }
    }

    /// The number of messages in the groups on screen, if it can be written down.
    pub fn total(&self) -> (r: Option<usize>)
        ensures
            match r {
                Some(n) => n == group_total(self.app@.filtered_groups()),
                None => group_total(self.app@.filtered_groups()) > usize::MAX,
            },
    {
        let groups: Vec<&EmailGroup> = self.app.filtered_groups();
        let ghost all = group_refs(groups@);
        let mut total: usize = 0;
        let mut i: usize = 0;
        while i < groups.len()
            invariant
                i <= groups@.len(),
                all == group_refs(groups@),
                all == self.app@.filtered_groups(),
                total == group_total(all.take(i as int)),
            decreases groups@.len() - i,
        {
            proof {
                assert(all.take(i + 1).drop_last() =~= all.take(i as int));
                assert(all.take(i + 1).last() == groups@[i as int]@);
                lemma_group_total_grows(all, i + 1);
            }
            match total.checked_add(groups[i].count()) {
                Some(sum) => {
                    total = sum;
                },
                None => {
                    return None;
                },
            }
            i += 1;
        }
        assert(all.take(i as int) =~= all);
        Some(total)
    }

    /// The title of the list.
    pub fn title(&self) -> (r: String)
        requires
            group_total(self.app@.filtered_groups()) <= usize::MAX,
        ensures
            r@ == group_list_title(self.app@),
    {
        let mode: &str = match self.app.group_mode {
            GroupMode::BySenderEmail => "email",
            GroupMode::ByDomain => "domain",
        };
        let total: usize = match self.total() {
            Some(n) => n,
            None => 0,
        };
        let groups: Vec<&EmailGroup> = self.app.filtered_groups();
        assert(group_refs(groups@).len() == groups@.len());
        " Senders (by ".to_owned().concat(mode).concat(")").concat(
            mark(self.app.thread_filter),
        ).concat(" — ").concat(decimal_text(total as u64).as_str()).concat(
            " emails in ",
        ).concat(decimal_text(groups.len() as u64).as_str()).concat(" groups ")
    }

    /// The row of a group.
    fn row(&self, group: &EmailGroup) -> (r: String)
        ensures
            r@ == group_row(self.app@, group@),
    {
        let indicator: &str = if self.app.group_has_multi_message_threads(group) {
            "◈ "
        } else {
            "  "
        };
        let threads: usize = group.thread_count();
        let emails: usize = group.count();
        let start: String = indicator.to_owned().concat(group.key.as_str()).concat(" (").concat(
            decimal_text(emails as u64).as_str(),
        ).concat(" emails");
        if threads == emails {
            start.concat(")")
        } else {
            start.concat(" in ").concat(decimal_text(threads as u64).as_str()).concat(" threads)")
        }
    }

    /// The rows that there is room for, each with whether it is the selected one.
    pub fn rows(&self, height: usize) -> (r: Vec<(String, bool)>)
        ensures
            r@.len() == vstd::math::min(
                cut(self.app@.filtered_groups().len() as int, self.scroll_offset as int),
                height as int,
            ),
            forall|k: int|
                0 <= k < r@.len() ==> ({
                    let g = self.app@.filtered_groups()[self.scroll_offset + k];
                    &&& (#[trigger] r@[k]).0@ == group_row(self.app@, g)
                    &&& r@[k].1 == is_selected_key(self.app@, g.key)
                }),
    {
        let groups: Vec<&EmailGroup> = self.app.filtered_groups();
        let ghost all = self.app@.filtered_groups();
        let current: Option<&EmailGroup> = self.app.current_group();
        let mut r: Vec<(String, bool)> = Vec::new();
        assert(group_refs(groups@).len() == groups@.len());
        let mut i: usize = self.scroll_offset;
        while i < groups.len() && i - self.scroll_offset < height
            invariant
                self.scroll_offset <= i,
                i <= groups@.len() || i == self.scroll_offset,
                i - self.scroll_offset <= height,
                group_refs(groups@) == all,
                all == self.app@.filtered_groups(),
                all.len() == groups@.len(),
                match current {
                    Some(g) => self.app@.current_group() == Some(g@),
                    None => self.app@.current_group() is None,
                },
                r@.len() == i - self.scroll_offset,
                forall|k: int|
                    0 <= k < r@.len() ==> ({
                        let g = all[self.scroll_offset + k];
                        &&& (#[trigger] r@[k]).0@ == group_row(self.app@, g)
                        &&& r@[k].1 == is_selected_key(self.app@, g.key)
                    }),
            decreases groups@.len() - i,
        {
            assert(all[i as int] == groups@[i as int]@);
            let selected: bool = match current {
                Some(g) => str_eq(g.key.as_str(), groups[i].key.as_str()),
                None => false,
            };
            r.push((self.row(groups[i]), selected));
            i += 1;
        }
        r
    }
}

/// The title of the message list.
pub open spec fn email_list_title(s: AppV) -> Seq<char> {
    match s.current_group() {
        Some(g) => {
            let threads = thread_heads(g.emails).len();
            let emails = s.shown_thread_email_count(g);
            let start = " Threads from "@ + g.key + filter_mark(s.thread_filter) + " — "@
                + decimal(threads) + " threads "@;
            if threads == emails {
                start
            } else {
                start + "("@ + decimal(emails) + " emails) "@
            }
        },
        None => " Threads "@,
    }
}

/// A row of the message list.
#[derive(Debug, PartialEq)]
pub struct EmailRow {
    pub date: Timestamp,
    /// Whether the thread has several messages.
    pub multi: bool,
    pub subject: String,
}

/// What is said where a thread filter leaves nothing.
pub const NO_THREADS: &'static str = "No threads in this group (press t to show all)";

/// The list of messages of a group.
pub struct EmailListWidget<'a> {
    pub app: &'a App,
}

impl<'a> EmailListWidget<'a> {
    pub fn new(app: &'a App) -> (r: Self)
        ensures
            r.app == app,
    {
        EmailListWidget { app }
    }

    /// Whether the number of messages in the title can be written down.
    pub fn counts_fit(&self) -> (r: bool)
        ensures
            r == (self.app@.current_group() matches Some(g) ==> self.app@.shown_thread_email_count(g)
                <= usize::MAX),
    {
        match self.app.current_group() {
            Some(g) => self.app.thread_email_total(g).is_some(),
            None => true,
        }
    }

    /// The title of the list.
    pub fn title(&self) -> (r: String)
        requires
            self.app@.current_group() matches Some(g) ==> self.app@.shown_thread_email_count(g)
                <= usize::MAX,
        ensures
            r@ == email_list_title(self.app@),
    {
        match self.app.current_group() {
            Some(g) => {
                let emails: usize = self.app.full_thread_email_count_for_group(g);
                let threads: usize = g.thread_count();
                let start: String = " Threads from ".to_owned().concat(g.key.as_str()).concat(
                    mark(self.app.thread_filter),
                ).concat(" — ").concat(decimal_text(threads as u64).as_str()).concat(" threads ");
                if threads == emails {
                    start
                } else {
                    start.concat("(").concat(decimal_text(emails as u64).as_str()).concat(
                        " emails) ",
                    )
                }
            },
            None => " Threads ".to_owned(),
        }
    }

    /// What is said in place of the rows: a thread filter leaves nothing.
    pub fn placeholder(&self) -> (r: Option<&'static str>)
        ensures
            opt_str(r) == if self.app@.filtered_threads().len() == 0 && self.app@.thread_filter
                != ThreadFilter::All {
                Some(NO_THREADS@)
            } else {
                None
            },
    {
        let threads: Vec<&Email> = self.app.filtered_threads_in_current_group();
        assert(mail_refs(threads@).len() == threads@.len());
        if threads.len() == 0 && self.app.thread_filter != ThreadFilter::All {
            Some(NO_THREADS)
        } else {
            None
        }
    }

    /// One row for each thread on screen.
    pub fn rows(&self) -> (r: Vec<EmailRow>)
        ensures
            r@.len() == self.app@.filtered_threads().len(),
            forall|k: int|
                0 <= k < r@.len() ==> ({
                    let e = self.app@.filtered_threads()[k];
                    &&& (#[trigger] r@[k]).date == e.date
                    &&& r@[k].multi == self.app@.is_multi(e.thread_id)
                    &&& r@[k].subject@ == e.subject
                }),
    {
        let threads: Vec<&Email> = self.app.filtered_threads_in_current_group();
        let ghost all = self.app@.filtered_threads();
        let mut r: Vec<EmailRow> = Vec::new();
        let mut i: usize = 0;
        while i < threads.len()
            invariant
                i <= threads@.len(),
                mail_refs(threads@) == all,
                all == self.app@.filtered_threads(),
                r@.len() == i,
                forall|k: int|
                    0 <= k < r@.len() ==> ({
                        let e = all[k];
                        &&& (#[trigger] r@[k]).date == e.date
                        &&& r@[k].multi == self.app@.is_multi(e.thread_id)
                        &&& r@[k].subject@ == e.subject
                    }),
            decreases threads@.len() - i,
        {
            assert(all[i as int] == threads@[i as int]@);
            let email: &Email = threads[i];
            r.push(
                EmailRow {
                    date: email.date,
                    multi: self.app.thread_has_multiple_messages(email.thread_id.as_str()),
                    subject: email.subject.clone(),
                },
            );
            i += 1;
        }
        assert(mail_refs(threads@).len() == threads@.len());
        r
    }
}

/// The title of the thread view.
pub open spec fn thread_title(s: AppV) -> Seq<char> {
    match s.current_email() {
        Some(e) => {
            let start = " Thread: "@ + e.subject + " — "@;
            if s.thread_emails().len() == 1 {
                start + "1 email "@
            } else {
                start + decimal(s.thread_emails().len()) + " emails "@
            }
        },
        None => " Thread "@,
    }
}

/// A row of the thread view.
#[derive(Debug, PartialEq)]
pub struct ThreadRow {
    pub date: Timestamp,
    pub from_email: String,
    pub subject: String,
    /// Whether someone else than the sender of the thread's message sent it.
    pub other_sender: bool,
}

/// The messages of a thread.
pub struct ThreadViewWidget<'a> {
    pub app: &'a App,
}

impl<'a> ThreadViewWidget<'a> {
    pub fn new(app: &'a App) -> (r: Self)
        ensures
            r.app == app,
    {
        ThreadViewWidget { app }
    }

    /// The title of the view.
    pub fn title(&self) -> (r: String)
        ensures
            r@ == thread_title(self.app@),
    {
        let emails: Vec<&Email> = self.app.current_thread_emails();
        assert(mail_refs(emails@).len() == emails@.len());
        match self.app.current_email() {
            Some(e) => {
                let start: String = " Thread: ".to_owned().concat(e.subject.as_str()).concat(" — ");
                if emails.len() == 1 {
                    start.concat("1 email ")
                } else {
                    start.concat(decimal_text(emails.len() as u64).as_str()).concat(" emails ")
                }
            },
            None => " Thread ".to_owned(),
        }
    }

    /// One row for each message of the thread.
    pub fn rows(&self) -> (r: Vec<ThreadRow>)
        ensures
            r@.len() == self.app@.thread_emails().len(),
            forall|k: int|
                0 <= k < r@.len() ==> ({
                    let e = self.app@.thread_emails()[k];
                    &&& (#[trigger] r@[k]).date == e.date
                    &&& r@[k].from_email@ == e.from_email
                    &&& r@[k].subject@ == e.subject
                    &&& r@[k].other_sender == (self.app@.current_email() matches Some(c)
                        && c.from_email != e.from_email)
                }),
    {
        let emails: Vec<&Email> = self.app.current_thread_emails();
        let current: Option<&Email> = self.app.current_email();
        let ghost all = self.app@.thread_emails();
        let mut r: Vec<ThreadRow> = Vec::new();
        let mut i: usize = 0;
        while i < emails.len()
            invariant
                i <= emails@.len(),
                mail_refs(emails@) == all,
                all == self.app@.thread_emails(),
                match current {
                    Some(c) => self.app@.current_email() == Some(c@),
                    None => self.app@.current_email() is None,
                },
                r@.len() == i,
                forall|k: int|
                    0 <= k < r@.len() ==> ({
                        let e = all[k];
                        &&& (#[trigger] r@[k]).date == e.date
                        &&& r@[k].from_email@ == e.from_email
                        &&& r@[k].subject@ == e.subject
                        &&& r@[k].other_sender == (self.app@.current_email() matches Some(c)
                            && c.from_email != e.from_email)
                    }),
            decreases emails@.len() - i,
        {
            assert(all[i as int] == emails@[i as int]@);
            let email: &Email = emails[i];
            let other_sender: bool = match current {
                Some(c) => !str_eq(c.from_email.as_str(), email.from_email.as_str()),
                None => false,
            };
            r.push(
                ThreadRow {
                    date: email.date,
                    from_email: email.from_email.clone(),
                    subject: email.subject.clone(),
                    other_sender,
                },
            );
            i += 1;
        }
        assert(mail_refs(emails@).len() == emails@.len());
        r
    }
}

// ---------------------------------------------------------------------------
// Bars

/// The keys of a view.
pub open spec fn help_text(view: View) -> Seq<char> {
    match view {
        View::GroupList =>
            "j/↓: next | k/↑: prev | Enter: open | t: threads only | m: toggle mode | r: refresh | q: quit"@,
        View::EmailList =>
            "j/↓: next | k/↑: prev | Enter: thread | a/A: archive | d/D: delete | t: threads only | m: toggle | q: back"@,
        View::Thread =>
            "j/↓: next | k/↑: prev | Enter: browser | A: archive | D: delete | q: back"@,
        View::UndoHistory => "j/↓: next | k/↑: prev | Enter: undo | Esc: back | q: quit"@,
        View::EmailBody => "j/↓: down | k/↑: up | e: browser | Esc: back | q: quit"@,
    }
}

/// The bar at the bottom.
pub struct HelpBarWidget<'a> {
    pub app: &'a App,
}

impl<'a> HelpBarWidget<'a> {
    pub fn new(app: &'a App) -> (r: Self)
        ensures
            r.app == app,
    {
        HelpBarWidget { app }
    }

    /// The keys of the present view.
    pub fn text(&self) -> (r: &'static str)
        ensures
            r@ == help_text(self.app@.view),
    {
        match self.app.view {
            View::GroupList =>
                "j/↓: next | k/↑: prev | Enter: open | t: threads only | m: toggle mode | r: refresh | q: quit",
            View::EmailList =>
                "j/↓: next | k/↑: prev | Enter: thread | a/A: archive | d/D: delete | t: threads only | m: toggle | q: back",
            View::Thread =>
                "j/↓: next | k/↑: prev | Enter: browser | A: archive | D: delete | q: back",
            View::UndoHistory => "j/↓: next | k/↑: prev | Enter: undo | Esc: back | q: quit",
            View::EmailBody => "j/↓: down | k/↑: up | e: browser | Esc: back | q: quit",
        }
    }
}

// ---------------------------------------------------------------------------
// Accounts

/// The choice of an account.
#[derive(Debug, PartialEq)]
pub struct AccountSelection {
    /// The accounts by name.
    pub accounts: Vec<(String, AccountConfig)>,
    pub selected: usize,
}

impl AccountSelection {
    pub fn new(accounts: Vec<(String, AccountConfig)>) -> (r: Self)
        ensures
            r.accounts == accounts,
            r.selected == 0,
    {
        AccountSelection { accounts, selected: 0 }
    }

    /// Selects the next account, if there is one.
    pub fn select_next(&mut self)
        ensures
            final(self).accounts == old(self).accounts,
            final(self).selected == if old(self).selected + 1 < old(self).accounts@.len() {
                old(self).selected + 1
            } else {
                old(self).selected as int
            },
    {
        if self.selected < self.accounts.len().saturating_sub(1) {
            self.selected = self.selected + 1;
        }
    }

    /// Selects the account before, if there is one.
    pub fn select_previous(&mut self)
        ensures
            final(self).accounts == old(self).accounts,
            final(self).selected == cut(old(self).selected as int, 1),
    {
        if self.selected > 0 {
            self.selected = self.selected - 1;
        }
    }

    /// The selected account.
    pub fn current_account(&self) -> (r: Option<&(String, AccountConfig)>)
        ensures
            match r {
                Some(account) => self.selected < self.accounts@.len() && *account
                    == self.accounts@[self.selected as int],
                None => self.selected >= self.accounts@.len(),
            },
    {
        if self.selected < self.accounts.len() {
            Some(&self.accounts[self.selected])
        } else {
            None
        }
    }
}

/// The list of accounts.
pub struct AccountSelectWidget<'a> {
    pub selection: &'a AccountSelection,
}

impl<'a> AccountSelectWidget<'a> {
    pub fn new(selection: &'a AccountSelection) -> (r: Self)
        ensures
            r.selection == selection,
    {
        AccountSelectWidget { selection }
    }

    /// The rows that there is room for above the keys, each with whether it is the selected
    /// one.
    pub fn rows(&self, height: usize) -> (r: Vec<(String, bool)>)
        ensures
            r@.len() == vstd::math::min(
                self.selection.accounts@.len() as int,
                cut(height as int, 2),
            ),
            forall|k: int|
                0 <= k < r@.len() ==> ({
                    let account = self.selection.accounts@[k];
                    &&& (#[trigger] r@[k]).0@ == account.0@ + " ("@ + account.1.email@ + ")"@
                    &&& r@[k].1 == (k == self.selection.selected)
                }),
    {
        let accounts: &Vec<(String, AccountConfig)> = &self.selection.accounts;
        let mut r: Vec<(String, bool)> = Vec::new();
        let mut i: usize = 0;
        while i < accounts.len() && i < height.saturating_sub(2)
            invariant
                accounts == self.selection.accounts,
                i <= accounts@.len(),
                i <= cut(height as int, 2),
                r@.len() == i,
                forall|k: int|
                    0 <= k < r@.len() ==> ({
                        let account = accounts@[k];
                        &&& (#[trigger] r@[k]).0@ == account.0@ + " ("@ + account.1.email@ + ")"@
                        &&& r@[k].1 == (k == self.selection.selected)
                    }),
            decreases accounts@.len() - i,
        {
            let row: String = accounts[i].0.clone().concat(" (").concat(
                accounts[i].1.email.as_str(),
            ).concat(")");
            r.push((row, i == self.selection.selected));
            i += 1;
        }
        r
    }
}

/// The keys of the list of accounts.
pub const ACCOUNT_HELP: &'static str = "j/↓: next | k/↑: prev | Enter: select | q: quit";

} // verus!
