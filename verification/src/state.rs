//! The state of the application as a value, and how it changes.
use vstd::prelude::*;

use crate::email::EmailV;
use crate::grouping::{grouping, GroupV};
use crate::listing::{
    has_thread, in_thread, in_threads_of, newest_first, thread_heads, thread_size,
};
use crate::modes::{GroupMode, SelectionResult, ThreadFilter, View};
use crate::text::{contains_text, lowercase};
use crate::undo::{with_entry, UndoEntryV};

verus! {

/// The state of the application.
#[verifier::ext_equal]
pub struct AppV {
    pub groups: Seq<GroupV>,
    pub group_mode: GroupMode,
    pub selected_group: usize,
    pub selected_email: Option<usize>,
    pub selected_thread_email: Option<usize>,
    pub view: View,
    pub emails: Seq<EmailV>,
    pub user_email: Option<Seq<char>>,
    pub thread_filter: ThreadFilter,
    /// The actions that can be undone, newest first.
    pub undo_history: Seq<UndoEntryV>,
    pub selected_undo: usize,
    /// The view that closing the present one returns to.
    pub previous_view: Option<View>,
    /// The key of the group on screen, which outlives the group.
    pub viewing_group_key: Option<Seq<char>>,
    pub emails_loaded: bool,
    /// The ids of the selected messages.
    pub selected_emails: Set<Seq<char>>,
    pub text_view_scroll: usize,
    pub viewing_email_id: Option<Seq<char>>,
    pub text_filter: Option<Seq<char>>,
}

// ---------------------------------------------------------------------------
// Positions

/// The first position at or after `from` with a group of that key, or the number of
/// groups where there is none.
pub open spec fn key_position(groups: Seq<GroupV>, key: Seq<char>, from: int) -> int
    decreases groups.len() - from,
{
    if from >= groups.len() || groups[from].key == key {
        if from >= groups.len() {
            groups.len() as int
        } else {
            from
        }
    } else {
        key_position(groups, key, from + 1)
    }
}

/// A position moved onto the last place where it lies behind the end of a list that is not
/// empty.
pub open spec fn clamped(position: usize, len: nat) -> usize {
    if position >= len && len > 0 {
        (len - 1) as usize
    } else {
        position
    }
}

/// One place further, but not past the last; the first where there was none.
pub open spec fn one_further(position: Option<usize>, len: nat) -> Option<usize> {
    if len == 0 {
        position
    } else {
        match position {
            Some(i) => if i < len - 1 {
                Some((i + 1) as usize)
            } else {
                Some(i)
            },
            None => Some(0),
        }
    }
}

/// One place back, but not before the first.
pub open spec fn one_back(position: Option<usize>) -> Option<usize> {
    match position {
        Some(i) => if i > 0 {
            Some((i - 1) as usize)
        } else {
            Some(i)
        },
        None => None,
    }
}

/// A position that is valid in a list: the position itself, or the first one, or none where
/// the list is empty.
pub open spec fn made_valid(position: Option<usize>, len: nat) -> Option<usize> {
    if len == 0 {
        None
    } else {
        match position {
            Some(i) => if i < len {
                Some(i)
            } else {
                Some(0)
            },
            None => Some(0),
        }
    }
}

/// A position that is kept while it is valid, and otherwise becomes the first one, or none
/// where the list is empty. No position stays no position.
pub open spec fn kept_or_first(position: Option<usize>, len: nat) -> Option<usize> {
    match position {
        Some(i) => if i < len {
            Some(i)
        } else if len == 0 {
            None
        } else {
            Some(0)
        },
        None => None,
    }
}

/// A position that is kept while it is valid, and otherwise becomes the last one, or none
/// where the list is empty.
pub open spec fn kept_or_last(position: Option<usize>, len: nat) -> Option<usize> {
    if len == 0 {
        None
    } else {
        match position {
            Some(i) => if i < len {
                Some(i)
            } else {
                Some((len - 1) as usize)
            },
            None => Some((len - 1) as usize),
        }
    }
}

/// The first position, or none where the list is empty.
pub open spec fn first_of(len: nat) -> Option<usize> {
    if len == 0 {
        None
    } else {
        Some(0)
    }
}

/// The id and the folder of messages.
pub open spec fn ids_and_folders(s: Seq<EmailV>) -> Seq<(Seq<char>, Seq<char>)> {
    s.map_values(|e: EmailV| (e.id, e.source_folder))
}

/// The id, the Message-ID and the folder of messages.
pub open spec fn for_undo(s: Seq<EmailV>) -> Seq<(Seq<char>, Option<Seq<char>>, Seq<char>)> {
    s.map_values(|e: EmailV| (e.id, e.message_id, e.source_folder))
}

/// Whether some message of a list has an id.
pub open spec fn has_id(s: Seq<EmailV>, id: Seq<char>) -> bool {
    exists|k: int| 0 <= k < s.len() && (#[trigger] s[k]).id == id
}

/// The first position at or after `from` of a message with an id, or the number of messages
/// where there is none.
pub open spec fn id_position(s: Seq<EmailV>, id: Seq<char>, from: int) -> int
    decreases s.len() - from,
{
    if from >= s.len() {
        s.len() as int
    } else if s[from].id == id {
        from
    } else {
        id_position(s, id, from + 1)
    }
}

/// The messages with some other id.
pub open spec fn other_id(id: Seq<char>) -> spec_fn(EmailV) -> bool {
    |e: EmailV| e.id != id
}

/// The messages outside a thread.
pub open spec fn outside_thread(thread_id: Seq<char>) -> spec_fn(EmailV) -> bool {
    |e: EmailV| e.thread_id != thread_id
}

/// The messages outside the threads of some messages.
pub open spec fn outside_threads_of(s: Seq<EmailV>) -> spec_fn(EmailV) -> bool {
    |e: EmailV| !has_thread(s, e.thread_id)
}

impl AppV {
    // -----------------------------------------------------------------------
    // What is shown

    /// Whether a thread has several messages.
    pub open spec fn is_multi(self, thread_id: Seq<char>) -> bool {
        thread_size(self.emails, thread_id) > 1
    }

    /// Whether the thread filter lets a message through.
    pub open spec fn passes(self, e: EmailV) -> bool {
        match self.thread_filter {
            ThreadFilter::All => true,
            ThreadFilter::OnlyThreads => self.is_multi(e.thread_id),
            ThreadFilter::NoThreads => !self.is_multi(e.thread_id),
        }
    }

    /// Whether the text filter lets a message through: its query stands in the subject, in
    /// the sender or in the address, letter case aside.
    pub open spec fn matches_text(self, e: EmailV) -> bool {
        match self.text_filter {
            None => true,
            Some(query) => {
                ||| contains_text(lowercase(e.subject), lowercase(query))
                ||| contains_text(lowercase(e.from), lowercase(query))
                ||| contains_text(lowercase(e.from_email), lowercase(query))
            },
        }
    }

    /// The messages that both filters let through.
    pub open spec fn shown(self) -> spec_fn(EmailV) -> bool {
        |e: EmailV| self.passes(e) && self.matches_text(e)
    }

    /// The messages that the thread filter lets through.
    pub open spec fn passing(self) -> spec_fn(EmailV) -> bool {
        |e: EmailV| self.passes(e)
    }

    /// Whether a group has a message in a thread with several messages.
    pub open spec fn has_multi(self, g: GroupV) -> bool {
        exists|k: int| 0 <= k < g.emails.len() && self.is_multi((#[trigger] g.emails[k]).thread_id)
    }

    /// Whether a group has a message that is alone in its thread.
    pub open spec fn has_single(self, g: GroupV) -> bool {
        exists|k: int|
            0 <= k < g.emails.len() && !self.is_multi((#[trigger] g.emails[k]).thread_id)
    }

    /// Whether a group is shown.
    pub open spec fn shows_group(self, g: GroupV) -> bool {
        match self.thread_filter {
            ThreadFilter::All => true,
            ThreadFilter::OnlyThreads => self.has_multi(g),
            ThreadFilter::NoThreads => self.has_single(g),
        }
    }

    /// The groups that are shown.
    pub open spec fn shown_group(self) -> spec_fn(GroupV) -> bool {
        |g: GroupV| self.shows_group(g)
    }

    /// The groups on screen.
    pub open spec fn filtered_groups(self) -> Seq<GroupV> {
        self.groups.filter(self.shown_group())
    }

    /// Whether a group with that key is on screen.
    pub open spec fn shows_key(self, key: Seq<char>) -> bool {
        exists|k: int|
            0 <= k < self.filtered_groups().len() && (#[trigger] self.filtered_groups()[k]).key
                == key
    }

    /// The selected group.
    pub open spec fn current_group(self) -> Option<GroupV> {
        if self.selected_group < self.groups.len() {
            Some(self.groups[self.selected_group as int])
        } else {
            None
        }
    }

    /// The threads on screen, each as its first message.
    pub open spec fn filtered_threads(self) -> Seq<EmailV> {
        match self.current_group() {
            Some(g) => thread_heads(g.emails).filter(self.shown()),
            None => Seq::empty(),
        }
    }

    /// The messages of the current group that the filters let through.
    pub open spec fn filtered_emails(self) -> Seq<EmailV> {
        match self.current_group() {
            Some(g) => g.emails.filter(self.shown()),
            None => Seq::empty(),
        }
    }

    /// The selected thread, as its first message.
    pub open spec fn current_email(self) -> Option<EmailV> {
        match self.selected_email {
            Some(i) => if i < self.filtered_threads().len() {
                Some(self.filtered_threads()[i as int])
            } else {
                None
            },
            None => None,
        }
    }

    /// The messages of the selected thread, newest first.
    pub open spec fn thread_emails(self) -> Seq<EmailV> {
        match self.current_email() {
            Some(e) => newest_first(self.emails.filter(in_thread(e.thread_id))),
            None => Seq::empty(),
        }
    }

    /// The selected message of the selected thread.
    pub open spec fn current_thread_email(self) -> Option<EmailV> {
        match self.selected_thread_email {
            Some(i) => if i < self.thread_emails().len() {
                Some(self.thread_emails()[i as int])
            } else {
                None
            },
            None => None,
        }
    }

    /// The messages of the current group that are shown and selected.
    pub open spec fn selected_shown(self) -> Seq<EmailV> {
        self.filtered_emails().filter(self.is_selected())
    }

    /// The messages that are selected.
    pub open spec fn is_selected(self) -> spec_fn(EmailV) -> bool {
        |e: EmailV| self.selected_emails.contains(e.id)
    }

    /// The messages of the threads on screen, whoever sent them.
    pub open spec fn group_thread_emails(self) -> Seq<EmailV> {
        self.emails.filter(in_threads_of(self.filtered_emails()))
    }

    /// The messages of the selected threads on screen, whoever sent them.
    pub open spec fn selected_thread_emails(self) -> Seq<EmailV> {
        self.emails.filter(in_threads_of(self.selected_shown()))
    }

    /// The number of messages in a thread; a thread that is not known counts as one message.
    pub open spec fn counted_size(self, thread_id: Seq<char>) -> nat {
        let n = thread_size(self.emails, thread_id);
        if n == 0 {
            1
        } else {
            n
        }
    }

    /// The number of messages in the threads that some messages stand for.
    pub open spec fn counted_sizes(self, heads: Seq<EmailV>) -> nat
        decreases heads.len(),
    {
        if heads.len() == 0 {
            0
        } else {
            self.counted_sizes(heads.drop_last()) + self.counted_size(heads.last().thread_id)
        }
    }

    /// The number of threads that a group shows. Where only messages without a thread are
    /// shown, each of them counts.
    pub open spec fn shown_thread_count(self, g: GroupV) -> nat {
        if self.thread_filter == ThreadFilter::NoThreads {
            g.emails.filter(self.passing()).len()
        } else {
            thread_heads(g.emails.filter(self.passing())).len()
        }
    }

    /// The number of messages in the threads that a group shows, whoever sent them.
    pub open spec fn shown_thread_email_count(self, g: GroupV) -> nat {
        self.counted_sizes(thread_heads(g.emails.filter(self.passing())))
    }

    /// The message whose body is on screen.
    pub open spec fn viewing_email(self) -> Option<EmailV> {
        match self.viewing_email_id {
            Some(id) => {
                let at = id_position(self.emails, id, 0);
                if at < self.emails.len() {
                    Some(self.emails[at])
                } else {
                    None
                }
            },
            None => None,
        }
    }

    /// Whether some selected message is shown.
    pub open spec fn has_visible_selection(self) -> bool {
        exists|k: int|
            0 <= k < self.filtered_emails().len() && self.selected_emails.contains(
                (#[trigger] self.filtered_emails()[k]).id,
            )
    }

    // -----------------------------------------------------------------------
    // Loading and grouping

    /// The state at the start.
    pub open spec fn initial() -> AppV {
        AppV {
            groups: Seq::empty(),
            group_mode: GroupMode::BySenderEmail,
            selected_group: 0,
            selected_email: None,
            selected_thread_email: None,
            view: View::GroupList,
            emails: Seq::empty(),
            user_email: None,
            thread_filter: ThreadFilter::All,
            undo_history: Seq::empty(),
            selected_undo: 0,
            previous_view: None,
            viewing_group_key: None,
            emails_loaded: false,
            selected_emails: Set::empty(),
            text_view_scroll: 0,
            viewing_email_id: None,
            text_filter: None,
        }
    }

    /// The state with its messages grouped anew. The group on screen stays on screen
    /// wherever it now stands; where it is gone, the group that took its place is on screen.
    pub open spec fn regrouped(self) -> AppV {
        let groups = grouping(self.emails, self.user_email, self.group_mode);
        match self.viewing_group_key {
            Some(key) => {
                let at = key_position(groups, key, 0);
                if at < groups.len() {
                    AppV { groups, selected_group: at as usize, ..self }
                } else {
                    let selected_group = clamped(self.selected_group, groups.len());
                    AppV {
                        groups,
                        selected_group,
                        viewing_group_key: if selected_group < groups.len() {
                            Some(groups[selected_group as int].key)
                        } else {
                            None
                        },
                        ..self
                    }
                }
            },
            None => AppV {
                groups,
                selected_group: clamped(self.selected_group, groups.len()),
                ..self
            },
        }
    }

    /// The state with some messages in place of those it had.
    pub open spec fn with_emails(self, emails: Seq<EmailV>) -> AppV {
        AppV { emails, ..self }.regrouped()
    }

    /// The state after loading messages.
    pub open spec fn loaded(self, emails: Seq<EmailV>) -> AppV {
        AppV { emails_loaded: true, ..self }.with_emails(emails)
    }

    /// The state with nothing selected.
    pub open spec fn deselected(self) -> AppV {
        AppV { selected_emails: Set::empty(), ..self }
    }

    /// The state after changing the group mode.
    pub open spec fn group_mode_toggled(self) -> AppV {
        AppV {
            selected_group: 0,
            selected_email: None,
            selected_thread_email: None,
            ..AppV { group_mode: self.group_mode.other(), ..self }.regrouped()
        }.deselected()
    }

    // -----------------------------------------------------------------------
    // Moving

    /// The first group at or after `from` that is shown, or the number of groups.
    pub open spec fn shown_at_or_after(self, from: int) -> int
        decreases self.groups.len() - from,
    {
        if from >= self.groups.len() {
            self.groups.len() as int
        } else if self.shows_group(self.groups[from]) {
            from
        } else {
            self.shown_at_or_after(from + 1)
        }
    }

    /// The last group before `to` that is shown, or -1.
    pub open spec fn shown_before(self, to: int) -> int
        decreases to,
    {
        if to <= 0 {
            -1
        } else if self.shows_group(self.groups[to - 1]) {
            to - 1
        } else {
            self.shown_before(to - 1)
        }
    }

    /// The selected group after moving on: the next one that is shown, if any.
    pub open spec fn next_group(self) -> usize {
        let at = self.shown_at_or_after(self.selected_group + 1);
        if at < self.groups.len() {
            at as usize
        } else {
            self.selected_group
        }
    }

    /// The selected group after moving back: the one before it that is shown, if any.
    pub open spec fn previous_group(self) -> usize {
        if self.thread_filter == ThreadFilter::All {
            if self.selected_group > 0 {
                (self.selected_group - 1) as usize
            } else {
                0
            }
        } else {
            let at = self.shown_before(self.selected_group as int);
            if at >= 0 {
                at as usize
            } else {
                self.selected_group
            }
        }
    }

    /// Whether moving back looks at groups that exist: with a thread filter, the groups
    /// before the selected one are looked at.
    pub open spec fn can_move_back(self) -> bool {
        self.view == View::GroupList && self.thread_filter != ThreadFilter::All
            ==> self.selected_group <= self.groups.len()
    }

    /// The state after moving on by one.
    pub open spec fn moved_on(self) -> AppV {
        match self.view {
            View::GroupList => AppV { selected_group: self.next_group(), ..self },
            View::EmailList => AppV {
                selected_email: one_further(self.selected_email, self.filtered_threads().len()),
                ..self
            },
            View::Thread => AppV {
                selected_thread_email: one_further(
                    self.selected_thread_email,
                    self.thread_emails().len(),
                ),
                ..self
            },
            View::UndoHistory => AppV {
                selected_undo: if self.selected_undo + 1 < self.undo_history.len() {
                    (self.selected_undo + 1) as usize
                } else {
                    self.selected_undo
                },
                ..self
            },
            View::EmailBody => self.scrolled_down(1),
        }
    }

    /// The state after moving back by one.
    pub open spec fn moved_back(self) -> AppV {
        match self.view {
            View::GroupList => AppV { selected_group: self.previous_group(), ..self },
            View::EmailList => if self.selected_group < self.groups.len() {
                AppV { selected_email: one_back(self.selected_email), ..self }
            } else {
                self
            },
            View::Thread => AppV {
                selected_thread_email: one_back(self.selected_thread_email),
                ..self
            },
            View::UndoHistory => AppV {
                selected_undo: if self.selected_undo > 0 {
                    (self.selected_undo - 1) as usize
                } else {
                    0
                },
                ..self
            },
            View::EmailBody => self.scrolled_up(1),
        }
    }

    /// The state after moving on several times.
    pub open spec fn moved_on_by(self, n: nat) -> AppV
        decreases n,
    {
        if n == 0 {
            self
        } else {
            self.moved_on_by((n - 1) as nat).moved_on()
        }
    }

    /// The state after moving back several times.
    pub open spec fn moved_back_by(self, n: nat) -> AppV
        decreases n,
    {
        if n == 0 {
            self
        } else {
            self.moved_back_by((n - 1) as nat).moved_back()
        }
    }

    /// The state with the text moved down.
    pub open spec fn scrolled_down(self, n: usize) -> AppV {
        AppV {
            text_view_scroll: if self.text_view_scroll + n > usize::MAX {
                usize::MAX
            } else {
                (self.text_view_scroll + n) as usize
            },
            ..self
        }
    }

    /// The state with the text moved up.
    pub open spec fn scrolled_up(self, n: usize) -> AppV {
        AppV {
            text_view_scroll: if self.text_view_scroll < n {
                0
            } else {
                (self.text_view_scroll - n) as usize
            },
            ..self
        }
    }

    /// The state with the group of a key selected.
    pub open spec fn at_key(self, key: Seq<char>) -> AppV {
        AppV { selected_group: key_position(self.groups, key, 0) as usize, ..self }
    }

    /// The state with the first item selected.
    pub open spec fn at_first(self) -> AppV {
        match self.view {
            View::GroupList => if self.filtered_groups().len() > 0 {
                self.at_key(self.filtered_groups().first().key)
            } else {
                self
            },
            View::EmailList => if self.filtered_threads().len() > 0 {
                AppV { selected_email: Some(0), ..self }
            } else {
                self
            },
            View::Thread => if self.thread_emails().len() > 0 {
                AppV { selected_thread_email: Some(0), ..self }
            } else {
                self
            },
            View::UndoHistory => if self.undo_history.len() > 0 {
                AppV { selected_undo: 0, ..self }
            } else {
                self
            },
            View::EmailBody => AppV { text_view_scroll: 0, ..self },
        }
    }

    /// The state with the last item selected.
    pub open spec fn at_last(self) -> AppV {
        match self.view {
            View::GroupList => if self.filtered_groups().len() > 0 {
                self.at_key(self.filtered_groups().last().key)
            } else {
                self
            },
            View::EmailList => if self.filtered_threads().len() > 0 {
                AppV { selected_email: Some((self.filtered_threads().len() - 1) as usize), ..self }
            } else {
                self
            },
            View::Thread => if self.thread_emails().len() > 0 {
                AppV {
                    selected_thread_email: Some((self.thread_emails().len() - 1) as usize),
                    ..self
                }
            } else {
                self
            },
            View::UndoHistory => if self.undo_history.len() > 0 {
                AppV { selected_undo: (self.undo_history.len() - 1) as usize, ..self }
            } else {
                self
            },
            View::EmailBody => AppV { text_view_scroll: usize::MAX, ..self },
        }
    }

    /// The state with a shown group selected: the selected one where it is shown, and
    /// otherwise the first one that is.
    pub open spec fn on_shown_group(self) -> AppV {
        if self.filtered_groups().len() == 0 {
            self
        } else if self.current_group() is Some && self.shows_key(self.current_group()->0.key) {
            self
        } else {
            self.at_key(self.filtered_groups().first().key)
        }
    }

    /// The state with a selection that is valid in the present view.
    pub open spec fn validated(self) -> AppV {
        match self.view {
            View::GroupList => self.on_shown_group(),
            View::EmailList => AppV {
                selected_email: made_valid(self.selected_email, self.filtered_threads().len()),
                ..self
            },
            View::Thread => AppV {
                selected_thread_email: made_valid(
                    self.selected_thread_email,
                    self.thread_emails().len(),
                ),
                ..self
            },
            View::UndoHistory => AppV {
                selected_undo: if self.undo_history.len() == 0 {
                    0
                } else {
                    clamped(self.selected_undo, self.undo_history.len())
                },
                ..self
            },
            View::EmailBody => self,
        }
    }

    // -----------------------------------------------------------------------
    // Views

    /// The state after opening what is selected.
    pub open spec fn entered(self) -> AppV {
        match self.view {
            View::GroupList => match self.current_group() {
                Some(g) => AppV {
                    viewing_group_key: Some(g.key),
                    view: View::EmailList,
                    selected_email: first_of(thread_heads(g.emails).len()),
                    ..self
                }.deselected(),
                None => self,
            },
            View::EmailList => if self.current_email() is Some {
                AppV { view: View::Thread, selected_thread_email: Some(0), ..self }.deselected()
            } else {
                self
            },
            _ => self,
        }
    }

    /// The state after going back one level.
    pub open spec fn exited(self) -> AppV {
        match self.view {
            View::GroupList => self,
            View::EmailList => AppV {
                view: View::GroupList,
                selected_email: None,
                viewing_group_key: None,
                text_filter: None,
                ..self
            }.deselected(),
            View::Thread => AppV {
                view: View::EmailList,
                selected_thread_email: None,
                ..self
            }.deselected(),
            View::UndoHistory => self.undo_history_exited(),
            View::EmailBody => self.text_view_exited(),
        }
    }

    /// The state with the undo history on screen.
    pub open spec fn undo_history_entered(self) -> AppV {
        AppV {
            previous_view: Some(self.view),
            view: View::UndoHistory,
            selected_undo: 0,
            ..self
        }
    }

    /// The state after closing the undo history.
    pub open spec fn undo_history_exited(self) -> AppV {
        AppV {
            view: match self.previous_view {
                Some(view) => view,
                None => View::GroupList,
            },
            previous_view: None,
            ..self
        }
    }

    /// The state with the body of a message on screen.
    pub open spec fn text_view_entered(self, id: Seq<char>) -> AppV {
        AppV {
            previous_view: Some(self.view),
            viewing_email_id: Some(id),
            text_view_scroll: 0,
            view: View::EmailBody,
            ..self
        }
    }

    /// The state after closing the body of a message.
    pub open spec fn text_view_exited(self) -> AppV {
        AppV {
            view: match self.previous_view {
                Some(view) => view,
                None => View::EmailList,
            },
            previous_view: None,
            viewing_email_id: None,
            ..self
        }
    }

    /// The state with the body of the first message of an id.
    pub open spec fn with_body(self, id: Seq<char>, body: Seq<char>) -> AppV {
        let at = id_position(self.emails, id, 0);
        if at < self.emails.len() {
            AppV {
                emails: self.emails.update(at, EmailV { body: Some(body), ..self.emails[at] }),
                ..self
            }
        } else {
            self
        }
    }

    // -----------------------------------------------------------------------
    // Filters

    /// The state with the selected thread kept while it is shown.
    pub open spec fn on_shown_thread(self) -> AppV {
        AppV {
            selected_email: kept_or_first(self.selected_email, self.filtered_threads().len()),
            ..self
        }
    }

    /// The state with the next thread filter.
    pub open spec fn thread_filter_toggled(self) -> AppV {
        let s = AppV { thread_filter: self.thread_filter.following(), ..self };
        if s.thread_filter == ThreadFilter::All {
            s
        } else if s.view == View::GroupList {
            s.on_shown_group().on_shown_thread()
        } else {
            s.on_shown_thread()
        }
    }

    /// The state with a text filter.
    pub open spec fn text_filtered(self, query: Option<Seq<char>>) -> AppV {
        AppV { text_filter: query, ..self }.on_shown_thread()
    }

    // -----------------------------------------------------------------------
    // Selecting

    /// What toggling the selection of the current message comes to.
    pub open spec fn toggle_result(self) -> SelectionResult {
        if self.view == View::EmailList && self.current_email() is Some {
            SelectionResult::Toggled
        } else {
            SelectionResult::NoEmail
        }
    }

    /// The state with the selection of the current message toggled.
    pub open spec fn selection_toggled(self) -> AppV {
        if self.toggle_result() == SelectionResult::Toggled {
            let id = self.current_email()->0.id;
            AppV {
                selected_emails: if self.selected_emails.contains(id) {
                    self.selected_emails.remove(id)
                } else {
                    self.selected_emails.insert(id)
                },
                ..self
            }
        } else {
            self
        }
    }

    // -----------------------------------------------------------------------
    // Removing and restoring

    /// The state with the selected thread adjusted after a removal.
    pub open spec fn thread_adjusted(self) -> AppV {
        AppV {
            selected_email: match self.current_group() {
                Some(g) => kept_or_last(self.selected_email, thread_heads(g.emails).len()),
                None => None,
            },
            ..self
        }
    }

    /// The state with the first thread of the selected group selected.
    pub open spec fn thread_reset(self) -> AppV {
        let selected_group = clamped(self.selected_group, self.groups.len());
        let s = AppV { selected_group, selected_thread_email: None, ..self };
        AppV {
            selected_email: match s.current_group() {
                Some(g) => first_of(thread_heads(g.emails).len()),
                None => None,
            },
            ..s
        }
    }

    /// The state without the messages of an id.
    pub open spec fn without_email(self, id: Seq<char>) -> AppV {
        self.with_emails(self.emails.filter(other_id(id))).thread_adjusted()
    }

    /// The state without a thread.
    pub open spec fn without_thread(self, thread_id: Seq<char>) -> AppV {
        AppV {
            selected_thread_email: None,
            ..self.with_emails(self.emails.filter(outside_thread(thread_id))).thread_adjusted()
        }
    }

    /// The state without the threads on screen.
    pub open spec fn without_group_threads(self) -> AppV {
        self.with_emails(
            self.emails.filter(outside_threads_of(self.filtered_emails())),
        ).thread_reset()
    }

    /// The state without the selected threads on screen. What else was selected stays
    /// selected.
    pub open spec fn without_selected_threads(self) -> AppV {
        let gone = self.selected_thread_emails();
        AppV {
            selected_emails: self.selected_emails.filter(|id: Seq<char>| !has_id(gone, id)),
            ..self
        }.with_emails(
            self.emails.filter(outside_threads_of(self.selected_shown())),
        ).thread_reset()
    }

    /// The state with messages brought back.
    pub open spec fn restored(self, emails: Seq<EmailV>) -> AppV {
        self.with_emails(self.emails + emails)
    }

    // -----------------------------------------------------------------------
    // Undoing

    /// The state with one more action that can be undone.
    pub open spec fn undo_pushed(self, entry: UndoEntryV) -> AppV {
        AppV { undo_history: with_entry(self.undo_history, entry), ..self }
    }

    /// The state without one action that can be undone.
    pub open spec fn undo_popped(self, index: usize) -> AppV {
        if index < self.undo_history.len() {
            let undo_history = self.undo_history.remove(index as int);
            AppV {
                undo_history,
                selected_undo: clamped(self.selected_undo, undo_history.len()),
                ..self
            }
        } else {
            self
        }
    }
}

} // verus!
