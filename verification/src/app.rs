//! The application: the messages, how they are grouped and shown, and what is selected.
use vstd::hash_set::StringHashSet;
use vstd::prelude::*;
use vstd::view::View as _;

use crate::email::{clone_opt, mail_refs, mails, Email, EmailV};
use crate::grouping::{group_emails, group_refs, group_views, EmailGroup, GroupV};
use crate::listing::{
    borrowed, collect_thread_ids, heads, in_bounds, in_thread, in_threads_of, lemma_filter_step,
    order_newest_first, picked,
};
use crate::mailbox::Mailbox;
use crate::modes::{GroupMode, SelectionResult, ThreadFilter, View};
use crate::state::{
    for_undo, has_id, id_position, ids_and_folders, key_position, made_valid, one_back,
    one_further, other_id, outside_thread, outside_threads_of, AppV,
};
use crate::text::{contains, opt_text, str_eq, texts, to_lower};
use crate::undo::{entries, UndoEntry, UndoEntryV, MAX_UNDO_HISTORY};

verus! {

broadcast use vstd::seq_lib::group_seq_properties;

/// The application.
pub struct App {
    pub groups: Vec<EmailGroup>,
    pub group_mode: GroupMode,
    pub selected_group: usize,
    pub selected_email: Option<usize>,
    pub selected_thread_email: Option<usize>,
    pub view: View,
    pub mailbox: Mailbox,
    pub user_email: Option<String>,
    pub thread_filter: ThreadFilter,
    /// The actions that can be undone, newest first.
    pub undo_history: Vec<UndoEntry>,
    pub selected_undo: usize,
    pub previous_view: Option<View>,
    pub viewing_group_key: Option<String>,
    pub emails_loaded: bool,
    pub selected_emails: StringHashSet,
    pub text_view_scroll: usize,
    pub viewing_email_id: Option<String>,
    pub text_filter: Option<String>,
}

impl vstd::view::View for App {
    type V = AppV;

    open spec fn view(&self) -> AppV {
        AppV {
            groups: group_views(self.groups@),
            group_mode: self.group_mode,
            selected_group: self.selected_group,
            selected_email: self.selected_email,
            selected_thread_email: self.selected_thread_email,
            view: self.view,
            emails: self.mailbox@,
            user_email: opt_text(self.user_email),
            thread_filter: self.thread_filter,
            undo_history: entries(self.undo_history@),
            selected_undo: self.selected_undo,
            previous_view: self.previous_view,
            viewing_group_key: opt_text(self.viewing_group_key),
            emails_loaded: self.emails_loaded,
            selected_emails: self.selected_emails@,
            text_view_scroll: self.text_view_scroll,
            viewing_email_id: opt_text(self.viewing_email_id),
            text_filter: opt_text(self.text_filter),
        }
    }
}

// ---------------------------------------------------------------------------
// Lists of messages

/// The messages whose thread is in a set.
spec fn inside(ids: Set<Seq<char>>) -> spec_fn(EmailV) -> bool {
    |e: EmailV| ids.contains(e.thread_id)
}

/// The messages whose thread is not in a set.
spec fn outside(ids: Set<Seq<char>>) -> spec_fn(EmailV) -> bool {
    |e: EmailV| !ids.contains(e.thread_id)
}

/// The messages of some threads.
fn in_threads<'a>(emails: &'a Vec<Email>, ids: &StringHashSet) -> (r: Vec<&'a Email>)
    ensures
        mail_refs(r@) == mails(emails@).filter(inside(ids@)),
{
    let ghost all = mails(emails@);
    let ghost p = inside(ids@);
    let mut r: Vec<&'a Email> = Vec::new();
    let mut i: usize = 0;
    assert(mail_refs(r@) =~= all.take(0).filter(p));
    while i < emails.len()
        invariant
            i <= emails@.len(),
            all == mails(emails@),
            p == inside(ids@),
            mail_refs(r@) == all.take(i as int).filter(p),
        decreases emails@.len() - i,
    {
        proof {
            lemma_filter_step(all, p, i as int);
        }
        let ghost r0 = r@;
        if ids.contains(emails[i].thread_id.as_str()) {
            r.push(&emails[i]);
            assert(mail_refs(r@) =~= mail_refs(r0).push(all[i as int]));
        }
        i += 1;
    }
    assert(all.take(i as int) =~= all);
    r
}

/// The messages outside some threads.
fn without_threads(emails: Vec<Email>, ids: &StringHashSet) -> (r: Vec<Email>)
    ensures
        mails(r@) == mails(emails@).filter(outside(ids@)),
{
    let ghost all = mails(emails@);
    let ghost p = outside(ids@);
    let mut r: Vec<Email> = Vec::new();
    assert(mails(r@) =~= all.take(0).filter(p));
    for e in it: emails
        invariant
            all == mails(it.seq()),
            p == outside(ids@),
            mails(r@) == all.take(it.index() as int).filter(p),
    {
        proof {
            lemma_filter_step(all, p, it.index() as int);
        }
        let ghost r0 = r@;
        if !ids.contains(e.thread_id.as_str()) {
            r.push(e);
            assert(mails(r@) =~= mails(r0).push(all[it.index() as int]));
        }
    }
    assert(all.take(all.len() as int) =~= all);
    r
}

/// The messages with some other id.
fn without_id(emails: Vec<Email>, id: &str) -> (r: Vec<Email>)
    ensures
        mails(r@) == mails(emails@).filter(other_id(id@)),
{
    let ghost all = mails(emails@);
    let ghost p = other_id(id@);
    let mut r: Vec<Email> = Vec::new();
    assert(mails(r@) =~= all.take(0).filter(p));
    for e in it: emails
        invariant
            all == mails(it.seq()),
            p == other_id(id@),
            mails(r@) == all.take(it.index() as int).filter(p),
    {
        proof {
            lemma_filter_step(all, p, it.index() as int);
        }
        let ghost r0 = r@;
        if !str_eq(e.id.as_str(), id) {
            r.push(e);
            assert(mails(r@) =~= mails(r0).push(all[it.index() as int]));
        }
    }
    assert(all.take(all.len() as int) =~= all);
    r
}

/// What pairs of texts hold.
pub open spec fn pairs(v: Seq<(String, String)>) -> Seq<(Seq<char>, Seq<char>)> {
    v.map_values(|p: (String, String)| (p.0@, p.1@))
}

/// What triples of an id, a Message-ID and a folder hold.
pub open spec fn triples(v: Seq<(String, Option<String>, String)>) -> Seq<
    (Seq<char>, Option<Seq<char>>, Seq<char>),
> {
    v.map_values(|t: (String, Option<String>, String)| (t.0@, opt_text(t.1), t.2@))
}

/// The id and the folder of messages.
fn list_ids(emails: &Vec<&Email>) -> (r: Vec<(String, String)>)
    ensures
        pairs(r@) == ids_and_folders(mail_refs(emails@)),
{
    let mut r: Vec<(String, String)> = Vec::new();
    for i in 0..emails.len()
        invariant
            r@.len() == i,
            forall|k: int|
                0 <= k < i ==> (#[trigger] r@[k]).0@ == emails@[k].id@ && r@[k].1@
                    == emails@[k].source_folder@,
    {
        r.push((emails[i].id.clone(), emails[i].source_folder.clone()));
    }
    assert(pairs(r@) =~= ids_and_folders(mail_refs(emails@)));
    r
}

/// The id, the Message-ID and the folder of messages.
fn list_for_undo(emails: &Vec<&Email>) -> (r: Vec<(String, Option<String>, String)>)
    ensures
        triples(r@) == for_undo(mail_refs(emails@)),
{
    let mut r: Vec<(String, Option<String>, String)> = Vec::new();
    for i in 0..emails.len()
        invariant
            r@.len() == i,
            forall|k: int|
                0 <= k < i ==> (#[trigger] r@[k]).0@ == emails@[k].id@ && opt_text(r@[k].1)
                    == opt_text(emails@[k].message_id) && r@[k].2@ == emails@[k].source_folder@,
    {
        r.push(
            (
                emails[i].id.clone(),
                clone_opt(&emails[i].message_id),
                emails[i].source_folder.clone(),
            ),
        );
    }
    assert(triples(r@) =~= for_undo(mail_refs(emails@)));
    r
}

/// Copies of messages.
fn copies(emails: &Vec<&Email>) -> (r: Vec<Email>)
    ensures
        mails(r@) == mail_refs(emails@),
{
    let mut r: Vec<Email> = Vec::new();
    for i in 0..emails.len()
        invariant
            r@.len() == i,
            forall|k: int| 0 <= k < i ==> (#[trigger] r@[k])@ == emails@[k]@,
    {
        r.push((*emails[i]).clone());
    }
    assert(mails(r@) =~= mail_refs(emails@));
    r
}

/// The first position of a message with an id, or the number of messages.
fn find_id(emails: &Vec<Email>, id: &str) -> (r: usize)
    ensures
        r == id_position(mails(emails@), id@, 0),
        r <= emails@.len(),
{
    let ghost all = mails(emails@);
    let mut i: usize = 0;
    while i < emails.len()
        invariant
            i <= emails@.len(),
            all == mails(emails@),
            id_position(all, id@, 0) == id_position(all, id@, i as int),
        decreases emails@.len() - i,
    {
        if str_eq(emails[i].id.as_str(), id) {
            return i;
        }
        i += 1;
    }
    i
}

/// The first position of a group with a key, or the number of groups.
fn find_key(groups: &Vec<EmailGroup>, key: &str) -> (r: usize)
    ensures
        r == key_position(group_views(groups@), key@, 0),
        r <= groups@.len(),
{
    let ghost all = group_views(groups@);
    let mut i: usize = 0;
    while i < groups.len()
        invariant
            i <= groups@.len(),
            all == group_views(groups@),
            key_position(all, key@, 0) == key_position(all, key@, i as int),
        decreases groups@.len() - i,
    {
        if str_eq(groups[i].key.as_str(), key) {
            return i;
        }
        i += 1;
    }
    i
}

// ---------------------------------------------------------------------------
// What is shown

impl App {
    /// Whether a thread has several messages.
    pub fn thread_has_multiple_messages(&self, thread_id: &str) -> (r: bool)
        ensures
            r == self@.is_multi(thread_id@),
    {
        self.mailbox.is_multi(thread_id)
    }

    /// Whether the thread filter lets a message through.
    fn passes(&self, email: &Email) -> (r: bool)
        ensures
            r == self@.passes(email@),
    {
        match self.thread_filter {
            ThreadFilter::All => true,
            ThreadFilter::OnlyThreads => self.mailbox.is_multi(email.thread_id.as_str()),
            ThreadFilter::NoThreads => !self.mailbox.is_multi(email.thread_id.as_str()),
        }
    }

    /// Whether the text filter lets a message through.
    fn email_matches_text_filter(&self, email: &Email) -> (r: bool)
        ensures
            r == self@.matches_text(email@),
    {
        match &self.text_filter {
            None => true,
            Some(query) => {
                let query_lower: String = to_lower(query.as_str());
                contains(to_lower(email.subject.as_str()).as_str(), query_lower.as_str())
                    || contains(to_lower(email.from.as_str()).as_str(), query_lower.as_str())
                    || contains(to_lower(email.from_email.as_str()).as_str(), query_lower.as_str())
            },
        }
    }

    /// Whether some message of a group belongs to a thread with several messages.
    pub fn group_has_multi_message_threads(&self, group: &EmailGroup) -> (r: bool)
        ensures
            r == self@.has_multi(group@),
    {
        let mut i: usize = 0;
        while i < group.emails.len()
            invariant
                i <= group.emails@.len(),
                forall|k: int|
                    0 <= k < i ==> !self@.is_multi((#[trigger] group@.emails[k]).thread_id),
            decreases group.emails@.len() - i,
        {
            if self.mailbox.is_multi(group.emails[i].thread_id.as_str()) {
                assert(self@.is_multi(group@.emails[i as int].thread_id));
                return true;
            }
            i += 1;
        }
        false
    }

    /// Whether some message of a group is alone in its thread.
    pub fn group_has_single_message_threads(&self, group: &EmailGroup) -> (r: bool)
        ensures
            r == self@.has_single(group@),
    {
        let mut i: usize = 0;
        while i < group.emails.len()
            invariant
                i <= group.emails@.len(),
                forall|k: int|
                    0 <= k < i ==> self@.is_multi((#[trigger] group@.emails[k]).thread_id),
            decreases group.emails@.len() - i,
        {
            if !self.mailbox.is_multi(group.emails[i].thread_id.as_str()) {
                assert(!self@.is_multi(group@.emails[i as int].thread_id));
                return true;
            }
            i += 1;
        }
        false
    }

    /// Whether a group is shown.
    fn group_matches_filter(&self, group: &EmailGroup) -> (r: bool)
        ensures
            r == self@.shows_group(group@),
    {
        match self.thread_filter {
            ThreadFilter::All => true,
            ThreadFilter::OnlyThreads => self.group_has_multi_message_threads(group),
            ThreadFilter::NoThreads => self.group_has_single_message_threads(group),
        }
    }

    /// The groups on screen.
    pub fn filtered_groups(&self) -> (r: Vec<&EmailGroup>)
        ensures
            group_refs(r@) == self@.filtered_groups(),
    {
        let ghost all = self@.groups;
        let ghost p = self@.shown_group();
        let mut r: Vec<&EmailGroup> = Vec::new();
        let mut i: usize = 0;
        assert(group_refs(r@) =~= all.take(0).filter(p));
        while i < self.groups.len()
            invariant
                i <= self.groups@.len(),
                all == self@.groups,
                p == self@.shown_group(),
                group_refs(r@) == all.take(i as int).filter(p),
            decreases self.groups@.len() - i,
        {
            proof {
                lemma_filter_step(all, p, i as int);
            }
            let ghost r0 = r@;
            if self.group_matches_filter(&self.groups[i]) {
                r.push(&self.groups[i]);
                assert(group_refs(r@) =~= group_refs(r0).push(all[i as int]));
            }
            i += 1;
        }
        assert(all.take(i as int) =~= all);
        r
    }

    /// The selected group.
    pub fn current_group(&self) -> (r: Option<&EmailGroup>)
        ensures
            match r {
                Some(g) => self@.current_group() == Some(g@),
                None => self@.current_group() is None,
            },
    {
        if self.selected_group < self.groups.len() {
            Some(&self.groups[self.selected_group])
        } else {
            None
        }
    }

    /// The messages of a list that are shown.
    fn keep_shown<'a>(&self, emails: &Vec<&'a Email>) -> (r: Vec<&'a Email>)
        ensures
            mail_refs(r@) == mail_refs(emails@).filter(self@.shown()),
    {
        let ghost all = mail_refs(emails@);
        let ghost p = self@.shown();
        let mut r: Vec<&'a Email> = Vec::new();
        let mut i: usize = 0;
        assert(mail_refs(r@) =~= all.take(0).filter(p));
        while i < emails.len()
            invariant
                i <= emails@.len(),
                all == mail_refs(emails@),
                p == self@.shown(),
                mail_refs(r@) == all.take(i as int).filter(p),
            decreases emails@.len() - i,
        {
            proof {
                lemma_filter_step(all, p, i as int);
            }
            let ghost r0 = r@;
            if self.passes(emails[i]) && self.email_matches_text_filter(emails[i]) {
                r.push(emails[i]);
                assert(mail_refs(r@) =~= mail_refs(r0).push(all[i as int]));
            }
            i += 1;
        }
        assert(all.take(i as int) =~= all);
        r
    }

    /// The threads of the current group that are shown, each as its first message.
    pub fn filtered_threads_in_current_group(&self) -> (r: Vec<&Email>)
        ensures
            mail_refs(r@) == self@.filtered_threads(),
    {
        match self.current_group() {
            Some(group) => {
                let threads: Vec<&Email> = group.threads();
                self.keep_shown(&threads)
            },
            None => {
                let r: Vec<&Email> = Vec::new();
                assert(mail_refs(r@) =~= Seq::<EmailV>::empty());
                r
            },
        }
    }

    /// The messages of the current group that are shown.
    pub fn filtered_emails_in_current_group(&self) -> (r: Vec<&Email>)
        ensures
            mail_refs(r@) == self@.filtered_emails(),
    {
        match self.current_group() {
            Some(group) => {
                let all: Vec<&Email> = borrowed(&group.emails);
                self.keep_shown(&all)
            },
            None => {
                let r: Vec<&Email> = Vec::new();
                assert(mail_refs(r@) =~= Seq::<EmailV>::empty());
                r
            },
        }
    }

    /// The selected thread, as its first message.
    pub fn current_email(&self) -> (r: Option<&Email>)
        ensures
            match r {
                Some(e) => self@.current_email() == Some(e@),
                None => self@.current_email() is None,
            },
    {
        let filtered: Vec<&Email> = self.filtered_threads_in_current_group();
        match self.selected_email {
            Some(i) => if i < filtered.len() {
                let e: &Email = filtered[i];
                assert(mail_refs(filtered@)[i as int] == e@);
                Some(e)
            } else {
                None
            },
            None => None,
        }
    }

    /// The messages of the selected thread, newest first.
    pub fn current_thread_emails(&self) -> (r: Vec<&Email>)
        ensures
            mail_refs(r@) == self@.thread_emails(),
    {
        let mut r: Vec<&Email> = Vec::new();
        match self.current_email() {
            None => {
                assert(mail_refs(r@) =~= Seq::<EmailV>::empty());
            },
            Some(current) => {
                let emails: &Vec<Email> = self.mailbox.emails();
                let ghost all = mails(emails@);
                let ghost p = in_thread(current@.thread_id);
                let mut at: Vec<usize> = Vec::new();
                let mut i: usize = 0;
                assert(picked(all, at@) =~= all.take(0).filter(p));
                while i < emails.len()
                    invariant
                        i <= emails@.len(),
                        all == mails(emails@),
                        p == in_thread(current@.thread_id),
                        in_bounds(at@, emails@.len()),
                        picked(all, at@) == all.take(i as int).filter(p),
                    decreases emails@.len() - i,
                {
                    proof {
                        lemma_filter_step(all, p, i as int);
                    }
                    let ghost at0 = at@;
                    if str_eq(emails[i].thread_id.as_str(), current.thread_id.as_str()) {
                        at.push(i);
                        assert(picked(all, at@) =~= picked(all, at0).push(all[i as int]));
                    }
                    i += 1;
                }
                assert(all.take(i as int) =~= all);
                let order: Vec<usize> = order_newest_first(emails, &at);
                for k in 0..order.len()
                    invariant
                        in_bounds(order@, emails@.len()),
                        all == mails(emails@),
                        r@.len() == k,
                        forall|j: int| 0 <= j < k ==> (#[trigger] r@[j])@ == all[order@[j] as int],
                {
                    r.push(&emails[order[k]]);
                }
                assert(mail_refs(r@) =~= picked(all, order@));
            },
        }
        r
    }

    /// The selected message of the selected thread.
    pub fn current_thread_email(&self) -> (r: Option<&Email>)
        ensures
            match r {
                Some(e) => self@.current_thread_email() == Some(e@),
                None => self@.current_thread_email() is None,
            },
    {
        let emails: Vec<&Email> = self.current_thread_emails();
        match self.selected_thread_email {
            Some(i) => if i < emails.len() {
                let e: &Email = emails[i];
                assert(mail_refs(emails@)[i as int] == e@);
                Some(e)
            } else {
                None
            },
            None => None,
        }
    }

    /// Whether the selected thread has several messages.
    pub fn current_email_is_multi_message_thread(&self) -> (r: bool)
        ensures
            r == (self@.current_email() matches Some(e) && self@.is_multi(e.thread_id)),
    {
        match self.current_email() {
            Some(e) => self.thread_has_multiple_messages(e.thread_id.as_str()),
            None => false,
        }
    }

    /// The message whose body is on screen.
    pub fn viewing_email(&self) -> (r: Option<&Email>)
        ensures
            match r {
                Some(e) => self@.viewing_email() == Some(e@),
                None => self@.viewing_email() is None,
            },
    {
        match &self.viewing_email_id {
            Some(id) => {
                let emails: &Vec<Email> = self.mailbox.emails();
                let at: usize = find_id(emails, id.as_str());
                if at < emails.len() {
                    assert(self@.emails[at as int] == emails@[at as int]@);
                    Some(&emails[at])
                } else {
                    None
                }
            },
            None => None,
        }
    }

    /// The messages of the current group that are shown and selected.
    fn selected_shown(&self) -> (r: Vec<&Email>)
        ensures
            mail_refs(r@) == self@.selected_shown(),
    {
        let emails: Vec<&Email> = self.filtered_emails_in_current_group();
        let ghost all = mail_refs(emails@);
        let ghost p = self@.is_selected();
        let mut r: Vec<&Email> = Vec::new();
        let mut i: usize = 0;
        assert(mail_refs(r@) =~= all.take(0).filter(p));
        while i < emails.len()
            invariant
                i <= emails@.len(),
                all == mail_refs(emails@),
                p == self@.is_selected(),
                mail_refs(r@) == all.take(i as int).filter(p),
            decreases emails@.len() - i,
        {
            proof {
                lemma_filter_step(all, p, i as int);
            }
            let ghost r0 = r@;
            if self.selected_emails.contains(emails[i].id.as_str()) {
                r.push(emails[i]);
                assert(mail_refs(r@) =~= mail_refs(r0).push(all[i as int]));
            }
            i += 1;
        }
        assert(all.take(i as int) =~= all);
        r
    }

    /// The messages of the threads on screen, whoever sent them.
    fn group_thread_emails(&self) -> (r: Vec<&Email>)
        ensures
            mail_refs(r@) == self@.group_thread_emails(),
    {
        let shown: Vec<&Email> = self.filtered_emails_in_current_group();
        let ids: StringHashSet = collect_thread_ids(&shown);
        assert(inside(ids@) =~= in_threads_of(self@.filtered_emails()));
        in_threads(self.mailbox.emails(), &ids)
    }

    /// The messages of the selected threads on screen, whoever sent them.
    fn selected_thread_emails(&self) -> (r: Vec<&Email>)
        ensures
            mail_refs(r@) == self@.selected_thread_emails(),
    {
        let shown: Vec<&Email> = self.selected_shown();
        let ids: StringHashSet = collect_thread_ids(&shown);
        assert(inside(ids@) =~= in_threads_of(self@.selected_shown()));
        in_threads(self.mailbox.emails(), &ids)
    }

    /// The id and the folder of each message of the selected thread.
    pub fn current_thread_email_ids(&self) -> (r: Vec<(String, String)>)
        ensures
            pairs(r@) == ids_and_folders(self@.thread_emails()),
    {
        list_ids(&self.current_thread_emails())
    }

    /// The id, the Message-ID and the folder of each message of the selected thread.
    pub fn current_thread_emails_for_undo(&self) -> (r: Vec<(String, Option<String>, String)>)
        ensures
            triples(r@) == for_undo(self@.thread_emails()),
    {
        list_for_undo(&self.current_thread_emails())
    }

    /// The id and the folder of each message of the threads on screen, whoever sent it.
    pub fn current_group_thread_email_ids(&self) -> (r: Vec<(String, String)>)
        ensures
            pairs(r@) == ids_and_folders(self@.group_thread_emails()),
    {
        list_ids(&self.group_thread_emails())
    }

    /// The id, the Message-ID and the folder of each message of the threads on screen,
    /// whoever sent it.
    pub fn current_group_thread_emails_for_undo(&self) -> (r: Vec<
        (String, Option<String>, String),
    >)
        ensures
            triples(r@) == for_undo(self@.group_thread_emails()),
    {
        list_for_undo(&self.group_thread_emails())
    }

    /// Copies of the messages of the threads on screen, whoever sent them.
    pub fn current_group_thread_emails_cloned(&self) -> (r: Vec<Email>)
        ensures
            mails(r@) == self@.group_thread_emails(),
    {
        copies(&self.group_thread_emails())
    }

    /// The id and the folder of each message of the selected threads on screen, whoever
    /// sent it.
    pub fn selected_thread_email_ids(&self) -> (r: Vec<(String, String)>)
        ensures
            pairs(r@) == ids_and_folders(self@.selected_thread_emails()),
    {
        list_ids(&self.selected_thread_emails())
    }

    /// The id, the Message-ID and the folder of each message of the selected threads on
    /// screen, whoever sent it.
    pub fn selected_thread_emails_for_undo(&self) -> (r: Vec<(String, Option<String>, String)>)
        ensures
            triples(r@) == for_undo(self@.selected_thread_emails()),
    {
        list_for_undo(&self.selected_thread_emails())
    }

    /// Copies of the messages of the selected threads on screen, whoever sent them.
    pub fn selected_thread_emails_cloned(&self) -> (r: Vec<Email>)
        ensures
            mails(r@) == self@.selected_thread_emails(),
    {
        copies(&self.selected_thread_emails())
    }

    /// Whether some selected message is shown.
    pub fn has_visible_selection(&self) -> (r: bool)
        ensures
            r == self@.has_visible_selection(),
    {
        let emails: Vec<&Email> = self.filtered_emails_in_current_group();
        let mut i: usize = 0;
        while i < emails.len()
            invariant
                i <= emails@.len(),
                mail_refs(emails@) == self@.filtered_emails(),
                forall|k: int|
                    0 <= k < i ==> !self@.selected_emails.contains(
                        (#[trigger] self@.filtered_emails()[k]).id,
                    ),
            decreases emails@.len() - i,
        {
            assert(self@.filtered_emails()[i as int] == emails@[i as int]@);
            if self.selected_emails.contains(emails[i].id.as_str()) {
                return true;
            }
            i += 1;
        }
        false
    }

    /// The messages of a group that the thread filter lets through.
    fn keep_passing<'a>(&self, group: &'a EmailGroup) -> (r: Vec<&'a Email>)
        ensures
            mail_refs(r@) == group@.emails.filter(self@.passing()),
    {
        let ghost all = group@.emails;
        let ghost p = self@.passing();
        let mut r: Vec<&'a Email> = Vec::new();
        let mut i: usize = 0;
        assert(mail_refs(r@) =~= all.take(0).filter(p));
        while i < group.emails.len()
            invariant
                i <= group.emails@.len(),
                all == group@.emails,
                p == self@.passing(),
                mail_refs(r@) == all.take(i as int).filter(p),
            decreases group.emails@.len() - i,
        {
            proof {
                lemma_filter_step(all, p, i as int);
            }
            let ghost r0 = r@;
            if self.passes(&group.emails[i]) {
                r.push(&group.emails[i]);
                assert(mail_refs(r@) =~= mail_refs(r0).push(all[i as int]));
            }
            i += 1;
        }
        assert(all.take(i as int) =~= all);
        r
    }

    /// The number of threads that a group shows. Where only messages without a thread are
    /// shown, each of them counts.
    pub fn filtered_thread_count_for_group(&self, group: &EmailGroup) -> (r: usize)
        ensures
            r == self@.shown_thread_count(group@),
    {
        let passing: Vec<&Email> = self.keep_passing(group);
        match self.thread_filter {
            ThreadFilter::NoThreads => {
                assert(mail_refs(passing@).len() == passing@.len());
                passing.len()
            },
            _ => {
                let threads: Vec<&Email> = heads(&passing);
                assert(mail_refs(threads@).len() == threads@.len());
                threads.len()
            },
        }
    }

    /// The number of messages in the threads that a group shows, whoever sent them, if it
    /// can be written down.
    pub fn thread_email_total(&self, group: &EmailGroup) -> (r: Option<usize>)
        ensures
            match r {
                Some(n) => n == self@.shown_thread_email_count(group@),
                None => self@.shown_thread_email_count(group@) > usize::MAX,
            },
    {
        let passing: Vec<&Email> = self.keep_passing(group);
        let threads: Vec<&Email> = heads(&passing);
        let ghost all = mail_refs(threads@);
        let mut total: usize = 0;
        let mut i: usize = 0;
        while i < threads.len()
            invariant
                i <= threads@.len(),
                all == mail_refs(threads@),
                self@.shown_thread_email_count(group@) == self@.counted_sizes(all),
                total == self@.counted_sizes(all.take(i as int)),
            decreases threads@.len() - i,
        {
            let n: usize = self.mailbox.thread_count(threads[i].thread_id.as_str());
            let counted: usize = if n == 0 {
                1
            } else {
                n
            };
            proof {
                assert(all.take(i + 1).drop_last() =~= all.take(i as int));
                assert(all.take(i + 1).last() == threads@[i as int]@);
                lemma_counted_sizes_grow(self@, all, i + 1);
            }
            match total.checked_add(counted) {
                Some(sum) => {
                    total = sum;
                },
                None => {
                    return None;
                },
            }
            i += 1;
        }
        assert(all.take(i as int) =~= all);
        Some(total)
    }

    /// The number of messages in the threads that a group shows, whoever sent them.
    pub fn full_thread_email_count_for_group(&self, group: &EmailGroup) -> (r: usize)
        requires
            self@.shown_thread_email_count(group@) <= usize::MAX,
        ensures
            r == self@.shown_thread_email_count(group@),
    {
        match self.thread_email_total(group) {
            Some(total) => total,
            None => 0,
        }
    }
}

/// Fewer threads do not hold more messages.
proof fn lemma_counted_sizes_grow(s: AppV, heads: Seq<EmailV>, i: int)
    requires
        0 <= i <= heads.len(),
    ensures
        s.counted_sizes(heads.take(i)) <= s.counted_sizes(heads),
    decreases heads.len(),
{
    if i == heads.len() {
        assert(heads.take(i) =~= heads);
    } else {
        lemma_counted_sizes_grow(s, heads.drop_last(), i);
        assert(heads.drop_last().take(i) =~= heads.take(i));
    }
}

// ---------------------------------------------------------------------------
// Loading and grouping

impl App {
    /// An application with no messages.
    pub fn new() -> (r: Self)
        ensures
            r@ == AppV::initial(),
    {
        let groups: Vec<EmailGroup> = Vec::new();
        let undo_history: Vec<UndoEntry> = Vec::new();
        assert(group_views(groups@) =~= Seq::<GroupV>::empty());
        assert(entries(undo_history@) =~= Seq::<UndoEntryV>::empty());
        App {
            groups,
            group_mode: GroupMode::BySenderEmail,
            selected_group: 0,
            selected_email: None,
            selected_thread_email: None,
            view: View::GroupList,
            mailbox: Mailbox::empty(),
            user_email: None,
            thread_filter: ThreadFilter::All,
            undo_history,
            selected_undo: 0,
            previous_view: None,
            viewing_group_key: None,
            emails_loaded: false,
            selected_emails: StringHashSet::new(),
            text_view_scroll: 0,
            viewing_email_id: None,
            text_filter: None,
        }
    }

    /// Sets the user's address, whose messages are left out of the groups.
    pub fn set_user_email(&mut self, email: String)
        ensures
            final(self)@ == (AppV { user_email: Some(email@), ..old(self)@ }),
    {
        self.user_email = Some(email);
    }

    /// Whether messages have been loaded.
    pub fn has_loaded_emails(&self) -> (r: bool)
        ensures
            r == self@.emails_loaded,
    {
        self.emails_loaded
    }

    /// Groups the messages anew.
    fn regroup(&mut self)
        ensures
            final(self)@ == old(self)@.regrouped(),
    {
        let groups: Vec<EmailGroup> = group_emails(
            self.mailbox.emails(),
            &self.user_email,
            self.group_mode,
        );
        let ghost gs = group_views(groups@);
        let n: usize = groups.len();
        let key: Option<String> = clone_opt(&self.viewing_group_key);
        let last: usize = if self.selected_group >= n && n > 0 {
            n - 1
        } else {
            self.selected_group
        };
        match key {
            Some(key) => {
                let at: usize = find_key(&groups, key.as_str());
                if at < n {
                    self.selected_group = at;
                } else {
                    self.selected_group = last;
                    self.viewing_group_key = if last < n {
                        assert(gs[last as int].key == groups@[last as int].key@);
                        Some(groups[last].key.clone())
                    } else {
                        None
                    };
                }
            },
            None => {
                self.selected_group = last;
            },
        }
        self.groups = groups;
    }

    /// Takes the messages out, to be replaced.
    fn take_emails(&mut self) -> (r: Vec<Email>)
        ensures
            mails(r@) == old(self)@.emails,
            final(self)@ == (AppV { emails: Seq::empty(), ..old(self)@ }),
    {
        let mut mailbox: Mailbox = Mailbox::empty();
        std::mem::swap(&mut mailbox, &mut self.mailbox);
        mailbox.into_emails()
    }

    /// Loads messages.
    pub fn set_emails(&mut self, emails: Vec<Email>)
        ensures
            final(self)@ == old(self)@.loaded(mails(emails@)),
    {
        self.mailbox = Mailbox::new(emails);
        self.emails_loaded = true;
        self.regroup();
    }

    /// Changes the group mode.
    pub fn toggle_group_mode(&mut self)
        ensures
            final(self)@ == old(self)@.group_mode_toggled(),
    {
        self.group_mode = self.group_mode.toggled();
        self.regroup();
        self.selected_group = 0;
        self.selected_email = None;
        self.selected_thread_email = None;
        self.clear_selection();
    }

    /// Deselects every message.
    pub fn clear_selection(&mut self)
        ensures
            final(self)@ == old(self)@.deselected(),
    {
        self.selected_emails.clear();
    }
}

// ---------------------------------------------------------------------------
// Moving

/// A group found before a position stands before it.
proof fn lemma_shown_before(s: AppV, to: int)
    ensures
        -1 <= s.shown_before(to) < vstd::math::max(to, 0),
    decreases to,
{
    if to > 0 && !s.shows_group(s.groups[to - 1]) {
        lemma_shown_before(s, to - 1);
    }
}

/// Moving back keeps the selection where moving back is possible.
proof fn lemma_moved_back(s: AppV, n: nat)
    requires
        s.can_move_back(),
    ensures
        s.moved_back_by(n).can_move_back(),
        s.moved_back_by(n).groups == s.groups,
    decreases n,
{
    if n > 0 {
        lemma_moved_back(s, (n - 1) as nat);
        let t = s.moved_back_by((n - 1) as nat);
        lemma_shown_before(t, t.selected_group as int);
    }
}

impl App {
    /// The number of threads on screen.
    fn shown_threads(&self) -> (r: usize)
        ensures
            r == self@.filtered_threads().len(),
    {
        let threads: Vec<&Email> = self.filtered_threads_in_current_group();
        assert(mail_refs(threads@).len() == threads@.len());
        threads.len()
    }

    /// The number of messages of the selected thread.
    fn thread_length(&self) -> (r: usize)
        ensures
            r == self@.thread_emails().len(),
    {
        let emails: Vec<&Email> = self.current_thread_emails();
        assert(mail_refs(emails@).len() == emails@.len());
        emails.len()
    }

    /// Selects the next group that is shown.
    fn select_next_group(&mut self)
        ensures
            final(self)@ == (AppV { selected_group: old(self)@.next_group(), ..old(self)@ }),
    {
        if self.selected_group < self.groups.len() {
            let mut i: usize = self.selected_group + 1;
            while i < self.groups.len()
                invariant
                    self@ == old(self)@,
                    i <= self.groups@.len(),
                    self@.shown_at_or_after(self.selected_group + 1) == self@.shown_at_or_after(
                        i as int,
                    ),
                decreases self.groups@.len() - i,
            {
                if self.group_matches_filter(&self.groups[i]) {
                    self.selected_group = i;
                    return;
                }
                i += 1;
            }
        }
    }

    /// Selects the group before the selected one that is shown.
    fn select_previous_group(&mut self)
        requires
            old(self)@.thread_filter != ThreadFilter::All ==> old(self)@.selected_group
                <= old(self)@.groups.len(),
        ensures
            final(self)@ == (AppV { selected_group: old(self)@.previous_group(), ..old(self)@ }),
    {
        if self.thread_filter != ThreadFilter::All {
            let mut i: usize = self.selected_group;
            while i > 0
                invariant
                    self@ == old(self)@,
                    i <= self.groups@.len(),
                    self.thread_filter != ThreadFilter::All,
                    self@.shown_before(self.selected_group as int) == self@.shown_before(i as int),
                decreases i,
            {
                if self.group_matches_filter(&self.groups[i - 1]) {
                    self.selected_group = i - 1;
                    return;
                }
                i -= 1;
            }
        } else if self.selected_group > 0 {
            self.selected_group = self.selected_group - 1;
        }
    }

    /// Selects the next item, or moves the text down.
    pub fn select_next(&mut self)
        ensures
            final(self)@ == old(self)@.moved_on(),
    {
        match self.view {
            View::GroupList => self.select_next_group(),
            View::EmailList => {
                let n: usize = self.shown_threads();
                self.selected_email = further(self.selected_email, n);
            },
            View::Thread => {
                let n: usize = self.thread_length();
                self.selected_thread_email = further(self.selected_thread_email, n);
            },
            View::UndoHistory => {
                let n: usize = self.undo_history.len();
                if n > 0 && self.selected_undo < n - 1 {
                    self.selected_undo = self.selected_undo + 1;
                }
            },
            View::EmailBody => self.scroll_text_view_down(1),
        }
    }

    /// Selects the item before the selected one, or moves the text up.
    pub fn select_previous(&mut self)
        requires
            old(self)@.can_move_back(),
        ensures
            final(self)@ == old(self)@.moved_back(),
    {
        match self.view {
            View::GroupList => self.select_previous_group(),
            View::EmailList => {
                if self.selected_group < self.groups.len() {
                    self.selected_email = back(self.selected_email);
                }
            },
            View::Thread => {
                self.selected_thread_email = back(self.selected_thread_email);
            },
            View::UndoHistory => {
                if self.selected_undo > 0 {
                    self.selected_undo = self.selected_undo - 1;
                }
            },
            View::EmailBody => self.scroll_text_view_up(1),
        }
    }

    /// Moves on several times.
    pub fn select_next_n(&mut self, n: usize)
        ensures
            final(self)@ == old(self)@.moved_on_by(n as nat),
    {
        for i in 0..n
            invariant
                self@ == old(self)@.moved_on_by(i as nat),
        {
            self.select_next();
        }
    }

    /// Moves back several times.
    pub fn select_previous_n(&mut self, n: usize)
        requires
            old(self)@.can_move_back(),
        ensures
            final(self)@ == old(self)@.moved_back_by(n as nat),
    {
        for i in 0..n
            invariant
                old(self)@.can_move_back(),
                self@ == old(self)@.moved_back_by(i as nat),
        {
            proof {
                lemma_moved_back(old(self)@, i as nat);
            }
            self.select_previous();
        }
    }

    /// Whether moving back looks at groups that exist.
    pub fn can_move_back(&self) -> (r: bool)
        ensures
            r == self@.can_move_back(),
    {
        self.view != View::GroupList || self.thread_filter == ThreadFilter::All
            || self.selected_group <= self.groups.len()
    }

    /// Selects the first item.
    pub fn select_first(&mut self)
        ensures
            final(self)@ == old(self)@.at_first(),
    {
        match self.view {
            View::GroupList => {
                let filtered: Vec<&EmailGroup> = self.filtered_groups();
                assert(group_refs(filtered@).len() == filtered@.len());
                if filtered.len() > 0 {
                    assert(group_refs(filtered@)[0] == filtered@[0]@);
                    let at: usize = find_key(&self.groups, filtered[0].key.as_str());
                    self.selected_group = at;
                }
            },
            View::EmailList => {
                if self.shown_threads() > 0 {
                    self.selected_email = Some(0);
                }
            },
            View::Thread => {
                if self.thread_length() > 0 {
                    self.selected_thread_email = Some(0);
                }
            },
            View::UndoHistory => {
                if self.undo_history.len() > 0 {
                    self.selected_undo = 0;
                }
            },
            View::EmailBody => {
                self.text_view_scroll = 0;
            },
        }
    }

    /// Selects the last item.
    pub fn select_last(&mut self)
        ensures
            final(self)@ == old(self)@.at_last(),
    {
        match self.view {
            View::GroupList => {
                let filtered: Vec<&EmailGroup> = self.filtered_groups();
                assert(group_refs(filtered@).len() == filtered@.len());
                if filtered.len() > 0 {
                    let last: usize = filtered.len() - 1;
                    assert(group_refs(filtered@)[last as int] == filtered@[last as int]@);
                    let at: usize = find_key(&self.groups, filtered[last].key.as_str());
                    self.selected_group = at;
                }
            },
            View::EmailList => {
                let n: usize = self.shown_threads();
                if n > 0 {
                    self.selected_email = Some(n - 1);
                }
            },
            View::Thread => {
                let n: usize = self.thread_length();
                if n > 0 {
                    self.selected_thread_email = Some(n - 1);
                }
            },
            View::UndoHistory => {
                let n: usize = self.undo_history.len();
                if n > 0 {
                    self.selected_undo = n - 1;
                }
            },
            View::EmailBody => {
                self.text_view_scroll = usize::MAX;
            },
        }
    }

    /// Selects a group that is shown.
    fn select_shown_group(&mut self)
        ensures
            final(self)@ == old(self)@.on_shown_group(),
    {
        let filtered: Vec<&EmailGroup> = self.filtered_groups();
        assert(group_refs(filtered@).len() == filtered@.len());
        if filtered.len() > 0 {
            let mut visible: bool = false;
            if self.selected_group < self.groups.len() {
                let key: &String = &self.groups[self.selected_group].key;
                assert(self@.current_group()->0.key == key@);
                let mut i: usize = 0;
                while i < filtered.len()
                    invariant
                        i <= filtered@.len(),
                        group_refs(filtered@) == self@.filtered_groups(),
                        group_refs(filtered@).len() == filtered@.len(),
                        visible ==> self@.shows_key(key@),
                        !visible ==> forall|k: int|
                            0 <= k < i ==> (#[trigger] self@.filtered_groups()[k]).key != key@,
                    decreases filtered@.len() - i,
                {
                    assert(self@.filtered_groups()[i as int] == filtered@[i as int]@);
                    if str_eq(filtered[i].key.as_str(), key.as_str()) {
                        visible = true;
                    }
                    i += 1;
                }
            }
            if !visible {
                assert(group_refs(filtered@)[0] == filtered@[0]@);
                let at: usize = find_key(&self.groups, filtered[0].key.as_str());
                self.selected_group = at;
            }
        }
    }

    /// Makes the selection valid in the present view.
    pub fn ensure_valid_selection(&mut self)
        ensures
            final(self)@ == old(self)@.validated(),
    {
        match self.view {
            View::GroupList => self.select_shown_group(),
            View::EmailList => {
                let n: usize = self.shown_threads();
                self.selected_email = valid_in(self.selected_email, n);
            },
            View::Thread => {
                let n: usize = self.thread_length();
                self.selected_thread_email = valid_in(self.selected_thread_email, n);
            },
            View::UndoHistory => {
                let n: usize = self.undo_history.len();
                if n == 0 {
                    self.selected_undo = 0;
                } else if self.selected_undo >= n {
                    self.selected_undo = n - 1;
                }
            },
            View::EmailBody => {},
        }
    }

    /// Moves the text down.
    pub fn scroll_text_view_down(&mut self, n: usize)
        ensures
            final(self)@ == old(self)@.scrolled_down(n),
    {
        self.text_view_scroll = self.text_view_scroll.saturating_add(n);
    }

    /// Moves the text up.
    pub fn scroll_text_view_up(&mut self, n: usize)
        ensures
            final(self)@ == old(self)@.scrolled_up(n),
    {
        self.text_view_scroll = self.text_view_scroll.saturating_sub(n);
    }
}

/// One place further, but not past the last.
fn further(position: Option<usize>, len: usize) -> (r: Option<usize>)
    ensures
        r == one_further(position, len as nat),
{
    if len == 0 {
        position
    } else {
        match position {
            Some(i) => if i < len - 1 {
                Some(i + 1)
            } else {
                Some(i)
            },
            None => Some(0),
        }
    }
}

/// One place back, but not before the first.
fn back(position: Option<usize>) -> (r: Option<usize>)
    ensures
        r == one_back(position),
{
    match position {
        Some(i) => if i > 0 {
            Some(i - 1)
        } else {
            Some(i)
        },
        None => None,
    }
}

/// A position that is valid in a list.
fn valid_in(position: Option<usize>, len: usize) -> (r: Option<usize>)
    ensures
        r == made_valid(position, len as nat),
{
    if len == 0 {
        None
    } else {
        match position {
            Some(i) => if i < len {
                Some(i)
            } else {
                Some(0)
            },
            None => Some(0),
        }
    }
}

// ---------------------------------------------------------------------------
// Views

impl App {
    /// Opens what is selected.
    pub fn enter(&mut self)
        ensures
            final(self)@ == old(self)@.entered(),
    {
        match self.view {
            View::GroupList => {
                if self.selected_group < self.groups.len() {
                    let key: String = self.groups[self.selected_group].key.clone();
                    let n: usize = self.groups[self.selected_group].thread_count();
                    self.viewing_group_key = Some(key);
                    self.view = View::EmailList;
                    self.selected_email = if n == 0 {
                        None
                    } else {
                        Some(0)
                    };
                    self.clear_selection();
                }
            },
            View::EmailList => {
                if self.current_email().is_some() {
                    self.view = View::Thread;
                    self.selected_thread_email = Some(0);
                    self.clear_selection();
                }
            },
            _ => {},
        }
    }

    /// Goes back one level.
    pub fn exit(&mut self)
        ensures
            final(self)@ == old(self)@.exited(),
    {
        match self.view {
            View::GroupList => {},
            View::EmailList => {
                self.view = View::GroupList;
                self.selected_email = None;
                self.viewing_group_key = None;
                self.clear_selection();
                self.clear_text_filter();
            },
            View::Thread => {
                self.view = View::EmailList;
                self.selected_thread_email = None;
                self.clear_selection();
            },
            View::UndoHistory => self.exit_undo_history(),
            View::EmailBody => self.exit_text_view(),
        }
    }

    /// Puts the undo history on screen.
    pub fn enter_undo_history(&mut self)
        ensures
            final(self)@ == old(self)@.undo_history_entered(),
    {
        self.previous_view = Some(self.view);
        self.view = View::UndoHistory;
        self.selected_undo = 0;
    }

    /// Closes the undo history.
    pub fn exit_undo_history(&mut self)
        ensures
            final(self)@ == old(self)@.undo_history_exited(),
    {
        self.view = match self.previous_view {
            Some(view) => view,
            None => View::GroupList,
        };
        self.previous_view = None;
    }

    /// Puts the body of a message on screen.
    pub fn enter_text_view(&mut self, email_id: &str)
        ensures
            final(self)@ == old(self)@.text_view_entered(email_id@),
    {
        self.previous_view = Some(self.view);
        self.viewing_email_id = Some(email_id.to_owned());
        self.text_view_scroll = 0;
        self.view = View::EmailBody;
    }

    /// Closes the body of a message.
    pub fn exit_text_view(&mut self)
        ensures
            final(self)@ == old(self)@.text_view_exited(),
    {
        self.view = match self.previous_view {
            Some(view) => view,
            None => View::EmailList,
        };
        self.previous_view = None;
        self.viewing_email_id = None;
    }

    /// Keeps the body of a message once it has been fetched.
    pub fn set_email_body(&mut self, email_id: &str, body: String)
        ensures
            final(self)@ == old(self)@.with_body(email_id@, body@),
    {
        let mut emails: Vec<Email> = self.take_emails();
        let ghost all = mails(emails@);
        let at: usize = find_id(&emails, email_id);
        if at < emails.len() {
            let mut email: Email = emails[at].clone();
            email.body = Some(body);
            emails.set(at, email);
            assert(mails(emails@) =~= all.update(
                at as int,
                EmailV { body: Some(body@), ..all[at as int] },
            ));
        }
        self.mailbox = Mailbox::new(emails);
    }
}

// ---------------------------------------------------------------------------
// Filters

impl App {
    /// Keeps the selected thread while it is shown.
    fn keep_shown_thread(&mut self)
        ensures
            final(self)@ == old(self)@.on_shown_thread(),
    {
        let n: usize = self.shown_threads();
        self.selected_email = match self.selected_email {
            Some(i) => if i < n {
                Some(i)
            } else if n == 0 {
                None
            } else {
                Some(0)
            },
            None => None,
        };
    }

    /// Goes on to the next thread filter.
    pub fn toggle_thread_filter(&mut self)
        ensures
            final(self)@ == old(self)@.thread_filter_toggled(),
    {
        self.thread_filter = self.thread_filter.next_in_cycle();
        if self.thread_filter != ThreadFilter::All {
            if self.view == View::GroupList {
                self.select_shown_group();
            }
            self.keep_shown_thread();
        }
    }

    /// Sets the text filter.
    pub fn set_text_filter(&mut self, query: Option<String>)
        ensures
            final(self)@ == old(self)@.text_filtered(opt_text(query)),
    {
        self.text_filter = query;
        self.keep_shown_thread();
    }

    /// Clears the text filter.
    pub fn clear_text_filter(&mut self)
        ensures
            final(self)@ == (AppV { text_filter: None, ..old(self)@ }),
    {
        self.text_filter = None;
    }

    /// Whether a text filter is set.
    pub fn has_text_filter(&self) -> (r: bool)
        ensures
            r == (self@.text_filter is Some),
    {
        self.text_filter.is_some()
    }

    /// The text filter.
    pub fn text_filter(&self) -> (r: Option<&str>)
        ensures
            opt_str(r) == self@.text_filter,
    {
        borrow_opt(&self.text_filter)
    }

    /// The view that closing the present one returns to.
    pub fn previous_view(&self) -> (r: Option<View>)
        ensures
            r == self@.previous_view,
    {
        self.previous_view
    }

    /// The key of the group on screen, which outlives the group.
    pub fn viewing_group_key(&self) -> (r: Option<&str>)
        ensures
            opt_str(r) == self@.viewing_group_key,
    {
        borrow_opt(&self.viewing_group_key)
    }

    /// The id of the message whose body is on screen.
    pub fn viewing_email_id(&self) -> (r: Option<&str>)
        ensures
            opt_str(r) == self@.viewing_email_id,
    {
        borrow_opt(&self.viewing_email_id)
    }
}

/// What an optional borrowed text holds.
pub open spec fn opt_str(o: Option<&str>) -> Option<Seq<char>> {
    match o {
        Some(s) => Some(s@),
        None => None,
    }
}

/// An optional text, borrowed.
fn borrow_opt(o: &Option<String>) -> (r: Option<&str>)
    ensures
        opt_str(r) == opt_text(*o),
{
    match o {
        Some(s) => Some(s.as_str()),
        None => None,
    }
}

// ---------------------------------------------------------------------------
// Selecting

impl App {
    /// Toggles the selection of the current message.
    pub fn toggle_email_selection(&mut self) -> (r: SelectionResult)
        ensures
            r == old(self)@.toggle_result(),
            final(self)@ == old(self)@.selection_toggled(),
    {
        if self.view != View::EmailList {
            return SelectionResult::NoEmail;
        }
        let id: Option<String> = match self.current_email() {
            Some(email) => Some(email.id.clone()),
            None => None,
        };
        match id {
            Some(id) => {
                if self.selected_emails.contains(id.as_str()) {
                    self.selected_emails.remove(id.as_str());
                } else {
                    self.selected_emails.insert(id);
                }
                SelectionResult::Toggled
            },
            None => SelectionResult::NoEmail,
        }
    }

    /// Deselects some messages.
    pub fn deselect_emails(&mut self, ids: &[String])
        ensures
            final(self)@ == (AppV {
                selected_emails: old(self)@.selected_emails.filter(
                    |id: Seq<char>| !texts(ids@).contains(id),
                ),
                ..old(self)@
            }),
    {
        let mut i: usize = 0;
        while i < ids.len()
            invariant
                i <= ids@.len(),
                self@ == (AppV { selected_emails: self.selected_emails@, ..old(self)@ }),
                forall|id: Seq<char>| #[trigger]
                    self.selected_emails@.contains(id) <==> old(self)@.selected_emails.contains(id)
                        && !texts(ids@).take(i as int).contains(id),
            decreases ids@.len() - i,
        {
            let ghost before = self.selected_emails@;
            let ghost t = texts(ids@);
            self.selected_emails.remove(ids[i].as_str());
            proof {
                assert(t.take(i + 1) =~= t.take(i as int).push(t[i as int]));
                assert forall|id: Seq<char>| #[trigger]
                    self.selected_emails@.contains(id) <==> old(self)@.selected_emails.contains(id)
                        && !t.take(i + 1).contains(id) by {
                    assert(self.selected_emails@.contains(id) <==> before.contains(id) && id
                        != t[i as int]);
                    let short = t.take(i as int);
                    let long = t.take(i + 1);
                    assert(long[i as int] == t[i as int]);
                    if short.contains(id) {
                        assert(long[short.index_of(id)] == id);
                    }
                    if long.contains(id) && id != t[i as int] {
                        assert(short[long.index_of(id)] == id);
                    }
                }
            }
            i += 1;
        }
        proof {
            assert(texts(ids@).take(i as int) =~= texts(ids@));
            assert(self.selected_emails@ =~= old(self)@.selected_emails.filter(
                |id: Seq<char>| !texts(ids@).contains(id),
            ));
        }
    }

    /// Whether a message is selected.
    pub fn is_email_selected(&self, email_id: &str) -> (r: bool)
        ensures
            r == self@.selected_emails.contains(email_id@),
    {
        self.selected_emails.contains(email_id)
    }

    /// The number of selected messages.
    pub fn selected_email_count(&self) -> (r: usize)
        ensures
            r == self@.selected_emails.len(),
    {
        self.selected_emails.len()
    }

    /// Whether any message is selected.
    pub fn has_selection(&self) -> (r: bool)
        ensures
            r == exists|id: Seq<char>| self@.selected_emails.contains(id),
    {
        proof {
            if forall|id: Seq<char>| !self@.selected_emails.contains(id) {
                assert(self@.selected_emails =~= Set::empty());
            }
        }
        !self.selected_emails.is_empty()
    }
}

// ---------------------------------------------------------------------------
// Removing and restoring

impl App {
    /// Adjusts the selected thread after a removal.
    fn adjust_thread(&mut self)
        ensures
            final(self)@ == old(self)@.thread_adjusted(),
    {
        if self.selected_group < self.groups.len() {
            let n: usize = self.groups[self.selected_group].thread_count();
            self.selected_email = if n == 0 {
                None
            } else {
                match self.selected_email {
                    Some(i) => if i < n {
                        Some(i)
                    } else {
                        Some(n - 1)
                    },
                    None => Some(n - 1),
                }
            };
        } else {
            self.selected_email = None;
        }
    }

    /// Selects the first thread of the selected group.
    fn reset_thread(&mut self)
        ensures
            final(self)@ == old(self)@.thread_reset(),
    {
        let n: usize = self.groups.len();
        if self.selected_group >= n && n > 0 {
            self.selected_group = n - 1;
        }
        self.selected_thread_email = None;
        self.selected_email = if self.selected_group < n
            && self.groups[self.selected_group].thread_count() > 0 {
            Some(0)
        } else {
            None
        };
    }

    /// Removes the messages of an id.
    pub fn remove_email(&mut self, email_id: &str)
        ensures
            final(self)@ == old(self)@.without_email(email_id@),
    {
        let emails: Vec<Email> = self.take_emails();
        self.mailbox = Mailbox::new(without_id(emails, email_id));
        self.regroup();
        self.adjust_thread();
    }

    /// Removes a thread.
    pub fn remove_thread(&mut self, thread_id: &str)
        ensures
            final(self)@ == old(self)@.without_thread(thread_id@),
    {
        let mut ids: StringHashSet = StringHashSet::new();
        ids.insert(thread_id.to_owned());
        assert(outside(ids@) =~= outside_thread(thread_id@));
        let emails: Vec<Email> = self.take_emails();
        self.mailbox = Mailbox::new(without_threads(emails, &ids));
        self.regroup();
        self.adjust_thread();
        self.selected_thread_email = None;
    }

    /// Removes the threads on screen, with the messages that others sent.
    pub fn remove_current_group_threads(&mut self)
        ensures
            final(self)@ == old(self)@.without_group_threads(),
    {
        let ids: StringHashSet = collect_thread_ids(&self.filtered_emails_in_current_group());
        assert(outside(ids@) =~= outside_threads_of(old(self)@.filtered_emails()));
        let emails: Vec<Email> = self.take_emails();
        self.mailbox = Mailbox::new(without_threads(emails, &ids));
        self.regroup();
        self.reset_thread();
    }

    /// Removes the selected threads on screen, with the messages that others sent. What else
    /// was selected stays selected.
    pub fn remove_selected_threads(&mut self)
        ensures
            final(self)@ == old(self)@.without_selected_threads(),
    {
        let ghost s = old(self)@;
        let ghost gone = s.selected_thread_emails();
        let ids: StringHashSet = collect_thread_ids(&self.selected_shown());
        assert(outside(ids@) =~= outside_threads_of(s.selected_shown()));
        assert(inside(ids@) =~= in_threads_of(s.selected_shown()));
        let emails: Vec<Email> = self.take_emails();
        let removed: Vec<&Email> = in_threads(&emails, &ids);
        let mut i: usize = 0;
        while i < removed.len()
            invariant
                i <= removed@.len(),
                mail_refs(removed@) == gone,
                self@ == (AppV {
                    emails: Seq::empty(),
                    selected_emails: self.selected_emails@,
                    ..s
                }),
                forall|id: Seq<char>| #[trigger]
                    self.selected_emails@.contains(id) <==> s.selected_emails.contains(id)
                        && !has_id(gone.take(i as int), id),
            decreases removed@.len() - i,
        {
            let ghost before = self.selected_emails@;
            self.selected_emails.remove(removed[i].id.as_str());
            proof {
                assert(gone[i as int] == removed@[i as int]@);
                assert forall|id: Seq<char>| #[trigger]
                    self.selected_emails@.contains(id) <==> s.selected_emails.contains(id)
                        && !has_id(gone.take(i + 1), id) by {
                    assert(self.selected_emails@.contains(id) <==> before.contains(id) && id
                        != gone[i as int].id);
                    let short = gone.take(i as int);
                    let long = gone.take(i + 1);
                    assert(long[i as int] == gone[i as int]);
                    if has_id(short, id) {
                        let k = choose|k: int| 0 <= k < short.len() && (#[trigger] short[k]).id == id;
                        assert(long[k].id == id);
                    }
                    if has_id(long, id) && id != gone[i as int].id {
                        let k = choose|k: int| 0 <= k < long.len() && (#[trigger] long[k]).id == id;
                        assert(short[k].id == id);
                    }
                }
            }
            i += 1;
        }
        proof {
            assert(gone.take(i as int) =~= gone);
            assert(self.selected_emails@ =~= s.selected_emails.filter(
                |id: Seq<char>| !has_id(gone, id),
            ));
        }
        self.mailbox = Mailbox::new(without_threads(emails, &ids));
        self.regroup();
        self.reset_thread();
    }

    /// Brings messages back.
    pub fn restore_emails(&mut self, emails: Vec<Email>)
        ensures
            final(self)@ == old(self)@.restored(mails(emails@)),
    {
        let mut all: Vec<Email> = self.take_emails();
        let ghost before = mails(all@);
        let mut more: Vec<Email> = emails;
        all.append(&mut more);
        assert(mails(all@) =~= before + mails(emails@));
        self.mailbox = Mailbox::new(all);
        self.regroup();
    }
}

// ---------------------------------------------------------------------------
// Undoing

impl App {
    /// Adds an action that can be undone.
    pub fn push_undo(&mut self, entry: UndoEntry)
        ensures
            final(self)@ == old(self)@.undo_pushed(entry@),
    {
        let ghost history = self@.undo_history;
        self.undo_history.insert(0, entry);
        assert(entries(self.undo_history@) =~= seq![entry@] + history);
        if self.undo_history.len() > MAX_UNDO_HISTORY {
            self.undo_history.truncate(MAX_UNDO_HISTORY);
            assert(entries(self.undo_history@) =~= (seq![entry@] + history).take(
                MAX_UNDO_HISTORY as int,
            ));
        }
    }

    /// Takes an action out of the undo history.
    pub fn pop_undo(&mut self, index: usize) -> (r: Option<UndoEntry>)
        ensures
            final(self)@ == old(self)@.undo_popped(index),
            match r {
                Some(entry) => index < old(self)@.undo_history.len() && entry@ == old(
                    self,
                )@.undo_history[index as int],
                None => index >= old(self)@.undo_history.len(),
            },
    {
        if index < self.undo_history.len() {
            let ghost history = self@.undo_history;
            let entry: UndoEntry = self.undo_history.remove(index);
            assert(entries(self.undo_history@) =~= history.remove(index as int));
            let n: usize = self.undo_history.len();
            if self.selected_undo >= n && n > 0 {
                self.selected_undo = n - 1;
            }
            Some(entry)
        } else {
            None
        }
    }

    /// The number of actions that can be undone.
    pub fn undo_history_len(&self) -> (r: usize)
        ensures
            r == self@.undo_history.len(),
    {
        self.undo_history.len()
    }

    /// The selected action of the undo history.
    pub fn current_undo_entry(&self) -> (r: Option<&UndoEntry>)
        ensures
            match r {
                Some(entry) => self@.selected_undo < self@.undo_history.len() && entry@
                    == self@.undo_history[self@.selected_undo as int],
                None => self@.selected_undo >= self@.undo_history.len(),
            },
    {
        if self.selected_undo < self.undo_history.len() {
            assert(self@.undo_history[self.selected_undo as int]
                == self.undo_history@[self.selected_undo as int]@);
            Some(&self.undo_history[self.selected_undo])
        } else {
            None
        }
    }
}

impl Default for App {
    fn default() -> (r: Self)
        ensures
            r@ == AppV::initial(),
    {
        App::new()
    }
}

} // verus!
