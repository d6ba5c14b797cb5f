//! What is on screen, told by the messages alone.
use vstd::prelude::*;

use crate::email::EmailV;
use crate::laws::lemma_filter_members;
use crate::listing::{has_thread, in_thread, thread_heads, thread_size};
use crate::modes::ThreadFilter;
use crate::state::AppV;
use crate::text::{contains_text, lowercase, occurs_at};

verus! {

broadcast use vstd::seq_lib::group_seq_properties;

/// Whether two messages or more are of a thread.
pub open spec fn has_company(emails: Seq<EmailV>, thread_id: Seq<char>) -> bool {
    exists|i: int, j: int|
        0 <= i < j < emails.len() && (#[trigger] emails[i]).thread_id == thread_id && (
        #[trigger] emails[j]).thread_id == thread_id
}

/// Whether a text holds another one, letter case aside.
pub open spec fn mentions(text: Seq<char>, query: Seq<char>) -> bool {
    exists|i: int|
        0 <= i && i + lowercase(query).len() <= lowercase(text).len() && #[trigger] lowercase(
            text,
        ).subrange(i, i + lowercase(query).len()) == lowercase(query)
}

/// Whether a message gets past the filters: alone in its thread or in company as the one
/// asks, and with the text of the other in its subject, its sender or its address.
pub open spec fn gets_through(app: AppV, e: EmailV) -> bool {
    &&& app.thread_filter == ThreadFilter::OnlyThreads ==> has_company(app.emails, e.thread_id)
    &&& app.thread_filter == ThreadFilter::NoThreads ==> !has_company(app.emails, e.thread_id)
    &&& app.text_filter is Some ==> {
        ||| mentions(e.subject, app.text_filter->0)
        ||| mentions(e.from, app.text_filter->0)
        ||| mentions(e.from_email, app.text_filter->0)
    }
}

/// The messages of the group that is open.
pub open spec fn opened(app: AppV) -> Seq<EmailV> {
    if app.selected_group < app.groups.len() {
        app.groups[app.selected_group as int].emails
    } else {
        Seq::empty()
    }
}

/// Whether a thread is on screen: some message of it in the open group gets through.
pub open spec fn is_on_screen(app: AppV, thread_id: Seq<char>) -> bool {
    exists|k: int|
        0 <= k < opened(app).len() && (#[trigger] opened(app)[k]).thread_id == thread_id
            && gets_through(app, opened(app)[k])
}

/// Whether a thread is picked: some message of it in the open group gets through and is
/// selected.
pub open spec fn is_picked(app: AppV, thread_id: Seq<char>) -> bool {
    exists|k: int|
        0 <= k < opened(app).len() && (#[trigger] opened(app)[k]).thread_id == thread_id
            && gets_through(app, opened(app)[k]) && app.selected_emails.contains(opened(app)[k].id)
}

/// Whether a message of the open group stands for its thread in the list: it is the first one
/// of its thread, and it gets through.
pub open spec fn is_row(app: AppV, k: int) -> bool {
    &&& 0 <= k < opened(app).len()
    &&& forall|j: int| 0 <= j < k ==> (#[trigger] opened(app)[j]).thread_id != opened(
        app,
    )[k].thread_id
    &&& gets_through(app, opened(app)[k])
}

/// The number of rows among the first messages of the open group.
pub open spec fn rows_before(app: AppV, k: int) -> nat
    decreases k,
{
    if k <= 0 {
        0
    } else if is_row(app, k - 1) {
        rows_before(app, k - 1) + 1
    } else {
        rows_before(app, k - 1)
    }
}

proof fn lemma_company(emails: Seq<EmailV>, thread_id: Seq<char>)
    ensures
        has_company(emails, thread_id) <==> thread_size(emails, thread_id) > 1,
        has_thread(emails, thread_id) <==> thread_size(emails, thread_id) > 0,
    decreases emails.len(),
{
    let p = in_thread(thread_id);
    if emails.len() == 0 {
        assert(emails.filter(p) =~= emails);
    } else {
        let t = emails.drop_last();
        let n = emails.len() - 1;
        lemma_company(t, thread_id);
        assert(emails =~= t.push(emails.last()));
        t.lemma_filter_push(emails.last(), p);
        if has_company(t, thread_id) {
            let (i, j) = choose|i: int, j: int|
                0 <= i < j < t.len() && (#[trigger] t[i]).thread_id == thread_id && (
                #[trigger] t[j]).thread_id == thread_id;
            assert(emails[i].thread_id == thread_id && emails[j].thread_id == thread_id);
        }
        if has_thread(t, thread_id) {
            let i = choose|i: int| 0 <= i < t.len() && (#[trigger] t[i]).thread_id == thread_id;
            assert(emails[i].thread_id == thread_id);
            if emails.last().thread_id == thread_id {
                assert(emails[n].thread_id == thread_id);
            }
        }
        if emails.last().thread_id == thread_id {
            assert(emails[n].thread_id == thread_id);
        }
        if has_company(emails, thread_id) && !has_company(t, thread_id) {
            let (i, j) = choose|i: int, j: int|
                0 <= i < j < emails.len() && (#[trigger] emails[i]).thread_id == thread_id && (
                #[trigger] emails[j]).thread_id == thread_id;
            assert(t[i].thread_id == thread_id);
            if j < n {
                assert(t[j].thread_id == thread_id);
            }
        }
        if has_thread(emails, thread_id) && !has_thread(t, thread_id) {
            let i = choose|i: int|
                0 <= i < emails.len() && (#[trigger] emails[i]).thread_id == thread_id;
            if i < n {
                assert(t[i].thread_id == thread_id);
            }
        }
    }
}

proof fn lemma_mentions(text: Seq<char>, query: Seq<char>)
    ensures
        mentions(text, query) <==> contains_text(lowercase(text), lowercase(query)),
{
    let t = lowercase(text);
    let q = lowercase(query);
    if mentions(text, query) {
        let i = choose|i: int|
            0 <= i && i + q.len() <= t.len() && #[trigger] t.subrange(i, i + q.len()) == q;
        assert(occurs_at(t, q, i));
    }
    if contains_text(t, q) {
        let i = choose|i: int| occurs_at(t, q, i);
        assert(t.subrange(i, i + q.len()) == q);
    }
}

/// The messages that are shown are those that get through the filters.
pub proof fn law_filters_show_what_they_ask_for(app: AppV, e: EmailV)
    ensures
        app.shown()(e) <==> gets_through(app, e),
        app.is_multi(e.thread_id) <==> has_company(app.emails, e.thread_id),
{
    lemma_company(app.emails, e.thread_id);
    if app.text_filter is Some {
        lemma_mentions(e.subject, app.text_filter->0);
        lemma_mentions(e.from, app.text_filter->0);
        lemma_mentions(e.from_email, app.text_filter->0);
    }
}

/// The threads on screen, and those that are picked, are those of the messages that are
/// shown, and of those that are shown and selected.
pub proof fn lemma_threads_on_screen(app: AppV, thread_id: Seq<char>)
    ensures
        is_on_screen(app, thread_id) <==> has_thread(app.filtered_emails(), thread_id),
        is_picked(app, thread_id) <==> has_thread(app.selected_shown(), thread_id),
{
    let all = opened(app);
    let shown = app.filtered_emails();
    let picked = app.selected_shown();
    if app.current_group() is None {
        assert(shown =~= Seq::<EmailV>::empty());
        assert(picked =~= Seq::<EmailV>::empty()) by {
            if picked.len() > 0 {
                assert(picked.contains(picked[0]));
                lemma_filter_members(shown, app.is_selected(), picked[0]);
            }
        }
    } else {
        assert forall|k: int| 0 <= k < all.len() implies (shown.contains(#[trigger] all[k])
            <==> gets_through(app, all[k])) && (picked.contains(all[k]) <==> gets_through(
            app,
            all[k],
        ) && app.selected_emails.contains(all[k].id)) by {
            assert(all.contains(all[k]));
            lemma_filter_members(all, app.shown(), all[k]);
            lemma_filter_members(shown, app.is_selected(), all[k]);
            law_filters_show_what_they_ask_for(app, all[k]);
        }
        if is_on_screen(app, thread_id) {
            let k = choose|k: int|
                0 <= k < opened(app).len() && (#[trigger] opened(app)[k]).thread_id == thread_id
                    && gets_through(app, opened(app)[k]);
            assert(shown[shown.index_of(all[k])].thread_id == thread_id);
        }
        if is_picked(app, thread_id) {
            let k = choose|k: int|
                0 <= k < opened(app).len() && (#[trigger] opened(app)[k]).thread_id == thread_id
                    && gets_through(app, opened(app)[k]) && app.selected_emails.contains(
                    opened(app)[k].id,
                );
            assert(picked[picked.index_of(all[k])].thread_id == thread_id);
        }
        if has_thread(shown, thread_id) {
            let i = choose|i: int|
                0 <= i < shown.len() && (#[trigger] shown[i]).thread_id == thread_id;
            assert(shown.contains(shown[i]));
            lemma_filter_members(all, app.shown(), shown[i]);
            assert(all[all.index_of(shown[i])] == shown[i]);
        }
        if has_thread(picked, thread_id) {
            let i = choose|i: int|
                0 <= i < picked.len() && (#[trigger] picked[i]).thread_id == thread_id;
            assert(picked.contains(picked[i]));
            lemma_filter_members(shown, app.is_selected(), picked[i]);
            lemma_filter_members(all, app.shown(), picked[i]);
            assert(all[all.index_of(picked[i])] == picked[i]);
        }
    }
}

/// The messages whose thread has some property, whichever way the property is told.
pub proof fn lemma_same_filter(
    s: Seq<EmailV>,
    p: spec_fn(EmailV) -> bool, q: spec_fn(EmailV) -> bool,
)
    requires
        forall|e: EmailV| #[trigger] p(e) == q(e),
    ensures
        s.filter(p) == s.filter(q),
{
    assert(p =~= q);
}

proof fn lemma_heads_are_rows(app: AppV, n: int)
    requires
        0 <= n <= opened(app).len(),
    ensures
        thread_heads(opened(app).take(n)).filter(app.shown()).len() == rows_before(app, n),
        forall|k: int|
            0 <= k < n && #[trigger] is_row(app, k) ==> rows_before(app, k) < rows_before(app, n)
                && thread_heads(opened(app).take(n)).filter(app.shown())[rows_before(app, k) as int]
                == opened(app)[k],
    decreases n,
{
    let all = opened(app);
    let p = app.shown();
    let s = all.take(n);
    if n == 0 {
        assert(s =~= Seq::<EmailV>::empty());
        assert(thread_heads(s).filter(p) =~= s);
    } else {
        let t = all.take(n - 1);
        let e = all[n - 1];
        lemma_heads_are_rows(app, n - 1);
        assert(s.drop_last() =~= t);
        assert(s.last() == e);
        law_filters_show_what_they_ask_for(app, e);
        thread_heads(t).lemma_filter_push(e, p);
        if has_thread(t, e.thread_id) {
            let j = choose|j: int| 0 <= j < t.len() && (#[trigger] t[j]).thread_id == e.thread_id;
            assert(all[j].thread_id == e.thread_id);
            assert(!is_row(app, n - 1));
        } else {
            assert forall|j: int| 0 <= j < n - 1 implies (#[trigger] all[j]).thread_id
                != e.thread_id by {
                assert(t[j] == all[j]);
            }
        }
    }
}

/// The list of threads: one row for each thread of the open group that gets through, told by
/// the first message of it, in the order of the group. The selected row is the current one.
pub proof fn law_rows_stand_for_threads(app: AppV, k: int)
    requires
        0 <= k < opened(app).len(),
    ensures
        app.filtered_threads().len() == rows_before(app, opened(app).len() as int),
        is_row(app, k) ==> app.filtered_threads()[rows_before(app, k) as int] == opened(app)[k]
            && rows_before(app, k) < app.filtered_threads().len(),
        is_row(app, k) && app.selected_email is Some && app.selected_email->0 == rows_before(app, k)
            ==> app.current_email() == Some(opened(app)[k]),
{
    lemma_heads_are_rows(app, opened(app).len() as int);
    assert(opened(app).take(opened(app).len() as int) =~= opened(app));
}

proof fn lemma_row_at(app: AppV, i: nat, n: int) -> (k: int)
    requires
        0 <= n <= opened(app).len(),
        i < rows_before(app, n),
    ensures
        0 <= k < n,
        is_row(app, k),
        rows_before(app, k) == i,
    decreases n,
{
    if n == 0 {
        0
    } else if is_row(app, n - 1) && rows_before(app, n - 1) == i {
        n - 1
    } else {
        lemma_row_at(app, i, n - 1)
    }
}

/// The current thread is the selected row: a message of the open group that gets through, the
/// first of its thread, with as many rows before it as the selection says. There is none
/// where the selection is no row.
pub proof fn law_current_thread_is_the_selected_row(app: AppV)
    ensures
        match app.current_email() {
            Some(e) => app.selected_email is Some && exists|k: int| #[trigger]
                is_row(app, k) && opened(app)[k] == e && rows_before(app, k)
                    == app.selected_email->0,
            None => app.selected_email is None || app.selected_email->0 >= rows_before(
                app,
                opened(app).len() as int,
            ),
        },
{
    let n = opened(app).len() as int;
    if app.selected_group < app.groups.len() {
        lemma_heads_are_rows(app, n);
        assert(opened(app).take(n) =~= opened(app));
        if app.selected_email is Some && app.selected_email->0 < rows_before(app, n) {
            let k = lemma_row_at(app, app.selected_email->0 as nat, n);
            assert(is_row(app, k));
        }
    }
}

} // verus!
