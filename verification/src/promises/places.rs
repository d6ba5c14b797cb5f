//! Where the selection lands.
use vstd::prelude::*;
use vstd::view::View as _;

use crate::desk::{Key, KeyPress, Settings};
use crate::email::EmailV;
use crate::grouping::GroupV;
use crate::laws::{
    has_distinct_keys, law_newest_first, lemma_first_kept, lemma_key_position, lemma_last_kept,
};
use crate::listing::{has_thread, in_thread, thread_heads};
use crate::modes::{GroupMode, ThreadFilter, View};
use crate::promises::keys::{is_listed, lemma_listed, lemma_rows, pressed_times, row_after, rows};
use crate::promises::moves::{action_of, done, is_ready, lemma_meant, meant, Scope};
use crate::promises::seen::{
    has_company, is_picked, law_filters_show_what_they_ask_for, lemma_threads_on_screen, opened,
};
use crate::promises::senders::is_older;
use crate::session::{EffectV, PendingV, ResponseV, SessionV};
use crate::state::AppV;
use crate::undo::UndoActionType;

verus! {

broadcast use vstd::seq_lib::group_seq_properties;

// ---------------------------------------------------------------------------
// The ends of lists

proof fn lemma_ends(app: AppV)
    requires
        app.view == View::GroupList,
        has_distinct_keys(app.groups),
        app.groups.len() <= usize::MAX,
    ensures
        ({
            let first = app.at_first().selected_group as int;
            let last = app.at_last().selected_group as int;
            if exists|j: int| 0 <= j < app.groups.len() && is_listed(app, #[trigger] app.groups[j]) {
                &&& 0 <= first < app.groups.len() && is_listed(app, app.groups[first])
                &&& 0 <= last < app.groups.len() && is_listed(app, app.groups[last])
                &&& forall|j: int|
                    0 <= j < app.groups.len() && is_listed(app, #[trigger] app.groups[j]) ==> first
                        <= j <= last
            } else {
                first == app.selected_group && last == app.selected_group
            }
        }),
{
    let p = app.shown_group();
    assert forall|j: int| 0 <= j < app.groups.len() implies p(#[trigger] app.groups[j])
        == is_listed(app, app.groups[j]) by {
        lemma_listed(app, app.groups[j]);
    }
    if app.filtered_groups().len() > 0 {
        let last = lemma_last_kept(app.groups, p);
        let first = lemma_first_kept(app.groups, p);
        lemma_key_position(app.groups, app.groups[last].key, 0, last);
        lemma_key_position(app.groups, app.groups[first].key, 0, first);
        assert(is_listed(app, app.groups[last]));
    } else {
        if exists|j: int| 0 <= j < app.groups.len() && is_listed(app, #[trigger] app.groups[j]) {
            let j = choose|j: int|
                0 <= j < app.groups.len() && is_listed(app, #[trigger] app.groups[j]);
            crate::promises::senders::lemma_group_filter(app.groups, p, app.groups[j]);
            assert(app.groups.contains(app.groups[j]));
            assert(app.filtered_groups().contains(app.groups[j]));
        }
    }
}

/// `G` goes to the last item of the list on screen and `g`, pressed twice, to the first: of
/// the groups that are listed, of the threads, of the messages of the thread, of the actions
/// that can be undone, or of the lines of the message. An empty list changes nothing.
pub proof fn law_the_ends_are_the_first_and_the_last(s: SessionV, g: KeyPress, capital: KeyPress)
    requires
        is_ready(s),
        !s.desk.pending_g,
        g.key == Key::Char('g'),
        capital.key == Key::Char('G'),
        has_distinct_keys(s.desk.app.groups),
        s.desk.app.groups.len() <= usize::MAX,
        rows(s.desk.app) <= usize::MAX,
        s.desk.app.thread_emails().len() <= usize::MAX,
        s.desk.app.undo_history.len() <= usize::MAX,
    ensures
        ({
            let app = s.desk.app;
            let first = s.pressed(g).0.pressed(g).0.desk.app;
            let last = s.pressed(capital).0.desk.app;
            match app.view {
                View::GroupList => if exists|j: int|
                    0 <= j < app.groups.len() && is_listed(app, #[trigger] app.groups[j]) {
                    let a = first.selected_group as int;
                    let b = last.selected_group as int;
                    &&& 0 <= a < app.groups.len() && is_listed(app, app.groups[a])
                    &&& 0 <= b < app.groups.len() && is_listed(app, app.groups[b])
                    &&& forall|j: int|
                        0 <= j < app.groups.len() && is_listed(app, #[trigger] app.groups[j]) ==> a
                            <= j <= b
                } else {
                    first == app && last == app
                },
                View::EmailList => if rows(app) > 0 {
                    first.selected_email == Some(0usize) && last.selected_email == Some(
                        (rows(app) - 1) as usize,
                    )
                } else {
                    first == app && last == app
                },
                View::Thread => if meant(app, Scope::Thread).len() > 0 {
                    first.selected_thread_email == Some(0usize) && last.selected_thread_email
                        == Some((meant(app, Scope::Thread).len() - 1) as usize)
                } else {
                    first == app && last == app
                },
                View::UndoHistory => if app.undo_history.len() > 0 {
                    first.selected_undo == 0 && last.selected_undo == app.undo_history.len() - 1
                } else {
                    first == app && last == app
                },
                View::EmailBody => first.text_view_scroll == 0 && last.text_view_scroll
                    == usize::MAX,
            }
        }),
{
    let app = s.desk.app;
    match app.view {
        View::GroupList => {
            lemma_ends(app);
            assert(app.at_first() == AppV { selected_group: app.at_first().selected_group, ..app });
            assert(app.at_last() == AppV { selected_group: app.at_last().selected_group, ..app });
        },
        View::EmailList => {
            lemma_rows(app);
        },
        View::Thread => {
            lemma_meant(app);
        },
        _ => {},
    }
}

/// Moving in between makes one `g` count for nothing.
pub proof fn law_moving_forgets_the_g(s: SessionV, p: KeyPress)
    requires
        is_ready(s),
        p.key == Key::Down || p.key == Key::Up || p.key == Key::Char('j') || p.key == Key::Char('k'),
    ensures
        !s.pressed(p).0.desk.pending_g,
{
}

proof fn lemma_pressed_back(s: SessionV, n: nat)
    requires
        is_ready(s),
        s.desk.app.view != View::EmailBody,
        s.desk.app.can_move_back(),
    ensures
        ({
            let t = pressed_times(s, KeyPress { key: Key::Up, control: false }, n);
            &&& t.desk.app == s.desk.app.moved_back_by(n)
            &&& is_ready(t)
            &&& t.desk.app.view == s.desk.app.view
            &&& t.desk.app.can_move_back()
        }),
    decreases n,
{
    if n > 0 {
        lemma_pressed_back(s, (n - 1) as nat);
        let app = s.desk.app.moved_back_by((n - 1) as nat);
        lemma_back_stays(app);
    }
}

proof fn lemma_back_stays(app: AppV)
    requires
        app.can_move_back(),
    ensures
        app.moved_back().can_move_back(),
{
    if app.view == View::GroupList && app.thread_filter != ThreadFilter::All {
        lemma_shown_before(app, app.selected_group as int);
    }
}

proof fn lemma_shown_before(app: AppV, to: int)
    requires
        0 <= to,
    ensures
        app.shown_before(to) < to || app.shown_before(to) == -1,
    decreases to,
{
    if to > 0 {
        lemma_shown_before(app, to - 1);
    }
}

/// Half a page up is as many rows up, one at least.
pub proof fn law_half_a_page_up_is_so_many_rows(s: SessionV)
    requires
        is_ready(s),
        s.desk.app.view != View::EmailBody,
        s.desk.app.selected_group <= s.desk.app.groups.len(),
    ensures
        ({
            let height = match s.desk.app.view {
                View::GroupList => s.desk.ui.viewport_heights.group_list,
                View::EmailList => s.desk.ui.viewport_heights.email_list,
                View::Thread => s.desk.ui.viewport_heights.thread_view,
                _ => s.desk.ui.viewport_heights.undo_history,
            };
            let half = if height / 2 < 1 {
                1nat
            } else {
                (height / 2) as nat
            };
            s.pressed(KeyPress { key: Key::Char('u'), control: true }).0.desk.app == pressed_times(
                s,
                KeyPress { key: Key::Up, control: false },
                half,
            ).desk.app
        }),
{
    let height = match s.desk.app.view {
        View::GroupList => s.desk.ui.viewport_heights.group_list,
        View::EmailList => s.desk.ui.viewport_heights.email_list,
        View::Thread => s.desk.ui.viewport_heights.thread_view,
        _ => s.desk.ui.viewport_heights.undo_history,
    };
    let half = if height / 2 < 1 {
        1nat
    } else {
        (height / 2) as nat
    };
    lemma_pressed_back(s, half);
}

/// In the body of a message half a page is half the height of the text, one line at least.
pub proof fn law_half_a_page_of_text(s: SessionV)
    requires
        is_ready(s),
        s.desk.app.view == View::EmailBody,
    ensures
        ({
            let app = s.desk.app;
            let height = s.desk.ui.viewport_heights.text_view;
            let half = if height / 2 < 1 {
                1int
            } else {
                (height / 2) as int
            };
            let down = s.pressed(KeyPress { key: Key::Char('d'), control: true }).0.desk.app;
            let up = s.pressed(KeyPress { key: Key::Char('u'), control: true }).0.desk.app;
            &&& app.text_view_scroll + half <= usize::MAX ==> down.text_view_scroll
                == app.text_view_scroll + half
            &&& up.text_view_scroll == if app.text_view_scroll >= half {
                app.text_view_scroll - half
            } else {
                0
            }
            &&& down == (AppV { text_view_scroll: down.text_view_scroll, ..app })
            &&& up == (AppV { text_view_scroll: up.text_view_scroll, ..app })
        }),
{
}

// ---------------------------------------------------------------------------
// Filters

/// With another filter on threads, the selected row stays while there is such a row, and the
/// selected group while it is listed; otherwise they become the first.
pub proof fn law_filters_keep_the_selection(s: SessionV, p: KeyPress)
    requires
        is_ready(s),
        p.key == Key::Char('t'),
        s.desk.app.view == View::GroupList || s.desk.app.view == View::EmailList,
        has_distinct_keys(s.desk.app.groups),
        s.desk.app.groups.len() <= usize::MAX,
        s.desk.app.selected_group < s.desk.app.groups.len(),
    ensures
        ({
            let app = s.desk.app;
            let after = s.pressed(p).0.desk.app;
            &&& after.thread_filter == ThreadFilter::All ==> after.selected_group
                == app.selected_group && after.selected_email == app.selected_email
            &&& after.thread_filter != ThreadFilter::All ==> after.selected_email == row_after(
                app.selected_email,
                rows(after),
            )
            &&& after.thread_filter != ThreadFilter::All && app.view == View::GroupList ==> {
                let g = after.selected_group as int;
                if exists|j: int|
                    0 <= j < app.groups.len() && is_listed(after, #[trigger] app.groups[j]) {
                    &&& 0 <= g < app.groups.len() && is_listed(after, app.groups[g])
                    &&& g != app.selected_group ==> !is_listed(
                        after,
                        app.groups[app.selected_group as int],
                    ) && forall|j: int|
                        0 <= j < app.groups.len() && is_listed(after, #[trigger] app.groups[j])
                            ==> g <= j
                } else {
                    g == app.selected_group
                }
            }
        }),
{
    let app = s.desk.app;
    let after = s.pressed(p).0.desk.app;
    let u = AppV { thread_filter: app.thread_filter.following(), ..app };
    lemma_rows(after);
    if after.thread_filter != ThreadFilter::All {
        let v = if app.view == View::GroupList {
            u.on_shown_group()
        } else {
            u
        };
        assert(v.shown() =~= after.shown());
        assert(v.filtered_threads() == after.filtered_threads());
        if app.view == View::GroupList {
            lemma_ends(u);
            assert forall|j: int| 0 <= j < app.groups.len() implies is_listed(
                after,
                #[trigger] app.groups[j],
            ) == is_listed(u, app.groups[j]) by {}
            let current = app.groups[app.selected_group as int];
            lemma_listed(u, current);
            crate::promises::senders::lemma_group_filter(u.groups, u.shown_group(), current);
            assert(u.groups.contains(current));
            if u.shows_group(current) {
                let k = u.filtered_groups().index_of(current);
                assert(u.filtered_groups()[k].key == current.key);
                assert(u.shows_key(current.key));
            } else if u.shows_key(current.key) {
                let k = choose|k: int|
                    0 <= k < u.filtered_groups().len() && (#[trigger] u.filtered_groups()[k]).key
                        == current.key;
                let other = u.filtered_groups()[k];
                assert(u.filtered_groups().contains(other));
                crate::promises::senders::lemma_group_filter(u.groups, u.shown_group(), other);
                let j = u.groups.index_of(other);
                assert(u.groups[j].key == u.groups[u.selected_group as int].key);
                assert(j == u.selected_group);
            }
        }
    }
}

// ---------------------------------------------------------------------------
// Threads and selections

/// The view of a thread lists the messages of the current thread, whoever sent them, each as
/// often as it is there, and no message stands behind an older one.
pub proof fn law_threads_are_listed_newest_first(app: AppV)
    ensures
        app.thread_emails().to_multiset() == meant(app, Scope::Thread).to_multiset(),
        forall|i: int, j: int|
            0 <= i < j < app.thread_emails().len() ==> !is_older(
                #[trigger] app.thread_emails()[i],
                #[trigger] app.thread_emails()[j],
            ),
        match app.current_thread_email() {
            Some(e) => app.selected_thread_email is Some && app.selected_thread_email->0
                < app.thread_emails().len() && e
                == app.thread_emails()[app.selected_thread_email->0 as int],
            None => app.selected_thread_email is None || app.selected_thread_email->0 >= meant(
                app,
                Scope::Thread,
            ).len(),
        },
{
    lemma_meant(app);
    if let Some(c) = app.current_email() {
        law_newest_first(app.emails.filter(in_thread(c.thread_id)), c);
        let list = app.thread_emails();
        assert forall|i: int, j: int| 0 <= i < j < list.len() implies !is_older(
            #[trigger] list[i],
            #[trigger] list[j],
        ) by {
            assert(!crate::listing::newer()(list[j], list[i]));
        }
    }
}

/// Some selected message is on screen just if some thread is picked.
pub proof fn law_a_visible_selection_picks_a_thread(app: AppV)
    ensures
        app.has_visible_selection() <==> exists|t: Seq<char>| is_picked(app, t),
{
    let shown = app.filtered_emails();
    let picked = app.selected_shown();
    if app.has_visible_selection() {
        let k = choose|k: int|
            0 <= k < shown.len() && app.selected_emails.contains((#[trigger] shown[k]).id);
        assert(shown.contains(shown[k]));
        crate::laws::lemma_filter_members(shown, app.is_selected(), shown[k]);
        assert(picked[picked.index_of(shown[k])].thread_id == shown[k].thread_id);
        assert(has_thread(picked, shown[k].thread_id));
        lemma_threads_on_screen(app, shown[k].thread_id);
        assert(is_picked(app, shown[k].thread_id));
    }
    if exists|t: Seq<char>| is_picked(app, t) {
        let t = choose|t: Seq<char>| is_picked(app, t);
        lemma_threads_on_screen(app, t);
        let i = choose|i: int| 0 <= i < picked.len() && (#[trigger] picked[i]).thread_id == t;
        assert(picked.contains(picked[i]));
        crate::laws::lemma_filter_members(shown, app.is_selected(), picked[i]);
        assert(shown[shown.index_of(picked[i])] == picked[i]);
    }
}

/// A group is marked as one with threads just if a message of it is in company, and one has
/// lone messages just if a message of it is alone in its thread.
pub proof fn law_groups_are_marked_by_their_threads(app: AppV, g: GroupV)
    ensures
        app.has_multi(g) <==> exists|k: int|
            0 <= k < g.emails.len() && has_company(app.emails, (#[trigger] g.emails[k]).thread_id),
        app.has_single(g) <==> exists|k: int|
            0 <= k < g.emails.len() && !has_company(app.emails, (#[trigger] g.emails[k]).thread_id),
{
    assert forall|k: int| 0 <= k < g.emails.len() implies app.is_multi(
        (#[trigger] g.emails[k]).thread_id,
    ) == has_company(app.emails, g.emails[k].thread_id) by {
        law_filters_show_what_they_ask_for(app, g.emails[k]);
    }
}

// ---------------------------------------------------------------------------
// After a move

/// The number of threads of the open group.
pub open spec fn threads_opened(app: AppV) -> nat {
    rows(AppV { thread_filter: ThreadFilter::All, text_filter: None, ..app })
}

/// The open group has as many threads as it has first messages of threads.
pub proof fn lemma_threads_opened(app: AppV)
    ensures
        thread_heads(opened(app)).len() == threads_opened(app),
{
    let u = AppV { thread_filter: ThreadFilter::All, text_filter: None, ..app };
    lemma_rows(u);
    assert(opened(u) == opened(app));
    if app.selected_group < app.groups.len() {
        let heads = thread_heads(opened(app));
        lemma_all_kept(heads, u.shown());
    } else {
        assert(thread_heads(opened(app)) =~= Seq::<EmailV>::empty());
    }
}

proof fn lemma_all_kept(s: Seq<EmailV>, p: spec_fn(EmailV) -> bool)
    requires
        forall|e: EmailV| #[trigger] p(e),
    ensures
        s.filter(p) == s,
    decreases s.len(),
{
    if s.len() == 0 {
        assert(s.filter(p) =~= s) by {
            reveal(Seq::filter);
        }
    } else {
        lemma_all_kept(s.drop_last(), p);
        assert(s =~= s.drop_last().push(s.last()));
        s.drop_last().lemma_filter_push(s.last(), p);
    }
}

/// After a thread has been moved, the row stays selected, or the last one where that was the
/// last; after the threads of a sender or a selection have been moved, the first one is. No
/// row is selected where none is left. The view of a thread that is gone is closed.
pub proof fn law_a_row_is_selected_after_a_move(s: SessionV, op: PendingV, map: Map<Seq<char>, u32>)
    requires
        s.pending == Some(op),
        action_of(op) is Some,
        s.desk.app.view != View::UndoHistory,
    ensures
        ({
            let app = s.desk.app;
            let after = s.answered(done(action_of(op)->0, map)).0.desk.app;
            let n = threads_opened(after);
            &&& match op {
                PendingV::Thread { .. } => after.selected_email == if n == 0 {
                    None
                } else if app.selected_email is Some && app.selected_email->0 < n {
                    app.selected_email
                } else {
                    Some((n - 1) as usize)
                },
                _ => after.selected_email == if n == 0 {
                    None
                } else {
                    Some(0usize)
                },
            }
            &&& op is Thread && app.view == View::Thread ==> after.view == View::EmailList
            &&& !(op is Thread && app.view == View::Thread) ==> after.view == app.view
            &&& after.text_filter == app.text_filter
            &&& after.thread_filter == app.thread_filter
            &&& after.group_mode == app.group_mode
        }),
{
    let after = s.answered(done(action_of(op)->0, map)).0.desk.app;
    lemma_threads_opened(after);
    if after.selected_group >= after.groups.len() {
        assert(thread_heads(opened(after)) =~= Seq::<EmailV>::empty());
    }
}

/// An answer that was not waited for changes no message and no entry of the history: a move of
/// the other kind, or any where nothing is pending.
pub proof fn law_unexpected_answers_change_nothing(
    s: SessionV,
    action: UndoActionType,
    map: Map<Seq<char>, u32>,
)
    requires
        s.pending is None || action_of(s.pending->0) != Some(action),
    ensures
        s.answered(done(action, map)).0.desk.app == s.desk.app,
        s.answered(done(action, map)).1 == EffectV::Nothing,
        s.pending is None || !(s.pending->0 is Undo) ==> s.answered(
            ResponseV::RestoreResult(Ok(())),
        ).0.desk.app == s.desk.app && s.answered(ResponseV::RestoreResult(Ok(()))).1
            == EffectV::Nothing,
{
}

/// A session starts with no messages, with the groups on screen and the server at work; the
/// messages of the user are those of the address of the account.
pub proof fn law_sessions_start_with_nothing(name: Seq<char>, user: Seq<char>, settings: Settings)
    ensures
        ({
            let s = SessionV::started(name, user, settings);
            &&& s.user_email == user
            &&& s.settings == settings
            &&& s.pending is None
            &&& s.desk.ui.busy
            &&& s.desk.ui.confirm_action is None
            &&& s.desk.app.user_email == Some(user)
            &&& s.desk.app.view == View::GroupList
            &&& s.desk.app.emails.len() == 0
            &&& s.desk.app.groups.len() == 0
            &&& !s.desk.app.emails_loaded
            &&& s.desk.app.undo_history.len() == 0
            &&& s.desk.app.thread_filter == ThreadFilter::All
            &&& s.desk.app.text_filter is None
            &&& s.desk.app.group_mode == GroupMode::BySenderEmail
            &&& forall|id: Seq<char>| !(#[trigger] s.desk.app.selected_emails.contains(id))
        }),
{
}

} // verus!
