//! What each key does, and what the answers of the server show.
use vstd::prelude::*;
use vstd::view::View as _;

use crate::desk::{DeskV, Key, KeyPress, RequestV, Settings};
use crate::email::EmailV;
use crate::grouping::{grouping, GroupV};
use crate::modes::{ThreadFilter, View};
use crate::promises::moves::is_ready;
use crate::promises::seen::{
    has_company, law_filters_show_what_they_ask_for, law_rows_stand_for_threads, opened,
    rows_before,
};
use crate::session::{CommandV, EffectV, ResponseV, SessionV};
use crate::state::AppV;
use crate::ui::widgets::{ConfirmV, TextViewV, UiV};

verus! {

broadcast use vstd::seq_lib::group_seq_properties;

/// The number of rows in the list of threads.
pub open spec fn rows(app: AppV) -> nat {
    rows_before(app, opened(app).len() as int)
}

/// The list of threads is as long as there are rows.
pub proof fn lemma_rows(app: AppV)
    ensures
        app.filtered_threads().len() == rows(app),
{
    if opened(app).len() > 0 {
        law_rows_stand_for_threads(app, 0);
    } else if app.selected_group < app.groups.len() {
        let g = app.groups[app.selected_group as int];
        assert(crate::listing::thread_heads(g.emails) =~= Seq::<EmailV>::empty());
        assert(app.filtered_threads() =~= Seq::<EmailV>::empty());
    }
}

/// Whether two states hold the same messages in the same groups, with the same group open and
/// the same actions to undo.
pub open spec fn same_messages(a: AppV, b: AppV) -> bool {
    &&& a.emails == b.emails
    &&& a.groups == b.groups
    &&& a.group_mode == b.group_mode
    &&& a.selected_group == b.selected_group
    &&& a.viewing_group_key == b.viewing_group_key
    &&& a.user_email == b.user_email
    &&& a.undo_history == b.undo_history
    &&& a.emails_loaded == b.emails_loaded
}

// ---------------------------------------------------------------------------
// Filtering by text

/// Whether a filter is being typed.
pub open spec fn is_typing(s: SessionV) -> bool {
    &&& !s.desk.ui.busy
    &&& s.desk.ui.confirm_action is None
    &&& s.desk.ui.status_message is None
    &&& !s.desk.ui.showing_help
    &&& s.desk.ui.filter_input_active
}

/// A selected row after the list has changed: the same row while there is one, and otherwise
/// the first one, or none.
pub open spec fn row_after(before: Option<usize>, rows: nat) -> Option<usize> {
    if before is None || before->0 < rows {
        before
    } else if rows == 0 {
        None
    } else {
        Some(0)
    }
}

/// Typing narrows the list as it goes: each character is added to the filter, and backspace
/// takes the last one away, until there is no filter.
pub proof fn law_the_filter_follows_what_is_typed(s: SessionV, p: KeyPress, c: char)
    requires
        is_typing(s),
        p.key == Key::Char(c) || p.key == Key::Backspace,
    ensures
        ({
            let (t, effect) = s.pressed(p);
            let old_query = s.desk.ui.filter_query;
            let query = t.desk.ui.filter_query;
            &&& effect == EffectV::Nothing
            &&& same_messages(t.desk.app, s.desk.app)
            &&& t.desk.app.view == s.desk.app.view
            &&& t.desk.app.selected_emails == s.desk.app.selected_emails
            &&& t.desk.app.thread_filter == s.desk.app.thread_filter
            &&& is_typing(t)
            &&& p.key == Key::Char(c) ==> query == old_query.push(c) && t.desk.app.text_filter
                == Some(query) && t.desk.app.selected_email == row_after(
                s.desk.app.selected_email,
                rows(t.desk.app),
            )
            &&& p.key == Key::Backspace ==> {
                &&& old_query.len() > 0 ==> query.len() == old_query.len() - 1 && query
                    == old_query.take(old_query.len() - 1)
                &&& old_query.len() == 0 ==> query.len() == 0
                &&& query.len() == 0 ==> t.desk.app.text_filter is None
                &&& query.len() > 0 ==> t.desk.app.text_filter == Some(query)
            }
        }),
{
    let t = s.pressed(p).0;
    lemma_rows(t.desk.app);
    if p.key == Key::Backspace && s.desk.ui.filter_query.len() > 0 {
        assert(s.desk.ui.filter_query.drop_last() =~= s.desk.ui.filter_query.take(
            s.desk.ui.filter_query.len() - 1,
        ));
    }
    if p.key == Key::Char(c) {
        let query = s.desk.ui.filter_query.push(c);
        let u = AppV { text_filter: Some(query), ..s.desk.app };
        assert(u.shown() =~= t.desk.app.shown());
        assert(u.filtered_threads() == t.desk.app.filtered_threads());
    }
}

/// Enter ends the typing and keeps the filter: what is listed stays as it is. Escape ends it
/// too, and lists everything again. No other key changes anything.
pub proof fn law_enter_keeps_the_filter_and_escape_drops_it(s: SessionV, p: KeyPress)
    requires
        is_typing(s),
        p.key != Key::Backspace,
        !(p.key is Char),
    ensures
        ({
            let (t, effect) = s.pressed(p);
            &&& effect == EffectV::Nothing
            &&& t.pending == s.pending
            &&& same_messages(t.desk.app, s.desk.app)
            &&& t.desk.app.selected_emails == s.desk.app.selected_emails
            &&& t.desk.app.thread_filter == s.desk.app.thread_filter
            &&& t.desk.app.view == s.desk.app.view
            &&& p.key == Key::Enter ==> t.desk.app == s.desk.app && t.desk.app.filtered_threads()
                == s.desk.app.filtered_threads() && !t.desk.ui.filter_input_active
            &&& p.key == Key::Esc ==> t.desk.app.text_filter is None
                && !t.desk.ui.filter_input_active && t.desk.ui.filter_query.len() == 0
            &&& p.key != Key::Enter && p.key != Key::Esc ==> t == s
        }),
{
}

/// A slash in the list of threads starts the typing, with the filter that is set.
pub proof fn law_a_slash_starts_typing(s: SessionV, p: KeyPress)
    requires
        is_ready(s),
        p.key == Key::Char('/'),
    ensures
        ({
            let (t, effect) = s.pressed(p);
            &&& effect == EffectV::Nothing
            &&& t.desk.app == s.desk.app
            &&& s.desk.app.view == View::EmailList ==> is_typing(t) && match s.desk.app.text_filter {
                Some(query) => t.desk.ui.filter_query == query,
                None => t.desk.ui.filter_query.len() == 0,
            }
            &&& s.desk.app.view != View::EmailList ==> !t.desk.ui.filter_input_active
        }),
{
}

// ---------------------------------------------------------------------------
// Moving about

/// Whether a key moves on by one.
pub open spec fn is_on_key(p: KeyPress) -> bool {
    p.key == Key::Char('j') || p.key == Key::Down
}

/// Whether a key moves back by one.
pub open spec fn is_back_key(p: KeyPress) -> bool {
    p.key == Key::Char('k') || p.key == Key::Up
}

/// Whether a group is listed: with a filter on threads, it has a message that the filter asks
/// for.
pub open spec fn is_listed(app: AppV, g: GroupV) -> bool {
    &&& app.thread_filter == ThreadFilter::OnlyThreads ==> exists|k: int|
        0 <= k < g.emails.len() && has_company(app.emails, (#[trigger] g.emails[k]).thread_id)
    &&& app.thread_filter == ThreadFilter::NoThreads ==> exists|k: int|
        0 <= k < g.emails.len() && !has_company(app.emails, (#[trigger] g.emails[k]).thread_id)
}

/// The groups that are shown are those that are listed.
pub proof fn lemma_listed(app: AppV, g: GroupV)
    ensures
        app.shows_group(g) <==> is_listed(app, g),
{
    assert forall|k: int| 0 <= k < g.emails.len() implies app.is_multi(
        (#[trigger] g.emails[k]).thread_id,
    ) == has_company(app.emails, g.emails[k].thread_id) by {
        law_filters_show_what_they_ask_for(app, g.emails[k]);
    }
}

proof fn lemma_next_listed(app: AppV, from: int)
    requires
        0 <= from,
    ensures
        ({
            let at = app.shown_at_or_after(from);
            &&& at < app.groups.len() ==> from <= at && is_listed(app, app.groups[at])
            &&& forall|j: int|
                from <= j < app.groups.len() && (at >= app.groups.len() || j < at) ==> !is_listed(
                    app,
                    #[trigger] app.groups[j],
                )
        }),
    decreases app.groups.len() - from,
{
    if from < app.groups.len() {
        lemma_listed(app, app.groups[from]);
        if !app.shows_group(app.groups[from]) {
            lemma_next_listed(app, from + 1);
        }
    }
}

proof fn lemma_previous_listed(app: AppV, to: int)
    requires
        0 <= to <= app.groups.len(),
    ensures
        ({
            let at = app.shown_before(to);
            &&& at < to
            &&& at >= 0 ==> is_listed(app, app.groups[at])
            &&& at >= -1
            &&& forall|j: int| at < j < to ==> 0 <= j ==> !is_listed(app, #[trigger] app.groups[j])
        }),
    decreases to,
{
    if to > 0 {
        lemma_listed(app, app.groups[to - 1]);
        if !app.shows_group(app.groups[to - 1]) {
            lemma_previous_listed(app, to - 1);
        }
    }
}

/// Whether a place is the next one in a list of some length, or the same at its end.
pub open spec fn is_next(before: Option<usize>, after: Option<usize>, len: nat) -> bool {
    match before {
        Some(i) => if i + 1 < len {
            after is Some && after->0 == i + 1
        } else {
            after == before
        },
        None => if len > 0 {
            after == Some(0usize)
        } else {
            after is None
        },
    }
}

/// Whether a place is the one before, or the same at the beginning of the list.
pub open spec fn is_previous(before: Option<usize>, after: Option<usize>) -> bool {
    match before {
        Some(i) => after is Some && after->0 == if i > 0 {
            i - 1
        } else {
            0
        },
        None => after is None,
    }
}

/// Whether a state differs from another in what is selected only.
pub open spec fn only_selects(a: AppV, b: AppV) -> bool {
    a == (AppV {
        selected_group: a.selected_group,
        selected_email: a.selected_email,
        selected_thread_email: a.selected_thread_email,
        selected_undo: a.selected_undo,
        text_view_scroll: a.text_view_scroll,
        ..b
    })
}

/// Whether the lists are no longer than positions can tell.
pub open spec fn has_short_lists(app: AppV) -> bool {
    rows(app) <= usize::MAX && app.thread_emails().len() <= usize::MAX && app.undo_history.len()
        <= usize::MAX
}

/// `j` moves on by one in the list on screen, and stays at its end: to the next group that is
/// listed, the next thread, the next message of the thread, the next action, or the next line.
pub proof fn law_j_moves_on(s: SessionV, p: KeyPress)
    requires
        is_ready(s),
        is_on_key(p),
        has_short_lists(s.desk.app),
    ensures
        ({
            let app = s.desk.app;
            let (t, effect) = s.pressed(p);
            let after = t.desk.app;
            &&& effect == EffectV::Nothing
            &&& only_selects(after, app)
            &&& app.view == View::GroupList && app.selected_group < app.groups.len() <= usize::MAX
                ==> {
                &&& after.selected_group != app.selected_group ==> app.selected_group
                    < after.selected_group < app.groups.len() && is_listed(
                    app,
                    app.groups[after.selected_group as int],
                )
                &&& forall|j: int|
                    app.selected_group < j < app.groups.len() && (after.selected_group
                        == app.selected_group || j < after.selected_group) ==> !is_listed(
                        app,
                        #[trigger] app.groups[j],
                    )
            }
            &&& app.view == View::EmailList ==> is_next(
                app.selected_email,
                after.selected_email,
                rows(app),
            )
            &&& app.view == View::Thread ==> is_next(
                app.selected_thread_email,
                after.selected_thread_email,
                app.thread_emails().len(),
            )
            &&& app.view == View::UndoHistory ==> after.selected_undo == if app.selected_undo + 1
                < app.undo_history.len() {
                app.selected_undo + 1
            } else {
                app.selected_undo as int
            }
            &&& app.view == View::EmailBody && app.text_view_scroll < usize::MAX
                ==> after.text_view_scroll == app.text_view_scroll + 1
            &&& app.view != View::GroupList ==> after.selected_group == app.selected_group
            &&& app.view != View::EmailList ==> after.selected_email == app.selected_email
            &&& app.view != View::UndoHistory ==> after.selected_undo == app.selected_undo
        }),
{
    lemma_rows(s.desk.app);
    lemma_next_listed(s.desk.app, s.desk.app.selected_group + 1);
}

/// `k` moves back by one in the list on screen, and stays at its beginning.
pub proof fn law_k_moves_back(s: SessionV, p: KeyPress)
    requires
        is_ready(s),
        is_back_key(p),
    ensures
        ({
            let app = s.desk.app;
            let (t, effect) = s.pressed(p);
            let after = t.desk.app;
            &&& effect == EffectV::Nothing
            &&& only_selects(after, app)
            &&& app.view == View::GroupList && app.selected_group < app.groups.len() ==> {
                &&& after.selected_group != app.selected_group ==> after.selected_group
                    < app.selected_group && is_listed(
                    app,
                    app.groups[after.selected_group as int],
                )
                &&& forall|j: int|
                    0 <= j < app.selected_group && (after.selected_group == app.selected_group || j
                        > after.selected_group) ==> !is_listed(app, #[trigger] app.groups[j])
            }
            &&& app.view == View::EmailList && app.selected_group < app.groups.len()
                ==> is_previous(app.selected_email, after.selected_email)
            &&& app.view == View::Thread ==> is_previous(
                app.selected_thread_email,
                after.selected_thread_email,
            )
            &&& app.view == View::UndoHistory ==> after.selected_undo == if app.selected_undo > 0 {
                app.selected_undo - 1
            } else {
                0
            }
            &&& app.view == View::EmailBody ==> after.text_view_scroll == if app.text_view_scroll
                > 0 {
                app.text_view_scroll - 1
            } else {
                0
            }
        }),
{
    let app = s.desk.app;
    if app.selected_group <= app.groups.len() {
        lemma_previous_listed(app, app.selected_group as int);
        if app.thread_filter == ThreadFilter::All && app.selected_group > 0 {
            assert forall|j: int|
                0 <= j < app.selected_group && j > app.selected_group - 1 implies !is_listed(
                app,
                #[trigger] app.groups[j],
            ) by {}
        }
    }
}

/// The state after pressing a key several times.
pub open spec fn pressed_times(s: SessionV, p: KeyPress, n: nat) -> SessionV
    decreases n,
{
    if n == 0 {
        s
    } else {
        pressed_times(s, p, (n - 1) as nat).pressed(p).0
    }
}

proof fn lemma_pressed_times(s: SessionV, p: KeyPress, n: nat)
    requires
        is_ready(s),
        p == (KeyPress { key: Key::Down, control: false }),
        s.desk.app.view != View::EmailBody,
    ensures
        pressed_times(s, p, n).desk.app == s.desk.app.moved_on_by(n),
        is_ready(pressed_times(s, p, n)),
        pressed_times(s, p, n).desk.app.view == s.desk.app.view,
    decreases n,
{
    if n > 0 {
        lemma_pressed_times(s, p, (n - 1) as nat);
    }
}

/// Half a page down is as many rows down, one at least.
pub proof fn law_half_a_page_is_so_many_rows(s: SessionV)
    requires
        is_ready(s),
        s.desk.app.view != View::EmailBody,
    ensures
        ({
            let height = match s.desk.app.view {
                View::GroupList => s.desk.ui.viewport_heights.group_list,
                View::EmailList => s.desk.ui.viewport_heights.email_list,
                View::Thread => s.desk.ui.viewport_heights.thread_view,
                _ => s.desk.ui.viewport_heights.undo_history,
            };
            let half = if height / 2 < 1 {
                1nat
            } else {
                (height / 2) as nat
            };
            s.pressed(KeyPress { key: Key::Char('d'), control: true }).0.desk.app == pressed_times(
                s,
                KeyPress { key: Key::Down, control: false },
                half,
            ).desk.app
        }),
{
    let height = match s.desk.app.view {
        View::GroupList => s.desk.ui.viewport_heights.group_list,
        View::EmailList => s.desk.ui.viewport_heights.email_list,
        View::Thread => s.desk.ui.viewport_heights.thread_view,
        _ => s.desk.ui.viewport_heights.undo_history,
    };
    let half = if height / 2 < 1 {
        1nat
    } else {
        (height / 2) as nat
    };
    lemma_pressed_times(s, KeyPress { key: Key::Down, control: false }, half);
}

/// `G` goes to the last item, `g` pressed twice to the first. One `g` alone changes nothing.
pub proof fn law_g_goes_to_the_ends(s: SessionV, p: KeyPress, capital: KeyPress)
    requires
        is_ready(s),
        p.key == Key::Char('g'),
        capital.key == Key::Char('G'),
    ensures
        s.pressed(capital).0.desk.app == s.desk.app.at_last(),
        s.pressed(capital).1 == EffectV::Nothing,
        !s.desk.pending_g ==> {
            let t = s.pressed(p).0;
            t.desk.app == s.desk.app && t.pressed(p).0.desk.app == s.desk.app.at_first()
                && t.pressed(p).1 == EffectV::Nothing
        },
        s.pressed(p).1 == EffectV::Nothing,
{
}

// ---------------------------------------------------------------------------
// Opening and closing

/// Enter opens what is selected: a group as its list of threads, with the first one selected;
/// a thread of several messages as the list of its messages. Nothing is selected after that
/// and no message is lost.
pub proof fn law_enter_opens_what_is_selected(s: SessionV, p: KeyPress)
    requires
        is_ready(s),
        p.key == Key::Enter,
    ensures
        ({
            let app = s.desk.app;
            let (t, effect) = s.pressed(p);
            let after = t.desk.app;
            &&& app.view == View::GroupList && app.selected_group < app.groups.len() ==> {
                &&& effect == EffectV::Nothing
                &&& after.view == View::EmailList
                &&& after.emails == app.emails && after.groups == app.groups
                    && after.selected_group == app.selected_group
                &&& after.viewing_group_key == Some(app.groups[app.selected_group as int].key)
                &&& opened(app).len() > 0 ==> after.selected_email == Some(0usize)
                &&& opened(app).len() == 0 ==> after.selected_email is None
                &&& forall|id: Seq<char>| !(#[trigger] after.selected_emails.contains(id))
            }
            &&& app.view == View::GroupList && app.selected_group >= app.groups.len() ==> effect
                == EffectV::Nothing && after == app
            &&& app.view == View::EmailList && app.current_email() is Some && has_company(
                app.emails,
                app.current_email()->0.thread_id,
            ) ==> {
                &&& effect == EffectV::Nothing
                &&& after.view == View::Thread
                &&& same_messages(after, app)
                &&& after.selected_email == app.selected_email
                &&& after.selected_thread_email == Some(0usize)
                &&& after.text_filter == app.text_filter
                &&& forall|id: Seq<char>| !(#[trigger] after.selected_emails.contains(id))
            }
        }),
{
    let app = s.desk.app;
    if let Some(e) = app.current_email() {
        law_filters_show_what_they_ask_for(app, e);
    }
    let all = opened(app);
    if all.len() > 0 {
        let heads = crate::listing::thread_heads(all);
        crate::tallies::lemma_heads_have_threads(all, all[0].thread_id);
        assert(crate::listing::has_thread(all, all[0].thread_id));
    }
}

/// Whether Enter is about the body of a message, and of which one: the selected one in the
/// view of a thread, or the only one of the current thread in the list of threads.
pub open spec fn message_to_read(app: AppV) -> Option<EmailV> {
    if app.view == View::Thread {
        app.current_thread_email()
    } else if app.view == View::EmailList && app.current_email() is Some && !has_company(
        app.emails,
        app.current_email()->0.thread_id,
    ) {
        app.current_email()
    } else {
        None
    }
}

/// Enter on a message shows its body: the view of the body is of that message and begins at
/// its top, and the server is asked for the body of that message, out of its folder, unless
/// it is at hand.
pub proof fn law_enter_reads_the_message(s: SessionV, p: KeyPress)
    requires
        is_ready(s),
        p.key == Key::Enter,
        message_to_read(s.desk.app) is Some,
    ensures
        ({
            let app = s.desk.app;
            let e = message_to_read(app)->0;
            let (t, effect) = s.pressed(p);
            let after = t.desk.app;
            &&& after.view == View::EmailBody
            &&& after.viewing_email_id == Some(e.id)
            &&& after.text_view_scroll == 0
            &&& after.previous_view == Some(app.view)
            &&& same_messages(after, app)
            &&& !t.desk.ui.busy
            &&& e.body is None ==> t.desk.ui.text_view_state == TextViewV::Loading && effect
                == EffectV::Send(CommandV::FetchBody { uid: e.id, folder: e.source_folder })
            &&& e.body is Some ==> effect == EffectV::Nothing
            &&& e.body is Some && app.emails.contains(e) && (forall|i: int|
                0 <= i < app.emails.len() && (#[trigger] app.emails[i]).id == e.id
                    ==> app.emails[i] == e) ==> t.desk.ui.text_view_state == TextViewV::Loaded(
                e.body->0,
            )
        }),
{
    let app = s.desk.app;
    let e = message_to_read(app)->0;
    if let Some(c) = app.current_email() {
        law_filters_show_what_they_ask_for(app, c);
    }
    if app.emails.contains(e) {
        lemma_id_found(app.emails, e.id, 0, app.emails.index_of(e));
    }
}

proof fn lemma_id_found(s: Seq<EmailV>, id: Seq<char>, from: int, k: int)
    requires
        0 <= from <= k < s.len(),
        s[k].id == id,
    ensures
        from <= crate::state::id_position(s, id, from) <= k,
        s[crate::state::id_position(s, id, from)].id == id,
    decreases k - from,
{
    if s[from].id != id {
        lemma_id_found(s, id, from + 1, k);
    }
}

/// Escape goes back by one level and loses no message: first the filter goes, then the list
/// of threads gives way to the groups, the thread to the list, and the undo history and a
/// body to the view that they were opened from.
pub proof fn law_escape_goes_back(s: SessionV, p: KeyPress)
    requires
        is_ready(s),
        p.key == Key::Esc,
    ensures
        ({
            let app = s.desk.app;
            let (t, effect) = s.pressed(p);
            let after = t.desk.app;
            &&& effect == EffectV::Nothing
            &&& t.pending == s.pending
            &&& after.emails == app.emails && after.groups == app.groups && after.selected_group
                == app.selected_group && after.undo_history == app.undo_history
            &&& app.view == View::GroupList ==> after == app
            &&& app.view == View::EmailList && app.text_filter is Some ==> after == (AppV {
                text_filter: None,
                ..app
            })
            &&& app.view == View::EmailList && app.text_filter is None ==> after.view
                == View::GroupList && after.viewing_group_key is None
            &&& app.view == View::Thread ==> after.view == View::EmailList && after.selected_email
                == app.selected_email && after.text_filter == app.text_filter
            &&& app.view == View::UndoHistory || app.view == View::EmailBody
                ==> match app.previous_view {
                Some(view) => after.view == view,
                None => after.view == if app.view == View::UndoHistory {
                    View::GroupList
                } else {
                    View::EmailList
                },
            }
            &&& app.view == View::EmailBody ==> after.viewing_email_id is None
            &&& app.view == View::EmailList && app.text_filter is None || app.view == View::Thread
                ==> forall|id: Seq<char>| !(#[trigger] after.selected_emails.contains(id))
        }),
{
}

// ---------------------------------------------------------------------------
// The other keys

/// The space bar in the list of threads selects the current thread, or no longer selects it,
/// and no other one. It moves on where the user has set that.
pub proof fn law_space_selects_the_current_thread(s: SessionV, p: KeyPress, id: Seq<char>)
    requires
        is_ready(s),
        p.key == Key::Char(' '),
        has_short_lists(s.desk.app),
    ensures
        ({
            let app = s.desk.app;
            let (t, effect) = s.pressed(p);
            let after = t.desk.app;
            &&& effect == EffectV::Nothing
            &&& same_messages(after, app)
            &&& app.view == View::EmailList && app.current_email() is Some ==> {
                let current = app.current_email()->0.id;
                &&& id != current ==> (after.selected_emails.contains(id)
                    <==> app.selected_emails.contains(id))
                &&& after.selected_emails.contains(current) <==> !app.selected_emails.contains(
                    current,
                )
                &&& s.settings.advance_on_select ==> is_next(
                    app.selected_email,
                    after.selected_email,
                    rows(app),
                )
                &&& !s.settings.advance_on_select ==> after.selected_email == app.selected_email
            }
            &&& app.view != View::EmailList || app.current_email() is None ==> after == app
            &&& app.view == View::Thread ==> t.desk.ui.status_message is Some
        }),
{
    let app = s.desk.app;
    lemma_rows(app);
    if app.view == View::EmailList && app.current_email() is Some {
        let u = app.selection_toggled();
        assert(u.shown() =~= app.shown());
        assert(u.filtered_threads() == app.filtered_threads());
    }
}

/// `t` goes round the thread filters: all, only threads with several messages, only messages
/// that are alone. No message is lost and the filter on text stays.
pub proof fn law_t_goes_round_the_thread_filters(s: SessionV, p: KeyPress)
    requires
        is_ready(s),
        p.key == Key::Char('t'),
    ensures
        ({
            let app = s.desk.app;
            let (t, effect) = s.pressed(p);
            let after = t.desk.app;
            &&& effect == EffectV::Nothing
            &&& after.emails == app.emails && after.groups == app.groups && after.text_filter
                == app.text_filter && after.selected_emails == app.selected_emails && after.view
                == app.view
            &&& app.view == View::GroupList || app.view == View::EmailList ==> after.thread_filter
                == match app.thread_filter {
                ThreadFilter::All => ThreadFilter::OnlyThreads,
                ThreadFilter::OnlyThreads => ThreadFilter::NoThreads,
                ThreadFilter::NoThreads => ThreadFilter::All,
            }
            &&& app.view != View::GroupList && app.view != View::EmailList ==> after == app
        }),
{
}

/// `m` in the list of groups groups the same messages the other way, by address or by domain,
/// and selects the first group.
pub proof fn law_m_groups_the_other_way(s: SessionV, p: KeyPress)
    requires
        is_ready(s),
        p.key == Key::Char('m'),
    ensures
        ({
            let app = s.desk.app;
            let (t, effect) = s.pressed(p);
            let after = t.desk.app;
            &&& effect == EffectV::Nothing
            &&& after.emails == app.emails
            &&& app.view == View::GroupList ==> {
                &&& after.group_mode != app.group_mode
                &&& after.groups == grouping(app.emails, app.user_email, after.group_mode)
                &&& after.selected_group == 0
                &&& forall|id: Seq<char>| !(#[trigger] after.selected_emails.contains(id))
            }
            &&& app.view != View::GroupList ==> after == app
        }),
{
}

/// `r` loads the messages anew, over as many connections as the user has set.
pub proof fn law_r_loads_the_messages(s: SessionV, p: KeyPress)
    requires
        is_ready(s),
        p.key == Key::Char('r'),
        s.desk.app.view == View::GroupList || s.desk.app.view == View::EmailList
            || s.desk.app.view == View::Thread,
    ensures
        ({
            let (t, effect) = s.pressed(p);
            &&& effect == EffectV::Send(
                CommandV::FetchInbox { parallel_connections: s.settings.parallel_connections },
            )
            &&& t.desk.app == s.desk.app
            &&& t.pending == s.pending
            &&& t.desk.ui.busy
        }),
{
}

/// `u` opens the undo history at its newest action; it does not undo anything.
pub proof fn law_u_opens_the_undo_history(s: SessionV, p: KeyPress)
    requires
        is_ready(s),
        p.key == Key::Char('u'),
        !p.control,
        s.desk.app.view == View::GroupList || s.desk.app.view == View::EmailList
            || s.desk.app.view == View::Thread,
    ensures
        ({
            let (t, effect) = s.pressed(p);
            &&& effect == EffectV::Nothing
            &&& t.desk.app.view == View::UndoHistory
            &&& t.desk.app.selected_undo == 0
            &&& t.desk.app.previous_view == Some(s.desk.app.view)
            &&& same_messages(t.desk.app, s.desk.app)
        }),
{
}

/// The message that is looked at.
pub open spec fn message_looked_at(app: AppV) -> Option<EmailV> {
    if app.view == View::Thread {
        app.current_thread_email()
    } else if app.view == View::EmailList {
        app.current_email()
    } else if app.view == View::EmailBody && app.viewing_email_id is Some {
        let at = crate::state::id_position(app.emails, app.viewing_email_id->0, 0);
        if at < app.emails.len() {
            Some(app.emails[at])
        } else {
            None
        }
    } else {
        None
    }
}

/// `e` opens the message that is looked at in the browser: the address names the user and
/// ends with the Message-ID of that message. Without a Message-ID the user is told so.
pub proof fn law_e_opens_the_message_in_the_browser(s: SessionV, p: KeyPress)
    requires
        is_ready(s),
        p.key == Key::Char('e'),
    ensures
        ({
            let (t, effect) = s.pressed(p);
            &&& t.desk.app == s.desk.app
            &&& t.pending == s.pending
            &&& !t.desk.ui.busy
            &&& match message_looked_at(s.desk.app) {
                Some(e) => match e.message_id {
                    Some(id) => effect == EffectV::Open(
                        "https://mail.google.com/mail/u/"@ + s.user_email
                            + "/#search/rfc822msgid:"@ + crate::session::percent_encoded(
                            vstd::utf8::encode_utf8(id),
                        ),
                    ),
                    None => effect == EffectV::Nothing && t.desk.ui.status_message is Some,
                },
                None => effect == EffectV::Nothing && t.desk.ui == s.desk.ui,
            }
        }),
{
}

proof fn lemma_quit_is_asked(desk: DeskV, p: KeyPress, settings: Settings)
    ensures
        desk.pressed(p, settings).1 == RequestV::Quit <==> desk.ui.confirm_action == Some(
            ConfirmV::Quit,
        ) && (p.key == Key::Char('y') || p.key == Key::Char('Y')),
        desk.pressed(p, settings).1 != RequestV::Confirmed(ConfirmV::Quit),
{
}

proof fn lemma_only_quitting_quits(s: SessionV, request: RequestV)
    ensures
        s.requested(request).1 == EffectV::Quit <==> request == RequestV::Quit || request
            == RequestV::Confirmed(ConfirmV::Quit),
{
}

/// `q` asks before it leaves: only a yes to that question leaves the program.
pub proof fn law_leaving_is_asked_about(s: SessionV, p: KeyPress)
    ensures
        s.pressed(p).1 == EffectV::Quit <==> !s.desk.ui.busy && s.desk.ui.confirm_action == Some(
            ConfirmV::Quit,
        ) && (p.key == Key::Char('y') || p.key == Key::Char('Y')),
        is_ready(s) && p.key == Key::Char('q') ==> s.pressed(p).0.desk.ui.confirm_action == Some(
            ConfirmV::Quit,
        ) && s.pressed(p).0.desk.app == s.desk.app && s.pressed(p).1 == EffectV::Nothing,
{
    let (desk, request) = s.desk.pressed(p, s.settings);
    lemma_quit_is_asked(s.desk, p, s.settings);
    lemma_only_quitting_quits(SessionV { desk, ..s }, request);
}

/// A message on screen goes with the next key, which does nothing else. The help comes with
/// a question mark and goes with it, with escape or with `q`; other keys do nothing then.
pub proof fn law_messages_and_help_come_first(s: SessionV, p: KeyPress)
    requires
        !s.desk.ui.busy,
        s.desk.ui.confirm_action is None,
    ensures
        ({
            let (t, effect) = s.pressed(p);
            &&& s.desk.ui.status_message is Some ==> effect == EffectV::Nothing && t.desk.app
                == s.desk.app && t.desk.ui == (UiV { status_message: None, ..s.desk.ui })
                && t.pending == s.pending
            &&& s.desk.ui.status_message is None && s.desk.ui.showing_help ==> effect
                == EffectV::Nothing && t.desk.app == s.desk.app && t.desk.ui == (UiV {
                showing_help: !(p.key == Key::Char('?') || p.key == Key::Esc || p.key
                    == Key::Char('q')),
                ..s.desk.ui
            }) && t.pending == s.pending
            &&& is_ready(s) && p.key == Key::Char('?') ==> effect == EffectV::Nothing && t.desk.app
                == s.desk.app && t.desk.ui == (UiV { showing_help: true, ..s.desk.ui })
        }),
{
}

// ---------------------------------------------------------------------------
// Answers of the server

/// Messages that were loaded take the place of those that were there, and are grouped; the
/// server is idle again. Where loading failed nothing is lost, and the user is told why.
pub proof fn law_loaded_messages_are_shown(s: SessionV, emails: Seq<EmailV>, e: Seq<char>)
    ensures
        ({
            let (t, effect) = s.answered(ResponseV::Emails(Ok(emails)));
            &&& effect == EffectV::Nothing
            &&& t.desk.app.emails == emails
            &&& t.desk.app.groups == grouping(emails, s.desk.app.user_email, s.desk.app.group_mode)
            &&& t.desk.app.emails_loaded
            &&& t.desk.app.undo_history == s.desk.app.undo_history
            &&& t.desk.app.view == s.desk.app.view
            &&& !t.desk.ui.busy && t.desk.ui.status_message is None
            &&& t.pending == s.pending
        }),
        ({
            let (t, effect) = s.answered(ResponseV::Emails(Err(e)));
            &&& effect == EffectV::Nothing
            &&& t.desk.app == s.desk.app
            &&& !t.desk.ui.busy
            &&& t.desk.ui.status_message is Some
            &&& t.desk.ui.status_message->0.len() >= e.len()
            &&& t.desk.ui.status_message->0.skip(t.desk.ui.status_message->0.len() - e.len()) == e
        }),
{
    let told = "Error: "@ + e;
    assert(told.skip(told.len() - e.len()) =~= e);
}

/// A body that comes in is shown if its message is still looked at, and kept with the message
/// of that UID; no other message changes. A failure is shown in its place.
pub proof fn law_bodies_are_shown_and_kept(
    s: SessionV,
    uid: Seq<char>,
    body: Seq<char>,
    e: Seq<char>,
    k: int,
)
    requires
        0 <= k < s.desk.app.emails.len(),
    ensures
        ({
            let app = s.desk.app;
            let (t, effect) = s.answered(ResponseV::BodyResult { uid, result: Ok(body) });
            let after = t.desk.app;
            &&& effect == EffectV::Nothing
            &&& app.viewing_email_id != Some(uid) ==> t == s
            &&& app.viewing_email_id == Some(uid) ==> {
                &&& t.desk.ui.text_view_state == TextViewV::Loaded(body)
                &&& after.emails.len() == app.emails.len()
                &&& app.emails[k].id != uid ==> after.emails[k] == app.emails[k]
                &&& app.emails[k].id == uid && (forall|j: int|
                    0 <= j < k ==> (#[trigger] app.emails[j]).id != uid) ==> after.emails[k] == (
                EmailV { body: Some(body), ..app.emails[k] })
                &&& after == (AppV { emails: after.emails, ..app })
            }
        }),
        ({
            let (t, effect) = s.answered(ResponseV::BodyResult { uid, result: Err(e) });
            &&& effect == EffectV::Nothing
            &&& t.desk.app == s.desk.app
            &&& s.desk.app.viewing_email_id == Some(uid) ==> t.desk.ui.text_view_state
                == TextViewV::Error(e)
            &&& s.desk.app.viewing_email_id != Some(uid) ==> t == s
        }),
{
    let all = s.desk.app.emails;
    let at = crate::state::id_position(all, uid, 0);
    if all[k].id == uid {
        lemma_id_found(all, uid, 0, k);
    }
    crate::tallies::lemma_id_position(all, uid, 0);
    if at < all.len() {
        lemma_id_at(all, uid, 0);
    }
}

proof fn lemma_id_at(s: Seq<EmailV>, id: Seq<char>, from: int)
    requires
        0 <= from <= s.len(),
        crate::state::id_position(s, id, from) < s.len(),
    ensures
        s[crate::state::id_position(s, id, from)].id == id,
    decreases s.len() - from,
{
    if from < s.len() && s[from].id != id {
        lemma_id_at(s, id, from + 1);
    }
}

/// Word of how far the server is changes nothing but the message on screen, and the server
/// stays at work.
pub proof fn law_progress_changes_the_message_only(
    s: SessionV,
    current: usize,
    total: usize,
    attempt: u32,
    max_attempts: u32,
    action: Seq<char>,
)
    ensures
        ({
            let (t, effect) = s.answered(ResponseV::Progress(current, total, action));
            effect == EffectV::Nothing && t == s.with_ui(
                UiV { status_message: t.desk.ui.status_message, ..s.desk.ui },
            ) && t.desk.ui.status_message is Some
        }),
        ({
            let (t, effect) = s.answered(
                ResponseV::Retrying { attempt, max_attempts, action },
            );
            effect == EffectV::Nothing && t == s.with_ui(
                UiV { status_message: t.desk.ui.status_message, ..s.desk.ui },
            ) && t.desk.ui.status_message is Some
        }),
        s.answered(ResponseV::Connected) == (s, EffectV::Nothing),
{
}

} // verus!
