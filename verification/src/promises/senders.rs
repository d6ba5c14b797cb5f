//! Groups, told by the messages alone.
use vstd::prelude::*;

use crate::email::EmailV;
use crate::grouping::{group_key, grouping, is_own, GroupV};
use crate::laws::{
    law_group_keys_are_distinct, law_groups_are_ranked, law_groups_are_the_senders,
    law_messages_are_in_one_group, law_newest_first,
};
use crate::modes::{GroupMode, ThreadFilter};
use crate::promises::seen::{has_company, law_filters_show_what_they_ask_for};
use crate::state::AppV;
use crate::text::ascii_lower;

verus! {

broadcast use vstd::seq_lib::group_seq_properties;

/// Whether two characters are the same but for the case of an ASCII letter.
pub open spec fn alike_char(a: char, b: char) -> bool {
    ||| a == b
    ||| 'A' <= a <= 'Z' && b as int == a as int + 32
    ||| 'A' <= b <= 'Z' && a as int == b as int + 32
}

/// Whether two texts are the same but for the case of ASCII letters.
pub open spec fn alike_text(a: Seq<char>, b: Seq<char>) -> bool {
    a.len() == b.len() && forall|i: int| 0 <= i < a.len() ==> alike_char(#[trigger] a[i], b[i])
}

/// Whether the user sent a message: it comes from the user's address, letter case aside.
pub open spec fn is_from_user(user: Option<Seq<char>>, e: EmailV) -> bool {
    user is Some && alike_text(e.from_email, user->0)
}

/// Whether one message is older than another.
pub open spec fn is_older(a: EmailV, b: EmailV) -> bool {
    a.date.secs < b.date.secs || (a.date.secs == b.date.secs && a.date.nanos < b.date.nanos)
}

proof fn lemma_alike(a: Seq<char>, b: Seq<char>)
    ensures
        alike_text(a, b) <==> crate::text::same_ignoring_ascii_case(a, b),
{
    if alike_text(a, b) {
        assert(ascii_lower(a) =~= ascii_lower(b));
    }
    if ascii_lower(a) == ascii_lower(b) {
        assert(ascii_lower(a).len() == a.len() && ascii_lower(b).len() == b.len());
        assert forall|i: int| 0 <= i < a.len() implies alike_char(#[trigger] a[i], b[i]) by {
            assert(ascii_lower(a)[i] == ascii_lower(b)[i]);
        }
    }
}

/// Each group holds the messages of one address or of one domain, as the mode says, all of
/// them, newest first, and none that the user sent. Every message of others is in a group.
pub proof fn law_groups_are_told_by_the_sender(
    emails: Seq<EmailV>,
    user: Option<Seq<char>>,
    mode: GroupMode,
    e: EmailV,
)
    requires
        emails.contains(e),
    ensures
        forall|g: int|
            0 <= g < grouping(emails, user, mode).len() ==> {
                let group = #[trigger] grouping(emails, user, mode)[g];
                &&& group.emails.contains(e) <==> !is_from_user(user, e) && group.key == (
                match mode {
                    GroupMode::BySenderEmail => e.from_email,
                    GroupMode::ByDomain => e.from_domain,
                })
                &&& group.emails.len() > 0
            },
        !is_from_user(user, e) ==> exists|g: int|
            0 <= g < grouping(emails, user, mode).len() && (#[trigger] grouping(
                emails,
                user,
                mode,
            )[g]).emails.contains(e),
{
    let all = grouping(emails, user, mode);
    if let Some(address) = user {
        lemma_alike(e.from_email, address);
    }
    assert(is_from_user(user, e) == is_own(user, e));
    assert forall|g: int| 0 <= g < all.len() implies {
        let group = #[trigger] all[g];
        &&& group.emails.contains(e) <==> !is_from_user(user, e) && group.key == (match mode {
            GroupMode::BySenderEmail => e.from_email,
            GroupMode::ByDomain => e.from_domain,
        })
        &&& group.emails.len() > 0
    } by {
        assert(all.contains(all[g]));
        law_messages_are_in_one_group(emails, user, mode, e, all[g]);
    }
    if !is_own(user, e) {
        let own = crate::grouping::group_of(emails, user, mode, group_key(mode, e));
        law_groups_are_the_senders(emails, user, mode, own);
        assert(crate::grouping::belongs(user, mode, own.key)(emails[emails.index_of(e)]));
        assert(all[all.index_of(own)] == own);
        law_messages_are_in_one_group(emails, user, mode, e, own);
    }
}

/// In a group no message stands behind an older one. No two groups have the same key, and no
/// group stands behind a smaller one.
pub proof fn law_groups_and_messages_are_in_order(
    emails: Seq<EmailV>,
    user: Option<Seq<char>>,
    mode: GroupMode,
    g: int,
    h: int,
)
    requires
        0 <= g < h < grouping(emails, user, mode).len(),
    ensures
        ({
            let a = grouping(emails, user, mode)[g];
            let b = grouping(emails, user, mode)[h];
            &&& a.key != b.key
            &&& a.emails.len() >= b.emails.len()
            &&& forall|i: int, j: int|
                0 <= i < j < a.emails.len() ==> !is_older(
                    #[trigger] a.emails[i],
                    #[trigger] a.emails[j],
                )
            &&& forall|i: int, j: int|
                0 <= i < j < b.emails.len() ==> !is_older(
                    #[trigger] b.emails[i],
                    #[trigger] b.emails[j],
                )
        }),
{
    let all = grouping(emails, user, mode);
    law_group_keys_are_distinct(emails, user, mode, g, h);
    law_groups_are_ranked(emails, user, mode, g, h);
    lemma_newest(emails, user, mode, all[g]);
    lemma_newest(emails, user, mode, all[h]);
}

proof fn lemma_newest(emails: Seq<EmailV>, user: Option<Seq<char>>, mode: GroupMode, g: GroupV)
    requires
        grouping(emails, user, mode).contains(g),
    ensures
        forall|i: int, j: int|
            0 <= i < j < g.emails.len() ==> !is_older(#[trigger] g.emails[i], #[trigger] g.emails[j]),
{
    law_groups_are_the_senders(emails, user, mode, g);
    let members = emails.filter(crate::grouping::belongs(user, mode, g.key));
    if g.emails.len() > 0 {
        law_newest_first(members, g.emails[0]);
        assert forall|i: int, j: int| 0 <= i < j < g.emails.len() implies !is_older(
            #[trigger] g.emails[i],
            #[trigger] g.emails[j],
        ) by {
            assert(!crate::listing::newer()(g.emails[j], g.emails[i]));
        }
    }
}

/// The list of senders shows the groups that have a message to show: any at all, one in
/// company, or one that is alone in its thread, as the filter of threads says.
pub proof fn law_senders_on_screen_have_messages_to_show(app: AppV, g: GroupV)
    ensures
        app.filtered_groups().contains(g) <==> app.groups.contains(g) && match app.thread_filter {
            ThreadFilter::All => true,
            ThreadFilter::OnlyThreads => exists|k: int|
                0 <= k < g.emails.len() && has_company(
                    app.emails,
                    (#[trigger] g.emails[k]).thread_id,
                ),
            ThreadFilter::NoThreads => exists|k: int|
                0 <= k < g.emails.len() && !has_company(
                    app.emails,
                    (#[trigger] g.emails[k]).thread_id,
                ),
        },
{
    assert forall|k: int| 0 <= k < g.emails.len() implies app.is_multi(
        (#[trigger] g.emails[k]).thread_id,
    ) == has_company(app.emails, g.emails[k].thread_id) by {
        law_filters_show_what_they_ask_for(app, g.emails[k]);
    }
    lemma_group_filter(app.groups, app.shown_group(), g);
}

/// The groups that a filter keeps.
pub proof fn lemma_group_filter(s: Seq<GroupV>, p: spec_fn(GroupV) -> bool, g: GroupV)
    ensures
        s.filter(p).contains(g) <==> s.contains(g) && p(g),
    decreases s.len(),
{
    if s.len() == 0 {
        assert(s.filter(p) =~= s) by {
            reveal(Seq::filter);
        }
    } else {
        let t = s.drop_last();
        lemma_group_filter(t, p, g);
        assert(s =~= t.push(s.last()));
        t.lemma_filter_push(s.last(), p);
        if t.contains(g) {
            assert(s[t.index_of(g)] == g);
        }
        if s.last() == g {
            assert(s[s.len() - 1] == g);
            if p(g) {
                assert(s.filter(p).last() == g);
            }
        }
        if t.filter(p).contains(g) {
            assert(s.filter(p)[t.filter(p).index_of(g)] == g);
        }
    }
}

} // verus!
