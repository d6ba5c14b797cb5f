//! What holds of the application as a whole.
use vstd::multiset::Multiset;
use vstd::prelude::*;

use crate::email::EmailV;
use crate::grouping::{
    belongs, group_key, group_keys, group_of, grouping, is_own, ranking, unranked,
    GroupV,
};
use crate::listing::{
    has_thread, in_thread, in_threads_of, newer, newest_first, thread_heads, thread_size,
};
use crate::modes::{GroupMode, SelectionResult, ThreadFilter, View};
use crate::order::{
    alike, in_order, is_order, law_ordered, law_text_less, text_less,
};
use crate::state::{
    has_id, key_position, outside_thread, outside_threads_of, AppV,
};
use crate::text::lowercase;
use crate::undo::{UndoEntryV, MAX_UNDO_HISTORY};

verus! {

broadcast use vstd::seq_lib::group_seq_properties;

// ---------------------------------------------------------------------------
// Newest first

proof fn lemma_newer_is_order()
    ensures
        is_order(newer()),
{
}

/// Messages put newest first are the same messages; none stands behind an older one, and
/// those of one instant keep their order.
pub proof fn law_newest_first(s: Seq<EmailV>, e: EmailV)
    ensures
        in_order(newer(), newest_first(s)),
        newest_first(s).to_multiset() == s.to_multiset(),
        newest_first(s).filter(alike(newer(), e)) == s.filter(alike(newer(), e)),
{
    lemma_newer_is_order();
    law_ordered(newer(), s, e);
}

proof fn lemma_same_members<A>(s: Seq<A>, t: Seq<A>, a: A)
    requires
        s.to_multiset() == t.to_multiset(),
    ensures
        s.contains(a) == t.contains(a),
{
    s.to_multiset_ensures();
    t.to_multiset_ensures();
    assert(s.contains(a) <==> s.to_multiset().count(a) > 0);
    assert(t.contains(a) <==> t.to_multiset().count(a) > 0);
}

/// The members of a filtered list.
pub proof fn lemma_filter_members<A>(s: Seq<A>, p: spec_fn(A) -> bool, a: A)
    ensures
        s.filter(p).contains(a) <==> s.contains(a) && p(a),
    decreases s.len(),
{
    if s.len() > 0 {
        let t = s.drop_last();
        lemma_filter_members(t, p, a);
        assert(s =~= t.push(s.last()));
        t.lemma_filter_push(s.last(), p);
        if t.contains(a) {
            assert(s[t.index_of(a)] == a);
        }
        if s.contains(a) && a != s.last() {
            assert(t[s.index_of(a)] == a);
        }
        if p(s.last()) {
            let f = t.filter(p);
            assert(s.filter(p) == f.push(s.last()));
            assert(f.push(s.last())[f.len() as int] == s.last());
            if f.contains(a) {
                assert(f.push(s.last())[f.index_of(a)] == a);
            }
            if f.push(s.last()).contains(a) && a != s.last() {
                assert(f[f.push(s.last()).index_of(a)] == a);
            }
        }
        assert(s[s.len() - 1] == s.last());
    } else {
        assert(s.filter(p) =~= s);
    }
}

// ---------------------------------------------------------------------------
// Grouping

proof fn lemma_ranking_is_order()
    ensures
        is_order(ranking()),
{
    assert forall|a: GroupV, b: GroupV| #[trigger] ranking()(a, b) implies !ranking()(b, a) by {
        law_text_less(lowercase(a.key), lowercase(b.key), lowercase(b.key));
    }
    assert forall|a: GroupV, b: GroupV, c: GroupV|
        (#[trigger] ranking()(a, c)) implies (#[trigger] ranking()(a, b)) || ranking()(b, c) by {
        law_text_less(lowercase(a.key), lowercase(b.key), lowercase(c.key));
    }
}

proof fn lemma_group_keys(emails: Seq<EmailV>, user: Option<Seq<char>>, mode: GroupMode)
    ensures
        group_keys(emails, user, mode).no_duplicates(),
        forall|key: Seq<char>|
            #![trigger group_keys(emails, user, mode).contains(key)]
            group_keys(emails, user, mode).contains(key) <==> exists|k: int|
                0 <= k < emails.len() && belongs(user, mode, key)(#[trigger] emails[k]),
    decreases emails.len(),
{
    let keys = group_keys(emails, user, mode);
    if emails.len() > 0 {
        let t = emails.drop_last();
        let e = emails.last();
        let short = group_keys(t, user, mode);
        lemma_group_keys(t, user, mode);
        assert forall|key: Seq<char>| #[trigger] keys.contains(key) <==> exists|k: int|
            0 <= k < emails.len() && belongs(user, mode, key)(#[trigger] emails[k]) by {
            assert(short.contains(key) <==> exists|k: int|
                0 <= k < t.len() && belongs(user, mode, key)(#[trigger] t[k]));
            if short.contains(key) {
                let k = choose|k: int| 0 <= k < t.len() && belongs(user, mode, key)(#[trigger] t[k]);
                assert(belongs(user, mode, key)(emails[k]));
                assert(keys[short.index_of(key)] == key);
            }
            if exists|k: int| 0 <= k < emails.len() && belongs(user, mode, key)(#[trigger] emails[k]) {
                let k = choose|k: int|
                    0 <= k < emails.len() && belongs(user, mode, key)(#[trigger] emails[k]);
                if k < t.len() {
                    assert(belongs(user, mode, key)(t[k]));
                } else if !short.contains(key) {
                    assert(keys.last() == key);
                }
            }
            if keys.contains(key) && !short.contains(key) {
                let i = keys.index_of(key);
                assert(i == short.len());
                assert(belongs(user, mode, key)(emails[emails.len() - 1]));
            }
        }
    } else {
        assert forall|key: Seq<char>| !(#[trigger] keys.contains(key)) by {}
    }
}

/// The groups are those of the keys that messages of others have: one for each such key, and
/// none for any other. Each holds all the messages of its key and no others, newest first.
pub proof fn law_groups_are_the_senders(
    emails: Seq<EmailV>,
    user: Option<Seq<char>>,
    mode: GroupMode,
    g: GroupV,
)
    ensures
        grouping(emails, user, mode).contains(g) <==> {
            &&& g == group_of(emails, user, mode, g.key)
            &&& exists|k: int|
                0 <= k < emails.len() && belongs(user, mode, g.key)(#[trigger] emails[k])
        },
{
    lemma_ranking_is_order();
    let s = unranked(emails, user, mode);
    let keys = group_keys(emails, user, mode);
    law_ordered(ranking(), s, g);
    lemma_same_members(grouping(emails, user, mode), s, g);
    lemma_group_keys(emails, user, mode);
    if s.contains(g) {
        let i = s.index_of(g);
        assert(g == group_of(emails, user, mode, keys[i]));
        assert(keys.contains(keys[i]));
    }
    if keys.contains(g.key) && g == group_of(emails, user, mode, g.key) {
        let i = keys.index_of(g.key);
        assert(s[i] == g);
    }
}

/// No two groups have the same key.
pub proof fn law_group_keys_are_distinct(
    emails: Seq<EmailV>,
    user: Option<Seq<char>>,
    mode: GroupMode,
    i: int,
    j: int,
)
    requires
        0 <= i < j < grouping(emails, user, mode).len(),
    ensures
        grouping(emails, user, mode)[i].key != grouping(emails, user, mode)[j].key,
{
    lemma_ranking_is_order();
    let s = unranked(emails, user, mode);
    let r = grouping(emails, user, mode);
    let keys = group_keys(emails, user, mode);
    law_ordered(ranking(), s, r[i]);
    lemma_group_keys(emails, user, mode);
    assert(s.no_duplicates()) by {
        assert forall|a: int, b: int| 0 <= a < s.len() && 0 <= b < s.len() && a != b implies s[a]
            != s[b] by {
            assert(s[a].key == keys[a] && s[b].key == keys[b]);
        }
    }
    s.to_multiset_ensures();
    r.to_multiset_ensures();
    s.lemma_multiset_has_no_duplicates();
    r.lemma_multiset_has_no_duplicates_conv();
    assert(r.contains(r[i]) && r.contains(r[j]));
    lemma_same_members(r, s, r[i]);
    lemma_same_members(r, s, r[j]);
    let a = s.index_of(r[i]);
    let b = s.index_of(r[j]);
    assert(r[i].key == keys[a] && r[j].key == keys[b]);
    assert(r[i] != r[j]);
}

/// Larger groups stand first, and of groups of one size the one whose key comes first in
/// lowercase.
pub proof fn law_groups_are_ranked(
    emails: Seq<EmailV>,
    user: Option<Seq<char>>,
    mode: GroupMode,
    i: int,
    j: int,
)
    requires
        0 <= i < j < grouping(emails, user, mode).len(),
    ensures
        grouping(emails, user, mode)[i].emails.len() >= grouping(emails, user, mode)[j].emails.len(),
        grouping(emails, user, mode)[i].emails.len() == grouping(
            emails,
            user,
            mode,
        )[j].emails.len() ==> !text_less(
            lowercase(grouping(emails, user, mode)[j].key),
            lowercase(grouping(emails, user, mode)[i].key),
        ),
{
    lemma_ranking_is_order();
    let r = grouping(emails, user, mode);
    law_ordered(ranking(), unranked(emails, user, mode), r[i]);
    assert(!ranking()(r[j], r[i]));
}

/// A message that someone else sent is in the group of its key, and in no other; a message
/// of the user is in no group.
pub proof fn law_messages_are_in_one_group(
    emails: Seq<EmailV>,
    user: Option<Seq<char>>,
    mode: GroupMode,
    e: EmailV,
    g: GroupV,
)
    requires
        emails.contains(e),
        grouping(emails, user, mode).contains(g),
    ensures
        g.emails.contains(e) <==> !is_own(user, e) && group_key(mode, e) == g.key,
        g.emails.len() > 0,
        !is_own(user, e) ==> grouping(emails, user, mode).contains(
            group_of(emails, user, mode, group_key(mode, e)),
        ),
{
    law_groups_are_the_senders(emails, user, mode, g);
    let p = belongs(user, mode, g.key);
    law_newest_first(emails.filter(p), e);
    lemma_same_members(g.emails, emails.filter(p), e);
    lemma_filter_members(emails, p, e);
    let k = choose|k: int| 0 <= k < emails.len() && p(#[trigger] emails[k]);
    lemma_filter_members(emails, p, emails[k]);
    lemma_same_members(g.emails, emails.filter(p), emails[k]);
    let own = group_of(emails, user, mode, group_key(mode, e));
    law_groups_are_the_senders(emails, user, mode, own);
    let i = emails.index_of(e);
    assert(!is_own(user, e) ==> belongs(user, mode, own.key)(emails[i]));
}

/// The messages that groups hold together.
pub open spec fn group_members(groups: Seq<GroupV>) -> Multiset<EmailV>
    decreases groups.len(),
{
    if groups.len() == 0 {
        Multiset::empty()
    } else {
        group_members(groups.drop_last()).add(groups.last().emails.to_multiset())
    }
}

/// The messages of others.
pub open spec fn of_others(user: Option<Seq<char>>) -> spec_fn(EmailV) -> bool {
    |e: EmailV| !is_own(user, e)
}

proof fn lemma_no_group_holds(groups: Seq<GroupV>, e: EmailV)
    requires
        forall|j: int|
            0 <= j < groups.len() ==> (#[trigger] groups[j]).emails.to_multiset().count(e) == 0,
    ensures
        group_members(groups).count(e) == 0,
    decreases groups.len(),
{
    if groups.len() > 0 {
        let short = groups.drop_last();
        assert forall|j: int| 0 <= j < short.len() implies (
        #[trigger] short[j]).emails.to_multiset().count(e) == 0 by {
            assert(short[j] == groups[j]);
        }
        lemma_no_group_holds(short, e);
        assert(groups[groups.len() - 1] == groups.last());
    }
}

proof fn lemma_one_group_holds(groups: Seq<GroupV>, e: EmailV, i: int)
    requires
        0 <= i < groups.len(),
        forall|j: int|
            0 <= j < groups.len() && j != i ==> (#[trigger] groups[j]).emails.to_multiset().count(e)
                == 0,
    ensures
        group_members(groups).count(e) == groups[i].emails.to_multiset().count(e),
    decreases groups.len(),
{
    let short = groups.drop_last();
    assert forall|j: int| 0 <= j < short.len() && j != i implies (
    #[trigger] short[j]).emails.to_multiset().count(e) == 0 by {
        assert(short[j] == groups[j]);
    }
    if i == groups.len() - 1 {
        lemma_no_group_holds(short, e);
    } else {
        lemma_one_group_holds(short, e, i);
        assert(short[i] == groups[i]);
        assert(groups[groups.len() - 1] == groups.last());
    }
}

/// How often a message is in a group: as often as it is there at all, where it belongs to the
/// group, and never otherwise.
proof fn lemma_group_count(
    emails: Seq<EmailV>,
    user: Option<Seq<char>>,
    mode: GroupMode,
    i: int,
    e: EmailV,
)
    requires
        0 <= i < grouping(emails, user, mode).len(),
    ensures
        grouping(emails, user, mode)[i].emails.to_multiset().count(e) == if belongs(
            user,
            mode,
            grouping(emails, user, mode)[i].key,
        )(e) {
            emails.to_multiset().count(e)
        } else {
            0
        },
{
    let g = grouping(emails, user, mode)[i];
    let p = belongs(user, mode, g.key);
    assert(grouping(emails, user, mode).contains(g));
    law_groups_are_the_senders(emails, user, mode, g);
    law_newest_first(emails.filter(p), e);
    lemma_filter_multiset(emails, p);
}

/// The groups together hold the messages of others, each as often as it is there, and no
/// message of the user.
pub proof fn law_groups_hold_all_of_others(
    emails: Seq<EmailV>,
    user: Option<Seq<char>>,
    mode: GroupMode,
)
    ensures
        group_members(grouping(emails, user, mode)) == emails.filter(of_others(user)).to_multiset(),
{
    let groups = grouping(emails, user, mode);
    let all = emails.filter(of_others(user)).to_multiset();
    lemma_filter_multiset(emails, of_others(user));
    emails.to_multiset_ensures();
    assert forall|e: EmailV| group_members(groups).count(e) == all.count(e) by {
        let key = group_key(mode, e);
        assert forall|j: int| 0 <= j < groups.len() && groups[j].key != key implies (
        #[trigger] groups[j]).emails.to_multiset().count(e) == 0 by {
            lemma_group_count(emails, user, mode, j, e);
        }
        if !is_own(user, e) && emails.contains(e) {
            let g = group_of(emails, user, mode, key);
            law_groups_are_the_senders(emails, user, mode, g);
            assert(belongs(user, mode, g.key)(emails[emails.index_of(e)]));
            let i = groups.index_of(g);
            assert forall|j: int| 0 <= j < groups.len() && j != i implies (
            #[trigger] groups[j]).emails.to_multiset().count(e) == 0 by {
                if i < j {
                    law_group_keys_are_distinct(emails, user, mode, i, j);
                } else {
                    law_group_keys_are_distinct(emails, user, mode, j, i);
                }
            }
            lemma_group_count(emails, user, mode, i, e);
            lemma_one_group_holds(groups, e, i);
        } else {
            assert forall|j: int| 0 <= j < groups.len() implies (
            #[trigger] groups[j]).emails.to_multiset().count(e) == 0 by {
                lemma_group_count(emails, user, mode, j, e);
            }
            lemma_no_group_holds(groups, e);
        }
    }
    assert(group_members(groups) =~= all);
}

/// Grouping the messages anew leaves the messages as they are and puts those of others into
/// groups: each into the group of its key and as often as it is there, each group newest
/// first and none empty. No two groups share a key, and larger groups stand first, by key in
/// lowercase where they are of one size.
pub proof fn law_regrouping_groups_the_messages_of_others(s: AppV)
    ensures
        s.regrouped().emails == s.emails,
        group_members(s.regrouped().groups) == s.emails.filter(
            of_others(s.user_email),
        ).to_multiset(),
        forall|i: int|
            0 <= i < s.regrouped().groups.len() ==> (#[trigger] s.regrouped().groups[i]).emails.len()
                > 0 && in_order(newer(), s.regrouped().groups[i].emails),
        forall|i: int, k: int|
            0 <= i < s.regrouped().groups.len() && 0 <= k < s.regrouped().groups[i].emails.len()
                ==> group_key(s.group_mode, #[trigger] s.regrouped().groups[i].emails[k])
                == s.regrouped().groups[i].key,
        forall|i: int, j: int|
            0 <= i < j < s.regrouped().groups.len() ==> {
                let a = #[trigger] s.regrouped().groups[i];
                let b = #[trigger] s.regrouped().groups[j];
                &&& a.key != b.key
                &&& a.emails.len() >= b.emails.len()
                &&& a.emails.len() == b.emails.len() ==> !text_less(
                    lowercase(b.key),
                    lowercase(a.key),
                )
            },
{
    let groups = grouping(s.emails, s.user_email, s.group_mode);
    law_groups_hold_all_of_others(s.emails, s.user_email, s.group_mode);
    assert forall|i: int| 0 <= i < groups.len() implies (#[trigger] groups[i]).emails.len() > 0
        && in_order(newer(), groups[i].emails) by {
        let g = groups[i];
        assert(groups.contains(g));
        law_groups_are_the_senders(s.emails, s.user_email, s.group_mode, g);
        let p = belongs(s.user_email, s.group_mode, g.key);
        let k = choose|k: int| 0 <= k < s.emails.len() && p(#[trigger] s.emails[k]);
        law_messages_are_in_one_group(s.emails, s.user_email, s.group_mode, s.emails[k], g);
        law_newest_first(s.emails.filter(p), s.emails[k]);
    }
    assert forall|i: int, k: int|
        0 <= i < groups.len() && 0 <= k < groups[i].emails.len() implies group_key(
        s.group_mode,
        #[trigger] groups[i].emails[k],
    ) == groups[i].key by {
        let e = groups[i].emails[k];
        lemma_group_count(s.emails, s.user_email, s.group_mode, i, e);
        groups[i].emails.to_multiset_ensures();
        assert(groups[i].emails.contains(e));
    }
    assert forall|i: int, j: int| 0 <= i < j < groups.len() implies {
        let a = #[trigger] groups[i];
        let b = #[trigger] groups[j];
        &&& a.key != b.key
        &&& a.emails.len() >= b.emails.len()
        &&& a.emails.len() == b.emails.len() ==> !text_less(lowercase(b.key), lowercase(a.key))
    } by {
        law_group_keys_are_distinct(s.emails, s.user_email, s.group_mode, i, j);
        law_groups_are_ranked(s.emails, s.user_email, s.group_mode, i, j);
    }
}

/// What groups hold, whatever their order and that of their messages: the key of each and
/// its messages.
pub open spec fn group_contents(groups: Seq<GroupV>) -> Multiset<(Seq<char>, Multiset<EmailV>)> {
    groups.map_values(|g: GroupV| (g.key, g.emails.to_multiset())).to_multiset()
}

/// Filtering a list filters what it holds.
pub proof fn lemma_filter_multiset<A>(s: Seq<A>, p: spec_fn(A) -> bool)
    ensures
        s.filter(p).to_multiset() == s.to_multiset().filter(p),
    decreases s.len(),
{
    s.to_multiset_ensures();
    if s.len() > 0 {
        let t = s.drop_last();
        let z = s.last();
        lemma_filter_multiset(t, p);
        assert(s =~= t.push(z));
        t.to_multiset_ensures();
        t.lemma_filter_push(z, p);
        t.filter(p).to_multiset_ensures();
        assert(s.filter(p).to_multiset() =~= s.to_multiset().filter(p));
    } else {
        assert(s.filter(p) =~= s);
        assert(s.filter(p).to_multiset() =~= s.to_multiset().filter(p));
    }
}

proof fn lemma_same_contents<A>(s: Seq<A>, t: Seq<A>)
    requires
        s.no_duplicates(),
        t.no_duplicates(),
        forall|a: A| s.contains(a) <==> t.contains(a),
    ensures
        s.to_multiset() == t.to_multiset(),
{
    s.to_multiset_ensures();
    t.to_multiset_ensures();
    s.lemma_multiset_has_no_duplicates();
    t.lemma_multiset_has_no_duplicates();
    assert forall|a: A| s.to_multiset().count(a) == t.to_multiset().count(a) by {
        assert(s.contains(a) <==> s.to_multiset().count(a) > 0);
        assert(t.contains(a) <==> t.to_multiset().count(a) > 0);
        if s.contains(a) {
            assert(s.to_multiset().contains(a) && t.to_multiset().contains(a));
        }
    }
    assert(s.to_multiset() =~= t.to_multiset());
}

/// A group of messages is, up to order, a group of the same messages in another order.
proof fn lemma_group_is_found(
    a: Seq<EmailV>,
    b: Seq<EmailV>,
    user: Option<Seq<char>>,
    mode: GroupMode,
    g: GroupV,
)
    requires
        a.to_multiset() == b.to_multiset(),
        grouping(a, user, mode).contains(g),
    ensures
        grouping(b, user, mode).contains(group_of(b, user, mode, g.key)),
        group_of(b, user, mode, g.key).key == g.key,
        group_of(b, user, mode, g.key).emails.to_multiset() == g.emails.to_multiset(),
{
    let p = belongs(user, mode, g.key);
    let h = group_of(b, user, mode, g.key);
    law_groups_are_the_senders(a, user, mode, g);
    law_groups_are_the_senders(b, user, mode, h);
    let k = choose|k: int| 0 <= k < a.len() && p(#[trigger] a[k]);
    lemma_same_members(a, b, a[k]);
    assert(a.contains(a[k]));
    assert(p(b[b.index_of(a[k])]));
    law_newest_first(a.filter(p), a[k]);
    law_newest_first(b.filter(p), a[k]);
    lemma_filter_multiset(a, p);
    lemma_filter_multiset(b, p);
}

proof fn lemma_group_contents_differ(
    emails: Seq<EmailV>,
    user: Option<Seq<char>>,
    mode: GroupMode,
)
    ensures
        grouping(emails, user, mode).map_values(
            |g: GroupV| (g.key, g.emails.to_multiset()),
        ).no_duplicates(),
{
    let r = grouping(emails, user, mode);
    let c = r.map_values(|g: GroupV| (g.key, g.emails.to_multiset()));
    assert forall|i: int, j: int| 0 <= i < c.len() && 0 <= j < c.len() && i != j implies c[i]
        != c[j] by {
        if i < j {
            law_group_keys_are_distinct(emails, user, mode, i, j);
        } else {
            law_group_keys_are_distinct(emails, user, mode, j, i);
        }
        assert(c[i].0 == r[i].key && c[j].0 == r[j].key);
    }
}

/// The order of the messages does not matter for what the groups hold.
pub proof fn law_groups_hold_the_same(
    a: Seq<EmailV>,
    b: Seq<EmailV>,
    user: Option<Seq<char>>,
    mode: GroupMode,
)
    requires
        a.to_multiset() == b.to_multiset(),
    ensures
        group_contents(grouping(a, user, mode)) == group_contents(grouping(b, user, mode)),
{
    let f = |g: GroupV| (g.key, g.emails.to_multiset());
    let x = grouping(a, user, mode).map_values(f);
    let y = grouping(b, user, mode).map_values(f);
    lemma_group_contents_differ(a, user, mode);
    lemma_group_contents_differ(b, user, mode);
    assert forall|c: (Seq<char>, Multiset<EmailV>)| x.contains(c) <==> y.contains(c) by {
        if x.contains(c) {
            let g = grouping(a, user, mode)[x.index_of(c)];
            assert(grouping(a, user, mode).contains(g));
            lemma_group_is_found(a, b, user, mode, g);
            let h = group_of(b, user, mode, g.key);
            assert(y[grouping(b, user, mode).index_of(h)] == c);
        }
        if y.contains(c) {
            let g = grouping(b, user, mode)[y.index_of(c)];
            assert(grouping(b, user, mode).contains(g));
            lemma_group_is_found(b, a, user, mode, g);
            let h = group_of(a, user, mode, g.key);
            assert(x[grouping(a, user, mode).index_of(h)] == c);
        }
    }
    lemma_same_contents(x, y);
}

// ---------------------------------------------------------------------------
// Looking

/// The group on screen stays on screen when messages come or go, as long as it is there.
pub proof fn law_viewed_group_stays(s: AppV, key: Seq<char>)
    requires
        s.viewing_group_key == Some(key),
        s.regrouped().groups.len() <= usize::MAX,
        exists|k: int|
            0 <= k < s.regrouped().groups.len() && (#[trigger] s.regrouped().groups[k]).key == key,
    ensures
        s.regrouped().current_group() matches Some(g) && g.key == key,
        s.regrouped().viewing_group_key == Some(key),
{
    let groups = grouping(s.emails, s.user_email, s.group_mode);
    let k = choose|k: int| 0 <= k < groups.len() && (#[trigger] groups[k]).key == key;
    lemma_key_position(groups, key, 0, k);
}

/// After grouping the messages anew a group is selected wherever there are groups. Where the
/// group on screen is gone, the selected group is on screen, and none where there are no
/// groups. Where no group was on screen, none is.
pub proof fn law_regrouping_keeps_a_group_selected(s: AppV)
    requires
        s.regrouped().groups.len() <= usize::MAX,
    ensures
        s.regrouped().groups == grouping(s.emails, s.user_email, s.group_mode),
        s.regrouped().groups.len() == 0 || s.regrouped().selected_group
            < s.regrouped().groups.len(),
        s.viewing_group_key is None ==> s.regrouped().viewing_group_key is None,
        s.viewing_group_key is Some && (forall|k: int|
            0 <= k < s.regrouped().groups.len() ==> (#[trigger] s.regrouped().groups[k]).key
                != s.viewing_group_key->0) ==> s.regrouped().viewing_group_key == (
        if s.regrouped().groups.len() == 0 {
            None
        } else {
            Some(s.regrouped().groups[s.regrouped().selected_group as int].key)
        }),
{
    let groups = grouping(s.emails, s.user_email, s.group_mode);
    if s.viewing_group_key is Some {
        lemma_key_position_range(groups, s.viewing_group_key->0, 0);
    }
}

proof fn lemma_key_position_range(groups: Seq<GroupV>, key: Seq<char>, from: int)
    requires
        0 <= from <= groups.len(),
    ensures
        from <= key_position(groups, key, from) <= groups.len(),
        key_position(groups, key, from) < groups.len() ==> groups[key_position(
            groups,
            key,
            from,
        )].key == key,
    decreases groups.len() - from,
{
    if from < groups.len() && groups[from].key != key {
        lemma_key_position_range(groups, key, from + 1);
    }
}

/// The position of a key is no later than any one with that key.
pub proof fn lemma_key_position(groups: Seq<GroupV>, key: Seq<char>, from: int, k: int)
    requires
        0 <= from <= k < groups.len(),
        groups[k].key == key,
    ensures
        from <= key_position(groups, key, from) <= k,
        groups[key_position(groups, key, from)].key == key,
    decreases k - from,
{
    if groups[from].key != key {
        lemma_key_position(groups, key, from + 1, k);
    }
}

/// The last item that a filter keeps.
pub proof fn lemma_last_kept<A>(s: Seq<A>, p: spec_fn(A) -> bool) -> (i: int)
    requires
        s.filter(p).len() > 0,
    ensures
        0 <= i < s.len(),
        s[i] == s.filter(p).last(),
        p(s[i]),
        forall|j: int| i < j < s.len() ==> !p(#[trigger] s[j]),
    decreases s.len(),
{
    if s.len() == 0 {
        assert(s.filter(p) =~= s);
        0
    } else {
        let t = s.drop_last();
        assert(s =~= t.push(s.last()));
        t.lemma_filter_push(s.last(), p);
        if p(s.last()) {
            s.len() - 1
        } else {
            let i = lemma_last_kept(t, p);
            assert(s[i] == t[i]);
            assert forall|j: int| i < j < s.len() implies !p(#[trigger] s[j]) by {
                if j < t.len() {
                    assert(s[j] == t[j]);
                }
            }
            i
        }
    }
}

/// The first item that a filter keeps.
pub proof fn lemma_first_kept<A>(s: Seq<A>, p: spec_fn(A) -> bool) -> (i: int)
    requires
        s.filter(p).len() > 0,
    ensures
        0 <= i < s.len(),
        s[i] == s.filter(p).first(),
        p(s[i]),
        forall|j: int| 0 <= j < i ==> !p(#[trigger] s[j]),
    decreases s.len(),
{
    if s.len() == 0 {
        assert(s.filter(p) =~= s);
        0
    } else {
        let t = s.drop_last();
        assert(s =~= t.push(s.last()));
        t.lemma_filter_push(s.last(), p);
        if t.filter(p).len() > 0 {
            let i = lemma_first_kept(t, p);
            assert(s[i] == t[i]);
            assert(s.filter(p).first() == t.filter(p).first());
            assert forall|j: int| 0 <= j < i implies !p(#[trigger] s[j]) by {
                assert(s[j] == t[j]);
            }
            i
        } else {
            let last = s.len() - 1;
            assert forall|j: int| 0 <= j < last implies !p(#[trigger] s[j]) by {
                assert(s[j] == t[j]);
                assert(t.contains(t[j]));
                lemma_filter_members(t, p, t[j]);
            }
            last
        }
    }
}

proof fn lemma_none_shown_after(s: AppV, from: int)
    requires
        0 <= from,
        forall|j: int| from <= j < s.groups.len() ==> !s.shows_group(#[trigger] s.groups[j]),
    ensures
        s.shown_at_or_after(from) >= s.groups.len(),
    decreases s.groups.len() - from,
{
    if from < s.groups.len() {
        lemma_none_shown_after(s, from + 1);
    }
}

/// Whether no two groups have the same key.
pub open spec fn has_distinct_keys(groups: Seq<GroupV>) -> bool {
    forall|i: int, j: int|
        0 <= i < j < groups.len() ==> (#[trigger] groups[i]).key != (#[trigger] groups[j]).key
}

proof fn lemma_last_group_is_the_last_shown(s: AppV)
    requires
        s.view == View::GroupList,
        s.filtered_groups().len() > 0,
        has_distinct_keys(s.groups),
        s.groups.len() <= usize::MAX,
    ensures
        s.at_last().current_group() == Some(s.filtered_groups().last()),
        s.at_last().moved_on() == s.at_last(),
        s.at_first().current_group() == Some(s.filtered_groups().first()),
        s.at_last().at_first() == s.at_first(),
{
    let p = s.shown_group();
    let last = lemma_last_kept(s.groups, p);
    let first = lemma_first_kept(s.groups, p);
    lemma_key_position(s.groups, s.groups[last].key, 0, last);
    lemma_key_position(s.groups, s.groups[first].key, 0, first);
    let end = s.at_last();
    assert(end.selected_group == last);
    assert(end.shown_group() =~= s.shown_group());
    assert forall|j: int| last < j < end.groups.len() implies !end.shows_group(
        #[trigger] end.groups[j],
    ) by {
        assert(!p(s.groups[j]));
    }
    lemma_none_shown_after(end, last + 1);
}

/// Going to the last item of a list selects the last one that is shown, in the list of groups
/// whatever hidden groups follow it. Moving on then changes nothing, and going to the first
/// selects the first one that is shown.
pub proof fn law_last_item_is_the_last_shown(s: AppV)
    requires
        match s.view {
            View::GroupList => s.filtered_groups().len() > 0 && has_distinct_keys(s.groups)
                && s.groups.len() <= usize::MAX,
            View::EmailList => 0 < s.filtered_threads().len() <= usize::MAX,
            View::Thread => 0 < s.thread_emails().len() <= usize::MAX,
            View::UndoHistory => 0 < s.undo_history.len() <= usize::MAX,
            View::EmailBody => false,
        },
    ensures
        s.at_last().moved_on() == s.at_last(),
        s.at_last().at_first() == s.at_first(),
        match s.view {
            View::GroupList => s.at_last().current_group() == Some(s.filtered_groups().last())
                && s.at_first().current_group() == Some(s.filtered_groups().first()),
            View::EmailList => s.at_last().current_email() == Some(s.filtered_threads().last())
                && s.at_first().current_email() == Some(s.filtered_threads().first()),
            View::Thread => s.at_last().current_thread_email() == Some(s.thread_emails().last())
                && s.at_first().current_thread_email() == Some(s.thread_emails().first()),
            View::UndoHistory => s.at_last().selected_undo == s.undo_history.len() - 1
                && s.at_first().selected_undo == 0,
            View::EmailBody => true,
        },
{
    let end = s.at_last();
    let start = s.at_first();
    match s.view {
        View::GroupList => {
            lemma_last_group_is_the_last_shown(s);
        },
        View::EmailList => {
            assert(end.shown() =~= s.shown());
            assert(start.shown() =~= s.shown());
            assert(end.filtered_threads() == s.filtered_threads());
            assert(start.filtered_threads() == s.filtered_threads());
        },
        View::Thread => {
            assert(end.shown() =~= s.shown());
            assert(start.shown() =~= s.shown());
            assert(end.filtered_threads() == s.filtered_threads());
            assert(start.filtered_threads() == s.filtered_threads());
            assert(end.thread_emails() == s.thread_emails());
            assert(start.thread_emails() == s.thread_emails());
        },
        _ => {},
    }
}

/// Changing the group mode twice brings the groups back.
pub proof fn law_group_mode_twice(s: AppV)
    ensures
        s.group_mode_toggled().group_mode_toggled().group_mode == s.group_mode,
        s.group_mode_toggled().group_mode_toggled().groups == grouping(
            s.emails,
            s.user_email,
            s.group_mode,
        ),
        s.group_mode_toggled().group_mode_toggled().emails == s.emails,
{
}

/// The thread filters come round after three steps.
pub proof fn law_thread_filters_cycle(f: ThreadFilter)
    ensures
        f.following().following().following() == f,
        f.following() != f,
        f.following().following() != f,
{
}

/// A message passes exactly one of the two thread filters that leave something out.
pub proof fn law_thread_filters_split(s: AppV, e: EmailV)
    ensures
        (AppV { thread_filter: ThreadFilter::All, ..s }).passes(e),
        (AppV { thread_filter: ThreadFilter::OnlyThreads, ..s }).passes(e) <==> !(AppV {
            thread_filter: ThreadFilter::NoThreads,
            ..s
        }).passes(e),
{
}

/// A valid selection is left alone, whatever was selected before: validating twice is
/// validating once.
pub proof fn law_validating_twice_is_validating_once(s: AppV)
    requires
        s.groups.len() <= usize::MAX,
    ensures
        s.validated().validated() == s.validated(),
{
    law_validated_selection(s);
    let v = s.validated();
    assert(v.shown() =~= s.shown());
    assert(v.shown_group() =~= s.shown_group());
    if s.view == View::EmailList || s.view == View::Thread {
        assert(v.filtered_threads() == s.filtered_threads());
    }
    if s.view == View::Thread {
        assert(v.current_email() == s.current_email());
        assert(v.thread_emails() == s.thread_emails());
    }
}

/// After validating, what is selected is on screen, unless nothing is.
pub proof fn law_validated_selection(s: AppV)
    requires
        s.groups.len() <= usize::MAX,
    ensures
        match s.view {
            View::GroupList => s.filtered_groups().len() > 0 ==> {
                &&& s.validated().current_group() is Some
                &&& s.validated().shows_key(s.validated().current_group()->0.key)
            },
            View::EmailList => s.filtered_threads().len() > 0 <==> s.validated().current_email()
                is Some,
            View::Thread => s.thread_emails().len() > 0
                <==> s.validated().current_thread_email() is Some,
            View::UndoHistory => s.undo_history.len() > 0 ==> s.validated().selected_undo
                < s.undo_history.len(),
            View::EmailBody => s.validated() == s,
        },
{
    let v = s.validated();
    match s.view {
        View::GroupList => {
            let shown = s.filtered_groups();
            assert(v.shown_group() =~= s.shown_group());
            assert(v.filtered_groups() == shown);
            let kept = s.current_group() is Some && s.shows_key(s.current_group()->0.key);
            if shown.len() > 0 && !kept {
                let key = shown[0].key;
                assert(shown.contains(shown[0]));
                lemma_filter_members(s.groups, s.shown_group(), shown[0]);
                let k = s.groups.index_of(shown[0]);
                lemma_key_position(s.groups, key, 0, k);
                assert(v.current_group()->0.key == key);
                assert(v.filtered_groups()[0].key == key);
                assert(v.shows_key(key));
            }
        },
        View::EmailList => {
            assert(v.shown() =~= s.shown());
            assert(v.filtered_threads() == s.filtered_threads());
        },
        View::Thread => {
            assert(v.shown() =~= s.shown());
            assert(v.filtered_threads() == s.filtered_threads());
            assert(v.current_email() == s.current_email());
            assert(v.thread_emails() == s.thread_emails());
        },
        View::UndoHistory => {},
        View::EmailBody => {},
    }
}

/// Where there is something to move on to, moving on and moving back leads back.
pub proof fn law_moving_on_and_back(s: AppV)
    requires
        s.groups.len() <= usize::MAX,
        match s.view {
            View::GroupList => s.next_group() != s.selected_group && s.selected_group
                < s.groups.len() && s.shows_group(s.groups[s.selected_group as int]),
            View::EmailList => s.selected_group < s.groups.len() && s.selected_email is Some
                && s.selected_email->0 + 1 < s.filtered_threads().len(),
            View::Thread => s.selected_thread_email is Some && s.selected_thread_email->0 + 1
                < s.thread_emails().len(),
            View::UndoHistory => s.selected_undo + 1 < s.undo_history.len(),
            View::EmailBody => s.text_view_scroll < usize::MAX,
        },
        s.filtered_threads().len() <= usize::MAX,
        s.thread_emails().len() <= usize::MAX,
        s.undo_history.len() <= usize::MAX,
    ensures
        s.moved_on().moved_back() == s,
{
    if s.view == View::GroupList {
        let from = s.selected_group + 1;
        lemma_shown_at_or_after(s, from);
        let t = s.moved_on();
        let at = t.selected_group as int;
        assert(forall|g: GroupV| t.shows_group(g) == s.shows_group(g));
        lemma_shown_before_skips(s, t, at, from);
        if s.thread_filter == ThreadFilter::All {
            assert(s.shown_at_or_after(from) == from);
        }
    }
}

proof fn lemma_shown_at_or_after(s: AppV, from: int)
    requires
        0 <= from,
    ensures
        s.shown_at_or_after(from) < s.groups.len() ==> from <= s.shown_at_or_after(from),
        s.shown_at_or_after(from) <= s.groups.len(),
        s.shown_at_or_after(from) < s.groups.len() ==> s.shows_group(
            s.groups[s.shown_at_or_after(from)],
        ),
        forall|k: int|
            from <= k < s.shown_at_or_after(from) ==> !s.shows_group(#[trigger] s.groups[k]),
    decreases s.groups.len() - from,
{
    if from < s.groups.len() && !s.shows_group(s.groups[from]) {
        lemma_shown_at_or_after(s, from + 1);
    }
}

proof fn lemma_shown_before_skips(s: AppV, t: AppV, to: int, from: int)
    requires
        t.groups == s.groups,
        forall|g: GroupV| t.shows_group(g) == s.shows_group(g),
        0 < from <= to <= s.groups.len(),
        forall|k: int| from <= k < to ==> !s.shows_group(#[trigger] s.groups[k]),
        s.shows_group(s.groups[from - 1]),
    ensures
        t.shown_before(to) == from - 1,
    decreases to,
{
    if to > from {
        lemma_shown_before_skips(s, t, to - 1, from);
    }
}

/// Going back from the message list leads to the group list that was left, with the same
/// group selected; nothing else is changed but what the message list had selected.
pub proof fn law_entering_and_leaving_a_group(s: AppV)
    requires
        s.view == View::GroupList,
        s.current_group() is Some,
    ensures
        s.entered().exited() == (AppV {
            selected_email: None,
            viewing_group_key: None,
            text_filter: None,
            selected_emails: Set::empty(),
            ..s
        }),
{
}

/// Going back from a thread leads to the message list that was left, with the same thread
/// selected.
pub proof fn law_entering_and_leaving_a_thread(s: AppV)
    requires
        s.view == View::EmailList,
        s.current_email() is Some,
    ensures
        s.entered().exited() == (AppV {
            selected_thread_email: None,
            selected_emails: Set::empty(),
            ..s
        }),
{
}

/// Closing the undo history, or the body of a message, leads back to the view it was opened
/// from.
pub proof fn law_closing_leads_back(s: AppV, id: Seq<char>)
    ensures
        s.undo_history_entered().exited() == (AppV { previous_view: None, selected_undo: 0, ..s }),
        s.text_view_entered(id).exited() == (AppV {
            previous_view: None,
            viewing_email_id: None,
            text_view_scroll: 0,
            ..s
        }),
{
}

/// The thread view shows every message of the thread, the user's own among them.
pub proof fn law_threads_are_shown_whole(s: AppV, e: EmailV)
    requires
        s.current_email() is Some,
    ensures
        s.thread_emails().contains(e) <==> s.emails.contains(e) && e.thread_id
            == s.current_email()->0.thread_id,
{
    let p = in_thread(s.current_email()->0.thread_id);
    law_newest_first(s.emails.filter(p), e);
    lemma_same_members(s.thread_emails(), s.emails.filter(p), e);
    lemma_filter_members(s.emails, p, e);
}

/// Toggling the selection of a message twice leaves it as it was.
pub proof fn law_toggling_twice(s: AppV)
    ensures
        s.selection_toggled().selection_toggled() == s,
{
    let t = s.selection_toggled();
    if s.toggle_result() == SelectionResult::Toggled {
        assert(t.shown() =~= s.shown());
        assert(t.filtered_threads() == s.filtered_threads());
        assert(t.current_email() == s.current_email());
        let id = s.current_email()->0.id;
        if s.selected_emails.contains(id) {
            assert(s.selected_emails.remove(id).insert(id) =~= s.selected_emails);
        } else {
            assert(s.selected_emails.insert(id).remove(id) =~= s.selected_emails);
        }
    }
}

// ---------------------------------------------------------------------------
// Removing and restoring

/// What a filter keeps and what it leaves out make up the list.
proof fn lemma_filter_splits<A>(s: Seq<A>, p: spec_fn(A) -> bool, q: spec_fn(A) -> bool)
    requires
        forall|a: A| #[trigger] p(a) <==> !q(a),
    ensures
        (s.filter(q) + s.filter(p)).to_multiset() == s.to_multiset(),
    decreases s.len(),
{
    vstd::seq_lib::lemma_multiset_commutative(s.filter(q), s.filter(p));
    s.to_multiset_ensures();
    if s.len() > 0 {
        let t = s.drop_last();
        let z = s.last();
        lemma_filter_splits(t, p, q);
        assert(s =~= t.push(z));
        t.to_multiset_ensures();
        t.lemma_filter_push(z, p);
        t.lemma_filter_push(z, q);
        t.filter(p).to_multiset_ensures();
        t.filter(q).to_multiset_ensures();
        vstd::seq_lib::lemma_multiset_commutative(t.filter(q), t.filter(p));
        assert((s.filter(q) + s.filter(p)).to_multiset() =~= s.to_multiset());
    } else {
        assert(s.filter(p) =~= s);
        assert(s.filter(q) =~= s);
        assert(s.filter(q) + s.filter(p) =~= s);
    }
}

/// Bringing back the messages of the threads that were removed restores the messages. The
/// groups, where they were those of the messages, hold again what they held.
pub proof fn law_restoring_undoes_removing(s: AppV, thread_id: Seq<char>)
    ensures
        s.without_group_threads().restored(s.group_thread_emails()).emails.to_multiset()
            == s.emails.to_multiset(),
        s.without_selected_threads().restored(s.selected_thread_emails()).emails.to_multiset()
            == s.emails.to_multiset(),
        s.without_thread(thread_id).restored(
            s.emails.filter(in_thread(thread_id)),
        ).emails.to_multiset() == s.emails.to_multiset(),
        s.groups == grouping(s.emails, s.user_email, s.group_mode) ==> {
            &&& group_contents(s.without_group_threads().restored(s.group_thread_emails()).groups)
                == group_contents(s.groups)
            &&& group_contents(
                s.without_selected_threads().restored(s.selected_thread_emails()).groups,
            ) == group_contents(s.groups)
            &&& group_contents(
                s.without_thread(thread_id).restored(s.emails.filter(in_thread(thread_id))).groups,
            ) == group_contents(s.groups)
        },
{
    lemma_filter_splits(
        s.emails,
        in_threads_of(s.filtered_emails()),
        outside_threads_of(s.filtered_emails()),
    );
    lemma_filter_splits(
        s.emails,
        in_threads_of(s.selected_shown()),
        outside_threads_of(s.selected_shown()),
    );
    lemma_filter_splits(s.emails, in_thread(thread_id), outside_thread(thread_id));
    law_groups_hold_the_same(
        s.without_group_threads().restored(s.group_thread_emails()).emails,
        s.emails,
        s.user_email,
        s.group_mode,
    );
    law_groups_hold_the_same(
        s.without_selected_threads().restored(s.selected_thread_emails()).emails,
        s.emails,
        s.user_email,
        s.group_mode,
    );
    law_groups_hold_the_same(
        s.without_thread(thread_id).restored(s.emails.filter(in_thread(thread_id))).emails,
        s.emails,
        s.user_email,
        s.group_mode,
    );
}

/// Removing the threads on screen takes away exactly the messages announced for it, and
/// threads go whole: no message that stays shares a thread with one that went.
pub proof fn law_removal_is_what_was_announced(s: AppV, e: EmailV, f: EmailV)
    requires
        s.emails.contains(e),
        s.emails.contains(f),
    ensures
        s.without_group_threads().emails.contains(e) <==> !s.group_thread_emails().contains(e),
        s.without_selected_threads().emails.contains(e) <==> !s.selected_thread_emails().contains(
            e,
        ),
        e.thread_id == f.thread_id ==> (s.without_group_threads().emails.contains(e)
            <==> s.without_group_threads().emails.contains(f)),
        e.thread_id == f.thread_id ==> (s.without_selected_threads().emails.contains(e)
            <==> s.without_selected_threads().emails.contains(f)),
{
    lemma_filter_members(s.emails, in_threads_of(s.filtered_emails()), e);
    lemma_filter_members(s.emails, outside_threads_of(s.filtered_emails()), e);
    lemma_filter_members(s.emails, outside_threads_of(s.filtered_emails()), f);
    lemma_filter_members(s.emails, in_threads_of(s.selected_shown()), e);
    lemma_filter_members(s.emails, outside_threads_of(s.selected_shown()), e);
    lemma_filter_members(s.emails, outside_threads_of(s.selected_shown()), f);
}

/// Every message that is shown is removed with the threads on screen; so is every other
/// message of its thread, whoever sent it.
pub proof fn law_shown_messages_are_removed(s: AppV, shown: EmailV, e: EmailV)
    requires
        s.filtered_emails().contains(shown),
        e.thread_id == shown.thread_id,
    ensures
        !s.without_group_threads().emails.contains(e),
{
    let i = s.filtered_emails().index_of(shown);
    assert(has_thread(s.filtered_emails(), e.thread_id));
    lemma_filter_members(s.emails, outside_threads_of(s.filtered_emails()), e);
}

/// Selected messages that are hidden, and those of threads that are not selected, stay when
/// the selected threads are removed, and stay selected.
pub proof fn law_hidden_selection_survives(s: AppV, e: EmailV)
    requires
        s.emails.contains(e),
        s.selected_emails.contains(e.id),
        !has_thread(s.selected_shown(), e.thread_id),
        forall|f: EmailV| s.selected_thread_emails().contains(f) ==> f.id != e.id,
    ensures
        s.without_selected_threads().emails.contains(e),
        s.without_selected_threads().selected_emails.contains(e.id),
{
    lemma_filter_members(s.emails, outside_threads_of(s.selected_shown()), e);
    let gone = s.selected_thread_emails();
    if has_id(gone, e.id) {
        let k = choose|k: int| 0 <= k < gone.len() && (#[trigger] gone[k]).id == e.id;
        assert(gone.contains(gone[k]));
    }
}

// ---------------------------------------------------------------------------
// Undoing

/// The last action is the first that can be undone. Taking it out gives the history back as
/// it was, and no more than a fixed number of actions are kept.
pub proof fn law_undo_history(s: AppV, entry: UndoEntryV)
    ensures
        s.undo_pushed(entry).undo_history[0] == entry,
        s.undo_pushed(entry).undo_history.len() <= MAX_UNDO_HISTORY,
        s.undo_history.len() < MAX_UNDO_HISTORY ==> s.undo_pushed(entry).undo_popped(
            0,
        ).undo_history == s.undo_history,
        s.undo_history.len() >= MAX_UNDO_HISTORY ==> s.undo_pushed(entry).undo_popped(
            0,
        ).undo_history == s.undo_history.take(MAX_UNDO_HISTORY - 1),
{
    let h = seq![entry] + s.undo_history;
    if s.undo_history.len() < MAX_UNDO_HISTORY {
        assert(h.remove(0) =~= s.undo_history);
    } else {
        assert(h.take(MAX_UNDO_HISTORY as int).remove(0) =~= s.undo_history.take(
            MAX_UNDO_HISTORY - 1,
        ));
    }
}

// ---------------------------------------------------------------------------
// Counting

/// The first messages of the threads of a list are messages of the list, of different threads.
pub proof fn lemma_thread_heads(s: Seq<EmailV>)
    ensures
        forall|i: int, j: int|
            0 <= i < j < thread_heads(s).len() ==> (#[trigger] thread_heads(s)[i]).thread_id != (
            #[trigger] thread_heads(s)[j]).thread_id,
        forall|k: int|
            0 <= k < thread_heads(s).len() ==> s.contains(#[trigger] thread_heads(s)[k]),
    decreases s.len(),
{
    if s.len() > 0 {
        let t = s.drop_last();
        let h = thread_heads(s);
        let ht = thread_heads(t);
        lemma_thread_heads(t);
        assert forall|k: int| 0 <= k < h.len() implies s.contains(#[trigger] h[k]) by {
            if k < ht.len() {
                assert(h[k] == ht[k]);
                assert(t.contains(ht[k]));
                assert(s[t.index_of(ht[k])] == h[k]);
            } else {
                assert(s[s.len() - 1] == h[k]);
            }
        }
        assert forall|i: int, j: int| 0 <= i < j < h.len() implies (#[trigger] h[i]).thread_id != (
        #[trigger] h[j]).thread_id by {
            assert(h[i] == ht[i]);
            if j < ht.len() {
                assert(h[j] == ht[j]);
            } else {
                assert(t.contains(ht[i]));
                assert(t[t.index_of(ht[i])].thread_id == h[i].thread_id);
            }
        }
    }
}

proof fn lemma_other_thread_size(s: Seq<EmailV>, gone: Seq<char>, thread_id: Seq<char>)
    requires
        thread_id != gone,
    ensures
        thread_size(s.filter(outside_thread(gone)), thread_id) == thread_size(s, thread_id),
    decreases s.len(),
{
    let p = in_thread(thread_id);
    let q = outside_thread(gone);
    if s.len() > 0 {
        let t = s.drop_last();
        lemma_other_thread_size(t, gone, thread_id);
        assert(s =~= t.push(s.last()));
        t.lemma_filter_push(s.last(), p);
        t.lemma_filter_push(s.last(), q);
        t.filter(q).lemma_filter_push(s.last(), p);
    } else {
        assert(s.filter(q) =~= s);
    }
}

proof fn lemma_counted_sizes_agree(s: AppV, t: AppV, heads: Seq<EmailV>)
    requires
        forall|k: int|
            0 <= k < heads.len() ==> thread_size(s.emails, (#[trigger] heads[k]).thread_id)
                == thread_size(t.emails, heads[k].thread_id),
    ensures
        s.counted_sizes(heads) == t.counted_sizes(heads),
    decreases heads.len(),
{
    if heads.len() > 0 {
        assert forall|k: int| 0 <= k < heads.drop_last().len() implies thread_size(
            s.emails,
            (#[trigger] heads.drop_last()[k]).thread_id,
        ) == thread_size(t.emails, heads.drop_last()[k].thread_id) by {
            assert(heads.drop_last()[k] == heads[k]);
        }
        lemma_counted_sizes_agree(s, t, heads.drop_last());
        assert(heads.last() == heads[heads.len() - 1]);
    }
}

proof fn lemma_counted_sizes_fit(s: AppV, heads: Seq<EmailV>)
    requires
        forall|k: int|
            0 <= k < heads.len() ==> thread_size(s.emails, (#[trigger] heads[k]).thread_id) > 0,
        forall|i: int, j: int|
            0 <= i < j < heads.len() ==> (#[trigger] heads[i]).thread_id != (
            #[trigger] heads[j]).thread_id,
    ensures
        s.counted_sizes(heads) <= s.emails.len(),
    decreases heads.len(),
{
    if heads.len() > 0 {
        let rest = heads.drop_last();
        let id = heads.last().thread_id;
        let p = in_thread(id);
        let q = outside_thread(id);
        let t = AppV { emails: s.emails.filter(q), ..s };
        assert forall|k: int| 0 <= k < rest.len() implies thread_size(
            t.emails,
            (#[trigger] rest[k]).thread_id,
        ) == thread_size(s.emails, rest[k].thread_id) && thread_size(
            s.emails,
            rest[k].thread_id,
        ) > 0 by {
            assert(rest[k] == heads[k]);
            assert(heads[k].thread_id != heads[heads.len() - 1].thread_id);
            lemma_other_thread_size(s.emails, id, rest[k].thread_id);
        }
        assert forall|i: int, j: int| 0 <= i < j < rest.len() implies (
        #[trigger] rest[i]).thread_id != (#[trigger] rest[j]).thread_id by {
            assert(rest[i] == heads[i] && rest[j] == heads[j]);
        }
        lemma_counted_sizes_fit(t, rest);
        lemma_counted_sizes_agree(s, t, rest);
        lemma_filter_splits(s.emails, p, q);
        (s.emails.filter(q) + s.emails.filter(p)).to_multiset_ensures();
        s.emails.to_multiset_ensures();
        assert(heads[heads.len() - 1] == heads.last());
    }
}

/// The threads that a group shows hold no more messages than there are, where each thread of
/// the group is a thread of some message, as it is after grouping.
pub proof fn law_thread_totals_fit(s: AppV, g: GroupV)
    requires
        forall|k: int| 0 <= k < g.emails.len() ==> has_thread(s.emails, (#[trigger] g.emails[k]).thread_id),
    ensures
        s.shown_thread_email_count(g) <= s.emails.len(),
{
    let passing = g.emails.filter(s.passing());
    let heads = thread_heads(passing);
    lemma_thread_heads(passing);
    assert forall|k: int| 0 <= k < heads.len() implies thread_size(
        s.emails,
        (#[trigger] heads[k]).thread_id,
    ) > 0 by {
        assert(passing.contains(heads[k]));
        lemma_filter_members(g.emails, s.passing(), heads[k]);
        let i = g.emails.index_of(heads[k]);
        assert(has_thread(s.emails, g.emails[i].thread_id));
        let j = choose|j: int|
            0 <= j < s.emails.len() && (#[trigger] s.emails[j]).thread_id == heads[k].thread_id;
        let p = in_thread(heads[k].thread_id);
        lemma_filter_members(s.emails, p, s.emails[j]);
    }
    lemma_counted_sizes_fit(s, heads);
}

/// After grouping, each thread of a group is a thread of some message.
pub proof fn law_groups_come_from_messages(s: AppV, g: GroupV, k: int)
    requires
        s.regrouped().groups.contains(g),
        0 <= k < g.emails.len(),
    ensures
        s.emails.contains(g.emails[k]),
        has_thread(s.emails, g.emails[k].thread_id),
{
    law_groups_are_the_senders(s.emails, s.user_email, s.group_mode, g);
    let p = belongs(s.user_email, s.group_mode, g.key);
    let e = g.emails[k];
    law_newest_first(s.emails.filter(p), e);
    assert(g.emails.contains(e));
    lemma_same_members(g.emails, s.emails.filter(p), e);
    lemma_filter_members(s.emails, p, e);
    assert(s.emails[s.emails.index_of(e)].thread_id == e.thread_id);
}

} // verus!
