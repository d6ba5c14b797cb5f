//! What the counts of a group come to.
use vstd::prelude::*;

use crate::email::EmailV;
use crate::grouping::{belongs, grouping, GroupV};
use crate::laws::{
    law_groups_are_the_senders, law_newest_first, lemma_filter_members, lemma_filter_multiset,
    lemma_thread_heads,
};
use crate::listing::{has_thread, in_thread, in_threads_of, thread_heads, thread_size};
use crate::modes::ThreadFilter;
use crate::state::{id_position, ids_and_folders, AppV};

verus! {

broadcast use vstd::seq_lib::group_seq_properties;

// ---------------------------------------------------------------------------
// Filters and threads

proof fn lemma_filter_alike<A>(s: Seq<A>, p: spec_fn(A) -> bool, q: spec_fn(A) -> bool)
    requires
        forall|a: A| #[trigger] p(a) == q(a),
    ensures
        s.filter(p) == s.filter(q),
{
    assert(p =~= q);
}

proof fn lemma_filter_sum<A>(
    s: Seq<A>,
    p: spec_fn(A) -> bool,
    a: spec_fn(A) -> bool,
    b: spec_fn(A) -> bool,
)
    requires
        forall|x: A| #[trigger] p(x) == (a(x) || b(x)),
        forall|x: A| !(#[trigger] a(x) && b(x)),
    ensures
        s.filter(p).len() == s.filter(a).len() + s.filter(b).len(),
    decreases s.len(),
{
    if s.len() == 0 {
        assert(s.filter(p) =~= s);
        assert(s.filter(a) =~= s);
        assert(s.filter(b) =~= s);
    } else {
        let t = s.drop_last();
        let z = s.last();
        lemma_filter_sum(t, p, a, b);
        assert(s =~= t.push(z));
        t.lemma_filter_push(z, p);
        t.lemma_filter_push(z, a);
        t.lemma_filter_push(z, b);
        assert(p(z) == (a(z) || b(z)));
        assert(!(a(z) && b(z)));
    }
}

proof fn lemma_part_of_thread(s: Seq<EmailV>, p: spec_fn(EmailV) -> bool, thread_id: Seq<char>)
    ensures
        thread_size(s.filter(p), thread_id) <= thread_size(s, thread_id),
    decreases s.len(),
{
    let q = in_thread(thread_id);
    if s.len() == 0 {
        assert(s.filter(p) =~= s);
    } else {
        let t = s.drop_last();
        let z = s.last();
        lemma_part_of_thread(t, p, thread_id);
        assert(s =~= t.push(z));
        t.lemma_filter_push(z, p);
        t.lemma_filter_push(z, q);
        t.filter(p).lemma_filter_push(z, q);
    }
}

proof fn lemma_one_of_thread(s: Seq<EmailV>, i: int)
    requires
        0 <= i < s.len(),
    ensures
        thread_size(s, s[i].thread_id) >= 1,
{
    let p = in_thread(s[i].thread_id);
    assert(s.contains(s[i]));
    lemma_filter_members(s, p, s[i]);
}

proof fn lemma_two_of_thread(s: Seq<EmailV>, i: int, j: int)
    requires
        0 <= i < j < s.len(),
        s[i].thread_id == s[j].thread_id,
    ensures
        thread_size(s, s[i].thread_id) >= 2,
    decreases s.len(),
{
    let p = in_thread(s[i].thread_id);
    let t = s.drop_last();
    let z = s.last();
    assert(s =~= t.push(z));
    t.lemma_filter_push(z, p);
    assert(t[i] == s[i]);
    if j == s.len() - 1 {
        lemma_one_of_thread(t, i);
    } else {
        assert(t[j] == s[j]);
        lemma_two_of_thread(t, i, j);
    }
}

/// A list has the threads of its first messages.
pub proof fn lemma_heads_have_threads(s: Seq<EmailV>, thread_id: Seq<char>)
    ensures
        has_thread(thread_heads(s), thread_id) <==> has_thread(s, thread_id),
    decreases s.len(),
{
    if s.len() > 0 {
        let t = s.drop_last();
        let h = thread_heads(s);
        let ht = thread_heads(t);
        lemma_heads_have_threads(t, thread_id);
        if has_thread(t, thread_id) {
            let k = choose|k: int| 0 <= k < t.len() && (#[trigger] t[k]).thread_id == thread_id;
            assert(s[k].thread_id == thread_id);
            let i = choose|i: int| 0 <= i < ht.len() && (#[trigger] ht[i]).thread_id == thread_id;
            assert(h[i].thread_id == thread_id);
        }
        if has_thread(s, thread_id) && !has_thread(t, thread_id) {
            let k = choose|k: int| 0 <= k < s.len() && (#[trigger] s[k]).thread_id == thread_id;
            if k < t.len() {
                assert(t[k].thread_id == thread_id);
            }
            assert(h[h.len() - 1] == s.last());
        }
        if has_thread(h, thread_id) {
            let i = choose|i: int| 0 <= i < h.len() && (#[trigger] h[i]).thread_id == thread_id;
            if i < ht.len() {
                assert(ht[i].thread_id == thread_id);
            } else {
                assert(s[s.len() - 1].thread_id == thread_id);
            }
        }
    }
}

/// Where a filter lets threads through as a whole, it does not matter whether it comes before
/// or after picking the first messages.
proof fn lemma_heads_of_filtered(s: Seq<EmailV>, p: spec_fn(EmailV) -> bool)
    requires
        forall|a: EmailV, b: EmailV|
            a.thread_id == b.thread_id ==> #[trigger] p(a) == #[trigger] p(b),
    ensures
        thread_heads(s.filter(p)) == thread_heads(s).filter(p),
    decreases s.len(),
{
    if s.len() == 0 {
        assert(s.filter(p) =~= s);
    } else {
        let t = s.drop_last();
        let z = s.last();
        let f = t.filter(p);
        lemma_heads_of_filtered(t, p);
        assert(s =~= t.push(z));
        t.lemma_filter_push(z, p);
        thread_heads(t).lemma_filter_push(z, p);
        if p(z) {
            assert(s.filter(p) == f.push(z));
            assert(f.push(z).drop_last() =~= f);
            if has_thread(t, z.thread_id) {
                let k = choose|k: int|
                    0 <= k < t.len() && (#[trigger] t[k]).thread_id == z.thread_id;
                assert(p(t[k]) == p(z));
                assert(t.contains(t[k]));
                lemma_filter_members(t, p, t[k]);
                assert(f[f.index_of(t[k])].thread_id == z.thread_id);
            }
            if has_thread(f, z.thread_id) {
                let k = choose|k: int|
                    0 <= k < f.len() && (#[trigger] f[k]).thread_id == z.thread_id;
                assert(f.contains(f[k]));
                lemma_filter_members(t, p, f[k]);
                assert(t[t.index_of(f[k])].thread_id == z.thread_id);
            }
        }
    }
}

proof fn lemma_heads_of_singles(s: Seq<EmailV>)
    requires
        forall|i: int, j: int|
            0 <= i < j < s.len() ==> (#[trigger] s[i]).thread_id != (#[trigger] s[j]).thread_id,
    ensures
        thread_heads(s) == s,
    decreases s.len(),
{
    if s.len() > 0 {
        let t = s.drop_last();
        assert forall|i: int, j: int| 0 <= i < j < t.len() implies (#[trigger] t[i]).thread_id != (
        #[trigger] t[j]).thread_id by {
            assert(t[i] == s[i] && t[j] == s[j]);
        }
        lemma_heads_of_singles(t);
        if has_thread(t, s.last().thread_id) {
            let k = choose|k: int|
                0 <= k < t.len() && (#[trigger] t[k]).thread_id == s.last().thread_id;
            assert(s[k].thread_id != s[s.len() - 1].thread_id);
        }
        assert(t.push(s.last()) =~= s);
    }
}

/// The messages of threads are as many as the threads hold.
proof fn lemma_sizes_add_up(s: AppV, heads: Seq<EmailV>)
    requires
        forall|i: int, j: int|
            0 <= i < j < heads.len() ==> (#[trigger] heads[i]).thread_id != (
            #[trigger] heads[j]).thread_id,
        forall|k: int|
            0 <= k < heads.len() ==> thread_size(s.emails, (#[trigger] heads[k]).thread_id) > 0,
    ensures
        s.emails.filter(in_threads_of(heads)).len() == s.counted_sizes(heads),
    decreases heads.len(),
{
    let p = in_threads_of(heads);
    if heads.len() == 0 {
        if s.emails.filter(p).len() > 0 {
            let e = s.emails.filter(p)[0];
            assert(s.emails.filter(p).contains(e));
            lemma_filter_members(s.emails, p, e);
        }
    } else {
        let rest = heads.drop_last();
        let last = heads.last();
        assert(heads[heads.len() - 1] == last);
        assert forall|i: int, j: int| 0 <= i < j < rest.len() implies (
        #[trigger] rest[i]).thread_id != (#[trigger] rest[j]).thread_id by {
            assert(rest[i] == heads[i] && rest[j] == heads[j]);
        }
        assert forall|k: int| 0 <= k < rest.len() implies thread_size(
            s.emails,
            (#[trigger] rest[k]).thread_id,
        ) > 0 by {
            assert(rest[k] == heads[k]);
        }
        lemma_sizes_add_up(s, rest);
        let a = in_threads_of(rest);
        let b = in_thread(last.thread_id);
        assert forall|e: EmailV| #[trigger] p(e) == (a(e) || b(e)) by {
            if p(e) {
                let k = choose|k: int|
                    0 <= k < heads.len() && (#[trigger] heads[k]).thread_id == e.thread_id;
                if k < rest.len() {
                    assert(rest[k].thread_id == e.thread_id);
                }
            }
            if a(e) {
                let k = choose|k: int|
                    0 <= k < rest.len() && (#[trigger] rest[k]).thread_id == e.thread_id;
                assert(heads[k].thread_id == e.thread_id);
            }
        }
        assert forall|e: EmailV| !(#[trigger] a(e) && b(e)) by {
            if a(e) && b(e) {
                let k = choose|k: int|
                    0 <= k < rest.len() && (#[trigger] rest[k]).thread_id == e.thread_id;
                assert(heads[k].thread_id != heads[heads.len() - 1].thread_id);
            }
        }
        lemma_filter_sum(s.emails, p, a, b);
    }
}

// ---------------------------------------------------------------------------
// Laws

/// Whether no group holds more messages of a thread than there are.
pub open spec fn in_step(s: AppV) -> bool {
    forall|i: int, thread_id: Seq<char>|
        0 <= i < s.groups.len() ==> #[trigger] thread_size(s.groups[i].emails, thread_id)
            <= thread_size(s.emails, thread_id)
}

proof fn lemma_same_threads(s: Seq<EmailV>, at: int, e: EmailV, thread_id: Seq<char>)
    requires
        0 <= at < s.len(),
        e.thread_id == s[at].thread_id,
    ensures
        thread_size(s.update(at, e), thread_id) == thread_size(s, thread_id),
    decreases s.len(),
{
    let p = in_thread(thread_id);
    let t = s.drop_last();
    let u = s.update(at, e);
    assert(s =~= t.push(s.last()));
    t.lemma_filter_push(s.last(), p);
    if at == s.len() - 1 {
        assert(u =~= t.push(e));
        t.lemma_filter_push(e, p);
    } else {
        lemma_same_threads(t, at, e, thread_id);
        assert(u =~= t.update(at, e).push(s.last()));
        t.update(at, e).lemma_filter_push(s.last(), p);
    }
}

/// A position of an id lies in the list, or at its end.
pub proof fn lemma_id_position(s: Seq<EmailV>, id: Seq<char>, from: int)
    requires
        0 <= from <= s.len(),
    ensures
        from <= id_position(s, id, from) <= s.len(),
    decreases s.len() - from,
{
    if from < s.len() && s[from].id != id {
        lemma_id_position(s, id, from + 1);
    }
}

/// The groups hold no more messages of a thread than there are: so it is at the start,
/// whenever the messages are grouped anew and as long as the groups are those of the
/// messages. Keeping a body does not change it, nor does what leaves messages and groups
/// alone.
pub proof fn law_groups_stay_in_step(s: AppV, id: Seq<char>, body: Seq<char>, other: AppV)
    ensures
        in_step(AppV::initial()),
        in_step(s.regrouped()),
        s.groups == grouping(s.emails, s.user_email, s.group_mode) ==> in_step(s),
        in_step(s) ==> in_step(s.with_body(id, body)),
        in_step(s) && other.emails == s.emails && other.groups == s.groups ==> in_step(other),
{
    let t = s.regrouped();
    assert forall|i: int, thread_id: Seq<char>| 0 <= i < t.groups.len() implies #[trigger]
        thread_size(t.groups[i].emails, thread_id) <= thread_size(t.emails, thread_id) by {
        let g = t.groups[i];
        let p = belongs(s.user_email, s.group_mode, g.key);
        let q = in_thread(thread_id);
        let own = s.emails.filter(p);
        assert(t.groups.contains(g));
        law_groups_are_the_senders(s.emails, s.user_email, s.group_mode, g);
        law_newest_first(own, g.emails[0]);
        lemma_filter_multiset(g.emails, q);
        lemma_filter_multiset(own, q);
        g.emails.filter(q).to_multiset_ensures();
        own.filter(q).to_multiset_ensures();
        lemma_part_of_thread(s.emails, p, thread_id);
    }
    if s.groups == t.groups {
        assert forall|i: int, thread_id: Seq<char>| 0 <= i < s.groups.len() implies #[trigger]
            thread_size(s.groups[i].emails, thread_id) <= thread_size(s.emails, thread_id) by {
            assert(thread_size(t.groups[i].emails, thread_id) <= thread_size(t.emails, thread_id));
        }
    }
    if in_step(s) {
        assert forall|i: int, thread_id: Seq<char>|
            0 <= i < other.groups.len() && other.emails == s.emails && other.groups
                == s.groups implies #[trigger] thread_size(other.groups[i].emails, thread_id)
            <= thread_size(other.emails, thread_id) by {
            assert(thread_size(s.groups[i].emails, thread_id) <= thread_size(s.emails, thread_id));
        }
        let u = s.with_body(id, body);
        let at = id_position(s.emails, id, 0);
        lemma_id_position(s.emails, id, 0);
        assert forall|i: int, thread_id: Seq<char>| 0 <= i < u.groups.len() implies #[trigger]
            thread_size(u.groups[i].emails, thread_id) <= thread_size(u.emails, thread_id) by {
            assert(thread_size(s.groups[i].emails, thread_id) <= thread_size(s.emails, thread_id));
            if at < s.emails.len() {
                lemma_same_threads(s.emails, at, u.emails[at], thread_id);
            }
        }
    }
}

proof fn lemma_passing_goes_by_thread(s: AppV)
    ensures
        forall|a: EmailV, b: EmailV|
            a.thread_id == b.thread_id ==> #[trigger] s.passing()(a) == #[trigger] s.passing()(b),
{
}

/// The number of threads of a group is the number of threads in its list, where no text is
/// searched for.
pub proof fn law_thread_count_is_that_of_the_list(s: AppV, g: GroupV)
    requires
        in_step(s),
        s.text_filter is None,
        s.current_group() == Some(g),
    ensures
        s.shown_thread_count(g) == s.filtered_threads().len(),
{
    let p = s.passing();
    lemma_filter_alike(thread_heads(g.emails), s.shown(), p);
    lemma_passing_goes_by_thread(s);
    lemma_heads_of_filtered(g.emails, p);
    if s.thread_filter == ThreadFilter::NoThreads {
        let f = g.emails.filter(p);
        assert forall|i: int, j: int| 0 <= i < j < f.len() implies (#[trigger] f[i]).thread_id != (
        #[trigger] f[j]).thread_id by {
            if f[i].thread_id == f[j].thread_id {
                let id = f[i].thread_id;
                lemma_two_of_thread(f, i, j);
                lemma_part_of_thread(g.emails, p, id);
                assert(thread_size(s.groups[s.selected_group as int].emails, id) <= thread_size(
                    s.emails,
                    id,
                ));
                assert(f.contains(f[i]));
                lemma_filter_members(g.emails, p, f[i]);
            }
        }
        lemma_heads_of_singles(f);
    }
}

/// The number of messages in the threads of a group is the number of messages that acting on
/// the group acts on, whoever sent them, where no text is searched for.
pub proof fn law_email_count_is_that_of_the_action(s: AppV, g: GroupV)
    requires
        in_step(s),
        s.text_filter is None,
        s.current_group() == Some(g),
    ensures
        s.shown_thread_email_count(g) == s.group_thread_emails().len(),
        s.shown_thread_email_count(g) == ids_and_folders(s.group_thread_emails()).len(),
{
    let p = s.passing();
    let f = g.emails.filter(p);
    let heads = thread_heads(f);
    lemma_filter_alike(g.emails, s.shown(), p);
    lemma_thread_heads(f);
    assert forall|k: int| 0 <= k < heads.len() implies thread_size(
        s.emails,
        (#[trigger] heads[k]).thread_id,
    ) > 0 by {
        let id = heads[k].thread_id;
        assert(f.contains(heads[k]));
        lemma_filter_members(g.emails, p, heads[k]);
        lemma_one_of_thread(g.emails, g.emails.index_of(heads[k]));
        assert(thread_size(s.groups[s.selected_group as int].emails, id) <= thread_size(
            s.emails,
            id,
        ));
    }
    lemma_sizes_add_up(s, heads);
    assert forall|e: EmailV| #[trigger] in_threads_of(heads)(e) == in_threads_of(f)(e) by {
        lemma_heads_have_threads(f, e.thread_id);
    }
    lemma_filter_alike(s.emails, in_threads_of(heads), in_threads_of(f));
}

} // verus!
