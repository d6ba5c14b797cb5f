//! Lists of messages: picking and ordering them.
use vstd::hash_set::StringHashSet;
use vstd::prelude::*;

use crate::email::{mail_refs, mails, Email, EmailV};
use crate::order::{lemma_put_place, lemma_put_step, ordered, put, text_less};
use crate::text::to_chars;

verus! {

broadcast use vstd::seq_lib::group_seq_properties;

// ---------------------------------------------------------------------------
// Picking

/// The messages at some positions of a list.
pub open spec fn picked(all: Seq<EmailV>, at: Seq<usize>) -> Seq<EmailV> {
    Seq::new(at.len(), |k: int| all[at[k] as int])
}

/// Whether positions lie inside a list.
pub open spec fn in_bounds(at: Seq<usize>, n: nat) -> bool {
    forall|k: int| 0 <= k < at.len() ==> (#[trigger] at[k]) < n
}

/// The messages of one thread.
pub open spec fn in_thread(thread_id: Seq<char>) -> spec_fn(EmailV) -> bool {
    |e: EmailV| e.thread_id == thread_id
}

/// Whether some message of a list belongs to a thread.
pub open spec fn has_thread(s: Seq<EmailV>, thread_id: Seq<char>) -> bool {
    exists|k: int| 0 <= k < s.len() && (#[trigger] s[k]).thread_id == thread_id
}

/// The threads that some messages belong to.
pub open spec fn thread_ids(s: Seq<EmailV>) -> Set<Seq<char>> {
    Set::new(|t: Seq<char>| has_thread(s, t))
}

/// The messages of the threads that the messages of a list belong to.
pub open spec fn in_threads_of(s: Seq<EmailV>) -> spec_fn(EmailV) -> bool {
    |e: EmailV| has_thread(s, e.thread_id)
}

/// The number of messages in a thread.
pub open spec fn thread_size(s: Seq<EmailV>, thread_id: Seq<char>) -> nat {
    s.filter(in_thread(thread_id)).len()
}

/// The first message of each thread, in order.
pub open spec fn thread_heads(s: Seq<EmailV>) -> Seq<EmailV>
    decreases s.len(),
{
    if s.len() == 0 {
        s
    } else if has_thread(s.drop_last(), s.last().thread_id) {
        thread_heads(s.drop_last())
    } else {
        thread_heads(s.drop_last()).push(s.last())
    }
}

/// One more message seen by a filter.
pub proof fn lemma_filter_step<A>(s: Seq<A>, p: spec_fn(A) -> bool, i: int)
    requires
        0 <= i < s.len(),
    ensures
        s.take(i + 1).filter(p) == if p(s[i]) {
            s.take(i).filter(p).push(s[i])
        } else {
            s.take(i).filter(p)
        },
{
    assert(s.take(i + 1) =~= s.take(i).push(s[i]));
    s.take(i).lemma_filter_push(s[i], p);
}

/// The messages of a list, borrowed.
pub fn borrowed(emails: &Vec<Email>) -> (r: Vec<&Email>)
    ensures
        mail_refs(r@) == mails(emails@),
{
    let mut r: Vec<&Email> = Vec::new();
    for i in 0..emails.len()
        invariant
            r@.len() == i,
            forall|k: int| 0 <= k < i ==> (#[trigger] r@[k])@ == emails@[k]@,
    {
        r.push(&emails[i]);
    }
    assert(mail_refs(r@) =~= mails(emails@));
    r
}

/// The first message of each thread.
pub fn heads<'a>(emails: &Vec<&'a Email>) -> (r: Vec<&'a Email>)
    ensures
        mail_refs(r@) == thread_heads(mail_refs(emails@)),
{
    let ghost all = mail_refs(emails@);
    let mut seen: StringHashSet = StringHashSet::new();
    let mut r: Vec<&'a Email> = Vec::new();
    let mut i: usize = 0;
    assert(mail_refs(r@) =~= thread_heads(all.take(0)));
    while i < emails.len()
        invariant
            i <= emails@.len(),
            all == mail_refs(emails@),
            mail_refs(r@) == thread_heads(all.take(i as int)),
            forall|t: Seq<char>| #[trigger]
                seen@.contains(t) <==> has_thread(all.take(i as int), t),
        decreases emails@.len() - i,
    {
        let ghost short = all.take(i as int);
        let ghost long = all.take(i + 1);
        let ghost r0 = r@;
        let ghost seen0 = seen@;
        proof {
            assert(long.drop_last() =~= short);
            assert(long.last() == emails@[i as int]@);
        }
        let fresh: bool = seen.insert(emails[i].thread_id.clone());
        if fresh {
            r.push(emails[i]);
            assert(mail_refs(r@) =~= mail_refs(r0).push(all[i as int]));
        }
        proof {
            assert forall|t: Seq<char>| #[trigger]
                seen@.contains(t) <==> has_thread(long, t) by {
                if has_thread(short, t) {
                    let k = choose|k: int| 0 <= k < short.len() && (#[trigger] short[k]).thread_id == t;
                    assert(long[k].thread_id == t);
                }
                if has_thread(long, t) {
                    let k = choose|k: int| 0 <= k < long.len() && (#[trigger] long[k]).thread_id == t;
                    if k < i {
                        assert(short[k].thread_id == t);
                    }
                }
                assert(long[i as int].thread_id == emails@[i as int].thread_id@);
                assert(seen@.contains(t) <==> seen0.contains(t) || t
                    == emails@[i as int].thread_id@);
            }
        }
        i += 1;
    }
    assert(all.take(i as int) =~= all);
    r
}

/// The threads that some messages belong to.
pub fn collect_thread_ids(emails: &Vec<&Email>) -> (ids: StringHashSet)
    ensures
        ids@ =~= thread_ids(mail_refs(emails@)),
{
    let ghost all = mail_refs(emails@);
    let mut ids: StringHashSet = StringHashSet::new();
    let mut i: usize = 0;
    while i < emails.len()
        invariant
            i <= emails@.len(),
            all == mail_refs(emails@),
            forall|t: Seq<char>| #[trigger]
                ids@.contains(t) <==> exists|k: int|
                    0 <= k < i && (#[trigger] all[k]).thread_id == t,
        decreases emails@.len() - i,
    {
        let ghost before = ids@;
        assert(all[i as int].thread_id == emails@[i as int].thread_id@);
        ids.insert(emails[i].thread_id.clone());
        proof {
            assert forall|t: Seq<char>| #[trigger]
                ids@.contains(t) <==> exists|k: int|
                    0 <= k < i + 1 && (#[trigger] all[k]).thread_id == t by {
                assert(ids@.contains(t) <==> before.contains(t) || t
                    == all[i as int].thread_id);
            }
        }
        i += 1;
    }
    ids
}

// ---------------------------------------------------------------------------
// Newest first

/// Whether one message is newer than another.
pub open spec fn newer() -> spec_fn(EmailV, EmailV) -> bool {
    |a: EmailV, b: EmailV| a.date.is_after(b.date)
}

/// The messages from the newest to the oldest; those of one instant keep their order.
pub open spec fn newest_first(s: Seq<EmailV>) -> Seq<EmailV> {
    ordered(newer(), s)
}

/// The place of a message among messages that are in order.
fn place_of(emails: &Vec<Email>, r: &Vec<usize>, p: usize) -> (pos: usize)
    requires
        in_bounds(r@, emails@.len()),
        p < emails@.len(),
    ensures
        pos <= r@.len(),
        put(newer(), picked(mails(emails@), r@), mails(emails@)[p as int]) == picked(
            mails(emails@),
            r@,
        ).insert(pos as int, mails(emails@)[p as int]),
{
    let ghost s = picked(mails(emails@), r@);
    let ghost e = mails(emails@)[p as int];
    let mut pos: usize = r.len();
    proof {
        assert(s.take(s.len() as int) =~= s);
        assert(put(newer(), s, e) + s.skip(s.len() as int) =~= put(newer(), s, e));
    }
    while pos > 0 && emails[p].date.after(&emails[r[pos - 1]].date)
        invariant
            pos <= r@.len(),
            p < emails@.len(),
            s == picked(mails(emails@), r@),
            e == mails(emails@)[p as int],
            in_bounds(r@, emails@.len()),
            put(newer(), s, e) == put(newer(), s.take(pos as int), e) + s.skip(pos as int),
        decreases pos,
    {
        proof {
            assert(s[pos - 1] == emails@[r@[pos - 1] as int]@);
            lemma_put_step(newer(), s, e, pos as int);
        }
        pos -= 1;
    }
    proof {
        if pos > 0 {
            assert(s[pos - 1] == emails@[r@[pos - 1] as int]@);
        }
        lemma_put_place(newer(), s, e, pos as int);
    }
    pos
}

/// The positions ordered so that the newest message comes first.
pub fn order_newest_first(emails: &Vec<Email>, at: &Vec<usize>) -> (r: Vec<usize>)
    requires
        in_bounds(at@, emails@.len()),
    ensures
        in_bounds(r@, emails@.len()),
        picked(mails(emails@), r@) == newest_first(picked(mails(emails@), at@)),
{
    let ghost all = mails(emails@);
    let ghost input = picked(all, at@);
    let mut r: Vec<usize> = Vec::new();
    let mut i: usize = 0;
    assert(picked(all, r@) =~= newest_first(input.take(0)));
    while i < at.len()
        invariant
            i <= at@.len(),
            all == mails(emails@),
            input == picked(all, at@),
            in_bounds(at@, emails@.len()),
            in_bounds(r@, emails@.len()),
            picked(all, r@) == newest_first(input.take(i as int)),
        decreases at@.len() - i,
    {
        let pos: usize = place_of(emails, &r, at[i]);
        let ghost s = picked(all, r@);
        let ghost e = all[at@[i as int] as int];
        let ghost r0 = r@;
        r.insert(pos, at[i]);
        proof {
            assert(input.take(i + 1).drop_last() =~= input.take(i as int));
            assert(input.take(i + 1).last() == e);
            assert(picked(all, r@) =~= s.insert(pos as int, e));
            assert forall|k: int| 0 <= k < r@.len() implies (#[trigger] r@[k]) < emails@.len() by {
                if k < pos {
                    assert(r@[k] == r0[k]);
                } else if k > pos {
                    assert(r@[k] == r0[k - 1]);
                }
            }
        }
        i += 1;
    }
    assert(input.take(i as int) =~= input);
    r
}

// ---------------------------------------------------------------------------
// Order of texts

/// Whether `a` comes before `b` in the order of code points.
pub fn less(a: &str, b: &str) -> (r: bool)
    ensures
        r == text_less(a@, b@),
{
    let x: Vec<char> = to_chars(a);
    let y: Vec<char> = to_chars(b);
    let mut i: usize = 0;
    assert(a@.skip(0) =~= a@ && b@.skip(0) =~= b@);
    while i < x.len() && i < y.len()
        invariant
            x@ == a@,
            y@ == b@,
            i <= x@.len(),
            i <= y@.len(),
            text_less(a@, b@) == text_less(a@.skip(i as int), b@.skip(i as int)),
        decreases x@.len() - i,
    {
        assert(a@.skip(i as int).drop_first() =~= a@.skip(i + 1));
        assert(b@.skip(i as int).drop_first() =~= b@.skip(i + 1));
        if x[i] != y[i] {
            return x[i] < y[i];
        }
        i += 1;
    }
    i < y.len()
}

} // verus!
