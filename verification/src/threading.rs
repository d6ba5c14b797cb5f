//! Conversations: messages tied together by their headers.
//!
//! Two messages are linked when one names the other's Message-ID, or when both name
//! the same Message-ID, present or not. A thread is a class of the smallest
//! equivalence that holds every link, and it is called after its first message.
use vstd::hash_map::StringHashMap;
use vstd::prelude::*;

use crate::email::{mails, Email, EmailV};
use crate::text::{decimal, law_decimal_reads_back, push_decimal};

verus! {

/// Whether a message names `key` in its In-Reply-To or References header.
pub open spec fn refers_to(e: EmailV, key: Seq<char>) -> bool {
    e.in_reply_to == Some(key) || e.references.contains(key)
}

/// Whether message `j`, of the first `n`, is the last that carries `key`.
pub open spec fn carries_below(emails: Seq<EmailV>, n: int, j: int, key: Seq<char>) -> bool {
    &&& 0 <= j < n
    &&& emails[j].message_id == Some(key)
    &&& forall|k: int| j < k < n ==> (#[trigger] emails[k]).message_id != Some(key)
}

/// Whether message `j` is the one that `key` stands for: the last that carries it.
pub open spec fn carries(emails: Seq<EmailV>, j: int, key: Seq<char>) -> bool {
    carries_below(emails, emails.len() as int, j, key)
}

/// Whether messages `i` and `j` are tied by a `key` that `i` names.
pub open spec fn linked_by(emails: Seq<EmailV>, i: int, j: int, key: Seq<char>) -> bool {
    &&& 0 <= i < emails.len()
    &&& 0 <= j < emails.len()
    &&& refers_to(emails[i], key)
    &&& carries(emails, j, key) || refers_to(emails[j], key)
}

/// Whether a labelling of the messages gives linked messages the same label.
pub open spec fn respects_links(emails: Seq<EmailV>, label: spec_fn(int) -> int) -> bool {
    forall|i: int, j: int, key: Seq<char>| #[trigger]
        linked_by(emails, i, j, key) ==> label(i) == label(j)
}

/// Whether two messages belong to one thread: every labelling that respects the links
/// gives them the same label.
pub open spec fn same_thread(emails: Seq<EmailV>, i: int, j: int) -> bool {
    forall|label: spec_fn(int) -> int| #[trigger]
        respects_links(emails, label) ==> label(i) == label(j)
}

/// The first message, from `from` on, in the thread of message `i`.
pub open spec fn first_in_thread(emails: Seq<EmailV>, i: int, from: int) -> int
    decreases i - from,
{
    if from >= i || same_thread(emails, from, i) {
        from
    } else {
        first_in_thread(emails, i, from + 1)
    }
}

/// The name of the thread whose first message is at `root`.
pub open spec fn thread_name(root: int) -> Seq<char> {
    "thread_"@ + decimal(root as nat)
}

/// The messages with their thread names filled in.
pub open spec fn with_thread_ids(emails: Seq<EmailV>) -> Seq<EmailV> {
    Seq::new(
        emails.len(),
        |i: int|
            EmailV { thread_id: thread_name(first_in_thread(emails, i, 0)), ..emails[i] },
    )
}

// ---------------------------------------------------------------------------
// The forest of parents

/// A forest over `0..len`: every parent lies at or before its child.
pub open spec fn is_forest(parent: Seq<usize>) -> bool {
    forall|i: int| 0 <= i < parent.len() ==> (#[trigger] parent[i]) <= i
}

/// The root above `i`.
pub open spec fn root(parent: Seq<usize>, i: int) -> int
    decreases i,
{
    if 0 <= i < parent.len() && parent[i] < i {
        root(parent, parent[i] as int)
    } else {
        i
    }
}

/// Follows the parents of `i` up to the root.
pub fn find(parent: &Vec<usize>, i: usize) -> (r: usize)
    requires
        is_forest(parent@),
        i < parent@.len(),
    ensures
        r == root(parent@, i as int),
        r <= i,
        parent@[r as int] == r,
{
    let mut at: usize = i;
    while parent[at] != at
        invariant
            is_forest(parent@),
            at <= i < parent@.len(),
            root(parent@, at as int) == root(parent@, i as int),
        decreases at,
    {
        at = parent[at];
    }
    at
}

proof fn lemma_root_is_fixed(parent: Seq<usize>, i: int)
    requires
        is_forest(parent),
        0 <= i < parent.len(),
    ensures
        0 <= root(parent, i) <= i,
        parent[root(parent, i)] == root(parent, i),
    decreases i,
{
    if parent[i] < i {
        lemma_root_is_fixed(parent, parent[i] as int);
    }
}

proof fn lemma_root_after_graft(parent: Seq<usize>, lo: int, hi: int, a: int)
    requires
        is_forest(parent),
        0 <= lo < hi < parent.len(),
        parent[lo] == lo,
        parent[hi] == hi,
        0 <= a < parent.len(),
    ensures
        root(parent.update(hi, lo as usize), a) == if root(parent, a) == hi {
            lo
        } else {
            root(parent, a)
        },
    decreases a,
{
    let next = parent.update(hi, lo as usize);
    if a == hi {
        assert(next[lo] == lo);
        assert(root(next, lo) == lo);
    } else if parent[a] < a {
        lemma_root_after_graft(parent, lo, hi, parent[a] as int);
    }
}

/// The forest after the trees of `i` and `j` are joined under the smaller root.
pub open spec fn joined(parent: Seq<usize>, i: int, j: int) -> Seq<usize> {
    let ri = root(parent, i);
    let rj = root(parent, j);
    if ri < rj {
        parent.update(rj, ri as usize)
    } else if rj < ri {
        parent.update(ri, rj as usize)
    } else {
        parent
    }
}

/// The root above `a` after the trees of `i` and `j` are joined.
pub open spec fn joined_root(parent: Seq<usize>, i: int, j: int, a: int) -> int {
    let ri = root(parent, i);
    let rj = root(parent, j);
    if root(parent, a) == ri || root(parent, a) == rj {
        if ri < rj {
            ri
        } else {
            rj
        }
    } else {
        root(parent, a)
    }
}

/// Joins the trees of `i` and `j`; the smaller root stays a root.
pub fn union(parent: &mut Vec<usize>, i: usize, j: usize)
    requires
        is_forest(old(parent)@),
        i < old(parent)@.len(),
        j < old(parent)@.len(),
    ensures
        is_forest(final(parent)@),
        final(parent)@.len() == old(parent)@.len(),
        forall|a: int|
            0 <= a < old(parent)@.len() ==> #[trigger] root(final(parent)@, a) == joined_root(
                old(parent)@,
                i as int,
                j as int,
                a,
            ),
        final(parent)@ == joined(old(parent)@, i as int, j as int),
{
    let ghost before = parent@;
    let root_i: usize = find(parent, i);
    let root_j: usize = find(parent, j);
    if root_i != root_j {
        let (lo, hi): (usize, usize) = if root_i < root_j {
            (root_i, root_j)
        } else {
            (root_j, root_i)
        };
        parent.set(hi, lo);
        proof {
            assert forall|a: int| 0 <= a < before.len() implies #[trigger] root(parent@, a)
                == joined_root(before, i as int, j as int, a) by {
                lemma_root_after_graft(before, lo as int, hi as int, a);
            }
        }
    }
}

// ---------------------------------------------------------------------------
// Building the forest from the headers

/// Every tree edge joins messages of one thread.
spec fn is_sound(emails: Seq<EmailV>, parent: Seq<usize>) -> bool {
    forall|label: spec_fn(int) -> int, i: int| #![trigger respects_links(emails, label), parent[i]]
        respects_links(emails, label) && 0 <= i < parent.len() ==> label(i) == label(
            parent[i] as int,
        )
}

proof fn lemma_label_of_root(
    emails: Seq<EmailV>,
    parent: Seq<usize>,
    label: spec_fn(int) -> int,
    i: int,
)
    requires
        is_forest(parent),
        is_sound(emails, parent),
        respects_links(emails, label),
        0 <= i < parent.len(),
    ensures
        label(i) == label(root(parent, i)),
    decreases i,
{
    assert(label(i) == label(parent[i] as int));
    if parent[i] < i {
        lemma_label_of_root(emails, parent, label, parent[i] as int);
    }
}

/// Joining two linked messages keeps every edge inside a thread.
proof fn lemma_union_is_sound(
    emails: Seq<EmailV>,
    before: Seq<usize>,
    after: Seq<usize>,
    i: int,
    j: int,
    key: Seq<char>,
)
    requires
        is_forest(before),
        is_sound(emails, before),
        before.len() == emails.len(),
        linked_by(emails, i, j, key),
        after == joined(before, i, j),
    ensures
        is_sound(emails, after),
{
    assert forall|label: spec_fn(int) -> int, a: int|
        #![trigger respects_links(emails, label), after[a]]
        respects_links(emails, label) && 0 <= a < after.len() implies label(a) == label(
        after[a] as int,
    ) by {
        assert(label(i) == label(j));
        lemma_label_of_root(emails, before, label, i);
        lemma_label_of_root(emails, before, label, j);
        lemma_root_is_fixed(before, i);
        lemma_root_is_fixed(before, j);
        assert(label(a) == label(before[a] as int));
    }
}

/// What is known once message `i` has been joined with all that `key` ties it to.
spec fn is_tied(
    parent: Seq<usize>,
    first: Map<Seq<char>, usize>,
    by_id: Map<Seq<char>, usize>,
    i: int,
    key: Seq<char>,
) -> bool {
    &&& first.contains_key(key)
    &&& root(parent, first[key] as int) == root(parent, i)
    &&& by_id.contains_key(key) ==> root(parent, by_id[key] as int) == root(parent, i)
}

spec fn is_index_of_ids(emails: Seq<EmailV>, by_id: Map<Seq<char>, usize>) -> bool {
    &&& forall|key: Seq<char>| #[trigger]
        by_id.contains_key(key) ==> carries(emails, by_id[key] as int, key)
    &&& forall|j: int, key: Seq<char>| #[trigger]
        carries(emails, j, key) ==> by_id.contains_key(key) && by_id[key] == j
}

spec fn is_index_of_references(emails: Seq<EmailV>, first: Map<Seq<char>, usize>) -> bool {
    forall|key: Seq<char>| #[trigger]
        first.contains_key(key) ==> first[key] < emails.len() && refers_to(
            emails[first[key] as int],
            key,
        )
}

/// Joins message `i` with the message that carries `key` and with the first that names it.
fn tie(
    parent: &mut Vec<usize>,
    first: &mut StringHashMap<usize>,
    by_id: &StringHashMap<usize>,
    i: usize,
    key: &String,
    Ghost(emails): Ghost<Seq<EmailV>>,
)
    requires
        is_forest(old(parent)@),
        is_sound(emails, old(parent)@),
        old(parent)@.len() == emails.len(),
        i < emails.len(),
        refers_to(emails[i as int], key@),
        is_index_of_ids(emails, by_id@),
        is_index_of_references(emails, old(first)@),
    ensures
        is_forest(final(parent)@),
        is_sound(emails, final(parent)@),
        final(parent)@.len() == emails.len(),
        is_index_of_references(emails, final(first)@),
        is_tied(final(parent)@, final(first)@, by_id@, i as int, key@),
        forall|a: int, k: Seq<char>|
            0 <= a < emails.len() && is_tied(old(parent)@, old(first)@, by_id@, a, k)
                ==> #[trigger] is_tied(final(parent)@, final(first)@, by_id@, a, k),
{
    let ghost parent0 = parent@;
    match by_id.get(key.as_str()) {
        Some(j) => {
            proof {
                assert(by_id@.contains_key(key@));
                assert(linked_by(emails, i as int, *j as int, key@));
            }
            union(parent, i, *j);
            proof {
                lemma_union_is_sound(emails, parent0, parent@, i as int, *j as int, key@);
            }
        },
        None => {},
    }
    let ghost parent1 = parent@;
    proof {
        assert forall|a: int, k: Seq<char>|
            0 <= a < emails.len() && is_tied(parent0, first@, by_id@, a, k) implies #[trigger] is_tied(
            parent1,
            first@,
            by_id@,
            a,
            k,
        ) by {
            assert(first@[k] < emails.len());
            if by_id@.contains_key(k) {
                assert(carries(emails, by_id@[k] as int, k));
            }
        }
    }
    match first.get(key.as_str()) {
        Some(f) => {
            let f: usize = *f;
            proof {
                assert(first@.contains_key(key@));
                assert(linked_by(emails, f as int, i as int, key@));
            }
            union(parent, f, i);
            proof {
                lemma_union_is_sound(emails, parent1, parent@, f as int, i as int, key@);
                assert forall|a: int, k: Seq<char>|
                    0 <= a < emails.len() && is_tied(
                        parent1,
                        first@,
                        by_id@,
                        a,
                        k,
                    ) implies #[trigger] is_tied(parent@, first@, by_id@, a, k) by {
                    assert(first@[k] < emails.len());
                    if by_id@.contains_key(k) {
                        assert(carries(emails, by_id@[k] as int, k));
                    }
                }
                if by_id@.contains_key(key@) {
                    assert(carries(emails, by_id@[key@] as int, key@));
                }
            }
        },
        None => {
            first.insert(key.clone(), i);
        },
    }
}

/// The message that each Message-ID stands for.
fn index_ids(emails: &Vec<Email>) -> (by_id: StringHashMap<usize>)
    ensures
        is_index_of_ids(mails(emails@), by_id@),
{
    let ghost all = mails(emails@);
    let mut by_id: StringHashMap<usize> = StringHashMap::new();
    let mut i: usize = 0;
    while i < emails.len()
        invariant
            i <= emails@.len(),
            all == mails(emails@),
            forall|key: Seq<char>| #[trigger]
                by_id@.contains_key(key) ==> carries_below(all, i as int, by_id@[key] as int, key),
            forall|j: int, key: Seq<char>| #[trigger]
                carries_below(all, i as int, j, key) ==> by_id@.contains_key(key) && by_id@[key]
                    == j,
        decreases emails@.len() - i,
    {
        let ghost before = by_id@;
        assert(all[i as int] == emails@[i as int]@);
        match &emails[i].message_id {
            Some(id) => {
                by_id.insert(id.clone(), i);
            },
            None => {},
        }
        proof {
            assert forall|key: Seq<char>| #[trigger] by_id@.contains_key(key) implies carries_below(
                all,
                i + 1,
                by_id@[key] as int,
                key,
            ) by {
                if all[i as int].message_id != Some(key) {
                    assert(before.contains_key(key));
                }
            }
            assert forall|j: int, key: Seq<char>| #[trigger]
                carries_below(all, i + 1, j, key) implies by_id@.contains_key(key) && by_id@[key]
                == j by {
                if j < i {
                    assert(all[i as int].message_id != Some(key));
                    assert(carries_below(all, i as int, j, key));
                }
            }
        }
        i += 1;
    }
    by_id
}

/// Names the thread of each message after the first message of the thread.
pub fn build_thread_ids(emails: &mut Vec<Email>)
    ensures
        mails(final(emails)@) == with_thread_ids(mails(old(emails)@)),
{
    let ghost all = mails(emails@);
    let n: usize = emails.len();
    let by_id: StringHashMap<usize> = index_ids(emails);
    let mut first: StringHashMap<usize> = StringHashMap::new();
    let mut parent: Vec<usize> = Vec::new();
    for i in 0..n
        invariant
            parent@.len() == i,
            forall|k: int| 0 <= k < i ==> parent@[k] == k,
    {
        parent.push(i);
    }
    for i in 0..n
        invariant
            n == emails@.len() == all.len() == parent@.len(),
            all == mails(emails@),
            is_forest(parent@),
            is_sound(all, parent@),
            is_index_of_ids(all, by_id@),
            is_index_of_references(all, first@),
            forall|a: int, k: Seq<char>|
                0 <= a < i && refers_to(all[a], k) ==> #[trigger] is_tied(
                    parent@,
                    first@,
                    by_id@,
                    a,
                    k,
                ),
    {
        let email: &Email = &emails[i];
        assert(all[i as int] == email@);
        match &email.in_reply_to {
            Some(key) => {
                tie(&mut parent, &mut first, &by_id, i, key, Ghost(all));
            },
            None => {},
        }
        for r in 0..email.references.len()
            invariant
                i < n == emails@.len() == all.len() == parent@.len(),
                all[i as int] == email@,
                is_forest(parent@),
                is_sound(all, parent@),
                is_index_of_ids(all, by_id@),
                is_index_of_references(all, first@),
                forall|a: int, k: Seq<char>|
                    0 <= a < i && refers_to(all[a], k) ==> #[trigger] is_tied(
                        parent@,
                        first@,
                        by_id@,
                        a,
                        k,
                    ),
                forall|k: Seq<char>|
                    all[i as int].in_reply_to == Some(k) ==> #[trigger] is_tied(
                        parent@,
                        first@,
                        by_id@,
                        i as int,
                        k,
                    ),
                forall|q: int|
                    0 <= q < r ==> #[trigger] is_tied(
                        parent@,
                        first@,
                        by_id@,
                        i as int,
                        email.references@[q]@,
                    ),
        {
            proof {
                assert(all[i as int].references[r as int] == email.references@[r as int]@);
            }
            tie(&mut parent, &mut first, &by_id, i, &email.references[r], Ghost(all));
        }
        proof {
            assert forall|k: Seq<char>| refers_to(all[i as int], k) implies #[trigger] is_tied(
                parent@,
                first@,
                by_id@,
                i as int,
                k,
            ) by {
                if all[i as int].in_reply_to != Some(k) {
                    let q = choose|q: int|
                        0 <= q < all[i as int].references.len() && all[i as int].references[q] == k;
                    assert(k == email.references@[q]@);
                }
            }
        }
    }
    proof {
        lemma_forest_gives_threads(all, parent@, first@, by_id@);
    }
    for i in 0..n
        invariant
            n == emails@.len() == all.len() == parent@.len(),
            is_forest(parent@),
            forall|a: int|
                0 <= a < n ==> #[trigger] root(parent@, a) == first_in_thread(all, a, 0),
            forall|a: int| i <= a < n ==> (#[trigger] emails@[a])@ == all[a],
            forall|a: int| 0 <= a < i ==> (#[trigger] emails@[a])@ == with_thread_ids(all)[a],
    {
        let top: usize = find(&parent, i);
        let mut name: String = "thread_".to_owned();
        push_decimal(&mut name, top as u64);
        emails[i].thread_id = name;
        assert(root(parent@, i as int) == first_in_thread(all, i as int, 0));
    }
    assert(mails(emails@) =~= with_thread_ids(all));
}

/// A finished forest has one tree per thread, rooted at the thread's first message.
proof fn lemma_forest_gives_threads(
    emails: Seq<EmailV>,
    parent: Seq<usize>,
    first: Map<Seq<char>, usize>,
    by_id: Map<Seq<char>, usize>,
)
    requires
        is_forest(parent),
        is_sound(emails, parent),
        parent.len() == emails.len(),
        is_index_of_ids(emails, by_id),
        is_index_of_references(emails, first),
        forall|a: int, k: Seq<char>|
            0 <= a < emails.len() && refers_to(emails[a], k) ==> #[trigger] is_tied(
                parent,
                first,
                by_id,
                a,
                k,
            ),
    ensures
        forall|a: int|
            0 <= a < emails.len() ==> #[trigger] root(parent, a) == first_in_thread(emails, a, 0),
{
    let label = |i: int| root(parent, i);
    assert forall|i: int, j: int, key: Seq<char>| #[trigger]
        linked_by(emails, i, j, key) implies label(i) == label(j) by {
        assert(is_tied(parent, first, by_id, i, key));
        if refers_to(emails[j], key) {
            assert(is_tied(parent, first, by_id, j, key));
        } else {
            assert(carries(emails, j, key));
        }
    }
    assert(respects_links(emails, label));
    assert forall|a: int| 0 <= a < emails.len() implies #[trigger] root(parent, a)
        == first_in_thread(emails, a, 0) by {
        lemma_root_is_fixed(parent, a);
        lemma_first_is_root(emails, parent, a, 0);
    }
}

proof fn lemma_first_is_root(emails: Seq<EmailV>, parent: Seq<usize>, a: int, from: int)
    requires
        is_forest(parent),
        is_sound(emails, parent),
        parent.len() == emails.len(),
        respects_links(emails, |i: int| root(parent, i)),
        0 <= a < emails.len(),
        0 <= from <= root(parent, a),
    ensures
        first_in_thread(emails, a, from) == root(parent, a),
    decreases root(parent, a) - from,
{
    let label = |i: int| root(parent, i);
    lemma_root_is_fixed(parent, a);
    lemma_root_is_fixed(parent, from);
    if from == root(parent, a) {
        assert forall|l: spec_fn(int) -> int| #[trigger]
            respects_links(emails, l) implies l(from) == l(a) by {
            lemma_label_of_root(emails, parent, l, a);
        }
    } else {
        if same_thread(emails, from, a) {
            assert(label(from) == label(a));
        }
        lemma_first_is_root(emails, parent, a, from + 1);
    }
}

// ---------------------------------------------------------------------------
// Laws

proof fn lemma_first_bounds(emails: Seq<EmailV>, i: int, from: int)
    requires
        0 <= from <= i,
    ensures
        from <= first_in_thread(emails, i, from) <= i,
        same_thread(emails, first_in_thread(emails, i, from), i),
        forall|k: int|
            from <= k < first_in_thread(emails, i, from) ==> !(#[trigger] same_thread(
                emails,
                k,
                i,
            )),
    decreases i - from,
{
    if from < i && !same_thread(emails, from, i) {
        lemma_first_bounds(emails, i, from + 1);
    }
}

/// Belonging to one thread is an equivalence.
pub proof fn law_threads_are_classes(emails: Seq<EmailV>, i: int, j: int, k: int)
    ensures
        same_thread(emails, i, i),
        same_thread(emails, i, j) ==> same_thread(emails, j, i),
        same_thread(emails, i, j) && same_thread(emails, j, k) ==> same_thread(emails, i, k),
{
    if same_thread(emails, i, j) && same_thread(emails, j, k) {
        assert forall|label: spec_fn(int) -> int| #[trigger]
            respects_links(emails, label) implies label(i) == label(k) by {
            assert(label(i) == label(j));
            assert(label(j) == label(k));
        }
    }
}

/// A reply is in the thread of the message that it names, and messages that name the
/// same Message-ID are in one thread, whether or not that message is present.
pub proof fn law_linked_messages_share_a_thread(
    emails: Seq<EmailV>,
    i: int,
    j: int,
    key: Seq<char>,
)
    requires
        linked_by(emails, i, j, key),
    ensures
        same_thread(emails, i, j),
{
}

/// Two messages get the same thread name exactly when they belong to one thread.
pub proof fn law_thread_ids_tell_threads_apart(emails: Seq<EmailV>, i: int, j: int)
    requires
        0 <= i < emails.len(),
        0 <= j < emails.len(),
    ensures
        with_thread_ids(emails)[i].thread_id == with_thread_ids(emails)[j].thread_id
            <==> same_thread(emails, i, j),
{
    let fi = first_in_thread(emails, i, 0);
    let fj = first_in_thread(emails, j, 0);
    lemma_first_bounds(emails, i, 0);
    lemma_first_bounds(emails, j, 0);
    if thread_name(fi) == thread_name(fj) {
        let p = "thread_"@;
        assert(decimal(fi as nat) =~= thread_name(fi).skip(p.len() as int));
        assert(decimal(fj as nat) =~= thread_name(fj).skip(p.len() as int));
        law_decimal_reads_back(fi as nat);
        law_decimal_reads_back(fj as nat);
        law_threads_are_classes(emails, fi, i, i);
        law_threads_are_classes(emails, i, fj, j);
    }
    if same_thread(emails, i, j) {
        law_threads_are_classes(emails, i, j, j);
        law_threads_are_classes(emails, fi, i, j);
        law_threads_are_classes(emails, fj, j, i);
        if fi < fj {
            assert(same_thread(emails, fi, j));
        }
        if fj < fi {
            assert(same_thread(emails, fj, i));
        }
    }
}

/// Naming threads reads nothing that it writes: naming them again changes nothing.
pub proof fn law_naming_threads_twice_is_naming_them_once(emails: Seq<EmailV>)
    ensures
        with_thread_ids(with_thread_ids(emails)) == with_thread_ids(emails),
{
    let named = with_thread_ids(emails);
    assert forall|i: int, j: int, key: Seq<char>|
        linked_by(emails, i, j, key) == #[trigger] linked_by(named, i, j, key) by {
        assert(carries(emails, j, key) == carries(named, j, key)) by {
            if carries(emails, j, key) {
                assert forall|k: int| j < k < named.len() implies (
                #[trigger] named[k]).message_id != Some(key) by {
                    assert(emails[k].message_id != Some(key));
                }
            }
            if carries(named, j, key) {
                assert forall|k: int| j < k < emails.len() implies (
                #[trigger] emails[k]).message_id != Some(key) by {
                    assert(named[k].message_id != Some(key));
                }
            }
        }
    }
    assert forall|label: spec_fn(int) -> int|
        respects_links(emails, label) == #[trigger] respects_links(named, label) by {
        if respects_links(emails, label) {
            assert forall|i: int, j: int, key: Seq<char>| #[trigger]
                linked_by(named, i, j, key) implies label(i) == label(j) by {
                assert(linked_by(emails, i, j, key));
            }
        }
        if respects_links(named, label) {
            assert forall|i: int, j: int, key: Seq<char>| #[trigger]
                linked_by(emails, i, j, key) implies label(i) == label(j) by {
                assert(linked_by(named, i, j, key));
            }
        }
    }
    assert forall|i: int, j: int|
        same_thread(emails, i, j) == #[trigger] same_thread(named, i, j) by {
        if same_thread(emails, i, j) {
            assert forall|label: spec_fn(int) -> int| #[trigger]
                respects_links(named, label) implies label(i) == label(j) by {
                assert(respects_links(emails, label));
            }
        }
        if same_thread(named, i, j) {
            assert forall|label: spec_fn(int) -> int| #[trigger]
                respects_links(emails, label) implies label(i) == label(j) by {
                assert(respects_links(named, label));
            }
        }
    }
    assert forall|i: int| 0 <= i < emails.len() implies first_in_thread(emails, i, 0)
        == #[trigger] first_in_thread(named, i, 0) by {
        lemma_first_depends_on_threads(emails, named, i, 0);
    }
    assert(with_thread_ids(named) =~= named);
}

proof fn lemma_first_depends_on_threads(a: Seq<EmailV>, b: Seq<EmailV>, i: int, from: int)
    requires
        forall|k: int| same_thread(a, k, i) == #[trigger] same_thread(b, k, i),
    ensures
        first_in_thread(a, i, from) == first_in_thread(b, i, from),
    decreases i - from,
{
    assert(same_thread(a, from, i) == same_thread(b, from, i));
    if from < i && !same_thread(a, from, i) {
        lemma_first_depends_on_threads(a, b, i, from + 1);
    }
}

} // verus!
