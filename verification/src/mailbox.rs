//! The messages, with the sizes of their threads at hand.
use vstd::hash_map::StringHashMap;
use vstd::hash_set::StringHashSet;
use vstd::prelude::*;

use crate::email::{mails, Email, EmailV};
use crate::listing::{in_thread, lemma_filter_step, thread_size};

verus! {

broadcast use vstd::seq_lib::group_seq_properties;

/// A list of messages that knows the size of each thread.
pub struct Mailbox {
    emails: Vec<Email>,
    /// The threads with several messages.
    multi_message_threads: StringHashSet,
    /// The number of messages in each thread.
    thread_email_counts: StringHashMap<usize>,
}

impl View for Mailbox {
    type V = Seq<EmailV>;

    closed spec fn view(&self) -> Seq<EmailV> {
        mails(self.emails@)
    }
}

/// Whether the threads with several messages, and the number of messages in each thread,
/// are those of a list.
spec fn counts_threads(
    emails: Seq<EmailV>,
    multi: Set<Seq<char>>,
    counts: Map<Seq<char>, usize>,
) -> bool {
    &&& forall|t: Seq<char>| #[trigger] multi.contains(t) <==> thread_size(emails, t) > 1
    &&& forall|t: Seq<char>| #[trigger] counts.contains_key(t) <==> thread_size(emails, t) > 0
    &&& forall|t: Seq<char>| #[trigger]
        counts.contains_key(t) ==> counts[t] == thread_size(emails, t)
}

impl Mailbox {
    #[verifier::type_invariant]
    spec fn inv(self) -> bool {
        counts_threads(
            mails(self.emails@),
            self.multi_message_threads@,
            self.thread_email_counts@,
        )
    }

    /// A mailbox with some messages.
    pub fn new(emails: Vec<Email>) -> (r: Mailbox)
        ensures
            r@ == mails(emails@),
    {
        let ghost all = mails(emails@);
        let mut multi: StringHashSet = StringHashSet::new();
        let mut counts: StringHashMap<usize> = StringHashMap::new();
        let mut i: usize = 0;
        assert(counts_threads(all.take(0), multi@, counts@)) by {
            assert forall|t: Seq<char>| thread_size(all.take(0), t) == 0 by {
                all.take(0).lemma_filter_len(in_thread(t));
            }
        }
        while i < emails.len()
            invariant
                i <= emails@.len(),
                all == mails(emails@),
                counts_threads(all.take(i as int), multi@, counts@),
            decreases emails@.len() - i,
        {
            let ghost short = all.take(i as int);
            let ghost long = all.take(i + 1);
            let ghost id = emails@[i as int].thread_id@;
            let ghost multi0 = multi@;
            let ghost counts0 = counts@;
            proof {
                assert(all[i as int].thread_id == id);
                assert forall|t: Seq<char>| #[trigger]
                    thread_size(long, t) == thread_size(short, t) + if t == id {
                        1nat
                    } else {
                        0nat
                    } by {
                    lemma_filter_step(all, in_thread(t), i as int);
                }
                short.lemma_filter_len(in_thread(id));
            }
            let n: usize = match counts.get(emails[i].thread_id.as_str()) {
                Some(n) => *n,
                None => 0,
            };
            assert(n == thread_size(short, id));
            if n == 1 {
                multi.insert(emails[i].thread_id.clone());
            }
            counts.insert(emails[i].thread_id.clone(), n + 1);
            i += 1;
            proof {
                assert forall|t: Seq<char>| #[trigger] multi@.contains(t) <==> thread_size(long, t)
                    > 1 by {
                    assert(thread_size(short, t) > 1 <==> multi0.contains(t));
                }
                assert forall|t: Seq<char>| #[trigger]
                    counts@.contains_key(t) <==> thread_size(long, t) > 0 by {
                    assert(thread_size(short, t) > 0 <==> counts0.contains_key(t));
                }
                assert forall|t: Seq<char>| #[trigger] counts@.contains_key(t) implies counts@[t]
                    == thread_size(long, t) by {
                    if t != id {
                        assert(counts0.contains_key(t));
                    }
                }
            }
        }
        assert(all.take(i as int) =~= all);
        Mailbox { emails, multi_message_threads: multi, thread_email_counts: counts }
    }

    /// A mailbox with no messages.
    pub fn empty() -> (r: Mailbox)
        ensures
            r@ == Seq::<EmailV>::empty(),
    {
        let r: Mailbox = Mailbox::new(Vec::new());
        assert(r@ =~= Seq::<EmailV>::empty());
        r
    }

    /// The messages.
    pub fn emails(&self) -> (r: &Vec<Email>)
        ensures
            mails(r@) == self@,
    {
        &self.emails
    }

    /// The messages.
    pub fn into_emails(self) -> (r: Vec<Email>)
        ensures
            mails(r@) == self@,
    {
        self.emails
    }

    /// Whether a thread has several messages.
    pub fn is_multi(&self, thread_id: &str) -> (r: bool)
        ensures
            r == (thread_size(self@, thread_id@) > 1),
    {
        proof {
            use_type_invariant(self);
        }
        self.multi_message_threads.contains(thread_id)
    }

    /// The number of messages in a thread.
    pub fn thread_count(&self, thread_id: &str) -> (r: usize)
        ensures
            r == thread_size(self@, thread_id@),
    {
        proof {
            use_type_invariant(self);
        }
        match self.thread_email_counts.get(thread_id) {
            Some(n) => *n,
            None => 0,
        }
    }
}

} // verus!
