//! Senders: messages grouped by who sent them.
use vstd::hash_map::StringHashMap;
use vstd::prelude::*;

use crate::email::{mails, mail_refs, Email, EmailV};
use crate::listing::{
    borrowed, heads, in_bounds, lemma_filter_step, less, newest_first, order_newest_first, picked,
    thread_heads,
};
use crate::modes::GroupMode;
use crate::order::{lemma_put_place, lemma_put_step, ordered, put, text_less};
use crate::text::{
    eq_ignore_ascii_case, lowercase, opt_text, same_ignoring_ascii_case, texts, to_lower,
};

verus! {

broadcast use vstd::seq_lib::group_seq_properties;

/// The messages of one sender, or of one domain.
#[derive(Debug, PartialEq)]
pub struct EmailGroup {
    pub key: String,
    pub emails: Vec<Email>,
}

/// What an [`EmailGroup`] holds.
#[verifier::ext_equal]
pub struct GroupV {
    pub key: Seq<char>,
    pub emails: Seq<EmailV>,
}

impl View for EmailGroup {
    type V = GroupV;

    open spec fn view(&self) -> GroupV {
        GroupV { key: self.key@, emails: mails(self.emails@) }
    }
}

/// What a list of groups holds.
pub open spec fn group_views(v: Seq<EmailGroup>) -> Seq<GroupV> {
    v.map_values(|g: EmailGroup| g@)
}

/// What a list of borrowed groups holds.
pub open spec fn group_refs(v: Seq<&EmailGroup>) -> Seq<GroupV> {
    v.map_values(|g: &EmailGroup| g@)
}

impl EmailGroup {
    /// A group with no messages.
    pub fn new(key: String) -> (r: Self)
        ensures
            r@ == (GroupV { key: key@, emails: Seq::empty() }),
    {
        let emails: Vec<Email> = Vec::new();
        assert(mails(emails@) =~= Seq::<EmailV>::empty());
        EmailGroup { key, emails }
    }

    /// The number of messages.
    pub fn count(&self) -> (r: usize)
        ensures
            r == self@.emails.len(),
    {
        self.emails.len()
    }

    /// The number of threads.
    pub fn thread_count(&self) -> (r: usize)
        ensures
            r == thread_heads(self@.emails).len(),
    {
        let threads: Vec<&Email> = self.threads();
        assert(mail_refs(threads@).len() == threads@.len());
        threads.len()
    }

    /// The first message of each thread: the newest one, where the group is sorted.
    pub fn threads(&self) -> (r: Vec<&Email>)
        ensures
            mail_refs(r@) == thread_heads(self@.emails),
    {
        heads(&borrowed(&self.emails))
    }
}

// ---------------------------------------------------------------------------
// What grouping means

/// The key that a message is grouped under.
pub open spec fn group_key(mode: GroupMode, e: EmailV) -> Seq<char> {
    match mode {
        GroupMode::BySenderEmail => e.from_email,
        GroupMode::ByDomain => e.from_domain,
    }
}

/// Whether the user sent a message.
pub open spec fn is_own(user: Option<Seq<char>>, e: EmailV) -> bool {
    user matches Some(address) && same_ignoring_ascii_case(e.from_email, address)
}

/// The messages that belong to the group of a key: those of others, under that key.
pub open spec fn belongs(
    user: Option<Seq<char>>,
    mode: GroupMode,
    key: Seq<char>,
) -> spec_fn(EmailV) -> bool {
    |e: EmailV| !is_own(user, e) && group_key(mode, e) == key
}

/// The keys of the messages of others, each once, in the order of first appearance.
pub open spec fn group_keys(
    emails: Seq<EmailV>,
    user: Option<Seq<char>>,
    mode: GroupMode,
) -> Seq<Seq<char>>
    decreases emails.len(),
{
    if emails.len() == 0 {
        Seq::empty()
    } else {
        let keys = group_keys(emails.drop_last(), user, mode);
        let e = emails.last();
        if is_own(user, e) || keys.contains(group_key(mode, e)) {
            keys
        } else {
            keys.push(group_key(mode, e))
        }
    }
}

/// The group of a key, newest message first.
pub open spec fn group_of(
    emails: Seq<EmailV>,
    user: Option<Seq<char>>,
    mode: GroupMode,
    key: Seq<char>,
) -> GroupV {
    GroupV { key, emails: newest_first(emails.filter(belongs(user, mode, key))) }
}

/// Whether one group has to stand before another: it is larger, or as large and its key
/// comes first in lowercase.
pub open spec fn ranks_before(a: GroupV, b: GroupV) -> bool {
    a.emails.len() > b.emails.len() || (a.emails.len() == b.emails.len() && text_less(
        lowercase(a.key),
        lowercase(b.key),
    ))
}

/// Which groups have to stand before which.
pub open spec fn ranking() -> spec_fn(GroupV, GroupV) -> bool {
    |a: GroupV, b: GroupV| ranks_before(a, b)
}

/// The messages of others, grouped by key and ranked.
pub open spec fn grouping(
    emails: Seq<EmailV>,
    user: Option<Seq<char>>,
    mode: GroupMode,
) -> Seq<GroupV> {
    ordered(ranking(), unranked(emails, user, mode))
}

/// The messages of others, grouped by key.
pub open spec fn unranked(
    emails: Seq<EmailV>,
    user: Option<Seq<char>>,
    mode: GroupMode,
) -> Seq<GroupV> {
    group_keys(emails, user, mode).map_values(
        |key: Seq<char>| group_of(emails, user, mode, key),
    )
}

// ---------------------------------------------------------------------------
// Grouping

/// The positions of the messages of each group.
spec fn are_members(
    emails: Seq<EmailV>,
    user: Option<Seq<char>>,
    mode: GroupMode,
    n: int,
    keys: Seq<Seq<char>>,
    members: Seq<Vec<usize>>,
) -> bool {
    &&& members.len() == keys.len()
    &&& forall|k: int|
        0 <= k < keys.len() ==> in_bounds((#[trigger] members[k])@, n as nat) && picked(
            emails,
            members[k]@,
        ) == emails.take(n).filter(belongs(user, mode, keys[k]))
}

proof fn lemma_no_such_key(
    emails: Seq<EmailV>,
    user: Option<Seq<char>>,
    mode: GroupMode,
    key: Seq<char>,
)
    requires
        !group_keys(emails, user, mode).contains(key),
    ensures
        emails.filter(belongs(user, mode, key)) == Seq::<EmailV>::empty(),
    decreases emails.len(),
{
    reveal(Seq::filter);
    if emails.len() > 0 {
        let keys = group_keys(emails.drop_last(), user, mode);
        let e = emails.last();
        if !is_own(user, e) && group_key(mode, e) == key {
            if keys.contains(key) {
            } else {
                assert(keys.push(key).last() == key);
            }
        }
        if keys.contains(key) {
            let i = keys.index_of(key);
            assert(keys.push(group_key(mode, e))[i] == key);
        }
        lemma_no_such_key(emails.drop_last(), user, mode, key);
    }
}

/// The keys of the groups, and the positions of the messages of each.
fn partition(emails: &Vec<Email>, user: &Option<String>, mode: GroupMode) -> (r: (
    Vec<String>,
    Vec<Vec<usize>>,
))
    ensures
        texts(r.0@) == group_keys(mails(emails@), opt_text(*user), mode),
        are_members(
            mails(emails@),
            opt_text(*user),
            mode,
            emails@.len() as int,
            texts(r.0@),
            r.1@,
        ),
{
    let ghost all = mails(emails@);
    let ghost who = opt_text(*user);
    let mut keys: Vec<String> = Vec::new();
    let mut members: Vec<Vec<usize>> = Vec::new();
    let mut slot: StringHashMap<usize> = StringHashMap::new();
    let mut i: usize = 0;
    assert(texts(keys@) =~= group_keys(all.take(0), who, mode));
    while i < emails.len()
        invariant
            i <= emails@.len(),
            all == mails(emails@),
            who == opt_text(*user),
            texts(keys@) == group_keys(all.take(i as int), who, mode),
            are_members(all, who, mode, i as int, texts(keys@), members@),
            forall|key: Seq<char>| #[trigger]
                slot@.contains_key(key) ==> slot@[key] < keys@.len() && keys@[slot@[key] as int]@
                    == key,
            forall|k: int| 0 <= k < keys@.len() ==> slot@.contains_key((#[trigger] keys@[k])@)
                && slot@[keys@[k]@] == k,
        decreases emails@.len() - i,
    {
        let email: &Email = &emails[i];
        let ghost e = all[i as int];
        let ghost short = all.take(i as int);
        let ghost long = all.take(i + 1);
        let ghost keys0 = texts(keys@);
        let ghost members0 = members@;
        proof {
            assert(e == email@);
            assert(long.drop_last() =~= short);
            assert(long.last() == e);
        }
        let own: bool = match user {
            Some(address) => eq_ignore_ascii_case(email.from_email.as_str(), address.as_str()),
            None => false,
        };
        if !own {
            let key: String = match mode {
                GroupMode::BySenderEmail => email.from_email.clone(),
                GroupMode::ByDomain => email.from_domain.clone(),
            };
            let known: Option<usize> = match slot.get(key.as_str()) {
                Some(s) => Some(*s),
                None => None,
            };
            match known {
                Some(s) => {
                    proof {
                        assert(keys0[s as int] == key@);
                        assert(keys0.contains(key@));
                    }
                    members[s].push(i);
                    proof {
                        assert forall|k: int| 0 <= k < keys@.len() implies in_bounds(
                            (#[trigger] members@[k])@,
                            (i + 1) as nat,
                        ) && picked(all, members@[k]@) == long.filter(
                            belongs(who, mode, keys0[k]),
                        ) by {
                            lemma_filter_step(all, belongs(who, mode, keys0[k]), i as int);
                            assert(in_bounds(members0[k]@, i as nat));
                            if k == s {
                                assert(members@[k]@ == members0[k]@.push(i));
                                assert(picked(all, members@[k]@) =~= picked(
                                    all,
                                    members0[k]@,
                                ).push(e));
                            } else {
                                assert(members@[k] == members0[k]);
                                assert(keys@[k]@ != key@);
                            }
                        }
                    }
                },
                None => {
                    let mut fresh: Vec<usize> = Vec::new();
                    fresh.push(i);
                    proof {
                        assert(!keys0.contains(key@)) by {
                            if keys0.contains(key@) {
                                let k = keys0.index_of(key@);
                                assert(keys@[k]@ == key@);
                            }
                        }
                        lemma_no_such_key(short, who, mode, key@);
                    }
                    slot.insert(key.clone(), keys.len());
                    let ghost strings0 = keys@;
                    keys.push(key);
                    members.push(fresh);
                    proof {
                        assert(texts(keys@) =~= keys0.push(group_key(mode, e)));
                        assert forall|k: int| 0 <= k < keys@.len() implies in_bounds(
                            (#[trigger] members@[k])@,
                            (i + 1) as nat,
                        ) && picked(all, members@[k]@) == long.filter(
                            belongs(who, mode, texts(keys@)[k]),
                        ) by {
                            lemma_filter_step(all, belongs(who, mode, texts(keys@)[k]), i as int);
                            if k < keys0.len() {
                                assert(members@[k] == members0[k]);
                                assert(in_bounds(members0[k]@, i as nat));
                                assert(texts(keys@)[k] == keys0[k]);
                                assert(keys0.contains(keys0[k]));
                            } else {
                                assert(picked(all, members@[k]@) =~= seq![e]);
                            }
                        }
                    }
                },
            }
        } else {
            proof {
                assert forall|k: int| 0 <= k < keys@.len() implies in_bounds(
                    (#[trigger] members@[k])@,
                    (i + 1) as nat,
                ) && picked(all, members@[k]@) == long.filter(belongs(who, mode, keys0[k])) by {
                    lemma_filter_step(all, belongs(who, mode, keys0[k]), i as int);
                    assert(in_bounds(members0[k]@, i as nat));
                }
            }
        }
        i += 1;
    }
    assert(all.take(i as int) =~= all);
    (keys, members)
}

/// Whether one group has to stand before another, given their keys in lowercase.
fn outranks(a: &EmailGroup, a_lower: &String, b: &EmailGroup, b_lower: &String) -> (r: bool)
    requires
        a_lower@ == lowercase(a@.key),
        b_lower@ == lowercase(b@.key),
    ensures
        r == ranks_before(a@, b@),
{
    a.emails.len() > b.emails.len() || (a.emails.len() == b.emails.len() && less(
        a_lower.as_str(),
        b_lower.as_str(),
    ))
}

/// The messages of others, grouped by key and ranked.
pub fn group_emails(emails: &Vec<Email>, user: &Option<String>, mode: GroupMode) -> (r: Vec<
    EmailGroup,
>)
    ensures
        group_views(r@) == grouping(mails(emails@), opt_text(*user), mode),
{
    let ghost all = mails(emails@);
    let ghost who = opt_text(*user);
    let (keys, members) = partition(emails, user, mode);
    let ghost gs = unranked(all, who, mode);
    let mut groups: Vec<EmailGroup> = Vec::new();
    let mut lowers: Vec<String> = Vec::new();
    let mut i: usize = 0;
    assert(group_views(groups@) =~= ordered(ranking(), gs.take(0)));
    while i < keys.len()
        invariant
            i <= keys@.len(),
            all == mails(emails@),
            who == opt_text(*user),
            texts(keys@) == group_keys(all, who, mode),
            are_members(all, who, mode, emails@.len() as int, texts(keys@), members@),
            gs == unranked(all, who, mode),
            group_views(groups@) == ordered(ranking(), gs.take(i as int)),
            lowers@.len() == groups@.len(),
            forall|k: int|
                0 <= k < groups@.len() ==> (#[trigger] lowers@[k])@ == lowercase(groups@[k].key@),
        decreases keys@.len() - i,
    {
        let ghost key = texts(keys@)[i as int];
        proof {
            assert(in_bounds(members@[i as int]@, emails@.len()));
            assert(all.take(emails@.len() as int) =~= all);
        }
        let order: Vec<usize> = order_newest_first(emails, &members[i]);
        let mut list: Vec<Email> = Vec::new();
        for k in 0..order.len()
            invariant
                in_bounds(order@, emails@.len()),
                all == mails(emails@),
                list@.len() == k,
                forall|j: int| 0 <= j < k ==> (#[trigger] list@[j])@ == all[order@[j] as int],
        {
            list.push(emails[order[k]].clone());
        }
        proof {
            assert(mails(list@) =~= picked(all, order@));
        }
        let mut group: EmailGroup = EmailGroup::new(keys[i].clone());
        group.emails = list;
        let lower: String = to_lower(group.key.as_str());
        let ghost g = group@;
        let ghost s = group_views(groups@);
        proof {
            assert(g =~= group_of(all, who, mode, key));
            assert(gs[i as int] == g);
            assert(s.take(s.len() as int) =~= s);
            assert(put(ranking(), s, g) + s.skip(s.len() as int) =~= put(ranking(), s, g));
        }
        let mut pos: usize = groups.len();
        while pos > 0 && outranks(&group, &lower, &groups[pos - 1], &lowers[pos - 1])
            invariant
                pos <= groups@.len(),
                s == group_views(groups@),
                g == group@,
                lower@ == lowercase(group.key@),
                lowers@.len() == groups@.len(),
                forall|k: int|
                    0 <= k < groups@.len() ==> (#[trigger] lowers@[k])@ == lowercase(
                        groups@[k].key@,
                    ),
                put(ranking(), s, g) == put(ranking(), s.take(pos as int), g) + s.skip(pos as int),
            decreases pos,
        {
            proof {
                assert(s[pos - 1] == groups@[pos - 1]@);
                lemma_put_step(ranking(), s, g, pos as int);
            }
            pos -= 1;
        }
        proof {
            if pos > 0 {
                assert(s[pos - 1] == groups@[pos - 1]@);
            }
            lemma_put_place(ranking(), s, g, pos as int);
            assert(gs.take(i + 1).drop_last() =~= gs.take(i as int));
            assert(gs.take(i + 1).last() == g);
        }
        let ghost groups0 = groups@;
        let ghost lowers0 = lowers@;
        groups.insert(pos, group);
        lowers.insert(pos, lower);
        proof {
            assert(group_views(groups@) =~= s.insert(pos as int, g));
            assert forall|k: int| 0 <= k < groups@.len() implies (#[trigger] lowers@[k])@
                == lowercase(groups@[k].key@) by {
                if k < pos {
                    assert(lowers@[k] == lowers0[k] && groups@[k] == groups0[k]);
                } else if k > pos {
                    assert(lowers@[k] == lowers0[k - 1] && groups@[k] == groups0[k - 1]);
                }
            }
        }
        i += 1;
    }
    assert(gs.take(i as int) =~= gs);
    groups
}

} // verus!
