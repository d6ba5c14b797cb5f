//! Messages and the addresses they carry.
use vstd::hash_set::StringHashSet;
use vstd::prelude::*;

use crate::text::{
    find_char, from_chars, opt_text, position_from, texts, to_chars, trim, trimmed,
};
use crate::timestamp::{now, Timestamp, LAST_SECOND};

verus! {

/// An email message.
#[derive(Debug, PartialEq)]
pub struct Email {
    pub id: String,
    pub thread_id: String,
    pub from: String,
    pub from_email: String,
    pub from_domain: String,
    pub subject: String,
    pub snippet: String,
    pub date: Timestamp,
    /// The Message-ID header.
    pub message_id: Option<String>,
    /// The In-Reply-To header: the immediate parent.
    pub in_reply_to: Option<String>,
    /// The References header: the Message-IDs of the whole conversation.
    pub references: Vec<String>,
    /// The folder that the message was found in.
    pub source_folder: String,
    /// The body, once it has been fetched.
    pub body: Option<String>,
}

/// What an [`Email`] holds.
#[verifier::ext_equal]
pub struct EmailV {
    pub id: Seq<char>,
    pub thread_id: Seq<char>,
    pub from: Seq<char>,
    pub from_email: Seq<char>,
    pub from_domain: Seq<char>,
    pub subject: Seq<char>,
    pub snippet: Seq<char>,
    pub date: Timestamp,
    pub message_id: Option<Seq<char>>,
    pub in_reply_to: Option<Seq<char>>,
    pub references: Seq<Seq<char>>,
    pub source_folder: Seq<char>,
    pub body: Option<Seq<char>>,
}

impl View for Email {
    type V = EmailV;

    open spec fn view(&self) -> EmailV {
        EmailV {
            id: self.id@,
            thread_id: self.thread_id@,
            from: self.from@,
            from_email: self.from_email@,
            from_domain: self.from_domain@,
            subject: self.subject@,
            snippet: self.snippet@,
            date: self.date,
            message_id: opt_text(self.message_id),
            in_reply_to: opt_text(self.in_reply_to),
            references: texts(self.references@),
            source_folder: self.source_folder@,
            body: opt_text(self.body),
        }
    }
}

/// What a list of messages holds.
pub open spec fn mails(v: Seq<Email>) -> Seq<EmailV> {
    v.map_values(|e: Email| e@)
}

/// What a list of borrowed messages holds.
pub open spec fn mail_refs(v: Seq<&Email>) -> Seq<EmailV> {
    v.map_values(|e: &Email| e@)
}

/// A copy of a list of texts.
pub fn clone_texts(v: &Vec<String>) -> (r: Vec<String>)
    ensures
        texts(r@) == texts(v@),
{
    let mut r: Vec<String> = Vec::new();
    for i in 0..v.len()
        invariant
            r@.len() == i,
            forall|k: int| 0 <= k < i ==> r@[k]@ == v@[k]@,
    {
        r.push(v[i].clone());
    }
    assert(texts(r@) =~= texts(v@));
    r
}

/// A copy of an optional text.
pub fn clone_opt(o: &Option<String>) -> (r: Option<String>)
    ensures
        opt_text(r) == opt_text(*o),
{
    match o {
        Some(s) => Some(s.clone()),
        None => None,
    }
}

impl Clone for Email {
    fn clone(&self) -> (r: Self)
        ensures
            r@ == self@,
    {
        Email {
            id: self.id.clone(),
            thread_id: self.thread_id.clone(),
            from: self.from.clone(),
            from_email: self.from_email.clone(),
            from_domain: self.from_domain.clone(),
            subject: self.subject.clone(),
            snippet: self.snippet.clone(),
            date: self.date,
            message_id: clone_opt(&self.message_id),
            in_reply_to: clone_opt(&self.in_reply_to),
            references: clone_texts(&self.references),
            source_folder: self.source_folder.clone(),
            body: clone_opt(&self.body),
        }
    }
}

/// A copy of a list of messages.
pub fn clone_mails(v: &Vec<Email>) -> (r: Vec<Email>)
    ensures
        mails(r@) == mails(v@),
{
    let mut r: Vec<Email> = Vec::new();
    for i in 0..v.len()
        invariant
            r@.len() == i,
            forall|k: int| 0 <= k < i ==> (#[trigger] r@[k])@ == v@[k]@,
    {
        r.push(v[i].clone());
    }
    assert(mails(r@) =~= mails(v@));
    r
}

// ---------------------------------------------------------------------------
// Addresses

/// Whether an address in angle brackets opens at `i`: a `<`, at least one character
/// that is not `>`, and a `>` somewhere after them.
pub open spec fn bracket_opens(s: Seq<char>, i: int) -> bool {
    &&& 0 <= i && i + 1 < s.len()
    &&& s[i] == '<'
    &&& s[i + 1] != '>'
    &&& position_from(s, '>', i + 1) < s.len()
}

/// What stands in the first angle brackets at or after `from`.
pub open spec fn bracketed_from(s: Seq<char>, from: int) -> Option<Seq<char>>
    decreases s.len() - from,
{
    if from >= s.len() {
        None
    } else if bracket_opens(s, from) {
        Some(s.subrange(from + 1, position_from(s, '>', from + 1)))
    } else {
        bracketed_from(s, from + 1)
    }
}

/// The address of a `Name <address>` text: what stands in the first angle brackets, or
/// the trimmed text where there are none.
pub open spec fn address_of(s: Seq<char>) -> Seq<char> {
    match bracketed_from(s, 0) {
        Some(address) => address,
        None => trimmed(s),
    }
}

/// The domain of an address: what stands between the first `@` and the next one, or the
/// whole text where there is no `@`.
pub open spec fn domain_of(s: Seq<char>) -> Seq<char> {
    let at = position_from(s, '@', 0);
    if at >= s.len() {
        s
    } else {
        s.subrange(at + 1, position_from(s, '@', at + 1))
    }
}

/// `regex::Regex::new` and `regex::Regex::captures`: the first group of the leftmost
/// match. It is described for one pattern, which matches `<`, one or more characters
/// other than `>`, and `>`, and whose group is what stands between.
#[verifier::external_body]
fn first_group(pattern: &str, text: &str) -> (r: Option<String>)
    requires
        pattern@ == "<([^>]+)>"@,
    ensures
        opt_text(r) == bracketed_from(text@, 0),
{
    let re = regex::Regex::new(pattern).unwrap();
    re.captures(text).map(|c| c.get(1).map_or_else(String::new, |m| m.as_str().to_string()))
}

/// The address of a `Name <address>` text.
pub fn extract_email(from: &str) -> (r: String)
    ensures
        r@ == address_of(from@),
{
    match first_group("<([^>]+)>", from) {
        Some(address) => address,
        None => trim(from),
    }
}

/// The domain of an address.
///
/// A text without `@` is its own domain, so that unrelated malformed addresses are not
/// grouped together.
pub fn extract_domain(email: &str) -> (r: String)
    ensures
        r@ == domain_of(email@),
{
    let v: Vec<char> = to_chars(email);
    let at: usize = find_char(&v, '@', 0);
    if at >= v.len() {
        email.to_owned()
    } else {
        let end: usize = find_char(&v, '@', at + 1);
        from_chars(&v, at + 1, end)
    }
}

// ---------------------------------------------------------------------------
// Making messages

impl Email {
    /// A message of the inbox with no threading headers.
    pub fn new(
        id: String,
        thread_id: String,
        from: String,
        subject: String,
        snippet: String,
        date: Timestamp,
    ) -> (r: Self)
        ensures
            r@ == (EmailV {
                id: id@,
                thread_id: thread_id@,
                from: from@,
                from_email: address_of(from@),
                from_domain: domain_of(address_of(from@)),
                subject: subject@,
                snippet: snippet@,
                date,
                message_id: None,
                in_reply_to: None,
                references: Seq::empty(),
                source_folder: "INBOX"@,
                body: None,
            }),
    {
        let from_email: String = extract_email(from.as_str());
        let from_domain: String = extract_domain(from_email.as_str());
        let references: Vec<String> = Vec::new();
        assert(texts(references@) =~= Seq::<Seq<char>>::empty());
        Email {
            id,
            thread_id,
            from,
            from_email,
            from_domain,
            subject,
            snippet,
            date,
            message_id: None,
            in_reply_to: None,
            references,
            source_folder: "INBOX".to_owned(),
            body: None,
        }
    }
}

/// A message under construction.
pub struct EmailBuilder {
    pub id: String,
    pub from: String,
    pub subject: String,
    pub snippet: String,
    pub date: Option<Timestamp>,
    pub message_id: Option<String>,
    pub in_reply_to: Option<String>,
    pub references: Vec<String>,
    pub source_folder: String,
}

/// What an [`EmailBuilder`] holds.
#[verifier::ext_equal]
pub struct EmailBuilderV {
    pub id: Seq<char>,
    pub from: Seq<char>,
    pub subject: Seq<char>,
    pub snippet: Seq<char>,
    pub date: Option<Timestamp>,
    pub message_id: Option<Seq<char>>,
    pub in_reply_to: Option<Seq<char>>,
    pub references: Seq<Seq<char>>,
    pub source_folder: Seq<char>,
}

impl View for EmailBuilder {
    type V = EmailBuilderV;

    open spec fn view(&self) -> EmailBuilderV {
        EmailBuilderV {
            id: self.id@,
            from: self.from@,
            subject: self.subject@,
            snippet: self.snippet@,
            date: self.date,
            message_id: opt_text(self.message_id),
            in_reply_to: opt_text(self.in_reply_to),
            references: texts(self.references@),
            source_folder: self.source_folder@,
        }
    }
}

impl EmailBuilderV {
    /// The message that is built at an instant: the instant serves where no date was
    /// set, and the inbox where no folder was set.
    pub open spec fn built_at(self, now: Timestamp) -> EmailV {
        EmailV {
            id: self.id,
            thread_id: Seq::empty(),
            from: self.from,
            from_email: address_of(self.from),
            from_domain: domain_of(address_of(self.from)),
            subject: self.subject,
            snippet: self.snippet,
            date: match self.date {
                Some(date) => date,
                None => now,
            },
            message_id: self.message_id,
            in_reply_to: self.in_reply_to,
            references: self.references,
            source_folder: if self.source_folder.len() == 0 {
                "INBOX"@
            } else {
                self.source_folder
            },
            body: None,
        }
    }
}

impl EmailBuilder {
    /// A message with nothing set.
    pub fn new() -> (r: Self)
        ensures
            r@ == (EmailBuilderV {
                id: Seq::empty(),
                from: Seq::empty(),
                subject: Seq::empty(),
                snippet: Seq::empty(),
                date: None,
                message_id: None,
                in_reply_to: None,
                references: Seq::empty(),
                source_folder: Seq::empty(),
            }),
    {
        let references: Vec<String> = Vec::new();
        assert(texts(references@) =~= Seq::<Seq<char>>::empty());
        EmailBuilder {
            id: String::new(),
            from: String::new(),
            subject: String::new(),
            snippet: String::new(),
            date: None,
            message_id: None,
            in_reply_to: None,
            references,
            source_folder: String::new(),
        }
    }

    pub fn id(self, id: &str) -> (r: Self)
        ensures
            r@ == (EmailBuilderV { id: id@, ..self@ }),
    {
        EmailBuilder { id: id.to_owned(), ..self }
    }

    pub fn from(self, from: &str) -> (r: Self)
        ensures
            r@ == (EmailBuilderV { from: from@, ..self@ }),
    {
        EmailBuilder { from: from.to_owned(), ..self }
    }

    pub fn subject(self, subject: &str) -> (r: Self)
        ensures
            r@ == (EmailBuilderV { subject: subject@, ..self@ }),
    {
        EmailBuilder { subject: subject.to_owned(), ..self }
    }

    pub fn snippet(self, snippet: &str) -> (r: Self)
        ensures
            r@ == (EmailBuilderV { snippet: snippet@, ..self@ }),
    {
        EmailBuilder { snippet: snippet.to_owned(), ..self }
    }

    pub fn date(self, date: Timestamp) -> (r: Self)
        ensures
            r@ == (EmailBuilderV { date: Some(date), ..self@ }),
    {
        EmailBuilder { date: Some(date), ..self }
    }

    pub fn message_id(self, message_id: &str) -> (r: Self)
        ensures
            r@ == (EmailBuilderV { message_id: Some(message_id@), ..self@ }),
    {
        EmailBuilder { message_id: Some(message_id.to_owned()), ..self }
    }

    pub fn in_reply_to(self, in_reply_to: &str) -> (r: Self)
        ensures
            r@ == (EmailBuilderV { in_reply_to: Some(in_reply_to@), ..self@ }),
    {
        EmailBuilder { in_reply_to: Some(in_reply_to.to_owned()), ..self }
    }

    pub fn references(self, references: Vec<String>) -> (r: Self)
        ensures
            r@ == (EmailBuilderV { references: texts(references@), ..self@ }),
    {
        EmailBuilder { references, ..self }
    }

    pub fn source_folder(self, source_folder: &str) -> (r: Self)
        ensures
            r@ == (EmailBuilderV { source_folder: source_folder@, ..self@ }),
    {
        EmailBuilder { source_folder: source_folder.to_owned(), ..self }
    }

    /// The message, dated `now` where no date was set.
    pub fn build_at(self, now: Timestamp) -> (r: Email)
        ensures
            r@ == self@.built_at(now),
    {
        let from_email: String = extract_email(self.from.as_str());
        let from_domain: String = extract_domain(from_email.as_str());
        let folder: String = if self.source_folder.as_str().is_empty() {
            "INBOX".to_owned()
        } else {
            self.source_folder
        };
        Email {
            id: self.id,
            thread_id: String::new(),
            from: self.from,
            from_email,
            from_domain,
            subject: self.subject,
            snippet: self.snippet,
            date: match self.date {
                Some(date) => date,
                None => now,
            },
            message_id: self.message_id,
            in_reply_to: self.in_reply_to,
            references: self.references,
            source_folder: folder,
            body: None,
        }
    }

    /// The message, dated by the clock where no date was set.
    pub fn build(self) -> (r: Email)
        ensures
            r@ == self@.built_at(r@.date),
            self@.date is Some ==> r@.date == self@.date->0,
            self@.date is None ==> 0 <= r@.date.secs <= LAST_SECOND,
    {
        self.build_at(now())
    }
}

// ---------------------------------------------------------------------------
// Messages that come twice

/// Whether some message has an id in a folder.
pub open spec fn has_message(emails: Seq<EmailV>, id: Seq<char>, folder: Seq<char>) -> bool {
    exists|i: int|
        0 <= i < emails.len() && (#[trigger] emails[i]).id == id && emails[i].source_folder
            == folder
}

/// The first message of each id in each folder, in order.
pub open spec fn deduped(emails: Seq<EmailV>) -> Seq<EmailV>
    decreases emails.len(),
{
    if emails.len() == 0 {
        Seq::empty()
    } else {
        let earlier = deduped(emails.drop_last());
        let last = emails.last();
        if has_message(earlier, last.id, last.source_folder) {
            earlier
        } else {
            earlier.push(last)
        }
    }
}

/// The ids that were seen in a folder.
struct SeenIds {
    folder: String,
    ids: StringHashSet,
}

/// Whether an id was seen in a folder.
spec fn is_seen(seen: Seq<SeenIds>, id: Seq<char>, folder: Seq<char>) -> bool {
    exists|k: int|
        0 <= k < seen.len() && (#[trigger] seen[k]).folder@ == folder && seen[k].ids@.contains(id)
}

/// Notes an id, and says whether it was not seen before.
fn note_id(seen: &mut Vec<SeenIds>, id: &String, folder: &String) -> (r: bool)
    ensures
        r == !is_seen(old(seen)@, id@, folder@),
        forall|i: Seq<char>, f: Seq<char>| #[trigger]
            is_seen(final(seen)@, i, f) <==> is_seen(old(seen)@, i, f) || (i == id@ && f
                == folder@),
{
    let ghost before = seen@;
    let mut at: Option<usize> = None;
    let mut k: usize = 0;
    while k < seen.len()
        invariant
            k <= seen@.len(),
            seen@ == before,
            at is Some ==> at->0 < k && seen@[at->0 as int].folder@ == folder@,
            forall|j: int|
                0 <= j < k && (#[trigger] seen@[j]).folder@ == folder@ ==> !seen@[j].ids@.contains(
                    id@,
                ),
        decreases seen@.len() - k,
    {
        if seen[k].folder == *folder {
            if seen[k].ids.contains(id.as_str()) {
                assert(is_seen(before, id@, folder@));
                return false;
            }
            at = Some(k);
        }
        k += 1;
    }
    match at {
        Some(at) => {
            seen[at].ids.insert(id.clone());
            proof {
                let n = at as int;
                assert(seen@[n].ids@ == before[n].ids@.insert(id@));
                assert forall|i: Seq<char>, f: Seq<char>| #[trigger]
                    is_seen(seen@, i, f) <==> is_seen(before, i, f) || (i == id@ && f
                    == folder@) by {
                    if is_seen(seen@, i, f) {
                        let j = choose|j: int|
                            0 <= j < seen@.len() && (#[trigger] seen@[j]).folder@ == f
                                && seen@[j].ids@.contains(i);
                        assert(before[j].folder@ == f);
                    }
                    if is_seen(before, i, f) {
                        let j = choose|j: int|
                            0 <= j < before.len() && (#[trigger] before[j]).folder@ == f
                                && before[j].ids@.contains(i);
                        assert(seen@[j].folder@ == f);
                    }
                    assert(seen@[n].folder@ == folder@);
                }
            }
        },
        None => {
            let mut ids: StringHashSet = StringHashSet::new();
            ids.insert(id.clone());
            seen.push(SeenIds { folder: folder.clone(), ids });
            proof {
                let n = before.len() as int;
                assert forall|i: Seq<char>, f: Seq<char>| #[trigger]
                    is_seen(seen@, i, f) <==> is_seen(before, i, f) || (i == id@ && f
                    == folder@) by {
                    if is_seen(before, i, f) {
                        let j = choose|j: int|
                            0 <= j < before.len() && (#[trigger] before[j]).folder@ == f
                                && before[j].ids@.contains(i);
                        assert(seen@[j] == before[j]);
                    }
                    assert(seen@[n].folder@ == folder@);
                }
            }
        },
    }
    true
}

/// Leaves out the messages whose id comes again in their folder.
pub fn dedupe_emails(emails: &mut Vec<Email>)
    ensures
        mails(final(emails)@) == deduped(mails(old(emails)@)),
{
    let ghost all = mails(emails@);
    let mut taken: Vec<Email> = Vec::new();
    std::mem::swap(emails, &mut taken);
    let mut seen: Vec<SeenIds> = Vec::new();
    assert(mails(emails@) =~= deduped(all.take(0)));
    for e in it: taken
        invariant
            all == mails(it.seq()),
            mails(emails@) == deduped(all.take(it.index() as int)),
            forall|i: Seq<char>, f: Seq<char>| #[trigger]
                is_seen(seen@, i, f) <==> has_message(mails(emails@), i, f),
    {
        let ghost i = it.index() as int;
        let ghost kept = mails(emails@);
        proof {
            assert(all.take(i + 1).drop_last() =~= all.take(i));
            assert(all.take(i + 1).last() == e@);
        }
        if note_id(&mut seen, &e.id, &e.source_folder) {
            let ghost last = e@;
            emails.push(e);
            proof {
                assert(mails(emails@) =~= kept.push(last));
                lemma_has_message_push(kept, last);
            }
        }
    }
    assert(all.take(all.len() as int) =~= all);
}

proof fn lemma_has_message_push(emails: Seq<EmailV>, last: EmailV)
    ensures
        forall|id: Seq<char>, folder: Seq<char>| #[trigger]
            has_message(emails.push(last), id, folder) <==> has_message(emails, id, folder) || (
            last.id == id && last.source_folder == folder),
{
    let more = emails.push(last);
    assert forall|id: Seq<char>, folder: Seq<char>| #[trigger]
        has_message(more, id, folder) <==> has_message(emails, id, folder) || (last.id == id
        && last.source_folder == folder) by {
        if has_message(emails, id, folder) {
            let i = choose|i: int|
                0 <= i < emails.len() && (#[trigger] emails[i]).id == id && emails[i].source_folder
                    == folder;
            assert(more[i] == emails[i]);
        }
        assert(more[emails.len() as int] == last);
    }
}

/// Whether no two messages have the same id in the same folder.
pub open spec fn no_message_twice(emails: Seq<EmailV>) -> bool {
    forall|i: int, j: int|
        0 <= i < j < emails.len() ==> (#[trigger] emails[i]).id != (#[trigger] emails[j]).id
            || emails[i].source_folder != emails[j].source_folder
}

/// Leaving out what comes twice leaves each message once, and changes nothing where no
/// message comes twice.
pub proof fn law_deduped_messages_come_once(emails: Seq<EmailV>)
    ensures
        no_message_twice(deduped(emails)),
        forall|id: Seq<char>, folder: Seq<char>| #[trigger]
            has_message(deduped(emails), id, folder) <==> has_message(emails, id, folder),
        forall|e: EmailV| #[trigger] deduped(emails).contains(e) ==> emails.contains(e),
        no_message_twice(emails) ==> deduped(emails) == emails,
    decreases emails.len(),
{
    if emails.len() > 0 {
        let rest = emails.drop_last();
        let last = emails.last();
        let earlier = deduped(rest);
        law_deduped_messages_come_once(rest);
        lemma_has_message_push(rest, last);
        lemma_has_message_push(earlier, last);
        assert(rest.push(last) =~= emails);
        assert forall|e: EmailV| #[trigger] deduped(emails).contains(e) implies emails.contains(
            e,
        ) by {
            assert(emails[emails.len() - 1] == last);
            if earlier.contains(e) {
                let i = choose|i: int| 0 <= i < rest.len() && rest[i] == e;
                assert(emails[i] == e);
            }
        }
        if no_message_twice(emails) {
            assert forall|i: int, j: int| 0 <= i < j < rest.len() implies (#[trigger] rest[i]).id
                != (#[trigger] rest[j]).id || rest[i].source_folder != rest[j].source_folder by {
                assert(emails[i] == rest[i] && emails[j] == rest[j]);
            }
            if has_message(rest, last.id, last.source_folder) {
                let i = choose|i: int|
                    0 <= i < rest.len() && (#[trigger] rest[i]).id == last.id
                        && rest[i].source_folder == last.source_folder;
                assert(emails[i] == rest[i] && emails[emails.len() - 1] == last);
            }
        }
    }
}

} // verus!
