//! Messages as the Gmail API gives them.
use vstd::prelude::*;

use crate::email::{address_of, domain_of, Email, EmailV};
use crate::text::{lowercase, opt_text, str_eq, to_lower};
use crate::timestamp::{email_date, now, parse_email_date, Timestamp, LAST_SECOND};

verus! {

/// A header: its name and its value, where they are given.
pub type Header = (Option<String>, Option<String>);

/// What a [`Header`] holds.
pub type HeaderV = (Option<Seq<char>>, Option<Seq<char>>);

/// What headers hold.
pub open spec fn header_views(v: Seq<Header>) -> Seq<HeaderV> {
    v.map_values(|h: Header| (opt_text(h.0), opt_text(h.1)))
}

/// A message as the API gives it.
#[derive(Debug, PartialEq)]
pub struct GmailMessage {
    pub id: Option<String>,
    pub thread_id: Option<String>,
    pub snippet: Option<String>,
    /// The headers of the payload.
    pub headers: Option<Vec<Header>>,
}

/// A text, or nothing where there is none.
pub open spec fn or_empty(o: Option<Seq<char>>) -> Seq<char> {
    match o {
        Some(s) => s,
        None => Seq::empty(),
    }
}

/// The value of the last header of a name, whatever the case of its letters; empty where
/// there is none.
pub open spec fn last_value(headers: Seq<HeaderV>, name: Seq<char>) -> Seq<char>
    decreases headers.len(),
{
    if headers.len() == 0 {
        Seq::empty()
    } else {
        match headers.last() {
            (Some(n), Some(value)) => if lowercase(n) == name {
                value
            } else {
                last_value(headers.drop_last(), name)
            },
            _ => last_value(headers.drop_last(), name),
        }
    }
}

impl GmailMessage {
    /// Whether a message has an identifier and headers.
    pub open spec fn is_complete(self) -> bool {
        self.id is Some && self.headers is Some
    }

    /// The message that is made of a complete one. It is dated by its date header, or by
    /// `now` where that cannot be read.
    pub open spec fn email(self, now: Timestamp) -> EmailV {
        let headers = header_views(self.headers->0@);
        let from = last_value(headers, "from"@);
        EmailV {
            id: self.id->0@,
            thread_id: or_empty(opt_text(self.thread_id)),
            from,
            from_email: address_of(from),
            from_domain: domain_of(address_of(from)),
            subject: last_value(headers, "subject"@),
            snippet: or_empty(opt_text(self.snippet)),
            date: match email_date(last_value(headers, "date"@)) {
                Some(date) => date,
                None => now,
            },
            message_id: None,
            in_reply_to: None,
            references: Seq::empty(),
            source_folder: "INBOX"@,
            body: None,
        }
    }
}

fn find_last(headers: &Vec<Header>, name: &str) -> (r: String)
    ensures
        r@ == last_value(header_views(headers@), name@),
{
    let ghost all = header_views(headers@);
    let mut i: usize = headers.len();
    assert(all.take(i as int) =~= all);
    while i > 0
        invariant
            i <= headers@.len(),
            all == header_views(headers@),
            last_value(all, name@) == last_value(all.take(i as int), name@),
        decreases i,
    {
        i -= 1;
        proof {
            assert(all.take(i + 1).drop_last() =~= all.take(i as int));
            assert(all.take(i + 1).last() == all[i as int]);
            assert(all[i as int] == (
                opt_text(headers@[i as int].0),
                opt_text(headers@[i as int].1),
            ));
        }
        if let (Some(n), Some(value)) = (&headers[i].0, &headers[i].1) {
            if str_eq(to_lower(n.as_str()).as_str(), name) {
                return value.clone();
            }
        }
    }
    String::new()
}

fn clone_or_empty(o: &Option<String>) -> (r: String)
    ensures
        r@ == or_empty(opt_text(*o)),
{
    match o {
        Some(s) => s.clone(),
        None => String::new(),
    }
}

/// Makes a message of what the API gave, at some time.
pub fn parse_message_at(message: &GmailMessage, now: Timestamp) -> (r: Option<Email>)
    ensures
        match r {
            Some(e) => message.is_complete() && e@ == message.email(now),
            None => !message.is_complete(),
        },
{
    match (&message.id, &message.headers) {
        (Some(id), Some(headers)) => {
            let date: Timestamp = match parse_email_date(find_last(headers, "date").as_str()) {
                Some(date) => date,
                None => now,
            };
            Some(
                Email::new(
                    id.clone(),
                    clone_or_empty(&message.thread_id),
                    find_last(headers, "from"),
                    find_last(headers, "subject"),
                    clone_or_empty(&message.snippet),
                    date,
                ),
            )
        },
        _ => None,
    }
}

/// Makes a message of what the API gave. One without a date that can be read is dated by the
/// clock.
pub fn parse_message(message: &GmailMessage) -> (r: Option<Email>)
    ensures
        match r {
            Some(e) => message.is_complete() && exists|now: Timestamp|
                0 <= now.secs <= LAST_SECOND && e@ == #[trigger] message.email(now),
            None => !message.is_complete(),
        },
{
    parse_message_at(message, now())
}

} // verus!
