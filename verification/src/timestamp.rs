//! Instants on the UTC time line.
use chrono::TimeZone;
use vstd::prelude::*;

use crate::text::{opt_text, parse_signed, signed_value};

verus! {

/// An instant: whole seconds since the Unix epoch, and the nanoseconds after them.
#[derive(Debug, Clone, Copy, PartialEq, Eq, Structural)]
pub struct Timestamp {
    pub secs: i64,
    pub nanos: u32,
}

impl Timestamp {
    /// Whether this instant lies after the other one.
    pub open spec fn is_after(self, other: Timestamp) -> bool {
        self.secs > other.secs || (self.secs == other.secs && self.nanos > other.nanos)
    }

    /// Whether this instant lies after the other one.
    pub fn after(&self, other: &Timestamp) -> (r: bool)
        ensures
            r == self.is_after(*other),
    {
        self.secs > other.secs || (self.secs == other.secs && self.nanos > other.nanos)
    }
}

/// The first second that a calendar date can name.
pub const FIRST_SECOND: i64 = -8334601228800;

/// The last second that a calendar date can name.
pub const LAST_SECOND: i64 = 8210266876799;

/// `chrono::Utc::now`: some instant that is not before the Unix epoch, since a clock set
/// before it makes the call panic. Nothing else is claimed of it.
#[verifier::external_body]
pub(crate) fn now() -> (r: Timestamp)
    ensures
        0 <= r.secs <= LAST_SECOND,
{
    let t = chrono::Utc::now();
    Timestamp { secs: t.timestamp(), nanos: t.timestamp_subsec_nanos() }
}

/// `chrono::TimeZone::timestamp_opt` for UTC: the second itself, if it lies in the
/// range of calendar dates from the year -262143 to the year 262142.
#[verifier::external_body]
pub(crate) fn at_second(secs: i64) -> (r: Option<Timestamp>)
    ensures
        r == second_instant(secs as int),
{
    let t = chrono::Utc.timestamp_opt(secs, 0).single();
    t.map(|t| Timestamp { secs: t.timestamp(), nanos: t.timestamp_subsec_nanos() })
}

/// The instant that `chrono::DateTime::parse_from_rfc2822` reads out of a text, as
/// seconds and nanoseconds.
pub uninterp spec fn rfc2822_instant(s: Seq<char>) -> Option<(i64, u32)>;

/// `chrono::DateTime::parse_from_rfc2822`, taken to UTC: a function of the text.
#[verifier::external_body]
pub(crate) fn parse_rfc2822(s: &str) -> (r: Option<Timestamp>)
    ensures
        r == instant(rfc2822_instant(s@)),
{
    let t = chrono::DateTime::parse_from_rfc2822(s).ok();
    t.map(|t| Timestamp { secs: t.timestamp(), nanos: t.timestamp_subsec_nanos() })
}

/// The instant that `chrono::DateTime::parse_from_str` reads out of a text under a
/// format, as seconds and nanoseconds.
pub uninterp spec fn formatted_instant(s: Seq<char>, format: Seq<char>) -> Option<(i64, u32)>;

/// `chrono::DateTime::parse_from_str`, taken to UTC: a function of the text and the
/// format.
#[verifier::external_body]
pub(crate) fn parse_formatted(s: &str, format: &str) -> (r: Option<Timestamp>)
    ensures
        r == instant(formatted_instant(s@, format@)),
{
    let t = chrono::DateTime::parse_from_str(s, format).ok();
    t.map(|t| Timestamp { secs: t.timestamp(), nanos: t.timestamp_subsec_nanos() })
}

/// Seconds and nanoseconds as an instant.
pub open spec fn instant(t: Option<(i64, u32)>) -> Option<Timestamp> {
    match t {
        Some((secs, nanos)) => Some(Timestamp { secs, nanos }),
        None => None,
    }
}

/// The instant of a number of seconds since the epoch, if it has a calendar date.
pub open spec fn second_instant(secs: int) -> Option<Timestamp> {
    if FIRST_SECOND <= secs <= LAST_SECOND {
        Some(Timestamp { secs: secs as i64, nanos: 0 })
    } else {
        None
    }
}

/// How the calendar date and the time of day of an instant are written, in UTC.
pub const MINUTES: &'static str = "%Y-%m-%d %H:%M";

/// What `chrono::DateTime::format` makes of an instant in UTC, given by seconds and
/// nanoseconds; nothing where `chrono::DateTime::from_timestamp` has no such instant.
pub uninterp spec fn formatted_utc(secs: i64, nanos: u32, format: Seq<char>) -> Option<Seq<char>>;

/// `chrono::DateTime::from_timestamp`, then `format`: a function of the instant and the
/// format. Writing an instant panics under a malformed format, so that only the one that is
/// needed is admitted.
#[verifier::external_body]
pub(crate) fn format_utc(t: Timestamp, format: &str) -> (r: Option<String>)
    requires
        format@ == MINUTES@,
    ensures
        opt_text(r) == formatted_utc(t.secs, t.nanos, format@),
{
    chrono::DateTime::from_timestamp(t.secs, t.nanos).map(|t| t.format(format).to_string())
}

/// The date that a text is given, from what each way of reading it made of it.
///
/// The mail format comes first, then the fallback formats in order, then a bare number
/// of seconds since the epoch.
pub open spec fn chosen_date(
    mail: Option<Timestamp>,
    fallbacks: Seq<Option<Timestamp>>,
    text: Seq<char>,
) -> Option<Timestamp>
    decreases fallbacks.len(),
{
    if mail is Some {
        mail
    } else if fallbacks.len() > 0 {
        chosen_date(fallbacks.first(), fallbacks.drop_first(), text)
    } else {
        match signed_value(text) {
            Some(secs) => second_instant(secs),
            None => None,
        }
    }
}

/// Picks the date of a text out of what each way of reading it made of it.
pub fn choose_date(
    mail: Option<Timestamp>,
    fallbacks: &Vec<Option<Timestamp>>,
    text: &str,
) -> (r: Option<Timestamp>)
    ensures
        r == chosen_date(mail, fallbacks@, text@),
{
    if mail.is_some() {
        return mail;
    }
    assert(fallbacks@.skip(0) =~= fallbacks@);
    let mut i: usize = 0;
    while i < fallbacks.len()
        invariant
            i <= fallbacks@.len(),
            mail is None,
            chosen_date(mail, fallbacks@, text@) == chosen_date(
                mail,
                fallbacks@.skip(i as int),
                text@,
            ),
        decreases fallbacks@.len() - i,
    {
        let ghost rest = fallbacks@.skip(i as int);
        assert(rest.drop_first() =~= fallbacks@.skip(i + 1));
        assert(chosen_date(mail, rest, text@) == chosen_date(
            fallbacks@[i as int],
            rest.drop_first(),
            text@,
        ));
        if fallbacks[i].is_some() {
            return fallbacks[i];
        }
        i += 1;
    }
    match parse_signed(text) {
        Some(secs) => at_second(secs),
        None => None,
    }
}

/// The date of an email header.
pub open spec fn email_date(text: Seq<char>) -> Option<Timestamp> {
    chosen_date(
        instant(rfc2822_instant(text)),
        seq![
            instant(formatted_instant(text, "%a, %d %b %Y %H:%M:%S %z"@)),
            instant(formatted_instant(text, "%d %b %Y %H:%M:%S %z"@)),
            instant(formatted_instant(text, "%a, %d %b %Y %H:%M:%S %Z"@)),
        ],
        text,
    )
}

/// Reads the date of an email header.
pub fn parse_email_date(date_str: &str) -> (r: Option<Timestamp>)
    ensures
        r == email_date(date_str@),
{
    let mut fallbacks: Vec<Option<Timestamp>> = Vec::new();
    fallbacks.push(parse_formatted(date_str, "%a, %d %b %Y %H:%M:%S %z"));
    fallbacks.push(parse_formatted(date_str, "%d %b %Y %H:%M:%S %z"));
    fallbacks.push(parse_formatted(date_str, "%a, %d %b %Y %H:%M:%S %Z"));
    let mail: Option<Timestamp> = parse_rfc2822(date_str);
    assert(fallbacks@ =~= seq![
        instant(formatted_instant(date_str@, "%a, %d %b %Y %H:%M:%S %z"@)),
        instant(formatted_instant(date_str@, "%d %b %Y %H:%M:%S %z"@)),
        instant(formatted_instant(date_str@, "%a, %d %b %Y %H:%M:%S %Z"@)),
    ]);
    choose_date(mail, &fallbacks, date_str)
}

} // verus!
