//! The mail server: what is asked of it, and what is made of its answers.
use vstd::hash_map::StringHashMap;
use vstd::prelude::*;
use vstd::string::StringExecFns;

use crate::email::{Email, EmailBuilder, EmailBuilderV, EmailV};
use crate::headers::{
    decode_header_value, header_text, mime_value, parse_threading_headers, threading_of, unfolded,
    ThreadingV,
};
use crate::text::{
    at_most, decimal, decimal_text, decode_lossy, find_char, first_chars, join, joined, lines_of,
    opt_text, replace, replaced, str_eq, texts, to_chars, utf8_lossy,
};
use crate::timestamp::{email_date, now, parse_email_date, Timestamp, LAST_SECOND};
use crate::uids::{covers, extract_uid_ranges, law_uid_ranges, uid_ranges};

verus! {

broadcast use vstd::seq_lib::group_seq_properties;

/// The folder of archived messages.
pub const ALL_MAIL: &'static str = "[Gmail]/All Mail";

/// The folder of deleted messages.
pub const TRASH: &'static str = "[Gmail]/Trash";

/// A message to be put back: its Message-ID, its UID in the folder it is in, that folder, and
/// the folder it goes back to.
pub type Restore = (Option<String>, Option<u32>, String, String);

/// What can be asked of a mail server.
pub trait EmailClient {
    /// Archives a message. Returns its UID in the archive, if the server tells.
    fn archive_email(&mut self, email_id: &str, folder: &str) -> Result<Option<u32>, String>;

    /// Deletes a message. Returns its UID in the trash, if the server tells.
    fn delete_email(&mut self, email_id: &str, folder: &str) -> Result<Option<u32>, String>;

    /// Archives messages of one folder. Returns their UIDs in the archive, as far as the
    /// server tells.
    fn archive_batch(&mut self, uids: &[String], folder: &str) -> Result<
        StringHashMap<u32>,
        String,
    >;

    /// Deletes messages of one folder. Returns their UIDs in the trash, as far as the server
    /// tells.
    fn delete_batch(&mut self, uids: &[String], folder: &str) -> Result<
        StringHashMap<u32>,
        String,
    >;

    /// Puts messages back.
    fn restore_emails(&mut self, emails: &[Restore]) -> Result<(), String>;
}

// ---------------------------------------------------------------------------
// Messages

/// An address as the server sends it.
#[derive(Debug, PartialEq)]
pub struct Address {
    pub name: Option<Vec<u8>>,
    pub mailbox: Option<Vec<u8>>,
    pub host: Option<Vec<u8>>,
}

/// The parts of an envelope that are looked at.
#[derive(Debug, PartialEq)]
pub struct Envelope {
    pub from: Option<Vec<Address>>,
    pub subject: Option<Vec<u8>>,
    pub date: Option<Vec<u8>>,
}

/// A message as the server sends it.
#[derive(Debug, PartialEq)]
pub struct FetchedMessage {
    pub uid: Option<u32>,
    pub envelope: Option<Envelope>,
    pub header: Option<Vec<u8>>,
}

/// What optional bytes hold.
pub open spec fn opt_bytes(o: Option<Vec<u8>>) -> Option<Seq<u8>> {
    match o {
        Some(v) => Some(v@),
        None => None,
    }
}

/// The text of optional bytes.
pub open spec fn lossy_text(o: Option<Seq<u8>>) -> Option<Seq<char>> {
    match o {
        Some(bytes) => Some(utf8_lossy(bytes)),
        None => None,
    }
}

/// A sender, by name and address. Without a full address the sender is unknown.
pub open spec fn sender(
    name: Option<Seq<char>>,
    mailbox: Option<Seq<char>>,
    host: Option<Seq<char>>,
) -> Seq<char> {
    match (name, mailbox, host) {
        (Some(n), Some(m), Some(h)) => n + " <"@ + m + "@"@ + h + ">"@,
        (None, Some(m), Some(h)) => m + "@"@ + h,
        _ => "unknown"@,
    }
}

impl Address {
    /// The sender that an address stands for.
    pub open spec fn sender(self) -> Seq<char> {
        sender(
            lossy_text(opt_bytes(self.name)),
            lossy_text(opt_bytes(self.mailbox)),
            lossy_text(opt_bytes(self.host)),
        )
    }
}

/// The subject of an envelope, decoded.
pub open spec fn subject_text(o: Option<Seq<u8>>) -> Seq<char> {
    match o {
        Some(bytes) => header_text(utf8_lossy(bytes), mime_value("X: "@ + utf8_lossy(bytes))),
        None => Seq::empty(),
    }
}

/// The date of an envelope, or the present where it has none that can be read.
pub open spec fn envelope_date(o: Option<Seq<u8>>, now: Timestamp) -> Timestamp {
    match o {
        Some(bytes) => match email_date(utf8_lossy(bytes)) {
            Some(date) => date,
            None => now,
        },
        None => now,
    }
}

/// The threading headers of a message.
pub open spec fn header_threading(o: Option<Seq<u8>>) -> ThreadingV {
    match o {
        Some(bytes) => threading_of(lines_of(unfolded(utf8_lossy(bytes)))),
        None => ThreadingV { message_id: None, in_reply_to: None, references: Seq::empty() },
    }
}

impl FetchedMessage {
    /// Whether there is a message to speak of: it has a UID, an envelope and a sender.
    pub open spec fn is_complete(self) -> bool {
        &&& self.uid is Some
        &&& self.envelope is Some
        &&& (self.envelope->0).from is Some
        &&& (self.envelope->0).from->0@.len() > 0
    }

    /// The message, found in a folder at some time.
    pub open spec fn email(self, folder: Seq<char>, now: Timestamp) -> EmailV {
        let envelope = self.envelope->0;
        let subject = subject_text(opt_bytes(envelope.subject));
        let threading = header_threading(opt_bytes(self.header));
        (EmailBuilderV {
            id: decimal(self.uid->0 as nat),
            from: envelope.from->0@[0].sender(),
            subject,
            snippet: at_most(subject, 100),
            date: Some(envelope_date(opt_bytes(envelope.date), now)),
            message_id: threading.message_id,
            in_reply_to: threading.in_reply_to,
            references: threading.references,
            source_folder: folder,
        }).built_at(now)
    }
}

/// The text of optional bytes.
fn decode_opt(o: &Option<Vec<u8>>) -> (r: Option<String>)
    ensures
        opt_text(r) == lossy_text(opt_bytes(*o)),
{
    match o {
        Some(bytes) => Some(decode_lossy(bytes.as_slice())),
        None => None,
    }
}

/// The sender that an address stands for.
fn sender_of(address: &Address) -> (r: String)
    ensures
        r@ == address.sender(),
{
    let name: Option<String> = decode_opt(&address.name);
    let mailbox: Option<String> = decode_opt(&address.mailbox);
    let host: Option<String> = decode_opt(&address.host);
    match (name, mailbox, host) {
        (Some(n), Some(m), Some(h)) => n.concat(" <").concat(m.as_str()).concat("@").concat(
            h.as_str(),
        ).concat(">"),
        (None, Some(m), Some(h)) => m.concat("@").concat(h.as_str()),
        _ => "unknown".to_owned(),
    }
}

/// Makes a message of what the server sent, at some time.
pub fn parse_message_at(message: &FetchedMessage, source_folder: &str, now: Timestamp) -> (r:
    Option<Email>)
    ensures
        match r {
            Some(e) => message.is_complete() && e@ == message.email(source_folder@, now),
            None => !message.is_complete(),
        },
{
    let uid: u32 = match message.uid {
        Some(uid) => uid,
        None => {
            return None;
        },
    };
    match &message.envelope {
        None => None,
        Some(envelope) => match &envelope.from {
            None => None,
            Some(addresses) => {
                if addresses.len() == 0 {
                    return None;
                }
                let from: String = sender_of(&addresses[0]);
                let subject: String = match &envelope.subject {
                    Some(bytes) => decode_header_value(bytes.as_slice()),
                    None => String::new(),
                };
                let date: Timestamp = match &envelope.date {
                    Some(bytes) => match parse_email_date(
                        decode_lossy(bytes.as_slice()).as_str(),
                    ) {
                        Some(date) => date,
                        None => now,
                    },
                    None => now,
                };
                let (message_id, in_reply_to, references) = match &message.header {
                    Some(bytes) => parse_threading_headers(bytes.as_slice()),
                    None => {
                        let none: Vec<String> = Vec::new();
                        assert(texts(none@) =~= Seq::<Seq<char>>::empty());
                        (None, None, none)
                    },
                };
                assert(subject@ =~= subject_text(opt_bytes(envelope.subject)));
                let snippet: String = first_chars(subject.as_str(), 100);
                let ghost threading = header_threading(opt_bytes(message.header));
                assert(threading == (ThreadingV {
                    message_id: opt_text(message_id),
                    in_reply_to: opt_text(in_reply_to),
                    references: texts(references@),
                }));
                let mut builder: EmailBuilder = EmailBuilder::new().id(
                    decimal_text(uid as u64).as_str(),
                ).from(from.as_str()).subject(subject.as_str()).snippet(snippet.as_str()).date(
                    date,
                ).references(references).source_folder(source_folder);
                if let Some(id) = &message_id {
                    builder = builder.message_id(id.as_str());
                }
                if let Some(id) = &in_reply_to {
                    builder = builder.in_reply_to(id.as_str());
                }
                Some(builder.build_at(now))
            },
        },
    }
}

/// The text of a body.
pub fn body_text(bytes: &[u8]) -> (r: String)
    ensures
        r@ == utf8_lossy(bytes@),
{
    decode_lossy(bytes)
}

/// Makes a message of what the server sent. One without a date that can be read is dated by
/// the clock.
pub fn parse_message(message: &FetchedMessage, source_folder: &str) -> (r: Option<Email>)
    ensures
        match r {
            Some(e) => message.is_complete() && exists|now: Timestamp|
                0 <= now.secs <= LAST_SECOND && e@ == #[trigger] message.email(
                    source_folder@,
                    now,
                ),
            None => !message.is_complete(),
        },
{
    parse_message_at(message, source_folder, now())
}

// ---------------------------------------------------------------------------
// Commands

/// A mailbox name as it stands in a command: in quotes where it has a space or a quote.
pub open spec fn mailbox_argument(mailbox: Seq<char>) -> Seq<char> {
    if mailbox.contains(' ') || mailbox.contains('"') {
        "\""@ + replaced(mailbox, "\""@, "\\\""@) + "\""@
    } else {
        mailbox
    }
}

/// The command that moves messages.
pub open spec fn move_command_text(uids: Seq<char>, mailbox: Seq<char>) -> Seq<char> {
    "UID MOVE "@ + uids + " "@ + mailbox_argument(mailbox)
}

/// The command that moves messages to a mailbox.
pub fn move_command(uids: &str, dest_mailbox: &str) -> (r: String)
    ensures
        r@ == move_command_text(uids@, dest_mailbox@),
{
    let v: Vec<char> = to_chars(dest_mailbox);
    let space: usize = find_char(&v, ' ', 0);
    let quote: usize = find_char(&v, '"', 0);
    proof {
        reveal_strlit("\"");
        if space < v@.len() {
            assert(dest_mailbox@.contains(' '));
        }
        if quote < v@.len() {
            assert(dest_mailbox@.contains('"'));
        }
    }
    let mailbox: String = if space < v.len() || quote < v.len() {
        "\"".to_owned().concat(replace(dest_mailbox, "\"", "\\\"").as_str()).concat("\"")
    } else {
        dest_mailbox.to_owned()
    };
    "UID MOVE ".to_owned().concat(uids).concat(" ").concat(mailbox.as_str())
}

/// The command that moves a batch of messages; no command for no messages.
pub open spec fn batch_text(uids: Seq<Seq<char>>, mailbox: Seq<char>) -> Option<Seq<char>> {
    if uids.len() == 0 {
        None
    } else {
        Some(move_command_text(joined(uids, ","@), mailbox))
    }
}

/// The command that moves a batch of messages; no command for no messages.
pub fn batch_command(uids: &[String], dest_mailbox: &str) -> (r: Option<String>)
    ensures
        opt_text(r) == batch_text(texts(uids@), dest_mailbox@),
{
    if uids.len() == 0 {
        None
    } else {
        Some(move_command(join(uids, ",").as_str(), dest_mailbox))
    }
}

/// The notation of a range of numbers, both ends of it included.
pub open spec fn span(first: u32, last: u32) -> Seq<char> {
    decimal(first as nat) + ":"@ + decimal(last as nat)
}

/// The sequence numbers to fetch; none where the range is empty or starts at zero.
pub open spec fn sequence_text(start: u32, end: u32) -> Option<Seq<char>> {
    if start > end || start == 0 {
        None
    } else {
        Some(span(start, end))
    }
}

/// The sequence numbers to fetch; none where the range is empty or starts at zero.
pub fn fetch_sequence(start: u32, end: u32) -> (r: Option<String>)
    ensures
        opt_text(r) == sequence_text(start, end),
{
    if start > end || start == 0 {
        None
    } else {
        Some(
            decimal_text(start as u64).concat(":").concat(decimal_text(end as u64).as_str()),
        )
    }
}

/// The search for a message by its Message-ID.
pub open spec fn search_text(message_id: Seq<char>) -> Seq<char> {
    "HEADER Message-ID "@ + message_id
}

/// The search for a message by its Message-ID.
pub fn search_query(message_id: &str) -> (r: String)
    ensures
        r@ == search_text(message_id@),
{
    "HEADER Message-ID ".to_owned().concat(message_id)
}

// ---------------------------------------------------------------------------
// Putting messages back

/// What a [`Restore`] holds.
pub type RestoreV = (Option<Seq<char>>, Option<u32>, Seq<char>, Seq<char>);

/// What a list of messages to be put back holds.
pub open spec fn restore_views(v: Seq<Restore>) -> Seq<RestoreV> {
    v.map_values(|r: Restore| (opt_text(r.0), r.1, r.2@, r.3@))
}

/// One step of putting messages back.
#[derive(Debug, PartialEq)]
pub enum RestoreStep {
    /// Open a folder.
    Select { folder: String },
    /// Move messages of the open folder.
    Move { uids: String, folder: String },
    /// Look for a message in the open folder by its Message-ID, and move it if it is there.
    Find { message_id: String, folder: String },
}

/// What a [`RestoreStep`] holds.
#[verifier::ext_equal]
pub enum RestoreStepV {
    Select { folder: Seq<char> },
    Move { uids: Seq<char>, folder: Seq<char> },
    Find { message_id: Seq<char>, folder: Seq<char> },
}

impl View for RestoreStep {
    type V = RestoreStepV;

    open spec fn view(&self) -> RestoreStepV {
        match self {
            RestoreStep::Select { folder } => RestoreStepV::Select { folder: folder@ },
            RestoreStep::Move { uids, folder } => RestoreStepV::Move {
                uids: uids@,
                folder: folder@,
            },
            RestoreStep::Find { message_id, folder } => RestoreStepV::Find {
                message_id: message_id@,
                folder: folder@,
            },
        }
    }
}

/// What a list of steps holds.
pub open spec fn step_views(v: Seq<RestoreStep>) -> Seq<RestoreStepV> {
    v.map_values(|s: RestoreStep| s@)
}

/// A way from one folder to another.
pub type RouteV = (Seq<char>, Seq<char>);

/// The ways of the messages whose UIDs are known, each once, in the order of first
/// appearance.
pub open spec fn routes(items: Seq<RestoreV>) -> Seq<RouteV>
    decreases items.len(),
{
    if items.len() == 0 {
        Seq::empty()
    } else {
        let earlier = routes(items.drop_last());
        let item = items.last();
        if item.1 is None || earlier.contains((item.2, item.3)) {
            earlier
        } else {
            earlier.push((item.2, item.3))
        }
    }
}

/// The known UIDs of the messages that go one way.
pub open spec fn route_uids(items: Seq<RestoreV>, route: RouteV) -> Seq<u32>
    decreases items.len(),
{
    if items.len() == 0 {
        Seq::empty()
    } else {
        let earlier = route_uids(items.drop_last(), route);
        let item = items.last();
        if item.1 is Some && (item.2, item.3) == route {
            earlier.push(item.1->0)
        } else {
            earlier
        }
    }
}

/// The notation of a range of UIDs.
pub open spec fn range_text(range: (u32, u32)) -> Seq<char> {
    if range.0 == range.1 {
        decimal(range.0 as nat)
    } else {
        span(range.0, range.1)
    }
}

/// The steps of one way: the folder is opened, and each range of UIDs is moved.
pub open spec fn route_steps(uids: Seq<u32>, route: RouteV) -> Seq<RestoreStepV> {
    seq![RestoreStepV::Select { folder: route.0 }] + uid_ranges(uids).map_values(
        |range: (u32, u32)| RestoreStepV::Move { uids: range_text(range), folder: route.1 },
    )
}

/// The steps of some ways.
pub open spec fn routes_steps(items: Seq<RestoreV>, ways: Seq<RouteV>) -> Seq<RestoreStepV>
    decreases ways.len(),
{
    if ways.len() == 0 {
        Seq::empty()
    } else {
        routes_steps(items, ways.drop_last()) + route_steps(
            route_uids(items, ways.last()),
            ways.last(),
        )
    }
}

/// Whether a message has to be looked for.
pub open spec fn is_sought(item: RestoreV) -> bool {
    item.1 is None && item.0 is Some
}

/// The folder that is open after looking for messages.
pub open spec fn open_after(items: Seq<RestoreV>) -> Option<Seq<char>>
    decreases items.len(),
{
    if items.len() == 0 {
        None
    } else if is_sought(items.last()) {
        Some(items.last().2)
    } else {
        open_after(items.drop_last())
    }
}

/// The steps of looking for the messages whose UIDs are not known. A folder is opened where
/// it is not the one that is open; a message without a Message-ID is passed over.
pub open spec fn search_steps(items: Seq<RestoreV>) -> Seq<RestoreStepV>
    decreases items.len(),
{
    if items.len() == 0 {
        Seq::empty()
    } else {
        let earlier = search_steps(items.drop_last());
        let item = items.last();
        if !is_sought(item) {
            earlier
        } else {
            let opened = if open_after(items.drop_last()) == Some(item.2) {
                earlier
            } else {
                earlier.push(RestoreStepV::Select { folder: item.2 })
            };
            opened.push(RestoreStepV::Find { message_id: item.0->0, folder: item.3 })
        }
    }
}

/// The steps of putting messages back.
pub open spec fn restore_plan(items: Seq<RestoreV>) -> Seq<RestoreStepV> {
    routes_steps(items, routes(items)) + search_steps(items)
}

/// The way of a message.
spec fn way(r: (String, String)) -> RouteV {
    (r.0@, r.1@)
}

/// The ways of the messages whose UIDs are known.
fn find_routes(emails: &[Restore]) -> (r: Vec<(String, String)>)
    ensures
        r@.map_values(|w: (String, String)| way(w)) == routes(restore_views(emails@)),
{
    let ghost items = restore_views(emails@);
    let mut r: Vec<(String, String)> = Vec::new();
    let mut i: usize = 0;
    assert(r@.map_values(|w: (String, String)| way(w)) =~= routes(items.take(0)));
    while i < emails.len()
        invariant
            i <= emails@.len(),
            items == restore_views(emails@),
            r@.map_values(|w: (String, String)| way(w)) == routes(items.take(i as int)),
        decreases emails@.len() - i,
    {
        let ghost known = r@.map_values(|w: (String, String)| way(w));
        let ghost mine = (items[i as int].2, items[i as int].3);
        proof {
            assert(items.take(i + 1).drop_last() =~= items.take(i as int));
            assert(items.take(i + 1).last() == items[i as int]);
        }
        if emails[i].1.is_some() {
            let mut found: bool = false;
            let mut k: usize = 0;
            while k < r.len()
                invariant
                    i < emails@.len(),
                    k <= r@.len(),
                    items == restore_views(emails@),
                    mine == (items[i as int].2, items[i as int].3),
                    known == r@.map_values(|w: (String, String)| way(w)),
                    found ==> known.contains(mine),
                    !found ==> forall|j: int| 0 <= j < k ==> #[trigger] known[j] != mine,
                decreases r@.len() - k,
            {
                assert(known[k as int] == way(r@[k as int]));
                if str_eq(r[k].0.as_str(), emails[i].2.as_str()) && str_eq(
                    r[k].1.as_str(),
                    emails[i].3.as_str(),
                ) {
                    found = true;
                }
                k += 1;
            }
            if !found {
                let ghost before = r@;
                r.push((emails[i].2.clone(), emails[i].3.clone()));
                assert(r@.map_values(|w: (String, String)| way(w)) =~= known.push(mine));
            }
        }
        i += 1;
    }
    assert(items.take(i as int) =~= items);
    r
}

/// The known UIDs of the messages that go one way.
fn find_route_uids(emails: &[Restore], from: &String, to: &String) -> (r: Vec<u32>)
    ensures
        r@ == route_uids(restore_views(emails@), (from@, to@)),
{
    let ghost items = restore_views(emails@);
    let mut r: Vec<u32> = Vec::new();
    let mut i: usize = 0;
    assert(r@ =~= route_uids(items.take(0), (from@, to@)));
    while i < emails.len()
        invariant
            i <= emails@.len(),
            items == restore_views(emails@),
            r@ == route_uids(items.take(i as int), (from@, to@)),
        decreases emails@.len() - i,
    {
        proof {
            assert(items.take(i + 1).drop_last() =~= items.take(i as int));
            assert(items.take(i + 1).last() == items[i as int]);
        }
        if let Some(uid) = emails[i].1 {
            if str_eq(emails[i].2.as_str(), from.as_str()) && str_eq(
                emails[i].3.as_str(),
                to.as_str(),
            ) {
                r.push(uid);
            }
        }
        i += 1;
    }
    assert(items.take(i as int) =~= items);
    r
}

/// The notation of a range of UIDs.
fn write_range(range: (u32, u32)) -> (r: String)
    ensures
        r@ == range_text(range),
{
    if range.0 == range.1 {
        decimal_text(range.0 as u64)
    } else {
        decimal_text(range.0 as u64).concat(":").concat(decimal_text(range.1 as u64).as_str())
    }
}

/// The steps of putting messages back.
///
/// Messages whose UIDs are known are moved in ranges, one folder after the other. The others
/// are looked for by their Message-IDs, one by one.
pub fn restore_steps(emails: &[Restore]) -> (r: Vec<RestoreStep>)
    ensures
        step_views(r@) == restore_plan(restore_views(emails@)),
{
    let ghost items = restore_views(emails@);
    let ways: Vec<(String, String)> = find_routes(emails);
    let ghost ws = ways@.map_values(|w: (String, String)| way(w));
    let mut r: Vec<RestoreStep> = Vec::new();
    let mut i: usize = 0;
    assert(step_views(r@) =~= routes_steps(items, ws.take(0)));
    while i < ways.len()
        invariant
            i <= ways@.len(),
            items == restore_views(emails@),
            ws == ways@.map_values(|w: (String, String)| way(w)),
            step_views(r@) == routes_steps(items, ws.take(i as int)),
        decreases ways@.len() - i,
    {
        let ghost done = step_views(r@);
        let ghost w = ws[i as int];
        proof {
            assert(ws.take(i + 1).drop_last() =~= ws.take(i as int));
            assert(ws.take(i + 1).last() == w);
            assert(w == (ways@[i as int].0@, ways@[i as int].1@));
        }
        let uids: Vec<u32> = find_route_uids(emails, &ways[i].0, &ways[i].1);
        let ranges: Vec<(u32, u32)> = extract_uid_ranges(uids.as_slice());
        let ghost steps = route_steps(uids@, w);
        let ghost r0 = r@;
        r.push(RestoreStep::Select { folder: ways[i].0.clone() });
        assert(step_views(r@) =~= done + steps.take(1));
        let mut k: usize = 0;
        while k < ranges.len()
            invariant
                i < ways@.len(),
                k <= ranges@.len(),
                ranges@ == uid_ranges(uids@),
                w == (ways@[i as int].0@, ways@[i as int].1@),
                steps == route_steps(uids@, w),
                step_views(r@) == done + steps.take(k + 1),
            decreases ranges@.len() - k,
        {
            let ghost before = r@;
            r.push(RestoreStep::Move { uids: write_range(ranges[k]), folder: ways[i].1.clone() });
            proof {
                assert(steps[k + 1] == r@.last()@);
                assert(steps.take(k + 2) =~= steps.take(k + 1).push(steps[k + 1]));
                assert(step_views(r@) =~= step_views(before).push(steps[k + 1]));
                assert(step_views(r@) =~= done + steps.take(k + 2));
            }
            k += 1;
        }
        assert(steps.take(k + 1) =~= steps);
        i += 1;
    }
    assert(ws.take(i as int) =~= ws);
    let ghost moved = step_views(r@);
    let mut open: Option<String> = None;
    let mut j: usize = 0;
    assert(step_views(r@) =~= moved + search_steps(items.take(0)));
    while j < emails.len()
        invariant
            j <= emails@.len(),
            items == restore_views(emails@),
            opt_text(open) == open_after(items.take(j as int)),
            step_views(r@) == moved + search_steps(items.take(j as int)),
        decreases emails@.len() - j,
    {
        let ghost item = items[j as int];
        let ghost before = search_steps(items.take(j as int));
        let ghost r0 = r@;
        proof {
            assert(items.take(j + 1).drop_last() =~= items.take(j as int));
            assert(items.take(j + 1).last() == item);
        }
        if emails[j].1.is_none() {
            if let Some(message_id) = &emails[j].0 {
                let is_open: bool = match &open {
                    Some(folder) => str_eq(folder.as_str(), emails[j].2.as_str()),
                    None => false,
                };
                if !is_open {
                    let step: RestoreStep = RestoreStep::Select { folder: emails[j].2.clone() };
                    assert(step@ == RestoreStepV::Select { folder: item.2 });
                    r.push(step);
                    assert(step_views(r@) =~= step_views(r0).push(step@));
                    assert(step_views(r@) =~= moved + before.push(step@));
                    open = Some(emails[j].2.clone());
                }
                let ghost opened = if is_open {
                    before
                } else {
                    before.push(RestoreStepV::Select { folder: item.2 })
                };
                let ghost r1 = r@;
                let step: RestoreStep = RestoreStep::Find {
                    message_id: message_id.clone(),
                    folder: emails[j].3.clone(),
                };
                assert(step@ == RestoreStepV::Find { message_id: item.0->0, folder: item.3 });
                r.push(step);
                assert(step_views(r@) =~= step_views(r1).push(step@));
                assert(step_views(r@) =~= moved + opened.push(step@));
            }
        }
        j += 1;
    }
    assert(items.take(j as int) =~= items);
    r
}

proof fn lemma_routes(items: Seq<RestoreV>, k: int)
    requires
        0 <= k < items.len(),
        items[k].1 is Some,
    ensures
        routes(items).contains((items[k].2, items[k].3)),
        route_uids(items, (items[k].2, items[k].3)).contains(items[k].1->0),
    decreases items.len(),
{
    let w = (items[k].2, items[k].3);
    let short = items.drop_last();
    let r = routes(items);
    let u = route_uids(items, w);
    if k < short.len() {
        lemma_routes(short, k);
        assert(short[k] == items[k]);
        let i = routes(short).index_of(w);
        assert(r[i] == w);
        let j = route_uids(short, w).index_of(items[k].1->0);
        assert(u[j] == items[k].1->0);
    } else {
        if !routes(short).contains(w) {
            assert(r[r.len() - 1] == w);
        }
        assert(u[u.len() - 1] == items[k].1->0);
    }
}

proof fn lemma_routes_steps(items: Seq<RestoreV>, ways: Seq<RouteV>, i: int)
    requires
        0 <= i < ways.len(),
    ensures
        forall|step: RestoreStepV|
            route_steps(route_uids(items, ways[i]), ways[i]).contains(step)
                ==> #[trigger] routes_steps(items, ways).contains(step),
    decreases ways.len(),
{
    let all = routes_steps(items, ways);
    let before = routes_steps(items, ways.drop_last());
    let last = route_steps(route_uids(items, ways.last()), ways.last());
    assert forall|step: RestoreStepV|
        route_steps(route_uids(items, ways[i]), ways[i]).contains(
            step,
        ) implies #[trigger] all.contains(step) by {
        if i < ways.len() - 1 {
            lemma_routes_steps(items, ways.drop_last(), i);
            assert(ways.drop_last()[i] == ways[i]);
            assert(before.contains(step));
            assert(all[before.index_of(step)] == step);
        } else {
            assert(all[before.len() + last.index_of(step)] == step);
        }
    }
}

/// A message whose UID is known is moved back: some step moves a range with its UID to the
/// folder that it came from.
pub proof fn law_known_messages_are_moved(items: Seq<RestoreV>, k: int)
    requires
        0 <= k < items.len(),
        items[k].1 is Some,
    ensures
        exists|first: u32, last: u32|
            #![trigger range_text((first, last))]
            first <= items[k].1->0 <= last && restore_plan(items).contains(
                RestoreStepV::Move { uids: range_text((first, last)), folder: items[k].3 },
            ),
{
    let uid = items[k].1->0;
    let w = (items[k].2, items[k].3);
    lemma_routes(items, k);
    let ways = routes(items);
    let i = ways.index_of(w);
    let uids = route_uids(items, w);
    law_uid_ranges(uids);
    let ranges = uid_ranges(uids);
    assert(covers(ranges, uid));
    let j = choose|j: int| 0 <= j < ranges.len() && (#[trigger] ranges[j]).0 <= uid <= ranges[j].1;
    let step = RestoreStepV::Move { uids: range_text(ranges[j]), folder: w.1 };
    let steps = route_steps(uids, w);
    assert(steps[j + 1] == step);
    assert(steps.contains(step));
    lemma_routes_steps(items, ways, i);
    let all = routes_steps(items, ways);
    assert(all.contains(step));
    assert(restore_plan(items)[all.index_of(step)] == step);
    let first = ranges[j].0;
    let last = ranges[j].1;
    assert((first, last) == ranges[j]);
    assert(restore_plan(items).contains(
        RestoreStepV::Move { uids: range_text((first, last)), folder: items[k].3 },
    ));
}

/// A message whose UID is not known is looked for where it has a Message-ID.
pub proof fn law_unknown_messages_are_sought(items: Seq<RestoreV>, k: int)
    requires
        0 <= k < items.len(),
        is_sought(items[k]),
    ensures
        restore_plan(items).contains(
            RestoreStepV::Find { message_id: items[k].0->0, folder: items[k].3 },
        ),
{
    let step = RestoreStepV::Find { message_id: items[k].0->0, folder: items[k].3 };
    lemma_search_steps(items, k);
    let moved = routes_steps(items, routes(items));
    let i = search_steps(items).index_of(step);
    assert(restore_plan(items)[moved.len() + i] == step);
}

proof fn lemma_search_steps(items: Seq<RestoreV>, k: int)
    requires
        0 <= k < items.len(),
        is_sought(items[k]),
    ensures
        search_steps(items).contains(
            RestoreStepV::Find { message_id: items[k].0->0, folder: items[k].3 },
        ),
    decreases items.len(),
{
    let step = RestoreStepV::Find { message_id: items[k].0->0, folder: items[k].3 };
    let all = search_steps(items);
    if k < items.len() - 1 {
        let before = search_steps(items.drop_last());
        lemma_search_steps(items.drop_last(), k);
        assert(items.drop_last()[k] == items[k]);
        assert(all[before.index_of(step)] == step);
    } else {
        assert(all[all.len() - 1] == step);
    }
}

} // verus!
