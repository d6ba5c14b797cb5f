//! Getting deleted messages back out of the trash.
use vstd::prelude::*;
use vstd::string::StringExecFns;

use crate::config::{is_reference, is_secret_reference, CommandOutput};
use crate::imap_client::{lossy_text, opt_bytes, Address, FetchedMessage};
use crate::order::{by_rank, in_order, is_order, law_ordered, order, ordered, Ranked};
use crate::startup::has_argument;
use crate::text::{
    at_most, contains, contains_text, decimal, decimal_text, decode_lossy, first_chars, join,
    joined, lowercase, opt_text, parse_unsigned, str_eq, texts, to_lower, trim, trimmed,
    unsigned_value, utf8_lossy,
};
use crate::timestamp::{
    format_utc, formatted_utc, instant, parse_rfc2822, rfc2822_instant, Timestamp, MINUTES,
};

verus! {

broadcast use vstd::seq_lib::group_seq_properties;

// ---------------------------------------------------------------------------
// Arguments

/// What the user asks for.
#[derive(Debug, PartialEq)]
pub struct Args {
    pub check_mode: bool,
    pub restore_mode: bool,
    pub list_accounts: bool,
    pub account_name: Option<String>,
    /// A part of the sender's address, in lowercase.
    pub from_filter: Option<String>,
    pub to_folder: String,
    /// How many of the latest messages are looked at.
    pub limit: usize,
    /// How many messages are restored at most.
    pub count: Option<usize>,
}

/// What [`Args`] hold.
#[verifier::ext_equal]
pub struct ArgsV {
    pub check_mode: bool,
    pub restore_mode: bool,
    pub list_accounts: bool,
    pub account_name: Option<Seq<char>>,
    pub from_filter: Option<Seq<char>>,
    pub to_folder: Seq<char>,
    pub limit: usize,
    pub count: Option<usize>,
}

impl View for Args {
    type V = ArgsV;

    open spec fn view(&self) -> ArgsV {
        ArgsV {
            check_mode: self.check_mode,
            restore_mode: self.restore_mode,
            list_accounts: self.list_accounts,
            account_name: opt_text(self.account_name),
            from_filter: opt_text(self.from_filter),
            to_folder: self.to_folder@,
            limit: self.limit,
            count: self.count,
        }
    }
}

/// How many messages are looked at where nothing is said.
pub const DEFAULT_LIMIT: usize = 2000;

/// The argument that follows the first `flag`.
pub open spec fn value_after(args: Seq<Seq<char>>, flag: Seq<char>) -> Option<Seq<char>>
    decreases args.len(),
{
    if args.len() == 0 {
        None
    } else if args[0] == flag {
        if args.len() > 1 {
            Some(args[1])
        } else {
            None
        }
    } else {
        value_after(args.drop_first(), flag)
    }
}

/// A number of the size of a length.
pub open spec fn size_value(s: Option<Seq<char>>) -> Option<usize> {
    match s {
        Some(s) => match unsigned_value(s, usize::MAX as nat) {
            Some(n) => Some(n as usize),
            None => None,
        },
        None => None,
    }
}

/// What arguments ask for; nothing without a command.
pub open spec fn asked(args: Seq<Seq<char>>) -> Option<ArgsV> {
    let check_mode = args.contains("--check"@);
    let restore_mode = args.contains("--restore"@);
    let list_accounts = args.contains("--list-accounts"@);
    if !check_mode && !restore_mode && !list_accounts {
        None
    } else {
        Some(
            ArgsV {
                check_mode,
                restore_mode,
                list_accounts,
                account_name: value_after(args, "--account"@),
                from_filter: match value_after(args, "--from"@) {
                    Some(s) => Some(lowercase(s)),
                    None => None,
                },
                to_folder: match value_after(args, "--to"@) {
                    Some(s) => s,
                    None => "INBOX"@,
                },
                limit: match size_value(value_after(args, "--limit"@)) {
                    Some(n) => n,
                    None => DEFAULT_LIMIT,
                },
                count: size_value(value_after(args, "--count"@)),
            },
        )
    }
}

fn find_value(args: &Vec<String>, flag: &str) -> (r: Option<String>)
    ensures
        opt_text(r) == value_after(texts(args@), flag@),
{
    let ghost all = texts(args@);
    let mut i: usize = 0;
    assert(all.skip(0) =~= all);
    while i < args.len()
        invariant
            i <= args@.len(),
            all == texts(args@),
            value_after(all, flag@) == value_after(all.skip(i as int), flag@),
        decreases args@.len() - i,
    {
        proof {
            assert(all.skip(i as int)[0] == args@[i as int]@);
            assert(all.skip(i as int).drop_first() =~= all.skip(i + 1));
        }
        if str_eq(args[i].as_str(), flag) {
            if args.len() - i > 1 {
                assert(all.skip(i as int)[1] == args@[i + 1]@);
                return Some(args[i + 1].clone());
            }
            return None;
        }
        i += 1;
    }
    None
}

fn read_size(s: &Option<String>) -> (r: Option<usize>)
    ensures
        r == size_value(opt_text(*s)),
{
    match s {
        Some(s) => match parse_unsigned(s.as_str()) {
            Some(n) => {
                if n <= usize::MAX as u64 {
                    Some(n as usize)
                } else {
                    None
                }
            },
            None => None,
        },
        None => None,
    }
}

/// Reads the arguments; nothing where they hold no command.
pub fn parse_args(args: &Vec<String>) -> (r: Option<Args>)
    ensures
        match r {
            Some(a) => asked(texts(args@)) == Some(a@),
            None => asked(texts(args@)) is None,
        },
{
    let check_mode: bool = has_argument(args, "--check");
    let restore_mode: bool = has_argument(args, "--restore");
    let list_accounts: bool = has_argument(args, "--list-accounts");
    let account_name: Option<String> = find_value(args, "--account");
    let from_filter: Option<String> = match find_value(args, "--from") {
        Some(s) => Some(to_lower(s.as_str())),
        None => None,
    };
    let to_folder: String = match find_value(args, "--to") {
        Some(s) => s,
        None => "INBOX".to_owned(),
    };
    let limit: usize = match read_size(&find_value(args, "--limit")) {
        Some(n) => n,
        None => DEFAULT_LIMIT,
    };
    let count: Option<usize> = read_size(&find_value(args, "--count"));
    if !check_mode && !restore_mode && !list_accounts {
        return None;
    }
    Some(
        Args {
            check_mode,
            restore_mode,
            list_accounts,
            account_name,
            from_filter,
            to_folder,
            limit,
            count,
        },
    )
}

/// The password that a value stands for, given what the command for references came to.
pub open spec fn password_of(value: Seq<char>, output: Option<CommandOutput>) -> Result<
    Seq<char>,
    Seq<char>,
> {
    if !is_reference(value) {
        Ok(value)
    } else {
        match output {
            None => Err("Failed to run 'op' command"@),
            Some(output) => if output.success {
                Ok(trimmed(utf8_lossy(output.stdout@)))
            } else {
                Err("Failed to read from 1Password"@)
            },
        }
    }
}

/// The password that a value stands for, given what the command for references came to.
pub fn resolve_password(value: &str, output: &Option<CommandOutput>) -> (r: Result<String, String>)
    ensures
        match r {
            Ok(s) => password_of(value@, *output) == Ok::<Seq<char>, Seq<char>>(s@),
            Err(e) => password_of(value@, *output) == Err::<Seq<char>, Seq<char>>(e@),
        },
{
    if !is_secret_reference(value) {
        return Ok(value.to_owned());
    }
    match output {
        None => Err("Failed to run 'op' command".to_owned()),
        Some(output) => {
            if output.success {
                Ok(trim(decode_lossy(output.stdout.as_slice()).as_str()))
            } else {
                Err("Failed to read from 1Password".to_owned())
            }
        },
    }
}

// ---------------------------------------------------------------------------
// What is in the trash

/// The sequence number of the first message that is looked at, of `total`.
pub open spec fn first_number(total: u32, limit: usize) -> int {
    if total > limit {
        total - limit + 1
    } else {
        1
    }
}

/// The sequence number of the first message that is looked at, of `total`.
pub fn fetch_start(total: u32, limit: usize) -> (r: u32)
    requires
        limit > 0,
    ensures
        r == first_number(total, limit),
{
    if total as u64 > limit as u64 {
        total - (limit as u32) + 1
    } else {
        1
    }
}

/// As many messages are looked at as there are, or as the limit says.
pub proof fn law_latest_messages(total: u32, limit: usize)
    requires
        0 < limit,
        0 < total,
    ensures
        1 <= first_number(total, limit) <= total,
        total - first_number(total, limit) + 1 == if total < limit {
            total as int
        } else {
            limit as int
        },
{
}

/// The sequence numbers that are fetched.
pub fn fetch_range(start: u32, total: u32) -> (r: String)
    ensures
        r@ == decimal(start as nat) + ":"@ + decimal(total as nat),
{
    decimal_text(start as u64).concat(":").concat(decimal_text(total as u64).as_str())
}

/// A message in the trash.
#[derive(Debug, PartialEq)]
pub struct RecoverEmail {
    pub uid: u32,
    pub from: String,
    pub subject: String,
    pub date: Option<Timestamp>,
}

/// What a [`RecoverEmail`] holds.
#[verifier::ext_equal]
pub struct RecoverV {
    pub uid: u32,
    pub from: Seq<char>,
    pub subject: Seq<char>,
    pub date: Option<Timestamp>,
}

impl View for RecoverEmail {
    type V = RecoverV;

    open spec fn view(&self) -> RecoverV {
        RecoverV {
            uid: self.uid,
            from: self.from@,
            subject: self.subject@,
            date: self.date,
        }
    }
}

/// What messages in the trash hold.
pub open spec fn recover_views(v: Seq<RecoverEmail>) -> Seq<RecoverV> {
    v.map_values(|e: RecoverEmail| e@)
}

/// The text of optional bytes, or nothing.
pub open spec fn text_or_empty(o: Option<Vec<u8>>) -> Seq<char> {
    match lossy_text(opt_bytes(o)) {
        Some(s) => s,
        None => Seq::empty(),
    }
}

/// The address of the first sender.
pub open spec fn first_address(from: Option<Vec<Address>>) -> Seq<char> {
    match from {
        Some(addresses) => if addresses@.len() > 0 {
            text_or_empty(addresses@[0].mailbox) + "@"@ + text_or_empty(addresses@[0].host)
        } else {
            "unknown"@
        },
        None => "unknown"@,
    }
}

/// The message in the trash that the server sent; nothing without a UID or an envelope.
pub open spec fn recovered(message: FetchedMessage) -> Option<RecoverV> {
    match (message.uid, message.envelope) {
        (Some(uid), Some(envelope)) => Some(
            RecoverV {
                uid,
                from: first_address(envelope.from),
                subject: text_or_empty(envelope.subject),
                date: match envelope.date {
                    Some(bytes) => instant(rfc2822_instant(utf8_lossy(bytes@))),
                    None => None,
                },
            },
        ),
        _ => None,
    }
}

fn decode_or_empty(o: &Option<Vec<u8>>) -> (r: String)
    ensures
        r@ == text_or_empty(*o),
{
    match o {
        Some(bytes) => decode_lossy(bytes.as_slice()),
        None => String::new(),
    }
}

/// Makes a message in the trash of what the server sent.
pub fn recover_email(message: &FetchedMessage) -> (r: Option<RecoverEmail>)
    ensures
        match r {
            Some(e) => recovered(*message) == Some(e@),
            None => recovered(*message) is None,
        },
{
    let uid: u32 = match message.uid {
        Some(uid) => uid,
        None => {
            return None;
        },
    };
    match &message.envelope {
        None => None,
        Some(envelope) => {
            let from: String = match &envelope.from {
                Some(addresses) => {
                    if addresses.len() > 0 {
                        decode_or_empty(&addresses[0].mailbox).concat("@").concat(
                            decode_or_empty(&addresses[0].host).as_str(),
                        )
                    } else {
                        "unknown".to_owned()
                    }
                },
                None => "unknown".to_owned(),
            };
            let subject: String = decode_or_empty(&envelope.subject);
            let date: Option<Timestamp> = match &envelope.date {
                Some(bytes) => parse_rfc2822(decode_lossy(bytes.as_slice()).as_str()),
                None => None,
            };
            Some(RecoverEmail { uid, from, subject, date })
        },
    }
}

impl Ranked for RecoverEmail {
    open spec fn ranks_ahead(self, other: Self) -> bool {
        self.uid > other.uid
    }

    fn is_ahead(&self, other: &Self) -> (r: bool) {
        self.uid > other.uid
    }
}

/// The messages that were deleted last come first.
pub fn latest_first(emails: Vec<RecoverEmail>) -> (r: Vec<RecoverEmail>)
    ensures
        r@ == ordered(by_rank::<RecoverEmail>(), emails@),
{
    order(emails)
}

/// Putting the latest first keeps every message, and the UIDs do not grow.
pub proof fn law_latest_first(emails: Seq<RecoverEmail>)
    ensures
        ordered(by_rank::<RecoverEmail>(), emails).to_multiset() == emails.to_multiset(),
        forall|i: int, j: int|
            0 <= i < j < ordered(by_rank::<RecoverEmail>(), emails).len() ==> (
            #[trigger] ordered(by_rank::<RecoverEmail>(), emails)[i]).uid >= (
            #[trigger] ordered(by_rank::<RecoverEmail>(), emails)[j]).uid,
{
    let before = by_rank::<RecoverEmail>();
    let sorted = ordered(before, emails);
    assert(is_order(before));
    if emails.len() > 0 {
        law_ordered(before, emails, emails[0]);
        assert(in_order(before, sorted));
        assert forall|i: int, j: int| 0 <= i < j < sorted.len() implies (#[trigger] sorted[i]).uid
            >= (#[trigger] sorted[j]).uid by {
            assert(!before(sorted[j], sorted[i]));
        }
    }
}

// ---------------------------------------------------------------------------
// Looking

/// Whether a sender matches a filter.
pub open spec fn sent_by(filter: Seq<char>) -> spec_fn(RecoverV) -> bool {
    |e: RecoverV| contains_text(lowercase(e.from), filter)
}

/// The positions of the messages whose sender matches a filter.
fn matching(emails: &Vec<RecoverEmail>, filter: &str) -> (r: Vec<usize>)
    ensures
        forall|k: int| 0 <= k < r@.len() ==> (#[trigger] r@[k]) < emails@.len(),
        Seq::new(r@.len(), |k: int| recover_views(emails@)[r@[k] as int]) == recover_views(
            emails@,
        ).filter(sent_by(filter@)),
{
    let ghost all = recover_views(emails@);
    let ghost p = sent_by(filter@);
    let mut r: Vec<usize> = Vec::new();
    let mut i: usize = 0;
    proof {
        reveal(Seq::filter);
        assert(Seq::new(r@.len(), |k: int| all[r@[k] as int]) =~= all.take(0).filter(p));
    }
    while i < emails.len()
        invariant
            i <= emails@.len(),
            all == recover_views(emails@),
            p == sent_by(filter@),
            forall|k: int| 0 <= k < r@.len() ==> (#[trigger] r@[k]) < emails@.len(),
            Seq::new(r@.len(), |k: int| all[r@[k] as int]) == all.take(i as int).filter(p),
        decreases emails@.len() - i,
    {
        let ghost before = Seq::new(r@.len(), |k: int| all[r@[k] as int]);
        let ghost r0 = r@;
        proof {
            assert(all.take(i + 1) =~= all.take(i as int).push(all[i as int]));
            all.take(i as int).lemma_filter_push(all[i as int], p);
            assert(all[i as int] == emails@[i as int]@);
        }
        if contains(to_lower(emails[i].from.as_str()).as_str(), filter) {
            r.push(i);
            assert(Seq::new(r@.len(), |k: int| all[r@[k] as int]) =~= before.push(all[i as int]));
        }
        i += 1;
    }
    assert(all.take(i as int) =~= all);
    r
}

/// How many messages are listed at most.
pub const LISTED: usize = 50;

/// The date of a message as it is listed.
pub open spec fn date_text(date: Option<Timestamp>) -> Seq<char> {
    match date {
        Some(t) => match formatted_utc(t.secs, t.nanos, MINUTES@) {
            Some(s) => s,
            None => "unknown date"@,
        },
        None => "unknown date"@,
    }
}

/// The line of a message whose date reads `date`.
pub open spec fn message_line(date: Seq<char>, e: RecoverV) -> Seq<char> {
    "  ["@ + date + "] "@ + e.from + " - "@ + at_most(e.subject, 60)
}

/// The line of a message whose date reads `date`.
pub fn line_of(date: &str, email: &RecoverEmail) -> (r: String)
    ensures
        r@ == message_line(date@, email@),
{
    "  [".to_owned().concat(date).concat("] ").concat(email.from.as_str()).concat(" - ").concat(
        first_chars(email.subject.as_str(), 60).as_str(),
    )
}

fn read_date(date: Option<Timestamp>) -> (r: String)
    ensures
        r@ == date_text(date),
{
    match date {
        Some(t) => match format_utc(t, MINUTES) {
            Some(s) => s,
            None => "unknown date".to_owned(),
        },
        None => "unknown date".to_owned(),
    }
}

/// The first messages of a list.
pub open spec fn listed(s: Seq<RecoverV>) -> Seq<RecoverV> {
    if s.len() <= LISTED {
        s
    } else {
        s.take(LISTED as int)
    }
}

/// The lines about the messages of some senders: how many there are, an empty line, the
/// first of them, and how many more there are.
pub open spec fn sender_report(emails: Seq<RecoverV>, filter: Seq<char>) -> Seq<Seq<char>> {
    let found = emails.filter(sent_by(filter));
    seq![
        "Found "@ + decimal(found.len()) + " deleted emails from senders matching '"@ + filter
            + "':"@,
        Seq::empty(),
    ] + listed(found).map_values(|e: RecoverV| message_line(date_text(e.date), e)) + if found.len()
        > LISTED {
        seq!["  ... and "@ + decimal((found.len() - LISTED) as nat) + " more"@]
    } else {
        Seq::empty()
    }
}

/// The lines about the messages of some senders.
pub fn report_sender(emails: &Vec<RecoverEmail>, filter: &str) -> (r: Vec<String>)
    ensures
        texts(r@) == sender_report(recover_views(emails@), filter@),
{
    let ghost all = recover_views(emails@);
    let found: Vec<usize> = matching(emails, filter);
    let ghost f = all.filter(sent_by(filter@));
    let ghost head = seq![
        "Found "@ + decimal(f.len()) + " deleted emails from senders matching '"@ + filter@ + "':"@,
        Seq::<char>::empty(),
    ];
    assert(f == Seq::new(found@.len(), |k: int| all[found@[k] as int]));
    let ghost line = |e: RecoverV| message_line(date_text(e.date), e);
    let mut r: Vec<String> = Vec::new();
    r.push(
        "Found ".to_owned().concat(decimal_text(found.len() as u64).as_str()).concat(
            " deleted emails from senders matching '",
        ).concat(filter).concat("':"),
    );
    r.push(String::new());
    assert(texts(r@) =~= head);
    let end: usize = if found.len() <= LISTED {
        found.len()
    } else {
        LISTED
    };
    let mut i: usize = 0;
    assert(texts(r@) =~= head + f.take(0).map_values(line));
    while i < end
        invariant
            i <= end <= found@.len(),
            all == recover_views(emails@),
            f == Seq::new(found@.len(), |k: int| all[found@[k] as int]),
            forall|k: int| 0 <= k < found@.len() ==> (#[trigger] found@[k]) < emails@.len(),
            line == (|e: RecoverV| message_line(date_text(e.date), e)),
            texts(r@) == head + f.take(i as int).map_values(line),
        decreases end - i,
    {
        let at: usize = found[i];
        let ghost before = texts(r@);
        assert(f[i as int] == emails@[at as int]@);
        let date: String = read_date(emails[at].date);
        r.push(line_of(date.as_str(), &emails[at]));
        proof {
            assert(texts(r@) =~= before.push(line(f[i as int])));
            assert(f.take(i + 1).map_values(line) =~= f.take(i as int).map_values(line).push(
                line(f[i as int]),
            ));
            assert(texts(r@) =~= head + f.take(i + 1).map_values(line));
        }
        i += 1;
    }
    assert(listed(f) =~= f.take(i as int));
    let ghost before = texts(r@);
    if found.len() > LISTED {
        let more: String = "  ... and ".to_owned().concat(
            decimal_text((found.len() - LISTED) as u64).as_str(),
        ).concat(" more");
        let ghost m = more@;
        r.push(more);
        assert(texts(r@) =~= before + seq![m]);
    } else {
        assert(before =~= before + Seq::<Seq<char>>::empty());
    }
    r
}

/// A sender and a number of messages.
pub type CountV = (Seq<char>, nat);

/// What senders with their numbers of messages hold.
pub open spec fn count_views(v: Seq<(String, usize)>) -> Seq<CountV> {
    v.map_values(|c: (String, usize)| (c.0@, c.1 as nat))
}

/// One more message of a sender. A sender that was not counted before comes last.
pub open spec fn counted(counts: Seq<CountV>, from: Seq<char>) -> Seq<CountV>
    decreases counts.len(),
{
    if counts.len() == 0 {
        seq![(from, 1)]
    } else if counts[0].0 == from {
        counts.update(0, (from, counts[0].1 + 1))
    } else {
        seq![counts[0]] + counted(counts.drop_first(), from)
    }
}

/// The senders with their numbers of messages, in the order of first appearance.
pub open spec fn sender_counts(emails: Seq<RecoverV>) -> Seq<CountV>
    decreases emails.len(),
{
    if emails.len() == 0 {
        Seq::empty()
    } else {
        counted(sender_counts(emails.drop_last()), emails.last().from)
    }
}

/// The number of all messages that are counted.
pub open spec fn counts_total(counts: Seq<CountV>) -> nat
    decreases counts.len(),
{
    if counts.len() == 0 {
        0
    } else {
        counts[0].1 + counts_total(counts.drop_first())
    }
}

proof fn lemma_counted_total(counts: Seq<CountV>, from: Seq<char>)
    ensures
        counts_total(counted(counts, from)) == counts_total(counts) + 1,
    decreases counts.len(),
{
    if counts.len() == 0 {
        assert(seq![(from, 1nat)].drop_first() =~= Seq::<CountV>::empty());
    } else if counts[0].0 == from {
        assert(counts.update(0, (from, counts[0].1 + 1)).drop_first() =~= counts.drop_first());
    } else {
        lemma_counted_total(counts.drop_first(), from);
        assert(counted(counts, from).drop_first() =~= counted(counts.drop_first(), from));
    }
}

proof fn lemma_count_bounded(counts: Seq<CountV>, i: int)
    requires
        0 <= i < counts.len(),
    ensures
        counts[i].1 <= counts_total(counts),
    decreases counts.len(),
{
    if i > 0 {
        lemma_count_bounded(counts.drop_first(), i - 1);
        assert(counts.drop_first()[i - 1] == counts[i]);
    }
}

proof fn lemma_sender_counts_total(emails: Seq<RecoverV>)
    ensures
        counts_total(sender_counts(emails)) == emails.len(),
    decreases emails.len(),
{
    if emails.len() > 0 {
        lemma_sender_counts_total(emails.drop_last());
        lemma_counted_total(sender_counts(emails.drop_last()), emails.last().from);
    }
}

/// The number of messages of a sender.
pub open spec fn count_of(counts: Seq<CountV>, from: Seq<char>) -> nat
    decreases counts.len(),
{
    if counts.len() == 0 {
        0
    } else if counts[0].0 == from {
        counts[0].1
    } else {
        count_of(counts.drop_first(), from)
    }
}

proof fn lemma_counted(counts: Seq<CountV>, from: Seq<char>, other: Seq<char>)
    ensures
        count_of(counted(counts, from), other) == count_of(counts, other) + if from == other {
            1nat
        } else {
            0nat
        },
    decreases counts.len(),
{
    if counts.len() == 0 {
        assert(seq![(from, 1nat)].drop_first() =~= Seq::<CountV>::empty());
    } else if counts[0].0 == from {
        assert(counts.update(0, (from, counts[0].1 + 1)).drop_first() =~= counts.drop_first());
    } else {
        lemma_counted(counts.drop_first(), from, other);
        assert(counted(counts, from).drop_first() =~= counted(counts.drop_first(), from));
    }
}

/// Every sender is counted with as many messages as there are of that sender, and the
/// numbers add up to all messages.
pub proof fn law_senders_are_counted(emails: Seq<RecoverV>, from: Seq<char>)
    ensures
        count_of(sender_counts(emails), from) == emails.filter(
            |e: RecoverV| e.from == from,
        ).len(),
        counts_total(sender_counts(emails)) == emails.len(),
    decreases emails.len(),
{
    let p = |e: RecoverV| e.from == from;
    reveal(Seq::filter);
    lemma_sender_counts_total(emails);
    if emails.len() > 0 {
        law_senders_are_counted(emails.drop_last(), from);
        lemma_counted(sender_counts(emails.drop_last()), emails.last().from, from);
        assert(emails =~= emails.drop_last().push(emails.last()));
        emails.drop_last().lemma_filter_push(emails.last(), p);
    }
}

impl Ranked for (String, usize) {
    open spec fn ranks_ahead(self, other: Self) -> bool {
        self.1 > other.1
    }

    fn is_ahead(&self, other: &Self) -> (r: bool) {
        self.1 > other.1
    }
}

/// One more message of a sender.
fn count_one(counts: &mut Vec<(String, usize)>, from: &String)
    requires
        counts_total(count_views(old(counts)@)) < usize::MAX,
    ensures
        count_views(final(counts)@) == counted(count_views(old(counts)@), from@),
{
    let ghost all = count_views(counts@);
    let mut i: usize = 0;
    assert(all.skip(0) =~= all);
    assert(all.take(0) + counted(all, from@) =~= counted(all, from@));
    while i < counts.len()
        invariant
            i <= counts@.len(),
            all == count_views(counts@),
            all == count_views(old(counts)@),
            counts_total(all) < usize::MAX,
            counted(all, from@) == all.take(i as int) + counted(all.skip(i as int), from@),
        decreases counts@.len() - i,
    {
        let ghost rest = all.skip(i as int);
        proof {
            assert(rest[0] == all[i as int]);
            assert(all[i as int] == (counts@[i as int].0@, counts@[i as int].1 as nat));
            assert(rest.drop_first() =~= all.skip(i + 1));
            lemma_count_bounded(all, i as int);
        }
        if str_eq(counts[i].0.as_str(), from.as_str()) {
            let n: usize = counts[i].1;
            let ghost before = counts@;
            counts.set(i, (from.clone(), n + 1));
            proof {
                assert(counted(rest, from@) == rest.update(0, (from@, rest[0].1 + 1)));
                assert(count_views(counts@) =~= all.take(i as int) + rest.update(
                    0,
                    (from@, rest[0].1 + 1),
                ));
            }
            return;
        }
        proof {
            assert(all.take(i as int) + (seq![rest[0]] + counted(rest.drop_first(), from@))
                =~= all.take(i + 1) + counted(all.skip(i + 1), from@));
        }
        i += 1;
    }
    proof {
        assert(all.skip(i as int) =~= Seq::<CountV>::empty());
        assert(all.take(i as int) =~= all);
    }
    counts.push((from.clone(), 1));
    assert(count_views(counts@) =~= all + seq![(from@, 1nat)]);
}

/// Counts the messages of each sender, the busiest first.
pub fn count_senders(emails: &Vec<RecoverEmail>) -> (r: Vec<(String, usize)>)
    ensures
        exists|counts: Seq<(String, usize)>|
            {
                &&& #[trigger] count_views(counts) == sender_counts(recover_views(emails@))
                &&& r@ == ordered(by_rank::<(String, usize)>(), counts)
            },
{
    let ghost all = recover_views(emails@);
    let total: usize = emails.len();
    let mut counts: Vec<(String, usize)> = Vec::new();
    let mut i: usize = 0;
    assert(count_views(counts@) =~= sender_counts(all.take(0)));
    while i < emails.len()
        invariant
            i <= total == emails@.len(),
            all == recover_views(emails@),
            count_views(counts@) == sender_counts(all.take(i as int)),
        decreases emails@.len() - i,
    {
        proof {
            assert(all.take(i + 1).drop_last() =~= all.take(i as int));
            assert(all.take(i + 1).last() == emails@[i as int]@);
            lemma_sender_counts_total(all.take(i as int));
        }
        count_one(&mut counts, &emails[i].from);
        i += 1;
    }
    assert(all.take(i as int) =~= all);
    order(counts)
}

/// How many senders are listed at most.
pub const LISTED_SENDERS: usize = 30;

/// A number, right-aligned in five columns.
pub open spec fn in_five_columns(n: nat) -> Seq<char> {
    let s = decimal(n);
    if s.len() < 5 {
        Seq::new((5 - s.len()) as nat, |i: int| ' ') + s
    } else {
        s
    }
}

fn pad_five(n: usize) -> (r: String)
    ensures
        r@ == in_five_columns(n as nat),
{
    let s: String = decimal_text(n as u64);
    let len: usize = crate::text::to_chars(s.as_str()).len();
    let mut r: String = String::new();
    let mut i: usize = len;
    assert(s@.len() == len);
    assert(r@ =~= Seq::new(0, |i: int| ' '));
    while i < 5
        invariant
            len <= i,
            len < 5 ==> i <= 5,
            len >= 5 ==> i == len,
            r@ == Seq::new((i - len) as nat, |i: int| ' '),
        decreases 5 - i,
    {
        r.push(' ');
        i += 1;
        assert(r@ =~= Seq::new((i - len) as nat, |i: int| ' '));
    }
    let ghost pad = r@;
    let r: String = r.concat(s.as_str());
    proof {
        if len < 5 {
            assert(pad =~= Seq::new((5 - s@.len()) as nat, |i: int| ' '));
        } else {
            assert(pad =~= Seq::<char>::empty());
            assert(pad + s@ =~= s@);
        }
    }
    r
}

/// The line of a sender.
pub open spec fn count_line(c: CountV) -> Seq<char> {
    "  "@ + in_five_columns(c.1) + "  "@ + c.0
}

/// The first senders of a list.
pub open spec fn listed_counts(s: Seq<CountV>) -> Seq<CountV> {
    if s.len() <= LISTED_SENDERS {
        s
    } else {
        s.take(LISTED_SENDERS as int)
    }
}

/// The lines about the busiest senders among `total` messages.
pub open spec fn summary_report(total: nat, counts: Seq<CountV>) -> Seq<Seq<char>> {
    seq![
        "Top senders in [Gmail]/Trash (most recent "@ + decimal(total) + " emails):"@,
        Seq::empty(),
    ] + listed_counts(counts).map_values(|c: CountV| count_line(c)) + if counts.len()
        > LISTED_SENDERS {
        seq!["  ... and "@ + decimal((counts.len() - LISTED_SENDERS) as nat) + " more senders"@]
    } else {
        Seq::empty()
    }
}

/// The lines about the busiest senders among `total` messages.
pub fn report_counts(total: usize, counts: &Vec<(String, usize)>) -> (r: Vec<String>)
    ensures
        texts(r@) == summary_report(total as nat, count_views(counts@)),
{
    let ghost all = count_views(counts@);
    let ghost head = seq![
        "Top senders in [Gmail]/Trash (most recent "@ + decimal(total as nat) + " emails):"@,
        Seq::<char>::empty(),
    ];
    let ghost line = |c: CountV| count_line(c);
    let mut r: Vec<String> = Vec::new();
    r.push(
        "Top senders in [Gmail]/Trash (most recent ".to_owned().concat(
            decimal_text(total as u64).as_str(),
        ).concat(" emails):"),
    );
    r.push(String::new());
    assert(texts(r@) =~= head);
    let end: usize = if counts.len() <= LISTED_SENDERS {
        counts.len()
    } else {
        LISTED_SENDERS
    };
    let mut i: usize = 0;
    assert(texts(r@) =~= head + all.take(0).map_values(line));
    while i < end
        invariant
            i <= end <= counts@.len(),
            all == count_views(counts@),
            line == (|c: CountV| count_line(c)),
            texts(r@) == head + all.take(i as int).map_values(line),
        decreases end - i,
    {
        let ghost before = texts(r@);
        assert(all[i as int] == (counts@[i as int].0@, counts@[i as int].1 as nat));
        r.push(
            "  ".to_owned().concat(pad_five(counts[i].1).as_str()).concat("  ").concat(
                counts[i].0.as_str(),
            ),
        );
        proof {
            assert(texts(r@) =~= before.push(line(all[i as int])));
            assert(all.take(i + 1).map_values(line) =~= all.take(i as int).map_values(line).push(
                line(all[i as int]),
            ));
            assert(texts(r@) =~= head + all.take(i + 1).map_values(line));
        }
        i += 1;
    }
    assert(listed_counts(all) =~= all.take(i as int));
    let ghost before = texts(r@);
    if counts.len() > LISTED_SENDERS {
        let more: String = "  ... and ".to_owned().concat(
            decimal_text((counts.len() - LISTED_SENDERS) as u64).as_str(),
        ).concat(" more senders");
        let ghost m = more@;
        r.push(more);
        assert(texts(r@) =~= before + seq![m]);
    } else {
        assert(before =~= before + Seq::<Seq<char>>::empty());
    }
    r
}

// ---------------------------------------------------------------------------
// Restoring

/// The UIDs of messages in the trash.
pub open spec fn uids_of(s: Seq<RecoverV>) -> Seq<u32> {
    s.map_values(|e: RecoverV| e.uid)
}

/// The first so many of some UIDs, or all of them.
pub open spec fn limited(uids: Seq<u32>, count: Option<usize>) -> Seq<u32> {
    match count {
        Some(n) => if n < uids.len() {
            uids.take(n as int)
        } else {
            uids
        },
        None => uids,
    }
}

/// The UIDs of the messages that are restored. Restoring whatever there is takes a number.
pub open spec fn restored_uids(
    emails: Seq<RecoverV>,
    filter: Option<Seq<char>>,
    count: Option<usize>,
) -> Result<Seq<u32>, Seq<char>> {
    match filter {
        Some(f) => Ok(limited(uids_of(emails.filter(sent_by(f))), count)),
        None => if count is Some {
            Ok(limited(uids_of(emails), count))
        } else {
            Err("--restore without --from requires --count to prevent accidents"@)
        },
    }
}

/// The UIDs of the messages that are restored.
pub fn uids_to_restore(
    emails: &Vec<RecoverEmail>,
    filter: &Option<String>,
    count: Option<usize>,
) -> (r: Result<Vec<u32>, String>)
    ensures
        match r {
            Ok(uids) => restored_uids(recover_views(emails@), opt_text(*filter), count) == Ok::<
                Seq<u32>,
                Seq<char>,
            >(uids@),
            Err(e) => restored_uids(recover_views(emails@), opt_text(*filter), count) == Err::<
                Seq<u32>,
                Seq<char>,
            >(e@),
        },
{
    let ghost all = recover_views(emails@);
    let mut uids: Vec<u32> = Vec::new();
    match filter {
        Some(f) => {
            let found: Vec<usize> = matching(emails, f.as_str());
            let ghost kept = all.filter(sent_by(f@));
            assert(kept == Seq::new(found@.len(), |k: int| all[found@[k] as int]));
            let mut i: usize = 0;
            while i < found.len()
                invariant
                    i <= found@.len(),
                    all == recover_views(emails@),
                    kept == Seq::new(found@.len(), |k: int| all[found@[k] as int]),
                    forall|k: int| 0 <= k < found@.len() ==> (#[trigger] found@[k]) < emails@.len(),
                    uids@.len() == i,
                    forall|k: int| 0 <= k < i ==> uids@[k] == (#[trigger] kept[k]).uid,
                decreases found@.len() - i,
            {
                assert(kept[i as int] == emails@[found@[i as int] as int]@);
                uids.push(emails[found[i]].uid);
                i += 1;
            }
            assert(uids@ =~= uids_of(kept));
        },
        None => {
            if count.is_none() {
                return Err(
                    "--restore without --from requires --count to prevent accidents".to_owned(),
                );
            }
            let mut i: usize = 0;
            while i < emails.len()
                invariant
                    i <= emails@.len(),
                    all == recover_views(emails@),
                    uids@.len() == i,
                    forall|k: int| 0 <= k < i ==> uids@[k] == (#[trigger] all[k]).uid,
                decreases emails@.len() - i,
            {
                assert(all[i as int] == emails@[i as int]@);
                uids.push(emails[i].uid);
                i += 1;
            }
            assert(uids@ =~= uids_of(all));
        },
    }
    if let Some(n) = count {
        if n < uids.len() {
            let ghost whole = uids@;
            uids.truncate(n);
            assert(uids@ =~= whole.take(n as int));
        }
    }
    Ok(uids)
}

/// Whether a UID is that of a message whose sender matches the filter, if there is one.
pub open spec fn is_restorable(
    emails: Seq<RecoverV>,
    filter: Option<Seq<char>>,
    uid: u32,
) -> bool {
    exists|i: int|
        0 <= i < emails.len() && (#[trigger] emails[i]).uid == uid && match filter {
            Some(f) => contains_text(lowercase(emails[i].from), f),
            None => true,
        }
}

proof fn lemma_filtered(s: Seq<RecoverV>, p: spec_fn(RecoverV) -> bool, k: int)
    requires
        0 <= k < s.filter(p).len(),
    ensures
        exists|i: int| 0 <= i < s.len() && s[i] == s.filter(p)[k],
    decreases s.len(),
{
    reveal(Seq::filter);
    if s.len() > 0 {
        let t = s.drop_last();
        assert(s =~= t.push(s.last()));
        t.lemma_filter_push(s.last(), p);
        if k < t.filter(p).len() {
            lemma_filtered(t, p, k);
            let i = choose|i: int| 0 <= i < t.len() && t[i] == t.filter(p)[k];
            assert(s[i] == s.filter(p)[k]);
        } else {
            assert(s[s.len() - 1] == s.filter(p)[k]);
        }
    }
}

/// Without a filter or a number, nothing is restored; with a number, no more than that; and
/// only messages of the trash whose sender matches the filter.
pub proof fn law_restoring_is_limited(
    emails: Seq<RecoverV>,
    filter: Option<Seq<char>>,
    count: Option<usize>,
)
    ensures
        restored_uids(emails, filter, count) is Err <==> filter is None && count is None,
        match (restored_uids(emails, filter, count), count) {
            (Ok(uids), Some(n)) => uids.len() <= n,
            _ => true,
        },
        match restored_uids(emails, filter, count) {
            Ok(uids) => forall|k: int|
                0 <= k < uids.len() ==> is_restorable(emails, filter, #[trigger] uids[k]),
            Err(_) => true,
        },
{
    if let Ok(uids) = restored_uids(emails, filter, count) {
        assert forall|k: int| 0 <= k < uids.len() implies is_restorable(
            emails,
            filter,
            #[trigger] uids[k],
        ) by {
            match filter {
                Some(f) => {
                    let kept = emails.filter(sent_by(f));
                    assert(uids[k] == uids_of(kept)[k]);
                    emails.lemma_filter_pred(sent_by(f), k);
                    lemma_filtered(emails, sent_by(f), k);
                    let i = choose|i: int| 0 <= i < emails.len() && emails[i] == kept[k];
                    assert(emails[i].uid == uids[k]);
                },
                None => {
                    assert(uids[k] == uids_of(emails)[k]);
                    assert(emails[k].uid == uids[k]);
                },
            }
        }
    }
}

/// How many messages are restored together at most.
pub const RESTORE_BATCH: usize = 100;

/// The notations of UIDs.
pub open spec fn uid_texts(uids: Seq<u32>) -> Seq<Seq<char>> {
    uids.map_values(|u: u32| decimal(u as nat))
}

/// The lists of UIDs that are restored together, each with how many messages are restored
/// with it and those before.
pub open spec fn restore_plan(uids: Seq<u32>, before: nat) -> Seq<(Seq<char>, nat)>
    decreases uids.len(),
{
    if uids.len() == 0 {
        Seq::empty()
    } else if uids.len() <= RESTORE_BATCH {
        seq![(joined(uid_texts(uids), ","@), before + uids.len())]
    } else {
        seq![
            (
                joined(uid_texts(uids.take(RESTORE_BATCH as int)), ","@),
                before + RESTORE_BATCH as nat,
            ),
        ] + restore_plan(uids.skip(RESTORE_BATCH as int), before + RESTORE_BATCH as nat)
    }
}

proof fn lemma_shift(s: Seq<CountV>, item: CountV, rest: Seq<CountV>)
    ensures
        s + (seq![item] + rest) == s.push(item) + rest,
{
    assert(s + (seq![item] + rest) =~= s.push(item) + rest);
}

proof fn lemma_restore_step(uids: Seq<u32>, from: int, to: int)
    requires
        0 <= from < to <= uids.len(),
        to == if uids.len() - from <= RESTORE_BATCH {
            uids.len() as int
        } else {
            from + RESTORE_BATCH
        },
    ensures
        restore_plan(uids.skip(from), from as nat) == seq![
            (joined(uid_texts(uids.subrange(from, to)), ","@), to as nat),
        ] + restore_plan(uids.skip(to), to as nat),
{
    let rest = uids.skip(from);
    assert(uids.subrange(from, to) =~= rest.take(to - from));
    if to == uids.len() {
        assert(rest.take(to - from) =~= rest);
        assert(uids.skip(to) =~= Seq::<u32>::empty());
        let item = (joined(uid_texts(rest), ","@), to as nat);
        assert(restore_plan(rest, from as nat) =~= seq![item]);
        assert(seq![item] + Seq::<CountV>::empty() =~= seq![item]);
    } else {
        assert(rest.skip(RESTORE_BATCH as int) =~= uids.skip(to));
    }
}

/// Some of the UIDs as a list.
fn uid_list(uids: &Vec<u32>, from: usize, to: usize) -> (r: String)
    requires
        from <= to <= uids@.len(),
    ensures
        r@ == joined(uid_texts(uids@.subrange(from as int, to as int)), ","@),
{
    let mut chunk: Vec<String> = Vec::new();
    let mut k: usize = from;
    while k < to
        invariant
            from <= k <= to <= uids@.len(),
            chunk@.len() == k - from,
            forall|j: int|
                0 <= j < k - from ==> (#[trigger] chunk@[j])@ == decimal(uids@[from + j] as nat),
        decreases to - k,
    {
        chunk.push(decimal_text(uids[k] as u64));
        k += 1;
    }
    assert(texts(chunk@) =~= uid_texts(uids@.subrange(from as int, to as int)));
    join(chunk.as_slice(), ",")
}

/// The lists of UIDs that are restored together, each with how many messages are restored
/// with it and those before.
pub fn restore_batches(uids: &Vec<u32>) -> (r: Vec<(String, usize)>)
    ensures
        count_views(r@) == restore_plan(uids@, 0),
{
    let ghost plan = restore_plan(uids@, 0);
    let mut r: Vec<(String, usize)> = Vec::new();
    let mut i: usize = 0;
    proof {
        assert(uids@.skip(0) =~= uids@);
        assert(count_views(r@) + plan =~= plan);
    }
    while i < uids.len()
        invariant
            i <= uids@.len(),
            plan == restore_plan(uids@, 0),
            count_views(r@) + restore_plan(uids@.skip(i as int), i as nat) == plan,
        decreases uids@.len() - i,
    {
        let ghost rest = uids@.skip(i as int);
        let ghost views = count_views(r@);
        let end: usize = if uids.len() - i <= RESTORE_BATCH {
            uids.len()
        } else {
            i + RESTORE_BATCH
        };
        let list: String = uid_list(uids, i, end);
        let ghost item = (list@, end as nat);
        proof {
            lemma_restore_step(uids@, i as int, end as int);
            lemma_shift(views, item, restore_plan(uids@.skip(end as int), end as nat));
        }
        r.push((list, end));
        assert(count_views(r@) =~= views.push(item));
        i = end;
    }
    proof {
        assert(uids@.skip(i as int) =~= Seq::<u32>::empty());
        assert(count_views(r@) + Seq::<CountV>::empty() =~= count_views(r@));
    }
    r
}

/// Each batch but the last restores as many messages as a batch can hold, and with the last
/// one all messages are restored.
pub proof fn law_batches_restore_everything(uids: Seq<u32>, before: nat)
    ensures
        restore_plan(uids, before).len() == (uids.len() + RESTORE_BATCH - 1) / RESTORE_BATCH as int,
        forall|k: int|
            0 <= k < restore_plan(uids, before).len() - 1 ==> (#[trigger] restore_plan(
                uids,
                before,
            )[k]).1 == before + (k + 1) * RESTORE_BATCH,
        uids.len() > 0 ==> restore_plan(uids, before).last().1 == before + uids.len(),
    decreases uids.len(),
{
    if uids.len() > RESTORE_BATCH {
        let plan = restore_plan(uids, before);
        let rest = restore_plan(uids.skip(RESTORE_BATCH as int), before + RESTORE_BATCH as nat);
        law_batches_restore_everything(
            uids.skip(RESTORE_BATCH as int),
            before + RESTORE_BATCH as nat,
        );
        assert(plan.last() == rest.last());
        assert forall|k: int| 0 <= k < plan.len() - 1 implies (#[trigger] plan[k]).1 == before + (k
            + 1) * RESTORE_BATCH by {
            if k > 0 {
                assert(plan[k] == rest[k - 1]);
            }
        }
    }
}

/// Whether the user agrees.
pub open spec fn agrees(input: Seq<char>) -> bool {
    lowercase(trimmed(input)) == "y"@
}

/// Whether the user agrees.
pub fn is_agreement(input: &str) -> (r: bool)
    ensures
        r == agrees(input@),
{
    str_eq(to_lower(trim(input).as_str()).as_str(), "y")
}

} // verus!
