//! Arguments, settings and the trash: what the user writes is what the program goes by.
use vstd::prelude::*;

use crate::config::{
    accounts_of, resolved, toml_item, written_account, written_config, written_credentials,
    CommandOutput, CredentialsV, TomlItemV,
};
use crate::imap_client::FetchedMessage;
use crate::order::{by_rank, is_order, law_ordered, ordered};
use crate::promises::messages::{is_trimmed, law_trimming_takes_white_space_away};
use crate::promises::told::{lemma_reads, reads};
use crate::recover::{
    asked, date_text, listed, message_line, recovered, restore_plan, restored_uids, sender_report,
    sent_by, uid_texts, uids_of, value_after, RecoverV, LISTED, RESTORE_BATCH,
};
use crate::startup::{startup_of, Startup};
use crate::text::{at_most, decimal, joined, lowercase, occurs_at, utf8_lossy};

verus! {

broadcast use vstd::seq_lib::group_seq_properties;

// ---------------------------------------------------------------------------
// Starting

/// Whether an argument is given.
pub open spec fn is_given(args: Seq<Seq<char>>, arg: Seq<char>) -> bool {
    exists|i: int| 0 <= i < args.len() && #[trigger] args[i] == arg
}

/// Help is shown where it is asked for, and else the version where that is asked for, whatever
/// other arguments there are. Otherwise there are messages: made-up ones just if the
/// demonstration is asked for.
pub proof fn law_arguments_say_how_to_start(args: Seq<Seq<char>>)
    ensures
        startup_of(args) == Startup::Help <==> is_given(args, "--help"@) || is_given(args, "-h"@),
        startup_of(args) == Startup::Version <==> !is_given(args, "--help"@) && !is_given(
            args,
            "-h"@,
        ) && (is_given(args, "--version"@) || is_given(args, "-V"@)),
        startup_of(args) matches Startup::Demo { debug } ==> is_given(args, "--demo"@) && debug
            == is_given(args, "--debug"@),
        startup_of(args) matches Startup::Mail { debug } ==> !is_given(args, "--demo"@) && debug
            == is_given(args, "--debug"@),
{
    assert forall|arg: Seq<char>| args.contains(arg) == #[trigger] is_given(args, arg) by {
        if args.contains(arg) {
            assert(args[args.index_of(arg)] == arg);
        }
    }
}

// ---------------------------------------------------------------------------
// Settings

/// The settings are those of the file: what is written there, and what holds by default where
/// nothing is written. Each account has the address and the password that stand below its
/// name, and there is one for each name in the file and no other.
pub proof fn law_settings_are_those_of_the_file(document: Seq<char>, i: int)
    requires
        written_config(document) is Some,
    ensures
        ({
            let c = written_config(document)->0;
            &&& match toml_item(document, seq!["parallel_connections"@]) {
                Some(TomlItemV::Integer(n)) => n >= 0 && c.parallel_connections == n,
                Some(TomlItemV::Missing) => c.parallel_connections == 5,
                _ => false,
            }
            &&& match toml_item(document, seq!["advance_on_select"@]) {
                Some(TomlItemV::Boolean(b)) => c.advance_on_select == b,
                Some(TomlItemV::Missing) => c.advance_on_select,
                _ => false,
            }
            &&& match toml_item(document, seq!["protect_threads"@]) {
                Some(TomlItemV::Boolean(b)) => c.protect_threads == b,
                Some(TomlItemV::Missing) => c.protect_threads,
                _ => false,
            }
            &&& match toml_item(document, seq!["debug"@]) {
                Some(TomlItemV::Boolean(b)) => c.debug == b,
                Some(TomlItemV::Missing) => !c.debug,
                _ => false,
            }
            &&& match toml_item(document, seq!["accounts"@]) {
                Some(TomlItemV::Table(names)) => {
                    &&& c.accounts.len() == names.len()
                    &&& 0 <= i < names.len() ==> {
                        &&& c.accounts[i].0 == names[i]
                        &&& toml_item(document, seq!["accounts"@, names[i], "email"@]) == Some(
                            TomlItemV::Text(c.accounts[i].1.email),
                        )
                        &&& toml_item(document, seq!["accounts"@, names[i], "app_password"@])
                            == Some(TomlItemV::Text(c.accounts[i].1.app_password))
                    }
                },
                _ => false,
            }
        }),
{
    if let Some(TomlItemV::Table(names)) = toml_item(document, seq!["accounts"@]) {
        lemma_accounts(document, names, i);
    }
}

proof fn lemma_accounts(document: Seq<char>, names: Seq<Seq<char>>, i: int)
    requires
        accounts_of(document, names) is Some,
    ensures
        accounts_of(document, names)->0.len() == names.len(),
        0 <= i < names.len() ==> accounts_of(document, names)->0[i].0 == names[i]
            && written_account(document, names[i]) == Ok::<CredentialsV, Seq<char>>(
            accounts_of(document, names)->0[i].1,
        ),
    decreases names.len(),
{
    if names.len() > 0 {
        lemma_accounts(document, names.drop_last(), i);
    }
}

/// A file that says what it has to say is read: with a table of accounts that each have an
/// address and a password, and with settings that are of the right kind or left out.
pub proof fn law_complete_files_are_read(document: Seq<char>, names: Seq<Seq<char>>)
    requires
        toml_item(document, seq!["accounts"@]) == Some(TomlItemV::Table(names)),
        forall|i: int|
            0 <= i < names.len() ==> toml_item(
                document,
                seq!["accounts"@, #[trigger] names[i], "email"@],
            ) matches Some(TomlItemV::Text(_)),
        forall|i: int|
            0 <= i < names.len() ==> toml_item(
                document,
                seq!["accounts"@, #[trigger] names[i], "app_password"@],
            ) matches Some(TomlItemV::Text(_)),
        match toml_item(document, seq!["parallel_connections"@]) {
            Some(TomlItemV::Missing) => true,
            Some(TomlItemV::Integer(n)) => 0 <= n <= u32::MAX,
            _ => false,
        },
        toml_item(document, seq!["advance_on_select"@]) matches Some(TomlItemV::Missing)
            || toml_item(document, seq!["advance_on_select"@]) matches Some(TomlItemV::Boolean(_)),
        toml_item(document, seq!["protect_threads"@]) matches Some(TomlItemV::Missing)
            || toml_item(document, seq!["protect_threads"@]) matches Some(TomlItemV::Boolean(_)),
        toml_item(document, seq!["debug"@]) matches Some(TomlItemV::Missing) || toml_item(
            document,
            seq!["debug"@],
        ) matches Some(TomlItemV::Boolean(_)),
    ensures
        written_config(document) is Some,
{
    lemma_accounts_are_read(document, names);
}

proof fn lemma_accounts_are_read(document: Seq<char>, names: Seq<Seq<char>>)
    requires
        forall|i: int|
            0 <= i < names.len() ==> toml_item(
                document,
                seq!["accounts"@, #[trigger] names[i], "email"@],
            ) matches Some(TomlItemV::Text(_)),
        forall|i: int|
            0 <= i < names.len() ==> toml_item(
                document,
                seq!["accounts"@, #[trigger] names[i], "app_password"@],
            ) matches Some(TomlItemV::Text(_)),
    ensures
        accounts_of(document, names) is Some,
    decreases names.len(),
{
    if names.len() > 0 {
        let t = names.drop_last();
        assert forall|i: int| 0 <= i < t.len() implies toml_item(
            document,
            seq!["accounts"@, #[trigger] t[i], "email"@],
        ) matches Some(TomlItemV::Text(_)) by {
            assert(t[i] == names[i]);
        }
        assert forall|i: int| 0 <= i < t.len() implies toml_item(
            document,
            seq!["accounts"@, #[trigger] t[i], "app_password"@],
        ) matches Some(TomlItemV::Text(_)) by {
            assert(t[i] == names[i]);
        }
        lemma_accounts_are_read(document, t);
        assert(names.last() == names[names.len() - 1]);
    }
}

/// Credentials are the address and the password of the file, and there are none where either
/// of them is no text.
pub proof fn law_credentials_are_those_of_the_file(document: Seq<char>)
    ensures
        match written_credentials(document) {
            Some(c) => toml_item(document, seq!["email"@]) == Some(TomlItemV::Text(c.email))
                && toml_item(document, seq!["app_password"@]) == Some(
                TomlItemV::Text(c.app_password),
            ),
            None => !(toml_item(document, seq!["email"@]) matches Some(TomlItemV::Text(_))) || !(
            toml_item(document, seq!["app_password"@]) matches Some(TomlItemV::Text(_))),
        },
{
}

/// A password that is no reference is taken as it is. For a reference it is what the command
/// printed, without the white space around it, and nothing where the command failed or was
/// not run.
pub proof fn law_references_are_looked_up(value: Seq<char>, output: Option<CommandOutput>)
    ensures
        ({
            let is_reference = value.len() >= 5 && value.take(5) == "op://"@;
            match resolved(value, output) {
                Ok(secret) => if is_reference {
                    output is Some && (output->0).success && is_trimmed(
                        secret,
                        utf8_lossy((output->0).stdout@),
                    )
                } else {
                    secret == value
                },
                Err(_) => is_reference && (output is None || !(output->0).success),
            }
        }),
{
    reveal_strlit("op://");
    let mark = "op://"@;
    assert(mark.len() == 5);
    let is_reference = value.len() >= 5 && value.take(5) == mark;
    if value.len() >= 5 {
        assert(value.take(5) =~= value.subrange(0, 5));
    }
    assert(crate::config::is_reference(value) == is_reference);
    if let Some(o) = output {
        law_trimming_takes_white_space_away(utf8_lossy(o.stdout@));
    }
}

// ---------------------------------------------------------------------------
// The trash

/// The value of a flag is the argument behind the first one that is that flag.
pub proof fn law_flags_take_the_next_argument(args: Seq<Seq<char>>, flag: Seq<char>, i: int)
    requires
        0 <= i <= args.len(),
        forall|j: int| 0 <= j < i ==> #[trigger] args[j] != flag,
        i < args.len() ==> args[i] == flag,
    ensures
        value_after(args, flag) == if i + 1 < args.len() {
            Some(args[i + 1])
        } else {
            None
        },
    decreases i,
{
    if i > 0 {
        assert(args[0] != flag);
        let t = args.drop_first();
        assert forall|j: int| 0 <= j < i - 1 implies #[trigger] t[j] != flag by {
            assert(t[j] == args[j + 1]);
        }
        law_flags_take_the_next_argument(t, flag, i - 1);
    }
}

/// Arguments ask for something just if there is a command among them. What is asked is then
/// what the flags say: messages go to the inbox, and the latest 2000 are looked at, where
/// nothing else is said.
pub proof fn law_the_arguments_are_what_is_asked(args: Seq<Seq<char>>)
    ensures
        asked(args) is Some <==> is_given(args, "--check"@) || is_given(args, "--restore"@)
            || is_given(args, "--list-accounts"@),
        asked(args) matches Some(a) ==> {
            &&& a.check_mode == is_given(args, "--check"@)
            &&& a.restore_mode == is_given(args, "--restore"@)
            &&& a.list_accounts == is_given(args, "--list-accounts"@)
            &&& a.account_name == value_after(args, "--account"@)
            &&& value_after(args, "--from"@) is None ==> a.from_filter is None
            &&& value_after(args, "--from"@) is Some ==> a.from_filter == Some(
                lowercase(value_after(args, "--from"@)->0),
            )
            &&& value_after(args, "--to"@) is None ==> a.to_folder == "INBOX"@
            &&& value_after(args, "--to"@) is Some ==> a.to_folder == value_after(args, "--to"@)->0
            &&& value_after(args, "--limit"@) is None ==> a.limit == 2000
            &&& value_after(args, "--count"@) is None ==> a.count is None
        },
        forall|n: u32|
            asked(args) is Some && value_after(args, "--limit"@) == Some(
                #[trigger] decimal(n as nat),
            ) ==> asked(args)->0.limit == n,
        forall|n: u32|
            asked(args) is Some && value_after(args, "--count"@) == Some(
                #[trigger] decimal(n as nat),
            ) ==> asked(args)->0.count == Some(n as usize),
{
    assert forall|arg: Seq<char>| args.contains(arg) == #[trigger] is_given(args, arg) by {
        if args.contains(arg) {
            assert(args[args.index_of(arg)] == arg);
        }
    }
    assert forall|n: u32| crate::recover::size_value(Some(#[trigger] decimal(n as nat))) == Some(
        n as usize,
    ) by {
        crate::text::law_decimal_reads_back(n as nat);
        crate::promises::server::lemma_decimal_is_something(n as nat);
        assert(crate::text::is_digit(decimal(n as nat)[0]));
    }
}

/// Whether a sender matches a filter that is in lowercase.
pub open spec fn is_from(e: RecoverV, filter: Seq<char>) -> bool {
    exists|i: int|
        0 <= i && i + filter.len() <= lowercase(e.from).len() && #[trigger] lowercase(
            e.from,
        ).subrange(i, i + filter.len()) == filter
}

proof fn lemma_is_from(e: RecoverV, filter: Seq<char>)
    ensures
        sent_by(filter)(e) <==> is_from(e, filter),
{
    let from = lowercase(e.from);
    if is_from(e, filter) {
        let i = choose|i: int|
            0 <= i && i + filter.len() <= from.len() && #[trigger] from.subrange(
                i,
                i + filter.len(),
            ) == filter;
        assert(occurs_at(from, filter, i));
    }
    if sent_by(filter)(e) {
        let i = choose|i: int| occurs_at(from, filter, i);
        assert(from.subrange(i, i + filter.len()) == filter);
    }
}

/// The number of messages among the first ones whose sender matches a filter.
pub open spec fn matches_before(emails: Seq<RecoverV>, filter: Seq<char>, n: int) -> nat
    decreases n,
{
    if n <= 0 || n > emails.len() {
        0
    } else if is_from(emails[n - 1], filter) {
        matches_before(emails, filter, n - 1) + 1
    } else {
        matches_before(emails, filter, n - 1)
    }
}

proof fn lemma_matches(emails: Seq<RecoverV>, filter: Seq<char>, n: int)
    requires
        0 <= n <= emails.len(),
    ensures
        emails.take(n).filter(sent_by(filter)).len() == matches_before(emails, filter, n),
        forall|k: int|
            0 <= k < n && is_from(#[trigger] emails[k], filter) ==> matches_before(
                emails,
                filter,
                k,
            ) < matches_before(emails, filter, n) && emails.take(n).filter(
                sent_by(filter),
            )[matches_before(emails, filter, k) as int] == emails[k],
    decreases n,
{
    let p = sent_by(filter);
    if n == 0 {
        assert(emails.take(0).filter(p) =~= Seq::<RecoverV>::empty()) by {
            reveal(Seq::filter);
        }
    } else {
        lemma_matches(emails, filter, n - 1);
        lemma_is_from(emails[n - 1], filter);
        assert(emails.take(n) =~= emails.take(n - 1).push(emails[n - 1]));
        emails.take(n - 1).lemma_filter_push(emails[n - 1], p);
    }
}

/// Restoring the messages of a sender takes those whose sender matches, in order, each as
/// often as it is there, and only so many of them where a number is given.
pub proof fn law_messages_of_a_sender_are_restored(
    emails: Seq<RecoverV>,
    filter: Seq<char>,
    count: Option<usize>,
    k: int,
)
    requires
        0 <= k < emails.len(),
    ensures
        match restored_uids(emails, Some(filter), count) {
            Ok(uids) => {
                let all = matches_before(emails, filter, emails.len() as int);
                let at = matches_before(emails, filter, k);
                &&& uids.len() == if count is Some && count->0 < all {
                    count->0 as nat
                } else {
                    all
                }
                &&& is_from(emails[k], filter) && at < uids.len() ==> uids[at as int]
                    == emails[k].uid
            },
            Err(_) => false,
        },
{
    let kept = emails.filter(sent_by(filter));
    let uids = uids_of(kept);
    let all = matches_before(emails, filter, emails.len() as int);
    let at = matches_before(emails, filter, k) as int;
    assert(kept.len() == all && (is_from(emails[k], filter) ==> at < all && kept[at]
        == emails[k])) by {
        lemma_matches(emails, filter, emails.len() as int);
        assert(emails.take(emails.len() as int) =~= emails);
    }
    assert(uids.len() == all);
    assert(is_from(emails[k], filter) ==> uids[at] == emails[k].uid);
}

/// Restoring without a sender takes the first so many of all messages, and nothing without a
/// number.
pub proof fn law_the_latest_messages_are_restored(
    emails: Seq<RecoverV>,
    count: Option<usize>,
    k: int,
)
    requires
        0 <= k < emails.len(),
    ensures
        match restored_uids(emails, None, count) {
            Ok(uids) => {
                &&& count is Some
                &&& uids.len() == if count->0 < emails.len() {
                    count->0 as nat
                } else {
                    emails.len()
                }
                &&& k < uids.len() ==> uids[k] == emails[k].uid
            },
            Err(_) => count is None,
        },
{
    let uids = uids_of(emails);
    assert(uids.len() == emails.len() && uids[k] == emails[k].uid);
}

/// Messages are restored in batches: each names the UIDs of its own, one after the other, and
/// together they name all.
pub proof fn law_batches_name_their_messages(uids: Seq<u32>, before: nat, k: int)
    requires
        0 <= k < restore_plan(uids, before).len(),
    ensures
        ({
            let end = if (k + 1) * 100 < uids.len() {
                (k + 1) * 100
            } else {
                uids.len() as int
            };
            let batch = restore_plan(uids, before)[k];
            &&& k * 100 < end
            &&& batch.1 == before + end
            &&& batch.0 == joined(
                Seq::new((end - k * 100) as nat, |i: int| decimal(uids[k * 100 + i] as nat)),
                ","@,
            )
        }),
        (restore_plan(uids, before).len() - 1) * 100 < uids.len() <= restore_plan(
            uids,
            before,
        ).len() * 100,
    decreases uids.len(),
{
    let plan = restore_plan(uids, before);
    if uids.len() <= RESTORE_BATCH {
        assert(uid_texts(uids) =~= Seq::new(
            uids.len(),
            |i: int| decimal(uids[0 * 100 + i] as nat),
        ));
    } else {
        let first = uids.take(100);
        let rest = uids.skip(100);
        let later = restore_plan(rest, before + 100);
        assert(plan =~= seq![(joined(uid_texts(first), ","@), before + 100)] + later);
        assert(later.len() > 0);
        if k == 0 {
            law_batches_name_their_messages(rest, before + 100, 0);
            assert(uid_texts(first) =~= Seq::new(
                100,
                |i: int| decimal(uids[0 * 100 + i] as nat),
            ));
        } else {
            law_batches_name_their_messages(rest, before + 100, k - 1);
            let end = if k * 100 < rest.len() {
                k * 100
            } else {
                rest.len() as int
            };
            let a = Seq::new(
                (end - (k - 1) * 100) as nat,
                |i: int| decimal(rest[(k - 1) * 100 + i] as nat),
            );
            let b = Seq::new(
                (end + 100 - k * 100) as nat,
                |i: int| decimal(uids[k * 100 + i] as nat),
            );
            assert(a =~= b);
            assert(plan[k] == later[k - 1]);
        }
    }
}

spec fn report_on(found: Seq<RecoverV>, filter: Seq<char>) -> Seq<Seq<char>> {
    seq![
        "Found "@ + decimal(found.len()) + " deleted emails from senders matching '"@ + filter
            + "':"@,
        Seq::empty(),
    ] + listed(found).map_values(|e: RecoverV| message_line(date_text(e.date), e)) + if found.len()
        > LISTED {
        seq!["  ... and "@ + decimal((found.len() - LISTED) as nat) + " more"@]
    } else {
        Seq::empty()
    }
}

proof fn lemma_report(found: Seq<RecoverV>, filter: Seq<char>, at: int)
    requires
        0 <= at < found.len(),
    ensures
        ({
            let report = report_on(found, filter);
            &&& report.len() == 2 + if found.len() > 50 {
                51nat
            } else {
                found.len()
            }
            &&& reads(report[0], decimal(found.len()))
            &&& reads(report[0], filter)
            &&& at < 50 ==> reads(report[2 + at], found[at].from) && reads(
                report[2 + at],
                at_most(found[at].subject, 60),
            )
        }),
{
    let report = report_on(found, filter);
    let n = decimal(found.len());
    let mid = " deleted emails from senders matching '"@;
    assert(report[0] =~= "Found "@ + n + (mid + filter + "':"@));
    lemma_reads("Found "@, n, mid + filter + "':"@);
    lemma_reads("Found "@ + n + mid, filter, "':"@);
    if at < 50 {
        let e = found[at];
        let date = date_text(e.date);
        assert(report[2 + at] == message_line(date, e));
        lemma_message_line(date, e);
    }
}

proof fn lemma_message_line(date: Seq<char>, e: RecoverV)
    ensures
        reads(message_line(date, e), e.from),
        reads(message_line(date, e), at_most(e.subject, 60)),
{
    let line = message_line(date, e);
    let start = "  ["@ + date + "] "@;
    let tail = " - "@ + at_most(e.subject, 60);
    assert(line =~= start + e.from + tail);
    lemma_reads(start, e.from, tail);
    let head = start + e.from + " - "@;
    assert(line =~= head + at_most(e.subject, 60) + Seq::<char>::empty());
    lemma_reads(head, at_most(e.subject, 60), Seq::empty());
}

/// The report on a sender says how many messages match and lists the first fifty, each with
/// its sender and the beginning of its subject.
pub proof fn law_the_report_lists_what_matches(emails: Seq<RecoverV>, filter: Seq<char>, k: int)
    requires
        0 <= k < emails.len(),
        is_from(emails[k], filter),
    ensures
        ({
            let all = matches_before(emails, filter, emails.len() as int);
            let at = matches_before(emails, filter, k) as int;
            let report = sender_report(emails, filter);
            &&& report.len() == 2 + if all > 50 {
                51nat
            } else {
                all
            }
            &&& reads(report[0], decimal(all))
            &&& reads(report[0], filter)
            &&& at < 50 ==> reads(report[2 + at], emails[k].from) && reads(
                report[2 + at],
                at_most(emails[k].subject, 60),
            )
        }),
{
    let found = emails.filter(sent_by(filter));
    let all = matches_before(emails, filter, emails.len() as int);
    let at = matches_before(emails, filter, k) as int;
    assert(found.len() == all && at < all && found[at] == emails[k]) by {
        lemma_matches(emails, filter, emails.len() as int);
        assert(emails.take(emails.len() as int) =~= emails);
    }
    lemma_report(found, filter, at);
    assert(sender_report(emails, filter) == report_on(found, filter));
}

/// Of the senders that are counted, the busiest come first, and each is there with its number.
pub proof fn law_the_busiest_come_first(counts: Seq<(String, usize)>, i: int, j: int)
    requires
        0 <= i < j < counts.len(),
    ensures
        ({
            let sorted = ordered(by_rank::<(String, usize)>(), counts);
            &&& sorted.to_multiset() == counts.to_multiset()
            &&& sorted[i].1 >= sorted[j].1
        }),
{
    let before = by_rank::<(String, usize)>();
    let sorted = ordered(before, counts);
    assert(is_order(before)) by {
        assert forall|a: (String, usize), b: (String, usize)| #[trigger] before(a, b) implies !before(
            b,
            a,
        ) by {}
        assert forall|a: (String, usize), b: (String, usize), c: (String, usize)| #[trigger]
            before(a, c) implies (#[trigger] before(a, b)) || before(b, c) by {}
    }
    law_ordered(before, counts, counts[0]);
    sorted.to_multiset_ensures();
    counts.to_multiset_ensures();
    assert(sorted.len() == counts.len());
    assert(!before(sorted[j], sorted[i]));
}

/// A message in the trash has the UID and the subject that the server sent.
pub proof fn law_trash_keeps_what_the_server_says(m: FetchedMessage)
    ensures
        match recovered(m) {
            Some(e) => {
                &&& m.uid == Some(e.uid)
                &&& m.envelope is Some
                &&& (m.envelope->0).subject is Some ==> e.subject == utf8_lossy(
                    (m.envelope->0).subject->0@,
                )
                &&& (m.envelope->0).subject is None ==> e.subject.len() == 0
                &&& (m.envelope->0).date is None ==> e.date is None
            },
            None => m.uid is None || m.envelope is None,
        },
{
}

} // verus!
