//! What the server is asked in the end, and what is read out of its replies.
use vstd::prelude::*;

use crate::imap_client::{
    batch_text, is_sought, mailbox_argument, move_command_text, range_text, restore_plan,
    route_steps, route_uids, routes, routes_steps, search_steps, search_text, sequence_text,
    RestoreStepV, RestoreV, RouteV,
};
use crate::promises::messages::law_replacing_replaces_each;
use crate::promises::work::{
    lemma_open_prefix, lemma_open_suffix, lemma_route_open, lemma_search_open, open_folder,
};
use crate::replies::{
    can_be_parsed, has_dates, has_flat_structures, is_ascii_from, is_harmless, metadata_mark,
    nests_deep, null_date, stands_at, structure_mark, untagged_mark, upper_byte,
};
use crate::text::{
    all_digits, decimal, digits_value, joined, law_decimal_reads_back, occurs_at, replaced,
};
use crate::uids::{
    copied_to, covers, destinations, expanded, feed_from, law_uid_ranges, paired, parsed_reply,
    uid_ranges, UidMember,
};

verus! {

broadcast use vstd::seq_lib::group_seq_properties;

// ---------------------------------------------------------------------------
// Where messages went

/// The number of UIDs that a member of a set stands for.
pub open spec fn member_size(m: UidMember) -> nat {
    match m {
        UidMember::Uid(_) => 1,
        UidMember::Range(first, last) => if first <= last {
            (last - first + 1) as nat
        } else {
            0
        },
    }
}

/// The first UID of a member of a set.
pub open spec fn member_first(m: UidMember) -> u32 {
    match m {
        UidMember::Uid(uid) => uid,
        UidMember::Range(first, _) => first,
    }
}

/// The number of UIDs of the first members of a set.
pub open spec fn sizes_before(set: Seq<UidMember>, n: int) -> nat
    decreases n,
{
    if n <= 0 || n > set.len() {
        0
    } else {
        sizes_before(set, n - 1) + member_size(set[n - 1])
    }
}

proof fn lemma_sizes(set: Seq<UidMember>, n: int)
    requires
        0 <= n <= set.len() - 1,
    ensures
        sizes_before(set, n) == sizes_before(set.drop_last(), n),
    decreases n,
{
    if n > 0 {
        lemma_sizes(set, n - 1);
    }
}

/// A set of UIDs stands for the UIDs of its members, one member after the other, and each
/// from its first UID on, without a gap.
pub proof fn law_sets_stand_for_their_uids(set: Seq<UidMember>, m: int, k: int)
    requires
        0 <= m < set.len(),
        0 <= k < member_size(set[m]),
    ensures
        expanded(set).len() == sizes_before(set, set.len() as int),
        sizes_before(set, m) + k < expanded(set).len(),
        expanded(set)[sizes_before(set, m) + k] == member_first(set[m]) + k,
    decreases set.len(),
{
    let t = set.drop_last();
    let n = set.len() - 1;
    lemma_expanded_len(t);
    lemma_expanded_len(set);
    lemma_sizes(set, n);
    lemma_sizes(set, m);
    if m < n {
        law_sets_stand_for_their_uids(t, m, k);
    }
}

proof fn lemma_expanded_len(set: Seq<UidMember>)
    ensures
        expanded(set).len() == sizes_before(set, set.len() as int),
    decreases set.len(),
{
    if set.len() > 0 {
        lemma_expanded_len(set.drop_last());
        lemma_sizes(set, set.len() - 1);
    }
}

proof fn lemma_decimal_is_injective(a: nat, b: nat)
    requires
        decimal(a) == decimal(b),
    ensures
        a == b,
{
    law_decimal_reads_back(a);
    law_decimal_reads_back(b);
}

proof fn lemma_paired(sources: Seq<u32>, dests: Seq<u32>, n: int, uid: u32)
    requires
        0 <= n <= sources.len(),
        n <= dests.len(),
    ensures
        paired(sources, dests, n).contains_key(decimal(uid as nat)) <==> exists|k: int|
            0 <= k < n && #[trigger] sources[k] == uid,
        forall|k: int|
            0 <= k < n && #[trigger] sources[k] == uid && (forall|j: int|
                k < j < n ==> #[trigger] sources[j] != uid) ==> paired(
                sources,
                dests,
                n,
            )[decimal(uid as nat)] == dests[k],
    decreases n,
{
    if n > 0 {
        lemma_paired(sources, dests, n - 1, uid);
        if decimal(sources[n - 1] as nat) == decimal(uid as nat) {
            lemma_decimal_is_injective(sources[n - 1] as nat, uid as nat);
        }
    }
}

/// The server tells where messages went by two sets of UIDs: the first UID of the one went to
/// the first of the other, and so on, as far as both go. The UID that a message had is what it
/// is found by; one that is in neither is not known to have gone anywhere.
pub proof fn law_messages_go_where_the_server_says(
    sources: Seq<u32>,
    dests: Seq<u32>,
    k: int,
    uid: u32,
)
    ensures
        0 <= k < sources.len() && k < dests.len() && (forall|j: int|
            k < j < sources.len() ==> #[trigger] sources[j] != sources[k]) ==> {
            let name = decimal(sources[k] as nat);
            &&& destinations(sources, dests).contains_key(name)
            &&& destinations(sources, dests)[name] == dests[k]
        },
        !sources.contains(uid) ==> !destinations(sources, dests).contains_key(
            decimal(uid as nat),
        ),
{
    let n = vstd::math::min(sources.len() as int, dests.len() as int);
    lemma_paired(sources, dests, n, uid);
    if 0 <= k < n {
        lemma_paired(sources, dests, n, sources[k]);
    }
}

/// Replies that say nothing of where messages went, and lines that are no replies, are passed
/// over: what follows them decides. The first reply that says it is the one that counts.
pub proof fn law_the_first_code_counts(bytes: Seq<u8>, rest: usize, feed: int)
    requires
        bytes.len() > 0,
    ensures
        parsed_reply(bytes) == Some((rest, None::<(Seq<UidMember>, Seq<UidMember>)>)) && rest
            < bytes.len() ==> copied_to(bytes) == copied_to(bytes.skip(bytes.len() - rest)),
        parsed_reply(bytes) is None && 0 <= feed < bytes.len() && bytes[feed] == 10 && (forall|i:
            int| 0 <= i < feed ==> #[trigger] bytes[i] != 10) ==> copied_to(bytes) == copied_to(
            bytes.skip(feed + 1),
        ),
        match parsed_reply(bytes) {
            Some((_, Some((sources, dests)))) => copied_to(bytes) == destinations(
                expanded(sources),
                expanded(dests),
            ),
            _ => true,
        },
        copied_to(Seq::empty()) == Map::<Seq<char>, u32>::empty(),
{
    if 0 <= feed < bytes.len() && bytes[feed] == 10 && (forall|i: int|
        0 <= i < feed ==> #[trigger] bytes[i] != 10) {
        lemma_feed(bytes, 0, feed);
    }
}

proof fn lemma_feed(bytes: Seq<u8>, from: int, feed: int)
    requires
        0 <= from <= feed < bytes.len(),
        bytes[feed] == 10,
        forall|i: int| 0 <= i < feed ==> #[trigger] bytes[i] != 10,
    ensures
        feed_from(bytes, from) == feed,
    decreases feed - from,
{
    if from < feed {
        assert(bytes[from] != 10);
        lemma_feed(bytes, from + 1, feed);
    }
}

/// Whether bytes read as a text from some place on, the case of their letters aside.
pub open spec fn spells(bytes: Seq<u8>, at: int, text: Seq<char>) -> bool {
    &&& 0 <= at && at + text.len() <= bytes.len()
    &&& forall|k: int|
        0 <= k < text.len() ==> upper_byte(#[trigger] bytes[at + k]) == text[k] as u8
}

/// A reply without a tag in which a message has no internal date is not parsed; nor is one in
/// which annotations of a mailbox are followed by what is not ASCII, or in which a body
/// structure opens more than 32 brackets one after the other. Without such a reply all is
/// parsed.
pub proof fn law_harmful_replies_are_refused(bytes: Seq<u8>, i: int, j: int, k: int)
    requires
        0 <= i <= j < bytes.len(),
    ensures
        spells(bytes, i, "* "@) && spells(bytes, j, "INTERNALDATE NIL"@) ==> !can_be_parsed(bytes),
        spells(bytes, i, "* "@) && spells(bytes, j, "* METADATA "@) && j <= k < bytes.len()
            && bytes[k] >= 128 ==> !can_be_parsed(bytes),
        spells(bytes, i, "* "@) && spells(bytes, j, "BODYSTRUCTURE "@) && j + 14 + 33 <= bytes.len()
            && (forall|n: int| j + 14 <= n < j + 14 + 33 ==> #[trigger] bytes[n] == 40)
            ==> !can_be_parsed(bytes),
        (forall|n: int| !(#[trigger] spells(bytes, n, "* "@))) ==> can_be_parsed(bytes),
{
    let rest = bytes.skip(i);
    reveal_strlit("* ");
    assert forall|n: int| stands_at(bytes, untagged_mark(), n) == #[trigger] spells(
        bytes,
        n,
        "* "@,
    ) by {
        lemma_spells(bytes, n, "* "@, untagged_mark());
    }
    if forall|n: int| !(#[trigger] spells(bytes, n, "* "@)) {
        assert forall|n: int| #[trigger] stands_at(bytes, untagged_mark(), n) implies is_harmless(
            bytes.skip(n),
        ) by {
            assert(!spells(bytes, n, "* "@));
        }
    }
    if spells(bytes, i, "* "@) {
        if spells(bytes, j, "INTERNALDATE NIL"@) {
            reveal_strlit("INTERNALDATE NIL");
            lemma_spells(bytes, j, "INTERNALDATE NIL"@, null_date());
            lemma_stands_behind(bytes, null_date(), i, j);
            assert(!has_dates(rest));
        }
        if spells(bytes, j, "* METADATA "@) && j <= k < bytes.len() && bytes[k] >= 128 {
            reveal_strlit("* METADATA ");
            lemma_spells(bytes, j, "* METADATA "@, metadata_mark());
            lemma_stands_behind(bytes, metadata_mark(), i, j);
            assert(rest[k - i] == bytes[k]);
            assert(!is_ascii_from(rest, j - i));
        }
        if spells(bytes, j, "BODYSTRUCTURE "@) && j + 14 + 33 <= bytes.len() && (forall|n: int|
            j + 14 <= n < j + 14 + 33 ==> #[trigger] bytes[n] == 40) {
            reveal_strlit("BODYSTRUCTURE ");
            lemma_spells(bytes, j, "BODYSTRUCTURE "@, structure_mark());
            lemma_stands_behind(bytes, structure_mark(), i, j);
            let inner = rest.skip(j - i + 14);
            assert forall|n: int| 0 <= n < 33 implies #[trigger] inner[n] == 40 by {
                assert(inner[n] == bytes[j + 14 + n]);
            }
            lemma_deep(inner, 0);
            assert(!has_flat_structures(rest));
        }
    }
}

proof fn lemma_spells(bytes: Seq<u8>, at: int, text: Seq<char>, mark: Seq<u8>)
    requires
        text.len() == mark.len(),
        forall|k: int| 0 <= k < text.len() ==> #[trigger] text[k] as u8 == mark[k],
    ensures
        stands_at(bytes, mark, at) == spells(bytes, at, text),
{
    if spells(bytes, at, text) {
        assert forall|k: int| 0 <= k < mark.len() implies upper_byte(#[trigger] bytes[at + k])
            == mark[k] by {
            assert(text[k] as u8 == mark[k]);
        }
    }
    if stands_at(bytes, mark, at) {
        assert forall|k: int| 0 <= k < text.len() implies upper_byte(#[trigger] bytes[at + k])
            == text[k] as u8 by {
            assert(text[k] as u8 == mark[k]);
        }
    }
}

proof fn lemma_stands_behind(bytes: Seq<u8>, mark: Seq<u8>, i: int, j: int)
    requires
        0 <= i <= j,
        stands_at(bytes, mark, j),
        i <= bytes.len(),
    ensures
        stands_at(bytes.skip(i), mark, j - i),
{
    let rest = bytes.skip(i);
    assert forall|k: int| 0 <= k < mark.len() implies upper_byte(#[trigger] rest[j - i + k])
        == mark[k] by {
        assert(rest[j - i + k] == bytes[j + k]);
    }
}

proof fn lemma_deep(bytes: Seq<u8>, depth: int)
    requires
        0 <= depth <= 32,
        bytes.len() >= 33 - depth,
        forall|n: int| 0 <= n < 33 - depth ==> #[trigger] bytes[n] == 40,
    ensures
        nests_deep(bytes, depth),
    decreases 32 - depth,
{
    assert(bytes[0] == 40);
    if depth < 32 {
        let t = bytes.skip(1);
        assert forall|n: int| 0 <= n < 33 - depth - 1 implies #[trigger] t[n] == 40 by {
            assert(t[n] == bytes[n + 1]);
        }
        lemma_deep(t, depth + 1);
    }
}

// ---------------------------------------------------------------------------
// Putting messages back

proof fn lemma_routes_contain(items: Seq<RestoreV>, k: int)
    requires
        0 <= k < items.len(),
        items[k].1 is Some,
    ensures
        routes(items).contains((items[k].2, items[k].3)),
        route_uids(items, (items[k].2, items[k].3)).contains(items[k].1->0),
    decreases items.len(),
{
    let way = (items[k].2, items[k].3);
    let t = items.drop_last();
    let all = routes(items);
    let uids = route_uids(items, way);
    if k < t.len() {
        lemma_routes_contain(t, k);
        assert(t[k] == items[k]);
        assert(all[routes(t).index_of(way)] == way);
        assert(uids[route_uids(t, way).index_of(items[k].1->0)] == items[k].1->0);
    } else {
        if !routes(t).contains(way) {
            assert(all[all.len() - 1] == way);
        }
        assert(uids[uids.len() - 1] == items[k].1->0);
    }
}

proof fn lemma_route_place(items: Seq<RestoreV>, ways: Seq<RouteV>, w: int, j: int) -> (i: int)
    requires
        0 <= w < ways.len(),
        1 <= j < route_steps(route_uids(items, ways[w]), ways[w]).len(),
    ensures
        0 <= i < routes_steps(items, ways).len(),
        routes_steps(items, ways)[i] == route_steps(route_uids(items, ways[w]), ways[w])[j],
        open_folder(routes_steps(items, ways), i) == Some(ways[w].0),
    decreases ways.len(),
{
    let before = routes_steps(items, ways.drop_last());
    let uids = route_uids(items, ways.last());
    let last = route_steps(uids, ways.last());
    if w < ways.len() - 1 {
        let i = lemma_route_place(items, ways.drop_last(), w, j);
        lemma_open_prefix(before, last, i);
        i
    } else {
        lemma_route_open(uids, ways.last(), j);
        assert(last[0] is Select);
        lemma_open_suffix(before, last, j);
        before.len() + j
    }
}

proof fn lemma_search_place(items: Seq<RestoreV>, k: int) -> (i: int)
    requires
        0 <= k < items.len(),
        is_sought(items[k]),
    ensures
        0 < i < search_steps(items).len(),
        search_steps(items)[i] == (RestoreStepV::Find {
            message_id: items[k].0->0,
            folder: items[k].3,
        }),
        open_folder(search_steps(items), i) == Some(items[k].2),
    decreases items.len(),
{
    let t = items.drop_last();
    let all = search_steps(items);
    let before = search_steps(t);
    lemma_search_open(t);
    lemma_search_open(items);
    if k < t.len() {
        let i = lemma_search_place(t, k);
        assert(t[k] == items[k]);
        let more = all.skip(before.len() as int);
        assert(all =~= before + more);
        lemma_open_prefix(before, more, i);
        i
    } else {
        let i = all.len() - 1;
        assert(all[i] is Find);
        assert(open_folder(all, i + 1) == open_folder(all, i));
        i
    }
}

/// Every message whose UID is known is put back: while the folder that it is in is open, a
/// range of UIDs with its own one in it is moved to the folder that it came from. Every other
/// message that has a Message-ID is looked for by that, while the folder that it is in is
/// open, to be moved to the folder that it came from.
pub proof fn law_restoring_reaches_every_message(items: Seq<RestoreV>, k: int)
    requires
        0 <= k < items.len(),
    ensures
        match (items[k].1, items[k].0) {
            (Some(uid), _) => exists|i: int, first: u32, last: u32|
                {
                    &&& 0 <= i < restore_plan(items).len()
                    &&& #[trigger] restore_plan(items)[i] == (RestoreStepV::Move {
                        uids: #[trigger] range_text((first, last)),
                        folder: items[k].3,
                    })
                    &&& first <= uid <= last
                    &&& open_folder(restore_plan(items), i) == Some(items[k].2)
                },
            (None, Some(message_id)) => exists|i: int|
                {
                    &&& 0 <= i < restore_plan(items).len()
                    &&& #[trigger] restore_plan(items)[i] == (RestoreStepV::Find {
                        message_id,
                        folder: items[k].3,
                    })
                    &&& open_folder(restore_plan(items), i) == Some(items[k].2)
                },
            _ => true,
        },
{
    let moved = routes_steps(items, routes(items));
    let sought = search_steps(items);
    match (items[k].1, items[k].0) {
        (Some(uid), _) => {
            let way = (items[k].2, items[k].3);
            lemma_routes_contain(items, k);
            let w = routes(items).index_of(way);
            let uids = route_uids(items, way);
            let ranges = uid_ranges(uids);
            law_uid_ranges(uids);
            assert(covers(ranges, uid));
            let r = choose|r: int|
                0 <= r < ranges.len() && (#[trigger] ranges[r]).0 <= uid <= ranges[r].1;
            let (first, last) = ranges[r];
            let steps = route_steps(uids, way);
            assert(steps[r + 1] == RestoreStepV::Move {
                uids: range_text((first, last)),
                folder: way.1,
            });
            let i = lemma_route_place(items, routes(items), w, r + 1);
            lemma_open_prefix(moved, sought, i);
            assert(restore_plan(items)[i] == RestoreStepV::Move {
                uids: range_text((first, last)),
                folder: items[k].3,
            });
        },
        (None, Some(_)) => {
            let j = lemma_search_place(items, k);
            lemma_search_open(items);
            lemma_open_suffix(moved, sought, j);
            assert(restore_plan(items)[moved.len() + j] == sought[j]);
        },
        _ => {},
    }
}

/// A range of UIDs is written as its ends with a colon between them, and as one number where
/// it is one UID.
pub proof fn law_ranges_read_back(first: u32, last: u32)
    ensures
        first == last ==> all_digits(range_text((first, last))) && digits_value(
            range_text((first, last)),
        ) == first,
        first != last ==> exists|at: int|
            {
                &&& 0 < at < range_text((first, last)).len() - 1
                &&& #[trigger] range_text((first, last))[at] == ':'
                &&& all_digits(range_text((first, last)).take(at))
                &&& digits_value(range_text((first, last)).take(at)) == first
                &&& all_digits(range_text((first, last)).skip(at + 1))
                &&& digits_value(range_text((first, last)).skip(at + 1)) == last
            },
{
    let a = decimal(first as nat);
    let b = decimal(last as nat);
    law_decimal_reads_back(first as nat);
    law_decimal_reads_back(last as nat);
    lemma_decimal_is_something(first as nat);
    lemma_decimal_is_something(last as nat);
    if first != last {
        let text = range_text((first, last));
        reveal_strlit(":");
        assert(text[a.len() as int] == ':');
        assert(text.take(a.len() as int) =~= a);
        assert(text.skip(a.len() as int + 1) =~= b);
    }
}

/// Every number is written with a digit at least.
pub proof fn lemma_decimal_is_something(n: nat)
    ensures
        decimal(n).len() > 0,
{
}

// ---------------------------------------------------------------------------
// Commands

/// What a quoted text says from a place on, up to the quote that ends it: a backslash stands
/// for what follows it.
pub open spec fn unquoted(s: Seq<char>, i: int) -> Option<Seq<char>>
    decreases s.len() - i,
{
    if i < 0 || i >= s.len() {
        None
    } else if s[i] == '"' {
        if i == s.len() - 1 {
            Some(Seq::empty())
        } else {
            None
        }
    } else {
        let (c, next) = if s[i] == '\\' && i + 1 < s.len() {
            (s[i + 1], i + 2)
        } else {
            (s[i], i + 1)
        };
        match unquoted(s, next) {
            Some(rest) => Some(seq![c] + rest),
            None => None,
        }
    }
}

proof fn lemma_unquoted_skip(s: Seq<char>, t: Seq<char>, n: int, i: int)
    requires
        0 <= n <= s.len(),
        t == s.skip(n),
        0 <= i,
    ensures
        unquoted(s, n + i) == unquoted(t, i),
    decreases t.len() - i,
{
    if i < t.len() {
        if t[i] == '\\' && i + 1 < t.len() {
            lemma_unquoted_skip(s, t, n, i + 2);
        } else {
            lemma_unquoted_skip(s, t, n, i + 1);
        }
    }
}

proof fn lemma_escaping_reads_back(name: Seq<char>)
    requires
        !name.contains('\\'),
    ensures
        unquoted(replaced(name, "\""@, "\\\""@) + "\""@, 0) == Some(name),
    decreases name.len(),
{
    reveal_strlit("\"");
    reveal_strlit("\\\"");
    let p = "\""@;
    let r = "\\\""@;
    let out = replaced(name, p, r);
    let whole = out + p;
    if name.len() == 0 {
        law_replacing_replaces_each(name, p, r, 0);
        assert(whole.len() == 1 && whole[0] == '"');
        assert(Seq::<char>::empty() =~= name);
    } else {
        let t = name.skip(1);
        assert(!t.contains('\\')) by {
            if t.contains('\\') {
                assert(name[t.index_of('\\') + 1] == '\\');
            }
        }
        lemma_escaping_reads_back(t);
        let rest = replaced(t, p, r) + p;
        assert(seq![name[0]] + t =~= name);
        if name[0] == '"' {
            assert(name.subrange(0, 1) =~= p);
            assert(occurs_at(name, p, 0));
            law_replacing_replaces_each(name, p, r, 0);
            assert(name.take(0) + r + replaced(t, p, r) =~= r + replaced(t, p, r));
            assert(whole.skip(2) =~= rest);
            lemma_unquoted_skip(whole, rest, 2, 0);
            assert(whole[0] == '\\' && whole[1] == '"');
        } else {
            assert(name[0] != '\\') by {
                assert(name.contains(name[0]));
            }
            assert(!occurs_at(name, p, 0)) by {
                if occurs_at(name, p, 0) {
                    assert(name.subrange(0, 1)[0] == p[0]);
                }
            }
            assert(out == seq![name[0]] + replaced(t, p, r));
            assert(whole.skip(1) =~= rest);
            lemma_unquoted_skip(whole, rest, 1, 0);
            assert(whole[0] == name[0]);
        }
    }
}

/// A mailbox name stands in a command as it is, or in quotes where it has a space or a quote;
/// without a backslash in it, what is in the quotes reads as the name.
pub proof fn law_mailbox_names_read_back(mailbox: Seq<char>)
    ensures
        !mailbox.contains(' ') && !mailbox.contains('"') ==> mailbox_argument(mailbox) == mailbox,
        (mailbox.contains(' ') || mailbox.contains('"')) && !mailbox.contains('\\') ==> {
            &&& mailbox_argument(mailbox).len() > 1
            &&& mailbox_argument(mailbox)[0] == '"'
            &&& unquoted(mailbox_argument(mailbox), 1) == Some(mailbox)
        },
{
    if (mailbox.contains(' ') || mailbox.contains('"')) && !mailbox.contains('\\') {
        reveal_strlit("\"");
        let inner = replaced(mailbox, "\""@, "\\\""@) + "\""@;
        let arg = mailbox_argument(mailbox);
        lemma_escaping_reads_back(mailbox);
        assert(arg.skip(1) =~= inner);
        lemma_unquoted_skip(arg, inner, 1, 0);
        assert(arg[0] == '"');
    }
}

/// The command that moves messages says so, and then names the messages and the mailbox, with
/// a space before each.
pub proof fn law_move_commands_name_messages_and_mailbox(uids: Seq<char>, mailbox: Seq<char>)
    ensures
        ({
            let text = move_command_text(uids, mailbox);
            let n = 9 + uids.len() as int;
            &&& text.len() == n + 1 + mailbox_argument(mailbox).len()
            &&& text.take(9) == "UID MOVE "@
            &&& text.subrange(9, n) == uids
            &&& text[n] == ' '
            &&& text.skip(n + 1) == mailbox_argument(mailbox)
        }),
{
    reveal_strlit("UID MOVE ");
    reveal_strlit(" ");
    let text = move_command_text(uids, mailbox);
    let n = 9 + uids.len() as int;
    assert(text.take(9) =~= "UID MOVE "@);
    assert(text.subrange(9, n) =~= uids);
    assert(text.skip(n + 1) =~= mailbox_argument(mailbox));
}

/// The last comma among the first characters of a text, or -1.
pub open spec fn last_comma(s: Seq<char>, n: int) -> int
    decreases n,
{
    if n <= 0 || n > s.len() {
        -1
    } else if s[n - 1] == ',' {
        n - 1
    } else {
        last_comma(s, n - 1)
    }
}

/// The pieces of a text between its commas.
pub open spec fn pieces(s: Seq<char>) -> Seq<Seq<char>>
    decreases s.len(),
{
    let at = last_comma(s, s.len() as int);
    if at < 0 || at >= s.len() {
        seq![s]
    } else {
        pieces(s.take(at)).push(s.skip(at + 1))
    }
}

proof fn lemma_last_comma(s: Seq<char>, n: int, at: int)
    requires
        -1 <= at < n <= s.len(),
        at >= 0 ==> s[at] == ',',
        forall|k: int| at < k < n ==> #[trigger] s[k] != ',',
    ensures
        last_comma(s, n) == at,
    decreases n,
{
    if n > 0 && n - 1 > at {
        assert(s[n - 1] != ',');
        lemma_last_comma(s, n - 1, at);
    }
}

/// Texts without commas that are joined by commas read back as they were.
pub proof fn law_lists_read_back(list: Seq<Seq<char>>)
    requires
        list.len() > 0,
        forall|i: int, k: int|
            0 <= i < list.len() && 0 <= k < list[i].len() ==> #[trigger] list[i][k] != ',',
    ensures
        pieces(joined(list, ","@)) == list,
    decreases list.len(),
{
    reveal_strlit(",");
    let text = joined(list, ","@);
    if list.len() == 1 {
        assert(text == list[0]);
        if text.len() > 0 {
            assert forall|k: int| -1 < k < text.len() implies #[trigger] text[k] != ',' by {
                assert(list[0][k] != ',');
            }
            lemma_last_comma(text, text.len() as int, -1);
        }
        assert(last_comma(text, text.len() as int) == -1);
        assert(pieces(text) == seq![text]);
        assert(list =~= seq![text]);
    } else {
        let t = list.drop_last();
        let z = list.last();
        let before = joined(t, ","@);
        let at = before.len() as int;
        assert forall|i: int, k: int|
            0 <= i < t.len() && 0 <= k < t[i].len() implies #[trigger] t[i][k] != ',' by {
            assert(list[i][k] != ',');
        }
        law_lists_read_back(t);
        assert(text =~= before + ","@ + z);
        assert(text[at] == ',');
        assert forall|k: int| at < k < text.len() implies #[trigger] text[k] != ',' by {
            assert(list[list.len() - 1][k - at - 1] != ',');
        }
        lemma_last_comma(text, text.len() as int, at);
        assert(text.take(at) =~= before);
        assert(text.skip(at + 1) =~= z);
        assert(pieces(text) == pieces(before).push(z));
        assert(t.push(z) =~= list);
    }
}

/// The command for a batch names each UID of it once, in order, and the mailbox; there is none
/// for no UIDs.
pub proof fn law_batch_commands_name_each_uid(uids: Seq<Seq<char>>, mailbox: Seq<char>)
    requires
        forall|i: int, k: int|
            0 <= i < uids.len() && 0 <= k < uids[i].len() ==> #[trigger] uids[i][k] != ',',
    ensures
        batch_text(uids, mailbox) is Some <==> uids.len() > 0,
        uids.len() > 0 ==> exists|list: Seq<char>|
            batch_text(uids, mailbox) == Some(#[trigger] move_command_text(list, mailbox))
                && pieces(list) == uids,
{
    if uids.len() > 0 {
        law_lists_read_back(uids);
        let list = joined(uids, ","@);
        assert(batch_text(uids, mailbox) == Some(move_command_text(list, mailbox)));
    }
}

/// The sequence numbers of a range are its first and its last one with a colon between them;
/// there are none where the range is empty or starts at zero.
pub proof fn law_sequences_read_back(start: u32, end: u32)
    ensures
        match sequence_text(start, end) {
            Some(text) => 0 < start <= end && exists|at: int|
                {
                    &&& 0 < at < text.len() - 1
                    &&& #[trigger] text[at] == ':'
                    &&& all_digits(text.take(at)) && digits_value(text.take(at)) == start
                    &&& all_digits(text.skip(at + 1)) && digits_value(text.skip(at + 1)) == end
                },
            None => start == 0 || start > end,
        },
{
    if let Some(text) = sequence_text(start, end) {
        let a = decimal(start as nat);
        let b = decimal(end as nat);
        law_decimal_reads_back(start as nat);
        law_decimal_reads_back(end as nat);
        lemma_decimal_is_something(start as nat);
        lemma_decimal_is_something(end as nat);
        reveal_strlit(":");
        assert(text[a.len() as int] == ':');
        assert(text.take(a.len() as int) =~= a);
        assert(text.skip(a.len() as int + 1) =~= b);
    }
}

/// A message is searched for by the header that holds its Message-ID, and by all of that.
pub proof fn law_searches_name_the_message(message_id: Seq<char>)
    ensures
        search_text(message_id).len() == 18 + message_id.len(),
        search_text(message_id).take(18) == "HEADER Message-ID "@,
        search_text(message_id).skip(18) == message_id,
{
    reveal_strlit("HEADER Message-ID ");
    assert(search_text(message_id).take(18) =~= "HEADER Message-ID "@);
    assert(search_text(message_id).skip(18) =~= message_id);
}

} // verus!
