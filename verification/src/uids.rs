//! Sets of UIDs, and the UIDs that a server gives to moved messages.
use imap_proto::types::{Response, ResponseCode, UidSetMember};
use vstd::hash_map::StringHashMap;
use vstd::prelude::*;

use crate::replies::{can_be_parsed, check_reply, law_suffix_can_be_parsed};
use crate::text::{decimal, decimal_text};

verus! {

broadcast use vstd::seq_lib::group_seq_properties;

/// A member of a UID set.
#[derive(Debug, Clone, Copy, PartialEq, Eq, Structural)]
pub enum UidMember {
    Uid(u32),
    /// The UIDs from the first to the second, both of them included.
    Range(u32, u32),
}

/// The UIDs that messages have in the folder they were moved to, by those they had before.
pub type UidMap = StringHashMap<u32>;

/// No UIDs.
pub fn no_uids() -> (map: UidMap)
    ensures
        map@ == Map::<Seq<char>, u32>::empty(),
{
    StringHashMap::new()
}

// ---------------------------------------------------------------------------
// Expanding

/// The numbers from `first` to `last`, both of them included.
pub open spec fn counting(first: u32, last: u32) -> Seq<u32> {
    if first <= last {
        Seq::new((last - first + 1) as nat, |k: int| (first + k) as u32)
    } else {
        Seq::empty()
    }
}

/// The UIDs of one member.
pub open spec fn member_uids(m: UidMember) -> Seq<u32> {
    match m {
        UidMember::Uid(uid) => seq![uid],
        UidMember::Range(first, last) => counting(first, last),
    }
}

/// The UIDs of a set, in order.
pub open spec fn expanded(set: Seq<UidMember>) -> Seq<u32>
    decreases set.len(),
{
    if set.len() == 0 {
        Seq::empty()
    } else {
        expanded(set.drop_last()) + member_uids(set.last())
    }
}

/// The UIDs of a set, in order.
pub fn expand_uid_set(uid_set: &Vec<UidMember>) -> (uids: Vec<u32>)
    ensures
        uids@ == expanded(uid_set@),
{
    let mut uids: Vec<u32> = Vec::new();
    let mut i: usize = 0;
    assert(uids@ =~= expanded(uid_set@.take(0)));
    while i < uid_set.len()
        invariant
            i <= uid_set@.len(),
            uids@ == expanded(uid_set@.take(i as int)),
        decreases uid_set@.len() - i,
    {
        let ghost before = uids@;
        proof {
            assert(uid_set@.take(i + 1).drop_last() =~= uid_set@.take(i as int));
            assert(uid_set@.take(i + 1).last() == uid_set@[i as int]);
        }
        match uid_set[i] {
            UidMember::Uid(uid) => {
                uids.push(uid);
                assert(uids@ =~= before + seq![uid]);
            },
            UidMember::Range(first, last) => {
                let mut uid: u64 = first as u64;
                while uid <= last as u64
                    invariant
                        first <= uid <= last + 1 || (uid == first && first > last),
                        uids@ == before + counting(first, last).take(uid - first),
                    decreases last + 1 - uid,
                {
                    uids.push(uid as u32);
                    proof {
                        let c = counting(first, last);
                        assert(c.take(uid - first + 1) =~= c.take(uid - first).push(uid as u32));
                        assert(uids@ =~= before + c.take(uid - first + 1));
                    }
                    uid += 1;
                }
                assert(counting(first, last).take(uid - first) =~= counting(first, last));
            },
        }
        i += 1;
    }
    assert(uid_set@.take(i as int) =~= uid_set@);
    uids
}

// ---------------------------------------------------------------------------
// Where moved messages went

/// The destination of each of the first `n` sources, by the notation of its UID. A source
/// that stands twice has the later destination.
pub open spec fn paired(sources: Seq<u32>, dests: Seq<u32>, n: int) -> Map<Seq<char>, u32>
    decreases n,
{
    if n <= 0 {
        Map::empty()
    } else {
        paired(sources, dests, n - 1).insert(decimal(sources[n - 1] as nat), dests[n - 1])
    }
}

/// The destination of each source, as far as both lists go.
pub open spec fn destinations(sources: Seq<u32>, dests: Seq<u32>) -> Map<Seq<char>, u32> {
    paired(sources, dests, vstd::math::min(sources.len() as int, dests.len() as int))
}

/// The destination of each source, as far as both sets go.
pub fn pair_uids(source_uids: &Vec<UidMember>, dest_uids: &Vec<UidMember>) -> (map: StringHashMap<
    u32,
>)
    ensures
        map@ == destinations(expanded(source_uids@), expanded(dest_uids@)),
{
    let sources: Vec<u32> = expand_uid_set(source_uids);
    let dests: Vec<u32> = expand_uid_set(dest_uids);
    let mut map: StringHashMap<u32> = StringHashMap::new();
    let mut i: usize = 0;
    while i < sources.len() && i < dests.len()
        invariant
            i <= sources@.len(),
            i <= dests@.len(),
            map@ == paired(sources@, dests@, i as int),
        decreases sources@.len() - i,
    {
        map.insert(decimal_text(sources[i] as u64), dests[i]);
        i += 1;
    }
    map
}

/// What a parsed reply holds: the number of bytes behind it, and the sets of a COPYUID code.
pub type Reply = Option<(usize, Option<(Vec<UidMember>, Vec<UidMember>)>)>;

/// What a [`Reply`] holds.
pub type ReplyV = Option<(usize, Option<(Seq<UidMember>, Seq<UidMember>)>)>;

/// What a [`Reply`] holds.
pub open spec fn reply_view(r: Reply) -> ReplyV {
    match r {
        Some((rest, Some((sources, dests)))) => Some((rest, Some((sources@, dests@)))),
        Some((rest, None)) => Some((rest, None)),
        None => None,
    }
}

/// What `imap_proto::parser::parse_response` makes of some bytes.
pub uninterp spec fn parsed_reply(bytes: Seq<u8>) -> ReplyV;

/// `imap_proto::parser::parse_response`: the number of bytes behind the first response, and
/// the two UID sets where it is a tagged response with a COPYUID code. The result is a
/// function of the bytes, and a response is never empty. The parser unwraps the internal
/// date of a message, so a reply without one is left out. It unwraps the names and values
/// of annotations as UTF-8, so annotations that are not ASCII are left out. It calls itself
/// for each bracket of a body structure, so one that nests too deep is left out. All of this
/// is so in replies without a tag only.
#[verifier::external_body]
fn parse_reply(bytes: &[u8]) -> (r: Reply)
    requires
        can_be_parsed(bytes@),
    ensures
        reply_view(r) == parsed_reply(bytes@),
        r is Some ==> (r->0).0 < bytes@.len(),
{
    let (rest, response) = imap_proto::parser::parse_response(bytes).ok()?;
    let member = |m: UidSetMember| match m {
        UidSetMember::Uid(uid) => UidMember::Uid(uid),
        UidSetMember::UidRange(range) => UidMember::Range(*range.start(), *range.end()),
    };
    let code = match response {
        Response::Done { code: Some(ResponseCode::CopyUid(_, sources, dests)), .. } => Some(
            (sources.into_iter().map(member).collect(), dests.into_iter().map(member).collect()),
        ),
        _ => None,
    };
    Some((rest.len(), code))
}

/// The first line feed at or after `from`, or the number of bytes.
pub open spec fn feed_from(bytes: Seq<u8>, from: int) -> int
    decreases bytes.len() - from,
{
    if from >= bytes.len() {
        bytes.len() as int
    } else if bytes[from] == 10 {
        from
    } else {
        feed_from(bytes, from + 1)
    }
}

/// Where the bytes go on after a reply that says nothing of where messages went, or after
/// a line that is no reply. `None` where they end.
pub open spec fn goes_on_at(bytes: Seq<u8>, reply: ReplyV) -> Option<int> {
    match reply {
        Some((rest, _)) => Some(bytes.len() - rest),
        None => if feed_from(bytes, 0) < bytes.len() {
            Some(feed_from(bytes, 0) + 1)
        } else {
            None
        },
    }
}

/// The destinations that the first COPYUID code in some bytes gives.
pub open spec fn copied_to(bytes: Seq<u8>) -> Map<Seq<char>, u32>
    decreases bytes.len(),
{
    let reply = parsed_reply(bytes);
    if bytes.len() == 0 {
        Map::empty()
    } else {
        match reply {
            Some((_, Some((sources, dests)))) => destinations(expanded(sources), expanded(dests)),
            _ => match goes_on_at(bytes, reply) {
                Some(at) => if 0 < at <= bytes.len() {
                    copied_to(bytes.skip(at))
                } else {
                    Map::empty()
                },
                None => Map::empty(),
            },
        }
    }
}

/// The first line feed at or after `from`, or the number of bytes.
fn find_feed(bytes: &[u8], from: usize) -> (r: usize)
    requires
        from <= bytes@.len(),
    ensures
        r == feed_from(bytes@, from as int),
        from <= r <= bytes@.len(),
{
    let mut i: usize = from;
    while i < bytes.len() && bytes[i] != 10
        invariant
            from <= i <= bytes@.len(),
            feed_from(bytes@, from as int) == feed_from(bytes@, i as int),
        decreases bytes@.len() - i,
    {
        i += 1;
    }
    i
}

/// Where the bytes go on after a reply, or after a line that is no reply.
pub fn next_reply(bytes: &[u8], reply: &Reply) -> (r: Option<usize>)
    requires
        reply is Some ==> (reply->0).0 < bytes@.len(),
    ensures
        match r {
            Some(at) => goes_on_at(bytes@, reply_view(*reply)) == Some(at as int) && 0 < at
                <= bytes@.len(),
            None => goes_on_at(bytes@, reply_view(*reply)) is None,
        },
{
    match reply {
        Some((rest, _)) => Some(bytes.len() - *rest),
        None => {
            let feed: usize = find_feed(bytes, 0);
            if feed < bytes.len() {
                Some(feed + 1)
            } else {
                None
            }
        },
    }
}

/// Reads where moved messages went out of the server's reply.
pub fn parse_copyuid_response(response: &[u8]) -> (map: StringHashMap<u32>)
    requires
        can_be_parsed(response@),
    ensures
        map@ == copied_to(response@),
{
    let mut at: usize = 0;
    assert(response@.skip(0) =~= response@);
    while at < response.len()
        invariant
            at <= response@.len(),
            can_be_parsed(response@),
            copied_to(response@) == copied_to(response@.skip(at as int)),
        decreases response@.len() - at,
    {
        let remaining: &[u8] = vstd::slice::slice_subrange(response, at, response.len());
        let ghost rest = response@.skip(at as int);
        proof {
            assert(remaining@ =~= rest);
            law_suffix_can_be_parsed(response@, at as int);
        }
        let reply: Reply = parse_reply(remaining);
        let next: Option<usize> = next_reply(remaining, &reply);
        match reply {
            Some((_, Some((sources, dests)))) => {
                return pair_uids(&sources, &dests);
            },
            _ => {},
        }
        match next {
            Some(step) => {
                assert(rest.skip(step as int) =~= response@.skip(at + step));
                at = at + step;
            },
            None => {
                return StringHashMap::new();
            },
        }
    }
    StringHashMap::new()
}

/// Reads where moved messages went out of the server's reply, if it can be parsed.
pub fn read_copyuid_response(response: &[u8]) -> (r: Option<UidMap>)
    ensures
        match r {
            Some(map) => can_be_parsed(response@) && map@ == copied_to(response@),
            None => !can_be_parsed(response@),
        },
{
    if check_reply(response) {
        Some(parse_copyuid_response(response))
    } else {
        None
    }
}

// ---------------------------------------------------------------------------
// Ranges

/// Whether some range holds a UID.
pub open spec fn covers(ranges: Seq<(u32, u32)>, uid: u32) -> bool {
    exists|i: int| 0 <= i < ranges.len() && (#[trigger] ranges[i]).0 <= uid <= ranges[i].1
}

/// Whether ranges are not empty, in order, and as long as they can be: between two of them
/// at least one number is missing.
pub open spec fn are_maximal(ranges: Seq<(u32, u32)>) -> bool {
    &&& forall|i: int| 0 <= i < ranges.len() ==> (#[trigger] ranges[i]).0 <= ranges[i].1
    &&& forall|i: int, j: int|
        0 <= i < j < ranges.len() ==> (#[trigger] ranges[i]).1 + 1 < (#[trigger] ranges[j]).0
}

/// Whether ranges are those of a list of UIDs: in order, as long as they can be, and holding
/// the UIDs of the list and no others.
pub open spec fn are_ranges_of(ranges: Seq<(u32, u32)>, uids: Seq<u32>) -> bool {
    are_maximal(ranges) && forall|u: u32| #[trigger] covers(ranges, u) <==> uids.contains(u)
}

/// The ranges of the UIDs below `n` of a list: each UID in turn makes the last range longer,
/// or starts a new one.
pub open spec fn ranges_below(uids: Seq<u32>, n: nat) -> Seq<(u32, u32)>
    decreases n,
{
    if n == 0 {
        Seq::empty()
    } else {
        let uid = (n - 1) as u32;
        let ranges = ranges_below(uids, (n - 1) as nat);
        if !uids.contains(uid) {
            ranges
        } else if ranges.len() > 0 && ranges.last().1 + 1 == uid {
            ranges.drop_last().push((ranges.last().0, uid))
        } else {
            ranges.push((uid, uid))
        }
    }
}

/// The ranges of a list of UIDs.
pub open spec fn uid_ranges(uids: Seq<u32>) -> Seq<(u32, u32)> {
    ranges_below(uids, 0x1_0000_0000)
}

proof fn lemma_ranges_below(uids: Seq<u32>, n: nat)
    requires
        n <= 0x1_0000_0000,
    ensures
        are_maximal(ranges_below(uids, n)),
        forall|u: u32| #[trigger]
            covers(ranges_below(uids, n), u) <==> uids.contains(u) && u < n,
    decreases n,
{
    if n > 0 {
        let uid = (n - 1) as u32;
        let before = ranges_below(uids, (n - 1) as nat);
        let after = ranges_below(uids, n);
        lemma_ranges_below(uids, (n - 1) as nat);
        let last = before.len() - 1;
        if before.len() > 0 {
            let end = before[last].1;
            assert(before[last].0 <= end);
            assert(covers(before, end));
            assert(end < uid);
        }
        assert forall|u: u32| #[trigger] covers(after, u) <==> uids.contains(u) && u < n by {
            assert(covers(before, u) <==> uids.contains(u) && u < n - 1);
            if covers(before, u) {
                let k = choose|k: int|
                    0 <= k < before.len() && (#[trigger] before[k]).0 <= u <= before[k].1;
                assert(after[k].0 <= u <= after[k].1);
            }
            if uids.contains(uid) {
                assert(after[after.len() - 1].0 <= uid <= after[after.len() - 1].1);
            }
            if covers(after, u) && u != uid {
                let k = choose|k: int|
                    0 <= k < after.len() && (#[trigger] after[k]).0 <= u <= after[k].1;
                assert(before[k].0 <= u <= before[k].1);
            }
        }
        assert forall|i: int, j: int| 0 <= i < j < after.len() implies (#[trigger] after[i]).1 + 1 < (
        #[trigger] after[j]).0 by {
            if j < before.len() {
                assert(before[i].1 + 1 < before[j].0);
                assert(after[i] == before[i]);
            } else if i < last {
                assert(before[i].1 + 1 < before[last].0);
            }
        }
        assert forall|i: int| 0 <= i < after.len() implies (#[trigger] after[i]).0 <= after[i].1 by {
            if i < before.len() {
                assert(before[i].0 <= before[i].1);
            }
        }
    }
}

/// The ranges of a list hold the UIDs of the list and no others; they are in order and as
/// long as they can be.
pub proof fn law_uid_ranges(uids: Seq<u32>)
    ensures
        are_ranges_of(uid_ranges(uids), uids),
{
    lemma_ranges_below(uids, 0x1_0000_0000);
}

/// Whether numbers grow.
spec fn grows(s: Seq<u32>) -> bool {
    forall|i: int, j: int| 0 <= i < j < s.len() ==> #[trigger] s[i] < #[trigger] s[j]
}

/// The numbers of a list, each once and in order.
fn sort_and_dedup(uids: &[u32]) -> (sorted: Vec<u32>)
    ensures
        grows(sorted@),
        forall|u: u32| #[trigger] sorted@.contains(u) <==> uids@.contains(u),
{
    let mut sorted: Vec<u32> = Vec::new();
    let mut i: usize = 0;
    while i < uids.len()
        invariant
            i <= uids@.len(),
            grows(sorted@),
            forall|u: u32| #[trigger] sorted@.contains(u) <==> uids@.take(i as int).contains(u),
        decreases uids@.len() - i,
    {
        let uid: u32 = uids[i];
        let mut pos: usize = sorted.len();
        while pos > 0 && sorted[pos - 1] >= uid
            invariant
                pos <= sorted@.len(),
                forall|k: int| pos <= k < sorted@.len() ==> sorted@[k] >= uid,
            decreases pos,
        {
            pos -= 1;
        }
        let ghost before = sorted@;
        let ghost short = uids@.take(i as int);
        let ghost long = uids@.take(i + 1);
        proof {
            assert(long =~= short.push(uid));
            assert forall|u: u32| #[trigger] long.contains(u) <==> short.contains(u) || u == uid by {
                if short.contains(u) {
                    assert(long[short.index_of(u)] == u);
                }
                assert(long[i as int] == uid);
                if long.contains(u) && u != uid {
                    assert(short[long.index_of(u)] == u);
                }
            }
        }
        if pos < sorted.len() && sorted[pos] == uid {
            assert(sorted@.contains(uid));
        } else {
            sorted.insert(pos, uid);
            proof {
                assert(sorted@ =~= before.insert(pos as int, uid));
                assert forall|a: int, b: int| 0 <= a < b < sorted@.len() implies #[trigger] sorted@[a]
                    < #[trigger] sorted@[b] by {
                    let x = if a < pos { a } else { a - 1 };
                    let y = if b < pos { b } else { b - 1 };
                    if a != pos {
                        assert(sorted@[a] == before[x]);
                    }
                    if b != pos {
                        assert(sorted@[b] == before[y]);
                    }
                    if a == pos {
                        assert(before[pos as int] > uid);
                        assert(y >= pos);
                    }
                    if b == pos && pos > 0 {
                        assert(before[pos - 1] < uid);
                    }
                }
                assert forall|u: u32| #[trigger] sorted@.contains(u) <==> long.contains(u) by {
                    if before.contains(u) {
                        let k = before.index_of(u);
                        assert(sorted@[if k < pos { k } else { k + 1 }] == u);
                    }
                    assert(sorted@[pos as int] == uid);
                    if sorted@.contains(u) && u != uid {
                        let k = sorted@.index_of(u);
                        assert(before[if k < pos { k } else { k - 1 }] == u);
                    }
                }
            }
        }
        i += 1;
    }
    assert(uids@.take(i as int) =~= uids@);
    sorted
}

/// The ranges of a list of UIDs.
pub fn extract_uid_ranges(uids: &[u32]) -> (ranges: Vec<(u32, u32)>)
    ensures
        are_ranges_of(ranges@, uids@),
        ranges@ == uid_ranges(uids@),
{
    let ranges: Vec<(u32, u32)> = find_ranges(uids);
    proof {
        law_uid_ranges(uids@);
        law_uid_ranges_are_unique(ranges@, uid_ranges(uids@));
    }
    ranges
}

fn find_ranges(uids: &[u32]) -> (ranges: Vec<(u32, u32)>)
    ensures
        are_maximal(ranges@),
        forall|u: u32| #[trigger] covers(ranges@, u) <==> uids@.contains(u),
{
    let sorted: Vec<u32> = sort_and_dedup(uids);
    let mut ranges: Vec<(u32, u32)> = Vec::new();
    if sorted.len() == 0 {
        assert forall|u: u32| #[trigger] covers(ranges@, u) <==> uids@.contains(u) by {
            assert(!sorted@.contains(u));
        }
        return ranges;
    }
    let mut start: u32 = sorted[0];
    let mut end: u32 = sorted[0];
    let mut i: usize = 1;
    proof {
        assert forall|u: u32| #[trigger]
            covers(ranges@.push((start, end)), u) <==> sorted@.take(1).contains(u) by {
            if covers(ranges@.push((start, end)), u) {
                assert(sorted@.take(1)[0] == u);
            }
            if sorted@.take(1).contains(u) {
                assert(ranges@.push((start, end))[0] == (start, end));
            }
        }
    }
    while i < sorted.len()
        invariant
            1 <= i <= sorted@.len(),
            grows(sorted@),
            end == sorted@[i - 1],
            are_maximal(ranges@.push((start, end))),
            forall|u: u32| #[trigger]
                covers(ranges@.push((start, end)), u) <==> sorted@.take(i as int).contains(u),
        decreases sorted@.len() - i,
    {
        let uid: u32 = sorted[i];
        let ghost before = ranges@.push((start, end));
        let ghost short = sorted@.take(i as int);
        let ghost long = sorted@.take(i + 1);
        let ghost n = ranges@.len() as int;
        proof {
            assert(sorted@[i - 1] < sorted@[i as int]);
            assert(long =~= short.push(uid));
            assert forall|u: u32| #[trigger] long.contains(u) <==> short.contains(u) || u == uid by {
                if short.contains(u) {
                    assert(long[short.index_of(u)] == u);
                }
                assert(long[i as int] == uid);
                if long.contains(u) && u != uid {
                    assert(short[long.index_of(u)] == u);
                }
            }
            assert(before[n] == (start, end));
        }
        if uid == end + 1 {
            end = uid;
        } else {
            ranges.push((start, end));
            start = uid;
            end = uid;
        }
        let ghost after = ranges@.push((start, end));
        proof {
            let extended = after.len() == before.len();
            assert forall|a: int, b: int| 0 <= a < b < after.len() implies (#[trigger] after[a]).1 + 1
                < (#[trigger] after[b]).0 by {
                if extended {
                    assert(after[a] == before[a] && after[b].0 == before[b].0);
                } else if b < before.len() {
                    assert(after[a] == before[a] && after[b] == before[b]);
                } else {
                    assert(after[a] == before[a]);
                    if a < n {
                        assert(before[a].1 + 1 < before[n].0);
                    }
                }
            }
            assert forall|a: int| 0 <= a < after.len() implies (#[trigger] after[a]).0
                <= after[a].1 by {
                if a < n {
                    assert(after[a] == before[a]);
                } else if a == n && !extended {
                    assert(after[a] == before[a]);
                }
            }
            assert forall|u: u32| #[trigger] covers(after, u) <==> long.contains(u) by {
                assert(covers(before, u) <==> short.contains(u));
                if covers(before, u) {
                    let k = choose|k: int|
                        0 <= k < before.len() && (#[trigger] before[k]).0 <= u <= before[k].1;
                    if k < n {
                        assert(after[k] == before[k]);
                    } else {
                        assert(after[n].0 <= u <= after[n].1);
                    }
                }
                assert(after[after.len() - 1].0 <= uid <= after[after.len() - 1].1);
                if covers(after, u) && u != uid {
                    let k = choose|k: int|
                        0 <= k < after.len() && (#[trigger] after[k]).0 <= u <= after[k].1;
                    if k < n {
                        assert(before[k] == after[k]);
                    } else {
                        assert(before[n].0 <= u <= before[n].1);
                    }
                }
            }
        }
        i += 1;
    }
    ranges.push((start, end));
    assert(sorted@.take(i as int) =~= sorted@);
    ranges
}

/// Ranges of two lists are the same where the lists hold the same UIDs: order and repetition
/// do not matter, and there is only one way to write them.
pub proof fn law_uid_ranges_are_unique(a: Seq<(u32, u32)>, b: Seq<(u32, u32)>)
    requires
        are_maximal(a),
        are_maximal(b),
        forall|u: u32| #[trigger] covers(a, u) <==> covers(b, u),
    ensures
        a == b,
    decreases a.len(),
{
    if a.len() == 0 {
        if b.len() > 0 {
            let first = b[0];
            assert(first.0 <= first.1);
            assert(covers(b, first.0));
            assert(covers(a, first.0));
        }
        assert(a =~= b);
    } else if b.len() == 0 {
        let first = a[0];
        assert(first.0 <= first.1);
        assert(covers(a, first.0));
        assert(covers(b, first.0));
    } else {
        lemma_first_range(a, b);
        lemma_first_range(b, a);
        let s = a.drop_first();
        let t = b.drop_first();
        lemma_rest_covers(a);
        lemma_rest_covers(b);
        assert forall|u: u32| #[trigger] covers(s, u) <==> covers(t, u) by {
            assert(covers(a, u) <==> covers(b, u));
        }
        assert(are_maximal(s)) by {
            assert forall|i: int, j: int| 0 <= i < j < s.len() implies (#[trigger] s[i]).1 + 1 < (
            #[trigger] s[j]).0 by {
                assert(s[i] == a[i + 1] && s[j] == a[j + 1]);
            }
        }
        assert(are_maximal(t)) by {
            assert forall|i: int, j: int| 0 <= i < j < t.len() implies (#[trigger] t[i]).1 + 1 < (
            #[trigger] t[j]).0 by {
                assert(t[i] == b[i + 1] && t[j] == b[j + 1]);
            }
        }
        law_uid_ranges_are_unique(s, t);
        assert(a =~= seq![a[0]] + s);
        assert(b =~= seq![b[0]] + t);
    }
}

/// The first range of `b` starts no later, and ends no earlier, than that of `a`.
proof fn lemma_first_range(a: Seq<(u32, u32)>, b: Seq<(u32, u32)>)
    requires
        are_maximal(a),
        are_maximal(b),
        a.len() > 0,
        b.len() > 0,
        forall|u: u32| #[trigger] covers(a, u) <==> covers(b, u),
    ensures
        b[0].0 <= a[0].0,
        b[0].0 == a[0].0 ==> b[0].1 >= a[0].1,
{
    let u = a[0].0;
    assert(a[0].0 <= u <= a[0].1);
    assert(covers(a, u));
    let k = choose|k: int| 0 <= k < b.len() && (#[trigger] b[k]).0 <= u <= b[k].1;
    if k > 0 {
        assert(b[0].1 + 1 < b[k].0);
    }
    if b[0].0 == a[0].0 && b[0].1 < a[0].1 {
        let v = (b[0].1 + 1) as u32;
        assert(a[0].0 <= v <= a[0].1);
        assert(covers(a, v));
        let m = choose|m: int| 0 <= m < b.len() && (#[trigger] b[m]).0 <= v <= b[m].1;
        if m > 0 {
            assert(b[0].1 + 1 < b[m].0);
        }
    }
}

/// What the ranges behind the first one cover.
proof fn lemma_rest_covers(a: Seq<(u32, u32)>)
    requires
        are_maximal(a),
        a.len() > 0,
    ensures
        forall|u: u32| #[trigger]
            covers(a.drop_first(), u) <==> covers(a, u) && !(a[0].0 <= u <= a[0].1),
{
    let s = a.drop_first();
    assert forall|u: u32| #[trigger] covers(s, u) <==> covers(a, u) && !(a[0].0 <= u <= a[0].1) by {
        if covers(s, u) {
            let k = choose|k: int| 0 <= k < s.len() && (#[trigger] s[k]).0 <= u <= s[k].1;
            assert(a[k + 1].0 <= u <= a[k + 1].1);
            assert(a[0].1 + 1 < a[k + 1].0);
        }
        if covers(a, u) && !(a[0].0 <= u <= a[0].1) {
            let k = choose|k: int| 0 <= k < a.len() && (#[trigger] a[k]).0 <= u <= a[k].1;
            assert(s[k - 1].0 <= u <= s[k - 1].1);
        }
    }
}

} // verus!
