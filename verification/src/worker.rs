//! The work behind the commands: what is fetched over which connection, what is moved
//! together, and when something is tried again.
use vstd::prelude::*;

use crate::app::pairs;
use crate::email::{dedupe_emails, deduped, mails, Email, EmailV};
use crate::text::{str_eq, texts};
use crate::threading::{build_thread_ids, with_thread_ids};

verus! {

broadcast use vstd::seq_lib::group_seq_properties;

// ---------------------------------------------------------------------------
// Trying again

/// How often something is tried.
pub const MAX_RETRIES: u32 = 3;

/// How long the first pause is, in milliseconds.
pub const INITIAL_BACKOFF_MS: u64 = 100;

/// The pause after a failed attempt, counted from zero, in milliseconds: each pause is twice
/// as long as the one before. There is none after the last attempt.
pub open spec fn pause_after(attempt: u32) -> Option<nat>
    decreases attempt,
{
    if attempt + 1 >= MAX_RETRIES {
        None
    } else if attempt == 0 {
        Some(INITIAL_BACKOFF_MS as nat)
    } else {
        match pause_after((attempt - 1) as u32) {
            Some(ms) => Some(2 * ms),
            None => None,
        }
    }
}

/// The pause after a failed attempt, or none where it was the last.
pub fn backoff(attempt: u32) -> (r: Option<u64>)
    ensures
        match r {
            Some(ms) => pause_after(attempt) == Some(ms as nat),
            None => pause_after(attempt) is None,
        },
{
    reveal_with_fuel(pause_after, 3);
    if attempt >= MAX_RETRIES - 1 {
        None
    } else if attempt == 0 {
        Some(INITIAL_BACKOFF_MS)
    } else {
        Some(INITIAL_BACKOFF_MS * 2)
    }
}

/// What fails is tried three times, and the pauses add up to three times the first one.
pub proof fn law_retries_are_bounded(attempt: u32)
    ensures
        pause_after(attempt) is Some <==> attempt < MAX_RETRIES - 1,
        pause_after(0)->0 + pause_after(1)->0 == 3 * INITIAL_BACKOFF_MS,
{
    reveal_with_fuel(pause_after, 3);
}

// ---------------------------------------------------------------------------
// Fetching

/// The number of connections for a number of messages: no more than there are messages, and
/// at least one.
pub open spec fn worker_count(parallel_connections: usize, total: int) -> int {
    let n = if parallel_connections < total {
        parallel_connections as int
    } else {
        total
    };
    if n < 1 {
        1
    } else {
        n
    }
}

/// The number of connections for a number of messages.
pub fn num_workers(parallel_connections: usize, total: usize) -> (r: usize)
    ensures
        r == worker_count(parallel_connections, total as int),
        r >= 1,
{
    let n: usize = if parallel_connections < total {
        parallel_connections
    } else {
        total
    };
    if n < 1 {
        1
    } else {
        n
    }
}

/// The number of messages for each connection, rounded up.
pub open spec fn chunk_size(count: int, workers: int) -> int {
    (count + workers - 1) / workers
}

/// The sequence numbers that the first `n` connections fetch, in chunks of a size.
pub open spec fn chunk_ranges(count: int, chunk: int, n: nat) -> Seq<(u32, u32)>
    decreases n,
{
    if n == 0 {
        Seq::empty()
    } else {
        let before = chunk_ranges(count, chunk, (n - 1) as nat);
        let start = (n - 1) * chunk + 1;
        let end = if n * chunk < count {
            n * chunk
        } else {
            count
        };
        if start > count {
            before
        } else {
            before.push((start as u32, end as u32))
        }
    }
}

/// The sequence numbers that each connection fetches.
pub open spec fn fetch_plan(count: u32, workers: usize) -> Seq<(u32, u32)> {
    chunk_ranges(count as int, chunk_size(count as int, workers as int), workers as nat)
}

/// The sequence numbers that each connection fetches.
pub fn fetch_ranges(count: u32, workers: usize) -> (r: Vec<(u32, u32)>)
    requires
        1 <= workers,
    ensures
        r@ == fetch_plan(count, workers),
{
    let chunk: u128 = (count as u128 + workers as u128 - 1) / (workers as u128);
    let mut r: Vec<(u32, u32)> = Vec::new();
    let mut i: usize = 0;
    proof {
        lemma_chunk(count as int, workers as int);
    }
    while i < workers
        invariant
            i <= workers,
            1 <= workers,
            chunk == chunk_size(count as int, workers as int),
            chunk * workers < count + workers,
            r@ == chunk_ranges(count as int, chunk as int, i as nat),
        decreases workers - i,
    {
        proof {
            assert(i * chunk + chunk == (i + 1) * chunk) by (nonlinear_arith);
            assert((i + 1) * chunk <= workers * chunk) by (nonlinear_arith)
                requires
                    i + 1 <= workers,
                    chunk >= 0,
            ;
            assert(workers * chunk == chunk * workers) by (nonlinear_arith);
            assert(i * chunk >= 0) by (nonlinear_arith)
                requires
                    i >= 0,
                    chunk >= 0,
            ;
        }
        let start: u128 = (i as u128) * chunk + 1;
        let stop: u128 = (i as u128) * chunk + chunk;
        let end: u128 = if stop < count as u128 {
            stop
        } else {
            count as u128
        };
        if start <= count as u128 {
            r.push((start as u32, end as u32));
        }
        i += 1;
    }
    r
}

proof fn lemma_chunk(count: int, workers: int)
    requires
        0 <= count,
        1 <= workers,
    ensures
        count <= chunk_size(count, workers) * workers < count + workers,
        chunk_size(count, workers) >= 0,
        count > 0 ==> chunk_size(count, workers) > 0,
{
    let q = chunk_size(count, workers);
    let a = count + workers - 1;
    vstd::arithmetic::div_mod::lemma_fundamental_div_mod(a, workers);
    assert(workers * q == q * workers) by (nonlinear_arith);
    assert(q >= 0 && (count > 0 ==> q > 0)) by (nonlinear_arith)
        requires
            q * workers > a - workers,
            a >= workers - 1,
            count > 0 ==> a >= workers,
            workers >= 1,
    ;
}

/// Whether ranges follow one another from one to a number, without gap or overlap.
pub open spec fn tile(ranges: Seq<(u32, u32)>, count: int) -> bool {
    &&& forall|i: int| 0 <= i < ranges.len() ==> (#[trigger] ranges[i]).0 <= ranges[i].1
    &&& ranges.len() > 0 ==> ranges[0].0 == 1
    &&& forall|i: int|
        0 <= i < ranges.len() - 1 ==> (#[trigger] ranges[i]).1 + 1 == ranges[i + 1].0
    &&& ranges.len() > 0 ==> ranges.last().1 == count
    &&& ranges.len() == 0 ==> count == 0
}

proof fn lemma_chunk_ranges(count: int, chunk: int, n: nat)
    requires
        0 <= count <= u32::MAX,
        count > 0 ==> chunk > 0,
        chunk >= 0,
    ensures
        tile(
            chunk_ranges(count, chunk, n),
            if n * chunk < count {
                n * chunk
            } else {
                count
            },
        ),
    decreases n,
{
    if n > 0 {
        let m = (n - 1) as nat;
        assert(m * chunk + chunk == n * chunk) by (nonlinear_arith)
            requires
                m == n - 1,
        ;
        assert(m * chunk >= 0) by (nonlinear_arith)
            requires
                chunk >= 0,
        ;
        lemma_chunk_ranges(count, chunk, m);
    } else {
        assert(n * chunk == 0) by (nonlinear_arith)
            requires
                n == 0,
        ;
    }
}

/// The connections fetch every message once: their ranges follow one another from the first
/// to the last.
pub proof fn law_fetch_ranges_tile(count: u32, workers: usize)
    requires
        1 <= workers,
    ensures
        tile(fetch_plan(count, workers), count as int),
        fetch_plan(count, workers).len() <= workers,
{
    let chunk = chunk_size(count as int, workers as int);
    lemma_chunk(count as int, workers as int);
    assert((workers as nat) * chunk == chunk * workers) by (nonlinear_arith);
    lemma_chunk_ranges(count as int, chunk, workers as nat);
    lemma_chunk_ranges_len(count as int, chunk, workers as nat);
}

proof fn lemma_chunk_ranges_len(count: int, chunk: int, n: nat)
    ensures
        chunk_ranges(count, chunk, n).len() <= n,
    decreases n,
{
    if n > 0 {
        lemma_chunk_ranges_len(count, chunk, (n - 1) as nat);
    }
}

/// What one connection came to.
pub enum Fetched {
    Emails(Vec<Email>),
    Failed(String),
    /// The thread of the connection panicked.
    Panicked,
}

/// What a [`Fetched`] holds.
#[verifier::ext_equal]
pub enum FetchedV {
    Emails(Seq<EmailV>),
    Failed(Seq<char>),
    Panicked,
}

impl View for Fetched {
    type V = FetchedV;

    open spec fn view(&self) -> FetchedV {
        match self {
            Fetched::Emails(emails) => FetchedV::Emails(mails(emails@)),
            Fetched::Failed(e) => FetchedV::Failed(e@),
            Fetched::Panicked => FetchedV::Panicked,
        }
    }
}

/// What connections came to.
pub open spec fn fetched_views(v: Seq<Fetched>) -> Seq<FetchedV> {
    v.map_values(|f: Fetched| f@)
}

/// The messages of some connections, one connection after the other.
pub open spec fn gathered(results: Seq<FetchedV>) -> Seq<EmailV>
    decreases results.len(),
{
    if results.len() == 0 {
        Seq::empty()
    } else {
        gathered(results.drop_last()) + match results.last() {
            FetchedV::Emails(emails) => emails,
            _ => Seq::empty(),
        }
    }
}

/// The first error of some connections.
pub open spec fn first_error(results: Seq<FetchedV>) -> Option<Seq<char>>
    decreases results.len(),
{
    if results.len() == 0 {
        None
    } else {
        match first_error(results.drop_last()) {
            Some(e) => Some(e),
            None => match results.last() {
                FetchedV::Emails(_) => None,
                FetchedV::Failed(e) => Some(e),
                FetchedV::Panicked => Some("Worker thread panicked"@),
            },
        }
    }
}

/// The messages that were fetched, each once and put into threads, or the first error.
pub fn collect_fetched(results: Vec<Fetched>) -> (r: Result<Vec<Email>, String>)
    ensures
        match r {
            Ok(emails) => first_error(fetched_views(results@)) is None && mails(emails@)
                == with_thread_ids(deduped(gathered(fetched_views(results@)))),
            Err(e) => first_error(fetched_views(results@)) == Some(e@),
        },
{
    let ghost all = fetched_views(results@);
    let mut emails: Vec<Email> = Vec::new();
    let mut error: Option<String> = None;
    assert(mails(emails@) =~= gathered(all.take(0)));
    for result in it: results
        invariant
            all == fetched_views(it.seq()),
            mails(emails@) == gathered(all.take(it.index() as int)),
            match error {
                Some(e) => first_error(all.take(it.index() as int)) == Some(e@),
                None => first_error(all.take(it.index() as int)) is None,
            },
    {
        let ghost i = it.index() as int;
        let ghost before = mails(emails@);
        proof {
            assert(all.take(i + 1).drop_last() =~= all.take(i));
            assert(all.take(i + 1).last() == result@);
        }
        match result {
            Fetched::Emails(more) => {
                let ghost added = mails(more@);
                let mut more: Vec<Email> = more;
                emails.append(&mut more);
                assert(mails(emails@) =~= before + added);
            },
            Fetched::Failed(e) => {
                assert(before + Seq::<EmailV>::empty() =~= before);
                if error.is_none() {
                    error = Some(e);
                }
            },
            Fetched::Panicked => {
                assert(before + Seq::<EmailV>::empty() =~= before);
                if error.is_none() {
                    error = Some("Worker thread panicked".to_owned());
                }
            },
        }
    }
    assert(all.take(all.len() as int) =~= all);
    match error {
        Some(e) => Err(e),
        None => {
            dedupe_emails(&mut emails);
            build_thread_ids(&mut emails);
            Ok(emails)
        },
    }
}

// ---------------------------------------------------------------------------
// Moving

/// The most messages that are moved together.
pub const BATCH_SIZE: usize = 250;

/// Messages of one folder that are moved together.
#[derive(Debug, PartialEq)]
pub struct Batch {
    pub folder: String,
    pub uids: Vec<String>,
    /// The number of messages that are moved with this batch and those before it.
    pub done: usize,
}

/// What a [`Batch`] holds.
#[verifier::ext_equal]
pub struct BatchV {
    pub folder: Seq<char>,
    pub uids: Seq<Seq<char>>,
    pub done: nat,
}

impl View for Batch {
    type V = BatchV;

    open spec fn view(&self) -> BatchV {
        BatchV { folder: self.folder@, uids: texts(self.uids@), done: self.done as nat }
    }
}

/// What batches hold.
pub open spec fn batch_views(v: Seq<Batch>) -> Seq<BatchV> {
    v.map_values(|b: Batch| b@)
}

/// A message to be moved: its UID and its folder.
pub type IdV = (Seq<char>, Seq<char>);

/// The folders of messages, each once, in the order of first appearance.
pub open spec fn folders(ids: Seq<IdV>) -> Seq<Seq<char>>
    decreases ids.len(),
{
    if ids.len() == 0 {
        Seq::empty()
    } else {
        let earlier = folders(ids.drop_last());
        if earlier.contains(ids.last().1) {
            earlier
        } else {
            earlier.push(ids.last().1)
        }
    }
}

/// The UIDs of the messages of a folder.
pub open spec fn folder_uids(ids: Seq<IdV>, folder: Seq<char>) -> Seq<Seq<char>>
    decreases ids.len(),
{
    if ids.len() == 0 {
        Seq::empty()
    } else {
        let earlier = folder_uids(ids.drop_last(), folder);
        if ids.last().1 == folder {
            earlier.push(ids.last().0)
        } else {
            earlier
        }
    }
}

/// The batches of a folder, where some messages are moved before.
pub open spec fn folder_batches(folder: Seq<char>, uids: Seq<Seq<char>>, before: nat) -> Seq<BatchV>
    decreases uids.len(),
{
    if uids.len() == 0 {
        Seq::empty()
    } else if uids.len() <= BATCH_SIZE {
        seq![BatchV { folder, uids, done: before + uids.len() }]
    } else {
        seq![
            BatchV { folder, uids: uids.take(BATCH_SIZE as int), done: before + BATCH_SIZE as nat },
        ] + folder_batches(folder, uids.skip(BATCH_SIZE as int), before + BATCH_SIZE as nat)
    }
}

/// The number of messages of some folders.
pub open spec fn folders_total(ids: Seq<IdV>, names: Seq<Seq<char>>) -> nat
    decreases names.len(),
{
    if names.len() == 0 {
        0
    } else {
        folders_total(ids, names.drop_last()) + folder_uids(ids, names.last()).len()
    }
}

/// The batches of some folders.
pub open spec fn folders_batches(ids: Seq<IdV>, names: Seq<Seq<char>>) -> Seq<BatchV>
    decreases names.len(),
{
    if names.len() == 0 {
        Seq::empty()
    } else {
        folders_batches(ids, names.drop_last()) + folder_batches(
            names.last(),
            folder_uids(ids, names.last()),
            folders_total(ids, names.drop_last()),
        )
    }
}

/// The batches in which messages are moved.
pub open spec fn move_plan(ids: Seq<IdV>) -> Seq<BatchV> {
    folders_batches(ids, folders(ids))
}

fn find_folders(ids: &Vec<(String, String)>) -> (r: Vec<String>)
    ensures
        texts(r@) == folders(pairs(ids@)),
{
    let ghost all = pairs(ids@);
    let mut r: Vec<String> = Vec::new();
    let mut i: usize = 0;
    assert(texts(r@) =~= folders(all.take(0)));
    while i < ids.len()
        invariant
            i <= ids@.len(),
            all == pairs(ids@),
            texts(r@) == folders(all.take(i as int)),
        decreases ids@.len() - i,
    {
        let ghost known = texts(r@);
        let ghost mine = ids@[i as int].1@;
        proof {
            assert(all.take(i + 1).drop_last() =~= all.take(i as int));
            assert(all.take(i + 1).last() == all[i as int]);
            assert(all[i as int].1 == mine);
        }
        let mut found: bool = false;
        let mut k: usize = 0;
        while k < r.len()
            invariant
                i < ids@.len(),
                k <= r@.len(),
                mine == ids@[i as int].1@,
                known == texts(r@),
                found ==> known.contains(mine),
                !found ==> forall|j: int| 0 <= j < k ==> #[trigger] known[j] != mine,
            decreases r@.len() - k,
        {
            assert(known[k as int] == r@[k as int]@);
            if str_eq(r[k].as_str(), ids[i].1.as_str()) {
                found = true;
            }
            k += 1;
        }
        if !found {
            r.push(ids[i].1.clone());
            assert(texts(r@) =~= known.push(mine));
        }
        i += 1;
    }
    assert(all.take(i as int) =~= all);
    r
}

fn find_uids(ids: &Vec<(String, String)>, folder: &String) -> (r: Vec<String>)
    ensures
        texts(r@) == folder_uids(pairs(ids@), folder@),
{
    let ghost all = pairs(ids@);
    let mut r: Vec<String> = Vec::new();
    let mut i: usize = 0;
    assert(texts(r@) =~= folder_uids(all.take(0), folder@));
    while i < ids.len()
        invariant
            i <= ids@.len(),
            all == pairs(ids@),
            texts(r@) == folder_uids(all.take(i as int), folder@),
        decreases ids@.len() - i,
    {
        let ghost before = texts(r@);
        proof {
            assert(all.take(i + 1).drop_last() =~= all.take(i as int));
            assert(all.take(i + 1).last() == all[i as int]);
        }
        if str_eq(ids[i].1.as_str(), folder.as_str()) {
            r.push(ids[i].0.clone());
            assert(texts(r@) =~= before.push(ids@[i as int].0@));
        }
        i += 1;
    }
    assert(all.take(i as int) =~= all);
    r
}

proof fn lemma_folder_totals(ids: Seq<IdV>, names: Seq<Seq<char>>)
    requires
        names.no_duplicates(),
    ensures
        folders_total(ids, names) <= ids.len(),
    decreases ids.len(),
{
    if ids.len() == 0 {
        lemma_no_totals(ids, names);
    } else {
        let short = ids.drop_last();
        lemma_folder_totals(short, names);
        lemma_totals_step(ids, names);
    }
}

proof fn lemma_no_totals(ids: Seq<IdV>, names: Seq<Seq<char>>)
    requires
        ids.len() == 0,
    ensures
        folders_total(ids, names) == 0,
    decreases names.len(),
{
    if names.len() > 0 {
        lemma_no_totals(ids, names.drop_last());
    }
}

proof fn lemma_totals_step(ids: Seq<IdV>, names: Seq<Seq<char>>)
    requires
        ids.len() > 0,
        names.no_duplicates(),
    ensures
        folders_total(ids, names) <= folders_total(ids.drop_last(), names) + if names.contains(
            ids.last().1,
        ) {
            1nat
        } else {
            0nat
        },
    decreases names.len(),
{
    if names.len() > 0 {
        let rest = names.drop_last();
        let f = ids.last().1;
        lemma_totals_step(ids, rest);
        if f == names.last() {
            assert(names[names.len() - 1] == f);
            if rest.contains(f) {
                let k = rest.index_of(f);
                assert(names[k] == names[names.len() - 1]);
            }
        } else if rest.contains(f) {
            assert(names[rest.index_of(f)] == f);
        }
    }
}

proof fn lemma_folders_distinct(ids: Seq<IdV>)
    ensures
        folders(ids).no_duplicates(),
    decreases ids.len(),
{
    if ids.len() > 0 {
        lemma_folders_distinct(ids.drop_last());
    }
}

proof fn lemma_totals_grow(ids: Seq<IdV>, names: Seq<Seq<char>>, i: int)
    requires
        0 <= i <= names.len(),
    ensures
        folders_total(ids, names.take(i)) <= folders_total(ids, names),
    decreases names.len(),
{
    if i == names.len() {
        assert(names.take(i) =~= names);
    } else {
        lemma_totals_grow(ids, names.drop_last(), i);
        assert(names.drop_last().take(i) =~= names.take(i));
    }
}

/// The batches of a folder are added to those before.
fn split_folder(r: &mut Vec<Batch>, folder: &String, uids: &Vec<String>, before: usize)
    requires
        before + uids@.len() <= usize::MAX,
    ensures
        batch_views(final(r)@) == batch_views(old(r)@) + folder_batches(
            folder@,
            texts(uids@),
            before as nat,
        ),
{
    let ghost start = batch_views(r@);
    let ghost all = texts(uids@);
    let ghost plan = folder_batches(folder@, all, before as nat);
    let mut i: usize = 0;
    proof {
        assert(all.skip(0) =~= all);
        assert(start + plan =~= batch_views(r@) + plan);
    }
    while i < uids.len()
        invariant
            i <= uids@.len(),
            before + uids@.len() <= usize::MAX,
            all == texts(uids@),
            plan == folder_batches(folder@, all, before as nat),
            batch_views(r@) + folder_batches(folder@, all.skip(i as int), (before + i) as nat)
                == start + plan,
        decreases uids@.len() - i,
    {
        let ghost rest = all.skip(i as int);
        let ghost views = batch_views(r@);
        let end: usize = if uids.len() - i <= BATCH_SIZE {
            uids.len()
        } else {
            i + BATCH_SIZE
        };
        let mut chunk: Vec<String> = Vec::new();
        let mut k: usize = i;
        while k < end
            invariant
                i <= k <= end <= uids@.len(),
                chunk@.len() == k - i,
                forall|j: int| 0 <= j < k - i ==> (#[trigger] chunk@[j])@ == uids@[i + j]@,
            decreases end - k,
        {
            chunk.push(uids[k].clone());
            k += 1;
        }
        let batch: Batch = Batch { folder: folder.clone(), uids: chunk, done: before + end };
        proof {
            assert(texts(chunk@) =~= rest.take(end - i));
            if end == uids@.len() {
                assert(rest.take(end - i) =~= rest);
                assert(folder_batches(folder@, all.skip(end as int), (before + end) as nat)
                    =~= Seq::<BatchV>::empty());
            } else {
                assert(rest.skip(BATCH_SIZE as int) =~= all.skip(end as int));
            }
            let after = folder_batches(folder@, all.skip(end as int), (before + end) as nat);
            assert(folder_batches(folder@, rest, (before + i) as nat) =~= seq![batch@] + after);
            assert(views + (seq![batch@] + after) =~= views.push(batch@) + after);
        }
        r.push(batch);
        assert(batch_views(r@) =~= views.push(batch@));
        i = end;
    }
    assert(batch_views(r@) + folder_batches(folder@, all.skip(i as int), (before + i) as nat)
        =~= batch_views(r@));
}

/// The batches in which messages are moved: folder after folder, and so many at a time.
pub fn plan_moves(ids: &Vec<(String, String)>) -> (r: Vec<Batch>)
    ensures
        batch_views(r@) == move_plan(pairs(ids@)),
{
    let ghost all = pairs(ids@);
    let total: usize = ids.len();
    let names: Vec<String> = find_folders(ids);
    let ghost ns = texts(names@);
    let mut r: Vec<Batch> = Vec::new();
    let mut before: usize = 0;
    let mut i: usize = 0;
    proof {
        lemma_folders_distinct(all);
        lemma_folder_totals(all, ns);
        assert(batch_views(r@) =~= folders_batches(all, ns.take(0)));
    }
    while i < names.len()
        invariant
            i <= names@.len(),
            all == pairs(ids@),
            all.len() == total,
            ns == texts(names@),
            folders_total(all, ns) <= all.len(),
            before == folders_total(all, ns.take(i as int)),
            batch_views(r@) == folders_batches(all, ns.take(i as int)),
        decreases names@.len() - i,
    {
        proof {
            assert(ns.take(i + 1).drop_last() =~= ns.take(i as int));
            assert(ns.take(i + 1).last() == names@[i as int]@);
            lemma_totals_grow(all, ns, i + 1);
        }
        let uids: Vec<String> = find_uids(ids, &names[i]);
        assert(texts(uids@).len() == uids@.len());
        split_folder(&mut r, &names[i], &uids, before);
        before = before + uids.len();
        i += 1;
    }
    assert(ns.take(i as int) =~= ns);
    r
}

proof fn lemma_folder_batches(folder: Seq<char>, uids: Seq<Seq<char>>, before: nat)
    ensures
        forall|k: int|
            0 <= k < folder_batches(folder, uids, before).len() ==> 0 < (
            #[trigger] folder_batches(folder, uids, before)[k]).uids.len() <= BATCH_SIZE
                && folder_batches(folder, uids, before)[k].folder == folder,
        strung(folder_batches(folder, uids, before)) == uids,
    decreases uids.len(),
{
    let all = folder_batches(folder, uids, before);
    if uids.len() == 0 {
        assert(strung(all) =~= uids);
    } else if uids.len() <= BATCH_SIZE {
        assert(strung(all.drop_first()) =~= Seq::<Seq<char>>::empty());
        assert(strung(all) =~= uids);
    } else {
        let rest = folder_batches(
            folder,
            uids.skip(BATCH_SIZE as int),
            before + BATCH_SIZE as nat,
        );
        lemma_folder_batches(folder, uids.skip(BATCH_SIZE as int), before + BATCH_SIZE as nat);
        assert(all.drop_first() =~= rest);
        assert(strung(all) =~= uids);
        assert forall|k: int| 0 <= k < all.len() implies 0 < (#[trigger] all[k]).uids.len()
            <= BATCH_SIZE && all[k].folder == folder by {
            if k > 0 {
                assert(all[k] == rest[k - 1]);
            }
        }
    }
}

/// The UIDs of batches, one after the other.
pub open spec fn strung(batches: Seq<BatchV>) -> Seq<Seq<char>>
    decreases batches.len(),
{
    if batches.len() == 0 {
        Seq::empty()
    } else {
        batches.first().uids + strung(batches.drop_first())
    }
}

/// Whether a batch is of a folder.
pub open spec fn of_folder(folder: Seq<char>) -> spec_fn(BatchV) -> bool {
    |b: BatchV| b.folder == folder
}

/// Batches that follow others are strung behind them.
pub proof fn lemma_strung_add(a: Seq<BatchV>, b: Seq<BatchV>)
    ensures
        strung(a + b) == strung(a) + strung(b),
    decreases a.len(),
{
    if a.len() == 0 {
        assert(a + b =~= b);
        assert(strung(a) + strung(b) =~= strung(b));
    } else {
        lemma_strung_add(a.drop_first(), b);
        assert((a + b).drop_first() =~= a.drop_first() + b);
        assert(strung(a + b) =~= strung(a) + strung(b));
    }
}

proof fn lemma_filter_all(s: Seq<BatchV>, p: spec_fn(BatchV) -> bool)
    requires
        forall|k: int| 0 <= k < s.len() ==> p(#[trigger] s[k]),
    ensures
        s.filter(p) == s,
    decreases s.len(),
{
    reveal(Seq::filter);
    if s.len() > 0 {
        let t = s.drop_last();
        assert forall|k: int| 0 <= k < t.len() implies p(#[trigger] t[k]) by {
            assert(t[k] == s[k]);
        }
        lemma_filter_all(t, p);
        assert(p(s[s.len() - 1]));
        assert(s =~= t.push(s.last()));
    }
}

proof fn lemma_filter_none(s: Seq<BatchV>, p: spec_fn(BatchV) -> bool)
    requires
        forall|k: int| 0 <= k < s.len() ==> !p(#[trigger] s[k]),
    ensures
        s.filter(p) == Seq::<BatchV>::empty(),
    decreases s.len(),
{
    reveal(Seq::filter);
    if s.len() > 0 {
        let t = s.drop_last();
        assert forall|k: int| 0 <= k < t.len() implies !p(#[trigger] t[k]) by {
            assert(t[k] == s[k]);
        }
        lemma_filter_none(t, p);
        assert(!p(s[s.len() - 1]));
    }
}

proof fn lemma_filter_add(a: Seq<BatchV>, b: Seq<BatchV>, p: spec_fn(BatchV) -> bool)
    ensures
        (a + b).filter(p) == a.filter(p) + b.filter(p),
    decreases b.len(),
{
    reveal(Seq::filter);
    if b.len() == 0 {
        assert(a + b =~= a);
        assert(a.filter(p) + b.filter(p) =~= a.filter(p));
    } else {
        lemma_filter_add(a, b.drop_last(), p);
        assert((a + b).drop_last() =~= a + b.drop_last());
        assert((a + b).last() == b.last());
        assert((a + b).filter(p) =~= a.filter(p) + b.filter(p));
    }
}

proof fn lemma_folders_batches(ids: Seq<IdV>, names: Seq<Seq<char>>, folder: Seq<char>)
    requires
        names.no_duplicates(),
    ensures
        strung(folders_batches(ids, names).filter(of_folder(folder))) == if names.contains(folder) {
            folder_uids(ids, folder)
        } else {
            Seq::empty()
        },
        forall|k: int|
            0 <= k < folders_batches(ids, names).len() ==> 0 < (#[trigger] folders_batches(
                ids,
                names,
            )[k]).uids.len() <= BATCH_SIZE,
    decreases names.len(),
{
    let p = of_folder(folder);
    reveal(Seq::filter);
    if names.len() == 0 {
        assert(folders_batches(ids, names).filter(p) =~= Seq::<BatchV>::empty());
        assert(strung(folders_batches(ids, names).filter(p)) =~= Seq::<Seq<char>>::empty());
    } else {
        let rest = names.drop_last();
        let name = names.last();
        let earlier = folders_batches(ids, rest);
        let mine = folder_batches(name, folder_uids(ids, name), folders_total(ids, rest));
        lemma_folders_batches(ids, rest, folder);
        lemma_folder_batches(name, folder_uids(ids, name), folders_total(ids, rest));
        lemma_filter_add(earlier, mine, p);
        lemma_strung_add(earlier.filter(p), mine.filter(p));
        assert(names[names.len() - 1] == name);
        if name == folder {
            assert forall|k: int| 0 <= k < mine.len() implies p(#[trigger] mine[k]) by {}
            lemma_filter_all(mine, p);
            if rest.contains(folder) {
                let k = rest.index_of(folder);
                assert(names[k] == names[names.len() - 1]);
            }
            assert(strung(earlier.filter(p)) + strung(mine) =~= folder_uids(ids, folder));
        } else {
            assert forall|k: int| 0 <= k < mine.len() implies !p(#[trigger] mine[k]) by {}
            lemma_filter_none(mine, p);
            assert(strung(Seq::<BatchV>::empty()) =~= Seq::<Seq<char>>::empty());
            if rest.contains(folder) {
                assert(names[rest.index_of(folder)] == folder);
            }
            if names.contains(folder) {
                let k = names.index_of(folder);
                assert(rest[k] == folder);
            }
            assert(strung(earlier.filter(p)) + Seq::<Seq<char>>::empty() =~= strung(
                earlier.filter(p),
            ));
        }
    }
}

proof fn lemma_folder_listed(ids: Seq<IdV>, folder: Seq<char>)
    ensures
        !folders(ids).contains(folder) ==> folder_uids(ids, folder).len() == 0,
    decreases ids.len(),
{
    if ids.len() > 0 {
        lemma_folder_listed(ids.drop_last(), folder);
        let earlier = folders(ids.drop_last());
        let f = ids.last().1;
        if !earlier.contains(f) {
            assert(folders(ids)[earlier.len() as int] == f);
            if earlier.contains(folder) {
                assert(folders(ids)[earlier.index_of(folder)] == folder);
            }
        }
    }
}

/// The batches of a move hold every message once: those of a folder hold the messages of the
/// folder, in order. None is empty, and none is too large.
pub proof fn law_moves_hold_every_message(ids: Seq<IdV>, folder: Seq<char>)
    ensures
        strung(move_plan(ids).filter(of_folder(folder))) == folder_uids(ids, folder),
        forall|k: int|
            0 <= k < move_plan(ids).len() ==> 0 < (#[trigger] move_plan(ids)[k]).uids.len()
                <= BATCH_SIZE,
{
    lemma_folders_distinct(ids);
    lemma_folders_batches(ids, folders(ids), folder);
    lemma_folder_listed(ids, folder);
    if !folders(ids).contains(folder) {
        assert(folder_uids(ids, folder) =~= Seq::<Seq<char>>::empty());
    }
}

} // verus!
