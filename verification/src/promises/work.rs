//! What the thread that talks to the server does with a command.
use vstd::prelude::*;

use crate::email::{deduped, has_message, law_deduped_messages_come_once, no_message_twice, EmailV};
use crate::imap_client::{
    is_sought, open_after, range_text, restore_plan, route_steps, route_uids, routes, routes_steps,
    search_steps, RestoreStepV, RestoreV, RouteV,
};
use crate::imap_worker::{EventV, OrdersV, TaskV, WorkV, WorkerV};
use crate::promises::messages::law_threads_change_the_thread_only;
use crate::session::{CommandV, ResponseV};
use crate::threading::with_thread_ids;
use crate::uids::{covers, law_uid_ranges, uid_ranges};
use crate::undo::UndoActionType;
use crate::worker::{
    first_error, folder_batches, folder_uids, folders, folders_batches, folders_total, gathered,
    law_fetch_ranges_tile, law_moves_hold_every_message, law_retries_are_bounded, lemma_strung_add,
    move_plan, of_folder, pause_after, strung, tile, BatchV, FetchedV, IdV, BATCH_SIZE,
};

verus! {

broadcast use vstd::seq_lib::group_seq_properties;

// ---------------------------------------------------------------------------
// Loading

/// Whether the worker has nothing to do and waits for a command.
pub open spec fn is_waiting(worker: WorkerV, orders: OrdersV) -> bool {
    worker.task == TaskV::Idle && orders.work == WorkV::Await && orders.pause is None
}

/// Loading counts the inbox, then the sent mail, and then fetches every message of both, each
/// once, over no more connections for a folder than were asked for. Where there are none the
/// answer is that there are none.
pub proof fn law_loading_fetches_both_folders(worker: WorkerV, n: usize, inbox: u32, sent: u32)
    requires
        !(worker.task is Stopped),
        inbox + sent <= u32::MAX,
    ensures
        ({
            let (w1, o1) = worker.told(
                EventV::Command(CommandV::FetchInbox { parallel_connections: n }),
            );
            let (w2, o2) = w1.told(EventV::Counted(Ok(inbox)));
            let (w3, o3) = w2.told(EventV::Counted(Ok(sent)));
            &&& o1.work == WorkV::Count { folder: "INBOX"@ }
            &&& o2.work == WorkV::Count { folder: "[Gmail]/Sent Mail"@ }
            &&& o1.responses.len() == 0 && o2.responses.len() == 0
            &&& if inbox + sent == 0 {
                &&& is_waiting(w3, o3)
                &&& o3.responses.len() == 1
                &&& o3.responses[0] matches ResponseV::Emails(Ok(emails))
                &&& emails.len() == 0
            } else {
                &&& w3.task == TaskV::Fetching
                &&& o3.responses.len() == 0
                &&& o3.work matches WorkV::Fetch { inbox: a, sent: b, total }
                &&& tile(a, inbox as int)
                &&& tile(b, sent as int)
                &&& total == inbox + sent
                &&& a.len() <= 1 || a.len() <= n
                &&& b.len() <= 1 || b.len() <= n
            }
        }),
{
    if inbox + sent > 0 {
        let workers = crate::worker::worker_count(n, inbox + sent) as usize;
        law_fetch_ranges_tile(inbox, workers);
        law_fetch_ranges_tile(sent, workers);
    }
}

/// Whether a connection came to nothing, and why.
pub open spec fn fault(r: FetchedV) -> Option<Seq<char>> {
    match r {
        FetchedV::Emails(_) => None,
        FetchedV::Failed(e) => Some(e),
        FetchedV::Panicked => Some("Worker thread panicked"@),
    }
}

/// The messages of a connection.
pub open spec fn catch_of(r: FetchedV) -> Seq<EmailV> {
    match r {
        FetchedV::Emails(emails) => emails,
        _ => Seq::empty(),
    }
}

proof fn lemma_first_error(results: Seq<FetchedV>)
    ensures
        match first_error(results) {
            Some(e) => exists|i: int|
                0 <= i < results.len() && fault(#[trigger] results[i]) == Some(e) && forall|j: int|
                    0 <= j < i ==> fault(#[trigger] results[j]) is None,
            None => forall|i: int| 0 <= i < results.len() ==> fault(#[trigger] results[i]) is None,
        },
    decreases results.len(),
{
    if results.len() > 0 {
        let t = results.drop_last();
        let n = results.len() - 1;
        lemma_first_error(t);
        assert(results.last() == results[n]);
        if let Some(e) = first_error(t) {
            let i = choose|i: int|
                0 <= i < t.len() && fault(#[trigger] t[i]) == Some(e) && forall|j: int|
                    0 <= j < i ==> fault(#[trigger] t[j]) is None;
            assert(fault(results[i]) == Some(e));
            assert forall|j: int| 0 <= j < i implies fault(#[trigger] results[j]) is None by {
                assert(fault(t[j]) is None);
            }
        } else {
            assert forall|j: int| 0 <= j < n implies fault(#[trigger] results[j]) is None by {
                assert(fault(t[j]) is None);
            }
            assert(fault(results[n]) == fault(results.last()));
        }
    }
}

proof fn lemma_gathered(results: Seq<FetchedV>, e: EmailV)
    ensures
        gathered(results).contains(e) <==> exists|i: int|
            0 <= i < results.len() && #[trigger] catch_of(results[i]).contains(e),
    decreases results.len(),
{
    if results.len() > 0 {
        let t = results.drop_last();
        let n = results.len() - 1;
        let before = gathered(t);
        let more = catch_of(results[n]);
        let all = gathered(results);
        lemma_gathered(t, e);
        assert(all == before + more);
        if before.contains(e) {
            let i = choose|i: int| 0 <= i < t.len() && #[trigger] catch_of(t[i]).contains(e);
            assert(catch_of(results[i]).contains(e));
            assert(all[before.index_of(e)] == e);
        }
        if more.contains(e) {
            assert(all[before.len() + more.index_of(e)] == e);
        }
        if all.contains(e) && !before.contains(e) {
            let k = all.index_of(e);
            assert(more[k - before.len()] == e);
        }
        if exists|i: int| 0 <= i < results.len() && #[trigger] catch_of(results[i]).contains(e) {
            let i = choose|i: int|
                0 <= i < results.len() && #[trigger] catch_of(results[i]).contains(e);
            if i < n {
                assert(catch_of(t[i]).contains(e));
            }
        }
    }
}

/// How many messages the first connections have fetched.
pub open spec fn catches_before(results: Seq<FetchedV>, n: int) -> nat
    decreases n,
{
    if n <= 0 || n > results.len() {
        0
    } else {
        catches_before(results, n - 1) + catch_of(results[n - 1]).len()
    }
}

proof fn lemma_catches(results: Seq<FetchedV>, n: int)
    requires
        0 <= n < results.len(),
    ensures
        catches_before(results.drop_last(), n) == catches_before(results, n),
    decreases n,
{
    if n > 0 {
        lemma_catches(results, n - 1);
    }
}

/// The messages of the connections are put one after the other, in the order of the
/// connections.
pub proof fn law_messages_come_in_the_order_of_the_connections(
    results: Seq<FetchedV>,
    i: int,
    k: int,
)
    requires
        0 <= i < results.len(),
        0 <= k < catch_of(results[i]).len(),
    ensures
        gathered(results).len() == catches_before(results, results.len() as int),
        catches_before(results, i) + k < gathered(results).len(),
        gathered(results)[catches_before(results, i) + k] == catch_of(results[i])[k],
    decreases results.len(),
{
    let t = results.drop_last();
    let n = results.len() - 1;
    lemma_gathered_len(results);
    lemma_gathered_len(t);
    lemma_catches(results, n);
    lemma_catches(results, i);
    assert(gathered(results) == gathered(t) + catch_of(results[n]));
    if i < n {
        law_messages_come_in_the_order_of_the_connections(t, i, k);
    }
}

proof fn lemma_gathered_len(results: Seq<FetchedV>)
    ensures
        gathered(results).len() == catches_before(results, results.len() as int),
    decreases results.len(),
{
    if results.len() > 0 {
        let t = results.drop_last();
        lemma_gathered_len(t);
        lemma_catches(results, results.len() - 1);
        assert(gathered(results) == gathered(t) + catch_of(results[results.len() - 1]));
    }
}

/// Whether a message is the first of its id in its folder.
pub open spec fn is_first_copy(emails: Seq<EmailV>, k: int) -> bool {
    &&& 0 <= k < emails.len()
    &&& forall|j: int|
        0 <= j < k ==> (#[trigger] emails[j]).id != emails[k].id || emails[j].source_folder
            != emails[k].source_folder
}

/// How many of the first messages are the first of their id in their folder.
pub open spec fn copies_before(emails: Seq<EmailV>, n: int) -> nat
    decreases n,
{
    if n <= 0 {
        0
    } else if is_first_copy(emails, n - 1) {
        copies_before(emails, n - 1) + 1
    } else {
        copies_before(emails, n - 1)
    }
}

proof fn lemma_copies(emails: Seq<EmailV>, n: int)
    requires
        0 <= n <= emails.len(),
    ensures
        deduped(emails.take(n)).len() == copies_before(emails, n),
        forall|k: int|
            0 <= k < n && #[trigger] is_first_copy(emails, k) ==> copies_before(emails, k)
                < copies_before(emails, n) && deduped(emails.take(n))[copies_before(
                emails,
                k,
            ) as int] == emails[k],
    decreases n,
{
    if n > 0 {
        let s = emails.take(n);
        let t = emails.take(n - 1);
        let e = emails[n - 1];
        lemma_copies(emails, n - 1);
        assert(s.drop_last() =~= t);
        assert(s.last() == e);
        law_deduped_messages_come_once(t);
        assert(has_message(deduped(t), e.id, e.source_folder) == has_message(
            t,
            e.id,
            e.source_folder,
        ));
        if has_message(t, e.id, e.source_folder) {
            let j = choose|j: int|
                0 <= j < t.len() && (#[trigger] t[j]).id == e.id && t[j].source_folder
                    == e.source_folder;
            assert(emails[j] == t[j]);
            assert(!is_first_copy(emails, n - 1));
        } else {
            assert forall|j: int| 0 <= j < n - 1 implies (#[trigger] emails[j]).id != e.id
                || emails[j].source_folder != e.source_folder by {
                assert(t[j] == emails[j]);
            }
        }
    }
}

/// Of several copies of a message the first is kept, and the messages stay in order.
pub proof fn law_the_first_copy_is_kept(emails: Seq<EmailV>, k: int)
    requires
        is_first_copy(emails, k),
    ensures
        deduped(emails).len() == copies_before(emails, emails.len() as int),
        copies_before(emails, k) < deduped(emails).len(),
        deduped(emails)[copies_before(emails, k) as int] == emails[k],
{
    lemma_copies(emails, emails.len() as int);
    assert(emails.take(emails.len() as int) =~= emails);
}

/// Whether a message is one that a connection has fetched, but for its thread.
pub open spec fn is_fetched(results: Seq<FetchedV>, m: EmailV) -> bool {
    exists|i: int, e: EmailV|
        {
            &&& 0 <= i < results.len()
            &&& #[trigger] catch_of(results[i]).contains(e)
            &&& m == (EmailV { thread_id: m.thread_id, ..e })
        }
}

/// The answer to loading holds every message that some connection has fetched, each once, and
/// no other; nothing of a message is changed but its thread. Where a connection failed the
/// answer is the first error.
pub proof fn law_loading_answers_with_every_message(
    worker: WorkerV,
    results: Seq<FetchedV>,
    e: EmailV,
)
    requires
        worker.task == TaskV::Fetching,
    ensures
        ({
            let (w, o) = worker.told(EventV::Fetched(results));
            &&& is_waiting(w, o)
            &&& o.responses.len() == 1
            &&& match o.responses[0] {
                ResponseV::Emails(Ok(emails)) => {
                    &&& forall|i: int|
                        0 <= i < results.len() ==> fault(#[trigger] results[i]) is None
                    &&& no_message_twice(emails)
                    &&& forall|i: int|
                        0 <= i < results.len() && #[trigger] catch_of(results[i]).contains(e)
                            ==> has_message(emails, e.id, e.source_folder)
                    &&& forall|k: int|
                        0 <= k < emails.len() ==> is_fetched(results, #[trigger] emails[k])
                    &&& exists|list: Seq<EmailV>| emails == #[trigger] with_thread_ids(list)
                },
                ResponseV::Emails(Err(text)) => exists|i: int|
                    0 <= i < results.len() && fault(#[trigger] results[i]) == Some(text)
                        && forall|j: int| 0 <= j < i ==> fault(#[trigger] results[j]) is None,
                _ => false,
            }
        }),
{
    lemma_first_error(results);
    if first_error(results) is None {
        let all = gathered(results);
        let list = deduped(all);
        let emails = with_thread_ids(list);
        law_deduped_messages_come_once(all);
        assert forall|i: int, j: int| 0 <= i < j < emails.len() implies (#[trigger] emails[i]).id
            != (#[trigger] emails[j]).id || emails[i].source_folder != emails[j].source_folder by {
            law_threads_change_the_thread_only(list, i);
            law_threads_change_the_thread_only(list, j);
            assert(list[i].id != list[j].id || list[i].source_folder != list[j].source_folder);
        }
        assert forall|i: int|
            0 <= i < results.len() && #[trigger] catch_of(results[i]).contains(
                e,
            ) implies has_message(emails, e.id, e.source_folder) by {
            lemma_gathered(results, e);
            let k = all.index_of(e);
            assert(all[k].id == e.id);
            assert(has_message(all, e.id, e.source_folder));
            assert(has_message(list, e.id, e.source_folder));
            let m = choose|m: int|
                0 <= m < list.len() && (#[trigger] list[m]).id == e.id && list[m].source_folder
                    == e.source_folder;
            assert(emails[m].id == e.id);
        }
        assert forall|k: int| 0 <= k < emails.len() implies is_fetched(
            results,
            #[trigger] emails[k],
        ) by {
            law_threads_change_the_thread_only(list, k);
            let kept = list[k];
            assert(list.contains(kept));
            lemma_gathered(results, kept);
            let i = choose|i: int|
                0 <= i < results.len() && #[trigger] catch_of(results[i]).contains(kept);
            assert(emails[k] == EmailV { thread_id: emails[k].thread_id, ..kept });
            assert(catch_of(results[i]).contains(kept));
        }
    }
}

// ---------------------------------------------------------------------------
// Moving

/// The UID and the folder of each message of some batches.
pub open spec fn batch_pairs(batches: Seq<BatchV>) -> Seq<IdV>
    decreases batches.len(),
{
    if batches.len() == 0 {
        Seq::empty()
    } else {
        batch_pairs(batches.drop_last()) + Seq::new(
            batches.last().uids.len(),
            |i: int| (batches.last().uids[i], batches.last().folder),
        )
    }
}

proof fn lemma_uid_count(uids: Seq<Seq<char>>, folder: Seq<char>, uid: Seq<char>, f: Seq<char>)
    ensures
        Seq::new(uids.len(), |i: int| (uids[i], folder)).to_multiset().count((uid, f)) == if f
            == folder {
            uids.to_multiset().count(uid)
        } else {
            0
        },
    decreases uids.len(),
{
    let pairs = Seq::new(uids.len(), |i: int| (uids[i], folder));
    uids.to_multiset_ensures();
    pairs.to_multiset_ensures();
    if uids.len() > 0 {
        let t = uids.drop_last();
        let tp = Seq::new(t.len(), |i: int| (t[i], folder));
        lemma_uid_count(t, folder, uid, f);
        assert(uids =~= t.push(uids.last()));
        assert(pairs =~= tp.push((uids.last(), folder)));
        t.to_multiset_ensures();
        tp.to_multiset_ensures();
    }
}

proof fn lemma_batch_count(batches: Seq<BatchV>, uid: Seq<char>, folder: Seq<char>)
    ensures
        batch_pairs(batches).to_multiset().count((uid, folder)) == strung(
            batches.filter(of_folder(folder)),
        ).to_multiset().count(uid),
    decreases batches.len(),
{
    let p = of_folder(folder);
    if batches.len() == 0 {
        assert(batches.filter(p) =~= batches);
        batch_pairs(batches).to_multiset_ensures();
        strung(batches).to_multiset_ensures();
        assert(!batch_pairs(batches).contains((uid, folder)));
        assert(!strung(batches).contains(uid));
    } else {
        let t = batches.drop_last();
        let z = batches.last();
        let mine = Seq::new(z.uids.len(), |i: int| (z.uids[i], z.folder));
        lemma_batch_count(t, uid, folder);
        lemma_uid_count(z.uids, z.folder, uid, folder);
        assert(batches =~= t.push(z));
        t.lemma_filter_push(z, p);
        vstd::seq_lib::lemma_multiset_commutative(batch_pairs(t), mine);
        if p(z) {
            let one = seq![z];
            assert(t.filter(p).push(z) =~= t.filter(p) + one);
            lemma_strung_add(t.filter(p), one);
            assert(one.drop_first() =~= Seq::<BatchV>::empty());
            assert(strung(one.drop_first()) =~= Seq::<Seq<char>>::empty());
            assert(strung(one) =~= z.uids);
            vstd::seq_lib::lemma_multiset_commutative(strung(t.filter(p)), z.uids);
        }
    }
}

proof fn lemma_folder_count(ids: Seq<IdV>, uid: Seq<char>, folder: Seq<char>)
    ensures
        folder_uids(ids, folder).to_multiset().count(uid) == ids.to_multiset().count((uid, folder)),
    decreases ids.len(),
{
    let uids = folder_uids(ids, folder);
    ids.to_multiset_ensures();
    uids.to_multiset_ensures();
    if ids.len() > 0 {
        let t = ids.drop_last();
        lemma_folder_count(t, uid, folder);
        assert(ids =~= t.push(ids.last()));
        t.to_multiset_ensures();
        folder_uids(t, folder).to_multiset_ensures();
    }
}

/// The batches of a move hold the messages of the command and no others, each as often as the
/// command names it, with the folder that it is in.
pub proof fn law_batches_hold_the_command(ids: Seq<IdV>)
    ensures
        batch_pairs(move_plan(ids)).to_multiset() == ids.to_multiset(),
{
    let all = batch_pairs(move_plan(ids)).to_multiset();
    assert forall|pair: IdV| all.count(pair) == ids.to_multiset().count(pair) by {
        law_moves_hold_every_message(ids, pair.1);
        lemma_batch_count(move_plan(ids), pair.0, pair.1);
        lemma_folder_count(ids, pair.0, pair.1);
        assert((pair.0, pair.1) == pair);
    }
    assert(all =~= ids.to_multiset());
}

/// How many messages are moved once the batches before one are.
pub open spec fn done_before(batches: Seq<BatchV>, before: nat, k: int) -> nat {
    if 0 < k <= batches.len() {
        batches[k - 1].done
    } else {
        before
    }
}

proof fn lemma_folder_counts(folder: Seq<char>, uids: Seq<Seq<char>>, before: nat)
    ensures
        ({
            let all = folder_batches(folder, uids, before);
            &&& forall|k: int|
                0 <= k < all.len() ==> (#[trigger] all[k]).done == done_before(all, before, k)
                    + all[k].uids.len()
            &&& done_before(all, before, all.len() as int) == before + uids.len()
        }),
    decreases uids.len(),
{
    if uids.len() > BATCH_SIZE {
        let all = folder_batches(folder, uids, before);
        let later = folder_batches(
            folder,
            uids.skip(BATCH_SIZE as int),
            before + BATCH_SIZE as nat,
        );
        lemma_folder_counts(folder, uids.skip(BATCH_SIZE as int), before + BATCH_SIZE as nat);
        assert forall|k: int| 0 <= k < all.len() implies (#[trigger] all[k]).done == done_before(
            all,
            before,
            k,
        ) + all[k].uids.len() by {
            if k > 0 {
                assert(all[k] == later[k - 1]);
                if k > 1 {
                    assert(all[k - 1] == later[k - 2]);
                }
            }
        }
        if later.len() > 0 {
            assert(all[all.len() - 1] == later[later.len() - 1]);
        }
    }
}

proof fn lemma_folders_counts(ids: Seq<IdV>, names: Seq<Seq<char>>)
    ensures
        ({
            let all = folders_batches(ids, names);
            &&& forall|k: int|
                0 <= k < all.len() ==> (#[trigger] all[k]).done == done_before(all, 0, k)
                    + all[k].uids.len()
            &&& done_before(all, 0, all.len() as int) == folders_total(ids, names)
        }),
    decreases names.len(),
{
    if names.len() > 0 {
        let t = names.drop_last();
        let earlier = folders_batches(ids, t);
        let total = folders_total(ids, t);
        let mine = folder_batches(names.last(), folder_uids(ids, names.last()), total);
        let all = folders_batches(ids, names);
        lemma_folders_counts(ids, t);
        lemma_folder_counts(names.last(), folder_uids(ids, names.last()), total);
        assert forall|k: int| 0 <= k < all.len() implies (#[trigger] all[k]).done == done_before(
            all,
            0,
            k,
        ) + all[k].uids.len() by {
            if k < earlier.len() {
                assert(all[k] == earlier[k]);
                if k > 0 {
                    assert(all[k - 1] == earlier[k - 1]);
                }
            } else {
                let j = k - earlier.len();
                assert(all[k] == mine[j]);
                if j > 0 {
                    assert(all[k - 1] == mine[j - 1]);
                } else if k > 0 {
                    assert(all[k - 1] == earlier[k - 1]);
                }
            }
        }
    }
}

/// Each batch says how many messages are moved with it: those of the batch before, and its
/// own. No batch is empty, or larger than 250.
pub proof fn law_batches_count_what_is_moved(ids: Seq<IdV>, k: int)
    requires
        0 <= k < move_plan(ids).len(),
    ensures
        move_plan(ids)[k].done == done_before(move_plan(ids), 0, k) + move_plan(ids)[k].uids.len(),
        0 < move_plan(ids)[k].uids.len() <= 250,
{
    lemma_folders_counts(ids, folders(ids));
    law_moves_hold_every_message(ids, move_plan(ids)[k].folder);
}

/// The command that does an action to some messages.
pub open spec fn command_for(action: UndoActionType, ids: Seq<IdV>) -> CommandV {
    match action {
        UndoActionType::Archive => CommandV::ArchiveMultiple(ids),
        UndoActionType::Delete => CommandV::DeleteMultiple(ids),
    }
}

/// Whether an answer says how an action went.
pub open spec fn is_answer_to(
    action: UndoActionType,
    result: Result<Map<Seq<char>, u32>, Seq<char>>,
    response: ResponseV,
) -> bool {
    match action {
        UndoActionType::Archive => response == ResponseV::MultiArchiveResult(result),
        UndoActionType::Delete => response == ResponseV::MultiDeleteResult(result),
    }
}

/// Archiving archives and deleting deletes: the first batch is handed out with the action of
/// the command, each batch that went well is followed by the next one and what the server told
/// of it is kept, and the answer after the last one is of the same kind, with all that the
/// server told. A batch that failed is tried again as it was, and the third error is the
/// answer.
pub proof fn law_moves_keep_their_kind(
    worker: WorkerV,
    action: UndoActionType,
    ids: Seq<IdV>,
    map: Map<Seq<char>, u32>,
    e: Seq<char>,
)
    requires
        !(worker.task is Stopped),
    ensures
        ({
            let plan = move_plan(ids);
            let (w, o) = worker.told(EventV::Command(command_for(action, ids)));
            if plan.len() == 0 {
                is_waiting(w, o) && o.responses.len() == 1 && is_answer_to(
                    action,
                    Ok(Map::empty()),
                    o.responses[0],
                )
            } else {
                &&& o.work == WorkV::Move { action, folder: plan[0].folder, uids: plan[0].uids }
                &&& o.responses.len() == 1
                &&& ids.len() <= usize::MAX && plan[0].done <= usize::MAX ==> o.responses[0]
                    == ResponseV::Progress(
                    plan[0].done as usize,
                    ids.len() as usize,
                    match action {
                        UndoActionType::Archive => "Archiving"@,
                        UndoActionType::Delete => "Deleting"@,
                    },
                )
                &&& w.failures == 0
                &&& w.task matches TaskV::Moving { action: a, batches, at, moved, .. }
                &&& a == action
                &&& batches == plan
                &&& at == 0
                &&& moved == Map::<Seq<char>, u32>::empty()
            }
        }),
        match worker.task {
            TaskV::Moving { action: a, total, batches, at, moved } => {
                let (w, o) = worker.told(EventV::Moved(Ok(map)));
                let (w2, o2) = worker.told(EventV::Moved(Err(e)));
                let known = moved.union_prefer_right(map);
                at < batches.len() <= usize::MAX ==> {
                    &&& if at + 1 < batches.len() {
                        &&& o.work == WorkV::Move {
                            action: a,
                            folder: batches[at + 1].folder,
                            uids: batches[at + 1].uids,
                        }
                        &&& w.task == TaskV::Moving {
                            action: a,
                            total,
                            batches,
                            at: (at + 1) as usize,
                            moved: known,
                        }
                    } else {
                        &&& is_waiting(w, o)
                        &&& o.responses.len() == 1
                        &&& is_answer_to(a, Ok(known), o.responses[0])
                    }
                    &&& if worker.failures < 2 {
                        &&& o2.work == WorkV::Move {
                            action: a,
                            folder: batches[at as int].folder,
                            uids: batches[at as int].uids,
                        }
                        &&& w2.task == worker.task
                        &&& w2.failures == worker.failures + 1
                        &&& o2.pause == Some(
                            if worker.failures == 0 {
                                100nat
                            } else {
                                200nat
                            },
                        )
                        &&& o2.responses.len() == 1
                        &&& o2.responses[0] matches ResponseV::Retrying {
                            attempt,
                            max_attempts,
                            ..
                        }
                        &&& attempt == worker.failures + 1
                        &&& max_attempts == 3
                    } else {
                        &&& is_waiting(w2, o2)
                        &&& o2.responses.len() == 1
                        &&& is_answer_to(a, Err(e), o2.responses[0])
                    }
                }
            },
            _ => true,
        },
{
    law_retries_are_bounded(worker.failures);
    reveal_with_fuel(pause_after, 3);
}

/// Restoring hands the server the messages that the command names; a body is read by the UID
/// and the folder that the command names, and the answer is for that UID. What fails to be
/// restored or counted is tried three times in all, and the last error is the answer.
pub proof fn law_other_commands_are_passed_on(
    worker: WorkerV,
    items: Seq<RestoreV>,
    uid: Seq<char>,
    folder: Seq<char>,
    body: Result<Seq<char>, Seq<char>>,
    e: Seq<char>,
)
    requires
        !(worker.task is Stopped),
    ensures
        ({
            let (w, o) = worker.told(EventV::Command(CommandV::RestoreEmails(items)));
            let (w2, o2) = w.told(EventV::Restored(Ok(())));
            &&& o.work == WorkV::Restore(items)
            &&& o.responses.len() == 0
            &&& is_waiting(w2, o2)
            &&& o2.responses == seq![ResponseV::RestoreResult(Ok(()))]
        }),
        ({
            let (w, o) = worker.told(EventV::Command(CommandV::FetchBody { uid, folder }));
            let (w2, o2) = w.told(EventV::Read(body));
            &&& o.work == WorkV::Read { uid, folder }
            &&& o.responses.len() == 0
            &&& is_waiting(w2, o2)
            &&& o2.responses == seq![ResponseV::BodyResult { uid, result: body }]
        }),
        worker.task == (TaskV::Restoring { items }) ==> {
            let (w, o) = worker.told(EventV::Restored(Err(e)));
            &&& worker.failures < 2 ==> o.work == WorkV::Restore(items) && w.task == worker.task
                && w.failures == worker.failures + 1 && o.pause is Some
            &&& worker.failures >= 2 ==> is_waiting(w, o) && o.responses
                == seq![ResponseV::RestoreResult(Err(e))]
        },
        worker.task is CountingInbox || worker.task is CountingSent ==> {
            let (w, o) = worker.told(EventV::Counted(Err(e)));
            &&& worker.failures < 2 ==> w.task == worker.task && w.failures == worker.failures + 1
                && o.pause is Some && o.work == WorkV::Count {
                folder: if worker.task is CountingInbox {
                    "INBOX"@
                } else {
                    "[Gmail]/Sent Mail"@
                },
            }
            &&& worker.failures >= 2 ==> is_waiting(w, o) && o.responses == seq![
                ResponseV::Emails(Err(e)),
            ]
        },
        worker.told(EventV::Command(CommandV::Shutdown)).1.work == WorkV::Stop,
        worker.told(EventV::Command(CommandV::Shutdown)).0.task is Stopped,
{
    law_retries_are_bounded(worker.failures);
}

// ---------------------------------------------------------------------------
// Putting messages back

/// The folder that is open before a step: the one that was opened last.
pub open spec fn open_folder(steps: Seq<RestoreStepV>, i: int) -> Option<Seq<char>>
    decreases i,
{
    if i <= 0 || i > steps.len() {
        None
    } else {
        match steps[i - 1] {
            RestoreStepV::Select { folder } => Some(folder),
            _ => open_folder(steps, i - 1),
        }
    }
}

/// Whether a message with a UID is to be moved out of the open folder into another.
pub open spec fn is_known(
    items: Seq<RestoreV>,
    open: Option<Seq<char>>,
    folder: Seq<char>,
    uid: u32,
) -> bool {
    exists|k: int|
        {
            &&& 0 <= k < items.len()
            &&& (#[trigger] items[k]).1 == Some(uid)
            &&& open == Some(items[k].2)
            &&& folder == items[k].3
        }
}

/// Whether a step moves only messages that are to be moved that way: a range of UIDs of the
/// open folder, each of them known for a message to be put back into the folder of the step;
/// or a message that is to be looked for in the open folder and put back into that of the
/// step.
pub open spec fn is_meant(
    items: Seq<RestoreV>,
    open: Option<Seq<char>>,
    step: RestoreStepV,
) -> bool {
    match step {
        RestoreStepV::Select { .. } => true,
        RestoreStepV::Move { uids, folder } => exists|first: u32, last: u32|
            {
                &&& first <= last
                &&& uids == #[trigger] range_text((first, last))
                &&& forall|uid: u32|
                    first <= uid <= last ==> #[trigger] is_known(items, open, folder, uid)
            },
        RestoreStepV::Find { message_id, folder } => exists|k: int|
            {
                &&& 0 <= k < items.len()
                &&& (#[trigger] items[k]).1 is None
                &&& items[k].0 == Some(message_id)
                &&& open == Some(items[k].2)
                &&& folder == items[k].3
            },
    }
}

/// Steps that follow do not change which folder is open before.
pub proof fn lemma_open_prefix(a: Seq<RestoreStepV>, b: Seq<RestoreStepV>, i: int)
    requires
        0 <= i <= a.len(),
    ensures
        open_folder(a + b, i) == open_folder(a, i),
    decreases i,
{
    if i > 0 {
        assert((a + b)[i - 1] == a[i - 1]);
        lemma_open_prefix(a, b, i - 1);
    }
}

/// Steps that begin with opening a folder do not depend on those before.
pub proof fn lemma_open_suffix(a: Seq<RestoreStepV>, b: Seq<RestoreStepV>, j: int)
    requires
        1 <= j <= b.len(),
        b[0] is Select,
    ensures
        open_folder(a + b, a.len() + j) == open_folder(b, j),
    decreases j,
{
    assert((a + b)[a.len() + j - 1] == b[j - 1]);
    if j > 1 {
        lemma_open_suffix(a, b, j - 1);
    }
}

/// One way keeps its folder open.
pub proof fn lemma_route_open(uids: Seq<u32>, route: RouteV, j: int)
    requires
        1 <= j <= route_steps(uids, route).len(),
    ensures
        open_folder(route_steps(uids, route), j) == Some(route.0),
    decreases j,
{
    let steps = route_steps(uids, route);
    assert(steps[0] == RestoreStepV::Select { folder: route.0 });
    if j > 1 {
        lemma_route_open(uids, route, j - 1);
        assert(steps[j - 1] is Move);
    }
}

proof fn lemma_route_uids(items: Seq<RestoreV>, route: RouteV, uid: u32)
    requires
        route_uids(items, route).contains(uid),
    ensures
        exists|k: int|
            {
                &&& 0 <= k < items.len()
                &&& (#[trigger] items[k]).1 == Some(uid)
                &&& items[k].2 == route.0
                &&& items[k].3 == route.1
            },
    decreases items.len(),
{
    if items.len() > 0 {
        let t = items.drop_last();
        let n = items.len() - 1;
        let before = route_uids(t, route);
        if before.contains(uid) {
            lemma_route_uids(t, route, uid);
            let k = choose|k: int|
                {
                    &&& 0 <= k < t.len()
                    &&& (#[trigger] t[k]).1 == Some(uid)
                    &&& t[k].2 == route.0
                    &&& t[k].3 == route.1
                };
            assert(items[k].1 == Some(uid));
        } else {
            let i = route_uids(items, route).index_of(uid);
            if i < before.len() {
                assert(before[i] == uid);
            }
            assert(items[n].1 == Some(uid));
        }
    }
}

proof fn lemma_route_meant(items: Seq<RestoreV>, route: RouteV, j: int)
    requires
        0 <= j < route_steps(route_uids(items, route), route).len(),
    ensures
        is_meant(
            items,
            open_folder(route_steps(route_uids(items, route), route), j),
            route_steps(route_uids(items, route), route)[j],
        ),
{
    let uids = route_uids(items, route);
    let ranges = uid_ranges(uids);
    let steps = route_steps(uids, route);
    if j > 0 {
        lemma_route_open(uids, route, j);
        law_uid_ranges(uids);
        let (first, last) = ranges[j - 1];
        assert(steps[j] == RestoreStepV::Move { uids: range_text((first, last)), folder: route.1 });
        assert(ranges[j - 1].0 <= ranges[j - 1].1);
        assert forall|uid: u32| first <= uid <= last implies #[trigger] is_known(
            items,
            Some(route.0),
            route.1,
            uid,
        ) by {
            assert(ranges[j - 1].0 <= uid <= ranges[j - 1].1);
            assert(covers(ranges, uid));
            lemma_route_uids(items, route, uid);
        }
    }
}

proof fn lemma_routes_meant(items: Seq<RestoreV>, ways: Seq<RouteV>, j: int)
    requires
        0 <= j < routes_steps(items, ways).len(),
    ensures
        is_meant(items, open_folder(routes_steps(items, ways), j), routes_steps(items, ways)[j]),
    decreases ways.len(),
{
    if ways.len() > 0 {
        let before = routes_steps(items, ways.drop_last());
        let uids = route_uids(items, ways.last());
        let last = route_steps(uids, ways.last());
        if j < before.len() {
            lemma_routes_meant(items, ways.drop_last(), j);
            lemma_open_prefix(before, last, j);
        } else {
            let i = j - before.len();
            lemma_route_meant(items, ways.last(), i);
            assert(last[0] is Select);
            if i > 0 {
                lemma_open_suffix(before, last, i);
            }
        }
    }
}

/// Looking for messages leaves the folder of the last one open.
pub proof fn lemma_search_open(items: Seq<RestoreV>)
    ensures
        open_folder(search_steps(items), search_steps(items).len() as int) == open_after(items),
        search_steps(items).len() > 0 ==> search_steps(items)[0] is Select,
        search_steps(items).len() == 0 <==> open_after(items) is None,
    decreases items.len(),
{
    if items.len() > 0 {
        let t = items.drop_last();
        let before = search_steps(t);
        let item = items.last();
        lemma_search_open(t);
        if is_sought(item) {
            let opened = if open_after(t) == Some(item.2) {
                before
            } else {
                before.push(RestoreStepV::Select { folder: item.2 })
            };
            let n = opened.len() as int;
            let all = search_steps(items);
            assert(all[n] is Find);
            assert(open_folder(all, n + 1) == open_folder(all, n));
            let find = seq![RestoreStepV::Find { message_id: item.0->0, folder: item.3 }];
            assert(all =~= opened + find);
            lemma_open_prefix(opened, find, n);
            if open_after(t) != Some(item.2) {
                assert(opened[n - 1] == RestoreStepV::Select { folder: item.2 });
            }
        }
    }
}

proof fn lemma_meant_longer(
    t: Seq<RestoreV>,
    items: Seq<RestoreV>,
    open: Option<Seq<char>>,
    step: RestoreStepV,
)
    requires
        items.len() >= t.len(),
        forall|k: int| 0 <= k < t.len() ==> #[trigger] t[k] == items[k],
        is_meant(t, open, step),
        !(step is Move),
    ensures
        is_meant(items, open, step),
{
    if let RestoreStepV::Find { message_id, folder } = step {
        let k = choose|k: int|
            {
                &&& 0 <= k < t.len()
                &&& (#[trigger] t[k]).1 is None
                &&& t[k].0 == Some(message_id)
                &&& open == Some(t[k].2)
                &&& folder == t[k].3
            };
        assert(items[k].1 is None);
    }
}

proof fn lemma_search_meant(items: Seq<RestoreV>, j: int)
    requires
        0 <= j < search_steps(items).len(),
    ensures
        is_meant(items, open_folder(search_steps(items), j), search_steps(items)[j]),
        !(search_steps(items)[j] is Move),
    decreases items.len(),
{
    if items.len() > 0 {
        let t = items.drop_last();
        let before = search_steps(t);
        let item = items.last();
        let all = search_steps(items);
        lemma_search_open(t);
        if j < before.len() {
            lemma_search_meant(t, j);
            let more = all.skip(before.len() as int);
            assert(all =~= before + more);
            lemma_open_prefix(before, more, j);
            lemma_meant_longer(t, items, open_folder(before, j), before[j]);
        } else if all[j] is Find {
            assert(j == all.len() - 1);
            lemma_search_open(items);
            assert(open_folder(all, j + 1) == open_folder(all, j));
            assert(items[items.len() - 1] == item);
        }
    }
}

/// Putting messages back moves nothing that is not to be moved: each step that moves messages
/// moves messages of the command out of the folder that they are in, which is open then, to
/// the folder that they came from.
pub proof fn law_restoring_moves_what_is_meant(items: Seq<RestoreV>, i: int)
    requires
        0 <= i < restore_plan(items).len(),
    ensures
        is_meant(items, open_folder(restore_plan(items), i), restore_plan(items)[i]),
{
    let moved = routes_steps(items, routes(items));
    let sought = search_steps(items);
    if i < moved.len() {
        lemma_routes_meant(items, routes(items), i);
        lemma_open_prefix(moved, sought, i);
    } else {
        let j = i - moved.len();
        lemma_search_meant(items, j);
        lemma_search_open(items);
        if j > 0 {
            lemma_open_suffix(moved, sought, j);
        }
    }
}

} // verus!
