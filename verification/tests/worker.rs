//! Fetching, moving and trying again.
use vstd::hash_map::StringHashMap;

use zeroterm::email::{dedupe_emails, Email, EmailBuilder};
use zeroterm::imap_worker::{Orders, Work, Worker, WorkerEvent};
use zeroterm::session::{ImapCommand, ImapResponse};
use zeroterm::timestamp::Timestamp;
use zeroterm::undo::UndoActionType;
use zeroterm::worker::{
    backoff, collect_fetched, fetch_ranges, num_workers, plan_moves, Fetched, BATCH_SIZE,
};

#[test]
fn pauses_double_and_end() {
    assert_eq!(backoff(0), Some(100));
    assert_eq!(backoff(1), Some(200));
    assert_eq!(backoff(2), None);
    assert_eq!(backoff(3), None);
}

#[test]
fn connections_are_no_more_than_messages() {
    assert_eq!(num_workers(5, 100), 5);
    assert_eq!(num_workers(5, 3), 3);
    assert_eq!(num_workers(0, 3), 1);
    assert_eq!(num_workers(5, 0), 1);
}

#[test]
fn ranges_tile_the_folder() {
    assert_eq!(fetch_ranges(10, 3), vec![(1, 4), (5, 8), (9, 10)]);
    assert_eq!(fetch_ranges(10, 5), vec![(1, 2), (3, 4), (5, 6), (7, 8), (9, 10)]);
    assert_eq!(fetch_ranges(0, 5), vec![]);
    // Rounding up can leave a connection with nothing to fetch.
    assert_eq!(fetch_ranges(5, 4), vec![(1, 2), (3, 4), (5, 5)]);
    assert_eq!(fetch_ranges(1, 1), vec![(1, 1)]);
    assert_eq!(fetch_ranges(u32::MAX, 1), vec![(1, u32::MAX)]);
    assert_eq!(fetch_ranges(u32::MAX, 2), vec![(1, 1 << 31), ((1 << 31) + 1, u32::MAX)]);
}

fn email(id: &str, message_id: &str, parent: &str) -> Email {
    let b = EmailBuilder::new()
        .id(id)
        .from("a@b")
        .message_id(message_id)
        .date(Timestamp { secs: 0, nanos: 0 });
    if parent.is_empty() {
        b.build()
    } else {
        b.in_reply_to(parent).build()
    }
}

#[test]
fn fetched_messages_are_threaded() {
    let emails = collect_fetched(vec![
        Fetched::Emails(vec![email("1", "<1>", ""), email("2", "<2>", "")]),
        Fetched::Emails(vec![email("3", "<3>", "<1>")]),
    ])
    .unwrap();
    let ids: Vec<&str> = emails.iter().map(|e| e.id.as_str()).collect();
    assert_eq!(ids, vec!["1", "2", "3"]);
    assert_eq!(emails[0].thread_id, emails[2].thread_id);
    assert_ne!(emails[0].thread_id, emails[1].thread_id);
}

#[test]
fn fetched_messages_come_once() {
    let sent = |id: &str| EmailBuilder::new().id(id).from("a@b").source_folder("Sent").build();
    let emails = collect_fetched(vec![
        Fetched::Emails(vec![email("1", "<1>", ""), email("2", "<2>", "")]),
        Fetched::Emails(vec![email("2", "<other>", ""), sent("2"), email("3", "<3>", "")]),
        Fetched::Emails(vec![sent("2"), sent("1"), email("3", "<3>", "")]),
    ])
    .unwrap();
    let ids: Vec<&str> = emails.iter().map(|e| e.id.as_str()).collect();
    assert_eq!(ids, vec!["1", "2", "2", "3", "1"]);
    assert_eq!(emails[1].message_id, Some("<2>".to_string()));
    assert_eq!(emails[2].source_folder, "Sent");
    assert_eq!(emails[3].thread_id, "thread_3");
    let mut once = vec![email("1", "<1>", ""), email("1", "<2>", "")];
    dedupe_emails(&mut once);
    assert_eq!(once.len(), 1);
    dedupe_emails(&mut once);
    assert_eq!(once.len(), 1);
}

#[test]
fn the_first_error_counts() {
    assert_eq!(
        collect_fetched(vec![
            Fetched::Emails(vec![]),
            Fetched::Failed("first".to_string()),
            Fetched::Panicked,
        ])
        .unwrap_err(),
        "first"
    );
    assert_eq!(
        collect_fetched(vec![Fetched::Panicked]).unwrap_err(),
        "Worker thread panicked"
    );
}

fn ids(list: &[(&str, &str)]) -> Vec<(String, String)> {
    list.iter().map(|(u, f)| (u.to_string(), f.to_string())).collect()
}

#[test]
fn moves_go_folder_by_folder() {
    let batches = plan_moves(&ids(&[("1", "INBOX"), ("2", "Sent"), ("3", "INBOX")]));
    assert_eq!(batches.len(), 2);
    assert_eq!(batches[0].folder, "INBOX");
    assert_eq!(batches[0].uids, vec!["1", "3"]);
    assert_eq!(batches[0].done, 2);
    assert_eq!(batches[1].folder, "Sent");
    assert_eq!(batches[1].done, 3);
    let many: Vec<(String, String)> = (0..501).map(|i| (i.to_string(), "INBOX".to_string())).collect();
    let batches = plan_moves(&many);
    let sizes: Vec<usize> = batches.iter().map(|b| b.uids.len()).collect();
    assert_eq!(sizes, vec![BATCH_SIZE, BATCH_SIZE, 1]);
    assert_eq!(batches[2].done, 501);
    assert_eq!(batches[1].uids[0], "250");
}

fn map(list: &[(&str, u32)]) -> StringHashMap<u32> {
    let mut m = StringHashMap::new();
    for (k, v) in list {
        m.insert(k.to_string(), *v);
    }
    m
}

fn ready() -> Worker {
    let (worker, orders) = Worker::start(Ok(()));
    assert_eq!(orders.responses.len(), 1);
    assert!(matches!(orders.responses[0], ImapResponse::Connected));
    assert_eq!(orders.work, Work::Await);
    worker
}

fn command(c: ImapCommand) -> (Worker, Orders) {
    ready().tell(WorkerEvent::Command(c))
}

#[test]
fn a_failed_connection_is_told() {
    let (worker, orders) = Worker::start(Err("no route".to_string()));
    assert!(matches!(&orders.responses[0], ImapResponse::Error(e) if e == "Failed to connect: no route"));
    assert_eq!(orders.work, Work::Stop);
    let (_, orders) = worker.tell(WorkerEvent::Command(ImapCommand::Shutdown));
    assert_eq!(orders.work, Work::Await);
    assert!(orders.responses.is_empty());
}

fn moving(label: &str, done: usize, total: usize, orders: &Orders) {
    match &orders.responses[0] {
        ImapResponse::Progress(d, t, l) => assert_eq!((*d, *t, l.as_str()), (done, total, label)),
        _ => panic!("expected progress"),
    }
}

#[test]
fn batches_are_moved_in_turn() {
    let (worker, orders) =
        command(ImapCommand::ArchiveMultiple(ids(&[("1", "INBOX"), ("2", "Sent")])));
    moving("Archiving", 1, 2, &orders);
    assert_eq!(
        orders.work,
        Work::Move {
            action: UndoActionType::Archive,
            folder: "INBOX".to_string(),
            uids: vec!["1".to_string()],
        }
    );
    let (worker, orders) = worker.tell(WorkerEvent::Moved(Ok(map(&[("1", 10)]))));
    moving("Archiving", 2, 2, &orders);
    let (_, orders) = worker.tell(WorkerEvent::Moved(Ok(map(&[("2", 20)]))));
    match &orders.responses[0] {
        ImapResponse::MultiArchiveResult(Ok(moved)) => {
            assert_eq!(moved.get("1"), Some(&10));
            assert_eq!(moved.get("2"), Some(&20));
        }
        _ => panic!("expected the outcome"),
    }
    assert_eq!(orders.work, Work::Await);
    let (_, orders) = command(ImapCommand::DeleteMultiple(vec![]));
    assert!(matches!(&orders.responses[0], ImapResponse::MultiDeleteResult(Ok(_))));
}

#[test]
fn failures_are_tried_again() {
    let (mut worker, orders) = command(ImapCommand::DeleteMultiple(ids(&[("1", "INBOX")])));
    let work = orders.work;
    for (attempt, pause) in [(1, 100), (2, 200)] {
        let (next, orders) = worker.tell(WorkerEvent::Moved(Err("down".to_string())));
        match &orders.responses[0] {
            ImapResponse::Retrying { attempt: a, max_attempts, action } => {
                assert_eq!((*a, *max_attempts, action.as_str()), (attempt, 3, "delete"))
            }
            _ => panic!("expected another try"),
        }
        assert_eq!(orders.pause, Some(pause));
        assert_eq!(orders.work, work);
        worker = next;
    }
    let (_, orders) = worker.tell(WorkerEvent::Moved(Err("gone".to_string())));
    assert!(matches!(&orders.responses[0], ImapResponse::MultiDeleteResult(Err(e)) if e == "gone"));
    assert_eq!(orders.pause, None);
}

#[test]
fn both_folders_are_counted_and_fetched() {
    let (worker, orders) = command(ImapCommand::FetchInbox { parallel_connections: 2 });
    assert_eq!(orders.work, Work::Count { folder: "INBOX".to_string() });
    let (worker, orders) = worker.tell(WorkerEvent::Counted(Ok(3)));
    assert_eq!(orders.work, Work::Count { folder: "[Gmail]/Sent Mail".to_string() });
    let event = WorkerEvent::Counted(Ok(1));
    assert!(worker.can_tell(&event));
    assert!(worker.can_tell(&WorkerEvent::Counted(Ok(u32::MAX - 3))));
    assert!(!worker.can_tell(&WorkerEvent::Counted(Ok(u32::MAX - 2))));
    let (worker, orders) = worker.tell(event);
    assert_eq!(
        orders.work,
        Work::Fetch { inbox: vec![(1, 2), (3, 3)], sent: vec![(1, 1)], total: 4 }
    );
    let (_, orders) = worker.tell(WorkerEvent::Fetched(vec![Fetched::Emails(vec![email(
        "1", "<1>", "",
    )])]));
    match &orders.responses[0] {
        ImapResponse::Emails(Ok(emails)) => assert_eq!(emails[0].thread_id, "thread_0"),
        _ => panic!("expected messages"),
    }
}

#[test]
fn empty_folders_need_no_fetching() {
    let (worker, _) = command(ImapCommand::FetchInbox { parallel_connections: 2 });
    let (worker, _) = worker.tell(WorkerEvent::Counted(Ok(0)));
    let (_, orders) = worker.tell(WorkerEvent::Counted(Ok(0)));
    assert!(matches!(&orders.responses[0], ImapResponse::Emails(Ok(e)) if e.is_empty()));
    let (worker, _) = command(ImapCommand::FetchInbox { parallel_connections: 2 });
    let (_, orders) = worker.tell(WorkerEvent::Counted(Err("x".to_string())));
    assert_eq!(orders.work, Work::Count { folder: "INBOX".to_string() });
}

#[test]
fn bodies_and_restores_are_answered() {
    let (worker, orders) = command(ImapCommand::FetchBody {
        uid: "7".to_string(),
        folder: "INBOX".to_string(),
    });
    assert_eq!(orders.work, Work::Read { uid: "7".to_string(), folder: "INBOX".to_string() });
    let (_, orders) = worker.tell(WorkerEvent::Read(Ok("body".to_string())));
    assert!(
        matches!(&orders.responses[0], ImapResponse::BodyResult { uid, result: Ok(b) } if uid == "7" && b == "body")
    );
    let items = vec![(None, Some(1), "Trash".to_string(), "INBOX".to_string())];
    let (worker, orders) = command(ImapCommand::RestoreEmails(items.clone()));
    assert_eq!(orders.work, Work::Restore(items.clone()));
    let (worker, orders) = worker.tell(WorkerEvent::Restored(Err("x".to_string())));
    assert_eq!(orders.work, Work::Restore(items));
    let (_, orders) = worker.tell(WorkerEvent::Restored(Ok(())));
    assert!(matches!(&orders.responses[0], ImapResponse::RestoreResult(Ok(()))));
}
