//! The worker behind a session: it turns commands into work on the connection, tries again
//! what fails, and answers.
use vstd::hash_map::StringHashMap;
use vstd::prelude::*;
use vstd::string::StringExecFns;

use crate::app::pairs;
use crate::email::{clone_opt, clone_texts, deduped, mails};
use crate::imap_client::{restore_views, Restore, RestoreV};
use crate::session::{move_view, CommandV, ImapCommand, ImapResponse, ResponseV};
use crate::text::{opt_text, texts};
use crate::threading::with_thread_ids;
use crate::undo::UndoActionType;
use crate::worker::{
    backoff, batch_views, collect_fetched, fetch_plan, fetch_ranges, fetched_views, first_error,
    gathered, move_plan, num_workers, pause_after, plan_moves, worker_count, Batch, BatchV, Fetched,
    FetchedV, MAX_RETRIES,
};

verus! {

broadcast use vstd::seq_lib::group_seq_properties;

/// The folder of incoming messages.
pub const INBOX: &'static str = "INBOX";

/// The folder of sent messages.
pub const SENT_MAIL: &'static str = "[Gmail]/Sent Mail";

// ---------------------------------------------------------------------------
// Events and orders

/// What the worker is told.
pub enum WorkerEvent {
    Command(ImapCommand),
    /// The number of messages in a folder.
    Counted(Result<u32, String>),
    /// What the connections that fetched came to.
    Fetched(Vec<Fetched>),
    /// Where the messages of a batch went.
    Moved(Result<StringHashMap<u32>, String>),
    Restored(Result<(), String>),
    /// The body of a message.
    Read(Result<String, String>),
}

/// What a [`WorkerEvent`] holds.
#[verifier::ext_equal]
pub enum EventV {
    Command(CommandV),
    Counted(Result<u32, Seq<char>>),
    Fetched(Seq<FetchedV>),
    Moved(Result<Map<Seq<char>, u32>, Seq<char>>),
    Restored(Result<(), Seq<char>>),
    Read(Result<Seq<char>, Seq<char>>),
}

impl View for WorkerEvent {
    type V = EventV;

    open spec fn view(&self) -> EventV {
        match self {
            WorkerEvent::Command(c) => EventV::Command(c@),
            WorkerEvent::Counted(Ok(n)) => EventV::Counted(Ok(*n)),
            WorkerEvent::Counted(Err(e)) => EventV::Counted(Err(e@)),
            WorkerEvent::Fetched(results) => EventV::Fetched(fetched_views(results@)),
            WorkerEvent::Moved(r) => EventV::Moved(move_view(*r)),
            WorkerEvent::Restored(Ok(())) => EventV::Restored(Ok(())),
            WorkerEvent::Restored(Err(e)) => EventV::Restored(Err(e@)),
            WorkerEvent::Read(Ok(body)) => EventV::Read(Ok(body@)),
            WorkerEvent::Read(Err(e)) => EventV::Read(Err(e@)),
        }
    }
}

/// What is to be done on the connection.
#[derive(Debug, PartialEq)]
pub enum Work {
    /// Wait for a command.
    Await,
    Count { folder: String },
    /// Fetch ranges of both folders, each over a connection of its own.
    Fetch { inbox: Vec<(u32, u32)>, sent: Vec<(u32, u32)>, total: usize },
    /// Archive or delete messages of a folder.
    Move { action: UndoActionType, folder: String, uids: Vec<String> },
    Restore(Vec<Restore>),
    Read { uid: String, folder: String },
    /// Log out and end.
    Stop,
}

/// What [`Work`] holds.
#[verifier::ext_equal]
pub enum WorkV {
    Await,
    Count { folder: Seq<char> },
    Fetch { inbox: Seq<(u32, u32)>, sent: Seq<(u32, u32)>, total: usize },
    Move { action: UndoActionType, folder: Seq<char>, uids: Seq<Seq<char>> },
    Restore(Seq<RestoreV>),
    Read { uid: Seq<char>, folder: Seq<char> },
    Stop,
}

impl View for Work {
    type V = WorkV;

    open spec fn view(&self) -> WorkV {
        match self {
            Work::Await => WorkV::Await,
            Work::Count { folder } => WorkV::Count { folder: folder@ },
            Work::Fetch { inbox, sent, total } => WorkV::Fetch {
                inbox: inbox@,
                sent: sent@,
                total: *total,
            },
            Work::Move { action, folder, uids } => WorkV::Move {
                action: *action,
                folder: folder@,
                uids: texts(uids@),
            },
            Work::Restore(items) => WorkV::Restore(restore_views(items@)),
            Work::Read { uid, folder } => WorkV::Read { uid: uid@, folder: folder@ },
            Work::Stop => WorkV::Stop,
        }
    }
}

/// What the worker orders: answers to be sent, then a pause, then work.
pub struct Orders {
    pub responses: Vec<ImapResponse>,
    /// In milliseconds.
    pub pause: Option<u64>,
    pub work: Work,
}

/// What [`Orders`] hold.
#[verifier::ext_equal]
pub struct OrdersV {
    pub responses: Seq<ResponseV>,
    pub pause: Option<nat>,
    pub work: WorkV,
}

/// What answers hold.
pub open spec fn response_views(v: Seq<ImapResponse>) -> Seq<ResponseV> {
    v.map_values(|r: ImapResponse| r@)
}

impl View for Orders {
    type V = OrdersV;

    open spec fn view(&self) -> OrdersV {
        OrdersV {
            responses: response_views(self.responses@),
            pause: match self.pause {
                Some(ms) => Some(ms as nat),
                None => None,
            },
            work: self.work@,
        }
    }
}

// ---------------------------------------------------------------------------
// The worker

/// What the worker is at.
pub enum Task {
    Idle,
    CountingInbox { parallel: usize },
    CountingSent { parallel: usize, inbox: u32 },
    Fetching,
    Moving {
        action: UndoActionType,
        total: usize,
        batches: Vec<Batch>,
        /// The batch that is being moved.
        at: usize,
        moved: StringHashMap<u32>,
    },
    Restoring { items: Vec<Restore> },
    Reading { uid: String },
    Stopped,
}

/// What a [`Task`] holds.
#[verifier::ext_equal]
pub enum TaskV {
    Idle,
    CountingInbox { parallel: usize },
    CountingSent { parallel: usize, inbox: u32 },
    Fetching,
    Moving {
        action: UndoActionType,
        total: usize,
        batches: Seq<BatchV>,
        at: usize,
        moved: Map<Seq<char>, u32>,
    },
    Restoring { items: Seq<RestoreV> },
    Reading { uid: Seq<char> },
    Stopped,
}

impl View for Task {
    type V = TaskV;

    open spec fn view(&self) -> TaskV {
        match self {
            Task::Idle => TaskV::Idle,
            Task::CountingInbox { parallel } => TaskV::CountingInbox { parallel: *parallel },
            Task::CountingSent { parallel, inbox } => TaskV::CountingSent {
                parallel: *parallel,
                inbox: *inbox,
            },
            Task::Fetching => TaskV::Fetching,
            Task::Moving { action, total, batches, at, moved } => TaskV::Moving {
                action: *action,
                total: *total,
                batches: batch_views(batches@),
                at: *at,
                moved: moved@,
            },
            Task::Restoring { items } => TaskV::Restoring { items: restore_views(items@) },
            Task::Reading { uid } => TaskV::Reading { uid: uid@ },
            Task::Stopped => TaskV::Stopped,
        }
    }
}

/// The worker: what it is at, and how often that has failed.
pub struct Worker {
    pub task: Task,
    pub failures: u32,
}

/// What a [`Worker`] holds.
#[verifier::ext_equal]
pub struct WorkerV {
    pub task: TaskV,
    pub failures: u32,
}

impl View for Worker {
    type V = WorkerV;

    open spec fn view(&self) -> WorkerV {
        WorkerV { task: self.task@, failures: self.failures }
    }
}

/// What moving messages is called while it goes on.
pub open spec fn moving_label(action: UndoActionType) -> Seq<char> {
    match action {
        UndoActionType::Archive => "Archiving"@,
        UndoActionType::Delete => "Deleting"@,
    }
}

/// What moving messages is called when it is tried again.
pub open spec fn move_name(action: UndoActionType) -> Seq<char> {
    match action {
        UndoActionType::Archive => "archive"@,
        UndoActionType::Delete => "delete"@,
    }
}

/// The answer to a command to move messages.
pub open spec fn move_answer(
    action: UndoActionType,
    result: Result<Map<Seq<char>, u32>, Seq<char>>,
) -> ResponseV {
    match action {
        UndoActionType::Archive => ResponseV::MultiArchiveResult(result),
        UndoActionType::Delete => ResponseV::MultiDeleteResult(result),
    }
}

/// The worker at a new task, and the work for it.
pub open spec fn turned_to(task: TaskV, responses: Seq<ResponseV>, work: WorkV) -> (
    WorkerV,
    OrdersV,
) {
    (WorkerV { task, failures: 0 }, OrdersV { responses, pause: None, work })
}

/// The worker done with a command, and its answer.
pub open spec fn done_with(response: ResponseV) -> (WorkerV, OrdersV) {
    turned_to(TaskV::Idle, seq![response], WorkV::Await)
}

/// The worker with nothing to do.
pub open spec fn idling(worker: WorkerV) -> (WorkerV, OrdersV) {
    (worker, OrdersV { responses: Seq::empty(), pause: None, work: WorkV::Await })
}

/// The worker that moves the batch at `at`, or that has moved them all.
pub open spec fn moving_at(
    action: UndoActionType,
    total: usize,
    batches: Seq<BatchV>,
    at: usize,
    moved: Map<Seq<char>, u32>,
) -> (WorkerV, OrdersV) {
    if at < batches.len() {
        turned_to(
            TaskV::Moving { action, total, batches, at, moved },
            seq![
                ResponseV::Progress(
                    batches[at as int].done as usize,
                    total,
                    moving_label(action),
                ),
            ],
            WorkV::Move {
                action,
                folder: batches[at as int].folder,
                uids: batches[at as int].uids,
            },
        )
    } else {
        done_with(move_answer(action, Ok(moved)))
    }
}

impl WorkerV {
    /// The worker after a failure: it pauses and tries the work again, or answers.
    pub open spec fn failed(self, name: Seq<char>, work: WorkV, answer: ResponseV) -> (
        WorkerV,
        OrdersV,
    ) {
        match pause_after(self.failures) {
            Some(ms) => (
                WorkerV { failures: (self.failures + 1) as u32, ..self },
                OrdersV {
                    responses: seq![
                        ResponseV::Retrying {
                            attempt: (self.failures + 1) as u32,
                            max_attempts: MAX_RETRIES,
                            action: name,
                        },
                    ],
                    pause: Some(ms),
                    work,
                },
            ),
            None => done_with(answer),
        }
    }

    /// The worker after a command.
    pub open spec fn commanded(self, command: CommandV) -> (WorkerV, OrdersV) {
        match command {
            CommandV::FetchInbox { parallel_connections } => turned_to(
                TaskV::CountingInbox { parallel: parallel_connections },
                Seq::empty(),
                WorkV::Count { folder: INBOX@ },
            ),
            CommandV::ArchiveMultiple(ids) => moving_at(
                UndoActionType::Archive,
                ids.len() as usize,
                move_plan(ids),
                0,
                Map::empty(),
            ),
            CommandV::DeleteMultiple(ids) => moving_at(
                UndoActionType::Delete,
                ids.len() as usize,
                move_plan(ids),
                0,
                Map::empty(),
            ),
            CommandV::RestoreEmails(items) => turned_to(
                TaskV::Restoring { items },
                Seq::empty(),
                WorkV::Restore(items),
            ),
            CommandV::FetchBody { uid, folder } => turned_to(
                TaskV::Reading { uid },
                Seq::empty(),
                WorkV::Read { uid, folder },
            ),
            CommandV::Shutdown => turned_to(TaskV::Stopped, Seq::empty(), WorkV::Stop),
        }
    }

    /// The worker once both folders are counted.
    pub open spec fn fetching(parallel: usize, inbox: u32, sent: u32) -> (WorkerV, OrdersV) {
        let total = inbox + sent;
        let workers = worker_count(parallel, total) as usize;
        if total == 0 {
            done_with(ResponseV::Emails(Ok(Seq::empty())))
        } else {
            turned_to(
                TaskV::Fetching,
                Seq::empty(),
                WorkV::Fetch {
                    inbox: fetch_plan(inbox, workers),
                    sent: fetch_plan(sent, workers),
                    total: total as usize,
                },
            )
        }
    }

    /// The worker after it was told something. What it did not ask for changes nothing.
    pub open spec fn told(self, event: EventV) -> (WorkerV, OrdersV) {
        match (self.task, event) {
            (TaskV::Stopped, _) => idling(self),
            (_, EventV::Command(command)) => self.commanded(command),
            (TaskV::CountingInbox { parallel }, EventV::Counted(Ok(inbox))) => turned_to(
                TaskV::CountingSent { parallel, inbox },
                Seq::empty(),
                WorkV::Count { folder: SENT_MAIL@ },
            ),
            (TaskV::CountingInbox { .. }, EventV::Counted(Err(e))) => self.failed(
                "fetch"@,
                WorkV::Count { folder: INBOX@ },
                ResponseV::Emails(Err(e)),
            ),
            (TaskV::CountingSent { parallel, inbox }, EventV::Counted(Ok(sent))) =>
                WorkerV::fetching(parallel, inbox, sent),
            (TaskV::CountingSent { .. }, EventV::Counted(Err(e))) => self.failed(
                "fetch"@,
                WorkV::Count { folder: SENT_MAIL@ },
                ResponseV::Emails(Err(e)),
            ),
            (TaskV::Fetching, EventV::Fetched(results)) => done_with(
                ResponseV::Emails(
                    match first_error(results) {
                        Some(e) => Err(e),
                        None => Ok(with_thread_ids(deduped(gathered(results)))),
                    },
                ),
            ),
            (
                TaskV::Moving { action, total, batches, at, moved },
                EventV::Moved(Ok(map)),
            ) => if at < batches.len() {
                moving_at(
                    action,
                    total,
                    batches,
                    (at + 1) as usize,
                    moved.union_prefer_right(map),
                )
            } else {
                idling(self)
            },
            (TaskV::Moving { action, batches, at, .. }, EventV::Moved(Err(e))) => if at
                < batches.len() {
                self.failed(
                    move_name(action),
                    WorkV::Move {
                        action,
                        folder: batches[at as int].folder,
                        uids: batches[at as int].uids,
                    },
                    move_answer(action, Err(e)),
                )
            } else {
                idling(self)
            },
            (TaskV::Restoring { .. }, EventV::Restored(Ok(()))) => done_with(
                ResponseV::RestoreResult(Ok(())),
            ),
            (TaskV::Restoring { items }, EventV::Restored(Err(e))) => self.failed(
                "restore"@,
                WorkV::Restore(items),
                ResponseV::RestoreResult(Err(e)),
            ),
            (TaskV::Reading { uid }, EventV::Read(result)) => done_with(
                ResponseV::BodyResult { uid, result },
            ),
            _ => idling(self),
        }
    }

    /// Whether the numbers of messages can be added up.
    pub open spec fn can_be_told(self, event: EventV) -> bool {
        match (self.task, event) {
            (TaskV::CountingSent { inbox, .. }, EventV::Counted(Ok(sent))) => inbox + sent
                <= u32::MAX,
            _ => true,
        }
    }
}

// ---------------------------------------------------------------------------
// Doing it

fn turn_to(task: Task, responses: Vec<ImapResponse>, work: Work) -> (r: (Worker, Orders))
    ensures
        (r.0@, r.1@) == turned_to(task@, response_views(responses@), work@),
{
    (Worker { task, failures: 0 }, Orders { responses, pause: None, work })
}

fn start(task: Task, work: Work) -> (r: (Worker, Orders))
    ensures
        (r.0@, r.1@) == turned_to(task@, Seq::empty(), work@),
{
    let responses: Vec<ImapResponse> = Vec::new();
    assert(response_views(responses@) =~= Seq::<ResponseV>::empty());
    turn_to(task, responses, work)
}

fn one(response: ImapResponse) -> (r: Vec<ImapResponse>)
    ensures
        response_views(r@) == seq![response@],
{
    let mut r: Vec<ImapResponse> = Vec::new();
    let ghost v = response@;
    r.push(response);
    assert(response_views(r@) =~= seq![v]);
    r
}

fn finish(response: ImapResponse) -> (r: (Worker, Orders))
    ensures
        (r.0@, r.1@) == done_with(response@),
{
    turn_to(Task::Idle, one(response), Work::Await)
}

fn idle(task: Task, failures: u32) -> (r: (Worker, Orders))
    ensures
        (r.0@, r.1@) == idling(WorkerV { task: task@, failures }),
{
    let responses: Vec<ImapResponse> = Vec::new();
    assert(response_views(responses@) =~= Seq::<ResponseV>::empty());
    (Worker { task, failures }, Orders { responses, pause: None, work: Work::Await })
}

fn retry(task: Task, failures: u32, name: &str, work: Work, answer: ImapResponse) -> (r: (
    Worker,
    Orders,
))
    ensures
        (r.0@, r.1@) == (WorkerV { task: task@, failures }).failed(name@, work@, answer@),
{
    reveal_with_fuel(pause_after, 3);
    match backoff(failures) {
        Some(ms) => {
            let attempt: u32 = failures + 1;
            let responses: Vec<ImapResponse> = one(
                ImapResponse::Retrying {
                    attempt,
                    max_attempts: MAX_RETRIES,
                    action: name.to_owned(),
                },
            );
            (Worker { task, failures: attempt }, Orders { responses, pause: Some(ms), work })
        },
        None => finish(answer),
    }
}

fn answer_move(action: UndoActionType, result: Result<StringHashMap<u32>, String>) -> (r:
    ImapResponse)
    ensures
        r@ == move_answer(action, move_view(result)),
{
    match action {
        UndoActionType::Archive => ImapResponse::MultiArchiveResult(result),
        UndoActionType::Delete => ImapResponse::MultiDeleteResult(result),
    }
}

fn move_work(action: UndoActionType, batch: &Batch) -> (r: Work)
    ensures
        r@ == (WorkV::Move { action, folder: batch@.folder, uids: batch@.uids }),
{
    Work::Move { action, folder: batch.folder.clone(), uids: clone_texts(&batch.uids) }
}

fn move_at(
    action: UndoActionType,
    total: usize,
    batches: Vec<Batch>,
    at: usize,
    moved: StringHashMap<u32>,
) -> (r: (Worker, Orders))
    ensures
        (r.0@, r.1@) == moving_at(action, total, batch_views(batches@), at, moved@),
{
    if at < batches.len() {
        let label: String = match action {
            UndoActionType::Archive => "Archiving".to_owned(),
            UndoActionType::Delete => "Deleting".to_owned(),
        };
        let progress: Vec<ImapResponse> = one(
            ImapResponse::Progress(batches[at].done, total, label),
        );
        assert(batch_views(batches@)[at as int] == batches@[at as int]@);
        let work: Work = move_work(action, &batches[at]);
        turn_to(Task::Moving { action, total, batches, at, moved }, progress, work)
    } else {
        finish(answer_move(action, Ok(moved)))
    }
}

fn begin_move(action: UndoActionType, ids: Vec<(String, String)>) -> (r: (Worker, Orders))
    ensures
        (r.0@, r.1@) == moving_at(
            action,
            pairs(ids@).len() as usize,
            move_plan(pairs(ids@)),
            0,
            Map::empty(),
        ),
{
    let total: usize = ids.len();
    let batches: Vec<Batch> = plan_moves(&ids);
    move_at(action, total, batches, 0, StringHashMap::new())
}

/// A copy of a list of messages to be put back.
fn clone_restores(items: &Vec<Restore>) -> (r: Vec<Restore>)
    ensures
        restore_views(r@) == restore_views(items@),
{
    let mut r: Vec<Restore> = Vec::new();
    for i in 0..items.len()
        invariant
            r@.len() == i,
            forall|k: int|
                0 <= k < i ==> ({
                    let a = #[trigger] r@[k];
                    let b = items@[k];
                    opt_text(a.0) == opt_text(b.0) && a.1 == b.1 && a.2@ == b.2@ && a.3@ == b.3@
                }),
    {
        r.push(
            (clone_opt(&items[i].0), items[i].1, items[i].2.clone(), items[i].3.clone()),
        );
    }
    assert(restore_views(r@) =~= restore_views(items@));
    r
}

fn take_command(command: ImapCommand) -> (r: (Worker, Orders))
    ensures
        forall|w: WorkerV| (r.0@, r.1@) == #[trigger] w.commanded(command@),
{
    match command {
        ImapCommand::FetchInbox { parallel_connections } => start(
            Task::CountingInbox { parallel: parallel_connections },
            Work::Count { folder: INBOX.to_owned() },
        ),
        ImapCommand::ArchiveMultiple(ids) => begin_move(UndoActionType::Archive, ids),
        ImapCommand::DeleteMultiple(ids) => begin_move(UndoActionType::Delete, ids),
        ImapCommand::RestoreEmails(items) => {
            let work: Work = Work::Restore(clone_restores(&items));
            start(Task::Restoring { items }, work)
        },
        ImapCommand::FetchBody { uid, folder } => {
            let work: Work = Work::Read { uid: uid.clone(), folder };
            start(Task::Reading { uid }, work)
        },
        ImapCommand::Shutdown => start(Task::Stopped, Work::Stop),
    }
}

fn begin_fetch(parallel: usize, inbox: u32, sent: u32) -> (r: (Worker, Orders))
    requires
        inbox + sent <= u32::MAX,
    ensures
        (r.0@, r.1@) == WorkerV::fetching(parallel, inbox, sent),
{
    let total: u32 = inbox + sent;
    if total == 0 {
        let none: Vec<crate::email::Email> = Vec::new();
        assert(mails(none@) =~= Seq::<crate::email::EmailV>::empty());
        return finish(ImapResponse::Emails(Ok(none)));
    }
    let workers: usize = num_workers(parallel, total as usize);
    start(
        Task::Fetching,
        Work::Fetch {
            inbox: fetch_ranges(inbox, workers),
            sent: fetch_ranges(sent, workers),
            total: total as usize,
        },
    )
}

impl Worker {
    /// The worker after connecting, and what it answers: it waits for commands, or it ends.
    pub fn start(connection: Result<(), String>) -> (r: (Self, Orders))
        ensures
            match connection {
                Ok(()) => (r.0@, r.1@) == turned_to(
                    TaskV::Idle,
                    seq![ResponseV::Connected],
                    WorkV::Await,
                ),
                Err(e) => (r.0@, r.1@) == turned_to(
                    TaskV::Stopped,
                    seq![ResponseV::Error("Failed to connect: "@ + e@)],
                    WorkV::Stop,
                ),
            },
    {
        match connection {
            Ok(()) => finish(ImapResponse::Connected),
            Err(e) => turn_to(
                Task::Stopped,
                one(
                    ImapResponse::Error(
                        "Failed to connect: ".to_owned().concat(e.as_str()),
                    ),
                ),
                Work::Stop,
            ),
        }
    }

    /// Whether the numbers of messages can be added up.
    pub fn can_tell(&self, event: &WorkerEvent) -> (r: bool)
        ensures
            r == self@.can_be_told(event@),
    {
        match (&self.task, event) {
            (Task::CountingSent { inbox, .. }, WorkerEvent::Counted(Ok(sent))) => *inbox
                <= u32::MAX - *sent,
            _ => true,
        }
    }

    /// Tells the worker something.
    pub fn tell(self, event: WorkerEvent) -> (r: (Self, Orders))
        requires
            self@.can_be_told(event@),
        ensures
            (r.0@, r.1@) == self@.told(event@),
    {
        let failures: u32 = self.failures;
        match (self.task, event) {
            (Task::Stopped, _) => idle(Task::Stopped, failures),
            (_, WorkerEvent::Command(command)) => take_command(command),
            (Task::CountingInbox { parallel }, WorkerEvent::Counted(Ok(inbox))) => start(
                Task::CountingSent { parallel, inbox },
                Work::Count { folder: SENT_MAIL.to_owned() },
            ),
            (Task::CountingInbox { parallel }, WorkerEvent::Counted(Err(e))) => retry(
                Task::CountingInbox { parallel },
                failures,
                "fetch",
                Work::Count { folder: INBOX.to_owned() },
                ImapResponse::Emails(Err(e)),
            ),
            (Task::CountingSent { parallel, inbox }, WorkerEvent::Counted(Ok(sent))) =>
                begin_fetch(parallel, inbox, sent),
            (Task::CountingSent { parallel, inbox }, WorkerEvent::Counted(Err(e))) => retry(
                Task::CountingSent { parallel, inbox },
                failures,
                "fetch",
                Work::Count { folder: SENT_MAIL.to_owned() },
                ImapResponse::Emails(Err(e)),
            ),
            (Task::Fetching, WorkerEvent::Fetched(results)) => finish(
                ImapResponse::Emails(collect_fetched(results)),
            ),
            (
                Task::Moving { action, total, batches, at, moved },
                WorkerEvent::Moved(Ok(map)),
            ) => {
                if at < batches.len() {
                    let mut moved: StringHashMap<u32> = moved;
                    moved.union_prefer_right(map);
                    move_at(action, total, batches, at + 1, moved)
                } else {
                    idle(Task::Moving { action, total, batches, at, moved }, failures)
                }
            },
            (
                Task::Moving { action, total, batches, at, moved },
                WorkerEvent::Moved(Err(e)),
            ) => {
                if at < batches.len() {
                    assert(batch_views(batches@)[at as int] == batches@[at as int]@);
                    let work: Work = move_work(action, &batches[at]);
                    let name: &str = match action {
                        UndoActionType::Archive => "archive",
                        UndoActionType::Delete => "delete",
                    };
                    let answer: ImapResponse = answer_move(action, Err(e));
                    retry(
                        Task::Moving { action, total, batches, at, moved },
                        failures,
                        name,
                        work,
                        answer,
                    )
                } else {
                    idle(Task::Moving { action, total, batches, at, moved }, failures)
                }
            },
            (Task::Restoring { .. }, WorkerEvent::Restored(Ok(()))) => finish(
                ImapResponse::RestoreResult(Ok(())),
            ),
            (Task::Restoring { items }, WorkerEvent::Restored(Err(e))) => {
                let work: Work = Work::Restore(clone_restores(&items));
                retry(
                    Task::Restoring { items },
                    failures,
                    "restore",
                    work,
                    ImapResponse::RestoreResult(Err(e)),
                )
            },
            (Task::Reading { uid }, WorkerEvent::Read(result)) => finish(
                ImapResponse::BodyResult { uid, result },
            ),
            (task, _) => idle(task, failures),
        }
    }
}

// ---------------------------------------------------------------------------
// What the worker keeps to

/// The worker and its orders after a command and some batches that went well.
pub open spec fn after_moves(command: CommandV, results: Seq<Map<Seq<char>, u32>>) -> (
    WorkerV,
    OrdersV,
)
    decreases results.len(),
{
    if results.len() == 0 {
        (WorkerV { task: TaskV::Idle, failures: 0 }).told(EventV::Command(command))
    } else {
        after_moves(command, results.drop_last()).0.told(EventV::Moved(Ok(results.last())))
    }
}

/// Where the messages of some batches went; later batches count.
pub open spec fn all_moved(results: Seq<Map<Seq<char>, u32>>) -> Map<Seq<char>, u32>
    decreases results.len(),
{
    if results.len() == 0 {
        Map::empty()
    } else {
        all_moved(results.drop_last()).union_prefer_right(results.last())
    }
}

/// Archiving hands out the batches of the plan one after the other, and answers with where
/// all messages went once the last one went well.
pub proof fn law_archiving_follows_the_plan(
    ids: Seq<(Seq<char>, Seq<char>)>,
    results: Seq<Map<Seq<char>, u32>>,
)
    requires
        results.len() <= move_plan(ids).len() <= usize::MAX,
    ensures
        ({
            let (worker, orders) = after_moves(CommandV::ArchiveMultiple(ids), results);
            let plan = move_plan(ids);
            if results.len() < plan.len() {
                &&& orders.work == WorkV::Move {
                    action: UndoActionType::Archive,
                    folder: plan[results.len() as int].folder,
                    uids: plan[results.len() as int].uids,
                }
                &&& worker.task == TaskV::Moving {
                    action: UndoActionType::Archive,
                    total: ids.len() as usize,
                    batches: plan,
                    at: results.len() as usize,
                    moved: all_moved(results),
                }
            } else {
                (worker, orders) == done_with(
                    ResponseV::MultiArchiveResult(Ok(all_moved(results))),
                )
            }
        }),
    decreases results.len(),
{
    if results.len() > 0 {
        law_archiving_follows_the_plan(ids, results.drop_last());
    }
}

/// Deleting hands out the batches of the plan one after the other, and answers with where
/// all messages went once the last one went well.
pub proof fn law_deleting_follows_the_plan(
    ids: Seq<(Seq<char>, Seq<char>)>,
    results: Seq<Map<Seq<char>, u32>>,
)
    requires
        results.len() <= move_plan(ids).len() <= usize::MAX,
    ensures
        ({
            let (worker, orders) = after_moves(CommandV::DeleteMultiple(ids), results);
            let plan = move_plan(ids);
            if results.len() < plan.len() {
                &&& orders.work == WorkV::Move {
                    action: UndoActionType::Delete,
                    folder: plan[results.len() as int].folder,
                    uids: plan[results.len() as int].uids,
                }
                &&& worker.task == TaskV::Moving {
                    action: UndoActionType::Delete,
                    total: ids.len() as usize,
                    batches: plan,
                    at: results.len() as usize,
                    moved: all_moved(results),
                }
            } else {
                (worker, orders) == done_with(
                    ResponseV::MultiDeleteResult(Ok(all_moved(results))),
                )
            }
        }),
    decreases results.len(),
{
    if results.len() > 0 {
        law_deleting_follows_the_plan(ids, results.drop_last());
    }
}

/// What fails is tried again twice, with the same work and a longer pause each time; the
/// third error is the answer, and the worker is ready for another command.
pub proof fn law_the_third_failure_is_the_answer(
    task: TaskV,
    name: Seq<char>,
    work: WorkV,
    answer: ResponseV,
)
    ensures
        ({
            let (first, orders1) = (WorkerV { task, failures: 0 }).failed(name, work, answer);
            let (second, orders2) = first.failed(name, work, answer);
            let (third, orders3) = second.failed(name, work, answer);
            &&& first.task == task && second.task == task
            &&& orders1.work == work && orders2.work == work
            &&& orders1.pause == Some(100nat) && orders2.pause == Some(200nat)
            &&& (third, orders3) == done_with(answer)
        }),
{
    reveal_with_fuel(pause_after, 3);
}

/// A worker that was shut down does nothing any more.
pub proof fn law_shut_down_for_good(worker: WorkerV, event: EventV)
    requires
        worker.task is Stopped,
    ensures
        worker.told(event).0 == worker,
        worker.told(event).1.work == WorkV::Await,
        worker.told(event).1.responses.len() == 0,
{
}

} // verus!
