//! The ingestion scheduler: a producer that finds the files that wait for
//! their embeddings and hands each with its chunks to a bounded channel,
//! and a consumer that stores the chunks and marks the file as complete.

use crate::clock::unix_now;
use crate::embed::EmbedData;
use crate::errors::AppResult;
use crate::seqs::{lemma_filter_all, lemma_filter_none};
use crate::storage::file_contents::{
    chunk_rows, rows_have_dimension, ContentRow, ContentsStatement, FileContentRecordFields, FileContentsRepo,
    EMBEDDING_DIMENSION,
};
use crate::storage::files::{
    file_rows, pending_rows, with_progress, FileRecord, FileRow, FilesRepo, FilesStatement, PROGRESS_COMPLETE,
};
use vstd::prelude::*;

verus! {

/// The number of pending files that one sweep of the producer asks for.
pub const PENDING_BATCH: usize = 10;

/// How long the producer sleeps when nothing is pending, in milliseconds.
pub const IDLE_MILLIS: u64 = 3000;

/// The number of jobs that the channel between producer and consumer holds.
pub const CHANNEL_CAPACITY: usize = 10000;

/// What the producer hands to the consumer: a file and the chunks that
/// were computed for it, none where the file could not be embedded.
#[derive(Debug)]
pub struct EmbedJob {
    pub file_path: String,
    pub data: Vec<EmbedData>,
}

/// Where the producer stands.
#[derive(Debug)]
pub enum ProducerState {
    /// It has asked for the pending files.
    Polling,
    /// It sleeps, because nothing was pending or the catalog failed.
    Idle,
    /// It has asked for the embedding of `files[next]`.
    Embedding { files: Vec<FileRecord>, next: usize },
    /// It has handed the job of `files[next]` to the channel.
    Sending { files: Vec<FileRecord>, next: usize },
}

/// What came back to the producer.
#[derive(Debug)]
pub enum ProducerEvent {
    /// The catalog has answered the query for pending files.
    Pending(AppResult<Vec<FileRecord>>),
    /// The sleep is over.
    Woke,
    /// The chunks of the current file are there; there are none where the
    /// file could not be embedded.
    Embedded(Vec<EmbedData>),
    /// The channel has taken the job, or has been closed.
    Sent,
}

/// What the producer asks for next.
#[derive(Debug)]
pub enum ProducerAction {
    /// Run the statement on the catalog and come back with `Pending`.
    Query(FilesStatement),
    /// Sleep and come back with `Woke`.
    Sleep { millis: u64 },
    /// Embed the file and come back with `Embedded`.
    Embed { file_path: String },
    /// Hand the job to the channel, waiting while it is full, and come back
    /// with `Sent`.
    Send(EmbedJob),
    /// Nothing new: the event was not the one awaited.
    Continue,
}

/// The statement with which a sweep begins.
pub open spec fn sweep_statement() -> FilesStatement {
    FilesStatement::QueryProgressZero { limit: PENDING_BATCH }
}

/// The step that follows once the file at `next` is done: the embedding of
/// the file behind it, or a new sweep where it was the last.
pub open spec fn producer_advance(files: Vec<FileRecord>, next: int) -> (ProducerState, ProducerAction) {
    if 0 <= next < files@.len() {
        (
            ProducerState::Embedding { files, next: next as usize },
            ProducerAction::Embed { file_path: files@[next].file_path },
        )
    } else {
        (ProducerState::Polling, ProducerAction::Query(sweep_statement()))
    }
}

/// The producer: from where it stands and what came back, where it stands
/// next and what it asks for.
pub open spec fn producer_next(state: ProducerState, event: ProducerEvent) -> (ProducerState, ProducerAction) {
    match (state, event) {
        (ProducerState::Polling, ProducerEvent::Pending(Ok(files))) => if files@.len() > 0 {
            producer_advance(files, 0)
        } else {
            (ProducerState::Idle, ProducerAction::Sleep { millis: IDLE_MILLIS })
        },
        (ProducerState::Polling, ProducerEvent::Pending(Err(_))) => (
            ProducerState::Idle,
            ProducerAction::Sleep { millis: IDLE_MILLIS },
        ),
        (ProducerState::Idle, ProducerEvent::Woke) => (
            ProducerState::Polling,
            ProducerAction::Query(sweep_statement()),
        ),
        (ProducerState::Embedding { files, next }, ProducerEvent::Embedded(data)) => if next < files@.len() {
            (
                ProducerState::Sending { files, next },
                ProducerAction::Send(EmbedJob { file_path: files@[next as int].file_path, data }),
            )
        } else {
            (ProducerState::Polling, ProducerAction::Query(sweep_statement()))
        },
        (ProducerState::Sending { files, next }, ProducerEvent::Sent) => producer_advance(files, next + 1),
        (state, _) => (state, ProducerAction::Continue),
    }
}

/// Where the consumer stands.
#[derive(Debug)]
pub enum ConsumerState {
    /// It waits for a job.
    Waiting,
    /// It has asked for the chunks of the file to be stored.
    Inserting { file_path: String },
    /// It has asked for the file to be marked as complete.
    Updating,
}

/// What came back to the consumer.
#[derive(Debug)]
pub enum ConsumerEvent {
    /// The channel has handed over a job.
    Received(EmbedJob),
    /// The chunk store has answered the insert, with success or failure.
    Inserted(AppResult<()>),
    /// The catalog has answered the update, with success or failure.
    Updated(AppResult<()>),
}

/// What the consumer asks for next.
#[derive(Debug)]
pub enum ConsumerAction {
    /// Take the next job from the channel and come back with `Received`.
    Receive,
    /// Run the statement on the chunk store and come back with `Inserted`.
    Insert(ContentsStatement),
    /// Run the statement on the catalog and come back with `Updated`.
    Update(FilesStatement),
    /// Nothing new: the event was not the one awaited.
    Continue,
}

/// Whether the statement appends the chunks `data` of the file at `path`,
/// written at the time `now`: one row for each chunk that has a text.
pub open spec fn inserts_chunks(statement: ContentsStatement, path: Seq<char>, data: Seq<EmbedData>, now: i64) -> bool {
    &&& statement is Add
    &&& statement->Add_0.wf()
    &&& statement->Add_0.rows() == chunk_rows(path, data, now)
}

/// Whether the statement marks the file at `path` as complete at the time
/// `now`.
pub open spec fn completes_file(statement: FilesStatement, path: Seq<char>, now: i64) -> bool {
    &&& statement is UpdateProgressAndSyncTime
    &&& statement->UpdateProgressAndSyncTime_file_path@ == path
    &&& statement->UpdateProgressAndSyncTime_progress == PROGRESS_COMPLETE
    &&& statement->UpdateProgressAndSyncTime_sync_time == now
}

/// The consumer: whether, from where it stands and what came back, it may
/// stand at `next` and ask for `action`. A job with chunks has them
/// stored first; the answer of the chunk store, whatever it is, has the
/// file marked as complete; the answer of the catalog, whatever it is, has
/// the next job taken. A job without chunks asks for nothing: its file
/// stays pending.
pub open spec fn is_consumer_step(
    state: ConsumerState,
    event: ConsumerEvent,
    now: i64,
    next: ConsumerState,
    action: ConsumerAction,
) -> bool {
    match (state, event) {
        (ConsumerState::Waiting, ConsumerEvent::Received(job)) => if job.data@.len() == 0 {
            next is Waiting && action is Receive
        } else {
            &&& next is Inserting
            &&& next->Inserting_file_path@ == job.file_path@
            &&& action is Insert
            &&& inserts_chunks(action->Insert_0, job.file_path@, job.data@, now)
        },
        (ConsumerState::Inserting { file_path }, ConsumerEvent::Inserted(_)) => {
            &&& next is Updating
            &&& action is Update
            &&& completes_file(action->Update_0, file_path@, now)
        },
        (ConsumerState::Updating, ConsumerEvent::Updated(_)) => next is Waiting && action is Receive,
        (state, _) => next == state && action is Continue,
    }
}

/// The catalog after the consumer has handled a job: the file of a job
/// that has chunks is complete, and a job without chunks changes nothing.
pub open spec fn files_after_job(rows: Seq<FileRow>, path: Seq<char>, data: Seq<EmbedData>, now: i64) -> Seq<
    FileRow,
> {
    if data.len() == 0 {
        rows
    } else {
        with_progress(rows, path, PROGRESS_COMPLETE, now)
    }
}

/// The chunk store after the consumer has handled a job: the chunks of the
/// job are appended, unless there are none or the store refuses them.
pub open spec fn contents_after_job(
    rows: Seq<ContentRow>,
    path: Seq<char>,
    data: Seq<EmbedData>,
    now: i64,
) -> Seq<ContentRow> {
    if data.len() == 0 || !rows_have_dimension(chunk_rows(path, data, now), EMBEDDING_DIMENSION) {
        rows
    } else {
        rows + chunk_rows(path, data, now)
    }
}

/// The scheduler's two halves: where the producer stands and where the
/// consumer stands.
#[derive(Debug)]
pub struct EmbedManager {
    state: ProducerState,
    consumer: ConsumerState,
}

impl EmbedManager {
    /// Where the producer stands.
    pub closed spec fn state(self) -> ProducerState {
        self.state
    }

    /// Where the consumer stands.
    pub closed spec fn consumer(self) -> ConsumerState {
        self.consumer
    }

    /// Returns where the producer stands.
    pub fn producer_state(&self) -> (state: &ProducerState)
        ensures
            *state == self.state(),
    {
        &self.state
    }

    /// Returns where the consumer stands.
    pub fn consumer_state(&self) -> (state: &ConsumerState)
        ensures
            *state == self.consumer(),
    {
        &self.consumer
    }

    /// Starts the producer: it asks for the pending files.
    pub fn start_embedding(&mut self) -> (action: ProducerAction)
        ensures
            final(self).state() == ProducerState::Polling,
            final(self).consumer() == old(self).consumer(),
            action == ProducerAction::Query(sweep_statement()),
    {
        self.state = ProducerState::Polling;
        ProducerAction::Query(FilesStatement::QueryProgressZero { limit: PENDING_BATCH })
    }

    /// Moves the producer one step: takes what came back and says what to
    /// do next.
    pub fn on_event(&mut self, event: ProducerEvent) -> (action: ProducerAction)
        ensures
            (final(self).state(), action) == producer_next(old(self).state(), event),
            final(self).consumer() == old(self).consumer(),
    {
        let mut state = ProducerState::Polling;
        std::mem::swap(&mut state, &mut self.state);
        let (next_state, action) = producer_step(state, event);
        self.state = next_state;
        action
    }

    /// Starts the consumer: it asks for the next job.
    pub fn start_write_embedding(&mut self) -> (action: ConsumerAction)
        ensures
            final(self).consumer() is Waiting,
            final(self).state() == old(self).state(),
            action is Receive,
    {
        self.consumer = ConsumerState::Waiting;
        ConsumerAction::Receive
    }

    /// Moves the consumer one step, at the time the clock reads: takes
    /// what came back and says what to do next.
    pub fn on_write_event(&mut self, event: ConsumerEvent) -> (action: ConsumerAction)
        ensures
            exists|now: i64| #[trigger]
                is_consumer_step(old(self).consumer(), event, now, final(self).consumer(), action),
            final(self).state() == old(self).state(),
    {
        let now = unix_now();
        let mut state = ConsumerState::Waiting;
        std::mem::swap(&mut state, &mut self.consumer);
        let (next_state, action) = consumer_step_at(state, event, now);
        self.consumer = next_state;
        action
    }
}

impl Default for EmbedManager {
    fn default() -> (manager: Self)
        ensures
            manager.state() == ProducerState::Polling,
            manager.consumer() is Waiting,
    {
        EmbedManager { state: ProducerState::Polling, consumer: ConsumerState::Waiting }
    }
}

fn advance(files: Vec<FileRecord>, next: usize) -> (step: (ProducerState, ProducerAction))
    ensures
        step == producer_advance(files, next as int),
{
    if next < files.len() {
        let file_path = files[next].file_path.clone();
        (ProducerState::Embedding { files, next }, ProducerAction::Embed { file_path })
    } else {
        (ProducerState::Polling, ProducerAction::Query(FilesStatement::QueryProgressZero { limit: PENDING_BATCH }))
    }
}

/// One step of the producer.
pub fn producer_step(state: ProducerState, event: ProducerEvent) -> (step: (ProducerState, ProducerAction))
    ensures
        step == producer_next(state, event),
{
    match (state, event) {
        (ProducerState::Polling, ProducerEvent::Pending(Ok(files))) => {
            if files.len() > 0 {
                advance(files, 0)
            } else {
                (ProducerState::Idle, ProducerAction::Sleep { millis: IDLE_MILLIS })
            }
        },
        (ProducerState::Polling, ProducerEvent::Pending(Err(_))) => (
            ProducerState::Idle,
            ProducerAction::Sleep { millis: IDLE_MILLIS },
        ),
        (ProducerState::Idle, ProducerEvent::Woke) => (
            ProducerState::Polling,
            ProducerAction::Query(FilesStatement::QueryProgressZero { limit: PENDING_BATCH }),
        ),
        (ProducerState::Embedding { files, next }, ProducerEvent::Embedded(data)) => {
            if next < files.len() {
                let file_path = files[next].file_path.clone();
                (ProducerState::Sending { files, next }, ProducerAction::Send(EmbedJob { file_path, data }))
            } else {
                (
                    ProducerState::Polling,
                    ProducerAction::Query(FilesStatement::QueryProgressZero { limit: PENDING_BATCH }),
                )
            }
        },
        (ProducerState::Sending { files, next }, ProducerEvent::Sent) => {
            if next < files.len() {
                advance(files, next + 1)
            } else {
                (
                    ProducerState::Polling,
                    ProducerAction::Query(FilesStatement::QueryProgressZero { limit: PENDING_BATCH }),
                )
            }
        },
        (state, _) => (state, ProducerAction::Continue),
    }
}

/// One step of the consumer, at a given time.
pub fn consumer_step_at(state: ConsumerState, event: ConsumerEvent, now: i64) -> (step: (
    ConsumerState,
    ConsumerAction,
))
    ensures
        is_consumer_step(state, event, now, step.0, step.1),
{
    match (state, event) {
        (ConsumerState::Waiting, ConsumerEvent::Received(job)) => {
            if job.data.len() == 0 {
                (ConsumerState::Waiting, ConsumerAction::Receive)
            } else {
                let fields = FileContentRecordFields::new_at(job.file_path.clone(), &job.data, now);
                (
                    ConsumerState::Inserting { file_path: job.file_path },
                    ConsumerAction::Insert(ContentsStatement::Add(fields)),
                )
            }
        },
        (ConsumerState::Inserting { file_path }, ConsumerEvent::Inserted(_)) => (
            ConsumerState::Updating,
            ConsumerAction::Update(
                FilesStatement::UpdateProgressAndSyncTime { file_path, progress: PROGRESS_COMPLETE, sync_time: now },
            ),
        ),
        (ConsumerState::Updating, ConsumerEvent::Updated(_)) => (ConsumerState::Waiting, ConsumerAction::Receive),
        (state, _) => (state, ConsumerAction::Continue),
    }
}

/// The progress of a file is set strictly after its chunks have been
/// handed to the chunk store and the store has answered: the consumer
/// asks for the insert only on a job, asks for the update only on the
/// answer to the insert, and asks for it whatever that answer is.
pub proof fn lemma_progress_follows_chunks(
    state: ConsumerState,
    event: ConsumerEvent,
    now: i64,
    next: ConsumerState,
    action: ConsumerAction,
)
    requires
        is_consumer_step(state, event, now, next, action),
    ensures
        action is Insert ==> state is Waiting && event is Received && next is Inserting,
        action is Update ==> state is Inserting && event is Inserted && next is Updating,
        state is Inserting && event is Inserted ==> action is Update && completes_file(
            action->Update_0,
            state->Inserting_file_path@,
            now,
        ),
        state is Waiting && event is Received && event->Received_0.data@.len() == 0 ==> action is Receive,
{
}

/// Every file that the catalog hands to the producer gets one job, in the
/// order of the files: once the chunks of the file at `k` are there, its
/// job is sent with exactly these chunks, and once the channel has taken
/// it, the file behind it is embedded, or a new sweep begins where it was
/// the last.
pub proof fn lemma_producer_sends_each_file(files: Vec<FileRecord>, k: usize, data: Vec<EmbedData>)
    requires
        k < files@.len(),
    ensures
        producer_next(ProducerState::Embedding { files, next: k }, ProducerEvent::Embedded(data)) == (
            ProducerState::Sending { files, next: k },
            ProducerAction::Send(EmbedJob { file_path: files@[k as int].file_path, data }),
        ),
        k + 1 < files@.len() ==> producer_next(ProducerState::Sending { files, next: k }, ProducerEvent::Sent)
            == (
            ProducerState::Embedding { files, next: (k + 1) as usize },
            ProducerAction::Embed { file_path: files@[k + 1].file_path },
        ),
        k + 1 == files@.len() ==> producer_next(ProducerState::Sending { files, next: k }, ProducerEvent::Sent)
            == (ProducerState::Polling, ProducerAction::Query(sweep_statement())),
{
}

/// A batch has the dimension exactly when its rows have it.
pub proof fn lemma_batch_dimension(fields: FileContentRecordFields, dimension: usize)
    requires
        fields.wf(),
    ensures
        fields.has_dimension(dimension) == rows_have_dimension(fields.rows(), dimension),
{
    if fields.has_dimension(dimension) {
        assert forall|i: int| 0 <= i < fields.rows().len() implies (#[trigger] fields.rows()[i]).embedding.len()
            == dimension by {
            assert(fields.embeddings@[i]@.len() == dimension);
        }
    }
    if rows_have_dimension(fields.rows(), dimension) {
        assert forall|i: int| 0 <= i < fields.embeddings@.len() implies (#[trigger] fields.embeddings@[i])@.len()
            == dimension by {
            assert(fields.rows()[i].embedding.len() == dimension);
        }
    }
}

/// The consumer on the stores in memory, step by step: handles one job at
/// a given time. The chunks are stored first and the file is marked as
/// complete behind that, even where the chunk store refuses the chunks.
pub fn write_job(files: &mut FilesRepo, contents: &mut FileContentsRepo, job: EmbedJob, now: i64)
    ensures
        final(files)@ == files_after_job(old(files)@, job.file_path@, job.data@, now),
        final(contents)@ == contents_after_job(old(contents)@, job.file_path@, job.data@, now),
{
    let (state, action) = consumer_step_at(ConsumerState::Waiting, ConsumerEvent::Received(job), now);
    let inserted = match action {
        ConsumerAction::Insert(statement) => {
            proof {
                lemma_batch_dimension(statement->Add_0, EMBEDDING_DIMENSION);
            }
            let no_distances: Vec<u32> = Vec::new();
            match contents.execute(&statement, &no_distances) {
                Ok(_) => Ok(()),
                Err(e) => Err(e),
            }
        },
        _ => {
            return ;
        },
    };
    let (state, action) = consumer_step_at(state, ConsumerEvent::Inserted(inserted), now);
    let updated = match action {
        ConsumerAction::Update(statement) => match files.execute(&statement) {
            Ok(_) => Ok(()),
            Err(e) => Err(e),
        },
        _ => {
            proof {
                assert(false);
            }
            Ok(())
        },
    };
    let (state, action) = consumer_step_at(state, ConsumerEvent::Updated(updated), now);
}

/// The chunks that were computed for the pending file at `k`: none where
/// the embedding gave no answer for it.
pub open spec fn chunks_at(embedded: Seq<Vec<EmbedData>>, k: int) -> Seq<EmbedData> {
    if 0 <= k < embedded.len() {
        embedded[k]@
    } else {
        Seq::empty()
    }
}

/// The catalog after the jobs of the first `upto` pending files.
pub open spec fn files_after_jobs(
    rows: Seq<FileRow>,
    pending: Seq<FileRow>,
    embedded: Seq<Vec<EmbedData>>,
    now: i64,
    upto: int,
) -> Seq<FileRow>
    decreases upto,
{
    if upto <= 0 {
        rows
    } else {
        files_after_job(
            files_after_jobs(rows, pending, embedded, now, upto - 1),
            pending[upto - 1].file_path,
            chunks_at(embedded, upto - 1),
            now,
        )
    }
}

/// The chunk store after the jobs of the first `upto` pending files.
pub open spec fn contents_after_jobs(
    rows: Seq<ContentRow>,
    pending: Seq<FileRow>,
    embedded: Seq<Vec<EmbedData>>,
    now: i64,
    upto: int,
) -> Seq<ContentRow>
    decreases upto,
{
    if upto <= 0 {
        rows
    } else {
        contents_after_job(
            contents_after_jobs(rows, pending, embedded, now, upto - 1),
            pending[upto - 1].file_path,
            chunks_at(embedded, upto - 1),
            now,
        )
    }
}

/// The files that one sweep of the producer takes up.
pub open spec fn swept(rows: Seq<FileRow>) -> Seq<FileRow> {
    crate::seqs::first_n(pending_rows(rows), PENDING_BATCH as nat)
}

/// One cycle of the scheduler on the stores in memory, made of the steps
/// of the producer and the answers of the consumer: the producer takes up
/// the pending files, each is embedded and sent, and the consumer handles
/// the jobs in that order. `embedded[k]` holds the chunks of the `k`-th
/// pending file; a file for which it holds none, or nothing at all, stays
/// pending.
pub fn run_cycle(
    files: &mut FilesRepo,
    contents: &mut FileContentsRepo,
    embedded: Vec<Vec<EmbedData>>,
    now: i64,
)
    ensures
        final(files)@ == files_after_jobs(
            old(files)@,
            swept(old(files)@),
            embedded@,
            now,
            swept(old(files)@).len() as int,
        ),
        final(contents)@ == contents_after_jobs(
            old(contents)@,
            swept(old(files)@),
            embedded@,
            now,
            swept(old(files)@).len() as int,
        ),
{
    let mut embedded = embedded;
    let ghost all = embedded@;
    let ghost taken = swept(files@);
    let mut manager = EmbedManager::default();
    let sweep = manager.start_embedding();
    let answer = match &sweep {
        ProducerAction::Query(statement) => files.execute(statement),
        _ => {
            proof {
                assert(false);
            }
            vstd::pervasive::unreached()
        },
    };
    let pending = match answer {
        Ok(records) => records.0,
        Err(_) => {
            proof {
                assert(false);
            }
            vstd::pervasive::unreached()
        },
    };
    let ghost queue = pending;
    let count = pending.len();
    let mut action = manager.on_event(ProducerEvent::Pending(Ok(pending)));
    let mut k: usize = 0;
    while k < count
        invariant
            k <= count,
            count == queue@.len(),
            file_rows(queue@) == taken,
            embedded@.len() == all.len(),
            forall|m: int| k <= m < all.len() ==> embedded@[m] == all[m],
            k < count ==> manager.state() == (ProducerState::Embedding { files: queue, next: k }),
            k < count ==> action == (ProducerAction::Embed { file_path: queue@[k as int].file_path }),
            files@ == files_after_jobs(old(files)@, taken, all, now, k as int),
            contents@ == contents_after_jobs(old(contents)@, taken, all, now, k as int),
        decreases count - k,
    {
        let mut data: Vec<EmbedData> = Vec::new();
        if k < embedded.len() {
            std::mem::swap(&mut data, &mut embedded[k]);
        }
        assert(data@ == chunks_at(all, k as int));
        let send = manager.on_event(ProducerEvent::Embedded(data));
        match send {
            ProducerAction::Send(job) => {
                assert(job.file_path@ == taken[k as int].file_path);
                write_job(files, contents, job, now);
            },
            _ => {
                proof {
                    assert(false);
                }
            },
        }
        action = manager.on_event(ProducerEvent::Sent);
        k = k + 1;
    }
}

/// The rows of one path, in storage order.
pub open spec fn rows_of_path(rows: Seq<ContentRow>, path: Seq<char>) -> Seq<ContentRow> {
    rows.filter(|r: ContentRow| r.file_path == path)
}

/// A file whose embedding gave chunks is complete once the consumer has
/// handled its job: every catalog row of its path has full progress and a
/// synchronisation time after the epoch, the rows of other paths are as
/// they were, and the chunk store holds for its path what it held before
/// and behind that the chunks of the job, and for other paths what it
/// held.
pub proof fn lemma_job_completes_file(
    files: Seq<FileRow>,
    contents: Seq<ContentRow>,
    path: Seq<char>,
    data: Seq<EmbedData>,
    now: i64,
    other: Seq<char>,
)
    requires
        data.len() > 0,
        rows_have_dimension(chunk_rows(path, data, now), EMBEDDING_DIMENSION),
        now > 0,
        other != path,
    ensures
        files_after_job(files, path, data, now).len() == files.len(),
        forall|i: int|
            0 <= i < files.len() && (#[trigger] files[i]).file_path == path ==> {
                let row = files_after_job(files, path, data, now)[i];
                row.progress == PROGRESS_COMPLETE && row.sync_time == now && row.sync_time > 0
            },
        forall|i: int|
            0 <= i < files.len() && (#[trigger] files[i]).file_path != path ==> files_after_job(
                files,
                path,
                data,
                now,
            )[i] == files[i],
        rows_of_path(contents_after_job(contents, path, data, now), path) == rows_of_path(contents, path)
            + chunk_rows(path, data, now),
        rows_of_path(contents_after_job(contents, path, data, now), other) == rows_of_path(contents, other),
{
    let chunks = chunk_rows(path, data, now);
    let same = |r: ContentRow| r.file_path == path;
    let others = |r: ContentRow| r.file_path == other;
    Seq::filter_distributes_over_add(contents, chunks, same);
    Seq::filter_distributes_over_add(contents, chunks, others);
    lemma_filter_all(chunks, same);
    lemma_filter_none(chunks, others);
    assert(contents.filter(others) + Seq::<ContentRow>::empty() =~= contents.filter(others));
}

/// Where every chunk of a job has a text, the rows stored for the job are
/// exactly its chunks: as many, in their order, each with its text and its
/// vector.
pub proof fn lemma_every_chunk_is_stored(path: Seq<char>, data: Seq<EmbedData>, now: i64)
    requires
        forall|i: int| 0 <= i < data.len() ==> (#[trigger] data[i]).has_text(),
    ensures
        chunk_rows(path, data, now).len() == data.len(),
        forall|i: int|
            0 <= i < data.len() ==> {
                let row = #[trigger] chunk_rows(path, data, now)[i];
                row.file_path == path && row.text == data[i].text->0@ && row.embedding
                    == data[i].embedding.vector() && row.add_time == now
            },
{
    lemma_filter_all(data, |d: EmbedData| d.has_text());
}

/// What the jobs of a cycle never do to the catalog: they lose no row and
/// move none, and they change neither path nor name of a row.
pub proof fn lemma_jobs_keep_catalog(
    rows: Seq<FileRow>,
    pending: Seq<FileRow>,
    embedded: Seq<Vec<EmbedData>>,
    now: i64,
    upto: int,
)
    ensures
        files_after_jobs(rows, pending, embedded, now, upto).len() == rows.len(),
        forall|i: int|
            0 <= i < rows.len() ==> {
                let row = #[trigger] files_after_jobs(rows, pending, embedded, now, upto)[i];
                &&& row.file_path == rows[i].file_path
                &&& row.name == rows[i].name
                &&& row.file_type == rows[i].file_type
                &&& row.add_time == rows[i].add_time
                &&& row.progress == rows[i].progress || row.progress == PROGRESS_COMPLETE
            },
    decreases upto,
{
    if upto > 0 {
        lemma_jobs_keep_catalog(rows, pending, embedded, now, upto - 1);
        let before = files_after_jobs(rows, pending, embedded, now, upto - 1);
        let after = files_after_jobs(rows, pending, embedded, now, upto);
        assert forall|i: int| 0 <= i < rows.len() implies {
            let row = #[trigger] after[i];
            &&& row.file_path == rows[i].file_path
            &&& row.name == rows[i].name
            &&& row.file_type == rows[i].file_type
            &&& row.add_time == rows[i].add_time
            &&& row.progress == rows[i].progress || row.progress == PROGRESS_COMPLETE
        } by {
            let old_row = before[i];
            assert(old_row.file_path == rows[i].file_path);
        }
    }
}

/// A file that a cycle takes up and whose embedding gave chunks is
/// complete after the cycle: every catalog row of its path has full
/// progress and the time of the cycle as its synchronisation time.
pub proof fn lemma_cycle_completes_file(
    rows: Seq<FileRow>,
    pending: Seq<FileRow>,
    embedded: Seq<Vec<EmbedData>>,
    now: i64,
    upto: int,
    k: int,
)
    requires
        0 <= k < upto <= pending.len(),
        chunks_at(embedded, k).len() > 0,
        now > 0,
    ensures
        forall|i: int|
            0 <= i < rows.len() && (#[trigger] rows[i]).file_path == pending[k].file_path ==> {
                let row = files_after_jobs(rows, pending, embedded, now, upto)[i];
                row.progress == PROGRESS_COMPLETE && row.sync_time == now && row.sync_time > 0
            },
    decreases upto,
{
    let path = pending[k].file_path;
    let before = files_after_jobs(rows, pending, embedded, now, upto - 1);
    let after = files_after_jobs(rows, pending, embedded, now, upto);
    lemma_jobs_keep_catalog(rows, pending, embedded, now, upto - 1);
    if k < upto - 1 {
        lemma_cycle_completes_file(rows, pending, embedded, now, upto - 1, k);
    }
    assert forall|i: int| 0 <= i < rows.len() && (#[trigger] rows[i]).file_path == path implies {
        let row = after[i];
        row.progress == PROGRESS_COMPLETE && row.sync_time == now && row.sync_time > 0
    } by {
        assert(before[i].file_path == rows[i].file_path);
    }
}

/// A job leaves the chunks of every other path as they are.
pub proof fn lemma_job_keeps_other_paths(
    contents: Seq<ContentRow>,
    path: Seq<char>,
    data: Seq<EmbedData>,
    now: i64,
    other: Seq<char>,
)
    requires
        other != path,
    ensures
        rows_of_path(contents_after_job(contents, path, data, now), other) == rows_of_path(contents, other),
{
    let chunks = chunk_rows(path, data, now);
    let others = |r: ContentRow| r.file_path == other;
    Seq::filter_distributes_over_add(contents, chunks, others);
    lemma_filter_none(chunks, others);
    assert(contents.filter(others) + Seq::<ContentRow>::empty() =~= contents.filter(others));
}

/// Jobs of other paths leave the chunks of a path as they are.
pub proof fn lemma_jobs_keep_other_paths(
    contents: Seq<ContentRow>,
    pending: Seq<FileRow>,
    embedded: Seq<Vec<EmbedData>>,
    now: i64,
    upto: int,
    path: Seq<char>,
)
    requires
        upto <= pending.len(),
        forall|j: int| 0 <= j < upto ==> (#[trigger] pending[j]).file_path != path,
    ensures
        rows_of_path(contents_after_jobs(contents, pending, embedded, now, upto), path) == rows_of_path(
            contents,
            path,
        ),
    decreases upto,
{
    if upto > 0 {
        lemma_jobs_keep_other_paths(contents, pending, embedded, now, upto - 1, path);
        assert(pending[upto - 1].file_path != path);
        lemma_job_keeps_other_paths(
            contents_after_jobs(contents, pending, embedded, now, upto - 1),
            pending[upto - 1].file_path,
            chunks_at(embedded, upto - 1),
            now,
            path,
        );
    }
}

/// A file that a cycle takes up once and whose embedding gave chunks that
/// the store takes has, after the cycle, exactly these chunks added to
/// the chunks of its path.
pub proof fn lemma_cycle_stores_chunks(
    contents: Seq<ContentRow>,
    pending: Seq<FileRow>,
    embedded: Seq<Vec<EmbedData>>,
    now: i64,
    upto: int,
    k: int,
)
    requires
        0 <= k < upto <= pending.len(),
        forall|j: int| 0 <= j < upto && j != k ==> (#[trigger] pending[j]).file_path != pending[k].file_path,
        chunks_at(embedded, k).len() > 0,
        rows_have_dimension(chunk_rows(pending[k].file_path, chunks_at(embedded, k), now), EMBEDDING_DIMENSION),
    ensures
        rows_of_path(contents_after_jobs(contents, pending, embedded, now, upto), pending[k].file_path)
            == rows_of_path(contents, pending[k].file_path) + chunk_rows(
            pending[k].file_path,
            chunks_at(embedded, k),
            now,
        ),
    decreases upto,
{
    let path = pending[k].file_path;
    let before = contents_after_jobs(contents, pending, embedded, now, upto - 1);
    if k == upto - 1 {
        lemma_jobs_keep_other_paths(contents, pending, embedded, now, upto - 1, path);
        let chunks = chunk_rows(path, chunks_at(embedded, k), now);
        let same = |r: ContentRow| r.file_path == path;
        Seq::filter_distributes_over_add(before, chunks, same);
        lemma_filter_all(chunks, same);
    } else {
        lemma_cycle_stores_chunks(contents, pending, embedded, now, upto - 1, k);
        assert(pending[upto - 1].file_path != path);
        lemma_job_keeps_other_paths(before, pending[upto - 1].file_path, chunks_at(embedded, upto - 1), now, path);
    }
}

/// The catalog after one cycle of the scheduler.
pub open spec fn files_after_cycle(rows: Seq<FileRow>, embedded: Seq<Vec<EmbedData>>, now: i64) -> Seq<FileRow> {
    files_after_jobs(rows, swept(rows), embedded, now, swept(rows).len() as int)
}

/// The catalog after a run of cycles, each with the chunks that its
/// embeddings gave and with its time.
pub open spec fn files_after_cycles(rows: Seq<FileRow>, runs: Seq<(Seq<Vec<EmbedData>>, i64)>) -> Seq<FileRow>
    decreases runs.len(),
{
    if runs.len() == 0 {
        rows
    } else {
        files_after_cycle(files_after_cycles(rows, runs.drop_last()), runs.last().0, runs.last().1)
    }
}

/// Whether, in every cycle of the run, the embedding gave no chunk for any
/// file of the path that the cycle took up.
pub open spec fn never_embedded(rows: Seq<FileRow>, runs: Seq<(Seq<Vec<EmbedData>>, i64)>, path: Seq<char>) -> bool
    decreases runs.len(),
{
    runs.len() == 0 || {
        let before = files_after_cycles(rows, runs.drop_last());
        &&& never_embedded(rows, runs.drop_last(), path)
        &&& forall|k: int|
            0 <= k < swept(before).len() && (#[trigger] swept(before)[k]).file_path == path ==> chunks_at(
                runs.last().0,
                k,
            ).len() == 0
    }
}

/// Jobs without chunks for a path leave the catalog rows of the path as
/// they are.
pub proof fn lemma_jobs_without_chunks(
    rows: Seq<FileRow>,
    pending: Seq<FileRow>,
    embedded: Seq<Vec<EmbedData>>,
    now: i64,
    upto: int,
    path: Seq<char>,
)
    requires
        upto <= pending.len(),
        forall|k: int|
            0 <= k < upto && (#[trigger] pending[k]).file_path == path ==> chunks_at(embedded, k).len() == 0,
    ensures
        files_after_jobs(rows, pending, embedded, now, upto).len() == rows.len(),
        forall|i: int|
            0 <= i < rows.len() && (#[trigger] rows[i]).file_path == path ==> files_after_jobs(
                rows,
                pending,
                embedded,
                now,
                upto,
            )[i] == rows[i],
    decreases upto,
{
    if upto > 0 {
        lemma_jobs_without_chunks(rows, pending, embedded, now, upto - 1, path);
        let before = files_after_jobs(rows, pending, embedded, now, upto - 1);
        let after = files_after_jobs(rows, pending, embedded, now, upto);
        assert(pending[upto - 1].file_path == path ==> chunks_at(embedded, upto - 1).len() == 0);
        assert forall|i: int| 0 <= i < rows.len() && (#[trigger] rows[i]).file_path == path implies after[i]
            == rows[i] by {
            assert(before[i] == rows[i]);
        }
    }
}

/// A file whose embedding gives no chunks is never marked as complete:
/// after any number of cycles its catalog rows are as they were, so a
/// pending file is still pending.
pub proof fn lemma_empty_output_stays_pending(
    rows: Seq<FileRow>,
    runs: Seq<(Seq<Vec<EmbedData>>, i64)>,
    path: Seq<char>,
)
    requires
        never_embedded(rows, runs, path),
    ensures
        files_after_cycles(rows, runs).len() == rows.len(),
        forall|i: int|
            0 <= i < rows.len() && (#[trigger] rows[i]).file_path == path ==> files_after_cycles(rows, runs)[i]
                == rows[i],
    decreases runs.len(),
{
    if runs.len() > 0 {
        lemma_empty_output_stays_pending(rows, runs.drop_last(), path);
        let before = files_after_cycles(rows, runs.drop_last());
        lemma_jobs_without_chunks(
            before,
            swept(before),
            runs.last().0,
            runs.last().1,
            swept(before).len() as int,
            path,
        );
        let after = files_after_cycles(rows, runs);
        assert forall|i: int| 0 <= i < rows.len() && (#[trigger] rows[i]).file_path == path implies after[i]
            == rows[i] by {
            assert(before[i] == rows[i]);
        }
    }
}

/// A crash between the two writes of a job loses nothing. The catalog is
/// as it was, so the file is found again by the next sweep; when its job
/// is handled again, no catalog row is lost or renamed, the file is
/// complete, and the chunk store still holds, in their place, every row it
/// held at the crash: the chunks of the first attempt stay, those of the
/// second come behind them.
pub proof fn lemma_crash_replay(
    files: Seq<FileRow>,
    contents: Seq<ContentRow>,
    path: Seq<char>,
    data: Seq<EmbedData>,
    crash_time: i64,
    replay_data: Seq<EmbedData>,
    replay_time: i64,
)
    requires
        replay_data.len() > 0,
    ensures
        ({
            let crashed = contents_after_job(contents, path, data, crash_time);
            let replayed_files = files_after_job(files, path, replay_data, replay_time);
            let replayed = contents_after_job(crashed, path, replay_data, replay_time);
            &&& contents.is_prefix_of(crashed)
            &&& crashed.is_prefix_of(replayed)
            &&& replayed_files.len() == files.len()
            &&& forall|i: int|
                0 <= i < files.len() ==> (#[trigger] replayed_files[i]).file_path == files[i].file_path
                    && replayed_files[i].name == files[i].name
            &&& forall|i: int|
                0 <= i < files.len() && (#[trigger] files[i]).file_path == path ==> replayed_files[i].progress
                    == PROGRESS_COMPLETE
        }),
{
}

} // verus!
