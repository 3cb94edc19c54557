use aiden::embed::job::{
    consumer_step_at, producer_step, run_cycle, write_job, ConsumerAction, ConsumerEvent, ConsumerState,
    EmbedJob, EmbedManager, ProducerAction, ProducerEvent, ProducerState, CHANNEL_CAPACITY, IDLE_MILLIS,
    PENDING_BATCH,
};
use aiden::embed::{EmbedData, EmbeddingResult};
use aiden::errors::AidenErrors;
use aiden::storage::file_contents::{ContentsStatement, FileContentsRepo};
use aiden::storage::files::{FileRecord, FilesRepo, FilesStatement, SyncItem};

fn chunk(text: &str) -> EmbedData {
    EmbedData::new(EmbeddingResult::DenseVector(vec![0; 384]), Some(text.to_string()), None)
}

fn pending(path: &str) -> FileRecord {
    FileRecord::pending(path.to_string(), None, None, true, 1)
}

fn catalog(paths: &[&str]) -> FilesRepo {
    let mut files = FilesRepo::new();
    let items: Vec<SyncItem> =
        paths.iter().map(|p| SyncItem { path: p.to_string(), is_file: true }).collect();
    files.insert_data_at(&items, 1);
    files
}

fn is_sweep(action: &ProducerAction) -> bool {
    matches!(action, ProducerAction::Query(FilesStatement::QueryProgressZero { limit }) if *limit == 10)
}

#[test]
fn the_scheduler_constants() {
    assert_eq!(PENDING_BATCH, 10);
    assert_eq!(IDLE_MILLIS, 3000);
    assert_eq!(CHANNEL_CAPACITY, 10000);
}

#[test]
fn the_producer_sleeps_when_nothing_is_pending() {
    let mut manager = EmbedManager::default();
    assert!(is_sweep(&manager.start_embedding()));
    let action = manager.on_event(ProducerEvent::Pending(Ok(Vec::new())));
    assert!(matches!(action, ProducerAction::Sleep { millis: 3000 }));
    assert!(matches!(manager.producer_state(), ProducerState::Idle));
    assert!(is_sweep(&manager.on_event(ProducerEvent::Woke)));
    assert!(matches!(manager.producer_state(), ProducerState::Polling));
}

#[test]
fn the_producer_sleeps_when_the_catalog_fails() {
    let (state, action) = producer_step(
        ProducerState::Polling,
        ProducerEvent::Pending(Err(AidenErrors::LancedbError("down".to_string()))),
    );
    assert!(matches!(state, ProducerState::Idle));
    assert!(matches!(action, ProducerAction::Sleep { millis: 3000 }));
}

#[test]
fn the_producer_sends_one_job_for_each_pending_file() {
    let mut manager = EmbedManager::default();
    manager.start_embedding();
    let action = manager.on_event(ProducerEvent::Pending(Ok(vec![pending("a.txt"), pending("b.txt")])));
    match action {
        ProducerAction::Embed { file_path } => assert_eq!(file_path, "a.txt"),
        other => panic!("unexpected action {:?}", other),
    }
    let action = manager.on_event(ProducerEvent::Embedded(vec![chunk("one")]));
    match action {
        ProducerAction::Send(job) => {
            assert_eq!(job.file_path, "a.txt");
            assert_eq!(job.data.len(), 1);
        }
        other => panic!("unexpected action {:?}", other),
    }
    let action = manager.on_event(ProducerEvent::Sent);
    match action {
        ProducerAction::Embed { file_path } => assert_eq!(file_path, "b.txt"),
        other => panic!("unexpected action {:?}", other),
    }
    let action = manager.on_event(ProducerEvent::Embedded(Vec::new()));
    match action {
        ProducerAction::Send(job) => {
            assert_eq!(job.file_path, "b.txt");
            assert!(job.data.is_empty());
        }
        other => panic!("unexpected action {:?}", other),
    }
    assert!(is_sweep(&manager.on_event(ProducerEvent::Sent)));
    assert!(matches!(manager.producer_state(), ProducerState::Polling));
}

#[test]
fn an_event_that_is_not_awaited_changes_nothing() {
    let (state, action) = producer_step(ProducerState::Idle, ProducerEvent::Sent);
    assert!(matches!(state, ProducerState::Idle));
    assert!(matches!(action, ProducerAction::Continue));
    let (state, action) = producer_step(
        ProducerState::Embedding { files: vec![pending("a")], next: 0 },
        ProducerEvent::Woke,
    );
    assert!(matches!(state, ProducerState::Embedding { next: 0, .. }));
    assert!(matches!(action, ProducerAction::Continue));
}

#[test]
fn the_consumer_writes_chunks_then_progress() {
    let job = EmbedJob { file_path: "a.txt".to_string(), data: vec![chunk("one"), chunk("two")] };
    let (state, action) = consumer_step_at(ConsumerState::Waiting, ConsumerEvent::Received(job), 77);
    assert!(matches!(state, ConsumerState::Inserting { ref file_path } if file_path == "a.txt"));
    match &action {
        ConsumerAction::Insert(ContentsStatement::Add(fields)) => {
            assert_eq!(fields.texts, vec!["one".to_string(), "two".to_string()]);
            assert_eq!(fields.file_paths, vec!["a.txt".to_string(); 2]);
            assert_eq!(fields.add_times, vec![77, 77]);
        }
        other => panic!("unexpected action {:?}", other),
    }
    let (state, action) = consumer_step_at(state, ConsumerEvent::Inserted(Ok(())), 78);
    assert!(matches!(state, ConsumerState::Updating));
    match &action {
        ConsumerAction::Update(FilesStatement::UpdateProgressAndSyncTime { file_path, progress, sync_time }) => {
            assert_eq!(file_path, "a.txt");
            assert_eq!(*progress, 100);
            assert_eq!(*sync_time, 78);
        }
        other => panic!("unexpected action {:?}", other),
    }
    let (state, action) = consumer_step_at(state, ConsumerEvent::Updated(Ok(())), 79);
    assert!(matches!(state, ConsumerState::Waiting));
    assert!(matches!(action, ConsumerAction::Receive));
}

#[test]
fn the_progress_is_written_whatever_the_insert_answered() {
    let job = EmbedJob { file_path: "a.txt".to_string(), data: vec![chunk("one")] };
    let (state, _) = consumer_step_at(ConsumerState::Waiting, ConsumerEvent::Received(job), 1);
    let failed = Err(AidenErrors::LancedbError("disk full".to_string()));
    let (state, action) = consumer_step_at(state, ConsumerEvent::Inserted(failed), 2);
    assert!(matches!(
        action,
        ConsumerAction::Update(FilesStatement::UpdateProgressAndSyncTime { progress: 100, sync_time: 2, .. })
    ));
    let failed = Err(AidenErrors::LancedbError("disk full".to_string()));
    let (state, action) = consumer_step_at(state, ConsumerEvent::Updated(failed), 3);
    assert!(matches!(state, ConsumerState::Waiting));
    assert!(matches!(action, ConsumerAction::Receive));
}

#[test]
fn the_consumer_never_updates_before_the_insert_has_answered() {
    let job = EmbedJob { file_path: "a.txt".to_string(), data: vec![chunk("one")] };
    let (state, action) = consumer_step_at(ConsumerState::Waiting, ConsumerEvent::Updated(Ok(())), 1);
    assert!(matches!(state, ConsumerState::Waiting));
    assert!(matches!(action, ConsumerAction::Continue));
    let (state, _) = consumer_step_at(state, ConsumerEvent::Received(job), 1);
    let (state, action) = consumer_step_at(state, ConsumerEvent::Updated(Ok(())), 2);
    assert!(matches!(state, ConsumerState::Inserting { .. }));
    assert!(matches!(action, ConsumerAction::Continue));
    let other = EmbedJob { file_path: "b.txt".to_string(), data: vec![chunk("two")] };
    let (state, action) = consumer_step_at(state, ConsumerEvent::Received(other), 3);
    assert!(matches!(state, ConsumerState::Inserting { ref file_path } if file_path == "a.txt"));
    assert!(matches!(action, ConsumerAction::Continue));
}

#[test]
fn the_consumer_ignores_a_job_without_chunks() {
    let job = EmbedJob { file_path: "b.txt".to_string(), data: Vec::new() };
    let (state, action) = consumer_step_at(ConsumerState::Waiting, ConsumerEvent::Received(job), 5);
    assert!(matches!(state, ConsumerState::Waiting));
    assert!(matches!(action, ConsumerAction::Receive));
}

#[test]
fn the_manager_steps_the_consumer_by_the_clock() {
    let mut manager = EmbedManager::default();
    assert!(matches!(manager.start_write_embedding(), ConsumerAction::Receive));
    let job = EmbedJob { file_path: "a.txt".to_string(), data: vec![chunk("one")] };
    let action = manager.on_write_event(ConsumerEvent::Received(job));
    match action {
        ConsumerAction::Insert(ContentsStatement::Add(fields)) => assert!(fields.add_times[0] > 0),
        other => panic!("unexpected action {:?}", other),
    }
    assert!(matches!(manager.consumer_state(), ConsumerState::Inserting { .. }));
    let action = manager.on_write_event(ConsumerEvent::Inserted(Ok(())));
    match action {
        ConsumerAction::Update(FilesStatement::UpdateProgressAndSyncTime { sync_time, .. }) => {
            assert!(sync_time > 0)
        }
        other => panic!("unexpected action {:?}", other),
    }
    assert!(matches!(manager.on_write_event(ConsumerEvent::Updated(Ok(()))), ConsumerAction::Receive));
    assert!(matches!(manager.producer_state(), ProducerState::Polling));
}

#[test]
fn a_file_with_chunks_is_complete_after_its_job() {
    let mut files = catalog(&["a.txt", "other.txt"]);
    let mut contents = FileContentsRepo::new();
    let job = EmbedJob { file_path: "a.txt".to_string(), data: vec![chunk("x"), chunk("y")] };
    write_job(&mut files, &mut contents, job, 50);
    let rows = files.query_all();
    assert_eq!(rows[0].progress, 100);
    assert_eq!(rows[0].sync_time, 50);
    assert_eq!(rows[1].progress, 0);
    assert_eq!(rows[1].sync_time, 0);
    let stored = contents.query_all(10);
    assert_eq!(stored.len(), 2);
    assert!(stored.iter().all(|r| r.file_path == "a.txt" && r.add_time == 50));
    assert_eq!(stored[0].text, "x");
    assert_eq!(stored[1].text, "y");
}

#[test]
fn a_file_without_chunks_stays_pending_over_many_cycles() {
    let mut files = catalog(&["empty.bin"]);
    let mut contents = FileContentsRepo::new();
    for round in 0..25 {
        run_cycle(&mut files, &mut contents, vec![Vec::new()], 100 + round);
        let rows = files.query_all();
        assert_eq!(rows[0].progress, 0);
        assert_eq!(rows[0].sync_time, 0);
    }
    run_cycle(&mut files, &mut contents, Vec::new(), 200);
    assert_eq!(files.query_progress_zero(10).len(), 1);
    assert_eq!(contents.len(), 0);
}

#[test]
fn a_replay_after_a_crash_loses_nothing() {
    let mut files = catalog(&["a.txt"]);
    let mut contents = FileContentsRepo::new();
    // The crash: the chunks are stored, the progress is not.
    let job = EmbedJob { file_path: "a.txt".to_string(), data: vec![chunk("x")] };
    let (_, action) = consumer_step_at(ConsumerState::Waiting, ConsumerEvent::Received(job), 10);
    match action {
        ConsumerAction::Insert(statement) => {
            contents.execute(&statement, &Vec::new()).unwrap();
        }
        other => panic!("unexpected action {:?}", other),
    }
    assert_eq!(files.query_progress_zero(10).len(), 1);
    // The replay.
    run_cycle(&mut files, &mut contents, vec![vec![chunk("x")]], 20);
    let rows = files.query_all();
    assert_eq!(rows.len(), 1);
    assert_eq!(rows[0].file_path, "a.txt");
    assert_eq!(rows[0].progress, 100);
    assert_eq!(rows[0].sync_time, 20);
    let stored = contents.query_all(10);
    assert_eq!(stored.len(), 2);
    assert_eq!(stored[0].add_time, 10);
    assert_eq!(stored[1].add_time, 20);
}

#[test]
fn one_cycle_completes_the_file_with_chunks_only() {
    let mut files = catalog(&["a.txt", "b.txt"]);
    let mut contents = FileContentsRepo::new();
    run_cycle(
        &mut files,
        &mut contents,
        vec![vec![chunk("one"), chunk("two"), chunk("three")], Vec::new()],
        1234,
    );
    let rows = files.query_all();
    assert_eq!(rows.len(), 2);
    assert_eq!(rows[0].file_path, "a.txt");
    assert_eq!(rows[0].progress, 100);
    assert!(rows[0].sync_time > 0);
    assert_eq!(rows[1].file_path, "b.txt");
    assert_eq!(rows[1].progress, 0);
    let stored = contents.query_all(100);
    assert_eq!(stored.len(), 3);
    assert!(stored.iter().all(|r| r.file_path == "a.txt"));
}

#[test]
fn a_cycle_takes_up_ten_files_at_most() {
    let paths: Vec<String> = (0..12).map(|i| format!("f{}", i)).collect();
    let refs: Vec<&str> = paths.iter().map(|p| p.as_str()).collect();
    let mut files = catalog(&refs);
    let mut contents = FileContentsRepo::new();
    let embedded: Vec<Vec<EmbedData>> = (0..12).map(|_| vec![chunk("c")]).collect();
    run_cycle(&mut files, &mut contents, embedded, 9);
    assert_eq!(files.query_progress_zero(100).len(), 2);
    assert_eq!(contents.len(), 10);
    run_cycle(&mut files, &mut contents, vec![vec![chunk("c")], vec![chunk("c")]], 10);
    assert_eq!(files.query_progress_zero(100).len(), 0);
    assert_eq!(contents.len(), 12);
}

#[test]
fn progress_is_written_even_where_the_chunks_are_refused() {
    let mut files = catalog(&["a.txt"]);
    let mut contents = FileContentsRepo::new();
    let bad = EmbedData::new(EmbeddingResult::DenseVector(vec![0; 3]), Some("t".to_string()), None);
    write_job(&mut files, &mut contents, EmbedJob { file_path: "a.txt".to_string(), data: vec![bad] }, 4);
    assert_eq!(contents.len(), 0);
    assert_eq!(files.query_all()[0].progress, 100);
}
