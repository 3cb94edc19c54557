use aiden::agent::{OpenAiAgent, MODEL, PREAMBLE, PREAMBLE_REMOTE};
use aiden::embed::{EmbedData, EmbeddingResult};
use aiden::errors::AidenErrors;
use aiden::query::{
    query_step, query_step_at, rag_query, rag_query_at, start_query, QueryAction, QueryEvent, QueryState,
    EMBED_BATCH, NEAREST_COUNT, NO_DATA, NO_INPUT,
};
use aiden::storage::file_contents::{
    ContentsStatement, DistanceType, FileContentRecord, FileContentRecordFields, FileContentRecords,
    FileContentsRepo, MAX_DISTANCE,
};
use aiden::storage::open_ai::{OpenAiRecord, OpenAiRepo, OpenAiStatement};

fn record(path: &str, text: &str) -> FileContentRecord {
    FileContentRecord { file_path: path.to_string(), text: text.to_string(), embedding: vec![], add_time: 0 }
}

fn found() -> FileContentRecords {
    FileContentRecords(vec![record("a.txt", "alpha"), record("b.txt", "beta"), record("a.txt", "gamma")])
}

const FOUND_MARKDOWN: &str =
    "### File: a.txt\n\n- alpha\n- gamma\n\n---\n\n### File: b.txt\n\n- beta\n\n---\n\n";

fn endpoint(state: bool) -> OpenAiRecord {
    OpenAiRecord { id: 1, url: "https://llm".to_string(), token: "key".to_string(), state, time: 1 }
}

fn store() -> (FileContentsRepo, Vec<u32>) {
    let mut contents = FileContentsRepo::new();
    let texts = [("a.txt", "alpha", 0.2f32), ("z.txt", "far", 0.9), ("b.txt", "beta", 0.3), ("a.txt", "gamma", 0.4)];
    let mut distances = Vec::new();
    for (path, text, distance) in texts {
        let data = vec![EmbedData::new(
            EmbeddingResult::DenseVector(vec![0; 384]),
            Some(text.to_string()),
            None,
        )];
        contents.add(&FileContentRecordFields::new_at(path.to_string(), &data, 1)).unwrap();
        distances.push(distance.to_bits());
    }
    (contents, distances)
}

fn vector() -> Result<Vec<EmbeddingResult>, AidenErrors> {
    Ok(vec![EmbeddingResult::DenseVector(vec![1, 2, 3])])
}

#[test]
fn the_question_is_embedded_alone() {
    let (state, action) = start_query("what?".to_string());
    assert!(matches!(state, QueryState::Embedding { ref question } if question == "what?"));
    match action {
        QueryAction::Embed { texts, batch_size } => {
            assert_eq!(texts, vec!["what?".to_string()]);
            assert_eq!(batch_size, 1);
        }
        other => panic!("unexpected action {:?}", other),
    }
    assert_eq!(EMBED_BATCH, 1);
    assert_eq!(NEAREST_COUNT, 5);
}

#[test]
fn no_vector_gives_the_fixed_message() {
    for embedded in [
        Ok(Vec::new()),
        Err(AidenErrors::CandleError("boom".to_string())),
        Ok(vec![EmbeddingResult::MultiVector(vec![])]),
    ] {
        let (state, action) = query_step_at(
            QueryState::Embedding { question: "q".to_string() },
            QueryEvent::Embedded(embedded),
            1,
        );
        assert!(matches!(state, QueryState::Done));
        assert!(matches!(action, QueryAction::Answer(ref text) if text == NO_INPUT));
    }
    assert_eq!(NO_INPUT, "请输入内容或问题");
}

#[test]
fn a_vector_is_searched_for_with_the_bound() {
    let (state, action) = query_step_at(
        QueryState::Embedding { question: "q".to_string() },
        QueryEvent::Embedded(Ok(vec![EmbeddingResult::MultiVector(vec![vec![4, 5], vec![6]])])),
        1,
    );
    assert!(matches!(state, QueryState::Searching { ref question } if question == "q"));
    match action {
        QueryAction::Search(ContentsStatement::FindSimilar { vector, metric, lower, upper, limit }) => {
            assert_eq!(vector, vec![4, 5]);
            assert_eq!(metric, DistanceType::Cosine);
            assert_eq!(lower, 0);
            assert_eq!(upper, MAX_DISTANCE);
            assert_eq!(limit, 5);
        }
        other => panic!("unexpected action {:?}", other),
    }
}

#[test]
fn nothing_found_gives_the_fixed_message() {
    for result in [Ok(FileContentRecords(vec![])), Err(AidenErrors::LancedbError("x".to_string()))] {
        let (state, action) =
            query_step_at(QueryState::Searching { question: "q".to_string() }, QueryEvent::Found(result), 1);
        assert!(matches!(state, QueryState::Done));
        assert!(matches!(action, QueryAction::Answer(ref text) if text == NO_DATA));
    }
}

#[test]
fn found_chunks_lead_to_the_endpoint() {
    let (state, action) =
        query_step_at(QueryState::Searching { question: "q".to_string() }, QueryEvent::Found(Ok(found())), 1);
    assert!(matches!(state, QueryState::LoadingEndpoint { ref question, ref records }
        if question == "q" && records.len() == 3));
    assert!(matches!(action, QueryAction::LoadEndpoint(OpenAiStatement::QueryId)));
}

#[test]
fn a_disabled_or_missing_endpoint_is_bypassed() {
    for loaded in [
        Ok(Some(endpoint(false))),
        Ok(None),
        Err(AidenErrors::LancedbError("x".to_string())),
    ] {
        let (state, action) = query_step_at(
            QueryState::LoadingEndpoint { question: "q".to_string(), records: found() },
            QueryEvent::Endpoint(loaded),
            1,
        );
        assert!(matches!(state, QueryState::Done));
        assert!(matches!(action, QueryAction::Answer(ref text) if text == FOUND_MARKDOWN));
    }
}

#[test]
fn an_enabled_endpoint_is_asked() {
    let (state, action) = query_step_at(
        QueryState::LoadingEndpoint { question: "why?".to_string(), records: found() },
        QueryEvent::Endpoint(Ok(Some(endpoint(true)))),
        1,
    );
    assert!(matches!(state, QueryState::Asking { ref records } if records.len() == 3));
    match action {
        QueryAction::Ask(request) => {
            assert_eq!(request.base_url, "https://llm");
            assert_eq!(request.api_key, "key");
            assert_eq!(request.model, "deepseek-r1");
            assert_eq!(request.prompt, "why?");
            assert_eq!(request.preamble, format!("{}alpha\nbeta\ngamma", PREAMBLE));
        }
        other => panic!("unexpected action {:?}", other),
    }
}

#[test]
fn a_completion_is_the_answer() {
    let (state, action) = query_step_at(
        QueryState::Asking { records: found() },
        QueryEvent::Completed(Ok("the answer".to_string())),
        1,
    );
    assert!(matches!(state, QueryState::Done));
    assert!(matches!(action, QueryAction::Answer(ref text) if text == "the answer"));
}

#[test]
fn a_failed_completion_opens_the_breaker() {
    let (state, action) = query_step_at(
        QueryState::Asking { records: found() },
        QueryEvent::Completed(Err(AidenErrors::PromptError("401".to_string()))),
        99,
    );
    assert!(matches!(state, QueryState::Done));
    match action {
        QueryAction::Degrade { breaker, answer } => {
            assert!(matches!(breaker, OpenAiStatement::UpdateState { state: false, time: 99 }));
            assert_eq!(answer, FOUND_MARKDOWN);
        }
        other => panic!("unexpected action {:?}", other),
    }
    let (_, action) = query_step(
        QueryState::Asking { records: found() },
        QueryEvent::Completed(Err(AidenErrors::PromptError("401".to_string()))),
    );
    assert!(matches!(action, QueryAction::Degrade { breaker: OpenAiStatement::UpdateState { state: false, time }, .. } if time > 0));
}

#[test]
fn an_unexpected_event_is_passed_over() {
    let (state, action) = query_step_at(QueryState::Done, QueryEvent::Completed(Ok("late".to_string())), 1);
    assert!(matches!(state, QueryState::Done));
    assert!(matches!(action, QueryAction::Continue));
    let (state, action) = query_step_at(
        QueryState::Searching { question: "q".to_string() },
        QueryEvent::Endpoint(Ok(None)),
        1,
    );
    assert!(matches!(state, QueryState::Searching { .. }));
    assert!(matches!(action, QueryAction::Continue));
}

#[test]
fn with_a_disabled_endpoint_the_answer_is_the_markdown() {
    let (contents, distances) = store();
    let mut ai = OpenAiRepo::new();
    ai.insert_data_at("https://llm".to_string(), "key".to_string(), 1);
    ai.update_state_at(false, 2);
    let answer = rag_query_at(
        "q".to_string(),
        vector(),
        &contents,
        &distances,
        &mut ai,
        Ok("must not be used".to_string()),
        3,
    );
    assert_eq!(answer, FOUND_MARKDOWN);
    let row = ai.query_id().unwrap();
    assert_eq!(row.state, false);
    assert_eq!(row.time, 2);
}

#[test]
fn without_an_endpoint_the_answer_is_the_markdown() {
    let (contents, distances) = store();
    let mut ai = OpenAiRepo::new();
    let answer =
        rag_query("q".to_string(), vector(), &contents, &distances, &mut ai, Ok("unused".to_string()));
    assert_eq!(answer, FOUND_MARKDOWN);
    assert!(ai.query_all().is_empty());
}

#[test]
fn a_failing_model_disables_the_endpoint_and_falls_back() {
    let (contents, distances) = store();
    let mut ai = OpenAiRepo::new();
    ai.insert_data_at("https://llm".to_string(), "key".to_string(), 1);
    let answer = rag_query_at(
        "q".to_string(),
        vector(),
        &contents,
        &distances,
        &mut ai,
        Err(AidenErrors::PromptError("timeout".to_string())),
        5,
    );
    assert_eq!(answer, FOUND_MARKDOWN);
    let row = ai.query_id().unwrap();
    assert_eq!(row.state, false);
    assert_eq!(row.time, 5);
    // The breaker is sticky: the next question is answered from the store.
    let again =
        rag_query_at("q".to_string(), vector(), &contents, &distances, &mut ai, Ok("fresh".to_string()), 6);
    assert_eq!(again, FOUND_MARKDOWN);
    assert_eq!(ai.query_id().unwrap().time, 5);
    // Saving credentials closes it again.
    ai.update_insert_token_at("https://llm", "key2", 7);
    let healed =
        rag_query_at("q".to_string(), vector(), &contents, &distances, &mut ai, Ok("fresh".to_string()), 8);
    assert_eq!(healed, "fresh");
}

#[test]
fn a_working_model_gives_the_answer_and_changes_nothing() {
    let (contents, distances) = store();
    let mut ai = OpenAiRepo::new();
    ai.insert_data_at("https://llm".to_string(), "key".to_string(), 1);
    let answer =
        rag_query_at("q".to_string(), vector(), &contents, &distances, &mut ai, Ok("fine".to_string()), 5);
    assert_eq!(answer, "fine");
    let row = ai.query_id().unwrap();
    assert_eq!(row.state, true);
    assert_eq!(row.time, 1);
}

#[test]
fn questions_without_vector_or_match_get_the_fixed_messages() {
    let (contents, distances) = store();
    let mut ai = OpenAiRepo::new();
    ai.insert_data_at("https://llm".to_string(), "key".to_string(), 1);
    let no_vector = rag_query_at(
        "".to_string(),
        Ok(Vec::new()),
        &contents,
        &distances,
        &mut ai,
        Err(AidenErrors::PromptError("unused".to_string())),
        5,
    );
    assert_eq!(no_vector, NO_INPUT);
    let all_far = vec![0.95f32.to_bits(); 4];
    let no_match = rag_query_at(
        "q".to_string(),
        vector(),
        &contents,
        &all_far,
        &mut ai,
        Err(AidenErrors::PromptError("unused".to_string())),
        5,
    );
    assert_eq!(no_match, NO_DATA);
    let refused = rag_query_at(
        "q".to_string(),
        vector(),
        &contents,
        &vec![0; 1],
        &mut ai,
        Err(AidenErrors::PromptError("unused".to_string())),
        5,
    );
    assert_eq!(refused, NO_DATA);
    assert_eq!(ai.query_id().unwrap().state, true);
}

#[test]
fn the_agent_joins_the_passages_line_by_line() {
    let agent = OpenAiAgent::new("https://llm", "key");
    let request = agent.query("q", &FileContentRecords(vec![record("a", "one")]));
    assert_eq!(request.preamble, format!("{}one", PREAMBLE));
    let request = agent.query("q", &FileContentRecords(vec![]));
    assert_eq!(request.preamble, PREAMBLE);
    let request = agent.query("q", &found());
    assert!(request.preamble.ends_with("### 本地知识\n\nalpha\nbeta\ngamma"));
    let remote = agent.query_by_prompt("hello");
    assert_eq!(remote.preamble, PREAMBLE_REMOTE);
    assert_eq!(remote.prompt, "hello");
    assert_eq!(remote.model, MODEL);
    assert_eq!(remote.base_url, "https://llm");
    assert_eq!(remote.api_key, "key");
}
