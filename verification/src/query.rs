//! The query orchestrator: from a question to an answer, by way of the
//! embedding of the question, the nearest chunks, and the language model
//! where it may be called. No failure reaches the caller: each ends in a
//! fixed message or in the retrieved passages as Markdown.

use crate::agent::{grounded_preamble, LlmRequest, OpenAiAgent, MODEL};
use crate::clock::unix_now;
use crate::embed::EmbeddingResult;
use crate::errors::AppResult;
use crate::storage::file_contents::{
    markdown, rows_at, ContentRow, ContentsStatement, DistanceType, FileContentRecords, FileContentsRepo,
    MAX_DISTANCE, MIN_DISTANCE,
};
use crate::storage::nearest::{lemma_nearest, nearest};
use crate::storage::open_ai::{
    opt_row, rows_with_id, with_state, EndpointRow, OpenAiRecord, OpenAiRepo, OpenAiStatement, ENDPOINT_ID,
};
use vstd::pervasive::unreached;
use vstd::prelude::*;

verus! {

/// The number of texts that the call which embeds a question takes: the
/// question alone.
pub const EMBED_BATCH: usize = 1;

/// The number of chunks that are retrieved for a question.
pub const NEAREST_COUNT: usize = 5;

/// The answer to a question for which no vector could be computed.
pub const NO_INPUT: &'static str = "请输入内容或问题";

/// The answer to a question for which no chunk is near enough.
pub const NO_DATA: &'static str = "未找到相关内容";

/// Where the answering of a question stands.
#[derive(Debug)]
pub enum QueryState {
    /// The embedding of the question is awaited.
    Embedding { question: String },
    /// The nearest chunks are awaited.
    Searching { question: String },
    /// The endpoint row is awaited.
    LoadingEndpoint { question: String, records: FileContentRecords },
    /// The answer of the language model is awaited.
    Asking { records: FileContentRecords },
    /// The answer has been given.
    Done,
}

/// What came back to the orchestrator.
#[derive(Debug)]
pub enum QueryEvent {
    Embedded(AppResult<Vec<EmbeddingResult>>),
    Found(AppResult<FileContentRecords>),
    Endpoint(AppResult<Option<OpenAiRecord>>),
    Completed(AppResult<String>),
}

/// What the orchestrator asks for next.
#[derive(Debug)]
pub enum QueryAction {
    /// Embed the texts and come back with `Embedded`.
    Embed { texts: Vec<String>, batch_size: usize },
    /// Run the search on the chunk store and come back with `Found`.
    Search(ContentsStatement),
    /// Read the endpoint row and come back with `Endpoint`.
    LoadEndpoint(OpenAiStatement),
    /// Call the language model and come back with `Completed`.
    Ask(LlmRequest),
    /// Give the answer.
    Answer(String),
    /// Run the statement on the endpoint table, whether or not it
    /// succeeds, and give the answer.
    Degrade { breaker: OpenAiStatement, answer: String },
    /// Nothing new: the event was not the one awaited.
    Continue,
}

/// Whether the embedding gave a vector for the question.
pub open spec fn has_vector(embedded: AppResult<Vec<EmbeddingResult>>) -> bool {
    embedded is Ok && embedded->Ok_0@.len() > 0 && embedded->Ok_0@[0].vector().len() > 0
}

/// Whether the search found a chunk.
pub open spec fn has_rows(found: AppResult<FileContentRecords>) -> bool {
    found is Ok && found->Ok_0@.len() > 0
}

/// Whether there is an endpoint that may be called.
pub open spec fn is_enabled(endpoint: AppResult<Option<OpenAiRecord>>) -> bool {
    endpoint is Ok && endpoint->Ok_0 is Some && endpoint->Ok_0->0.state
}

/// Whether the statement is the search for the chunks nearest to the
/// vector: the nearest first, by cosine distance, none farther than the
/// greatest distance allowed.
pub open spec fn is_search(statement: ContentsStatement, vector: Seq<u32>) -> bool {
    &&& statement is FindSimilar
    &&& statement->FindSimilar_vector@ == vector
    &&& statement->FindSimilar_metric == DistanceType::Cosine
    &&& statement->FindSimilar_lower == MIN_DISTANCE
    &&& statement->FindSimilar_upper == MAX_DISTANCE
    &&& statement->FindSimilar_limit == NEAREST_COUNT
}

/// Whether the request asks the endpoint the question, grounded on the
/// rows.
pub open spec fn is_grounded_request(
    request: LlmRequest,
    endpoint: EndpointRow,
    question: Seq<char>,
    rows: Seq<ContentRow>,
) -> bool {
    &&& request.base_url@ == endpoint.url
    &&& request.api_key@ == endpoint.token
    &&& request.model@ == MODEL@
    &&& request.preamble@ == grounded_preamble(rows)
    &&& request.prompt@ == question
}

/// Whether the action gives the text as the answer.
pub open spec fn answers(action: QueryAction, text: Seq<char>) -> bool {
    action is Answer && action->Answer_0@ == text
}

/// Whether the action opens the breaker at the time given and gives the
/// text as the answer.
pub open spec fn degrades(action: QueryAction, now: i64, text: Seq<char>) -> bool {
    &&& action is Degrade
    &&& action->Degrade_breaker == (OpenAiStatement::UpdateState { state: false, time: now })
    &&& action->Degrade_answer@ == text
}

/// The orchestrator: whether, from where it stands and what came back, it
/// may stand at `next` and ask for `action`.
pub open spec fn is_query_step(
    state: QueryState,
    event: QueryEvent,
    now: i64,
    next: QueryState,
    action: QueryAction,
) -> bool {
    match (state, event) {
        (QueryState::Embedding { question }, QueryEvent::Embedded(embedded)) => if has_vector(embedded) {
            &&& next is Searching
            &&& next->Searching_question@ == question@
            &&& action is Search
            &&& is_search(action->Search_0, embedded->Ok_0@[0].vector())
        } else {
            next is Done && answers(action, NO_INPUT@)
        },
        (QueryState::Searching { question }, QueryEvent::Found(found)) => if has_rows(found) {
            &&& next is LoadingEndpoint
            &&& next->LoadingEndpoint_question@ == question@
            &&& next->LoadingEndpoint_records@ == found->Ok_0@
            &&& action == QueryAction::LoadEndpoint(OpenAiStatement::QueryId)
        } else {
            next is Done && answers(action, NO_DATA@)
        },
        (QueryState::LoadingEndpoint { question, records }, QueryEvent::Endpoint(endpoint)) => if is_enabled(
            endpoint,
        ) {
            &&& next is Asking
            &&& next->Asking_records@ == records@
            &&& action is Ask
            &&& is_grounded_request(action->Ask_0, endpoint->Ok_0->0@, question@, records@)
        } else {
            next is Done && answers(action, markdown(records@))
        },
        (QueryState::Asking { records }, QueryEvent::Completed(completion)) => match completion {
            Ok(text) => next is Done && answers(action, text@),
            Err(_) => next is Done && degrades(action, now, markdown(records@)),
        },
        (state, _) => next == state && action is Continue,
    }
}

/// Begins the answering of a question: the question is embedded, alone in
/// its batch.
pub fn start_query(question: String) -> (step: (QueryState, QueryAction))
    ensures
        step.0 is Embedding,
        step.0->Embedding_question@ == question@,
        step.1 is Embed,
        step.1->Embed_texts@.len() == 1,
        step.1->Embed_texts@[0]@ == question@,
        step.1->Embed_batch_size == EMBED_BATCH,
{
    let mut texts: Vec<String> = Vec::new();
    texts.push(question.clone());
    (QueryState::Embedding { question }, QueryAction::Embed { texts, batch_size: EMBED_BATCH })
}

/// One step of the orchestrator, at a given time.
pub fn query_step_at(state: QueryState, event: QueryEvent, now: i64) -> (step: (QueryState, QueryAction))
    ensures
        is_query_step(state, event, now, step.0, step.1),
{
    match (state, event) {
        (QueryState::Embedding { question }, QueryEvent::Embedded(embedded)) => {
            let vector = match embedded {
                Ok(mut results) => if results.len() > 0 {
                    results[0].to_vector()
                } else {
                    Vec::new()
                },
                Err(_) => Vec::new(),
            };
            if vector.len() > 0 {
                (
                    QueryState::Searching { question },
                    QueryAction::Search(ContentsStatement::find_similar(vector, NEAREST_COUNT)),
                )
            } else {
                (QueryState::Done, QueryAction::Answer(String::from_str(NO_INPUT)))
            }
        },
        (QueryState::Searching { question }, QueryEvent::Found(found)) => {
            match found {
                Ok(records) => if records.0.len() > 0 {
                    (
                        QueryState::LoadingEndpoint { question, records },
                        QueryAction::LoadEndpoint(OpenAiStatement::QueryId),
                    )
                } else {
                    (QueryState::Done, QueryAction::Answer(String::from_str(NO_DATA)))
                },
                Err(_) => (QueryState::Done, QueryAction::Answer(String::from_str(NO_DATA))),
            }
        },
        (QueryState::LoadingEndpoint { question, records }, QueryEvent::Endpoint(endpoint)) => {
            match endpoint {
                Ok(Some(record)) => if record.state {
                    let agent = OpenAiAgent::new(record.url.as_str(), record.token.as_str());
                    let request = agent.query(question.as_str(), &records);
                    (QueryState::Asking { records }, QueryAction::Ask(request))
                } else {
                    (QueryState::Done, QueryAction::Answer(records.to_markdown()))
                },
                _ => (QueryState::Done, QueryAction::Answer(records.to_markdown())),
            }
        },
        (QueryState::Asking { records }, QueryEvent::Completed(completion)) => {
            match completion {
                Ok(text) => (QueryState::Done, QueryAction::Answer(text)),
                Err(_) => (
                    QueryState::Done,
                    QueryAction::Degrade {
                        breaker: OpenAiStatement::UpdateState { state: false, time: now },
                        answer: records.to_markdown(),
                    },
                ),
            }
        },
        (state, _) => (state, QueryAction::Continue),
    }
}

/// One step of the orchestrator, at the time the clock reads.
pub fn query_step(state: QueryState, event: QueryEvent) -> (step: (QueryState, QueryAction))
    ensures
        exists|now: i64| #[trigger] is_query_step(state, event, now, step.0, step.1),
{
    let now = unix_now();
    query_step_at(state, event, now)
}

/// The number of answers from collaborators that may still be awaited
/// before the answer is given.
pub open spec fn steps_left(state: QueryState) -> nat {
    match state {
        QueryState::Embedding { .. } => 4,
        QueryState::Searching { .. } => 3,
        QueryState::LoadingEndpoint { .. } => 2,
        QueryState::Asking { .. } => 1,
        QueryState::Done => 0,
    }
}

/// Whether the event is the one that the state awaits.
pub open spec fn is_awaited(state: QueryState, event: QueryEvent) -> bool {
    match (state, event) {
        (QueryState::Embedding { .. }, QueryEvent::Embedded(_)) => true,
        (QueryState::Searching { .. }, QueryEvent::Found(_)) => true,
        (QueryState::LoadingEndpoint { .. }, QueryEvent::Endpoint(_)) => true,
        (QueryState::Asking { .. }, QueryEvent::Completed(_)) => true,
        _ => false,
    }
}

/// The answering always comes to its end, and with an answer: every
/// awaited event brings it nearer, whether it reports success or failure;
/// when no step is left an answer has been given; and an answer is given
/// exactly when the answering ends.
pub proof fn lemma_query_ends_with_an_answer(
    state: QueryState,
    event: QueryEvent,
    now: i64,
    next: QueryState,
    action: QueryAction,
)
    requires
        is_awaited(state, event),
        is_query_step(state, event, now, next, action),
    ensures
        steps_left(next) < steps_left(state),
        next is Done <==> (action is Answer || action is Degrade),
        !(action is Continue),
{
}

/// The chunks that the search finds in a store, `distances` giving how far
/// each stored row is from the question. A search that the store refuses
/// finds nothing.
pub open spec fn found_rows(contents: Seq<ContentRow>, distances: Seq<u32>) -> Seq<ContentRow> {
    if distances.len() == contents.len() {
        rows_at(contents, nearest(distances, MIN_DISTANCE, MAX_DISTANCE, NEAREST_COUNT as nat))
    } else {
        Seq::empty()
    }
}

/// The endpoint row of a table, if it has one.
pub open spec fn endpoint_of(rows: Seq<EndpointRow>) -> Option<EndpointRow> {
    if rows_with_id(rows).len() > 0 {
        Some(rows_with_id(rows)[0])
    } else {
        None
    }
}

/// Whether the language model is called for the question: there is a
/// vector, a chunk was found, and there is an endpoint that may be called.
pub open spec fn asks_model(
    embedded: AppResult<Vec<EmbeddingResult>>,
    found: Seq<ContentRow>,
    endpoint: Option<EndpointRow>,
) -> bool {
    has_vector(embedded) && found.len() > 0 && endpoint is Some && endpoint->0.state
}

/// The answer to a question.
pub open spec fn answer_text(
    embedded: AppResult<Vec<EmbeddingResult>>,
    found: Seq<ContentRow>,
    endpoint: Option<EndpointRow>,
    completion: AppResult<String>,
) -> Seq<char> {
    if !has_vector(embedded) {
        NO_INPUT@
    } else if found.len() == 0 {
        NO_DATA@
    } else if asks_model(embedded, found, endpoint) && completion is Ok {
        completion->Ok_0@
    } else {
        markdown(found)
    }
}

/// The endpoint table after a question: the breaker is opened where the
/// language model was called and failed, and nothing is changed otherwise.
pub open spec fn endpoint_after(
    rows: Seq<EndpointRow>,
    embedded: AppResult<Vec<EmbeddingResult>>,
    found: Seq<ContentRow>,
    completion: AppResult<String>,
    now: i64,
) -> Seq<EndpointRow> {
    if asks_model(embedded, found, endpoint_of(rows)) && completion is Err {
        with_state(rows, false, now)
    } else {
        rows
    }
}

/// Answers a question on the stores in memory, at a given time.
/// `embedded` is what the embedding gives for the question, `distances`
/// how far each stored chunk is from it, and `completion` what the
/// language model gives if it is called.
pub fn rag_query_at(
    query: String,
    embedded: AppResult<Vec<EmbeddingResult>>,
    file_context: &FileContentsRepo,
    distances: &Vec<u32>,
    ai: &mut OpenAiRepo,
    completion: AppResult<String>,
    now: i64,
) -> (answer: String)
    ensures
        answer@ == answer_text(
            embedded,
            found_rows(file_context@, distances@),
            endpoint_of(old(ai)@),
            completion,
        ),
        final(ai)@ == endpoint_after(
            old(ai)@,
            embedded,
            found_rows(file_context@, distances@),
            completion,
            now,
        ),
{
    let (state, action) = start_query(query);
    let (state, action) = query_step_at(state, QueryEvent::Embedded(embedded), now);
    let found = match action {
        QueryAction::Answer(text) => {
            return text;
        },
        QueryAction::Search(ContentsStatement::FindSimilar { lower, upper, limit, .. }) => file_context.find_within(
            distances,
            lower,
            upper,
            limit,
        ),
        _ => {
            proof {
                assert(false);
            }
            unreached()
        },
    };
    assert(has_rows(found) ==> found->Ok_0@ == found_rows(file_context@, distances@));
    assert(!has_rows(found) ==> found_rows(file_context@, distances@).len() == 0);
    let (state, action) = query_step_at(state, QueryEvent::Found(found), now);
    let endpoint = match action {
        QueryAction::Answer(text) => {
            return text;
        },
        QueryAction::LoadEndpoint(_) => ai.query_id(),
        _ => {
            proof {
                assert(false);
            }
            unreached()
        },
    };
    assert(opt_row(endpoint) == endpoint_of(ai@));
    let (state, action) = query_step_at(state, QueryEvent::Endpoint(Ok(endpoint)), now);
    match action {
        QueryAction::Answer(text) => {
            return text;
        },
        QueryAction::Ask(_) => {},
        _ => {
            proof {
                assert(false);
            }
            unreached()
        },
    }
    let (state, action) = query_step_at(state, QueryEvent::Completed(completion), now);
    match action {
        QueryAction::Answer(text) => text,
        QueryAction::Degrade { breaker, answer } => {
            let saved = ai.execute(&breaker);
            answer
        },
        _ => {
            proof {
                assert(false);
            }
            unreached()
        },
    }
}

/// Answers a question on the stores in memory, at the time the clock
/// reads.
pub fn rag_query(
    query: String,
    embedded: AppResult<Vec<EmbeddingResult>>,
    file_context: &FileContentsRepo,
    distances: &Vec<u32>,
    ai: &mut OpenAiRepo,
    completion: AppResult<String>,
) -> (answer: String)
    ensures
        answer@ == answer_text(
            embedded,
            found_rows(file_context@, distances@),
            endpoint_of(old(ai)@),
            completion,
        ),
        exists|now: i64|
            final(ai)@ == #[trigger] endpoint_after(
                old(ai)@,
                embedded,
                found_rows(file_context@, distances@),
                completion,
                now,
            ),
{
    let now = unix_now();
    rag_query_at(query, embedded, file_context, distances, ai, completion, now)
}

/// With an endpoint that is disabled, or with none, the language model is
/// never called: the step that reads the endpoint ends the answering, and
/// the answer is the Markdown of the chunks that were found. The endpoint
/// table is left as it was.
pub proof fn lemma_disabled_endpoint_is_bypassed(
    question: String,
    records: FileContentRecords,
    endpoint: AppResult<Option<OpenAiRecord>>,
    now: i64,
    next: QueryState,
    action: QueryAction,
    rows: Seq<EndpointRow>,
    embedded: AppResult<Vec<EmbeddingResult>>,
    completion: AppResult<String>,
)
    requires
        !is_enabled(endpoint),
        is_query_step(
            QueryState::LoadingEndpoint { question, records },
            QueryEvent::Endpoint(endpoint),
            now,
            next,
            action,
        ),
        endpoint_of(rows) is None || !endpoint_of(rows)->0.state,
        has_vector(embedded),
        records@.len() > 0,
    ensures
        !(action is Ask),
        next is Done,
        answers(action, markdown(records@)),
        !asks_model(embedded, records@, endpoint_of(rows)),
        answer_text(embedded, records@, endpoint_of(rows), completion) == markdown(records@),
        endpoint_after(rows, embedded, records@, completion, now) == rows,
{
}

/// Where the language model is called and fails, the breaker opens: the
/// step that takes the failure asks for the endpoint to be disabled and
/// gives the Markdown of the chunks that were found as the answer, and
/// afterwards the endpoint row is disabled.
pub proof fn lemma_failure_opens_breaker(
    records: FileContentRecords,
    completion: AppResult<String>,
    now: i64,
    next: QueryState,
    action: QueryAction,
    rows: Seq<EndpointRow>,
    embedded: AppResult<Vec<EmbeddingResult>>,
)
    requires
        completion is Err,
        is_query_step(QueryState::Asking { records }, QueryEvent::Completed(completion), now, next, action),
        asks_model(embedded, records@, endpoint_of(rows)),
    ensures
        next is Done,
        degrades(action, now, markdown(records@)),
        action->Degrade_breaker.apply(rows) == endpoint_after(rows, embedded, records@, completion, now),
        answer_text(embedded, records@, endpoint_of(rows), completion) == markdown(records@),
        endpoint_after(rows, embedded, records@, completion, now).len() == rows.len(),
        forall|i: int|
            0 <= i < rows.len() && (#[trigger] rows[i]).id == ENDPOINT_ID ==> !endpoint_after(
                rows,
                embedded,
                records@,
                completion,
                now,
            )[i].state,
        endpoint_of(endpoint_after(rows, embedded, records@, completion, now)) is Some,
        !endpoint_of(endpoint_after(rows, embedded, records@, completion, now))->0.state,
{
    let after = endpoint_after(rows, embedded, records@, completion, now);
    let pred = |r: EndpointRow| r.id == ENDPOINT_ID;
    assert(after == with_state(rows, false, now));
    assert(rows_with_id(rows).len() > 0);
    // The row under the fixed id keeps its place and its id.
    let first = rows_with_id(rows)[0];
    assert(rows.filter(pred).contains(first));
    rows.lemma_filter_contains_rev(pred, first);
    rows.lemma_filter_pred(pred, 0);
    let k = choose|k: int| 0 <= k < rows.len() && rows[k] == first;
    assert(after[k].id == ENDPOINT_ID);
    after.lemma_filter_contains(pred, k);
    assert(rows_with_id(after).len() > 0);
    after.lemma_filter_pred(pred, 0);
    let kept = rows_with_id(after)[0];
    assert(after.filter(pred).contains(kept));
    after.lemma_filter_contains_rev(pred, kept);
    let m = choose|m: int| 0 <= m < after.len() && after[m] == kept;
    assert(rows[m].id == ENDPOINT_ID);
}

/// The breaker is sticky: whatever a question brings, it never enables
/// an endpoint. An endpoint that is disabled stays so until credentials
/// are saved.
pub proof fn lemma_breaker_is_sticky(
    rows: Seq<EndpointRow>,
    embedded: AppResult<Vec<EmbeddingResult>>,
    found: Seq<ContentRow>,
    completion: AppResult<String>,
    now: i64,
)
    ensures
        endpoint_after(rows, embedded, found, completion, now).len() == rows.len(),
        forall|i: int|
            0 <= i < rows.len() && !(#[trigger] rows[i]).state ==> !endpoint_after(
                rows,
                embedded,
                found,
                completion,
                now,
            )[i].state,
        endpoint_of(rows) is Some && !endpoint_of(rows)->0.state ==> endpoint_after(
            rows,
            embedded,
            found,
            completion,
            now,
        ) == rows,
{
}

/// No chunk that is farther from the question than the greatest distance
/// allowed is among the chunks found, whatever the store holds; at most
/// `NEAREST_COUNT` are found, and they come by ascending distance.
pub proof fn lemma_found_within_distance(contents: Seq<ContentRow>, distances: Seq<u32>)
    requires
        distances.len() == contents.len(),
    ensures
        found_rows(contents, distances).len() <= NEAREST_COUNT,
        forall|i: int|
            0 <= i < distances.len() && distances[i] > MAX_DISTANCE ==> !nearest(
                distances,
                MIN_DISTANCE,
                MAX_DISTANCE,
                NEAREST_COUNT as nat,
            ).contains(i),
        forall|k: int|
            0 <= k < found_rows(contents, distances).len() ==> {
                let i = #[trigger] nearest(distances, MIN_DISTANCE, MAX_DISTANCE, NEAREST_COUNT as nat)[k];
                &&& 0 <= i < contents.len()
                &&& distances[i] <= MAX_DISTANCE
                &&& found_rows(contents, distances)[k] == crate::storage::file_contents::as_read(contents[i])
            },
{
    lemma_nearest(distances, MIN_DISTANCE, MAX_DISTANCE, NEAREST_COUNT as nat);
}

} // verus!
