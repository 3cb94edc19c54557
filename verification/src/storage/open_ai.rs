//! The configuration of the language-model endpoint: a table that holds at
//! most one row, under a fixed id.

use crate::clock::unix_now;
use crate::errors::{AidenErrors, AppResult};
use crate::seqs::{first_n, lemma_filter_empty, lemma_filter_step};
use crate::storage::files::opt_text;
use crate::storage::{column_updates, ColumnUpdate, ColumnUpdateView};
use crate::text::{decimal, decimal_i64, quote, quoted};
use vstd::prelude::*;

verus! {

/// The id of the one row of the table.
pub const ENDPOINT_ID: i64 = 1;

/// The row that configures the endpoint.
#[derive(Debug)]
pub struct OpenAiRecord {
    pub id: i64,
    pub url: String,
    pub token: String,
    /// Whether the endpoint may be called.
    pub state: bool,
    pub time: i64,
}

/// An endpoint row as a mathematical value.
pub struct EndpointRow {
    pub id: i64,
    pub url: Seq<char>,
    pub token: Seq<char>,
    pub state: bool,
    pub time: i64,
}

impl View for OpenAiRecord {
    type V = EndpointRow;

    open spec fn view(&self) -> EndpointRow {
        EndpointRow { id: self.id, url: self.url@, token: self.token@, state: self.state, time: self.time }
    }
}

impl Clone for OpenAiRecord {
    fn clone(&self) -> (copy: Self)
        ensures
            copy@ == self@,
    {
        OpenAiRecord {
            id: self.id,
            url: self.url.clone(),
            token: self.token.clone(),
            state: self.state,
            time: self.time,
        }
    }
}

/// The rows that a sequence of records stands for.
pub open spec fn endpoint_rows(records: Seq<OpenAiRecord>) -> Seq<EndpointRow> {
    records.map_values(|r: OpenAiRecord| r@)
}

/// The view of an optional record.
pub open spec fn opt_row(record: Option<OpenAiRecord>) -> Option<EndpointRow> {
    match record {
        Some(r) => Some(r@),
        None => None,
    }
}

/// Rows read from the endpoint table.
#[derive(Debug)]
pub struct OpenAiRecords(pub Vec<OpenAiRecord>);

impl View for OpenAiRecords {
    type V = Seq<EndpointRow>;

    open spec fn view(&self) -> Seq<EndpointRow> {
        endpoint_rows(self.0@)
    }
}

impl std::ops::Deref for OpenAiRecords {
    type Target = Vec<OpenAiRecord>;

    fn deref(&self) -> (records: &Vec<OpenAiRecord>)
        ensures
            *records == self.0,
    {
        &self.0
    }
}

/// A batch of endpoint rows held column by column, as the table engine
/// takes and gives them.
#[derive(Debug)]
pub struct OpenAiRecordFields {
    pub ids: Vec<i64>,
    pub urls: Vec<String>,
    pub tokens: Vec<String>,
    pub states: Vec<bool>,
    pub times: Vec<i64>,
}

impl OpenAiRecordFields {
    /// All columns have one length.
    pub open spec fn wf(&self) -> bool {
        &&& self.urls@.len() == self.ids@.len()
        &&& self.tokens@.len() == self.ids@.len()
        &&& self.states@.len() == self.ids@.len()
        &&& self.times@.len() == self.ids@.len()
    }

    /// The rows of a well-formed batch.
    pub open spec fn rows(&self) -> Seq<EndpointRow>
        recommends
            self.wf(),
    {
        Seq::new(
            self.ids@.len(),
            |i: int|
                EndpointRow {
                    id: self.ids@[i],
                    url: self.urls@[i]@,
                    token: self.tokens@[i]@,
                    state: self.states@[i],
                    time: self.times@[i],
                },
        )
    }

    /// The batch that holds one record.
    pub fn single(record: OpenAiRecord) -> (fields: Self)
        ensures
            fields.wf(),
            fields.rows() == seq![record@],
    {
        let mut fields = OpenAiRecordFields {
            ids: Vec::new(),
            urls: Vec::new(),
            tokens: Vec::new(),
            states: Vec::new(),
            times: Vec::new(),
        };
        fields.ids.push(record.id);
        fields.urls.push(record.url);
        fields.tokens.push(record.token);
        fields.states.push(record.state);
        fields.times.push(record.time);
        assert(fields.rows() =~= seq![record@]);
        fields
    }

    /// Whether all columns have one length.
    pub fn is_well_formed(&self) -> (ok: bool)
        ensures
            ok == self.wf(),
    {
        let n = self.ids.len();
        self.urls.len() == n && self.tokens.len() == n && self.states.len() == n && self.times.len() == n
    }
}

impl OpenAiRecords {
    /// Turns a batch of columns into rows. A batch whose columns differ in
    /// length is refused.
    pub fn from_fields(fields: &OpenAiRecordFields) -> (result: AppResult<OpenAiRecords>)
        ensures
            fields.wf() ==> result is Ok && result->Ok_0@ == fields.rows(),
            !fields.wf() ==> result is Err && result->Err_0 is ArrowError,
    {
        if !fields.is_well_formed() {
            return Err(AidenErrors::ArrowError(String::from_str("all columns must have the same length")));
        }
        let mut records: Vec<OpenAiRecord> = Vec::new();
        let mut i: usize = 0;
        while i < fields.ids.len()
            invariant
                fields.wf(),
                i <= fields.ids.len(),
                endpoint_rows(records@) == fields.rows().take(i as int),
            decreases fields.ids.len() - i,
        {
            let record = OpenAiRecord {
                id: fields.ids[i],
                url: fields.urls[i].clone(),
                token: fields.tokens[i].clone(),
                state: fields.states[i],
                time: fields.times[i],
            };
            let ghost before = records@;
            let ghost row = record@;
            assert(row == fields.rows()[i as int]);
            records.push(record);
            assert(endpoint_rows(records@) =~= endpoint_rows(before).push(row));
            i = i + 1;
            assert(endpoint_rows(records@) =~= fields.rows().take(i as int));
        }
        assert(fields.rows().take(i as int) =~= fields.rows());
        Ok(OpenAiRecords(records))
    }
}

/// The rows under the fixed id.
pub open spec fn rows_with_id(rows: Seq<EndpointRow>) -> Seq<EndpointRow> {
    rows.filter(|r: EndpointRow| r.id == ENDPOINT_ID)
}

/// The rows whose endpoint may be called.
pub open spec fn available_rows(rows: Seq<EndpointRow>) -> Seq<EndpointRow> {
    rows.filter(|r: EndpointRow| r.state)
}

/// The rows after the row under the fixed id has taken new credentials:
/// it is enabled again.
pub open spec fn with_token(rows: Seq<EndpointRow>, url: Seq<char>, token: Seq<char>, time: i64) -> Seq<
    EndpointRow,
> {
    rows.map_values(
        |r: EndpointRow|
            if r.id == ENDPOINT_ID {
                EndpointRow { url, token, state: true, time, ..r }
            } else {
                r
            },
    )
}

/// The rows after the row under the fixed id has taken a new state.
pub open spec fn with_state(rows: Seq<EndpointRow>, state: bool, time: i64) -> Seq<EndpointRow> {
    rows.map_values(
        |r: EndpointRow|
            if r.id == ENDPOINT_ID {
                EndpointRow { state, time, ..r }
            } else {
                r
            },
    )
}

/// The row that a first save of credentials creates.
pub open spec fn first_row(url: Seq<char>, token: Seq<char>, time: i64) -> EndpointRow {
    EndpointRow { id: ENDPOINT_ID, url, token, state: true, time }
}

/// A statement on the endpoint table.
#[derive(Debug)]
pub enum OpenAiStatement {
    /// Append the row of the endpoint, enabled, under the fixed id.
    Add { url: String, token: String, time: i64 },
    /// Read every row.
    QueryAll,
    /// Read the row under the fixed id.
    QueryId,
    /// Read up to `limit` rows whose endpoint may be called.
    QueryAvailable { limit: usize },
    /// Give the row under the fixed id new credentials and enable it.
    UpdateToken { url: String, token: String, time: i64 },
    /// Give the row under the fixed id a new state.
    UpdateState { state: bool, time: i64 },
}

impl OpenAiStatement {
    /// The rows of the table after the statement.
    pub open spec fn apply(self, rows: Seq<EndpointRow>) -> Seq<EndpointRow> {
        match self {
            OpenAiStatement::Add { url, token, time } => rows.push(first_row(url@, token@, time)),
            OpenAiStatement::UpdateToken { url, token, time } => with_token(rows, url@, token@, time),
            OpenAiStatement::UpdateState { state, time } => with_state(rows, state, time),
            _ => rows,
        }
    }

    /// The rows that the statement reads from the table.
    pub open spec fn answer(self, rows: Seq<EndpointRow>) -> Seq<EndpointRow> {
        match self {
            OpenAiStatement::QueryAll => rows,
            OpenAiStatement::QueryId => first_n(rows_with_id(rows), 1),
            OpenAiStatement::QueryAvailable { limit } => first_n(available_rows(rows), limit as nat),
            _ => Seq::empty(),
        }
    }

    /// The filter that selects the rows the statement touches, in the
    /// filter language of the engine; none where it touches all rows.
    pub open spec fn filter_text(self) -> Option<Seq<char>> {
        match self {
            OpenAiStatement::QueryId => Some("id = 1"@),
            OpenAiStatement::QueryAvailable { .. } => Some("state = true"@),
            OpenAiStatement::UpdateToken { .. } => Some("id = 1"@),
            OpenAiStatement::UpdateState { .. } => Some("id = 1"@),
            _ => None,
        }
    }

    /// The column assignments of an update; none for other statements.
    pub open spec fn assignments(self) -> Seq<ColumnUpdateView> {
        match self {
            OpenAiStatement::UpdateToken { url, token, time } => seq![
                ColumnUpdateView { column: "url"@, expression: quoted(url@) },
                ColumnUpdateView { column: "state"@, expression: "true"@ },
                ColumnUpdateView { column: "token"@, expression: quoted(token@) },
                ColumnUpdateView { column: "time"@, expression: decimal(time as int) },
            ],
            OpenAiStatement::UpdateState { state, time } => seq![
                ColumnUpdateView {
                    column: "state"@,
                    expression: if state {
                        "true"@
                    } else {
                        "false"@
                    },
                },
                ColumnUpdateView { column: "time"@, expression: decimal(time as int) },
            ],
            _ => Seq::empty(),
        }
    }

    /// The statement that saves credentials: the first save creates the
    /// row, every later one updates it.
    pub fn save_token(exists: bool, url: &str, new_token: &str, now: i64) -> (statement: Self)
        ensures
            exists ==> statement is UpdateToken && statement->UpdateToken_url@ == url@
                && statement->UpdateToken_token@ == new_token@ && statement->UpdateToken_time == now,
            !exists ==> statement is Add && statement->Add_url@ == url@ && statement->Add_token@
                == new_token@ && statement->Add_time == now,
    {
        if exists {
            OpenAiStatement::UpdateToken {
                url: String::from_str(url),
                token: String::from_str(new_token),
                time: now,
            }
        } else {
            OpenAiStatement::Add { url: String::from_str(url), token: String::from_str(new_token), time: now }
        }
    }

    /// Writes the filter of the statement.
    pub fn filter(&self) -> (text: Option<String>)
        ensures
            opt_text(text) == self.filter_text(),
    {
        match self {
            OpenAiStatement::QueryId => Some(String::from_str("id = 1")),
            OpenAiStatement::QueryAvailable { .. } => Some(String::from_str("state = true")),
            OpenAiStatement::UpdateToken { .. } => Some(String::from_str("id = 1")),
            OpenAiStatement::UpdateState { .. } => Some(String::from_str("id = 1")),
            _ => None,
        }
    }

    /// Writes the column assignments of the statement.
    pub fn columns(&self) -> (updates: Vec<ColumnUpdate>)
        ensures
            column_updates(updates@) == self.assignments(),
    {
        let mut updates: Vec<ColumnUpdate> = Vec::new();
        match self {
            OpenAiStatement::UpdateToken { url, token, time } => {
                updates.push(ColumnUpdate { column: String::from_str("url"), expression: quote(url.as_str()) });
                updates.push(
                    ColumnUpdate { column: String::from_str("state"), expression: String::from_str("true") },
                );
                updates.push(
                    ColumnUpdate { column: String::from_str("token"), expression: quote(token.as_str()) },
                );
                updates.push(ColumnUpdate { column: String::from_str("time"), expression: decimal_i64(*time) });
            },
            OpenAiStatement::UpdateState { state, time } => {
                let expression = if *state {
                    String::from_str("true")
                } else {
                    String::from_str("false")
                };
                updates.push(ColumnUpdate { column: String::from_str("state"), expression });
                updates.push(ColumnUpdate { column: String::from_str("time"), expression: decimal_i64(*time) });
            },
            _ => {},
        }
        assert(column_updates(updates@) =~= self.assignments());
        updates
    }

    /// The greatest number of rows that the statement reads, where it
    /// sets one.
    pub fn limit(&self) -> (limit: Option<usize>)
        ensures
            limit == match *self {
                OpenAiStatement::QueryId => Some(1usize),
                OpenAiStatement::QueryAvailable { limit } => Some(limit),
                _ => None,
            },
    {
        match self {
            OpenAiStatement::QueryId => Some(1),
            OpenAiStatement::QueryAvailable { limit } => Some(*limit),
            _ => None,
        }
    }

    /// The batch of one row that an `Add` appends; none for other
    /// statements.
    pub fn batch(&self) -> (fields: Option<OpenAiRecordFields>)
        ensures
            self is Add <==> fields is Some,
            self is Add ==> fields->0.wf() && fields->0.rows() == seq![
                first_row(self->Add_url@, self->Add_token@, self->Add_time),
            ],
    {
        match self {
            OpenAiStatement::Add { url, token, time } => Some(
                OpenAiRecordFields::single(
                    OpenAiRecord {
                        id: ENDPOINT_ID,
                        url: url.clone(),
                        token: token.clone(),
                        state: true,
                        time: *time,
                    },
                ),
            ),
            _ => None,
        }
    }
}

/// The endpoint table, held in memory.
#[derive(Debug)]
pub struct OpenAiRepo {
    rows: Vec<OpenAiRecord>,
}

impl View for OpenAiRepo {
    type V = Seq<EndpointRow>;

    closed spec fn view(&self) -> Seq<EndpointRow> {
        endpoint_rows(self.rows@)
    }
}

impl OpenAiRepo {
    /// An empty table.
    pub fn new() -> (repo: Self)
        ensures
            repo@ == Seq::<EndpointRow>::empty(),
    {
        let repo = OpenAiRepo { rows: Vec::new() };
        assert(repo@ =~= Seq::<EndpointRow>::empty());
        repo
    }

    /// Appends the row of the endpoint, enabled, under the fixed id.
    pub fn insert_data_at(&mut self, url: String, token: String, now: i64)
        ensures
            final(self)@ == old(self)@.push(first_row(url@, token@, now)),
    {
        let record = OpenAiRecord { id: ENDPOINT_ID, url, token, state: true, time: now };
        let ghost before = self.rows@;
        let ghost row = record@;
        self.rows.push(record);
        assert(endpoint_rows(self.rows@) =~= endpoint_rows(before).push(row));
    }

    /// Reads every row, in storage order.
    pub fn query_all(&self) -> (records: Vec<OpenAiRecord>)
        ensures
            endpoint_rows(records@) == self@,
    {
        let mut records: Vec<OpenAiRecord> = Vec::new();
        let mut i: usize = 0;
        while i < self.rows.len()
            invariant
                i <= self.rows.len(),
                endpoint_rows(records@) == self@.take(i as int),
            decreases self.rows.len() - i,
        {
            let record = self.rows[i].clone();
            let ghost before = records@;
            let ghost row = record@;
            records.push(record);
            assert(endpoint_rows(records@) =~= endpoint_rows(before).push(row));
            i = i + 1;
            assert(endpoint_rows(records@) =~= self@.take(i as int));
        }
        assert(self@.take(i as int) =~= self@);
        records
    }

    /// Reads the first row under the fixed id, if there is one.
    pub fn query_id(&self) -> (record: Option<OpenAiRecord>)
        ensures
            rows_with_id(self@).len() == 0 ==> record is None,
            rows_with_id(self@).len() > 0 ==> record is Some && record->0@ == rows_with_id(self@)[0],
    {
        let ghost pred = |r: EndpointRow| r.id == ENDPOINT_ID;
        let mut i: usize = 0;
        proof {
            lemma_filter_empty(self@.take(0), pred);
        }
        while i < self.rows.len()
            invariant
                i <= self.rows.len(),
                pred == (|r: EndpointRow| r.id == ENDPOINT_ID),
                self@.take(i as int).filter(pred).len() == 0,
            decreases self.rows.len() - i,
        {
            proof {
                lemma_filter_step(self@, pred, i as int);
            }
            if self.rows[i].id == ENDPOINT_ID {
                proof {
                    let seen = self@.take(i as int + 1);
                    assert(self@ =~= seen + self@.skip(i as int + 1));
                    Seq::filter_distributes_over_add(seen, self@.skip(i as int + 1), pred);
                    assert(seen.filter(pred) =~= seq![self@[i as int]]);
                }
                return Some(self.rows[i].clone());
            }
            i = i + 1;
        }
        assert(self@.take(i as int) =~= self@);
        None
    }

    /// Reads up to `limit` rows whose endpoint may be called, in storage
    /// order.
    pub fn query_available(&self, limit: usize) -> (records: Vec<OpenAiRecord>)
        ensures
            endpoint_rows(records@) == first_n(available_rows(self@), limit as nat),
    {
        let ghost pred = |r: EndpointRow| r.state;
        let mut records: Vec<OpenAiRecord> = Vec::new();
        let mut i: usize = 0;
        proof {
            lemma_filter_empty(self@.take(0), pred);
        }
        while i < self.rows.len() && records.len() < limit
            invariant
                i <= self.rows.len(),
                records.len() <= limit,
                pred == (|r: EndpointRow| r.state),
                endpoint_rows(records@) == self@.take(i as int).filter(pred),
            decreases self.rows.len() - i,
        {
            proof {
                lemma_filter_step(self@, pred, i as int);
            }
            if self.rows[i].state {
                let record = self.rows[i].clone();
                let ghost before = records@;
                let ghost row = record@;
                records.push(record);
                assert(endpoint_rows(records@) =~= endpoint_rows(before).push(row));
            }
            i = i + 1;
        }
        proof {
            let all = self@.filter(pred);
            let seen = self@.take(i as int).filter(pred);
            assert(self@ =~= self@.take(i as int) + self@.skip(i as int));
            Seq::filter_distributes_over_add(self@.take(i as int), self@.skip(i as int), pred);
            assert(all =~= seen + self@.skip(i as int).filter(pred));
            if i == self.rows.len() {
                lemma_filter_empty(self@.skip(i as int), pred);
                assert(all =~= seen);
            } else {
                assert(all.take(limit as int) =~= seen);
            }
        }
        records
    }

    /// Saves credentials: the first save creates the row, every later one
    /// gives it the new credentials and enables it.
    pub fn update_insert_token_at(&mut self, url: &str, new_token: &str, now: i64)
        ensures
            rows_with_id(old(self)@).len() == 0 ==> final(self)@ == old(self)@.push(
                first_row(url@, new_token@, now),
            ),
            rows_with_id(old(self)@).len() > 0 ==> final(self)@ == with_token(
                old(self)@,
                url@,
                new_token@,
                now,
            ),
    {
        let exists = self.query_id().is_some();
        if exists {
            self.update_token_at(url, new_token, now);
        } else {
            self.insert_data_at(String::from_str(url), String::from_str(new_token), now);
        }
    }

    /// Gives the row under the fixed id new credentials and enables it.
    pub fn update_token_at(&mut self, url: &str, new_token: &str, now: i64)
        ensures
            final(self)@ == with_token(old(self)@, url@, new_token@, now),
    {
        let mut rows: Vec<OpenAiRecord> = Vec::new();
        let mut i: usize = 0;
        while i < self.rows.len()
            invariant
                i <= self.rows.len(),
                endpoint_rows(rows@) == with_token(self@, url@, new_token@, now).take(i as int),
            decreases self.rows.len() - i,
        {
            let record = if self.rows[i].id == ENDPOINT_ID {
                OpenAiRecord {
                    id: self.rows[i].id,
                    url: String::from_str(url),
                    token: String::from_str(new_token),
                    state: true,
                    time: now,
                }
            } else {
                self.rows[i].clone()
            };
            let ghost before = rows@;
            let ghost row = record@;
            rows.push(record);
            assert(endpoint_rows(rows@) =~= endpoint_rows(before).push(row));
            i = i + 1;
            assert(endpoint_rows(rows@) =~= with_token(self@, url@, new_token@, now).take(i as int));
        }
        assert(endpoint_rows(rows@) =~= with_token(self@, url@, new_token@, now));
        self.rows = rows;
    }

    /// Gives the row under the fixed id a new state.
    pub fn update_state_at(&mut self, state: bool, now: i64)
        ensures
            final(self)@ == with_state(old(self)@, state, now),
    {
        let mut rows: Vec<OpenAiRecord> = Vec::new();
        let mut i: usize = 0;
        while i < self.rows.len()
            invariant
                i <= self.rows.len(),
                endpoint_rows(rows@) == with_state(self@, state, now).take(i as int),
            decreases self.rows.len() - i,
        {
            let mut record = self.rows[i].clone();
            if record.id == ENDPOINT_ID {
                record.state = state;
                record.time = now;
            }
            let ghost before = rows@;
            let ghost row = record@;
            rows.push(record);
            assert(endpoint_rows(rows@) =~= endpoint_rows(before).push(row));
            i = i + 1;
            assert(endpoint_rows(rows@) =~= with_state(self@, state, now).take(i as int));
        }
        assert(endpoint_rows(rows@) =~= with_state(self@, state, now));
        self.rows = rows;
    }

    /// Appends the row of the endpoint at the time the clock reads.
    pub fn insert_data(&mut self, url: String, token: String) -> (result: AppResult<()>)
        ensures
            result is Ok,
            exists|now: i64| final(self)@ == old(self)@.push(#[trigger] first_row(url@, token@, now)),
    {
        let now = unix_now();
        self.insert_data_at(url, token, now);
        Ok(())
    }

    /// Saves credentials at the time the clock reads.
    pub fn update_insert_token(&mut self, url: &str, new_token: &str) -> (result: AppResult<()>)
        ensures
            result is Ok,
            rows_with_id(old(self)@).len() == 0 ==> exists|now: i64|
                final(self)@ == old(self)@.push(#[trigger] first_row(url@, new_token@, now)),
            rows_with_id(old(self)@).len() > 0 ==> exists|now: i64|
                final(self)@ == #[trigger] with_token(old(self)@, url@, new_token@, now),
    {
        let now = unix_now();
        self.update_insert_token_at(url, new_token, now);
        Ok(())
    }

    /// Gives the row under the fixed id new credentials at the time the
    /// clock reads.
    pub fn update_token(&mut self, url: &str, new_token: &str) -> (result: AppResult<()>)
        ensures
            result is Ok,
            exists|now: i64| final(self)@ == #[trigger] with_token(old(self)@, url@, new_token@, now),
    {
        let now = unix_now();
        self.update_token_at(url, new_token, now);
        Ok(())
    }

    /// Gives the row under the fixed id a new state at the time the clock
    /// reads.
    pub fn update_state(&mut self, state: bool) -> (result: AppResult<()>)
        ensures
            result is Ok,
            exists|now: i64| final(self)@ == #[trigger] with_state(old(self)@, state, now),
    {
        let now = unix_now();
        self.update_state_at(state, now);
        Ok(())
    }

    /// Runs one statement on the table and returns the rows it reads.
    pub fn execute(&mut self, statement: &OpenAiStatement) -> (records: OpenAiRecords)
        ensures
            final(self)@ == statement.apply(old(self)@),
            records@ == statement.answer(old(self)@),
    {
        match statement {
            OpenAiStatement::Add { url, token, time } => {
                self.insert_data_at(url.clone(), token.clone(), *time);
                OpenAiRecords(Vec::new())
            },
            OpenAiStatement::QueryAll => OpenAiRecords(self.query_all()),
            OpenAiStatement::QueryId => {
                let mut found: Vec<OpenAiRecord> = Vec::new();
                match self.query_id() {
                    Some(record) => {
                        let ghost row = record@;
                        found.push(record);
                        assert(endpoint_rows(found@) =~= seq![row]);
                        assert(first_n(rows_with_id(self@), 1) =~= seq![row]);
                    },
                    None => {
                        assert(endpoint_rows(found@) =~= first_n(rows_with_id(self@), 1));
                    },
                }
                OpenAiRecords(found)
            },
            OpenAiStatement::QueryAvailable { limit } => OpenAiRecords(self.query_available(*limit)),
            OpenAiStatement::UpdateToken { url, token, time } => {
                self.update_token_at(url.as_str(), token.as_str(), *time);
                OpenAiRecords(Vec::new())
            },
            OpenAiStatement::UpdateState { state, time } => {
                self.update_state_at(*state, *time);
                OpenAiRecords(Vec::new())
            },
        }
    }
}

/// Whether the table holds at most one row, and that under the fixed id.
pub open spec fn at_most_one(rows: Seq<EndpointRow>) -> bool {
    rows.len() <= 1 && forall|i: int| 0 <= i < rows.len() ==> (#[trigger] rows[i]).id == ENDPOINT_ID
}

/// The statement that a save of credentials runs on a table.
pub open spec fn save_statement(rows: Seq<EndpointRow>, url: String, token: String, time: i64) -> OpenAiStatement {
    if rows_with_id(rows).len() > 0 {
        OpenAiStatement::UpdateToken { url, token, time }
    } else {
        OpenAiStatement::Add { url, token, time }
    }
}

/// A table of at most one row stays one when credentials are saved and
/// when the state is set, and after a save it holds exactly one row, which
/// is enabled and carries the credentials saved.
pub proof fn lemma_at_most_one_row(rows: Seq<EndpointRow>, url: String, token: String, state: bool, time: i64)
    requires
        at_most_one(rows),
    ensures
        at_most_one(save_statement(rows, url, token, time).apply(rows)),
        save_statement(rows, url, token, time).apply(rows) == seq![first_row(url@, token@, time)],
        at_most_one((OpenAiStatement::UpdateState { state, time }).apply(rows)),
{
    let pred = |r: EndpointRow| r.id == ENDPOINT_ID;
    let saved = save_statement(rows, url, token, time).apply(rows);
    if rows.len() == 0 {
        lemma_filter_empty(rows, pred);
        assert(saved =~= seq![first_row(url@, token@, time)]);
    } else {
        assert(rows =~= rows.take(0).push(rows[0]));
        lemma_filter_empty(rows.take(0), pred);
        lemma_filter_step(rows, pred, 0);
        assert(rows.take(1) =~= rows);
        assert(rows_with_id(rows).len() == 1);
        assert(saved =~= seq![first_row(url@, token@, time)]);
    }
}

} // verus!
