//! The file catalog: one row per path submitted for indexing.

use crate::clock::unix_now;
use crate::errors::{AidenErrors, AppResult};
use crate::seqs::{first_n, lemma_filter_empty, lemma_filter_step};
use crate::storage::{column_updates, ColumnUpdate, ColumnUpdateView};
use crate::text::{decimal, decimal_i64, decimal_u64, quote, quoted};
use vstd::prelude::*;

verus! {

/// Progress of a file that waits for its embeddings.
pub const PROGRESS_PENDING: u32 = 0;

/// Progress of a file whose chunks are all stored.
pub const PROGRESS_COMPLETE: u32 = 100;

/// One catalog row.
#[derive(Debug)]
pub struct FileRecord {
    pub name: String,
    pub file_path: String,
    /// Absent for directories.
    pub file_type: Option<String>,
    pub add_time: i64,
    pub sync_time: i64,
    pub progress: u32,
}

/// A catalog row as a mathematical value.
pub struct FileRow {
    pub name: Seq<char>,
    pub file_path: Seq<char>,
    pub file_type: Option<Seq<char>>,
    pub add_time: i64,
    pub sync_time: i64,
    pub progress: u32,
}

/// The view of an optional string.
pub open spec fn opt_text(s: Option<String>) -> Option<Seq<char>> {
    match s {
        Some(t) => Some(t@),
        None => None,
    }
}

impl View for FileRecord {
    type V = FileRow;

    open spec fn view(&self) -> FileRow {
        FileRow {
            name: self.name@,
            file_path: self.file_path@,
            file_type: opt_text(self.file_type),
            add_time: self.add_time,
            sync_time: self.sync_time,
            progress: self.progress,
        }
    }
}

impl Clone for FileRecord {
    fn clone(&self) -> (copy: Self)
        ensures
            copy@ == self@,
    {
        let file_type = match &self.file_type {
            Some(t) => Some(t.clone()),
            None => None,
        };
        FileRecord {
            name: self.name.clone(),
            file_path: self.file_path.clone(),
            file_type,
            add_time: self.add_time,
            sync_time: self.sync_time,
            progress: self.progress,
        }
    }
}

/// The rows that a sequence of records stands for.
pub open spec fn file_rows(records: Seq<FileRecord>) -> Seq<FileRow> {
    records.map_values(|r: FileRecord| r@)
}

/// Rows read from the catalog, in storage order.
#[derive(Debug)]
pub struct FileRecords(pub Vec<FileRecord>);

impl View for FileRecords {
    type V = Seq<FileRow>;

    open spec fn view(&self) -> Seq<FileRow> {
        file_rows(self.0@)
    }
}

impl std::ops::Deref for FileRecords {
    type Target = Vec<FileRecord>;

    fn deref(&self) -> (records: &Vec<FileRecord>)
        ensures
            *records == self.0,
    {
        &self.0
    }
}

/// A batch of catalog rows held column by column, as the table engine
/// takes and gives them.
#[derive(Debug)]
pub struct FileRecordFields {
    pub names: Vec<String>,
    pub file_paths: Vec<String>,
    pub file_types: Vec<Option<String>>,
    pub add_times: Vec<i64>,
    pub sync_times: Vec<i64>,
    pub progresses: Vec<u32>,
}

impl FileRecordFields {
    /// All columns have one length.
    pub open spec fn wf(&self) -> bool {
        &&& self.file_paths@.len() == self.names@.len()
        &&& self.file_types@.len() == self.names@.len()
        &&& self.add_times@.len() == self.names@.len()
        &&& self.sync_times@.len() == self.names@.len()
        &&& self.progresses@.len() == self.names@.len()
    }

    /// The rows of a well-formed batch.
    pub open spec fn rows(&self) -> Seq<FileRow>
        recommends
            self.wf(),
    {
        Seq::new(
            self.names@.len(),
            |i: int|
                FileRow {
                    name: self.names@[i]@,
                    file_path: self.file_paths@[i]@,
                    file_type: opt_text(self.file_types@[i]),
                    add_time: self.add_times@[i],
                    sync_time: self.sync_times@[i],
                    progress: self.progresses@[i],
                },
        )
    }

    /// The empty batch.
    pub fn new() -> (fields: Self)
        ensures
            fields.wf(),
            fields.rows() == Seq::<FileRow>::empty(),
    {
        let fields = FileRecordFields {
            names: Vec::new(),
            file_paths: Vec::new(),
            file_types: Vec::new(),
            add_times: Vec::new(),
            sync_times: Vec::new(),
            progresses: Vec::new(),
        };
        assert(fields.rows() =~= Seq::<FileRow>::empty());
        fields
    }

    /// Adds one row at the end of the batch.
    pub fn push(&mut self, record: FileRecord)
        requires
            old(self).wf(),
        ensures
            final(self).wf(),
            final(self).rows() == old(self).rows().push(record@),
    {
        self.names.push(record.name);
        self.file_paths.push(record.file_path);
        self.file_types.push(record.file_type);
        self.add_times.push(record.add_time);
        self.sync_times.push(record.sync_time);
        self.progresses.push(record.progress);
        assert(self.rows() =~= old(self).rows().push(record@));
    }

    /// The batch that holds the given records, in their order.
    pub fn from_records(records: &Vec<FileRecord>) -> (fields: Self)
        ensures
            fields.wf(),
            fields.rows() == file_rows(records@),
    {
        let mut fields = FileRecordFields::new();
        let mut i: usize = 0;
        while i < records.len()
            invariant
                i <= records.len(),
                fields.wf(),
                fields.rows() == file_rows(records@).take(i as int),
            decreases records.len() - i,
        {
            fields.push(records[i].clone());
            i = i + 1;
            assert(fields.rows() =~= file_rows(records@).take(i as int));
        }
        assert(file_rows(records@).take(i as int) =~= file_rows(records@));
        fields
    }

    /// Whether all columns have one length.
    pub fn is_well_formed(&self) -> (ok: bool)
        ensures
            ok == self.wf(),
    {
        let n = self.names.len();
        self.file_paths.len() == n && self.file_types.len() == n && self.add_times.len() == n
            && self.sync_times.len() == n && self.progresses.len() == n
    }
}

impl FileRecords {
    /// Turns a batch of columns into rows. A batch whose columns differ in
    /// length is refused.
    pub fn from_fields(fields: &FileRecordFields) -> (result: AppResult<FileRecords>)
        ensures
            fields.wf() ==> result is Ok && result->Ok_0@ == fields.rows(),
            !fields.wf() ==> result is Err && result->Err_0 is ArrowError,
    {
        if !fields.is_well_formed() {
            return Err(AidenErrors::ArrowError(String::from_str("all columns must have the same length")));
        }
        let mut records: Vec<FileRecord> = Vec::new();
        let mut i: usize = 0;
        while i < fields.names.len()
            invariant
                fields.wf(),
                i <= fields.names.len(),
                file_rows(records@) == fields.rows().take(i as int),
            decreases fields.names.len() - i,
        {
            let file_type = match &fields.file_types[i] {
                Some(t) => Some(t.clone()),
                None => None,
            };
            let record = FileRecord {
                name: fields.names[i].clone(),
                file_path: fields.file_paths[i].clone(),
                file_type,
                add_time: fields.add_times[i],
                sync_time: fields.sync_times[i],
                progress: fields.progresses[i],
            };
            let ghost before = records@;
            let ghost row = record@;
            assert(row == fields.rows()[i as int]);
            records.push(record);
            assert(file_rows(records@) =~= file_rows(before).push(row));
            i = i + 1;
            assert(file_rows(records@) =~= fields.rows().take(i as int));
        }
        assert(fields.rows().take(i as int) =~= fields.rows());
        Ok(FileRecords(records))
    }
}

/// A path submitted for indexing, with what the filesystem says of it.
#[derive(Debug)]
pub struct SyncItem {
    pub path: String,
    /// Whether the path names a regular file.
    pub is_file: bool,
}

/// The catalog row of a path that has just been submitted: it waits for
/// its embeddings and was never synchronised. Its name is the last
/// component of the path, or the whole path where it has none; only a
/// regular file has a type, its extension.
pub open spec fn pending_row(
    path: Seq<char>,
    file_name: Option<Seq<char>>,
    extension: Option<Seq<char>>,
    is_file: bool,
    now: i64,
) -> FileRow {
    FileRow {
        name: match file_name {
            Some(n) => n,
            None => path,
        },
        file_path: path,
        file_type: if is_file {
            extension
        } else {
            None
        },
        add_time: now,
        sync_time: 0,
        progress: PROGRESS_PENDING,
    }
}

/// Whether a row is the catalog row of an item submitted at the given
/// time, whatever the last component and the extension of its path are.
pub open spec fn is_pending_row(row: FileRow, item: SyncItem, now: i64) -> bool {
    exists|file_name: Option<Seq<char>>, extension: Option<Seq<char>>|
        row == #[trigger] pending_row(item.path@, file_name, extension, item.is_file, now)
}

/// `Path::file_name` of std: the last component of the path, if it has
/// one. What counts as a component depends on the platform, so nothing is
/// stated of the result.
#[verifier::external_body]
fn path_file_name(path: &str) -> (name: Option<String>) {
    std::path::Path::new(path).file_name().map(|n| n.to_string_lossy().to_string())
}

/// `Path::extension` of std: the extension of the last component of the
/// path, if it has one. Nothing is stated of the result.
#[verifier::external_body]
fn path_extension(path: &str) -> (extension: Option<String>) {
    std::path::Path::new(path).extension().map(|e| e.to_string_lossy().to_string())
}

impl FileRecord {
    /// The catalog row of a path that has just been submitted, from the
    /// parts of the path.
    pub fn pending(
        path: String,
        file_name: Option<String>,
        extension: Option<String>,
        is_file: bool,
        now: i64,
    ) -> (record: Self)
        ensures
            record@ == pending_row(path@, opt_text(file_name), opt_text(extension), is_file, now),
    {
        let name = match file_name {
            Some(n) => n,
            None => path.clone(),
        };
        let file_type = if is_file {
            extension
        } else {
            None
        };
        FileRecord { name, file_path: path, file_type, add_time: now, sync_time: 0, progress: PROGRESS_PENDING }
    }

    /// The catalog row of an item that has just been submitted.
    pub fn of_item(item: &SyncItem, now: i64) -> (record: Self)
        ensures
            is_pending_row(record@, *item, now),
    {
        let file_name = path_file_name(item.path.as_str());
        let extension = path_extension(item.path.as_str());
        let record = FileRecord::pending(item.path.clone(), file_name, extension, item.is_file, now);
        assert(record@ == pending_row(item.path@, opt_text(file_name), opt_text(extension), item.is_file, now));
        record
    }
}

/// Whether the rows are the catalog rows of the items, in their order.
pub open spec fn are_pending_rows(rows: Seq<FileRow>, items: Seq<SyncItem>, now: i64) -> bool {
    &&& rows.len() == items.len()
    &&& forall|i: int| 0 <= i < rows.len() ==> is_pending_row(#[trigger] rows[i], items[i], now)
}

impl FileRecordFields {
    /// The batch that enters the submitted items into the catalog.
    pub fn pending(items: &Vec<SyncItem>, now: i64) -> (fields: Self)
        ensures
            fields.wf(),
            are_pending_rows(fields.rows(), items@, now),
    {
        let mut fields = FileRecordFields::new();
        let mut i: usize = 0;
        while i < items.len()
            invariant
                i <= items.len(),
                fields.wf(),
                are_pending_rows(fields.rows(), items@.take(i as int), now),
            decreases items.len() - i,
        {
            let record = FileRecord::of_item(&items[i], now);
            let ghost before = fields.rows();
            fields.push(record);
            i = i + 1;
            assert forall|k: int| 0 <= k < fields.rows().len() implies is_pending_row(
                #[trigger] fields.rows()[k],
                items@.take(i as int)[k],
                now,
            ) by {
                if k < before.len() {
                    assert(fields.rows()[k] == before[k]);
                    assert(items@.take(i as int)[k] == items@.take(i as int - 1)[k]);
                }
            }
        }
        assert(items@.take(i as int) =~= items@);
        fields
    }
}

/// The rows that wait for their embeddings.
pub open spec fn pending_rows(rows: Seq<FileRow>) -> Seq<FileRow> {
    rows.filter(|r: FileRow| r.progress == PROGRESS_PENDING)
}

/// The rows after every row of the given path has taken a new progress and
/// a new synchronisation time.
pub open spec fn with_progress(
    rows: Seq<FileRow>,
    file_path: Seq<char>,
    progress: u32,
    sync_time: i64,
) -> Seq<FileRow> {
    rows.map_values(
        |r: FileRow|
            if r.file_path == file_path {
                FileRow { progress, sync_time, ..r }
            } else {
                r
            },
    )
}

/// The rows that are left when every row of the given path is removed.
pub open spec fn without_path(rows: Seq<FileRow>, file_path: Seq<char>) -> Seq<FileRow> {
    rows.filter(|r: FileRow| r.file_path != file_path)
}

/// A statement on the file catalog.
#[derive(Debug)]
pub enum FilesStatement {
    /// Append a batch of rows.
    Add(FileRecordFields),
    /// Read every row.
    QueryAll,
    /// Read up to `limit` rows whose progress is zero.
    QueryProgressZero { limit: usize },
    /// Set progress and synchronisation time on every row of a path.
    UpdateProgressAndSyncTime { file_path: String, progress: u32, sync_time: i64 },
    /// Remove every row of a path.
    DeleteBy { file_path: String },
    /// Compact the table.
    Optimize,
}

impl FilesStatement {
    /// Whether the engine refuses the statement.
    pub open spec fn refused(self) -> bool {
        match self {
            FilesStatement::Add(fields) => !fields.wf(),
            _ => false,
        }
    }

    /// The rows of the table after the statement.
    pub open spec fn apply(self, rows: Seq<FileRow>) -> Seq<FileRow> {
        match self {
            FilesStatement::Add(fields) => if fields.wf() {
                rows + fields.rows()
            } else {
                rows
            },
            FilesStatement::UpdateProgressAndSyncTime { file_path, progress, sync_time } => with_progress(
                rows,
                file_path@,
                progress,
                sync_time,
            ),
            FilesStatement::DeleteBy { file_path } => without_path(rows, file_path@),
            _ => rows,
        }
    }

    /// The rows that the statement reads from the table.
    pub open spec fn answer(self, rows: Seq<FileRow>) -> Seq<FileRow> {
        match self {
            FilesStatement::QueryAll => rows,
            FilesStatement::QueryProgressZero { limit } => first_n(pending_rows(rows), limit as nat),
            _ => Seq::empty(),
        }
    }

    /// The filter that selects the rows the statement touches, in the
    /// filter language of the engine; none where it touches all rows.
    pub open spec fn filter_text(self) -> Option<Seq<char>> {
        match self {
            FilesStatement::QueryProgressZero { .. } => Some("progress = 0"@),
            FilesStatement::UpdateProgressAndSyncTime { file_path, .. } => Some(
                "file_path = "@ + quoted(file_path@),
            ),
            FilesStatement::DeleteBy { file_path } => Some("file_path = "@ + quoted(file_path@)),
            _ => None,
        }
    }

    /// The column assignments of an update; none for other statements.
    pub open spec fn assignments(self) -> Seq<ColumnUpdateView> {
        match self {
            FilesStatement::UpdateProgressAndSyncTime { progress, sync_time, .. } => seq![
                ColumnUpdateView { column: "progress"@, expression: decimal(progress as int) },
                ColumnUpdateView { column: "sync_time"@, expression: decimal(sync_time as int) },
            ],
            _ => Seq::empty(),
        }
    }

    /// Writes the filter of the statement.
    pub fn filter(&self) -> (text: Option<String>)
        ensures
            opt_text(text) == self.filter_text(),
    {
        match self {
            FilesStatement::QueryProgressZero { .. } => Some(String::from_str("progress = 0")),
            FilesStatement::UpdateProgressAndSyncTime { file_path, .. } => Some(path_filter(file_path)),
            FilesStatement::DeleteBy { file_path } => Some(path_filter(file_path)),
            _ => None,
        }
    }

    /// Writes the column assignments of the statement.
    pub fn columns(&self) -> (updates: Vec<ColumnUpdate>)
        ensures
            column_updates(updates@) == self.assignments(),
    {
        let mut updates: Vec<ColumnUpdate> = Vec::new();
        match self {
            FilesStatement::UpdateProgressAndSyncTime { progress, sync_time, .. } => {
                updates.push(
                    ColumnUpdate {
                        column: String::from_str("progress"),
                        expression: decimal_u64(*progress as u64),
                    },
                );
                updates.push(
                    ColumnUpdate {
                        column: String::from_str("sync_time"),
                        expression: decimal_i64(*sync_time),
                    },
                );
            },
            _ => {},
        }
        assert(column_updates(updates@) =~= self.assignments());
        updates
    }

    /// The greatest number of rows that the statement reads, where it
    /// sets one.
    pub fn limit(&self) -> (limit: Option<usize>)
        ensures
            limit == match *self {
                FilesStatement::QueryProgressZero { limit } => Some(limit),
                _ => None,
            },
    {
        match self {
            FilesStatement::QueryProgressZero { limit } => Some(*limit),
            _ => None,
        }
    }
}

/// Writes the filter that selects the rows of one path.
fn path_filter(file_path: &String) -> (text: String)
    ensures
        text@ == "file_path = "@ + quoted(file_path@),
{
    let mut text = String::from_str("file_path = ");
    let literal = quote(file_path.as_str());
    text.append(literal.as_str());
    text
}

/// The file catalog, held in memory.
#[derive(Debug)]
pub struct FilesRepo {
    rows: Vec<FileRecord>,
}

impl View for FilesRepo {
    type V = Seq<FileRow>;

    closed spec fn view(&self) -> Seq<FileRow> {
        file_rows(self.rows@)
    }
}

impl FilesRepo {
    /// An empty catalog.
    pub fn new() -> (repo: Self)
        ensures
            repo@ == Seq::<FileRow>::empty(),
    {
        let repo = FilesRepo { rows: Vec::new() };
        assert(repo@ =~= Seq::<FileRow>::empty());
        repo
    }

    /// Reads every row, in storage order.
    pub fn query_all(&self) -> (records: Vec<FileRecord>)
        ensures
            file_rows(records@) == self@,
    {
        let mut records: Vec<FileRecord> = Vec::new();
        let mut i: usize = 0;
        while i < self.rows.len()
            invariant
                i <= self.rows.len(),
                file_rows(records@) == self@.take(i as int),
            decreases self.rows.len() - i,
        {
            let record = self.rows[i].clone();
            let ghost before = records@;
            let ghost row = record@;
            records.push(record);
            assert(file_rows(records@) =~= file_rows(before).push(row));
            i = i + 1;
            assert(file_rows(records@) =~= self@.take(i as int));
        }
        assert(self@.take(i as int) =~= self@);
        records
    }

    /// Reads up to `limit` rows whose progress is zero, in storage order.
    pub fn query_progress_zero(&self, limit: usize) -> (records: Vec<FileRecord>)
        ensures
            file_rows(records@) == first_n(pending_rows(self@), limit as nat),
    {
        let ghost pred = |r: FileRow| r.progress == PROGRESS_PENDING;
        let mut records: Vec<FileRecord> = Vec::new();
        let mut i: usize = 0;
        proof {
            lemma_filter_empty(self@.take(0), pred);
        }
        while i < self.rows.len() && records.len() < limit
            invariant
                i <= self.rows.len(),
                records.len() <= limit,
                pred == (|r: FileRow| r.progress == PROGRESS_PENDING),
                file_rows(records@) == self@.take(i as int).filter(pred),
            decreases self.rows.len() - i,
        {
            proof {
                lemma_filter_step(self@, pred, i as int);
            }
            if self.rows[i].progress == PROGRESS_PENDING {
                let record = self.rows[i].clone();
                let ghost before = records@;
                let ghost row = record@;
                records.push(record);
                assert(file_rows(records@) =~= file_rows(before).push(row));
            }
            i = i + 1;
        }
        proof {
            let all = self@.filter(pred);
            let seen = self@.take(i as int).filter(pred);
            assert(self@ =~= self@.take(i as int) + self@.skip(i as int));
            Seq::filter_distributes_over_add(self@.take(i as int), self@.skip(i as int), pred);
            assert(all =~= seen + self@.skip(i as int).filter(pred));
            if i == self.rows.len() {
                assert(self@.skip(i as int).len() == 0);
                lemma_filter_empty(self@.skip(i as int), pred);
                assert(all =~= seen);
            } else {
                assert(seen.len() == limit);
                assert(all.take(limit as int) =~= seen);
            }
        }
        records
    }

    /// Appends a batch of rows. A batch whose columns differ in length is
    /// refused and leaves the catalog as it was.
    pub fn add(&mut self, fields: &FileRecordFields) -> (result: AppResult<()>)
        ensures
            fields.wf() ==> result is Ok && final(self)@ == old(self)@ + fields.rows(),
            !fields.wf() ==> result is Err && result->Err_0 is ArrowError && final(self)@ == old(
                self,
            )@,
    {
        match FileRecords::from_fields(fields) {
            Err(e) => Err(e),
            Ok(batch) => {
                let mut records = batch.0;
                let ghost added = records@;
                let ghost before = self.rows@;
                self.rows.append(&mut records);
                assert(file_rows(self.rows@) =~= file_rows(before) + file_rows(added));
                Ok(())
            },
        }
    }

    /// Enters the submitted items into the catalog, each as a row that
    /// waits for its embeddings.
    pub fn insert_data_at(&mut self, paths: &Vec<SyncItem>, now: i64)
        ensures
            final(self)@.len() == old(self)@.len() + paths@.len(),
            final(self)@.take(old(self)@.len() as int) == old(self)@,
            are_pending_rows(final(self)@.skip(old(self)@.len() as int), paths@, now),
    {
        let fields = FileRecordFields::pending(paths, now);
        let added = self.add(&fields);
        assert(self@.take(old(self)@.len() as int) =~= old(self)@);
        assert(self@.skip(old(self)@.len() as int) =~= fields.rows());
    }

    /// Enters the submitted items into the catalog at the time the clock
    /// reads.
    pub fn insert_data(&mut self, paths: Vec<SyncItem>) -> (result: AppResult<()>)
        ensures
            result is Ok,
            final(self)@.len() == old(self)@.len() + paths@.len(),
            final(self)@.take(old(self)@.len() as int) == old(self)@,
            exists|now: i64| #[trigger]
                are_pending_rows(final(self)@.skip(old(self)@.len() as int), paths@, now),
    {
        let now = unix_now();
        self.insert_data_at(&paths, now);
        Ok(())
    }

    /// Sets the progress of every row of a path, and as its synchronisation
    /// time the time the clock reads.
    pub fn update_progress_and_sync_time(&mut self, file_path: &str, new_progress: u32) -> (result: AppResult<
        (),
    >)
        ensures
            result is Ok,
            exists|now: i64| final(self)@ == #[trigger] with_progress(old(self)@, file_path@, new_progress, now),
    {
        let now = unix_now();
        self.update_progress_and_sync_time_at(file_path, new_progress, now);
        Ok(())
    }

    /// Sets progress and synchronisation time on every row of a path.
    pub fn update_progress_and_sync_time_at(&mut self, file_path: &str, new_progress: u32, now: i64)
        ensures
            final(self)@ == with_progress(old(self)@, file_path@, new_progress, now),
    {
        let path = String::from_str(file_path);
        let mut rows: Vec<FileRecord> = Vec::new();
        let mut i: usize = 0;
        while i < self.rows.len()
            invariant
                i <= self.rows.len(),
                path@ == file_path@,
                file_rows(rows@) == with_progress(self@, file_path@, new_progress, now).take(
                    i as int,
                ),
            decreases self.rows.len() - i,
        {
            let mut record = self.rows[i].clone();
            if record.file_path == path {
                record.progress = new_progress;
                record.sync_time = now;
            }
            let ghost before = rows@;
            let ghost row = record@;
            rows.push(record);
            assert(file_rows(rows@) =~= file_rows(before).push(row));
            i = i + 1;
            assert(file_rows(rows@) =~= with_progress(self@, file_path@, new_progress, now).take(
                i as int,
            ));
        }
        assert(file_rows(rows@) =~= with_progress(self@, file_path@, new_progress, now));
        self.rows = rows;
    }

    /// Removes every row of a path.
    pub fn delete_by(&mut self, path: &str)
        ensures
            final(self)@ == without_path(old(self)@, path@),
    {
        let ghost pred = |r: FileRow| r.file_path != path@;
        let wanted = String::from_str(path);
        let mut rows: Vec<FileRecord> = Vec::new();
        let mut i: usize = 0;
        proof {
            lemma_filter_empty(self@.take(0), pred);
        }
        while i < self.rows.len()
            invariant
                i <= self.rows.len(),
                wanted@ == path@,
                pred == (|r: FileRow| r.file_path != path@),
                file_rows(rows@) == self@.take(i as int).filter(pred),
            decreases self.rows.len() - i,
        {
            proof {
                lemma_filter_step(self@, pred, i as int);
            }
            if !(self.rows[i].file_path == wanted) {
                let record = self.rows[i].clone();
                let ghost before = rows@;
                let ghost row = record@;
                rows.push(record);
                assert(file_rows(rows@) =~= file_rows(before).push(row));
            }
            i = i + 1;
        }
        assert(self@.take(i as int) =~= self@);
        self.rows = rows;
    }

    /// Compacts the table: no row is lost or changed.
    pub fn optimize(&mut self)
        ensures
            final(self)@ == old(self)@,
    {
    }

    /// Runs one statement on the catalog and returns the rows it reads.
    pub fn execute(&mut self, statement: &FilesStatement) -> (result: AppResult<FileRecords>)
        ensures
            final(self)@ == statement.apply(old(self)@),
            statement.refused() ==> result is Err && result->Err_0 is ArrowError,
            !statement.refused() ==> result is Ok && result->Ok_0@ == statement.answer(old(self)@),
    {
        match statement {
            FilesStatement::Add(fields) => match self.add(fields) {
                Ok(()) => Ok(FileRecords(Vec::new())),
                Err(e) => Err(e),
            },
            FilesStatement::QueryAll => Ok(FileRecords(self.query_all())),
            FilesStatement::QueryProgressZero { limit } => Ok(
                FileRecords(self.query_progress_zero(*limit)),
            ),
            FilesStatement::UpdateProgressAndSyncTime { file_path, progress, sync_time } => {
                self.update_progress_and_sync_time_at(file_path.as_str(), *progress, *sync_time);
                Ok(FileRecords(Vec::new()))
            },
            FilesStatement::DeleteBy { file_path } => {
                self.delete_by(file_path.as_str());
                Ok(FileRecords(Vec::new()))
            },
            FilesStatement::Optimize => {
                self.optimize();
                Ok(FileRecords(Vec::new()))
            },
        }
    }
}

/// Whether every complete row of the catalog has been synchronised: its
/// synchronisation time lies after the epoch.
pub open spec fn complete_rows_are_synced(rows: Seq<FileRow>) -> bool {
    forall|i: int| 0 <= i < rows.len() && (#[trigger] rows[i]).progress == PROGRESS_COMPLETE ==> rows[i].sync_time > 0
}

/// Every complete row stays synchronised: a submission adds pending rows
/// only, a deletion adds none, and an update to full progress carries a
/// synchronisation time, which must lie after the epoch.
pub proof fn lemma_complete_rows_stay_synced(
    rows: Seq<FileRow>,
    items: Seq<SyncItem>,
    added: Seq<FileRow>,
    now: i64,
    file_path: Seq<char>,
)
    requires
        complete_rows_are_synced(rows),
        are_pending_rows(added, items, now),
        now > 0,
    ensures
        complete_rows_are_synced(rows + added),
        complete_rows_are_synced(without_path(rows, file_path)),
        complete_rows_are_synced(with_progress(rows, file_path, PROGRESS_COMPLETE, now)),
{
    let all = rows + added;
    assert forall|i: int| 0 <= i < all.len() && (#[trigger] all[i]).progress == PROGRESS_COMPLETE implies all[i].sync_time
        > 0 by {
        if i < rows.len() {
            assert(all[i] == rows[i]);
        } else {
            assert(all[i] == added[i - rows.len()]);
            assert(is_pending_row(added[i - rows.len()], items[i - rows.len()], now));
        }
    }
    let kept = without_path(rows, file_path);
    let pred = |r: FileRow| r.file_path != file_path;
    assert forall|i: int| 0 <= i < kept.len() && (#[trigger] kept[i]).progress == PROGRESS_COMPLETE implies kept[i].sync_time
        > 0 by {
        assert(rows.filter(pred).contains(kept[i]));
        rows.lemma_filter_contains_rev(pred, kept[i]);
        let k = choose|k: int| 0 <= k < rows.len() && rows[k] == kept[i];
        assert(rows[k].progress == PROGRESS_COMPLETE);
    }
    let updated = with_progress(rows, file_path, PROGRESS_COMPLETE, now);
    assert forall|i: int| 0 <= i < updated.len() && (#[trigger] updated[i]).progress == PROGRESS_COMPLETE implies updated[i].sync_time
        > 0 by {
        if rows[i].file_path != file_path {
            assert(updated[i] == rows[i]);
        }
    }
}

} // verus!
