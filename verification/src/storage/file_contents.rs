//! The chunk store: one row per text chunk of an indexed file, with the
//! embedding of the chunk.

use crate::clock::unix_now;
use crate::embed::EmbedData;
use crate::errors::{AidenErrors, AppResult};
use crate::seqs::{first_n, lemma_filter_empty, lemma_filter_none, lemma_filter_step};
use crate::storage::files::opt_text;
use crate::storage::nearest::{nearest, positions, select_nearest};
use crate::text::{quote, quoted};
use vstd::prelude::*;

verus! {

/// The number of components of every stored embedding.
pub const EMBEDDING_DIMENSION: usize = 384;

/// One row of the chunk store. Each component of the embedding is the bit
/// pattern of a single-precision number.
#[derive(Debug)]
pub struct FileContentRecord {
    pub file_path: String,
    pub text: String,
    pub embedding: Vec<u32>,
    pub add_time: i64,
}

/// A row of the chunk store as a mathematical value.
pub struct ContentRow {
    pub file_path: Seq<char>,
    pub text: Seq<char>,
    pub embedding: Seq<u32>,
    pub add_time: i64,
}

impl View for FileContentRecord {
    type V = ContentRow;

    open spec fn view(&self) -> ContentRow {
        ContentRow {
            file_path: self.file_path@,
            text: self.text@,
            embedding: self.embedding@,
            add_time: self.add_time,
        }
    }
}

impl Clone for FileContentRecord {
    fn clone(&self) -> (copy: Self)
        ensures
            copy@ == self@,
    {
        FileContentRecord {
            file_path: self.file_path.clone(),
            text: self.text.clone(),
            embedding: self.embedding.clone(),
            add_time: self.add_time,
        }
    }
}

/// The rows that a sequence of records stands for.
pub open spec fn content_rows(records: Seq<FileContentRecord>) -> Seq<ContentRow> {
    records.map_values(|r: FileContentRecord| r@)
}

/// A row as a read gives it back: without its embedding.
pub open spec fn as_read(row: ContentRow) -> ContentRow {
    ContentRow { embedding: Seq::empty(), ..row }
}

/// Rows as a read gives them back.
pub open spec fn rows_as_read(rows: Seq<ContentRow>) -> Seq<ContentRow> {
    rows.map_values(|r: ContentRow| as_read(r))
}

/// Rows read from the chunk store.
#[derive(Debug)]
pub struct FileContentRecords(pub Vec<FileContentRecord>);

impl View for FileContentRecords {
    type V = Seq<ContentRow>;

    open spec fn view(&self) -> Seq<ContentRow> {
        content_rows(self.0@)
    }
}

impl std::ops::Deref for FileContentRecords {
    type Target = Vec<FileContentRecord>;

    fn deref(&self) -> (records: &Vec<FileContentRecord>)
        ensures
            *records == self.0,
    {
        &self.0
    }
}

/// The rows stored for the chunks of one file: one for each chunk that has
/// a text, in the order of the chunks.
pub open spec fn chunk_rows(path: Seq<char>, data: Seq<EmbedData>, now: i64) -> Seq<ContentRow> {
    data.filter(|d: EmbedData| d.has_text()).map_values(
        |d: EmbedData|
            ContentRow {
                file_path: path,
                text: d.text->0@,
                embedding: d.embedding.vector(),
                add_time: now,
            },
    )
}

/// A batch of chunk rows held column by column, as the table engine takes
/// and gives them.
#[derive(Debug)]
pub struct FileContentRecordFields {
    pub file_paths: Vec<String>,
    pub texts: Vec<String>,
    pub embeddings: Vec<Vec<u32>>,
    pub add_times: Vec<i64>,
}

impl FileContentRecordFields {
    /// All columns have one length.
    pub open spec fn wf(&self) -> bool {
        &&& self.texts@.len() == self.file_paths@.len()
        &&& self.embeddings@.len() == self.file_paths@.len()
        &&& self.add_times@.len() == self.file_paths@.len()
    }

    /// The rows of a well-formed batch.
    pub open spec fn rows(&self) -> Seq<ContentRow>
        recommends
            self.wf(),
    {
        Seq::new(
            self.file_paths@.len(),
            |i: int|
                ContentRow {
                    file_path: self.file_paths@[i]@,
                    text: self.texts@[i]@,
                    embedding: self.embeddings@[i]@,
                    add_time: self.add_times@[i],
                },
        )
    }

    /// Every embedding of the batch has the given number of components.
    pub open spec fn has_dimension(&self, dimension: usize) -> bool {
        forall|i: int| 0 <= i < self.embeddings@.len() ==> (#[trigger] self.embeddings@[i])@.len() == dimension
    }

    /// The batch for the chunks of one file. Chunks without a text, or with
    /// an empty one, are left out; the others keep their order, and all take
    /// the path and the time given.
    pub fn new_at(path: String, data: &Vec<EmbedData>, now: i64) -> (fields: Self)
        ensures
            fields.wf(),
            fields.rows() == chunk_rows(path@, data@, now),
    {
        let ghost pred = |d: EmbedData| d.has_text();
        let mut fields = FileContentRecordFields {
            file_paths: Vec::new(),
            texts: Vec::new(),
            embeddings: Vec::new(),
            add_times: Vec::new(),
        };
        proof {
            lemma_filter_empty(data@.take(0), pred);
            assert(fields.rows() =~= chunk_rows(path@, data@.take(0), now));
        }
        let mut i: usize = 0;
        while i < data.len()
            invariant
                i <= data.len(),
                pred == (|d: EmbedData| d.has_text()),
                fields.wf(),
                fields.rows() == chunk_rows(path@, data@.take(i as int), now),
            decreases data.len() - i,
        {
            proof {
                lemma_filter_step(data@, pred, i as int);
            }
            let item = &data[i];
            let keep = match &item.text {
                Some(t) => !t.as_str().is_empty(),
                None => false,
            };
            if keep {
                let ghost before = fields.rows();
                let text = match &item.text {
                    Some(t) => t.clone(),
                    None => String::new(),
                };
                let ghost row = ContentRow {
                    file_path: path@,
                    text: text@,
                    embedding: item.embedding.vector(),
                    add_time: now,
                };
                fields.file_paths.push(path.clone());
                fields.texts.push(text);
                fields.embeddings.push(item.embedding.to_vector());
                fields.add_times.push(now);
                assert(fields.rows() =~= before.push(row));
            }
            i = i + 1;
            assert(fields.rows() =~= chunk_rows(path@, data@.take(i as int), now));
        }
        assert(data@.take(i as int) =~= data@);
        fields
    }

    /// The batch for the chunks of one file, at the time the clock reads.
    pub fn new(path: String, data: Vec<EmbedData>) -> (fields: Self)
        ensures
            fields.wf(),
            exists|now: i64| fields.rows() == #[trigger] chunk_rows(path@, data@, now),
    {
        let now = unix_now();
        FileContentRecordFields::new_at(path, &data, now)
    }

    /// Whether all columns have one length.
    pub fn is_well_formed(&self) -> (ok: bool)
        ensures
            ok == self.wf(),
    {
        let n = self.file_paths.len();
        self.texts.len() == n && self.embeddings.len() == n && self.add_times.len() == n
    }

    /// Whether every embedding of the batch has the given number of
    /// components.
    pub fn check_dimension(&self, dimension: usize) -> (ok: bool)
        ensures
            ok == self.has_dimension(dimension),
    {
        let mut i: usize = 0;
        while i < self.embeddings.len()
            invariant
                i <= self.embeddings.len(),
                forall|k: int| 0 <= k < i ==> (#[trigger] self.embeddings@[k])@.len() == dimension,
            decreases self.embeddings.len() - i,
        {
            if self.embeddings[i].len() != dimension {
                return false;
            }
            i = i + 1;
        }
        true
    }
}

impl FileContentRecords {
    /// Turns a batch of columns into rows as a read gives them: without
    /// the embeddings. A batch whose columns differ in length is refused.
    pub fn from_fields(fields: &FileContentRecordFields) -> (result: AppResult<FileContentRecords>)
        ensures
            fields.wf() ==> result is Ok && result->Ok_0@ == rows_as_read(fields.rows()),
            !fields.wf() ==> result is Err && result->Err_0 is ArrowError,
    {
        if !fields.is_well_formed() {
            return Err(AidenErrors::ArrowError(String::from_str("all columns must have the same length")));
        }
        let mut records: Vec<FileContentRecord> = Vec::new();
        let mut i: usize = 0;
        while i < fields.file_paths.len()
            invariant
                fields.wf(),
                i <= fields.file_paths.len(),
                content_rows(records@) == rows_as_read(fields.rows()).take(i as int),
            decreases fields.file_paths.len() - i,
        {
            let record = FileContentRecord {
                file_path: fields.file_paths[i].clone(),
                text: fields.texts[i].clone(),
                embedding: Vec::new(),
                add_time: fields.add_times[i],
            };
            let ghost before = records@;
            let ghost row = record@;
            assert(row =~= as_read(fields.rows()[i as int]));
            records.push(record);
            assert(content_rows(records@) =~= content_rows(before).push(row));
            i = i + 1;
            assert(content_rows(records@) =~= rows_as_read(fields.rows()).take(i as int));
        }
        assert(rows_as_read(fields.rows()).take(i as int) =~= rows_as_read(fields.rows()));
        Ok(FileContentRecords(records))
    }
}

/// The paths of the rows, each once, in the order in which they first occur.
pub open spec fn group_paths(rows: Seq<ContentRow>) -> Seq<Seq<char>>
    decreases rows.len(),
{
    if rows.len() == 0 {
        Seq::empty()
    } else {
        let before = group_paths(rows.drop_last());
        if before.contains(rows.last().file_path) {
            before
        } else {
            before.push(rows.last().file_path)
        }
    }
}

/// The texts of the rows of one path, in the order of the rows.
pub open spec fn path_texts(rows: Seq<ContentRow>, path: Seq<char>) -> Seq<Seq<char>> {
    rows.filter(|r: ContentRow| r.file_path == path).map_values(|r: ContentRow| r.text)
}

/// A bulleted list: one line for each text.
pub open spec fn bullets(texts: Seq<Seq<char>>) -> Seq<char>
    decreases texts.len(),
{
    if texts.len() == 0 {
        Seq::empty()
    } else {
        bullets(texts.drop_last()) + "- "@ + texts.last() + "\n"@
    }
}

/// The section of one file: a heading with its path, the list of its
/// texts, and a rule.
pub open spec fn section(path: Seq<char>, texts: Seq<Seq<char>>) -> Seq<char> {
    "### File: "@ + path + "\n\n"@ + bullets(texts) + "\n---\n\n"@
}

/// The sections of the given paths, one after the other.
pub open spec fn sections(rows: Seq<ContentRow>, paths: Seq<Seq<char>>) -> Seq<char>
    decreases paths.len(),
{
    if paths.len() == 0 {
        Seq::empty()
    } else {
        sections(rows, paths.drop_last()) + section(paths.last(), path_texts(rows, paths.last()))
    }
}

/// The rows rendered as Markdown: one section for each path, in the order
/// in which the paths first occur.
pub open spec fn markdown(rows: Seq<ContentRow>) -> Seq<char> {
    sections(rows, group_paths(rows))
}

/// The headings of the Markdown are the paths of the rows and nothing
/// else: every row stands under the heading of its path, no path has two
/// headings, and every heading has a row. Under a heading stand the texts
/// of the rows of its path, one bullet for each row.
pub proof fn lemma_markdown_groups(rows: Seq<ContentRow>)
    ensures
        group_paths(rows).no_duplicates(),
        forall|i: int| 0 <= i < rows.len() ==> group_paths(rows).contains((#[trigger] rows[i]).file_path),
        forall|path: Seq<char>| #[trigger]
            group_paths(rows).contains(path) ==> exists|i: int|
                0 <= i < rows.len() && (#[trigger] rows[i]).file_path == path,
        forall|path: Seq<char>| #[trigger]
            group_paths(rows).contains(path) ==> path_texts(rows, path).len() > 0,
    decreases rows.len(),
{
    if rows.len() > 0 {
        let before = rows.drop_last();
        let last = rows.last();
        lemma_markdown_groups(before);
        let old_paths = group_paths(before);
        let paths = group_paths(rows);
        assert forall|i: int| 0 <= i < rows.len() implies paths.contains((#[trigger] rows[i]).file_path) by {
            if i < before.len() {
                assert(before[i] == rows[i]);
                assert(old_paths.contains(before[i].file_path));
                let k = choose|k: int| 0 <= k < old_paths.len() && old_paths[k] == before[i].file_path;
                assert(paths[k] == rows[i].file_path);
            } else if old_paths.contains(last.file_path) {
            } else {
                assert(paths[paths.len() - 1] == last.file_path);
            }
        }
        assert forall|path: Seq<char>| #[trigger] paths.contains(path) implies exists|i: int|
            0 <= i < rows.len() && (#[trigger] rows[i]).file_path == path by {
            if old_paths.contains(path) {
                let i = choose|i: int| 0 <= i < before.len() && (#[trigger] before[i]).file_path == path;
                assert(rows[i].file_path == path);
            } else {
                let k = choose|k: int| 0 <= k < paths.len() && paths[k] == path;
                if k < old_paths.len() {
                    assert(old_paths[k] == path);
                }
                assert(rows[rows.len() - 1].file_path == path);
            }
        }
        assert forall|path: Seq<char>| #[trigger] paths.contains(path) implies path_texts(rows, path).len()
            > 0 by {
            let pred = |r: ContentRow| r.file_path == path;
            let i = choose|i: int| 0 <= i < rows.len() && (#[trigger] rows[i]).file_path == path;
            rows.lemma_filter_contains(pred, i);
            assert(rows.filter(pred).len() > 0);
        }
    }
}

/// The number of bullets under the headings of the given paths.
pub open spec fn bullet_count(rows: Seq<ContentRow>, paths: Seq<Seq<char>>) -> nat
    decreases paths.len(),
{
    if paths.len() == 0 {
        0
    } else {
        bullet_count(rows, paths.drop_last()) + path_texts(rows, paths.last()).len()
    }
}

/// One more row is one more bullet under the heading of its path, if
/// that heading is among the given ones, and changes no other heading.
proof fn lemma_bullet_count_push(rows: Seq<ContentRow>, row: ContentRow, paths: Seq<Seq<char>>)
    requires
        paths.no_duplicates(),
    ensures
        bullet_count(rows.push(row), paths) == bullet_count(rows, paths) + if paths.contains(row.file_path) {
            1nat
        } else {
            0nat
        },
    decreases paths.len(),
{
    if paths.len() > 0 {
        let more = rows.push(row);
        let path = paths.last();
        let pred = |r: ContentRow| r.file_path == path;
        lemma_bullet_count_push(rows, row, paths.drop_last());
        lemma_filter_step(more, pred, rows.len() as int);
        assert(more.take(rows.len() as int) =~= rows);
        assert(more.take(rows.len() as int + 1) =~= more);
        if row.file_path == path {
            assert(paths[paths.len() - 1] == row.file_path);
            if paths.drop_last().contains(row.file_path) {
                let k = choose|k: int| 0 <= k < paths.drop_last().len() && paths.drop_last()[k] == row.file_path;
                assert(paths[k] == paths[paths.len() - 1]);
            }
        } else if paths.contains(row.file_path) {
            let k = choose|k: int| 0 <= k < paths.len() && paths[k] == row.file_path;
            assert(paths.drop_last()[k] == row.file_path);
        } else if paths.drop_last().contains(row.file_path) {
            let k = choose|k: int| 0 <= k < paths.drop_last().len() && paths.drop_last()[k] == row.file_path;
            assert(paths[k] == row.file_path);
        }
    }
}

/// The Markdown lists exactly the rows: it has as many bullets as there
/// are rows.
pub proof fn lemma_markdown_lists_each_row_once(rows: Seq<ContentRow>)
    ensures
        bullet_count(rows, group_paths(rows)) == rows.len(),
    decreases rows.len(),
{
    if rows.len() > 0 {
        let before = rows.drop_last();
        let last = rows.last();
        let paths = group_paths(before);
        lemma_markdown_lists_each_row_once(before);
        lemma_markdown_groups(before);
        lemma_bullet_count_push(before, last, paths);
        assert(before.push(last) =~= rows);
        if !paths.contains(last.file_path) {
            let pred = |r: ContentRow| r.file_path == last.file_path;
            assert forall|i: int| 0 <= i < before.len() implies !pred(#[trigger] before[i]) by {
                assert(paths.contains(before[i].file_path));
            }
            lemma_filter_none(before, pred);
            lemma_filter_step(rows, pred, before.len() as int);
            assert(rows.take(before.len() as int) =~= before);
            assert(rows.take(before.len() as int + 1) =~= rows);
            assert(paths.push(last.file_path).drop_last() =~= paths);
        }
    }
}

/// The views of a sequence of strings.
pub open spec fn texts_of(strings: Seq<String>) -> Seq<Seq<char>> {
    strings.map_values(|s: String| s@)
}

impl FileContentRecords {
    /// The paths of the rows, each once, in the order in which they first
    /// occur.
    pub fn paths(&self) -> (paths: Vec<String>)
        ensures
            texts_of(paths@) == group_paths(self@),
    {
        let mut paths: Vec<String> = Vec::new();
        let mut i: usize = 0;
        assert(texts_of(paths@) =~= group_paths(self@.take(0)));
        while i < self.0.len()
            invariant
                i <= self.0.len(),
                texts_of(paths@) == group_paths(self@.take(i as int)),
            decreases self.0.len() - i,
        {
            let path = &self.0[i].file_path;
            let mut found = false;
            let mut k: usize = 0;
            while k < paths.len() && !found
                invariant
                    k <= paths.len(),
                    found ==> texts_of(paths@).contains(path@),
                    !found ==> forall|m: int| 0 <= m < k ==> texts_of(paths@)[m] != path@,
                decreases paths.len() - k + (if found { 0int } else { 1int }),
            {
                if paths[k] == *path {
                    assert(texts_of(paths@)[k as int] == path@);
                    found = true;
                } else {
                    k = k + 1;
                }
            }
            proof {
                let next = self@.take(i as int + 1);
                assert(next.drop_last() =~= self@.take(i as int));
                assert(next.last().file_path == path@);
            }
            if !found {
                let ghost before = paths@;
                paths.push(path.clone());
                assert(texts_of(paths@) =~= texts_of(before).push(path@));
            }
            i = i + 1;
        }
        assert(self@.take(i as int) =~= self@);
        paths
    }

    /// Renders the rows as Markdown, the texts of one path gathered under
    /// one heading.
    pub fn to_markdown(&self) -> (text: String)
        ensures
            text@ == markdown(self@),
    {
        let paths = self.paths();
        let mut text = String::new();
        let mut k: usize = 0;
        assert(text@ =~= sections(self@, texts_of(paths@).take(0)));
        while k < paths.len()
            invariant
                k <= paths.len(),
                text@ == sections(self@, texts_of(paths@).take(k as int)),
            decreases paths.len() - k,
        {
            let path = &paths[k];
            let ghost done = text@;
            let ghost pred = |r: ContentRow| r.file_path == path@;
            text.append("### File: ");
            text.append(path.as_str());
            text.append("\n\n");
            let ghost head = text@;
            let mut i: usize = 0;
            proof {
                lemma_filter_empty(self@.take(0), pred);
                assert(path_texts(self@.take(0), path@) =~= Seq::<Seq<char>>::empty());
                assert(text@ =~= head + bullets(path_texts(self@.take(0), path@)));
            }
            while i < self.0.len()
                invariant
                    i <= self.0.len(),
                    pred == (|r: ContentRow| r.file_path == path@),
                    text@ == head + bullets(path_texts(self@.take(i as int), path@)),
                decreases self.0.len() - i,
            {
                proof {
                    lemma_filter_step(self@, pred, i as int);
                }
                if self.0[i].file_path == *path {
                    let ghost listed = path_texts(self@.take(i as int), path@);
                    let ghost before = text@;
                    text.append("- ");
                    text.append(self.0[i].text.as_str());
                    text.append("\n");
                    proof {
                        let now_listed = path_texts(self@.take(i as int + 1), path@);
                        assert(now_listed =~= listed.push(self@[i as int].text));
                        assert(now_listed.drop_last() =~= listed);
                        assert(text@ =~= head + bullets(now_listed));
                    }
                }
                i = i + 1;
            }
            assert(self@.take(i as int) =~= self@);
            text.append("\n---\n\n");
            k = k + 1;
            proof {
                let shown = texts_of(paths@).take(k as int);
                assert(shown.drop_last() =~= texts_of(paths@).take(k as int - 1));
                assert(shown.last() == path@);
                assert(text@ =~= done + section(path@, path_texts(self@, path@)));
            }
        }
        assert(texts_of(paths@).take(k as int) =~= texts_of(paths@));
        text
    }
}

/// The greatest distance at which a row still counts as similar: the bit
/// pattern of the single-precision number nearest to six tenths.
pub const MAX_DISTANCE: u32 = 0x3F19_999A;

/// The least distance of a similar row: the bit pattern of zero.
pub const MIN_DISTANCE: u32 = 0;

/// How the distance between two embeddings is measured.
#[derive(Clone, Copy, Debug, PartialEq, Eq, Structural)]
pub enum DistanceType {
    L2,
    Cosine,
    Dot,
}

/// The rows that are left when every row of the given path is removed.
pub open spec fn without_path(rows: Seq<ContentRow>, file_path: Seq<char>) -> Seq<ContentRow> {
    rows.filter(|r: ContentRow| r.file_path != file_path)
}

/// The rows at the given positions, as a read gives them back.
pub open spec fn rows_at(rows: Seq<ContentRow>, order: Seq<int>) -> Seq<ContentRow> {
    order.map_values(|i: int| as_read(rows[i]))
}

/// A statement on the chunk store.
#[derive(Debug)]
pub enum ContentsStatement {
    /// Append a batch of rows.
    Add(FileContentRecordFields),
    /// Read up to `limit` rows.
    QueryAll { limit: usize },
    /// Read up to `limit` rows, the nearest to `vector` first, whose
    /// distance from it under `metric` lies between `lower` and `upper`.
    FindSimilar { vector: Vec<u32>, metric: DistanceType, lower: u32, upper: u32, limit: usize },
    /// Remove every row of a path.
    DeleteBy { file_path: String },
    /// Compact the table.
    Optimize,
}

impl ContentsStatement {
    /// Whether the engine refuses the statement on a table whose
    /// embeddings have `dimension` components.
    pub open spec fn refused(self, dimension: usize) -> bool {
        match self {
            ContentsStatement::Add(fields) => !fields.wf() || !fields.has_dimension(dimension),
            _ => false,
        }
    }

    /// The rows of the table after the statement.
    pub open spec fn apply(self, rows: Seq<ContentRow>, dimension: usize) -> Seq<ContentRow> {
        match self {
            ContentsStatement::Add(fields) => if self.refused(dimension) {
                rows
            } else {
                rows + fields.rows()
            },
            ContentsStatement::DeleteBy { file_path } => without_path(rows, file_path@),
            _ => rows,
        }
    }

    /// The rows that the statement reads from the table, `distances`
    /// giving how far each stored row is from the vector of the statement.
    pub open spec fn answer(self, rows: Seq<ContentRow>, distances: Seq<u32>) -> Seq<ContentRow> {
        match self {
            ContentsStatement::QueryAll { limit } => rows_as_read(first_n(rows, limit as nat)),
            ContentsStatement::FindSimilar { lower, upper, limit, .. } => rows_at(
                rows,
                nearest(distances, lower, upper, limit as nat),
            ),
            _ => Seq::empty(),
        }
    }

    /// The filter that selects the rows the statement touches, in the
    /// filter language of the engine; none where it touches all rows.
    pub open spec fn filter_text(self) -> Option<Seq<char>> {
        match self {
            ContentsStatement::DeleteBy { file_path } => Some("file_path = "@ + quoted(file_path@)),
            _ => None,
        }
    }

    /// The statement that finds the rows similar to a vector: up to `n`
    /// rows by ascending cosine distance, none farther than the greatest
    /// distance allowed.
    pub fn find_similar(vector: Vec<u32>, n: usize) -> (statement: Self)
        ensures
            statement == (ContentsStatement::FindSimilar {
                vector,
                metric: DistanceType::Cosine,
                lower: MIN_DISTANCE,
                upper: MAX_DISTANCE,
                limit: n,
            }),
    {
        ContentsStatement::FindSimilar {
            vector,
            metric: DistanceType::Cosine,
            lower: MIN_DISTANCE,
            upper: MAX_DISTANCE,
            limit: n,
        }
    }

    /// Writes the filter of the statement.
    pub fn filter(&self) -> (text: Option<String>)
        ensures
            opt_text(text) == self.filter_text(),
    {
        match self {
            ContentsStatement::DeleteBy { file_path } => {
                let mut text = String::from_str("file_path = ");
                let literal = quote(file_path.as_str());
                text.append(literal.as_str());
                Some(text)
            },
            _ => None,
        }
    }

    /// The greatest number of rows that the statement reads, where it
    /// sets one.
    pub fn limit(&self) -> (limit: Option<usize>)
        ensures
            limit == match *self {
                ContentsStatement::QueryAll { limit } => Some(limit),
                ContentsStatement::FindSimilar { limit, .. } => Some(limit),
                _ => None,
            },
    {
        match self {
            ContentsStatement::QueryAll { limit } => Some(*limit),
            ContentsStatement::FindSimilar { limit, .. } => Some(*limit),
            _ => None,
        }
    }
}

/// Whether every row has an embedding of the given number of components.
pub open spec fn rows_have_dimension(rows: Seq<ContentRow>, dimension: usize) -> bool {
    forall|i: int| 0 <= i < rows.len() ==> (#[trigger] rows[i]).embedding.len() == dimension
}

/// The length of the stored embeddings is constant: no statement brings a
/// row with an embedding of another length into a table that has none.
pub proof fn lemma_dimension_is_constant(statement: ContentsStatement, rows: Seq<ContentRow>, dimension: usize)
    requires
        rows_have_dimension(rows, dimension),
    ensures
        rows_have_dimension(statement.apply(rows, dimension), dimension),
{
    let after = statement.apply(rows, dimension);
    match statement {
        ContentsStatement::Add(fields) => {
            if !statement.refused(dimension) {
                assert forall|i: int| 0 <= i < after.len() implies (#[trigger] after[i]).embedding.len()
                    == dimension by {
                    if i >= rows.len() {
                        assert(after[i] == fields.rows()[i - rows.len()]);
                        assert(fields.embeddings@[i - rows.len()]@.len() == dimension);
                    } else {
                        assert(after[i] == rows[i]);
                    }
                }
            }
        },
        ContentsStatement::DeleteBy { file_path } => {
            let pred = |r: ContentRow| r.file_path != file_path@;
            assert(after == rows.filter(pred));
            assert forall|i: int| 0 <= i < after.len() implies (#[trigger] after[i]).embedding.len()
                == dimension by {
                assert(rows.filter(pred).contains(after[i]));
                rows.lemma_filter_contains_rev(pred, after[i]);
                let k = choose|k: int| 0 <= k < rows.len() && rows[k] == after[i];
                assert(rows[k].embedding.len() == dimension);
            }
        },
        _ => {},
    }
}

/// The chunk store, held in memory. It takes only embeddings of
/// `EMBEDDING_DIMENSION` components.
#[derive(Debug)]
pub struct FileContentsRepo {
    rows: Vec<FileContentRecord>,
}

impl View for FileContentsRepo {
    type V = Seq<ContentRow>;

    closed spec fn view(&self) -> Seq<ContentRow> {
        content_rows(self.rows@)
    }
}

impl FileContentsRepo {
    /// An empty store.
    pub fn new() -> (repo: Self)
        ensures
            repo@ == Seq::<ContentRow>::empty(),
    {
        let repo = FileContentsRepo { rows: Vec::new() };
        assert(repo@ =~= Seq::<ContentRow>::empty());
        repo
    }

    /// The number of stored rows.
    pub fn len(&self) -> (n: usize)
        ensures
            n == self@.len(),
    {
        self.rows.len()
    }

    /// Appends a batch of rows. A batch whose columns differ in length, or
    /// that holds an embedding of another dimension, is refused and leaves
    /// the store as it was.
    pub fn insert_data(&mut self, records: FileContentRecordFields) -> (result: AppResult<()>)
        ensures
            final(self)@ == (ContentsStatement::Add(records)).apply(old(self)@, EMBEDDING_DIMENSION),
            result is Err <==> (ContentsStatement::Add(records)).refused(EMBEDDING_DIMENSION),
            result is Err ==> result->Err_0 is ArrowError,
    {
        self.add(&records)
    }

    /// Appends a batch of rows that the caller keeps.
    pub fn add(&mut self, records: &FileContentRecordFields) -> (result: AppResult<()>)
        ensures
            final(self)@ == (ContentsStatement::Add(*records)).apply(old(self)@, EMBEDDING_DIMENSION),
            result is Err <==> (ContentsStatement::Add(*records)).refused(EMBEDDING_DIMENSION),
            result is Err ==> result->Err_0 is ArrowError,
    {
        if !records.is_well_formed() {
            return Err(AidenErrors::ArrowError(String::from_str("all columns must have the same length")));
        }
        if !records.check_dimension(EMBEDDING_DIMENSION) {
            return Err(
                AidenErrors::ArrowError(String::from_str("an embedding has the wrong number of components")),
            );
        }
        let mut i: usize = 0;
        while i < records.file_paths.len()
            invariant
                records.wf(),
                records.has_dimension(EMBEDDING_DIMENSION),
                i <= records.file_paths.len(),
                content_rows(self.rows@) == content_rows(old(self).rows@) + records.rows().take(i as int),
            decreases records.file_paths.len() - i,
        {
            let record = FileContentRecord {
                file_path: records.file_paths[i].clone(),
                text: records.texts[i].clone(),
                embedding: records.embeddings[i].clone(),
                add_time: records.add_times[i],
            };
            let ghost before = self.rows@;
            let ghost row = record@;
            assert(row == records.rows()[i as int]);
            self.rows.push(record);
            assert(content_rows(self.rows@) =~= content_rows(before).push(row));
            i = i + 1;
            assert(content_rows(self.rows@) =~= content_rows(old(self).rows@) + records.rows().take(
                i as int,
            ));
        }
        assert(records.rows().take(i as int) =~= records.rows());
        Ok(())
    }

    /// Reads up to `n` rows, in storage order.
    pub fn query_all(&self, n: usize) -> (records: FileContentRecords)
        ensures
            records@ == rows_as_read(first_n(self@, n as nat)),
    {
        let count = if n < self.rows.len() {
            n
        } else {
            self.rows.len()
        };
        let mut records: Vec<FileContentRecord> = Vec::new();
        let mut i: usize = 0;
        while i < count
            invariant
                i <= count <= self.rows.len(),
                content_rows(records@) == rows_as_read(self@.take(i as int)),
            decreases count - i,
        {
            let record = read_copy(&self.rows[i]);
            let ghost before = records@;
            let ghost row = record@;
            records.push(record);
            assert(content_rows(records@) =~= content_rows(before).push(row));
            i = i + 1;
            assert(content_rows(records@) =~= rows_as_read(self@.take(i as int)));
        }
        assert(self@.take(self@.len() as int) =~= self@);
        FileContentRecords(records)
    }

    /// Reads the up to `n` rows nearest to a query, the nearest first,
    /// none of them farther from it than `MAX_DISTANCE`. `distances` gives
    /// the distance of each stored row from the query, in storage order,
    /// as the bit pattern of a single-precision number that is not below
    /// zero; where it has not one distance for each row, the read is
    /// refused.
    pub fn find_similar(&self, distances: &Vec<u32>, n: usize) -> (result: AppResult<FileContentRecords>)
        ensures
            distances@.len() == self@.len() ==> result is Ok && result->Ok_0@ == rows_at(
                self@,
                nearest(distances@, MIN_DISTANCE, MAX_DISTANCE, n as nat),
            ),
            distances@.len() != self@.len() ==> result is Err && result->Err_0 is LancedbError,
    {
        self.find_within(distances, MIN_DISTANCE, MAX_DISTANCE, n)
    }

    /// Reads the up to `n` rows nearest to a query, the nearest first,
    /// none of them nearer to it than `lower` or farther from it than
    /// `upper`.
    pub fn find_within(&self, distances: &Vec<u32>, lower: u32, upper: u32, n: usize) -> (result: AppResult<
        FileContentRecords,
    >)
        ensures
            distances@.len() == self@.len() ==> result is Ok && result->Ok_0@ == rows_at(
                self@,
                nearest(distances@, lower, upper, n as nat),
            ),
            distances@.len() != self@.len() ==> result is Err && result->Err_0 is LancedbError,
    {
        if distances.len() != self.rows.len() {
            return Err(
                AidenErrors::LancedbError(String::from_str("one distance is needed for each stored row")),
            );
        }
        let order = select_nearest(distances, lower, upper, n);
        let mut records: Vec<FileContentRecord> = Vec::new();
        let mut k: usize = 0;
        while k < order.len()
            invariant
                k <= order.len(),
                distances@.len() == self.rows@.len(),
                forall|m: int| 0 <= m < order@.len() ==> (#[trigger] order@[m]) < distances@.len(),
                content_rows(records@) == rows_at(self@, positions(order@).take(k as int)),
            decreases order.len() - k,
        {
            let record = read_copy(&self.rows[order[k]]);
            let ghost before = records@;
            let ghost row = record@;
            records.push(record);
            assert(content_rows(records@) =~= content_rows(before).push(row));
            k = k + 1;
            assert(content_rows(records@) =~= rows_at(self@, positions(order@).take(k as int)));
        }
        assert(positions(order@).take(k as int) =~= positions(order@));
        Ok(FileContentRecords(records))
    }

    /// Removes every row of a path.
    pub fn delete_by(&mut self, path: &str)
        ensures
            final(self)@ == without_path(old(self)@, path@),
    {
        let ghost pred = |r: ContentRow| r.file_path != path@;
        let wanted = String::from_str(path);
        let mut rows: Vec<FileContentRecord> = Vec::new();
        let mut i: usize = 0;
        proof {
            lemma_filter_empty(self@.take(0), pred);
        }
        while i < self.rows.len()
            invariant
                i <= self.rows.len(),
                wanted@ == path@,
                pred == (|r: ContentRow| r.file_path != path@),
                content_rows(rows@) == self@.take(i as int).filter(pred),
            decreases self.rows.len() - i,
        {
            proof {
                lemma_filter_step(self@, pred, i as int);
            }
            if !(self.rows[i].file_path == wanted) {
                let record = self.rows[i].clone();
                let ghost before = rows@;
                let ghost row = record@;
                rows.push(record);
                assert(content_rows(rows@) =~= content_rows(before).push(row));
            }
            i = i + 1;
        }
        assert(self@.take(i as int) =~= self@);
        self.rows = rows;
    }

    /// Compacts the table: no row is lost or changed.
    pub fn optimize(&mut self)
        ensures
            final(self)@ == old(self)@,
    {
    }

    /// Runs one statement on the store and returns the rows it reads.
    /// `distances` is read by a search for similar rows only.
    pub fn execute(&mut self, statement: &ContentsStatement, distances: &Vec<u32>) -> (result: AppResult<
        FileContentRecords,
    >)
        ensures
            final(self)@ == statement.apply(old(self)@, EMBEDDING_DIMENSION),
            statement.refused(EMBEDDING_DIMENSION) ==> result is Err && result->Err_0 is ArrowError,
            statement is FindSimilar && distances@.len() != old(self)@.len() ==> result is Err
                && result->Err_0 is LancedbError,
            !statement.refused(EMBEDDING_DIMENSION) && !(statement is FindSimilar && distances@.len()
                != old(self)@.len()) ==> result is Ok && result->Ok_0@ == statement.answer(
                old(self)@,
                distances@,
            ),
    {
        match statement {
            ContentsStatement::Add(fields) => match self.add(fields) {
                Ok(()) => Ok(FileContentRecords(Vec::new())),
                Err(e) => Err(e),
            },
            ContentsStatement::QueryAll { limit } => Ok(self.query_all(*limit)),
            ContentsStatement::FindSimilar { lower, upper, limit, .. } => self.find_within(
                distances,
                *lower,
                *upper,
                *limit,
            ),
            ContentsStatement::DeleteBy { file_path } => {
                self.delete_by(file_path.as_str());
                Ok(FileContentRecords(Vec::new()))
            },
            ContentsStatement::Optimize => {
                self.optimize();
                Ok(FileContentRecords(Vec::new()))
            },
        }
    }
}

/// A copy of a stored row as a read gives it back: without its embedding.
fn read_copy(record: &FileContentRecord) -> (copy: FileContentRecord)
    ensures
        copy@ == as_read(record@),
{
    FileContentRecord {
        file_path: record.file_path.clone(),
        text: record.text.clone(),
        embedding: Vec::new(),
        add_time: record.add_time,
    }
}

} // verus!
