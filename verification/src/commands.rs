//! The four operations that the interface layer calls besides the query:
//! submit paths for indexing, list the catalog, delete a path, and read
//! and save the configuration of the language-model endpoint.

use crate::storage::file_contents as chunks;
use crate::storage::file_contents::{ContentRow, ContentsStatement, FileContentsRepo};
use crate::storage::files::{
    are_pending_rows, file_rows, without_path, FileRecord, FileRow, FilesRepo, FilesStatement, SyncItem,
};
use crate::storage::open_ai::{first_row, rows_with_id, with_token, OpenAiRecord, OpenAiRepo};
use vstd::prelude::*;

verus! {

/// The configuration of the language-model endpoint as the interface
/// layer shows and edits it.
#[derive(Debug)]
pub struct OpenAiConfig {
    pub url: String,
    pub token: String,
}

impl Default for OpenAiConfig {
    fn default() -> (config: Self)
        ensures
            config.url@ == Seq::<char>::empty(),
            config.token@ == Seq::<char>::empty(),
    {
        OpenAiConfig { url: String::new(), token: String::new() }
    }
}

impl OpenAiConfig {
    /// The configuration that an endpoint row holds: its address and its
    /// credential, or an empty configuration where there is no row.
    pub fn from_record(record: Option<OpenAiRecord>) -> (config: Self)
        ensures
            record is Some ==> config.url@ == record->0.url@ && config.token@ == record->0.token@,
            record is None ==> config.url@ == Seq::<char>::empty() && config.token@ == Seq::<char>::empty(),
    {
        match record {
            Some(r) => OpenAiConfig { url: r.url, token: r.token },
            None => OpenAiConfig::default(),
        }
    }
}

/// Lists the catalog.
pub fn get_sync_list(state: &FilesRepo) -> (records: Vec<FileRecord>)
    ensures
        file_rows(records@) == state@,
{
    state.query_all()
}

/// Submits paths for indexing: each enters the catalog as a row that waits
/// for its embeddings, at the time the clock reads.
pub fn add_sync_items(items: Vec<SyncItem>, state: &mut FilesRepo)
    ensures
        final(state)@.len() == old(state)@.len() + items@.len(),
        final(state)@.take(old(state)@.len() as int) == old(state)@,
        exists|now: i64| #[trigger] are_pending_rows(final(state)@.skip(old(state)@.len() as int), items@, now),
{
    let entered = state.insert_data(items);
}

/// The two statements that delete a path: the one on the catalog and the
/// one on the chunk store. Both are run, the second whether or not the
/// first succeeds.
pub fn delete_statements(path: &str) -> (statements: (FilesStatement, ContentsStatement))
    ensures
        statements.0 is DeleteBy,
        statements.0->DeleteBy_file_path@ == path@,
        statements.1 is DeleteBy,
        statements.1->DeleteBy_file_path@ == path@,
{
    (
        FilesStatement::DeleteBy { file_path: String::from_str(path) },
        ContentsStatement::DeleteBy { file_path: String::from_str(path) },
    )
}

/// Deletes a path: its catalog rows and its chunks.
pub fn delete_sync_item(path: &str, files: &mut FilesRepo, contents: &mut FileContentsRepo)
    ensures
        final(files)@ == without_path(old(files)@, path@),
        final(contents)@ == chunks::without_path(old(contents)@, path@),
{
    files.delete_by(path);
    contents.delete_by(path);
}

/// Reads the configuration of the endpoint.
pub fn get_ai_config(ai: &OpenAiRepo) -> (config: OpenAiConfig)
    ensures
        rows_with_id(ai@).len() == 0 ==> config.url@ == Seq::<char>::empty() && config.token@ == Seq::<
            char,
        >::empty(),
        rows_with_id(ai@).len() > 0 ==> config.url@ == rows_with_id(ai@)[0].url && config.token@
            == rows_with_id(ai@)[0].token,
{
    OpenAiConfig::from_record(ai.query_id())
}

/// Saves the configuration of the endpoint, at the time the clock reads:
/// the first save creates the row, every later one gives it the new
/// credentials and enables it.
pub fn save_ai_config(config: &OpenAiConfig, ai: &mut OpenAiRepo)
    ensures
        rows_with_id(old(ai)@).len() == 0 ==> exists|now: i64|
            final(ai)@ == old(ai)@.push(#[trigger] first_row(config.url@, config.token@, now)),
        rows_with_id(old(ai)@).len() > 0 ==> exists|now: i64|
            final(ai)@ == #[trigger] with_token(old(ai)@, config.url@, config.token@, now),
{
    let saved = ai.update_insert_token(config.url.as_str(), config.token.as_str());
}

/// After a path has been deleted, neither table holds a row of it, so no
/// scan returns one; every row of another path is still there, in its
/// place among the rows that are left.
pub proof fn lemma_delete_cascade(files: Seq<FileRow>, contents: Seq<ContentRow>, path: Seq<char>, other: Seq<char>)
    requires
        other != path,
    ensures
        forall|i: int|
            0 <= i < without_path(files, path).len() ==> (#[trigger] without_path(files, path)[i]).file_path
                != path,
        forall|i: int|
            0 <= i < chunks::without_path(contents, path).len() ==> (#[trigger] chunks::without_path(
                contents,
                path,
            )[i]).file_path != path,
        without_path(files, path).filter(|r: FileRow| r.file_path == other) == files.filter(
            |r: FileRow| r.file_path == other,
        ),
        chunks::without_path(contents, path).filter(|r: ContentRow| r.file_path == other) == contents.filter(
            |r: ContentRow| r.file_path == other,
        ),
{
    let keep_file = |r: FileRow| r.file_path != path;
    let keep_chunk = |r: ContentRow| r.file_path != path;
    assert forall|i: int| 0 <= i < without_path(files, path).len() implies (#[trigger] without_path(
        files,
        path,
    )[i]).file_path != path by {
        files.lemma_filter_pred(keep_file, i);
    }
    assert forall|i: int| 0 <= i < chunks::without_path(contents, path).len() implies (
    #[trigger] chunks::without_path(contents, path)[i]).file_path != path by {
        contents.lemma_filter_pred(keep_chunk, i);
    }
    lemma_filter_twice(files, keep_file, |r: FileRow| r.file_path == other);
    lemma_filter_twice(contents, keep_chunk, |r: ContentRow| r.file_path == other);
}

/// Filtering by a second condition that implies the first gives what the
/// second alone gives.
proof fn lemma_filter_twice<A>(s: Seq<A>, first: spec_fn(A) -> bool, second: spec_fn(A) -> bool)
    requires
        forall|a: A| #[trigger] second(a) ==> first(a),
    ensures
        s.filter(first).filter(second) == s.filter(second),
    decreases s.len(),
{
    reveal(Seq::filter);
    if s.len() > 0 {
        lemma_filter_twice(s.drop_last(), first, second);
        let rest = s.drop_last().filter(first);
        if first(s.last()) {
            assert(rest.push(s.last()).drop_last() =~= rest);
        }
    }
}

} // verus!
