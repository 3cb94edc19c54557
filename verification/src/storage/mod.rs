//! The vector store: three logical tables, each behind a repository that
//! keeps its rows in memory and says, for every statement, what the table
//! engine is handed.

pub mod file_contents;
pub mod files;
pub mod nearest;
pub mod open_ai;

use crate::storage::file_contents::{texts_of, EMBEDDING_DIMENSION};
use vstd::prelude::*;

verus! {

/// One column assignment of an update: the column's name and the
/// expression, in the filter language, that gives its new value.
#[derive(Debug)]
pub struct ColumnUpdate {
    pub column: String,
    pub expression: String,
}

/// A column assignment as a mathematical value.
pub struct ColumnUpdateView {
    pub column: Seq<char>,
    pub expression: Seq<char>,
}

impl View for ColumnUpdate {
    type V = ColumnUpdateView;

    open spec fn view(&self) -> ColumnUpdateView {
        ColumnUpdateView { column: self.column@, expression: self.expression@ }
    }
}

/// The assignments that a sequence of column updates stands for.
pub open spec fn column_updates(updates: Seq<ColumnUpdate>) -> Seq<ColumnUpdateView> {
    updates.map_values(|u: ColumnUpdate| u@)
}

/// The type of the values of a column.
#[derive(Clone, Copy, Debug, PartialEq, Eq, Structural)]
pub enum ColumnType {
    Utf8,
    Int64,
    UInt32,
    Boolean,
    /// A list of single-precision numbers of a fixed length.
    Embedding { dimension: usize },
}

/// One column of a table.
#[derive(Clone, Copy, Debug)]
pub struct Column {
    pub name: &'static str,
    pub data_type: ColumnType,
    pub nullable: bool,
}

/// The name of the table that holds the file catalog.
pub const FILES_TABLE: &'static str = "files";

/// The name of the table that holds the chunks.
pub const FILE_CONTENTS_TABLE: &'static str = "file_contents";

/// The name of the table that holds the endpoint.
pub const OPEN_AI_TABLE: &'static str = "open_ai";

/// The columns of the file catalog.
pub fn files_schema() -> (columns: Vec<Column>)
    ensures
        columns@ == seq![
            Column { name: "name", data_type: ColumnType::Utf8, nullable: false },
            Column { name: "file_path", data_type: ColumnType::Utf8, nullable: false },
            Column { name: "file_type", data_type: ColumnType::Utf8, nullable: true },
            Column { name: "add_time", data_type: ColumnType::Int64, nullable: false },
            Column { name: "sync_time", data_type: ColumnType::Int64, nullable: false },
            Column { name: "progress", data_type: ColumnType::UInt32, nullable: false },
        ],
{
    let mut columns: Vec<Column> = Vec::new();
    columns.push(Column { name: "name", data_type: ColumnType::Utf8, nullable: false });
    columns.push(Column { name: "file_path", data_type: ColumnType::Utf8, nullable: false });
    columns.push(Column { name: "file_type", data_type: ColumnType::Utf8, nullable: true });
    columns.push(Column { name: "add_time", data_type: ColumnType::Int64, nullable: false });
    columns.push(Column { name: "sync_time", data_type: ColumnType::Int64, nullable: false });
    columns.push(Column { name: "progress", data_type: ColumnType::UInt32, nullable: false });
    columns
}

/// The columns of the chunk store.
pub fn file_contents_schema() -> (columns: Vec<Column>)
    ensures
        columns@ == seq![
            Column { name: "file_path", data_type: ColumnType::Utf8, nullable: false },
            Column { name: "text", data_type: ColumnType::Utf8, nullable: false },
            Column {
                name: "embedding",
                data_type: ColumnType::Embedding { dimension: EMBEDDING_DIMENSION },
                nullable: false,
            },
            Column { name: "add_time", data_type: ColumnType::Int64, nullable: false },
        ],
{
    let mut columns: Vec<Column> = Vec::new();
    columns.push(Column { name: "file_path", data_type: ColumnType::Utf8, nullable: false });
    columns.push(Column { name: "text", data_type: ColumnType::Utf8, nullable: false });
    columns.push(
        Column {
            name: "embedding",
            data_type: ColumnType::Embedding { dimension: EMBEDDING_DIMENSION },
            nullable: false,
        },
    );
    columns.push(Column { name: "add_time", data_type: ColumnType::Int64, nullable: false });
    columns
}

/// The columns of the endpoint table.
pub fn open_ai_schema() -> (columns: Vec<Column>)
    ensures
        columns@ == seq![
            Column { name: "id", data_type: ColumnType::Int64, nullable: false },
            Column { name: "url", data_type: ColumnType::Utf8, nullable: false },
            Column { name: "token", data_type: ColumnType::Utf8, nullable: false },
            Column { name: "state", data_type: ColumnType::Boolean, nullable: false },
            Column { name: "time", data_type: ColumnType::Int64, nullable: false },
        ],
{
    let mut columns: Vec<Column> = Vec::new();
    columns.push(Column { name: "id", data_type: ColumnType::Int64, nullable: false });
    columns.push(Column { name: "url", data_type: ColumnType::Utf8, nullable: false });
    columns.push(Column { name: "token", data_type: ColumnType::Utf8, nullable: false });
    columns.push(Column { name: "state", data_type: ColumnType::Boolean, nullable: false });
    columns.push(Column { name: "time", data_type: ColumnType::Int64, nullable: false });
    columns
}

/// The database as far as the opening of a table goes.
#[derive(Debug)]
pub struct DB;

impl DB {
    /// Whether a table must be created before it is opened: it must where
    /// the database has no table of that name.
    pub fn get_or_crate_table(table_names: &Vec<String>, table_name: &str) -> (create: bool)
        ensures
            create == !texts_of(table_names@).contains(table_name@),
    {
        let wanted = String::from_str(table_name);
        let mut i: usize = 0;
        while i < table_names.len()
            invariant
                i <= table_names.len(),
                wanted@ == table_name@,
                forall|k: int| 0 <= k < i ==> texts_of(table_names@)[k] != table_name@,
            decreases table_names.len() - i,
        {
            if table_names[i] == wanted {
                assert(texts_of(table_names@)[i as int] == table_name@);
                return false;
            }
            i = i + 1;
        }
        true
    }
}

} // verus!
