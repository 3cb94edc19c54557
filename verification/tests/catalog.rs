use aiden::errors::AidenErrors;
use aiden::storage::files::{
    FileRecord, FileRecordFields, FileRecords, FilesRepo, FilesStatement, SyncItem,
};
use aiden::storage::{files_schema, ColumnType, DB};
use aiden::text::{decimal_i64, decimal_u64, quote};

fn file_paths() -> Vec<SyncItem> {
    vec![
        SyncItem { path: "test_files".to_string(), is_file: false },
        SyncItem { path: "test_files/test.md".to_string(), is_file: true },
    ]
}

#[test]
fn files_test_insert_data() {
    let mut repo = FilesRepo::new();

    let paths = file_paths();
    let result = repo.insert_data(paths);
    assert!(result.is_ok(), "Failed to insert data");
    assert_eq!(repo.query_all().len(), 2);
}

#[test]
fn files_test_query_all() {
    let mut repo = FilesRepo::new();
    repo.insert_data(file_paths()).unwrap();

    let records = repo.query_all();
    assert_eq!(records.len(), 2);

    assert_eq!(&records[0].name, "test_files");
    assert_eq!(&records[0].file_path, "test_files");
    assert_eq!(&records[0].file_type, &None);
    assert!(&records[0].add_time > &0);
    assert_eq!(&records[0].sync_time, &0);
    assert_eq!(&records[0].progress, &0);

    assert_eq!(&records[1].name, "test.md");
    assert_eq!(&records[1].file_path, "test_files/test.md");
    assert_eq!(&records[1].file_type, &Some("md".to_string()));
    assert!(&records[0].add_time > &0);
    assert_eq!(&records[0].sync_time, &0);
    assert_eq!(&records[0].progress, &0);
}

#[test]
fn test_query_progress_zero() {
    let mut repo = FilesRepo::new();
    repo.insert_data(file_paths()).unwrap();

    let records = repo.query_progress_zero(10);
    assert_eq!(records.len(), 2);

    assert_eq!(&records[0].name, "test_files");
    assert_eq!(&records[0].file_path, "test_files");
    assert_eq!(&records[0].file_type, &None);
    assert!(&records[0].add_time > &0);
    assert_eq!(&records[0].sync_time, &0);
    assert_eq!(&records[0].progress, &0);

    assert_eq!(&records[1].name, "test.md");
    assert_eq!(&records[1].file_path, "test_files/test.md");
    assert_eq!(&records[1].file_type, &Some("md".to_string()));
    assert!(&records[0].add_time > &0);
    assert_eq!(&records[0].sync_time, &0);
    assert_eq!(&records[0].progress, &0);
}

#[test]
fn test_update_progress_and_sync_time() {
    let mut repo = FilesRepo::new();
    repo.insert_data(file_paths()).unwrap();

    let new_progress = 100;
    let result = repo.update_progress_and_sync_time("test_files/test.md", new_progress);

    assert!(result.is_ok(), "Failed to update progress and sync_time");

    let records = repo.query_all();
    assert_eq!(records.len(), 2);

    assert_eq!(&records[0].name, "test_files");
    assert_eq!(&records[0].file_path, "test_files");
    assert_eq!(&records[0].file_type, &None);
    assert!(&records[0].add_time > &0);
    assert_eq!(&records[0].sync_time, &0);
    assert_eq!(&records[0].progress, &0);

    assert_eq!(&records[1].name, "test.md");
    assert_eq!(&records[1].file_path, "test_files/test.md");
    assert_eq!(&records[1].file_type, &Some("md".to_string()));
    assert!(&records[1].add_time > &0);
    assert!(&records[1].sync_time > &0);
    assert_eq!(&records[1].progress, &100);
}

#[test]
fn pending_query_respects_limit_and_skips_complete_files() {
    let mut repo = FilesRepo::new();
    let items: Vec<SyncItem> =
        (0..4).map(|i| SyncItem { path: format!("f{}.txt", i), is_file: true }).collect();
    repo.insert_data_at(&items, 7);
    repo.update_progress_and_sync_time_at("f1.txt", 100, 9);
    let pending = repo.query_progress_zero(2);
    let paths: Vec<&str> = pending.iter().map(|r| r.file_path.as_str()).collect();
    assert_eq!(paths, vec!["f0.txt", "f2.txt"]);
    let all_pending = repo.query_progress_zero(10);
    assert_eq!(all_pending.len(), 3);
    assert_eq!(repo.query_progress_zero(0).len(), 0);
}

#[test]
fn name_falls_back_to_the_path_and_directories_have_no_type() {
    let record = FileRecord::pending("..".to_string(), None, Some("md".to_string()), false, 3);
    assert_eq!(record.name, "..");
    assert_eq!(record.file_type, None);
    assert_eq!(record.add_time, 3);
    assert_eq!(record.sync_time, 0);
    assert_eq!(record.progress, 0);
    let file = FileRecord::pending(
        "a/b.txt".to_string(),
        Some("b.txt".to_string()),
        Some("txt".to_string()),
        true,
        4,
    );
    assert_eq!(file.name, "b.txt");
    assert_eq!(file.file_type, Some("txt".to_string()));
}

#[test]
fn an_empty_batch_is_a_no_op() {
    let mut repo = FilesRepo::new();
    repo.insert_data_at(&file_paths(), 1);
    let empty = FileRecordFields::new();
    assert!(repo.add(&empty).is_ok());
    assert_eq!(repo.query_all().len(), 2);
    repo.insert_data(Vec::new()).unwrap();
    assert_eq!(repo.query_all().len(), 2);
}

#[test]
fn insert_does_not_deduplicate() {
    let mut repo = FilesRepo::new();
    repo.insert_data_at(&file_paths(), 1);
    repo.insert_data_at(&file_paths(), 2);
    assert_eq!(repo.query_all().len(), 4);
}

#[test]
fn a_batch_with_uneven_columns_is_refused() {
    let mut repo = FilesRepo::new();
    let mut fields = FileRecordFields::new();
    fields.names.push("x".to_string());
    assert!(!fields.is_well_formed());
    match repo.add(&fields) {
        Err(AidenErrors::ArrowError(_)) => {}
        other => panic!("expected a refusal, got {:?}", other),
    }
    assert_eq!(repo.query_all().len(), 0);
    assert!(matches!(FileRecords::from_fields(&fields), Err(AidenErrors::ArrowError(_))));
    assert!(matches!(
        repo.execute(&FilesStatement::Add(fields)),
        Err(AidenErrors::ArrowError(_))
    ));
}

#[test]
fn columns_and_rows_convert_both_ways() {
    let mut repo = FilesRepo::new();
    repo.insert_data_at(&file_paths(), 11);
    let records = repo.query_all();
    let fields = FileRecordFields::from_records(&records);
    assert_eq!(fields.names, vec!["test_files".to_string(), "test.md".to_string()]);
    assert_eq!(fields.file_types, vec![None, Some("md".to_string())]);
    assert_eq!(fields.add_times, vec![11, 11]);
    assert_eq!(fields.progresses, vec![0, 0]);
    let back = FileRecords::from_fields(&fields).unwrap();
    assert_eq!(back.len(), 2);
    assert_eq!(back[1].file_path, "test_files/test.md");
    assert_eq!(back[1].file_type, Some("md".to_string()));
}

#[test]
fn delete_removes_every_row_of_the_path_only() {
    let mut repo = FilesRepo::new();
    repo.insert_data_at(&file_paths(), 1);
    repo.insert_data_at(&file_paths(), 2);
    repo.delete_by("test_files");
    let left = repo.query_all();
    assert_eq!(left.len(), 2);
    assert!(left.iter().all(|r| r.file_path == "test_files/test.md"));
    repo.delete_by("missing");
    assert_eq!(repo.query_all().len(), 2);
}

#[test]
fn statements_are_written_in_the_filter_language() {
    let update = FilesStatement::UpdateProgressAndSyncTime {
        file_path: "a.txt".to_string(),
        progress: 100,
        sync_time: 1700000000,
    };
    assert_eq!(update.filter(), Some("file_path = 'a.txt'".to_string()));
    let columns = update.columns();
    assert_eq!(columns.len(), 2);
    assert_eq!(columns[0].column, "progress");
    assert_eq!(columns[0].expression, "100");
    assert_eq!(columns[1].column, "sync_time");
    assert_eq!(columns[1].expression, "1700000000");
    assert_eq!(update.limit(), None);

    let pending = FilesStatement::QueryProgressZero { limit: 10 };
    assert_eq!(pending.filter(), Some("progress = 0".to_string()));
    assert_eq!(pending.limit(), Some(10));
    assert!(pending.columns().is_empty());

    let delete = FilesStatement::DeleteBy { file_path: "it's.txt".to_string() };
    assert_eq!(delete.filter(), Some("file_path = 'it''s.txt'".to_string()));
    assert_eq!(FilesStatement::QueryAll.filter(), None);
    assert_eq!(FilesStatement::Optimize.filter(), None);
}

#[test]
fn execute_runs_each_statement() {
    let mut repo = FilesRepo::new();
    let fields = FileRecordFields::pending(&file_paths(), 5);
    assert!(repo.execute(&FilesStatement::Add(fields)).unwrap().is_empty());
    let all = repo.execute(&FilesStatement::QueryAll).unwrap();
    assert_eq!(all.len(), 2);
    repo.execute(&FilesStatement::UpdateProgressAndSyncTime {
        file_path: "test_files".to_string(),
        progress: 100,
        sync_time: 6,
    })
    .unwrap();
    let pending = repo.execute(&FilesStatement::QueryProgressZero { limit: 10 }).unwrap();
    assert_eq!(pending.len(), 1);
    assert_eq!(pending[0].file_path, "test_files/test.md");
    repo.execute(&FilesStatement::Optimize).unwrap();
    assert_eq!(repo.query_all().len(), 2);
    repo.execute(&FilesStatement::DeleteBy { file_path: "test_files".to_string() }).unwrap();
    assert_eq!(repo.query_all().len(), 1);
}

#[test]
fn numbers_are_written_in_decimal() {
    assert_eq!(decimal_u64(0), "0");
    assert_eq!(decimal_u64(7), "7");
    assert_eq!(decimal_u64(1234567890), "1234567890");
    assert_eq!(decimal_u64(u64::MAX), "18446744073709551615");
    assert_eq!(decimal_i64(-1), "-1");
    assert_eq!(decimal_i64(i64::MIN), "-9223372036854775808");
    assert_eq!(decimal_i64(i64::MAX), "9223372036854775807");
}

#[test]
fn literals_are_quoted_with_doubled_quotes() {
    assert_eq!(quote(""), "''");
    assert_eq!(quote("abc"), "'abc'");
    assert_eq!(quote("a'b"), "'a''b'");
    assert_eq!(quote("''"), "''''''");
    assert_eq!(quote("文件"), "'文件'");
}

#[test]
fn the_catalog_schema_has_six_columns() {
    let columns = files_schema();
    let names: Vec<&str> = columns.iter().map(|c| c.name).collect();
    assert_eq!(names, vec!["name", "file_path", "file_type", "add_time", "sync_time", "progress"]);
    assert_eq!(columns[2].nullable, true);
    assert_eq!(columns[5].data_type, ColumnType::UInt32);
}

#[test]
fn a_table_is_created_only_where_it_is_missing() {
    let names = vec!["files".to_string(), "open_ai".to_string()];
    assert!(!DB::get_or_crate_table(&names, "files"));
    assert!(DB::get_or_crate_table(&names, "file_contents"));
    assert!(DB::get_or_crate_table(&Vec::new(), "files"));
}
