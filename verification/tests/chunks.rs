use aiden::embed::{EmbedData, EmbeddingResult};
use aiden::errors::AidenErrors;
use aiden::storage::file_contents::{
    ContentsStatement, DistanceType, FileContentRecord, FileContentRecordFields, FileContentRecords,
    FileContentsRepo, EMBEDDING_DIMENSION, MAX_DISTANCE, MIN_DISTANCE,
};
use aiden::storage::nearest::{distance_key, pick_nearest, select_nearest, widened_upper};
use aiden::storage::{file_contents_schema, ColumnType};

fn bits(values: Vec<f32>) -> Vec<u32> {
    values.into_iter().map(f32::to_bits).collect()
}

fn cosine_distance(a: &[u32], b: &[u32]) -> u32 {
    let mut dot = 0.0f32;
    let mut na = 0.0f32;
    let mut nb = 0.0f32;
    for i in 0..a.len() {
        let x = f32::from_bits(a[i]);
        let y = f32::from_bits(b[i]);
        dot += x * y;
        na += x * x;
        nb += y * y;
    }
    let distance = 1.0 - dot / (na.sqrt() * nb.sqrt());
    distance.max(0.0).to_bits()
}

fn create_test_records() -> FileContentRecordFields {
    let path = "test_path".to_string();
    let data = vec![
        EmbedData::new(
            EmbeddingResult::DenseVector(bits(vec![1.0; 384])),
            Some("哈哈哈哈哈哈哈哈".to_string()),
            None,
        ),
        EmbedData::new(
            EmbeddingResult::DenseVector(bits(vec![2.0; 384])),
            Some("古古怪怪古古怪怪".to_string()),
            None,
        ),
    ];
    FileContentRecordFields::new(path, data)
}

fn record(path: &str, text: &str) -> FileContentRecord {
    FileContentRecord {
        file_path: path.to_string(),
        text: text.to_string(),
        embedding: vec![],
        add_time: 0,
    }
}

#[test]
fn file_contents_test_insert_data() {
    let mut repo = FileContentsRepo::new();
    let records = create_test_records();
    repo.insert_data(records).unwrap();

    let results = repo.query_all(10);

    assert_eq!(results.len(), 2);
    assert_eq!(results[0].file_path, "test_path");
    assert_eq!(results[0].text, "哈哈哈哈哈哈哈哈");
    assert_eq!(results[1].file_path, "test_path");
    assert_eq!(results[1].text, "古古怪怪古古怪怪");
}

#[test]
fn test_find_similar() {
    let mut repo = FileContentsRepo::new();
    let records = create_test_records();
    let distances: Vec<u32> = records
        .embeddings
        .iter()
        .map(|e| cosine_distance(&bits(vec![1.0; 384]), e))
        .collect();
    repo.add(&records).unwrap();

    let results = repo.find_similar(&distances, 1).unwrap();

    assert_eq!(results.len(), 1);
    assert_eq!(results[0].file_path, "test_path");
    assert_eq!(results[0].text, "哈哈哈哈哈哈哈哈");
}

#[test]
fn test_delete_by() {
    let mut repo = FileContentsRepo::new();
    let records = create_test_records();
    repo.insert_data(records).unwrap();

    repo.delete_by("test_path");

    let results = repo.query_all(10);
    assert_eq!(results.len(), 0);
}

#[test]
fn the_greatest_distance_is_six_tenths() {
    assert_eq!(f32::from_bits(MAX_DISTANCE), 0.6f32);
    assert_eq!(f32::from_bits(MIN_DISTANCE), 0.0f32);
    assert_eq!(EMBEDDING_DIMENSION, 384);
}

#[test]
fn chunks_without_text_are_dropped() {
    let data = vec![
        EmbedData::new(EmbeddingResult::DenseVector(vec![1, 2]), Some("one".to_string()), None),
        EmbedData::new(EmbeddingResult::DenseVector(vec![3, 4]), None, None),
        EmbedData::new(EmbeddingResult::DenseVector(vec![5, 6]), Some(String::new()), None),
        EmbedData::new(
            EmbeddingResult::MultiVector(vec![vec![7, 8], vec![9, 10]]),
            Some("two".to_string()),
            None,
        ),
        EmbedData::new(EmbeddingResult::MultiVector(vec![]), Some("three".to_string()), None),
    ];
    let fields = FileContentRecordFields::new_at("p".to_string(), &data, 42);
    assert_eq!(fields.texts, vec!["one".to_string(), "two".to_string(), "three".to_string()]);
    assert_eq!(fields.embeddings, vec![vec![1, 2], vec![7, 8], vec![]]);
    assert_eq!(fields.file_paths, vec!["p".to_string(); 3]);
    assert_eq!(fields.add_times, vec![42; 3]);
    assert!(fields.is_well_formed());
    assert!(!fields.check_dimension(2));
}

#[test]
fn a_batch_of_another_dimension_is_refused() {
    let mut repo = FileContentsRepo::new();
    let data = vec![EmbedData::new(
        EmbeddingResult::DenseVector(vec![0; 3]),
        Some("short".to_string()),
        None,
    )];
    let fields = FileContentRecordFields::new_at("p".to_string(), &data, 1);
    assert!(matches!(repo.add(&fields), Err(AidenErrors::ArrowError(_))));
    assert!(matches!(repo.insert_data(fields), Err(AidenErrors::ArrowError(_))));
    assert_eq!(repo.len(), 0);
    let empty = FileContentRecordFields::new_at("p".to_string(), &Vec::new(), 1);
    assert!(repo.add(&empty).is_ok());
    assert_eq!(repo.len(), 0);
}

#[test]
fn reads_come_back_without_embeddings() {
    let mut repo = FileContentsRepo::new();
    repo.add(&create_test_records()).unwrap();
    let all = repo.query_all(1);
    assert_eq!(all.len(), 1);
    assert!(all[0].embedding.is_empty());
    assert!(all[0].add_time > 0);
    let fields = create_test_records();
    let rows = FileContentRecords::from_fields(&fields).unwrap();
    assert_eq!(rows.len(), 2);
    assert!(rows[1].embedding.is_empty());
    assert_eq!(rows[1].text, "古古怪怪古古怪怪");
}

#[test]
fn nearest_rows_come_by_ascending_distance_within_the_bound() {
    let far = 0.61f32.to_bits();
    let edge = 0.6f32.to_bits();
    let distances = vec![0.5f32.to_bits(), far, 0.1f32.to_bits(), edge, 0.1f32.to_bits(), 0.0f32.to_bits()];
    assert_eq!(select_nearest(&distances, MIN_DISTANCE, MAX_DISTANCE, 10), vec![5, 2, 4, 0, 3]);
    assert_eq!(select_nearest(&distances, MIN_DISTANCE, MAX_DISTANCE, 3), vec![5, 2, 4]);
    assert_eq!(select_nearest(&distances, MIN_DISTANCE, MAX_DISTANCE, 0), Vec::<usize>::new());
    assert_eq!(select_nearest(&vec![far, far], MIN_DISTANCE, MAX_DISTANCE, 5), Vec::<usize>::new());
    assert_eq!(select_nearest(&Vec::new(), MIN_DISTANCE, MAX_DISTANCE, 5), Vec::<usize>::new());
    assert_eq!(select_nearest(&distances, 0.1f32.to_bits(), 0.5f32.to_bits(), 10), vec![2, 4, 0]);
}

#[test]
fn similar_rows_respect_the_distance_bound() {
    let mut repo = FileContentsRepo::new();
    let query = bits(vec![1.0, 0.0, 0.0]);
    let stored = vec![
        ("same", vec![2.0, 0.0, 0.0]),
        ("near", vec![1.0, 0.5, 0.0]),
        ("orthogonal", vec![0.0, 1.0, 0.0]),
        ("opposite", vec![-1.0, 0.0, 0.0]),
        ("edge", vec![0.5, 1.0, 0.0]),
    ];
    let mut distances = Vec::new();
    for (text, vector) in &stored {
        let mut padded = vector.clone();
        padded.resize(384, 0.0);
        let mut q = f32s(&query);
        q.resize(384, 0.0);
        distances.push(cosine_distance(&bits(q), &bits(padded.clone())));
        let data = vec![EmbedData::new(
            EmbeddingResult::DenseVector(bits(padded)),
            Some(text.to_string()),
            None,
        )];
        repo.add(&FileContentRecordFields::new_at("doc".to_string(), &data, 1)).unwrap();
    }
    let found = repo.find_similar(&distances, 5).unwrap();
    let texts: Vec<&str> = found.iter().map(|r| r.text.as_str()).collect();
    assert_eq!(texts, vec!["same", "near", "edge"]);
    let none = repo.find_similar(&vec![1.0f32.to_bits(); 5], 5).unwrap();
    assert!(none.is_empty());
    assert!(matches!(repo.find_similar(&vec![0; 2], 5), Err(AidenErrors::LancedbError(_))));
}

fn f32s(bits: &[u32]) -> Vec<f32> {
    bits.iter().map(|b| f32::from_bits(*b)).collect()
}

#[test]
fn the_search_statement_is_bounded_cosine() {
    let statement = ContentsStatement::find_similar(vec![1, 2, 3], 5);
    match &statement {
        ContentsStatement::FindSimilar { vector, metric, lower, upper, limit } => {
            assert_eq!(vector, &vec![1, 2, 3]);
            assert_eq!(*metric, DistanceType::Cosine);
            assert_eq!(*lower, MIN_DISTANCE);
            assert_eq!(*upper, MAX_DISTANCE);
            assert_eq!(*limit, 5);
        }
        other => panic!("unexpected statement {:?}", other),
    }
    assert_eq!(statement.limit(), Some(5));
    assert_eq!(statement.filter(), None);
    let delete = ContentsStatement::DeleteBy { file_path: "a'b".to_string() };
    assert_eq!(delete.filter(), Some("file_path = 'a''b'".to_string()));
    assert_eq!(ContentsStatement::QueryAll { limit: 3 }.limit(), Some(3));
}

#[test]
fn execute_runs_each_chunk_statement() {
    let mut repo = FileContentsRepo::new();
    let none: Vec<u32> = Vec::new();
    repo.execute(&ContentsStatement::Add(create_test_records()), &none).unwrap();
    assert_eq!(repo.execute(&ContentsStatement::QueryAll { limit: 1 }, &none).unwrap().len(), 1);
    let distances = vec![0.7f32.to_bits(), 0.2f32.to_bits()];
    let found = repo.execute(&ContentsStatement::find_similar(vec![], 5), &distances).unwrap();
    assert_eq!(found.len(), 1);
    assert_eq!(found[0].text, "古古怪怪古古怪怪");
    repo.execute(&ContentsStatement::Optimize, &none).unwrap();
    assert_eq!(repo.len(), 2);
    repo.execute(&ContentsStatement::DeleteBy { file_path: "test_path".to_string() }, &none).unwrap();
    assert_eq!(repo.len(), 0);
}

#[test]
fn markdown_groups_texts_under_their_path() {
    let records = FileContentRecords(vec![
        record("a.txt", "first"),
        record("b.txt", "second"),
        record("a.txt", "third"),
    ]);
    assert_eq!(records.paths(), vec!["a.txt".to_string(), "b.txt".to_string()]);
    assert_eq!(
        records.to_markdown(),
        "### File: a.txt\n\n- first\n- third\n\n---\n\n### File: b.txt\n\n- second\n\n---\n\n"
    );
    assert_eq!(FileContentRecords(vec![]).to_markdown(), "");
    assert_eq!(FileContentRecords(vec![record("x", "y")]).to_markdown(), "### File: x\n\n- y\n\n---\n\n");
}

#[test]
fn the_chunk_schema_fixes_the_dimension() {
    let columns = file_contents_schema();
    assert_eq!(columns.len(), 4);
    assert_eq!(columns[2].name, "embedding");
    assert_eq!(columns[2].data_type, ColumnType::Embedding { dimension: 384 });
}

#[test]
fn a_distance_below_zero_is_ranked_as_zero() {
    assert_eq!(distance_key(0.25f32.to_bits()), 0.25f32.to_bits());
    assert_eq!(distance_key(0.0f32.to_bits()), 0);
    assert_eq!(distance_key((-0.0f32).to_bits()), 0);
    assert_eq!(distance_key((-1.0e-7f32).to_bits()), 0);
    assert_eq!(distance_key(0x7fff_ffff), 0x7fff_ffff);
    assert_eq!(distance_key(0x8000_0000), 0);
    assert_eq!(distance_key(u32::MAX), 0);
}

#[test]
fn the_engine_is_asked_for_one_pattern_more() {
    assert_eq!(widened_upper(MAX_DISTANCE), MAX_DISTANCE + 1);
    assert!(f32::from_bits(widened_upper(MAX_DISTANCE)) > 0.6f32);
    assert_eq!(widened_upper(0), 1);
    assert_eq!(widened_upper(u32::MAX), u32::MAX);
}

#[test]
fn rows_are_picked_by_the_distances_that_come_back() {
    let reported = vec![
        (-1.0e-7f32).to_bits(),
        0.6f32.to_bits(),
        f32::from_bits(MAX_DISTANCE + 1).to_bits(),
        0.3f32.to_bits(),
    ];
    assert_eq!(pick_nearest(&reported, MIN_DISTANCE, MAX_DISTANCE, 5), vec![0, 3, 1]);
    assert_eq!(pick_nearest(&reported, MIN_DISTANCE, MAX_DISTANCE, 2), vec![0, 3]);
    assert_eq!(pick_nearest(&Vec::new(), MIN_DISTANCE, MAX_DISTANCE, 5), Vec::<usize>::new());
}
