use aiden::errors::AidenErrors;
use aiden::storage::open_ai::{
    OpenAiRecord, OpenAiRecordFields, OpenAiRecords, OpenAiRepo, OpenAiStatement,
};
use aiden::storage::open_ai_schema;

fn test_data() -> (String, String) {
    ("https://api.deepseek.com/v1".to_string(), "token1".to_string())
}

#[test]
fn open_ai_test_insert_data() {
    let mut repo = OpenAiRepo::new();

    let (urls, tokens) = test_data();
    let result = repo.insert_data(urls, tokens);
    assert!(result.is_ok(), "Failed to insert data");
    assert_eq!(repo.query_all().len(), 1);
}

#[test]
fn open_ai_test_query_all() {
    let mut repo = OpenAiRepo::new();
    let (urls, tokens) = test_data();
    repo.insert_data(urls, tokens).unwrap();

    let records = repo.query_all();
    assert_eq!(records.len(), 1);

    assert_eq!(&records[0].url, "https://api.deepseek.com/v1");
    assert_eq!(&records[0].token, "token1");
    assert_eq!(&records[0].state, &true);
    assert!(&records[0].time > &0);
}

#[test]
fn test_query_available() {
    let mut repo = OpenAiRepo::new();
    let (urls, tokens) = test_data();
    repo.insert_data(urls, tokens).unwrap();

    let records = repo.query_available(10);
    assert_eq!(records.len(), 1);

    assert_eq!(&records[0].url, "https://api.deepseek.com/v1");
    assert_eq!(&records[0].token, "token1");
    assert_eq!(&records[0].state, &true);
    assert!(&records[0].time > &0);
}

#[test]
fn test_update_token() {
    let mut repo = OpenAiRepo::new();
    let (urls, tokens) = test_data();
    repo.insert_data(urls, tokens).unwrap();

    let _ = repo.update_token("https://api.deepseek.com/v2", "new_token2").unwrap();

    let records = repo.query_all();
    assert_eq!(records.len(), 1);

    assert_eq!(&records[0].url, "https://api.deepseek.com/v2");
    assert_eq!(&records[0].token, "new_token2");
    assert_eq!(&records[0].state, &true);
    assert!(&records[0].time > &0);
}

#[test]
fn test_update_state_unavailable() {
    let mut repo = OpenAiRepo::new();
    let (urls, tokens) = test_data();
    repo.insert_data(urls, tokens).unwrap();

    let result = repo.update_state(false);
    assert!(result.is_ok(), "Failed to update state");

    let records = repo.query_all();
    assert_eq!(records.len(), 1);

    assert_eq!(&records[0].url, "https://api.deepseek.com/v1");
    assert_eq!(&records[0].token, "token1");
    assert_eq!(&records[0].state, &false);
    assert!(&records[0].time > &0);
}

#[test]
fn saving_credentials_keeps_one_row_and_enables_it() {
    let mut repo = OpenAiRepo::new();
    assert!(repo.query_id().is_none());
    repo.update_insert_token_at("u1", "t1", 5);
    repo.update_state_at(false, 6);
    assert!(repo.query_available(10).is_empty());
    repo.update_insert_token_at("u2", "t2", 7);
    let records = repo.query_all();
    assert_eq!(records.len(), 1);
    assert_eq!(records[0].id, 1);
    assert_eq!(records[0].url, "u2");
    assert_eq!(records[0].token, "t2");
    assert_eq!(records[0].state, true);
    assert_eq!(records[0].time, 7);
    let found = repo.query_id().unwrap();
    assert_eq!(found.url, "u2");
    repo.update_insert_token("u3", "t3").unwrap();
    assert_eq!(repo.query_all().len(), 1);
    assert_eq!(repo.query_id().unwrap().token, "t3");
}

#[test]
fn the_save_statement_depends_on_the_row() {
    match OpenAiStatement::save_token(false, "u", "t", 3) {
        OpenAiStatement::Add { url, token, time } => {
            assert_eq!(url, "u");
            assert_eq!(token, "t");
            assert_eq!(time, 3);
        }
        other => panic!("unexpected statement {:?}", other),
    }
    match OpenAiStatement::save_token(true, "u", "t", 4) {
        OpenAiStatement::UpdateToken { url, token, time } => {
            assert_eq!(url, "u");
            assert_eq!(token, "t");
            assert_eq!(time, 4);
        }
        other => panic!("unexpected statement {:?}", other),
    }
}

#[test]
fn endpoint_statements_are_written_in_the_filter_language() {
    let update = OpenAiStatement::UpdateToken { url: "http://x/'y'".to_string(), token: "k".to_string(), time: 12 };
    assert_eq!(update.filter(), Some("id = 1".to_string()));
    let columns: Vec<(String, String)> =
        update.columns().into_iter().map(|c| (c.column, c.expression)).collect();
    assert_eq!(
        columns,
        vec![
            ("url".to_string(), "'http://x/''y'''".to_string()),
            ("state".to_string(), "true".to_string()),
            ("token".to_string(), "'k'".to_string()),
            ("time".to_string(), "12".to_string()),
        ]
    );
    let breaker = OpenAiStatement::UpdateState { state: false, time: -3 };
    assert_eq!(breaker.filter(), Some("id = 1".to_string()));
    let columns: Vec<(String, String)> =
        breaker.columns().into_iter().map(|c| (c.column, c.expression)).collect();
    assert_eq!(
        columns,
        vec![("state".to_string(), "false".to_string()), ("time".to_string(), "-3".to_string())]
    );
    assert_eq!(OpenAiStatement::QueryId.filter(), Some("id = 1".to_string()));
    assert_eq!(OpenAiStatement::QueryId.limit(), Some(1));
    assert_eq!(OpenAiStatement::QueryAvailable { limit: 4 }.filter(), Some("state = true".to_string()));
    assert_eq!(OpenAiStatement::QueryAvailable { limit: 4 }.limit(), Some(4));
    assert_eq!(OpenAiStatement::QueryAll.filter(), None);
    let add = OpenAiStatement::Add { url: "u".to_string(), token: "t".to_string(), time: 9 };
    let batch = add.batch().unwrap();
    assert_eq!(batch.ids, vec![1]);
    assert_eq!(batch.urls, vec!["u".to_string()]);
    assert_eq!(batch.states, vec![true]);
    assert_eq!(batch.times, vec![9]);
    assert!(OpenAiStatement::QueryAll.batch().is_none());
}

#[test]
fn execute_runs_each_endpoint_statement() {
    let mut repo = OpenAiRepo::new();
    repo.execute(&OpenAiStatement::Add { url: "u".to_string(), token: "t".to_string(), time: 1 });
    assert_eq!(repo.execute(&OpenAiStatement::QueryId).len(), 1);
    repo.execute(&OpenAiStatement::UpdateState { state: false, time: 2 });
    assert_eq!(repo.execute(&OpenAiStatement::QueryAvailable { limit: 5 }).len(), 0);
    let all = repo.execute(&OpenAiStatement::QueryAll);
    assert_eq!(all[0].state, false);
    assert_eq!(all[0].time, 2);
    repo.execute(&OpenAiStatement::UpdateToken { url: "v".to_string(), token: "w".to_string(), time: 3 });
    let all = repo.execute(&OpenAiStatement::QueryAll);
    assert_eq!(all[0].state, true);
    assert_eq!(all[0].url, "v");
}

#[test]
fn endpoint_columns_become_rows() {
    let fields = OpenAiRecordFields::single(OpenAiRecord {
        id: 1,
        url: "u".to_string(),
        token: "t".to_string(),
        state: false,
        time: 8,
    });
    let rows = OpenAiRecords::from_fields(&fields).unwrap();
    assert_eq!(rows.len(), 1);
    assert_eq!(rows[0].time, 8);
    assert_eq!(rows[0].state, false);
    let mut broken = fields;
    broken.ids.push(2);
    assert!(matches!(OpenAiRecords::from_fields(&broken), Err(AidenErrors::ArrowError(_))));
    assert_eq!(open_ai_schema().len(), 5);
}
