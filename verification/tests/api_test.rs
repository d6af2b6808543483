use cleopatra::models::{
    CreateTestResult, CreateTestResultBase, CreateTestResultResponse, Execution, Status,
};
use cleopatra::query::{execution_listing, has_next, page_limit, page_offset, ExecutionFilter};
use cleopatra::store::{status_statement, Binding, ResultTable};
use cleopatra::stream::{read_body, StreamIngest};
use cleopatra::suggestion::{suggest, PrefixTrie};
use cleopatra::writer::{MessageKind, WriterManager, WriterMessage, WriterName};

fn stream(execution_id: i64, lines: &[&str]) -> (cleopatra::models::StreamResponse, Vec<CreateTestResult>) {
    let body = lines.join("\n");
    let mut manager = WriterManager::new();
    manager.insert(WriterName::Main, MessageKind::TestResult);
    let mut ingest = StreamIngest::new(execution_id);
    let mut sent = Vec::new();
    for outcome in read_body(body.as_bytes(), execution_id) {
        match outcome {
            Ok(parsed) => {
                match manager.enqueue(WriterName::Main, WriterMessage::TestResult(parsed.payload)) {
                    Ok(payload) => {
                        sent.push(payload);
                        ingest.enqueued_outcome(Ok(()), parsed.raw);
                    }
                    Err(e) => ingest.enqueued_outcome(Err(e.message()), parsed.raw),
                }
            }
            Err(item) => ingest.reject(item),
        }
    }
    (ingest.finish(), sent)
}

#[test]
fn test_stream_results() {
    let execution_id = 11;
    let test_results: Vec<&str> = vec![
        r#"{"name":"test_login_functionality","platform":"web","description":"Test login with valid credentials","status":"P","execution_time":1500,"log":"Login successful","screenshot_id":1001,"created_by":"test-user","time_created":1234567891}"#,
        r#"{"name":"test_signup_functionality","platform":"web","description":"Test signup flow","status":"F","execution_time":2300,"log":"Signup failed","screenshot_id":1002,"created_by":"test-user","time_created":1234567892}"#,
        r#"{"name":"test_password_reset","platform":"api","description":"Test password reset functionality","status":"P","execution_time":1800,"log":"Password reset successful","screenshot_id":1003,"created_by":"test-user","time_created":1234567893}"#,
    ];

    let (stream_response, sent) = stream(execution_id, &test_results);

    assert_eq!(stream_response.status, "C");
    assert_eq!(stream_response.execution_id, execution_id);
    assert_eq!(stream_response.received, 3);
    assert_eq!(stream_response.inserted, 3);
    assert_eq!(stream_response.failed, 0);
    assert!(stream_response.failed_items.is_none());

    assert_eq!(sent.len(), 3);
    assert_eq!(sent[2].base().name, "test_password_reset");
    assert_eq!(sent[2].base().platform, "api");
    assert_eq!(sent[2].base().screenshot_id, Some(1003));
    assert_eq!(sent[2].base().log, Some("Password reset successful".to_string()));
}

#[test]
fn test_stream_results_with_invalid_data() {
    let execution_id = 12;
    let invalid_result = r#"{"name":"invalid_test","platform":"api","description":"Test password reset functionality","status":"X","execution_time":1800,"log":"Password reset successful","screenshot_id":1003,"created_by":"test-user","time_created":1234567893}"#;

    let test_results: Vec<&str> = vec![
        r#"{"name":"test_login_functionality","platform":"web","description":"Test login with valid credentials","status":"P","execution_time":1500,"log":"Login successful","screenshot_id":1001,"created_by":"test-user","time_created":1234567891}"#,
        r#"{"name":"test_signup_functionality","platform":"web","description":"Test signup flow","status":"F","execution_time":2300,"log":"Signup failed","screenshot_id":1002,"created_by":"test-user","time_created":1234567892}"#,
        invalid_result,
    ];

    let (stream_response, sent) = stream(execution_id, &test_results);

    assert_eq!(stream_response.status, "P");
    assert_eq!(stream_response.execution_id, execution_id);
    assert_eq!(stream_response.received, 3);
    assert_eq!(stream_response.inserted, 2);
    assert_eq!(stream_response.failed, 1);

    let failed_items = stream_response.failed_items.unwrap();
    assert_eq!(failed_items.len(), 1);
    assert!(failed_items[0].error.contains("unknown variant `X`"));
    assert_eq!(failed_items[0].raw_payload.clone().unwrap(), invalid_result);

    assert!(sent.iter().all(|p| p.base().name != "invalid_test"));
}

fn result(
    execution_id: i64,
    description: &str,
    status: Status,
    execution_time: i64,
    log: &str,
    screenshot_id: Option<i64>,
    time_created: i64,
) -> CreateTestResult {
    CreateTestResult {
        execution_id,
        base: CreateTestResultBase {
            name: "test_upsert_functionality".to_string(),
            platform: "web".to_string(),
            description: Some(description.to_string()),
            status,
            execution_time: Some(execution_time),
            log: Some(log.to_string()),
            screenshot_id,
            created_by: Some("test-user".to_string()),
            time_created,
        },
    }
}

#[test]
fn test_upsert_result() {
    let execution_id = 21;
    let mut table = ResultTable::new();
    table.flush(&vec![result(execution_id, "Test failed", Status::F, 1000, "First run", Some(1003), 1234567893)]);
    table.flush(&vec![result(execution_id, "Test passed", Status::P, 1200, "Second run", None, 12345678999)]);

    assert_eq!(table.len(), 1);

    let result = table.find(execution_id, "test_upsert_functionality").expect("Expected results to be found");
    assert_eq!(result.execution_id, execution_id);
    assert_eq!(result.name, "test_upsert_functionality");
    assert_eq!(result.platform, "web");
    assert_eq!(result.description.as_ref().unwrap(), "Test passed");
    assert_eq!(result.status, Status::P);
    assert_eq!(result.execution_time, Some(1200));
    assert_eq!(result.log.as_ref().unwrap(), "Second run");
    assert!(result.screenshot_id.is_none());
    assert_eq!(result.created_by.as_ref().unwrap(), "test-user");
    assert_eq!(result.counter, 2);
}

#[test]
fn test_get_result_by_id() {
    let mut table = ResultTable::new();
    let mut payload = result(31, "Test get result by ID", Status::P, 800, "Test passed", Some(1002), 1234567892);
    payload.base.name = "test_get_result".to_string();
    payload.base.platform = "api".to_string();
    table.upsert(&payload);
    let id = table.find(31, "test_get_result").expect("Expected results to be found").id.expect("Result should have an ID");
    let found = table.get(id).expect("Expected result to be found");
    assert_eq!(found.id, Some(id));
    assert_eq!(found.execution_id, 31);
    assert_eq!(found.name, "test_get_result");
    assert_eq!(found.platform, "api");
    assert_eq!(found.description.as_ref().unwrap(), "Test get result by ID");
    assert_eq!(found.status, Status::P);
    assert_eq!(found.execution_time, Some(800));
    assert_eq!(found.log.as_ref().unwrap(), "Test passed");
    assert_eq!(found.screenshot_id, Some(1002));
    assert_eq!(found.created_by.as_ref().unwrap(), "test-user");
    assert!(table.get(id + 1).is_none());
}

#[test]
fn test_update_result_status() {
    let execution_id = 41;
    let mut table = ResultTable::new();
    let mut payload = result(execution_id, "Initial status test", Status::P, 1000, "Initial run", None, 1234567891);
    payload.base.name = "test_update_status".to_string();
    payload.base.platform = "api".to_string();
    table.upsert(&payload);

    assert_eq!(table.len(), 1);
    let initial_result = table.find(execution_id, "test_update_status").expect("Expected results to be found");
    assert_eq!(initial_result.status, Status::P);
    let result_id = initial_result.id.expect("Result should have an ID");

    let status = Status::value_of("F").expect("a status");
    assert!(table.update_status(result_id, status));

    let updated_result = table.get(result_id).expect("Expected result to be found");
    assert_eq!(updated_result.status, Status::F);
    assert_eq!(updated_result.counter, 1);
    assert_eq!(updated_result.description.as_ref().unwrap(), "Initial status test");
    assert!(!table.update_status(result_id + 1, Status::P));

    let statement = status_statement(result_id, status);
    assert_eq!(statement.text, "UPDATE test_result SET status = ? WHERE id = ? RETURNING *");
    assert!(matches!(&statement.bindings[0], Binding::Text(t) if t == "F"));
    assert!(matches!(&statement.bindings[1], Binding::Integer(i) if *i == result_id));
}

#[test]
fn test_create_result() {
    let mut manager = WriterManager::new();
    manager.insert(WriterName::Main, MessageKind::TestResult);
    let payload = result(51, "d", Status::P, 1, "l", None, 1);
    assert!(manager.enqueue(WriterName::Main, WriterMessage::TestResult(payload)).is_ok());
    assert_eq!(CreateTestResultResponse::delivered().status, "delivered");
}

#[test]
fn test_get_suggested_executions() {
    let execution_names = vec![
        "login_test",
        "login_validation",
        "logout_test",
        "longer_prefix_test",
        "other_execution",
    ];

    let mut trie = PrefixTrie::new(2, 10, 5);
    let mut id = 0;
    for name in execution_names {
        id += 1;
        trie.index_execution(&Execution {
            id: Some(id),
            name: name.to_string(),
            tag: Some("suggest-test".to_string()),
            created_by: Some("test-user".to_string()),
            time_created: 1234567890,
        });
    }

    let suggest_response = suggest(Some(&trie), Some("log".to_string()), 2, 5);

    assert_eq!(suggest_response.query, "log");
    assert_eq!(suggest_response.limit, 5);

    assert!(!suggest_response.suggestions.is_empty());
    assert_eq!(suggest_response.suggestions.len(), 3);

    for suggestion in &suggest_response.suggestions {
        let name = suggestion.name.to_lowercase();
        assert!(name.starts_with(&"log".to_lowercase()));
    }

    let empty_suggest_response = suggest(Some(&trie), Some("".to_string()), 2, 5);

    assert_eq!(empty_suggest_response.query, "");

    assert!(empty_suggest_response.suggestions.is_empty());
}

#[test]
fn an_execution_listing_is_filtered_and_paged() {
    let plan = execution_listing(&ExecutionFilter {
        created_by: Some("Jane Doe".to_string()),
        name: None,
        tag: None,
    });
    assert_eq!(plan.count_query, "SELECT COUNT(*) FROM execution WHERE 1=1 AND created_by = ?");
    assert_eq!(
        plan.query,
        "SELECT * FROM execution WHERE 1=1 AND created_by = ? ORDER BY id DESC LIMIT ? OFFSET ?"
    );
    assert_eq!(plan.bindings, vec!["Jane Doe"]);

    let limit = page_limit(Some("10"));
    let offset = page_offset(None);
    assert_eq!(limit, 10);
    assert_eq!(offset, 0);
    assert!(has_next(offset, limit, 21));
    assert!(has_next(10, limit, 21));
    assert!(!has_next(20, limit, 21));
    assert!(!has_next(page_offset(None), page_limit(None), 1));
}
