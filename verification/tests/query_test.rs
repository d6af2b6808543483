use cleopatra::db::{checkpoint_mode_named, checkpoint_statement, connection_pragmas};
use cleopatra::error::{error_body, error_kind, internal_error, normalize_error};
use cleopatra::models::{Status, Summary};
use cleopatra::query::{
    execution_listing, has_next, limit_of, missing_execution_message, offset_of, page_limit,
    page_offset, result_listing, summary_of, wants_summary, ExecutionFilter, ResultFilter,
};
use cleopatra::routes::{execution_routes, result_routes, routes, stream_routes, Handler, Method, Route};

#[test]
fn the_page_size_defaults_to_20_and_stops_at_100() {
    assert_eq!(page_limit(None), 20);
    assert_eq!(page_limit(Some("50")), 50);
    assert_eq!(page_limit(Some("100")), 100);
    assert_eq!(page_limit(Some("101")), 100);
    assert_eq!(page_limit(Some("9223372036854775807")), 100);
    assert_eq!(page_limit(Some("abc")), 20);
    assert_eq!(page_limit(Some("")), 20);
    assert_eq!(page_limit(Some("9223372036854775808")), 20);
    assert_eq!(page_limit(Some("-5")), -5);
    assert_eq!(limit_of(Some(7)), 7);
    assert_eq!(limit_of(Some(1000)), 100);
    assert_eq!(limit_of(None), 20);
}

#[test]
fn the_offset_defaults_to_zero() {
    assert_eq!(page_offset(None), 0);
    assert_eq!(page_offset(Some("40")), 40);
    assert_eq!(page_offset(Some("+3")), 3);
    assert_eq!(page_offset(Some("4 ")), 0);
    assert_eq!(offset_of(Some(12)), 12);
    assert_eq!(offset_of(None), 0);
}

#[test]
fn rows_follow_where_the_page_ends_before_the_total() {
    assert!(has_next(0, 20, 21));
    assert!(!has_next(0, 20, 20));
    assert!(!has_next(20, 20, 21));
    assert!(has_next(10, 10, 21));
    assert!(!has_next(i64::MAX, i64::MAX, i64::MAX));
    assert!(has_next(i64::MIN, 0, 0));
}

#[test]
fn the_summary_adds_up() {
    assert_eq!(summary_of(3, 2, 1), Summary { total: 6, pass: 3, fail: 2, ignor: 1 });
    assert_eq!(summary_of(0, 0, 0), Summary { total: 0, pass: 0, fail: 0, ignor: 0 });
}

#[test]
fn the_summary_is_given_for_the_word_true_only() {
    assert!(wants_summary(Some("true")));
    assert!(!wants_summary(Some("TRUE")));
    assert!(!wants_summary(Some("1")));
    assert!(!wants_summary(None));
}

#[test]
fn a_listing_without_filters_has_no_bindings() {
    let plan = execution_listing(&ExecutionFilter { created_by: None, name: None, tag: None });
    assert_eq!(plan.query, "SELECT * FROM execution WHERE 1=1 ORDER BY id DESC LIMIT ? OFFSET ?");
    assert_eq!(plan.count_query, "SELECT COUNT(*) FROM execution WHERE 1=1");
    assert!(plan.bindings.is_empty());
}

#[test]
fn each_filter_adds_its_condition_and_binding_in_order() {
    let plan = execution_listing(&ExecutionFilter {
        created_by: Some("u".to_string()),
        name: Some("E1".to_string()),
        tag: Some("nightly".to_string()),
    });
    assert_eq!(
        plan.query,
        "SELECT * FROM execution WHERE 1=1 AND created_by = ? AND name = ? AND tag LIKE ? ORDER BY id DESC LIMIT ? OFFSET ?"
    );
    assert_eq!(
        plan.count_query,
        "SELECT COUNT(*) FROM execution WHERE 1=1 AND created_by = ? AND name = ? AND tag LIKE ?"
    );
    assert_eq!(plan.bindings, vec!["u", "E1", "nightly%"]);
}

#[test]
fn a_tag_is_matched_as_a_prefix() {
    let plan = execution_listing(&ExecutionFilter {
        created_by: None,
        name: None,
        tag: Some("t".to_string()),
    });
    assert_eq!(plan.count_query, "SELECT COUNT(*) FROM execution WHERE 1=1 AND tag LIKE ?");
    assert_eq!(plan.bindings, vec!["t%"]);
}

#[test]
fn results_are_listed_for_one_execution() {
    let plan = result_listing(-17, &ResultFilter { status: None, platform: None });
    assert_eq!(
        plan.query,
        "SELECT * FROM test_result WHERE execution_id = ? ORDER BY id ASC LIMIT ? OFFSET ?"
    );
    assert_eq!(plan.count_query, "SELECT COUNT(*) FROM test_result WHERE execution_id = ?");
    assert_eq!(plan.bindings, vec!["-17"]);
    let plan = result_listing(
        42,
        &ResultFilter { status: Some("F".to_string()), platform: Some("web".to_string()) },
    );
    assert_eq!(
        plan.query,
        "SELECT * FROM test_result WHERE execution_id = ? AND status = ? AND platform = ? ORDER BY id ASC LIMIT ? OFFSET ?"
    );
    assert_eq!(plan.bindings, vec!["42", "F", "web"]);
}

#[test]
fn a_missing_execution_is_named_by_its_id() {
    assert_eq!(
        missing_execution_message(987654),
        "invalid execution_id, no execution is found, execution_id :: 987654"
    );
    assert!(missing_execution_message(i64::MIN).ends_with(":: -9223372036854775808"));
    assert!(missing_execution_message(0).ends_with(":: 0"));
}

#[test]
fn a_status_token_is_one_of_three() {
    assert_eq!(Status::value_of("P"), Ok(Status::P));
    assert_eq!(Status::value_of("F"), Ok(Status::F));
    assert_eq!(Status::value_of("I"), Ok(Status::I));
    assert_eq!(
        Status::value_of("X"),
        Err("unknown variant `X`, expected one of `P`, `F`, `I`".to_string())
    );
    assert_eq!(
        Status::value_of(""),
        Err("unknown variant ``, expected one of `P`, `F`, `I`".to_string())
    );
    assert!(Status::value_of("PF").is_err());
    assert!(Status::value_of("f").is_err());
    assert_eq!(Status::P.as_str(), "P");
    assert_eq!(Status::F.as_str(), "F");
    assert_eq!(Status::I.as_str(), "I");
}

#[test]
fn each_status_code_has_its_kind() {
    assert_eq!(error_kind(400), "BAD_REQUEST");
    assert_eq!(error_kind(401), "UNAUTHORIZED");
    assert_eq!(error_kind(403), "FORBIDDEN");
    assert_eq!(error_kind(404), "NOT_FOUND");
    assert_eq!(error_kind(409), "CONFLICT");
    assert_eq!(error_kind(500), "INTERNAL_ERROR");
    assert_eq!(error_kind(418), "CLIENT_ERROR");
    assert_eq!(error_kind(499), "CLIENT_ERROR");
    assert_eq!(error_kind(503), "SERVER_ERROR");
    assert_eq!(error_kind(599), "SERVER_ERROR");
    assert_eq!(error_kind(200), "ERROR");
    assert_eq!(error_kind(600), "ERROR");
}

#[test]
fn an_error_keeps_what_the_handler_wrote() {
    let e = normalize_error(400, "invalid execution_id".to_string()).expect("an error");
    assert_eq!(e.error, "BAD_REQUEST");
    assert_eq!(e.message, "invalid execution_id");
    assert_eq!(e.field, None);
}

#[test]
fn an_error_without_text_gets_the_reason_phrase() {
    let e = normalize_error(404, String::new()).expect("an error");
    assert_eq!(e.error, "NOT_FOUND");
    assert_eq!(e.message, "Not Found");
    let e = normalize_error(500, String::new()).expect("an error");
    assert_eq!(e.message, "Internal Server Error");
    let e = normalize_error(599, String::new()).expect("an error");
    assert_eq!(e.error, "SERVER_ERROR");
    assert_eq!(e.message, "Unknown error");
    let e = error_body(409, String::new(), None);
    assert_eq!((e.error.as_str(), e.message.as_str()), ("CONFLICT", "Unknown error"));
    let e = error_body(409, String::new(), Some("Conflict".to_string()));
    assert_eq!(e.message, "Conflict");
    let e = error_body(409, "taken".to_string(), Some("Conflict".to_string()));
    assert_eq!(e.message, "taken");
}

#[test]
fn an_answer_that_is_no_error_is_left_alone() {
    assert!(normalize_error(200, "ok".to_string()).is_none());
    assert!(normalize_error(204, String::new()).is_none());
    assert!(normalize_error(399, String::new()).is_none());
    assert!(normalize_error(600, String::new()).is_none());
    assert!(normalize_error(400, String::new()).is_some());
}

#[test]
fn a_panic_is_answered_with_a_fixed_text() {
    let e = internal_error();
    assert_eq!(e.error, "INTERNAL_ERROR");
    assert_eq!(e.message, "An unexpected error occurred");
    assert_eq!(e.field, None);
}

#[test]
fn a_checkpoint_mode_is_read_in_any_case() {
    assert_eq!(checkpoint_statement("full"), Ok("PRAGMA wal_checkpoint(FULL)".to_string()));
    assert_eq!(checkpoint_statement("PASSIVE"), Ok("PRAGMA wal_checkpoint(PASSIVE)".to_string()));
    assert_eq!(checkpoint_statement("Restart"), Ok("PRAGMA wal_checkpoint(RESTART)".to_string()));
    assert_eq!(checkpoint_statement("truncate"), Ok("PRAGMA wal_checkpoint(TRUNCATE)".to_string()));
    assert!(checkpoint_mode_named("FULL"));
    assert!(!checkpoint_mode_named("full"));
}

#[test]
fn another_checkpoint_mode_is_refused() {
    assert_eq!(
        checkpoint_statement("fast"),
        Err("Invalid checkpoint mode: fast. Valid modes are: [\"PASSIVE\", \"FULL\", \"RESTART\", \"TRUNCATE\"]".to_string())
    );
}

#[test]
fn a_connection_sets_up_the_journal_where_it_is_enabled() {
    assert_eq!(
        connection_pragmas(true, 1000),
        vec![
            "PRAGMA journal_mode = WAL",
            "PRAGMA wal_autocheckpoint = 1000",
            "PRAGMA synchronous = NORMAL",
        ]
    );
    assert_eq!(connection_pragmas(true, -1)[1], "PRAGMA wal_autocheckpoint = -1");
    assert!(connection_pragmas(false, 1000).is_empty());
}

#[test]
fn the_suggestion_route_exists_only_where_enabled() {
    let suggest = Route { method: Method::Get, handler: Handler::SuggestExecutions };
    assert!(routes(true).contains(&suggest));
    assert!(!routes(false).contains(&suggest));
    assert!(routes(false).iter().all(|r| r.handler != Handler::SuggestExecutions));
    assert_eq!(routes(true).len(), 8);
    assert_eq!(routes(false).len(), 7);
    assert_eq!(execution_routes(true).len(), 4);
    assert_eq!(execution_routes(false).len(), 3);
}

#[test]
fn each_route_has_its_method_and_path() {
    let table: Vec<(Method, &str)> = routes(true).iter().map(|r| (r.method, r.handler.path())).collect();
    assert_eq!(
        table,
        vec![
            (Method::Post, "/api/execution"),
            (Method::Get, "/api/executions"),
            (Method::Get, "/api/execution/:id/result"),
            (Method::Get, "/api/executions/suggest"),
            (Method::Post, "/api/result"),
            (Method::Get, "/api/result/:id"),
            (Method::Patch, "/api/result/:id/status"),
            (Method::Post, "/api/executions/:execution_id/result/stream"),
        ]
    );
    assert_eq!(result_routes().len(), 3);
    assert_eq!(stream_routes(), vec![Route { method: Method::Post, handler: Handler::StreamResults }]);
}
