use books_api::error::AppError;
use books_api::handler::{respond_to_rows, step, Action, Event, Phase, BOOKS_QUERY};
use books_api::reply::{Reply, JSON_CONTENT_TYPE, STATUS_INTERNAL_SERVER_ERROR, STATUS_OK};
use books_api::row::{Cell, Row};
use deadpool::managed::{PoolError, TimeoutType};

fn database_error() -> tokio_postgres::Error {
    "host".parse::<tokio_postgres::Config>().unwrap_err()
}

fn text(value: &str) -> Cell {
    Cell::Text(value.to_string())
}

fn dune() -> Row {
    Row { cells: vec![Cell::Int(1), text("Dune"), text("Frank Herbert"), text("1965-08-01")] }
}

fn failure() -> Reply {
    Reply { status: 500, content_type: None, body: String::new() }
}

fn reply_of(result: Option<(Phase, Action)>) -> Reply {
    match result {
        Some((Phase::Done, Action::Respond(reply))) => reply,
        other => panic!("not a reply: {:?}", other),
    }
}

#[test]
fn the_query_reads_the_four_columns_in_order() {
    assert_eq!(BOOKS_QUERY, "SELECT id, title, author, publication_date FROM books");
}

#[test]
fn reply_constants() {
    assert_eq!(STATUS_OK, 200);
    assert_eq!(STATUS_INTERNAL_SERVER_ERROR, 500);
    assert_eq!(JSON_CONTENT_TYPE, "application/json");
}

#[test]
fn json_reply_is_200_with_the_body() {
    let reply = Reply::json("[]".to_string());
    assert_eq!(reply, Reply { status: 200, content_type: Some("application/json"), body: "[]".to_string() });
}

#[test]
fn failure_reply_is_500_without_a_body() {
    assert_eq!(Reply::failure(), failure());
}

#[test]
fn a_request_asks_for_a_client() {
    match step(Phase::Idle, Event::Request) {
        Some((Phase::Acquiring, Action::Acquire)) => {}
        other => panic!("unexpected: {:?}", other),
    }
}

#[test]
fn a_client_is_followed_by_the_query() {
    match step(Phase::Acquiring, Event::Acquired(Ok(()))) {
        Some((Phase::Querying, Action::Query(text))) => {
            assert_eq!(text, "SELECT id, title, author, publication_date FROM books");
        }
        other => panic!("unexpected: {:?}", other),
    }
}

#[test]
fn a_closed_pool_fails_the_request() {
    let reply = reply_of(step(Phase::Acquiring, Event::Acquired(Err(PoolError::Closed))));
    assert_eq!(reply, failure());
}

#[test]
fn a_pool_timeout_fails_the_request() {
    for kind in [TimeoutType::Wait, TimeoutType::Create, TimeoutType::Recycle] {
        let event = Event::Acquired(Err(PoolError::Timeout(kind)));
        assert_eq!(reply_of(step(Phase::Acquiring, event)), failure());
    }
}

#[test]
fn an_unreachable_backend_fails_the_request_without_a_body() {
    let event = Event::Acquired(Err(PoolError::Backend(database_error())));
    let reply = reply_of(step(Phase::Acquiring, event));
    assert!(!(200..300).contains(&reply.status));
    assert_eq!(reply.status, 500);
    assert_eq!(reply.content_type, None);
    assert_eq!(reply.body, "");
    assert!(!reply.body.starts_with('['));
}

#[test]
fn a_failed_query_fails_the_request() {
    let reply = reply_of(step(Phase::Querying, Event::Queried(Err(database_error()))));
    assert_eq!(reply, failure());
}

#[test]
fn an_empty_table_replies_with_the_empty_array() {
    let reply = reply_of(step(Phase::Querying, Event::Queried(Ok(Vec::new()))));
    assert_eq!(reply.status, 200);
    assert_eq!(reply.content_type, Some("application/json"));
    assert_eq!(reply.body, "[]");
}

#[test]
fn one_seeded_row_replies_with_one_object() {
    let reply = reply_of(step(Phase::Querying, Event::Queried(Ok(vec![dune()]))));
    assert_eq!(reply.status, 200);
    assert_eq!(reply.content_type, Some("application/json"));
    assert_eq!(
        reply.body,
        "[{\"id\":1,\"title\":\"Dune\",\"author\":\"Frank Herbert\",\"publication_date\":\"1965-08-01\"}]"
    );
}

#[test]
fn rows_are_sent_in_the_order_they_came() {
    let rows = vec![
        Row { cells: vec![Cell::Int(2), text("B"), text("b"), text("2002")] },
        Row { cells: vec![Cell::Int(1), text("A"), text("a"), text("2001")] },
    ];
    let reply = reply_of(step(Phase::Querying, Event::Queried(Ok(rows))));
    assert_eq!(
        reply.body,
        "[{\"id\":2,\"title\":\"B\",\"author\":\"b\",\"publication_date\":\"2002\"},{\"id\":1,\"title\":\"A\",\"author\":\"a\",\"publication_date\":\"2001\"}]"
    );
}

#[test]
fn every_row_gives_exactly_one_element() {
    for count in [1usize, 2, 3, 10, 57] {
        let rows: Vec<Row> = (0..count)
            .map(|i| Row { cells: vec![Cell::Int(i as i32), text("t"), text("a"), text("d")] })
            .collect();
        let reply = respond_to_rows(&rows);
        assert_eq!(reply.status, 200);
        let parsed: serde_json::Value = serde_json::from_str(&reply.body).unwrap();
        let elements = parsed.as_array().unwrap();
        assert_eq!(elements.len(), count);
        for (i, element) in elements.iter().enumerate() {
            let members = element.as_object().unwrap();
            assert_eq!(members.len(), 4);
            assert_eq!(members["id"].as_i64(), Some(i as i64));
            assert!(members["title"].is_string());
            assert!(members["author"].is_string());
            assert!(members["publication_date"].is_string());
        }
    }
}

#[test]
fn a_spoilt_row_fails_the_whole_request() {
    let spoilt = Row { cells: vec![Cell::Int(2), text("t"), Cell::Null, text("d")] };
    let reply = reply_of(step(Phase::Querying, Event::Queried(Ok(vec![dune(), spoilt]))));
    assert_eq!(reply, failure());
    let short = Row { cells: vec![Cell::Int(2)] };
    assert_eq!(respond_to_rows(&vec![short]), failure());
}

#[test]
fn respond_to_rows_agrees_with_step() {
    assert_eq!(respond_to_rows(&Vec::new()).body, "[]");
    assert_eq!(
        respond_to_rows(&vec![dune()]),
        reply_of(step(Phase::Querying, Event::Queried(Ok(vec![dune()]))))
    );
}

#[test]
fn events_out_of_turn_are_refused() {
    assert!(step(Phase::Idle, Event::Acquired(Ok(()))).is_none());
    assert!(step(Phase::Idle, Event::Acquired(Err(PoolError::Closed))).is_none());
    assert!(step(Phase::Idle, Event::Queried(Ok(vec![dune()]))).is_none());
    assert!(step(Phase::Idle, Event::Queried(Err(database_error()))).is_none());
    assert!(step(Phase::Acquiring, Event::Request).is_none());
    assert!(step(Phase::Acquiring, Event::Queried(Ok(Vec::new()))).is_none());
    assert!(step(Phase::Acquiring, Event::Queried(Err(database_error()))).is_none());
    assert!(step(Phase::Querying, Event::Request).is_none());
    assert!(step(Phase::Querying, Event::Acquired(Ok(()))).is_none());
    assert!(step(Phase::Querying, Event::Acquired(Err(PoolError::Closed))).is_none());
}

#[test]
fn nothing_follows_the_reply() {
    assert!(step(Phase::Done, Event::Request).is_none());
    assert!(step(Phase::Done, Event::Acquired(Ok(()))).is_none());
    assert!(step(Phase::Done, Event::Acquired(Err(PoolError::NoRuntimeSpecified))).is_none());
    assert!(step(Phase::Done, Event::Queried(Ok(Vec::new()))).is_none());
    assert!(step(Phase::Done, Event::Queried(Err(database_error()))).is_none());
}

#[test]
fn a_whole_request_takes_three_steps() {
    let (phase, action) = step(Phase::Idle, Event::Request).unwrap();
    assert!(matches!(action, Action::Acquire));
    let (phase, action) = step(phase, Event::Acquired(Ok(()))).unwrap();
    assert!(matches!(action, Action::Query(BOOKS_QUERY)));
    let (phase, action) = step(phase, Event::Queried(Ok(vec![dune()]))).unwrap();
    assert_eq!(phase, Phase::Done);
    match action {
        Action::Respond(reply) => assert_eq!(reply.status, 200),
        other => panic!("unexpected: {:?}", other),
    }
}

#[test]
fn a_request_without_a_client_takes_two_steps() {
    let (phase, _) = step(Phase::Idle, Event::Request).unwrap();
    let (phase, action) = step(phase, Event::Acquired(Err(PoolError::Closed))).unwrap();
    assert_eq!(phase, Phase::Done);
    assert!(matches!(action, Action::Respond(_)));
}

#[test]
fn a_pool_error_becomes_the_pool_kind() {
    assert!(matches!(AppError::from(PoolError::Closed), AppError::PoolError(PoolError::Closed)));
    assert!(matches!(
        AppError::from(PoolError::Timeout(TimeoutType::Wait)),
        AppError::PoolError(PoolError::Timeout(TimeoutType::Wait))
    ));
    assert!(matches!(
        AppError::from(PoolError::Backend(database_error())),
        AppError::PoolError(PoolError::Backend(_))
    ));
}

#[test]
fn a_database_error_becomes_the_query_kind() {
    let error = AppError::from(database_error());
    match error {
        AppError::PgError(cause) => assert_eq!(cause.to_string(), "invalid connection string"),
        other => panic!("unexpected: {:?}", other),
    }
}

#[test]
fn both_kinds_of_error_give_the_same_reply() {
    let pool = AppError::from(PoolError::Closed).to_reply();
    let query = AppError::from(database_error()).to_reply();
    assert_eq!(pool, query);
    assert_eq!(pool, failure());
}
