use cqrs_rust_lib::account::AccountErrorCode;
use cqrs_rust_lib::errors::{AggregateError, CqrsError, CqrsErrorCode};

#[test]
fn test_infra_error_codes() {
    let e = CqrsError::aggregate_not_found("missing".to_string());
    assert_eq!(e.code, "AGGREGATE_NOT_FOUND");
    assert_eq!(e.internal_code, 4001);
    assert_eq!(e.http_status, 404);

    let e = CqrsError::aggregate_already_exists("dup".to_string());
    assert_eq!(e.code, "AGGREGATE_ALREADY_EXISTS");
    assert_eq!(e.internal_code, 4002);
    assert_eq!(e.http_status, 409);

    let e = CqrsError::concurrency_error("raced".to_string());
    assert_eq!(e.code, "CONCURRENCY_ERROR");
    assert_eq!(e.internal_code, 4003);
    assert_eq!(e.http_status, 409);
    assert_eq!(e.kind(), AggregateError::Conflict);

    let e = CqrsError::database_error("down".to_string());
    assert_eq!(e.internal_code, 4004);
    assert_eq!(e.http_status, 500);
    assert_eq!(e.kind(), AggregateError::DatabaseError);

    let e = CqrsError::serialization_error("bad json".to_string());
    assert_eq!(e.internal_code, 4005);
    assert_eq!(e.http_status, 500);
    assert_eq!(e.kind(), AggregateError::SerializationError);

    let e = CqrsError::user_error("no".to_string());
    assert_eq!(e.internal_code, 4006);
    assert_eq!(e.http_status, 400);
    assert_eq!(e.kind(), AggregateError::UserError);
}

#[test]
fn test_domain_error_internal_code_identity() {
    let e = AccountErrorCode::InsufficientFunds.error("broke".to_string());
    assert_eq!(e.domain, "account");
    assert_eq!(e.code, "ACCOUNT_INSUFFICIENT_FUNDS");
    assert_eq!(e.internal_code, 10 * 1000 + 1);
    assert_eq!(e.http_status, 400);
    assert_eq!(e.message, "broke");

    let e = AccountErrorCode::AccountClosed.error("gone".to_string());
    assert_eq!(e.internal_code, 10 * 1000 + 3);
    assert_eq!(e.http_status, 410);
}

#[test]
fn test_error_with_request_id() {
    let e = CqrsError::user_error("no".to_string()).with_request_id("req-9".to_string());
    assert_eq!(e.request_id, Some("req-9".to_string()));
    assert_eq!(e.internal_code, 4006);
}
