use chain_indexer::config::default_listen_addr;
use chain_indexer::error::ApiError;

#[test]
fn default_listen_addr_value() {
    assert_eq!(default_listen_addr(), "0.0.0.0:8080");
}

#[test]
fn status_codes() {
    assert_eq!(ApiError::NotFound.status_code(), 404);
    assert_eq!(ApiError::Unauthorized.status_code(), 401);
    assert_eq!(ApiError::Forbidden.status_code(), 403);
    assert_eq!(ApiError::BadRequest(String::from("x")).status_code(), 400);
    assert_eq!(ApiError::Conflict(String::from("x")).status_code(), 409);
    assert_eq!(ApiError::Internal.status_code(), 500);
}

#[test]
fn error_codes() {
    assert_eq!(ApiError::NotFound.error_code(), "NOT_FOUND");
    assert_eq!(ApiError::Unauthorized.error_code(), "UNAUTHORIZED");
    assert_eq!(ApiError::Forbidden.error_code(), "FORBIDDEN");
    assert_eq!(ApiError::BadRequest(String::from("x")).error_code(), "BAD_REQUEST");
    assert_eq!(ApiError::Conflict(String::from("x")).error_code(), "CONFLICT");
    assert_eq!(ApiError::Internal.error_code(), "INTERNAL");
}

#[test]
fn messages() {
    assert_eq!(ApiError::NotFound.message(), "not found");
    assert_eq!(ApiError::Unauthorized.message(), "unauthorized");
    assert_eq!(ApiError::Forbidden.message(), "forbidden");
    assert_eq!(
        ApiError::BadRequest(String::from("missing field")).message(),
        "missing field"
    );
    assert_eq!(
        ApiError::Conflict(String::from("already exists")).message(),
        "already exists"
    );
    assert_eq!(ApiError::Internal.message(), "internal error");
}
