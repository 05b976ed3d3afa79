use server::errors::{AppError, ErrorSource, ErrorTag};

#[test]
fn tag_names() {
    assert_eq!(ErrorTag::DatabaseQueryError.to_string(), "DatabaseQueryError");
    assert_eq!(ErrorTag::UnSpecificError.to_string(), "UnSpecificError");
    assert_eq!(ErrorTag::MissingEnvironment.to_string(), "MissingEnvironment");
}

#[test]
fn failures_are_filed_by_source() {
    assert_eq!(ErrorTag::from_source(ErrorSource::Database), ErrorTag::DatabaseQueryError);
    assert_eq!(ErrorTag::from_source(ErrorSource::Environment), ErrorTag::MissingEnvironment);
    assert_eq!(ErrorTag::from_source(ErrorSource::Other), ErrorTag::UnSpecificError);
    match AppError::from_failure(ErrorSource::Environment, "JWT_SECRET not set".to_string()) {
        AppError::ExecutionError(tag, message) => {
            assert_eq!(tag, ErrorTag::MissingEnvironment);
            assert_eq!(message, "JWT_SECRET not set");
        }
        other => panic!("unexpected {:?}", other),
    }
}

#[test]
fn execution_error_response() {
    let resp = AppError::from_failure(ErrorSource::Database, "connection refused".to_string())
        .into_response();
    assert_eq!(resp.status, 500);
    assert_eq!(resp.tag, "DatabaseQueryError");
    assert_eq!(resp.description, "connection refused");
}

#[test]
fn record_not_found_response() {
    let resp = AppError::RecordNotFoundError { table: "user", col: "address", value: "0xabc" }
        .into_response();
    assert_eq!(resp.status, 500);
    assert_eq!(resp.tag, "RecordNotFoundError");
    assert_eq!(resp.description, "Not found record on table user with address is 0xabc");
}

#[test]
fn authentication_error_response() {
    let resp = AppError::AuthenticationError("Expired token").into_response();
    assert_eq!(resp.status, 401);
    assert_eq!(resp.tag, "UnAuthorized");
    assert_eq!(resp.description, "Expired token");
}

#[test]
fn surf_error_response() {
    let resp = AppError::SurfError("timeout".to_string()).into_response();
    assert_eq!(resp.status, 500);
    assert_eq!(resp.tag, "SurfError");
    assert_eq!(resp.description, "timeout");
}

#[test]
fn failures_are_classified_database_first() {
    assert_eq!(ErrorSource::classify(true, true), ErrorSource::Database);
    assert_eq!(ErrorSource::classify(true, false), ErrorSource::Database);
    assert_eq!(ErrorSource::classify(false, true), ErrorSource::Environment);
    assert_eq!(ErrorSource::classify(false, false), ErrorSource::Other);
}
