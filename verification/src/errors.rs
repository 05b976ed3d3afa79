//! Errors of the HTTP API and the response each of them is answered with.

use vstd::prelude::*;

verus! {

/// HTTP status of a failed request that the server could not carry out.
pub const STATUS_INTERNAL_SERVER_ERROR: u16 = 500;

/// HTTP status of a request whose credentials were missing or refused.
pub const STATUS_UNAUTHORIZED: u16 = 401;

/// What kind of failure an execution error stems from.
#[derive(Debug, Clone, Copy, PartialEq, Eq, Structural)]
pub enum ErrorTag {
    DatabaseQueryError,
    UnSpecificError,
    MissingEnvironment,
}

/// Where a failure that interrupted the handling of a request came from.
#[derive(Debug, Clone, Copy, PartialEq, Eq, Structural)]
pub enum ErrorSource {
    /// A query to the database failed.
    Database,
    /// An environment variable was missing or unreadable.
    Environment,
    /// Any other failure.
    Other,
}

/// The source of a failure from what it was found to be: a database error is
/// filed as such first, then a missing environment variable.
pub open spec fn source_of(is_database_error: bool, is_environment_error: bool) -> ErrorSource {
    if is_database_error {
        ErrorSource::Database
    } else if is_environment_error {
        ErrorSource::Environment
    } else {
        ErrorSource::Other
    }
}

impl ErrorSource {
    /// The source of a failure that is a database error when
    /// `is_database_error`, a missing environment variable when
    /// `is_environment_error`; a database error takes precedence.
    pub fn classify(is_database_error: bool, is_environment_error: bool) -> (source: ErrorSource)
        ensures
            source == source_of(is_database_error, is_environment_error),
            is_database_error ==> source == ErrorSource::Database,
            !is_database_error && is_environment_error ==> source == ErrorSource::Environment,
            !is_database_error && !is_environment_error ==> source == ErrorSource::Other,
    {
        if is_database_error {
            ErrorSource::Database
        } else if is_environment_error {
            ErrorSource::Environment
        } else {
            ErrorSource::Other
        }
    }
}

/// The name under which a tag is reported.
pub open spec fn tag_text(tag: ErrorTag) -> Seq<char> {
    match tag {
        ErrorTag::DatabaseQueryError => "DatabaseQueryError"@,
        ErrorTag::UnSpecificError => "UnSpecificError"@,
        ErrorTag::MissingEnvironment => "MissingEnvironment"@,
    }
}

/// The tag that a failure of the given source is filed under.
pub open spec fn tag_of_source(source: ErrorSource) -> ErrorTag {
    match source {
        ErrorSource::Database => ErrorTag::DatabaseQueryError,
        ErrorSource::Environment => ErrorTag::MissingEnvironment,
        ErrorSource::Other => ErrorTag::UnSpecificError,
    }
}

impl ErrorTag {
    /// The name under which this tag is reported.
    pub fn to_string(&self) -> (text: String)
        ensures
            text@ == tag_text(*self),
            text@ == match *self {
                ErrorTag::DatabaseQueryError => "DatabaseQueryError"@,
                ErrorTag::UnSpecificError => "UnSpecificError"@,
                ErrorTag::MissingEnvironment => "MissingEnvironment"@,
            },
    {
        match self {
            ErrorTag::DatabaseQueryError => String::from_str("DatabaseQueryError"),
            ErrorTag::UnSpecificError => String::from_str("UnSpecificError"),
            ErrorTag::MissingEnvironment => String::from_str("MissingEnvironment"),
        }
    }

    /// Files a failure under its tag: database failures, missing environment
    /// variables, and everything else.
    pub fn from_source(source: ErrorSource) -> (tag: ErrorTag)
        ensures
            tag == tag_of_source(source),
            source == ErrorSource::Database ==> tag == ErrorTag::DatabaseQueryError,
            source == ErrorSource::Environment ==> tag == ErrorTag::MissingEnvironment,
            source == ErrorSource::Other ==> tag == ErrorTag::UnSpecificError,
    {
        match source {
            ErrorSource::Database => ErrorTag::DatabaseQueryError,
            ErrorSource::Environment => ErrorTag::MissingEnvironment,
            ErrorSource::Other => ErrorTag::UnSpecificError,
        }
    }
}

/// Different tags are reported under different names.
pub proof fn lemma_tag_texts_distinct(a: ErrorTag, b: ErrorTag)
    requires
        a != b,
    ensures
        tag_text(a) != tag_text(b),
{
    reveal_strlit("DatabaseQueryError");
    reveal_strlit("UnSpecificError");
    reveal_strlit("MissingEnvironment");
    assert(tag_text(ErrorTag::DatabaseQueryError).len() != tag_text(ErrorTag::UnSpecificError).len());
    assert(tag_text(ErrorTag::DatabaseQueryError)[0] != tag_text(ErrorTag::MissingEnvironment)[0]);
    assert(tag_text(ErrorTag::UnSpecificError)[0] != tag_text(ErrorTag::MissingEnvironment)[0]);
}

/// An error that ends the handling of a request.
#[derive(Debug)]
pub enum AppError {
    /// An operation failed; the tag says of which kind, the text is the
    /// failure's own message.
    ExecutionError(ErrorTag, String),
    RecordNotFoundError { table: &'static str, col: &'static str, value: &'static str },
    AuthenticationError(&'static str),
    SurfError(String),
}

/// The answer to a request that failed: its HTTP status and the two fields
/// of its JSON body, `tag` and `description`.
#[derive(Debug)]
pub struct ErrorResponse {
    pub status: u16,
    pub tag: String,
    pub description: String,
}

/// HTTP status that answers `err`.
pub open spec fn response_status(err: AppError) -> u16 {
    match err {
        AppError::AuthenticationError(_) => STATUS_UNAUTHORIZED,
        _ => STATUS_INTERNAL_SERVER_ERROR,
    }
}

/// The `tag` field of the body that answers `err`.
pub open spec fn response_tag(err: AppError) -> Seq<char> {
    match err {
        AppError::ExecutionError(tag, _) => tag_text(tag),
        AppError::RecordNotFoundError { .. } => "RecordNotFoundError"@,
        AppError::AuthenticationError(_) => "UnAuthorized"@,
        AppError::SurfError(_) => "SurfError"@,
    }
}

/// The `description` field of the body that answers `err`.
pub open spec fn response_description(err: AppError) -> Seq<char> {
    match err {
        AppError::ExecutionError(_, message) => message@,
        AppError::RecordNotFoundError { table, col, value } => "Not found record on table "@
            + table@ + " with "@ + col@ + " is "@ + value@,
        AppError::AuthenticationError(reason) => reason@,
        AppError::SurfError(reason) => reason@,
    }
}

impl AppError {
    /// The execution error for a failure of the given source, carrying the
    /// failure's message.
    pub fn from_failure(source: ErrorSource, message: String) -> (err: AppError)
        ensures
            err == AppError::ExecutionError(tag_of_source(source), message),
            err matches AppError::ExecutionError(tag, m) && m == message && (source
                == ErrorSource::Database ==> tag == ErrorTag::DatabaseQueryError) && (source
                == ErrorSource::Environment ==> tag == ErrorTag::MissingEnvironment) && (source
                == ErrorSource::Other ==> tag == ErrorTag::UnSpecificError),
    {
        AppError::ExecutionError(ErrorTag::from_source(source), message)
    }

    /// The response that answers this error: `401 Unauthorized` for a refused
    /// authentication, `500 Internal Server Error` for everything else.
    pub fn into_response(self) -> (resp: ErrorResponse)
        ensures
            resp.status == response_status(self),
            resp.tag@ == response_tag(self),
            resp.description@ == response_description(self),
            self is AuthenticationError ==> resp.status == STATUS_UNAUTHORIZED,
            !(self is AuthenticationError) ==> resp.status == STATUS_INTERNAL_SERVER_ERROR,
            self matches AppError::ExecutionError(tag, message) ==> resp.tag@ == tag_text(tag)
                && resp.description@ == message@,
            self matches AppError::AuthenticationError(reason) ==> resp.tag@ == "UnAuthorized"@
                && resp.description@ == reason@,
            self matches AppError::SurfError(reason) ==> resp.tag@ == "SurfError"@
                && resp.description@ == reason@,
            self matches AppError::RecordNotFoundError { table, col, value } ==> resp.tag@
                == "RecordNotFoundError"@ && resp.description@ == "Not found record on table "@
                + table@ + " with "@ + col@ + " is "@ + value@,
    {
        match self {
            AppError::ExecutionError(tag, message) => ErrorResponse {
                status: STATUS_INTERNAL_SERVER_ERROR,
                tag: tag.to_string(),
                description: message,
            },
            AppError::RecordNotFoundError { table, col, value } => {
                let description = String::from_str("Not found record on table ").concat(
                    table,
                ).concat(" with ").concat(col).concat(" is ").concat(value);
                ErrorResponse {
                    status: STATUS_INTERNAL_SERVER_ERROR,
                    tag: String::from_str("RecordNotFoundError"),
                    description,
                }
            },
            AppError::AuthenticationError(reason) => ErrorResponse {
                status: STATUS_UNAUTHORIZED,
                tag: String::from_str("UnAuthorized"),
                description: String::from_str(reason),
            },
            AppError::SurfError(reason) => ErrorResponse {
                status: STATUS_INTERNAL_SERVER_ERROR,
                tag: String::from_str("SurfError"),
                description: reason,
            },
        }
    }
}

/// An execution error is reported under the name of its own tag, with its
/// own message as the description.
pub proof fn lemma_execution_error_reports_its_tag(tag: ErrorTag, message: String)
    ensures
        response_tag(AppError::ExecutionError(tag, message)) == tag_text(tag),
        response_description(AppError::ExecutionError(tag, message)) == message@,
        response_status(AppError::ExecutionError(tag, message)) == STATUS_INTERNAL_SERVER_ERROR,
{
}

/// Execution errors of different tags are answered with different tags, so a
/// client can tell, say, a missing environment variable from a failed query.
pub proof fn lemma_execution_tags_told_apart(a: ErrorTag, m: String, b: ErrorTag, n: String)
    requires
        a != b,
    ensures
        response_tag(AppError::ExecutionError(a, m)) != response_tag(AppError::ExecutionError(b, n)),
{
    lemma_tag_texts_distinct(a, b);
}

/// A failed request is answered `401 Unauthorized` exactly when its
/// authentication was refused, and `500 Internal Server Error` otherwise.
pub proof fn lemma_response_status_classes(err: AppError)
    ensures
        response_status(err) == STATUS_UNAUTHORIZED <==> err is AuthenticationError,
        response_status(err) == STATUS_UNAUTHORIZED || response_status(err)
            == STATUS_INTERNAL_SERVER_ERROR,
{
}

} // verus!
