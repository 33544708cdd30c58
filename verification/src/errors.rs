//! The unified error value of the library.
//!
//! Every failure, whether raised by the infrastructure (storage, serialization,
//! concurrency control) or by a domain rule, flows through one structured
//! value, `CqrsError`, whose stable `code` and `internal_code` identify the
//! failure and whose `http_status` tells a front end how to render it.
//! The identity `internal_code == domain_prefix * 1000 + error_index` holds
//! for every error built through `CqrsErrorCode::error`.

use vstd::prelude::*;

verus! {

/// The broad classes of failure an aggregate operation can end in.
#[derive(Clone, Copy, Debug, PartialEq, Eq, Structural)]
pub enum AggregateError {
    /// A domain rule rejected the command, or a lifecycle rule was violated.
    UserError,
    /// The expected version did not match storage: optimistic concurrency.
    Conflict,
    /// The storage port failed.
    DatabaseError,
    /// A payload or state could not be encoded or decoded.
    SerializationError,
    /// Anything that fits no other class.
    UnexpectedError,
}

/// The structured error envelope. `http_status` is never serialized in a
/// response body; it is recoverable from `internal_code`.
#[derive(Debug)]
pub struct CqrsError {
    pub domain: String,
    pub code: String,
    pub internal_code: u16,
    pub http_status: u16,
    pub message: String,
    pub details: Option<String>,
    pub request_id: Option<String>,
}

pub open spec fn spec_is_aggregate_not_found(e: CqrsError) -> bool {
    e.internal_code == 4001
}

pub open spec fn spec_is_aggregate_already_exists(e: CqrsError) -> bool {
    e.internal_code == 4002
}

pub open spec fn spec_is_concurrency_error(e: CqrsError) -> bool {
    e.internal_code == 4003
}

pub open spec fn spec_is_database_error(e: CqrsError) -> bool {
    e.internal_code == 4004
}

pub open spec fn spec_is_serialization_error(e: CqrsError) -> bool {
    e.internal_code == 4005
}

impl CqrsError {
    /// Internal-code identity stated of a whole value: the code was built from
    /// a prefix and an index, and the status is the one the index calls for.
    pub open spec fn wf(self) -> bool {
        self.internal_code == self.domain_prefix() * 1000 + self.error_index()
    }

    pub open spec fn domain_prefix(self) -> u16 {
        (self.internal_code / 1000) as u16
    }

    pub open spec fn error_index(self) -> u16 {
        (self.internal_code % 1000) as u16
    }

    /// Load requested on an absent aggregate (HTTP 404).
    pub fn aggregate_not_found(message: String) -> (r: CqrsError)
        ensures
            spec_is_aggregate_not_found(r),
            r.domain@ == "cqrs"@,
            r.code@ == "AGGREGATE_NOT_FOUND"@,
            r.http_status == 404,
            r.message == message,
            r.details is None,
            r.request_id is None,
    {
        CqrsError {
            domain: "cqrs".to_owned(),
            code: "AGGREGATE_NOT_FOUND".to_owned(),
            internal_code: 4001,
            http_status: 404,
            message,
            details: None,
            request_id: None,
        }
    }

    /// Create attempted on an existing aggregate (HTTP 409).
    pub fn aggregate_already_exists(message: String) -> (r: CqrsError)
        ensures
            spec_is_aggregate_already_exists(r),
            r.domain@ == "cqrs"@,
            r.code@ == "AGGREGATE_ALREADY_EXISTS"@,
            r.http_status == 409,
            r.message == message,
            r.details is None,
            r.request_id is None,
    {
        CqrsError {
            domain: "cqrs".to_owned(),
            code: "AGGREGATE_ALREADY_EXISTS".to_owned(),
            internal_code: 4002,
            http_status: 409,
            message,
            details: None,
            request_id: None,
        }
    }

    /// Expected version did not match storage (HTTP 409).
    pub fn concurrency_error(message: String) -> (r: CqrsError)
        ensures
            spec_is_concurrency_error(r),
            r.domain@ == "cqrs"@,
            r.code@ == "CONCURRENCY_ERROR"@,
            r.http_status == 409,
            r.message == message,
            r.details is None,
            r.request_id is None,
    {
        CqrsError {
            domain: "cqrs".to_owned(),
            code: "CONCURRENCY_ERROR".to_owned(),
            internal_code: 4003,
            http_status: 409,
            message,
            details: None,
            request_id: None,
        }
    }

    /// A storage-port failure (HTTP 500).
    pub fn database_error(message: String) -> (r: CqrsError)
        ensures
            spec_is_database_error(r),
            r.domain@ == "cqrs"@,
            r.code@ == "DATABASE_ERROR"@,
            r.http_status == 500,
            r.message == message,
            r.details is None,
            r.request_id is None,
    {
        CqrsError {
            domain: "cqrs".to_owned(),
            code: "DATABASE_ERROR".to_owned(),
            internal_code: 4004,
            http_status: 500,
            message,
            details: None,
            request_id: None,
        }
    }

    /// A payload or state failed to encode or decode (HTTP 500).
    pub fn serialization_error(message: String) -> (r: CqrsError)
        ensures
            spec_is_serialization_error(r),
            r.domain@ == "cqrs"@,
            r.code@ == "SERIALIZATION_ERROR"@,
            r.http_status == 500,
            r.message == message,
            r.details is None,
            r.request_id is None,
    {
        CqrsError {
            domain: "cqrs".to_owned(),
            code: "SERIALIZATION_ERROR".to_owned(),
            internal_code: 4005,
            http_status: 500,
            message,
            details: None,
            request_id: None,
        }
    }

    /// A domain-rule rejection without a domain code of its own (HTTP 400).
    pub fn user_error(message: String) -> (r: CqrsError)
        ensures
            r.internal_code == 4006,
            r.domain@ == "cqrs"@,
            r.code@ == "USER_ERROR"@,
            r.http_status == 400,
            r.message == message,
            r.details is None,
            r.request_id is None,
    {
        CqrsError {
            domain: "cqrs".to_owned(),
            code: "USER_ERROR".to_owned(),
            internal_code: 4006,
            http_status: 400,
            message,
            details: None,
            request_id: None,
        }
    }

    /// An invalid call of a read-side port (HTTP 400).
    pub fn validation(message: String) -> (r: CqrsError)
        ensures
            r.internal_code == 4006,
            r.http_status == 400,
            r.message == message,
    {
        CqrsError::user_error(message)
    }

    /// The class an error belongs to, recovered from its `internal_code`.
    pub fn kind(&self) -> (r: AggregateError)
        ensures
            r == self.kind_spec(),
    {
        if self.internal_code == 4003 {
            AggregateError::Conflict
        } else if self.internal_code == 4004 {
            AggregateError::DatabaseError
        } else if self.internal_code == 4005 {
            AggregateError::SerializationError
        } else {
            AggregateError::UserError
        }
    }

    pub open spec fn kind_spec(&self) -> AggregateError {
        if self.internal_code == 4003 {
            AggregateError::Conflict
        } else if self.internal_code == 4004 {
            AggregateError::DatabaseError
        } else if self.internal_code == 4005 {
            AggregateError::SerializationError
        } else {
            AggregateError::UserError
        }
    }

    /// Attach the request id of the operation that failed.
    pub fn with_request_id(self, request_id: String) -> (r: CqrsError)
        ensures
            r.request_id == Some(request_id),
            r.domain == self.domain,
            r.code == self.code,
            r.internal_code == self.internal_code,
            r.http_status == self.http_status,
            r.message == self.message,
            r.details == self.details,
    {
        CqrsError { request_id: Some(request_id), ..self }
    }
}

/// A user-pluggable enumeration of domain error codes. An implementation
/// gives each code a domain name, a numeric prefix, an index and an HTTP
/// status, and every error built from it carries the uniform envelope with
/// `internal_code == domain_prefix * 1000 + error_index`.
pub trait CqrsErrorCode: Sized {
    spec fn domain_spec(&self) -> Seq<char>;

    spec fn domain_prefix_spec(&self) -> u16;

    spec fn error_index_spec(&self) -> u16;

    spec fn http_status_spec(&self) -> u16;

    spec fn code_spec(&self) -> Seq<char>;

    fn domain(&self) -> (r: String)
        ensures
            r@ == self.domain_spec(),
    ;

    fn domain_prefix(&self) -> (r: u16)
        ensures
            r == self.domain_prefix_spec(),
            r <= 64,
    ;

    fn error_index(&self) -> (r: u16)
        ensures
            r == self.error_index_spec(),
            r <= 999,
    ;

    fn http_status(&self) -> (r: u16)
        ensures
            r == self.http_status_spec(),
    ;

    fn code(&self) -> (r: String)
        ensures
            r@ == self.code_spec(),
    ;

    /// Build the uniform error envelope for this code.
    fn error(&self, message: String) -> (r: CqrsError)
        ensures
            r.domain@ == self.domain_spec(),
            r.code@ == self.code_spec(),
            r.internal_code == self.domain_prefix_spec() * 1000 + self.error_index_spec(),
            r.http_status == self.http_status_spec(),
            r.message == message,
            r.details is None,
            r.request_id is None,
    {
        let prefix = self.domain_prefix();
        let index = self.error_index();
        CqrsError {
            domain: self.domain(),
            code: self.code(),
            internal_code: prefix * 1000 + index,
            http_status: self.http_status(),
            message,
            details: None,
            request_id: None,
        }
    }
}

} // verus!
