//! The error taxonomy of the store. Every failing operation returns an
//! `ApiError` that names the failure class, a stable tag, a human-readable
//! message, the node it arose on and the method that raised it.

use vstd::prelude::*;

verus! {

/// The payload common to all error variants.
#[derive(Debug)]
pub struct ErrorDetail {
    /// A stable, machine-readable tag such as `NO_PERMISSION`.
    pub tag: String,
    /// A human-readable explanation.
    pub message: String,
    /// The name of the node the error arose on.
    pub location: String,
    /// The method that raised the error.
    pub method: String,
}

pub ghost struct ErrorDetailView {
    pub tag: Seq<char>,
    pub message: Seq<char>,
    pub location: Seq<char>,
    pub method: Seq<char>,
}

impl View for ErrorDetail {
    type V = ErrorDetailView;

    open spec fn view(&self) -> ErrorDetailView {
        ErrorDetailView {
            tag: self.tag@,
            message: self.message@,
            location: self.location@,
            method: self.method@,
        }
    }
}

impl ErrorDetail {
    pub fn new(tag: &str, message: &str, location: &str, method: &str) -> (d: ErrorDetail)
        ensures
            d@.tag == tag@,
            d@.message == message@,
            d@.location == location@,
            d@.method == method@,
    {
        ErrorDetail {
            tag: String::from_str(tag),
            message: String::from_str(message),
            location: String::from_str(location),
            method: String::from_str(method),
        }
    }
}

/// The failure classes of the store.
#[derive(Debug)]
pub enum ApiError {
    /// A request that cannot be served as posed: no code package uploaded,
    /// unknown shard reference, redundant upgrade, failed forward.
    BadRequest(ErrorDetail),
    /// A record or shard that does not exist.
    NotFound(ErrorDetail),
    /// A caller that may not perform the operation.
    Unauthorized(ErrorDetail),
    /// A shard whose capacity ceiling is reached; the write was not stored
    /// here and a handoff is owed.
    CanisterAtCapacity(ErrorDetail),
}

pub ghost enum ApiErrorView {
    BadRequest(ErrorDetailView),
    NotFound(ErrorDetailView),
    Unauthorized(ErrorDetailView),
    CanisterAtCapacity(ErrorDetailView),
}

impl View for ApiError {
    type V = ApiErrorView;

    open spec fn view(&self) -> ApiErrorView {
        match self {
            ApiError::BadRequest(d) => ApiErrorView::BadRequest(d@),
            ApiError::NotFound(d) => ApiErrorView::NotFound(d@),
            ApiError::Unauthorized(d) => ApiErrorView::Unauthorized(d@),
            ApiError::CanisterAtCapacity(d) => ApiErrorView::CanisterAtCapacity(d@),
        }
    }
}

impl ApiError {
    /// The detail carried by any variant.
    pub open spec fn spec_detail(&self) -> ErrorDetailView {
        match self@ {
            ApiErrorView::BadRequest(d) => d,
            ApiErrorView::NotFound(d) => d,
            ApiErrorView::Unauthorized(d) => d,
            ApiErrorView::CanisterAtCapacity(d) => d,
        }
    }

    pub fn detail(&self) -> (d: &ErrorDetail)
        ensures
            d@ == self.spec_detail(),
    {
        match self {
            ApiError::BadRequest(d) => d,
            ApiError::NotFound(d) => d,
            ApiError::Unauthorized(d) => d,
            ApiError::CanisterAtCapacity(d) => d,
        }
    }
}

} // verus!
