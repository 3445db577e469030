//! How the service reports a request that it turns down.

use vstd::prelude::*;

verus! {

/// Why a request failed.
#[derive(Clone, Copy, Debug, PartialEq, Eq, Structural)]
pub enum ApiErrorKind {
    /// The credential is missing or wrong.
    Authorization,
    /// A required field is empty.
    Validation,
    /// No such device.
    NotFound,
    /// The store could not do what was asked.
    Storage,
}

impl ApiErrorKind {
    /// The HTTP status that goes with the kind.
    pub open spec fn status_code(self) -> u16 {
        match self {
            ApiErrorKind::Authorization => 401,
            ApiErrorKind::Validation => 400,
            ApiErrorKind::NotFound => 404,
            ApiErrorKind::Storage => 500,
        }
    }

    /// The HTTP status that goes with the kind.
    pub fn status(&self) -> (code: u16)
        ensures
            code == self.status_code(),
    {
        match self {
            ApiErrorKind::Authorization => 401,
            ApiErrorKind::Validation => 400,
            ApiErrorKind::NotFound => 404,
            ApiErrorKind::Storage => 500,
        }
    }
}

/// A refusal: its kind and the message sent to the caller.
#[derive(Debug)]
pub struct ApiError {
    pub kind: ApiErrorKind,
    pub message: String,
}

impl ApiError {
    /// Whether this is a refusal of `kind` with the text `message`.
    pub open spec fn is(self, kind: ApiErrorKind, message: Seq<char>) -> bool {
        self.kind == kind && self.message@ == message
    }

    /// A refusal of `kind` with `message`.
    pub fn new(kind: ApiErrorKind, message: &str) -> (e: ApiError)
        ensures
            e.is(kind, message@),
    {
        ApiError { kind, message: message.to_owned() }
    }

    /// The credential is missing or wrong.
    pub fn unauthorized() -> (e: ApiError)
        ensures
            e.is(ApiErrorKind::Authorization, "unauthorized"@),
    {
        ApiError::new(ApiErrorKind::Authorization, "unauthorized")
    }

    /// The request names no device.
    pub fn device_id_required() -> (e: ApiError)
        ensures
            e.is(ApiErrorKind::Validation, "device_id is required"@),
    {
        ApiError::new(ApiErrorKind::Validation, "device_id is required")
    }

    /// The batch names no device.
    pub fn device_ids_required() -> (e: ApiError)
        ensures
            e.is(ApiErrorKind::Validation, "device_ids is required"@),
    {
        ApiError::new(ApiErrorKind::Validation, "device_ids is required")
    }

    /// The device was never seen.
    pub fn device_not_found() -> (e: ApiError)
        ensures
            e.is(ApiErrorKind::NotFound, "device not found"@),
    {
        ApiError::new(ApiErrorKind::NotFound, "device not found")
    }

    /// The store failed. The message says no more than that: what the store
    /// reported stays on the service's side.
    pub fn storage() -> (e: ApiError)
        ensures
            e.is(ApiErrorKind::Storage, "storage failure"@),
    {
        ApiError::new(ApiErrorKind::Storage, "storage failure")
    }

    /// The HTTP status of the refusal.
    pub fn status(&self) -> (code: u16)
        ensures
            code == self.kind.status_code(),
    {
        self.kind.status()
    }
}

} // verus!
