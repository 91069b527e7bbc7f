//! The request handlers and what they share.

use vstd::prelude::*;
use crate::error::{RpcError, status_of};

pub mod proxy;
pub mod sessions;

verus! {

/// The query parameters of a call: the project that makes it and the chain it
/// is for, both as the caller wrote them.
#[derive(Debug)]
pub struct RpcQueryParams {
    pub chain_id: String,
    pub project_id: String,
}

/// The body of a rejection: the field at fault and why, under an HTTP status.
#[derive(Debug)]
pub struct ErrorResponse {
    pub status: u16,
    pub field: String,
    pub message: String,
}

impl ErrorResponse {
    /// Whether this rejection has the status, field and message given.
    pub open spec fn says(&self, status: u16, field: Seq<char>, message: Seq<char>) -> bool {
        self.status == status && self.field@ == field && self.message@ == message
    }
}

/// The rejection that shows an error to the caller: the field at fault and
/// why, under the status of the error.
pub fn rejection(error: RpcError, field: &str, message: String) -> (response: ErrorResponse)
    ensures
        response.says(status_of(error), field@, message@),
{
    ErrorResponse { status: error.status_code(), field: field.to_owned(), message }
}

/// The rejection of an input that the caller can correct.
pub fn field_validation_error(field: &str, message: String) -> (response: ErrorResponse)
    ensures
        response.says(status_of(RpcError::FieldValidation), field@, message@),
{
    rejection(RpcError::FieldValidation, field, message)
}

/// The rejection of a tenant that may not use the gateway.
pub fn handshake_error(field: &str, message: String) -> (response: ErrorResponse)
    ensures
        response.says(status_of(RpcError::AccessError), field@, message@),
{
    rejection(RpcError::AccessError, field, message)
}

} // verus!
