//! The errors that a request is answered with.

use vstd::prelude::*;

verus! {

/// Why a request failed, with the message for the caller.
pub enum AppError {
    NotFound(String),
    BadRequest(String),
    Internal(String),
}

/// What an [`AppError`] says.
pub enum ErrorModel {
    NotFound(Seq<char>),
    BadRequest(Seq<char>),
    Internal(Seq<char>),
}

impl AppError {
    pub open spec fn model(self) -> ErrorModel {
        match self {
            AppError::NotFound(message) => ErrorModel::NotFound(message@),
            AppError::BadRequest(message) => ErrorModel::BadRequest(message@),
            AppError::Internal(message) => ErrorModel::Internal(message@),
        }
    }

    /// The message for the caller.
    pub fn message(&self) -> (r: &str)
        ensures
            r@ == (match self.model() {
                ErrorModel::NotFound(message) => message,
                ErrorModel::BadRequest(message) => message,
                ErrorModel::Internal(message) => message,
            }),
    {
        match self {
            AppError::NotFound(message) => message.as_str(),
            AppError::BadRequest(message) => message.as_str(),
            AppError::Internal(message) => message.as_str(),
        }
    }
}

} // verus!
