//! Why a filter is rejected.

use vstd::prelude::*;
use vstd::string::*;

verus! {

/// Why a filter is rejected.
#[derive(Debug, PartialEq, Eq)]
pub enum Error {
    InvalidNode,
    EmptyGroup,
    UnknownField(String),
    UnsupportedOperator(String),
    InvalidValue(String),
    TypeMismatch(String),
}

/// What an [`Error`] is, with its detail as a sequence of characters.
pub enum ErrorModel {
    InvalidNode,
    EmptyGroup,
    UnknownField(Seq<char>),
    UnsupportedOperator(Seq<char>),
    InvalidValue(Seq<char>),
    TypeMismatch(Seq<char>),
}

impl View for Error {
    type V = ErrorModel;

    open spec fn view(&self) -> ErrorModel {
        match *self {
            Error::InvalidNode => ErrorModel::InvalidNode,
            Error::EmptyGroup => ErrorModel::EmptyGroup,
            Error::UnknownField(field) => ErrorModel::UnknownField(field@),
            Error::UnsupportedOperator(operator) => ErrorModel::UnsupportedOperator(operator@),
            Error::InvalidValue(detail) => ErrorModel::InvalidValue(detail@),
            Error::TypeMismatch(detail) => ErrorModel::TypeMismatch(detail@),
        }
    }
}

impl ErrorModel {
    /// The message shown for the error.
    pub open spec fn message(self) -> Seq<char> {
        match self {
            ErrorModel::InvalidNode => "invalid node"@,
            ErrorModel::EmptyGroup => "empty group"@,
            ErrorModel::UnknownField(field) => "unknown field: "@ + field,
            ErrorModel::UnsupportedOperator(operator) => "unsupported operator: "@ + operator,
            ErrorModel::InvalidValue(detail) => "invalid value: "@ + detail,
            ErrorModel::TypeMismatch(detail) => "type mismatch: "@ + detail,
        }
    }
}

impl Error {
    /// The message shown for the error.
    pub fn to_string(&self) -> (res: String)
        ensures
            res@ == self@.message(),
    {
        match self {
            Error::InvalidNode => "invalid node".to_owned(),
            Error::EmptyGroup => "empty group".to_owned(),
            Error::UnknownField(field) => "unknown field: ".to_owned().concat(field.as_str()),
            Error::UnsupportedOperator(operator) => "unsupported operator: ".to_owned().concat(
                operator.as_str(),
            ),
            Error::InvalidValue(detail) => "invalid value: ".to_owned().concat(detail.as_str()),
            Error::TypeMismatch(detail) => "type mismatch: ".to_owned().concat(detail.as_str()),
        }
    }
}

/// What an attempt came to, with both sides taken by what they are.
pub open spec fn outcome<T: View>(res: Result<T, Error>) -> Result<T::V, ErrorModel> {
    match res {
        Ok(done) => Ok(done@),
        Err(error) => Err(error@),
    }
}

} // verus!
