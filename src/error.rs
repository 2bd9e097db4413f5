//! Ways in which a collection can fail.
use vstd::prelude::*;

verus! {

/// Why a collector produced no output for a request.
#[derive(Debug, Clone, PartialEq, Eq)]
pub enum CollectionError {
    /// A kernel statistic lacks the named key.
    MissingStat(String),
    /// A kernel statistic holds the named key, but not as an unsigned 64-bit integer.
    TypeMismatch(String),
    /// The inventory command did not finish in time.
    CommandTimeout,
    /// The inventory command could not be run, or exited unsuccessfully
    /// (with its exit code, where it had one).
    CommandFailed(Option<i32>),
    /// A line of the command's output does not have the expected number of fields.
    MalformedRow(String),
    /// A field could not be decoded: the metric's key and the raw field.
    DecodeError(String, String),
}

/// The mathematical model of a [`CollectionError`].
pub enum ErrorModel {
    MissingStat(Seq<char>),
    TypeMismatch(Seq<char>),
    CommandTimeout,
    CommandFailed(Option<i32>),
    MalformedRow(Seq<char>),
    DecodeError(Seq<char>, Seq<char>),
}

impl View for CollectionError {
    type V = ErrorModel;

    open spec fn view(&self) -> ErrorModel {
        match self {
            CollectionError::MissingStat(k) => ErrorModel::MissingStat(k@),
            CollectionError::TypeMismatch(k) => ErrorModel::TypeMismatch(k@),
            CollectionError::CommandTimeout => ErrorModel::CommandTimeout,
            CollectionError::CommandFailed(c) => ErrorModel::CommandFailed(*c),
            CollectionError::MalformedRow(l) => ErrorModel::MalformedRow(l@),
            CollectionError::DecodeError(k, v) => ErrorModel::DecodeError(k@, v@),
        }
    }
}

/// The model of a collector's result: the text produced, or the error.
pub open spec fn result_view(r: Result<String, CollectionError>) -> Result<Seq<char>, ErrorModel> {
    match r {
        Ok(s) => Ok(s@),
        Err(e) => Err(e@),
    }
}

} // verus!
