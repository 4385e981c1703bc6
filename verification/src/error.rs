//! Errors of the project store.

use vstd::prelude::*;

verus! {

/// What a store operation can fail with.
#[derive(Debug)]
pub enum DbError {
    /// No row has the key that is carried along.
    NotFound(String),
    /// Stored text could not be read; the message says why.
    InvalidData(String),
    /// A row would point to a row that does not exist; the message says which.
    Constraint(String),
}

/// Result of a store operation.
pub type DbResult<T> = Result<T, DbError>;

/// The mathematical content of an error.
pub enum DbErrorView {
    NotFound(Seq<char>),
    InvalidData(Seq<char>),
    Constraint(Seq<char>),
}

impl View for DbError {
    type V = DbErrorView;

    open spec fn view(&self) -> DbErrorView {
        match self {
            DbError::NotFound(key) => DbErrorView::NotFound(key@),
            DbError::InvalidData(message) => DbErrorView::InvalidData(message@),
            DbError::Constraint(message) => DbErrorView::Constraint(message@),
        }
    }
}

impl DbErrorView {
    /// The message that a user reads.
    pub open spec fn message(self) -> Seq<char> {
        match self {
            DbErrorView::NotFound(key) => "not found: "@ + key,
            DbErrorView::InvalidData(message) => "invalid data: "@ + message,
            DbErrorView::Constraint(message) => "constraint violated: "@ + message,
        }
    }
}

/// The message of an error, for callers outside the library.
pub fn stringify_err(e: DbError) -> (text: String)
    ensures
        text@ == e@.message(),
{
    match e {
        DbError::NotFound(key) => "not found: ".to_owned().concat(key.as_str()),
        DbError::InvalidData(message) => "invalid data: ".to_owned().concat(message.as_str()),
        DbError::Constraint(message) => {
            "constraint violated: ".to_owned().concat(message.as_str())
        },
    }
}

/// A message tells what kind of error it is, and then what the error carries.
pub proof fn law_messages(e: DbError)
    ensures
        e matches DbError::NotFound(key) ==> e@.message() == "not found: "@ + key@,
        e matches DbError::InvalidData(reason) ==> e@.message() == "invalid data: "@ + reason@,
        e matches DbError::Constraint(key) ==> e@.message() == "constraint violated: "@ + key@,
{
}

} // verus!
