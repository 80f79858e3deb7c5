use vstd::prelude::*;

verus! {

#[verifier::external_type_specification]
#[verifier::external_body]
pub struct ExReport(eyre::Report);

/// eyre's `Report::msg`: a report that carries the given message.
pub assume_specification<M>[ eyre::Report::msg::<M> ](message: M) -> eyre::Report
    where
        M: core::fmt::Display + core::fmt::Debug + Send + Sync + 'static,
;

/// An eyre report carrying an error's text.
pub fn to_eyre<E: core::fmt::Display>(e: E) -> eyre::Report {
    eyre::Report::msg(e.to_string())
}

/// Failure of a store operation.
#[derive(Debug, Clone, Copy, PartialEq, Eq, Structural)]
pub enum StoreError {
    /// No row has this id.
    NotFound(i64),
    /// A unique column already holds the value.
    Conflict,
    /// Integrity failure (an id space exhausted, a digest collision).
    Internal,
}

/// HTTP status codes of the error kinds.
pub const STATUS_UNAUTHORIZED: u16 = 401;
pub const STATUS_FORBIDDEN: u16 = 403;
pub const STATUS_NOT_FOUND: u16 = 404;
pub const STATUS_CONFLICT: u16 = 409;
pub const STATUS_INTERNAL: u16 = 500;

impl StoreError {
    /// HTTP status that this error is answered with.
    pub fn status(&self) -> (r: u16)
        ensures
            r == (match *self {
                StoreError::NotFound(_) => STATUS_NOT_FOUND,
                StoreError::Conflict => STATUS_CONFLICT,
                StoreError::Internal => STATUS_INTERNAL,
            }),
    {
        match self {
            StoreError::NotFound(_) => STATUS_NOT_FOUND,
            StoreError::Conflict => STATUS_CONFLICT,
            StoreError::Internal => STATUS_INTERNAL,
        }
    }
}

} // verus!
