use vstd::prelude::*;

verus! {

/// The error taxonomy of the store layer.
///
/// Every operation of the data-access layer reports failure through one of
/// these variants; nothing is swallowed and nothing is retried.
#[derive(Clone, Copy, Debug, PartialEq, Eq, Structural)]
pub enum StoreError {
    /// The store was unreachable, or a scripted result sequence ran out.
    Connection,
    /// A required field was missing, or a constraint was violated at the store.
    Constraint,
    /// An update addressed a key that no record carries.
    NotFound,
    /// A raw statement was malformed: an unknown column, a missing source
    /// table, or a text value the renderer cannot quote.
    QueryBuild,
}

impl StoreError {
    /// A short human-readable name for the error, for callers that print it.
    pub fn describe(&self) -> (r: &'static str)
        ensures
            *self is Connection ==> r@ == "connection error"@,
            *self is Constraint ==> r@ == "constraint violation"@,
            *self is NotFound ==> r@ == "record not found"@,
            *self is QueryBuild ==> r@ == "malformed statement"@,
    {
        match self {
            StoreError::Connection => "connection error",
            StoreError::Constraint => "constraint violation",
            StoreError::NotFound => "record not found",
            StoreError::QueryBuild => "malformed statement",
        }
    }
}

} // verus!
