use vstd::prelude::*;

use crate::handler::{CREATED, INTERNAL_SERVER_ERROR, NOT_FOUND};
use crate::storage::TimeRange;

verus! {

/// Why the ranges of a day could not be listed.
#[derive(Debug, Clone, Copy, PartialEq, Eq, Structural)]
pub enum ListError {
    NotFound,
    Internal,
}

impl ListError {
    /// The status code that answers the error.
    pub fn status_code(&self) -> (r: u16)
        ensures
            r == match *self {
                ListError::NotFound => NOT_FOUND,
                ListError::Internal => INTERNAL_SERVER_ERROR,
            },
    {
        match self {
            ListError::NotFound => NOT_FOUND,
            ListError::Internal => INTERNAL_SERVER_ERROR,
        }
    }
}

/// The answer to a listing, from what the storage gave back: the ranges of a
/// day that has an entry, not found for a day without one, and an internal
/// error when the storage failed (its message is only logged).
pub fn list_outcome(lookup: Result<Option<Vec<TimeRange>>, String>) -> (r: Result<Vec<TimeRange>, ListError>)
    ensures
        match lookup {
            Ok(Some(v)) => r matches Ok(w) && w@ == v@,
            Ok(None) => r == Err::<Vec<TimeRange>, ListError>(ListError::NotFound),
            Err(_) => r == Err::<Vec<TimeRange>, ListError>(ListError::Internal),
        },
{
    match lookup {
        Ok(Some(rr)) => Ok(rr),
        Ok(None) => Err(ListError::NotFound),
        Err(_) => Err(ListError::Internal),
    }
}

/// The status that answers storing a range: created, or an internal error.
pub fn create_status(stored: bool) -> (r: u16)
    ensures
        r == if stored { CREATED } else { INTERNAL_SERVER_ERROR },
{
    if stored {
        CREATED
    } else {
        INTERNAL_SERVER_ERROR
    }
}

} // verus!
