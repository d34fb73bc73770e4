//! Errors that come either from the object system or from a subsystem.

use crate::object::ObjectError;
use vstd::prelude::*;

verus! {

/// Error of the object system, or of the subsystem underneath.
#[derive(Debug)]
pub enum ObjectOrUnderlyingError<E> {
    Object(ObjectError),
    Underlying(E),
}

impl<E> ObjectOrUnderlyingError<E> {
    /// Splits the error: the object error as `Ok`, the other as `Err`.
    pub fn into_object_or_underlying(self) -> (split: Result<ObjectError, E>)
        ensures
            split == (match self {
                ObjectOrUnderlyingError::Object(error) => Ok::<ObjectError, E>(error),
                ObjectOrUnderlyingError::Underlying(error) => Err::<ObjectError, E>(error),
            }),
    {
        match self {
            ObjectOrUnderlyingError::Object(error) => Ok(error),
            ObjectOrUnderlyingError::Underlying(error) => Err(error),
        }
    }
}

} // verus!
