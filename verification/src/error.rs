//! Errors that the library reports.

use vstd::prelude::*;

verus! {

/// A recoverable failure.
#[derive(Debug, PartialEq)]
pub enum LimboError {
    /// A value does not hold the type that was asked for; the text says
    /// which type that was.
    ConversionError(String),
}

} // verus!
