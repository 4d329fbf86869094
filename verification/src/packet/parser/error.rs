//! Errors of the record format.
use vstd::prelude::*;

verus! {

/// Why a record could not be written or read.
#[derive(Debug, PartialEq, Eq, Structural)]
pub enum Error {
    /// The input ended before the value did.
    Eof,
    /// A string's length byte was zero.
    ZeroStringLength,
    /// A character does not fit in one byte.
    ExpectedU8Character,
    /// The format has no encoding for this kind of value.
    UnsupportedDataType,
}

} // verus!
