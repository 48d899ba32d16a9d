use vstd::prelude::*;

verus! {

/// Failures of frame operations.
#[derive(Debug, Clone, PartialEq)]
pub enum Error {
    /// The length of the data does not match the schema.
    InvalidDataLength { expected: usize, actual: usize },
    /// Attempted to perform an operation by index, but the index is out of bounds.
    IndexOutOfBounds { index: usize, length: usize },
    /// No column has this name.
    InvalidColumnName { column: String },
    /// A column with this name already exists.
    DuplicateColumnName { column: String },
    /// Failed to perform a cast.
    CastError { source: crate::cast::Error },
    /// Failed to perform a conversion.
    ConvertError { source: crate::convert::Error },
}

} // verus!
