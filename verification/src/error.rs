use vstd::prelude::*;

verus! {

/// Errors of the directory walk that seeds the index.
#[derive(Debug, Clone, PartialEq)]
pub enum RootErrorKind {
    InvalidMapDirectory(String),
    UnexpectedPathType,
}

/// Errors of file classification.
#[derive(Debug, Clone, PartialEq)]
pub enum ParseErrorKind {
    UnparseableExtension,
}

} // verus!
