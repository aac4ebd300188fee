//! The domain value a load produces, and how a load can fail.

use vstd::prelude::*;

verus! {

/// The one domain value the loader produces: a record with a single
/// text field. It is immutable after construction and carries no
/// invariant beyond the field being present.
#[derive(Debug)]
pub struct Record {
    pub test_field: String,
}

/// How a single load attempt fails. Both variants are terminal: the
/// loader attempts no recovery.
#[derive(Clone, Copy, Debug, PartialEq, Eq, Structural)]
pub enum LoadError {
    /// The underlying byte read failed before any parsing began.
    IoError,
    /// The bytes are not a well-formed document carrying the required
    /// text field. `pos` locates the failure: an index into the input
    /// bytes when they are not valid UTF-8, and otherwise an index into
    /// the decoded characters.
    FormatError { pos: usize },
}

} // verus!
