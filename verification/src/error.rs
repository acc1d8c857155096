//! What can go wrong with a request.

use vstd::prelude::*;

verus! {

/// A request that is refused before anything is loaded.
#[derive(Debug, Clone, Copy, PartialEq, Eq, Structural)]
pub enum RequestError {
    /// The list of fonts is empty.
    NoGlyphsSpecified,
    /// The range is not two numbers with a dash between them, the first no
    /// greater than the second.
    InvalidRange,
}

} // verus!
