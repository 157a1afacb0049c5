//! What can go wrong when a tiling is asked for.

use vstd::prelude::*;

verus! {

/// The ways in which a request for a tiling is refused.
#[derive(Clone, Copy, Debug, PartialEq, Eq, Structural)]
pub enum TilingError {
    /// Fewer than two grid families: no two lines ever cross.
    InvalidDimension,
}

impl TilingError {
    /// A sentence for the user.
    pub fn message(&self) -> (text: String)
        ensures
            text@ == "dimension must be at least 2"@,
    {
        "dimension must be at least 2".to_string()
    }
}

} // verus!
