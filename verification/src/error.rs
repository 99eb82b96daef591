//! What the operations of a universe can refuse.

use vstd::prelude::*;

verus! {

/// Why an operation left the universe untouched.
#[derive(Clone, Copy, Debug, PartialEq, Eq, Structural)]
pub enum GridError {
    /// A row was not below the height, or a column not below the width.
    IndexOutOfRange,
}

} // verus!
