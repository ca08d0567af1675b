//! The error of a run of the program.

use vstd::prelude::*;

verus! {

/// The program encountered an error.
pub struct RunError;

} // verus!
