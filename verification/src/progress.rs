//! Results of operations that may have to wait.

use vstd::prelude::*;

verus! {

/// The result of one attempt at something that may have to wait.
#[derive(Debug, PartialEq, Eq, Structural)]
pub enum Progress<T> {
    /// It is done.
    Ready(T),
    /// It is not possible yet.
    Pending,
}

} // verus!
