//! What the board keeps in its database, and how large the connection pool
//! may grow. The queries themselves are made by the caller.

pub mod model;

use vstd::prelude::*;

verus! {

/// The largest number of database connections for a machine with `threads`
/// logical processors: two for each.
pub fn pool_size(threads: u32) -> (size: u32)
    requires
        threads * 2 <= u32::MAX,
    ensures
        size == threads * 2,
{
    threads * 2
}

} // verus!
