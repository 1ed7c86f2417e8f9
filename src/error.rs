use vstd::prelude::*;

verus! {

/// The errors a caller of the manager can branch on.
#[derive(Clone, Copy, Debug, PartialEq, Eq, Structural)]
pub enum DatabaseError {
    /// No active user session: the user id, token or storage pool is unavailable.
    UserUnauthorized,
    /// A revision log could not be built or reset.
    Storage,
    /// A serialized view definition could not be read.
    InvalidData,
}

} // verus!
