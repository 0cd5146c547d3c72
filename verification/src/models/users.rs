//! Rows of the `users` table.
use vstd::prelude::*;

verus! {

/// A stored user.
#[derive(Debug, PartialEq, Eq, Clone)]
pub struct User {
    pub id: i32,
    pub name: String,
    /// 0 for a live user.
    pub is_deleted: i8,
}

/// A user to insert: the table fills in the id and the deletion flag.
pub struct NewUser {
    pub name: String,
}

} // verus!
