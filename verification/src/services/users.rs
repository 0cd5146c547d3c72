//! Users to insert.
use vstd::prelude::*;
use crate::models::users::NewUser;

verus! {

/// The rows that a batch insert of `names` writes: one user per name, in
/// order.
pub fn new_users(names: &Vec<String>) -> (r: Vec<NewUser>)
    ensures
        r@.len() == names@.len(),
        forall|i: int| 0 <= i < names@.len() ==> (#[trigger] r@[i]).name@ == names@[i]@,
{
    let mut r: Vec<NewUser> = Vec::new();
    let n = names.len();
    let mut i: usize = 0;
    while i < n
        invariant
            n == names@.len(),
            i <= n,
            r@.len() == i,
            forall|k: int| 0 <= k < i ==> (#[trigger] r@[k]).name@ == names@[k]@,
        decreases n - i,
    {
        r.push(NewUser { name: names[i].clone() });
        i = i + 1;
    }
    r
}

} // verus!
