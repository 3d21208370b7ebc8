use vstd::prelude::*;

pub mod auth;
pub mod fibonacci;
pub mod users;

verus! {

} // verus!
