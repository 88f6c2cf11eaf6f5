//! The account description carried by some upstream messages.
use vstd::prelude::*;

verus! {

/// A new account as some upstream messages describe it.
pub struct NewUser {
    pub username: String,
    pub email: String,
    pub ip: String,
    pub user_agent: String,
    pub finger_print: Option<String>,
}

} // verus!
