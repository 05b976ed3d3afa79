//! Finding or creating the user record of a wallet address.

use vstd::prelude::*;

use crate::security::User;

verus! {

/// What remains to be done to have the user of an address once the user
/// table has been searched for it.
#[derive(Debug)]
pub enum UpsertStep {
    /// The user exists already; it is the result.
    Existing(User),
    /// No user has the address: one must be inserted with it.
    Insert(String),
}

/// The step after looking up `address`: the user found, or the insertion of a
/// new user with that address.
pub fn upsert_step(found: Option<User>, address: String) -> (step: UpsertStep)
    ensures
        match found {
            Some(user) => step == UpsertStep::Existing(user),
            None => step == UpsertStep::Insert(address),
        },
{
    match found {
        Some(user) => UpsertStep::Existing(user),
        None => UpsertStep::Insert(address),
    }
}

} // verus!
