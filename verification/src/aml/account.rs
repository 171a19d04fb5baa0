//! The account identifier of `near_sdk`, as far as a policy needs it.

use vstd::prelude::*;

verus! {

/// `near_sdk::AccountId`, the identifier of an account on the network.
///
/// A policy stores such a value and hands it back. It never looks inside one,
/// so nothing is stated of what an identifier holds.
#[verifier::external_type_specification]
#[verifier::external_body]
pub struct ExAccountId(near_sdk::AccountId);

/// `Clone::clone` of `near_sdk::AccountId`, which copies the identifier's
/// text: the copy is equal to the identifier it was made from.
pub assume_specification[ <near_sdk::AccountId as Clone>::clone ](
    id: &near_sdk::AccountId,
) -> (copy: near_sdk::AccountId)
    ensures
        copy == *id,
;

} // verus!
