//! Participant identities.
//!
//! An account is an opaque value: the rules of a tournament only ever ask
//! whether two accounts are the same one.

use vstd::prelude::*;

use ink::primitives::AccountId;

verus! {

/// `ink::primitives::AccountId`, a 32-byte account identifier, carried through
/// the library as an opaque value.
#[verifier::external_type_specification]
#[verifier::external_body]
pub struct ExAccountId(ink::primitives::AccountId);

/// Calls `PartialEq::eq` of `ink::primitives::AccountId`.
///
/// The type derives `PartialEq` over its 32 bytes, so the call returns `true`
/// exactly when both arguments are the same account. This is assumed, not
/// proved.
#[verifier::external_body]
pub(crate) fn same_account(a: &AccountId, b: &AccountId) -> (same: bool)
    ensures
        same == (*a == *b),
{
    a == b
}

} // verus!
