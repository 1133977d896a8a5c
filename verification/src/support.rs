//! Collaborator interfaces the marketplace's modules plug into: module
//! ownership and privilege queries, and the randomness provider, together
//! with the placeholder interfaces of the implication and decay subsystems.

use vstd::prelude::*;

verus! {

/// Access to a module's owning account and privilege tiers.
pub trait ModuleAccessor<AccountId>: Sized {
    /// The module's own account.
    fn get_owner_id() -> AccountId;

    /// Can thaw tokens, force transfers and burn tokens from any account.
    fn is_admin(_who: &AccountId) -> bool {
        false
    }

    /// Can mint tokens.
    fn is_issuer(_who: &AccountId) -> bool {
        false
    }

    /// Can freeze tokens.
    fn is_freezer(_who: &AccountId) -> bool {
        false
    }
}

impl ModuleAccessor<u64> for () {
    fn get_owner_id() -> (r: u64)
        ensures
            r == 0u64,
    {
        0
    }

    fn is_admin(_who: &u64) -> (r: bool)
        ensures
            !r,
    {
        false
    }

    fn is_issuer(_who: &u64) -> (r: bool)
        ensures
            !r,
    {
        false
    }

    fn is_freezer(_who: &u64) -> (r: bool)
        ensures
            !r,
    {
        false
    }
}

/// A source of random numbers.
pub trait RandomNumber<T> {
    /// Generate a random number from a given seed.
    fn generate_random(seed: T) -> T;

    /// Generate a random number below `total`.
    fn generate_random_in_range(total: T) -> T;
}

impl RandomNumber<u32> for () {
    fn generate_random(_seed: u32) -> (r: u32)
        ensures
            r == 0u32,
    {
        0
    }

    fn generate_random_in_range(_total: u32) -> (r: u32)
        ensures
            r == 0u32,
    {
        0
    }
}

/// The implication subsystem's interface.
pub trait ImplicationSystem {

}

/// An entity that takes part in implication.
pub trait ImplicationEntity {

}

/// The decay subsystem's interface.
pub trait DecayingSystem {

}

/// An entity that decays over time.
pub trait DecayingEntity {

}

} // verus!
