//! The currency ledger and the asset registry on their own: reservation,
//! keep-alive transfers, issuance limits, minting and batch minting.

use mc_dungeons::assets::Assets;
use mc_dungeons::ledger::Ledger;
use mc_dungeons::primitives::Error;

#[test]
fn reserve_moves_free_to_held() {
    let mut l = Ledger::new(0);
    l.endow(1, 100).unwrap();
    l.reserve(1, 30).unwrap();
    assert_eq!(l.free_balance(1), 70);
    assert_eq!(l.reserved_balance(1), 30);
}

#[test]
fn reserve_more_than_free_fails() {
    let mut l = Ledger::new(0);
    l.endow(1, 100).unwrap();
    assert_eq!(l.reserve(1, 101), Err(Error::InsufficientFunds));
    assert_eq!(l.free_balance(1), 100);
}

#[test]
fn unreserve_moves_at_most_what_is_held() {
    let mut l = Ledger::new(0);
    l.endow(1, 100).unwrap();
    l.reserve(1, 30).unwrap();
    assert_eq!(l.unreserve(1, 20), 20);
    assert_eq!(l.unreserve(1, 50), 10);
    assert_eq!(l.free_balance(1), 100);
    assert_eq!(l.reserved_balance(1), 0);
}

#[test]
fn transfer_moves_spendable_balance() {
    let mut l = Ledger::new(0);
    l.endow(1, 100).unwrap();
    l.transfer(1, 2, 40, false).unwrap();
    assert_eq!(l.free_balance(1), 60);
    assert_eq!(l.free_balance(2), 40);
}

#[test]
fn keep_alive_transfer_respects_the_minimum() {
    let mut l = Ledger::new(10);
    l.endow(1, 100).unwrap();
    assert_eq!(l.transfer(1, 2, 95, true), Err(Error::InsufficientFunds));
    l.transfer(1, 2, 90, true).unwrap();
    assert_eq!(l.free_balance(1), 10);
    assert_eq!(l.free_balance(2), 90);
}

#[test]
fn endowing_past_the_issuance_limit_fails() {
    let mut l = Ledger::new(0);
    l.endow(1, u64::MAX).unwrap();
    assert_eq!(l.endow(2, 1), Err(Error::Overflow));
    assert_eq!(l.free_balance(2), 0);
}

#[test]
fn mint_grows_supply_and_balance_together() {
    let mut a = Assets::new();
    a.register(7, true).unwrap();
    a.mint(7, 2, 50).unwrap();
    a.mint(7, 3, 25).unwrap();
    assert_eq!(a.supply(7), 75);
    assert_eq!(a.balance(7, 2), 50);
    assert_eq!(a.balance(7, 3), 25);
}

#[test]
fn mint_on_unregistered_asset_fails_unavailable() {
    let mut a = Assets::new();
    assert_eq!(a.mint(7, 2, 50), Err(Error::AssetUnavailable));
}

#[test]
fn mint_past_the_supply_limit_fails_overflow() {
    let mut a = Assets::new();
    a.register(7, true).unwrap();
    a.mint(7, 2, u64::MAX).unwrap();
    assert_eq!(a.mint(7, 2, 1), Err(Error::Overflow));
    assert_eq!(a.supply(7), u64::MAX);
}

#[test]
fn register_twice_fails_already_exists() {
    let mut a = Assets::new();
    a.register(7, true).unwrap();
    assert_eq!(a.register(7, false), Err(Error::AlreadyExists));
    assert!(a.is_in_using(7));
}

#[test]
fn set_in_using_flips_the_flag() {
    let mut a = Assets::new();
    a.register(7, false).unwrap();
    assert!(!a.is_in_using(7));
    a.set_in_using(7, true).unwrap();
    assert!(a.is_in_using(7));
    assert_eq!(a.set_in_using(8, true), Err(Error::AssetUnavailable));
}

#[test]
fn batch_mint_sums_duplicate_assets() {
    let mut a = Assets::new();
    a.register(7, true).unwrap();
    a.mint_batch(&vec![(7, 5), (7, 6)], 2).unwrap();
    assert_eq!(a.supply(7), 11);
    assert_eq!(a.balance(7, 2), 11);
}

#[test]
fn batch_mint_is_all_or_nothing() {
    let mut a = Assets::new();
    a.register(7, true).unwrap();
    a.mint(7, 9, 10).unwrap();
    // the second entry is unregistered, so the first must not be minted either
    assert_eq!(
        a.mint_batch(&vec![(7, 5), (8, 1)], 2),
        Err(Error::AssetUnavailable)
    );
    assert_eq!(a.supply(7), 10);
    assert_eq!(a.balance(7, 2), 0);
    // a batch that would overflow one asset's supply changes nothing
    assert_eq!(
        a.mint_batch(&vec![(7, u64::MAX - 10), (7, 1)], 2),
        Err(Error::Overflow)
    );
    assert_eq!(a.supply(7), 10);
}
