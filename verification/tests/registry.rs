//! The dungeon registry: creation, the three modifications, authorization
//! and the validation of distribution tables.

use mc_dungeons::engine::Engine;
use mc_dungeons::primitives::{Error, Event, OutcomeKind};

const MANAGER: u64 = 99;
const INTRUDER: u64 = 3;
const D1: u64 = 1;
const ASSET: u64 = 7;

fn setup() -> Engine {
    let mut e = Engine::new(vec![MANAGER], 10, 20, 0, 42);
    e.register_asset(ASSET, true).unwrap();
    e
}

#[test]
fn create_stores_the_definition() {
    let mut e = setup();
    e.create(MANAGER, D1, 100, vec![(ASSET, 50)]).unwrap();
    assert_eq!(e.dungeon_ticket_price(D1), Some(100));
    assert!(matches!(
        e.events[0],
        Event::DungeonCreated { dungeon_id: D1, ticket_price: 100 }
    ));
}

#[test]
fn create_twice_fails_already_exists() {
    let mut e = setup();
    e.create(MANAGER, D1, 100, vec![]).unwrap();
    assert_eq!(e.create(MANAGER, D1, 200, vec![]), Err(Error::AlreadyExists));
    assert_eq!(e.dungeon_ticket_price(D1), Some(100));
}

#[test]
fn create_by_non_manager_fails_unauthorized() {
    let mut e = setup();
    assert_eq!(
        e.create(INTRUDER, D1, 100, vec![]),
        Err(Error::Unauthorized)
    );
    assert_eq!(e.dungeon_ticket_price(D1), None);
}

#[test]
fn create_with_unused_asset_fails() {
    let mut e = setup();
    e.register_asset(8, false).unwrap();
    assert_eq!(
        e.create(MANAGER, D1, 100, vec![(ASSET, 50), (8, 1)]),
        Err(Error::AssetUnavailable)
    );
    // an unregistered asset is not in use either
    assert_eq!(
        e.create(MANAGER, D1, 100, vec![(9, 1)]),
        Err(Error::AssetUnavailable)
    );
}

#[test]
fn modify_price_changes_only_the_price() {
    let mut e = setup();
    e.create(MANAGER, D1, 100, vec![(ASSET, 50)]).unwrap();
    e.modify_price(MANAGER, D1, 250).unwrap();
    assert_eq!(e.dungeon_ticket_price(D1), Some(250));
    assert!(matches!(
        e.events[1],
        Event::DungeonTicketModified { dungeon_id: D1, old_price: 100, new_price: 250 }
    ));
}

#[test]
fn modify_price_of_unknown_dungeon_fails_not_found() {
    let mut e = setup();
    assert_eq!(e.modify_price(MANAGER, D1, 250), Err(Error::NotFound));
}

#[test]
fn modify_price_by_non_manager_fails_unauthorized() {
    let mut e = setup();
    e.create(MANAGER, D1, 100, vec![]).unwrap();
    assert_eq!(e.modify_price(INTRUDER, D1, 1), Err(Error::Unauthorized));
    assert_eq!(e.dungeon_ticket_price(D1), Some(100));
}

#[test]
fn modify_assets_supply_replaces_the_grant_table() {
    let mut e = setup();
    e.create(MANAGER, D1, 100, vec![(ASSET, 50)]).unwrap();
    e.modify_assets_supply(MANAGER, D1, vec![(ASSET, 75)]).unwrap();
    assert!(matches!(
        e.events[1],
        Event::DungeonInfoModified { dungeon_id: D1 }
    ));
}

#[test]
fn modify_distribution_accepts_a_valid_table() {
    let mut e = setup();
    e.create(MANAGER, D1, 100, vec![]).unwrap();
    e.modify_distribution_ratio(
        MANAGER,
        D1,
        vec![(OutcomeKind::Victory, 60), (OutcomeKind::Victory, 40), (OutcomeKind::Defeat, 5)],
    )
    .unwrap();
    assert!(matches!(
        e.events[1],
        Event::DungeonReportRanksModified { dungeon_id: D1 }
    ));
}

#[test]
fn modify_distribution_rejects_an_oversubscribed_outcome() {
    let mut e = setup();
    e.create(MANAGER, D1, 100, vec![]).unwrap();
    // Victory's entries sum to 101 percent
    assert_eq!(
        e.modify_distribution_ratio(
            MANAGER,
            D1,
            vec![(OutcomeKind::Victory, 60), (OutcomeKind::Victory, 41)],
        ),
        Err(Error::InvalidDistribution)
    );
}

#[test]
fn modify_distribution_of_unknown_dungeon_fails_not_found() {
    let mut e = setup();
    assert_eq!(
        e.modify_distribution_ratio(MANAGER, D1, vec![]),
        Err(Error::NotFound)
    );
}
