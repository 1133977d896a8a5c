//! The booked-started-ended lifecycle, driven end to end through the
//! engine: the full booking scenario, the settlement amounts, the expiry
//! rules and the ways each transition can be refused.

use mc_dungeons::engine::Engine;
use mc_dungeons::primitives::{DungeonInstanceStatus, Error, Event, OutcomeKind};

const MANAGER: u64 = 99;
const PLAYER: u64 = 1;
const SERVER: u64 = 2;
const D1: u64 = 1;
const ASSET: u64 = 7;

/// A fresh engine with dungeon `D1` (price 100, grants [(7, 50)]), the
/// player funded with 1000, and a closing gap of 10 ticks.
fn setup() -> Engine {
    let mut e = Engine::new(vec![MANAGER], 10, 20, 0, 42);
    e.register_asset(ASSET, true).unwrap();
    e.endow(PLAYER, 1000).unwrap();
    e.create(MANAGER, D1, 100, vec![(ASSET, 50)]).unwrap();
    e
}

#[test]
fn booking_reserves_the_price() {
    let mut e = setup();
    let ticket = e.buy_ticket(PLAYER, D1).unwrap();
    assert_eq!(ticket.len(), 32);
    assert_eq!(e.ledger.free_balance(PLAYER), 900);
    assert_eq!(e.ledger.reserved_balance(PLAYER), 100);
    assert!(matches!(
        e.instance_status(&ticket),
        Some(DungeonInstanceStatus::Booked { close_due: 10 })
    ));
}

#[test]
fn start_settles_price_and_mints_grants() {
    let mut e = setup();
    let ticket = e.buy_ticket(PLAYER, D1).unwrap();
    e.advance_time(5);
    e.start(SERVER, &ticket).unwrap();
    // the player's reserve dropped to zero and the server was paid
    assert_eq!(e.ledger.reserved_balance(PLAYER), 0);
    assert_eq!(e.ledger.free_balance(PLAYER), 900);
    assert_eq!(e.ledger.free_balance(SERVER), 100);
    // the granted asset was minted to the server
    assert_eq!(e.assets.supply(ASSET), 50);
    assert_eq!(e.assets.balance(ASSET, SERVER), 50);
    // close_due moved to start time plus the playing gap
    assert!(matches!(
        e.instance_status(&ticket),
        Some(DungeonInstanceStatus::Started { server: SERVER, close_due: 25 })
    ));
}

#[test]
fn second_start_fails_wrong_state() {
    let mut e = setup();
    let ticket = e.buy_ticket(PLAYER, D1).unwrap();
    e.advance_time(5);
    e.start(SERVER, &ticket).unwrap();
    assert_eq!(e.start(SERVER, &ticket), Err(Error::WrongState));
    assert!(matches!(
        e.instance_status(&ticket),
        Some(DungeonInstanceStatus::Started { .. })
    ));
}

#[test]
fn start_after_close_due_fails_expired() {
    let mut e = setup();
    let ticket = e.buy_ticket(PLAYER, D1).unwrap();
    e.advance_time(11);
    assert_eq!(e.start(SERVER, &ticket), Err(Error::Expired));
    // no ledger effect happened
    assert_eq!(e.ledger.reserved_balance(PLAYER), 100);
    assert_eq!(e.ledger.free_balance(SERVER), 0);
    assert_eq!(e.assets.supply(ASSET), 0);
    assert!(matches!(
        e.instance_status(&ticket),
        Some(DungeonInstanceStatus::Booked { close_due: 10 })
    ));
}

#[test]
fn start_at_the_deadline_fails_expired() {
    let mut e = setup();
    let ticket = e.buy_ticket(PLAYER, D1).unwrap();
    e.advance_time(10);
    assert_eq!(e.start(SERVER, &ticket), Err(Error::Expired));
}

#[test]
fn start_unknown_ticket_fails_not_found() {
    let mut e = setup();
    let bogus = vec![0u8; 32];
    assert_eq!(e.start(SERVER, &bogus), Err(Error::NotFound));
}

#[test]
fn currency_supply_is_conserved_by_start() {
    let mut e = setup();
    e.endow(SERVER, 5).unwrap();
    let before: u64 = e.ledger.free_balance(PLAYER)
        + e.ledger.reserved_balance(PLAYER)
        + e.ledger.free_balance(SERVER);
    let ticket = e.buy_ticket(PLAYER, D1).unwrap();
    e.start(SERVER, &ticket).unwrap();
    let after: u64 = e.ledger.free_balance(PLAYER)
        + e.ledger.reserved_balance(PLAYER)
        + e.ledger.free_balance(SERVER);
    assert_eq!(before, after);
}

#[test]
fn end_by_other_account_fails_unauthorized() {
    let mut e = setup();
    let ticket = e.buy_ticket(PLAYER, D1).unwrap();
    e.start(SERVER, &ticket).unwrap();
    assert_eq!(
        e.end(PLAYER, &ticket, OutcomeKind::Victory),
        Err(Error::Unauthorized)
    );
    assert!(matches!(
        e.instance_status(&ticket),
        Some(DungeonInstanceStatus::Started { .. })
    ));
}

#[test]
fn end_with_unknown_outcome_fails_and_keeps_started() {
    let mut e = setup();
    // D1's distribution table is empty, so every outcome is unknown
    let ticket = e.buy_ticket(PLAYER, D1).unwrap();
    e.start(SERVER, &ticket).unwrap();
    assert_eq!(
        e.end(SERVER, &ticket, OutcomeKind::Victory),
        Err(Error::UnknownOutcome)
    );
    assert!(matches!(
        e.instance_status(&ticket),
        Some(DungeonInstanceStatus::Started { .. })
    ));
    assert_eq!(e.assets.supply(ASSET), 50);
}

#[test]
fn end_mints_the_outcome_share() {
    let mut e = setup();
    e.modify_distribution_ratio(MANAGER, D1, vec![(OutcomeKind::Victory, 50)])
        .unwrap();
    let ticket = e.buy_ticket(PLAYER, D1).unwrap();
    e.advance_time(3);
    e.start(SERVER, &ticket).unwrap();
    e.advance_time(7);
    e.end(SERVER, &ticket, OutcomeKind::Victory).unwrap();
    // half of the 50-unit grant is minted on top of the start mint
    assert_eq!(e.assets.supply(ASSET), 75);
    assert_eq!(e.assets.balance(ASSET, SERVER), 75);
    assert!(matches!(
        e.instance_status(&ticket),
        Some(DungeonInstanceStatus::Ended {
            server: SERVER,
            report_at: 7,
            outcome: OutcomeKind::Victory
        })
    ));
}

#[test]
fn end_before_start_fails_wrong_state() {
    let mut e = setup();
    let ticket = e.buy_ticket(PLAYER, D1).unwrap();
    assert_eq!(
        e.end(SERVER, &ticket, OutcomeKind::Victory),
        Err(Error::WrongState)
    );
}

#[test]
fn sweep_refunds_and_closes_expired_bookings() {
    let mut e = setup();
    let ticket = e.buy_ticket(PLAYER, D1).unwrap();
    e.advance_time(10);
    e.sweep();
    assert!(matches!(
        e.instance_status(&ticket),
        Some(DungeonInstanceStatus::Closed)
    ));
    assert_eq!(e.ledger.free_balance(PLAYER), 1000);
    assert_eq!(e.ledger.reserved_balance(PLAYER), 0);
}

#[test]
fn sweep_times_out_expired_sessions_then_closes_them() {
    let mut e = setup();
    let ticket = e.buy_ticket(PLAYER, D1).unwrap();
    e.start(SERVER, &ticket).unwrap();
    e.advance_time(20);
    e.sweep();
    assert!(matches!(
        e.instance_status(&ticket),
        Some(DungeonInstanceStatus::Ended {
            server: SERVER,
            report_at: 20,
            outcome: OutcomeKind::Timeout
        })
    ));
    e.advance_time(21);
    e.sweep();
    assert!(matches!(
        e.instance_status(&ticket),
        Some(DungeonInstanceStatus::Closed)
    ));
}

#[test]
fn sweep_leaves_open_instances_alone() {
    let mut e = setup();
    let ticket = e.buy_ticket(PLAYER, D1).unwrap();
    e.advance_time(9);
    e.sweep();
    assert!(matches!(
        e.instance_status(&ticket),
        Some(DungeonInstanceStatus::Booked { close_due: 10 })
    ));
    assert_eq!(e.ledger.reserved_balance(PLAYER), 100);
}

#[test]
fn ended_sessions_are_finalized_by_the_next_sweep() {
    let mut e = setup();
    e.modify_distribution_ratio(MANAGER, D1, vec![(OutcomeKind::Defeat, 10)])
        .unwrap();
    let ticket = e.buy_ticket(PLAYER, D1).unwrap();
    e.start(SERVER, &ticket).unwrap();
    e.end(SERVER, &ticket, OutcomeKind::Defeat).unwrap();
    e.sweep();
    assert!(matches!(
        e.instance_status(&ticket),
        Some(DungeonInstanceStatus::Closed)
    ));
}

#[test]
fn ticket_ids_differ_between_bookings() {
    let mut e = setup();
    let t1 = e.buy_ticket(PLAYER, D1).unwrap();
    let t2 = e.buy_ticket(PLAYER, D1).unwrap();
    assert_eq!(t1.len(), 32);
    assert_eq!(t2.len(), 32);
    assert_ne!(t1, t2);
    assert!(matches!(
        e.instance_status(&t1),
        Some(DungeonInstanceStatus::Booked { .. })
    ));
    assert!(matches!(
        e.instance_status(&t2),
        Some(DungeonInstanceStatus::Booked { .. })
    ));
    assert_eq!(e.instance_count(), 2);
}

#[test]
fn booking_without_funds_fails_insufficient() {
    let mut e = Engine::new(vec![MANAGER], 10, 20, 0, 42);
    e.register_asset(ASSET, true).unwrap();
    e.create(MANAGER, D1, 100, vec![(ASSET, 50)]).unwrap();
    assert_eq!(e.buy_ticket(PLAYER, D1), Err(Error::InsufficientFunds));
    assert_eq!(e.instance_count(), 0);
}

#[test]
fn booking_unknown_dungeon_fails_not_found() {
    let mut e = setup();
    assert_eq!(e.buy_ticket(PLAYER, 77), Err(Error::NotFound));
}

#[test]
fn the_full_scenario_emits_events_in_order() {
    let mut e = setup();
    let ticket = e.buy_ticket(PLAYER, D1).unwrap();
    e.advance_time(5);
    e.start(SERVER, &ticket).unwrap();
    assert_eq!(e.events.len(), 3);
    assert!(matches!(
        e.events[0],
        Event::DungeonCreated { dungeon_id: D1, ticket_price: 100 }
    ));
    match &e.events[1] {
        Event::DungeonTicketBought { dungeon_id, player, ticket_id } => {
            assert_eq!(*dungeon_id, D1);
            assert_eq!(*player, PLAYER);
            assert_eq!(*ticket_id, ticket);
        }
        other => panic!("unexpected event {:?}", other),
    }
    match &e.events[2] {
        Event::DungeonStarted { dungeon_id, player, server, ticket_id } => {
            assert_eq!(*dungeon_id, D1);
            assert_eq!(*player, PLAYER);
            assert_eq!(*server, SERVER);
            assert_eq!(*ticket_id, ticket);
        }
        other => panic!("unexpected event {:?}", other),
    }
}

#[test]
fn a_booked_instance_keeps_the_price_captured_at_booking() {
    let mut e = setup();
    let ticket = e.buy_ticket(PLAYER, D1).unwrap();
    // raising the price afterwards does not change the in-flight ticket
    e.modify_price(MANAGER, D1, 500).unwrap();
    e.start(SERVER, &ticket).unwrap();
    assert_eq!(e.ledger.free_balance(SERVER), 100);
    assert_eq!(e.dungeon_ticket_price(D1), Some(500));
}

#[test]
fn start_with_unregistered_grant_fails_asset_unavailable() {
    let mut e = setup();
    // the live table is changed to grant an asset nobody registered, and a
    // later booking captures it
    e.modify_assets_supply(MANAGER, D1, vec![(8, 10)]).unwrap();
    let ticket = e.buy_ticket(PLAYER, D1).unwrap();
    assert_eq!(e.start(SERVER, &ticket), Err(Error::AssetUnavailable));
    // the instance exists, still booked, and no ledger effect happened
    assert!(matches!(
        e.instance_status(&ticket),
        Some(DungeonInstanceStatus::Booked { close_due: 10 })
    ));
    assert_eq!(e.ledger.reserved_balance(PLAYER), 100);
    assert_eq!(e.ledger.free_balance(SERVER), 0);
}

#[test]
fn a_booked_instance_keeps_the_distribution_captured_at_booking() {
    let mut e = setup();
    // the table is empty when the ticket is bought
    let ticket = e.buy_ticket(PLAYER, D1).unwrap();
    e.modify_distribution_ratio(MANAGER, D1, vec![(OutcomeKind::Victory, 50)])
        .unwrap();
    e.start(SERVER, &ticket).unwrap();
    // the live table knows Victory, but the captured one does not
    assert_eq!(
        e.end(SERVER, &ticket, OutcomeKind::Victory),
        Err(Error::UnknownOutcome)
    );
}

#[test]
fn a_booked_instance_keeps_the_grants_captured_at_booking() {
    let mut e = setup();
    e.register_asset(8, true).unwrap();
    let ticket = e.buy_ticket(PLAYER, D1).unwrap();
    e.modify_assets_supply(MANAGER, D1, vec![(8, 1000)]).unwrap();
    e.start(SERVER, &ticket).unwrap();
    assert_eq!(e.assets.supply(ASSET), 50);
    assert_eq!(e.assets.supply(8), 0);
}
