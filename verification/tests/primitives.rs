//! The feature primitives' byte conversions and defaults, and the
//! deterministic random generator.

use mc_dungeons::features::{AssetFeature, FeatureDestinyRank, FeatureElements, FeatureHue,
    FeatureLevel, FeatureRankedLevel};
use mc_dungeons::random::HashRandom;
use mc_dungeons::support::{ModuleAccessor, RandomNumber};

#[test]
fn hue_bytes_round_trip() {
    let hues = [
        FeatureHue::Green,
        FeatureHue::Yellow,
        FeatureHue::White,
        FeatureHue::Black,
        FeatureHue::Blue,
        FeatureHue::Red,
        FeatureHue::Orange,
        FeatureHue::Pink,
        FeatureHue::Purple,
    ];
    for hue in hues {
        let b: u8 = u8::from(hue);
        assert_eq!(FeatureHue::from(b), hue);
    }
    assert_eq!(u8::from(FeatureHue::White), 0x03);
    // unknown bytes decode to green
    assert_eq!(FeatureHue::from(0x00), FeatureHue::Green);
    assert_eq!(FeatureHue::from(0xff), FeatureHue::Green);
}

#[test]
fn level_bytes_round_trip() {
    for b in 0u8..=5u8 {
        assert_eq!(u8::from(FeatureLevel::from(b)), b);
    }
    assert_eq!(FeatureLevel::from(9), FeatureLevel::Lv0);
}

#[test]
fn elements_decode_by_trailing_zeroes() {
    assert_eq!(
        FeatureElements::from_bytes(&[0x03, 0, 0, 0]),
        FeatureElements::One(FeatureHue::White)
    );
    assert_eq!(
        FeatureElements::from_bytes(&[0x01, 0x02, 0, 0]),
        FeatureElements::Two(FeatureHue::Green, FeatureHue::Yellow)
    );
    assert_eq!(
        FeatureElements::from_bytes(&[0x01, 0x02, 0x03, 0x04]),
        FeatureElements::Four(
            FeatureHue::Green,
            FeatureHue::Yellow,
            FeatureHue::White,
            FeatureHue::Black
        )
    );
    // a number spreads over the four nibble-spaced bytes
    assert_eq!(
        FeatureElements::from(0x03u32),
        FeatureElements::One(FeatureHue::White)
    );
}

#[test]
fn feature_defaults() {
    assert_eq!(
        FeatureElements::default(),
        FeatureElements::One(FeatureHue::Green)
    );
    assert_eq!(FeatureLevel::default(), FeatureLevel::Lv0);
    assert_eq!(
        FeatureRankedLevel::default(),
        FeatureRankedLevel::Low(FeatureLevel::Lv0)
    );
    assert_eq!(FeatureDestinyRank::default(), FeatureDestinyRank::Huang);
}

#[test]
fn asset_feature_create_bundles_its_parts() {
    let f = AssetFeature::create(
        FeatureDestinyRank::Tian,
        FeatureElements::One(FeatureHue::Red),
        FeatureRankedLevel::High(FeatureLevel::Lv4),
        FeatureLevel::Lv2,
    );
    assert_eq!(f.destiny, FeatureDestinyRank::Tian);
    assert_eq!(f.elements, FeatureElements::One(FeatureHue::Red));
    assert_eq!(f.saturation, FeatureRankedLevel::High(FeatureLevel::Lv4));
    assert_eq!(f.lightness, FeatureLevel::Lv2);
}

#[test]
fn random_draws_are_deterministic() {
    let a = HashRandom::random_from_seed(5);
    let b = HashRandom::random_from_seed(5);
    assert_eq!(a, b);
    // distinct seeds give distinct digests in practice
    assert_ne!(HashRandom::random_from_seed(5), HashRandom::random_from_seed(6));
}

#[test]
fn ranged_draws_stay_in_range() {
    for total in [1u32, 2, 7, 100, 12345] {
        let r = HashRandom::random_in_range(total);
        assert!(r < total);
    }
    assert_eq!(HashRandom::random_in_range(0), 0);
    assert_eq!(HashRandom::random_in_range(1), 0);
}

#[test]
fn trait_impls_for_unit_are_inert() {
    let owner: u64 = <() as ModuleAccessor<u64>>::get_owner_id();
    assert_eq!(owner, 0);
    assert!(!<() as ModuleAccessor<u64>>::is_admin(&1));
    assert!(!<() as ModuleAccessor<u64>>::is_issuer(&1));
    assert!(!<() as ModuleAccessor<u64>>::is_freezer(&1));
    assert_eq!(<() as RandomNumber<u32>>::generate_random(9), 0);
    assert_eq!(<() as RandomNumber<u32>>::generate_random_in_range(9), 0);
}

#[test]
fn the_generator_implements_the_randomness_interface() {
    let direct = HashRandom::random_from_seed(3);
    let through_trait = <HashRandom as RandomNumber<u32>>::generate_random(3);
    assert_eq!(direct, through_trait);
    let ranged = <HashRandom as RandomNumber<u32>>::generate_random_in_range(10);
    assert!(ranged < 10);
}
