//! The combinable features an asset can carry: hue, element combination,
//! level, ranked level and destiny rank, with their byte encodings, and the
//! feature bundle attached to an asset.

use vstd::prelude::*;

verus! {

/// A hue an asset can carry.
#[derive(Clone, Copy, Debug, PartialEq, Eq, Structural)]
pub enum FeatureHue {
    Green,
    Yellow,
    White,
    Black,
    Blue,
    Red,
    Orange,
    Pink,
    Purple,
}

/// The byte that encodes a hue.
pub open spec fn hue_byte(h: FeatureHue) -> u8 {
    match h {
        FeatureHue::Green => 0x01,
        FeatureHue::Yellow => 0x02,
        FeatureHue::White => 0x03,
        FeatureHue::Black => 0x04,
        FeatureHue::Blue => 0x05,
        FeatureHue::Red => 0x06,
        FeatureHue::Orange => 0x07,
        FeatureHue::Pink => 0x08,
        FeatureHue::Purple => 0x09,
    }
}

/// The hue a byte decodes to; unknown bytes decode to green.
pub open spec fn hue_of_byte(num: u8) -> FeatureHue {
    if num == 0x01 {
        FeatureHue::Green
    } else if num == 0x02 {
        FeatureHue::Yellow
    } else if num == 0x03 {
        FeatureHue::White
    } else if num == 0x04 {
        FeatureHue::Black
    } else if num == 0x05 {
        FeatureHue::Blue
    } else if num == 0x06 {
        FeatureHue::Red
    } else if num == 0x07 {
        FeatureHue::Orange
    } else if num == 0x08 {
        FeatureHue::Pink
    } else if num == 0x09 {
        FeatureHue::Purple
    } else {
        FeatureHue::Green
    }
}

impl From<FeatureHue> for u8 {
    fn from(h: FeatureHue) -> (r: u8) {
        match h {
            FeatureHue::Green => 0x01,
            FeatureHue::Yellow => 0x02,
            FeatureHue::White => 0x03,
            FeatureHue::Black => 0x04,
            FeatureHue::Blue => 0x05,
            FeatureHue::Red => 0x06,
            FeatureHue::Orange => 0x07,
            FeatureHue::Pink => 0x08,
            FeatureHue::Purple => 0x09,
        }
    }
}

impl vstd::std_specs::convert::FromSpecImpl<FeatureHue> for u8 {
    open spec fn obeys_from_spec() -> bool {
        true
    }

    open spec fn from_spec(h: FeatureHue) -> u8 {
        hue_byte(h)
    }
}

impl From<u8> for FeatureHue {
    fn from(num: u8) -> (r: FeatureHue) {
        match num {
            0x01 => FeatureHue::Green,
            0x02 => FeatureHue::Yellow,
            0x03 => FeatureHue::White,
            0x04 => FeatureHue::Black,
            0x05 => FeatureHue::Blue,
            0x06 => FeatureHue::Red,
            0x07 => FeatureHue::Orange,
            0x08 => FeatureHue::Pink,
            0x09 => FeatureHue::Purple,
            _ => FeatureHue::Green,
        }
    }
}

impl vstd::std_specs::convert::FromSpecImpl<u8> for FeatureHue {
    open spec fn obeys_from_spec() -> bool {
        true
    }

    open spec fn from_spec(num: u8) -> FeatureHue {
        hue_of_byte(num)
    }
}

/// One to four hues combined.
#[derive(Clone, Copy, Debug, PartialEq, Eq, Structural)]
pub enum FeatureElements {
    One(FeatureHue),
    Two(FeatureHue, FeatureHue),
    Three(FeatureHue, FeatureHue, FeatureHue),
    Four(FeatureHue, FeatureHue, FeatureHue, FeatureHue),
}

/// The combination four bytes decode to: trailing zero bytes shrink the
/// combination, and each non-zero byte decodes to its hue.
pub open spec fn elements_of_bytes(bytes: Seq<u8>) -> FeatureElements {
    if bytes[3] == 0u8 && bytes[2] == 0u8 && bytes[1] == 0u8 {
        FeatureElements::One(hue_of_byte(bytes[0]))
    } else if bytes[3] == 0u8 && bytes[2] == 0u8 {
        FeatureElements::Two(hue_of_byte(bytes[0]), hue_of_byte(bytes[1]))
    } else if bytes[3] == 0u8 {
        FeatureElements::Three(hue_of_byte(bytes[0]), hue_of_byte(bytes[1]), hue_of_byte(bytes[2]))
    } else {
        FeatureElements::Four(
            hue_of_byte(bytes[0]),
            hue_of_byte(bytes[1]),
            hue_of_byte(bytes[2]),
            hue_of_byte(bytes[3]),
        )
    }
}

/// The four little-endian nibble-spaced bytes a number spreads into, as
/// the element decoding reads them.
pub open spec fn elements_bytes_of_u32(num: u32) -> Seq<u8> {
    seq![
        (num >> 0) as u8,
        (num >> 4) as u8,
        (num >> 8) as u8,
        (num >> 12) as u8,
    ]
}

impl FeatureElements {
    /// Decode a combination from four bytes.
    pub fn from_bytes(bytes: &[u8; 4]) -> (r: FeatureElements)
        ensures
            r == elements_of_bytes(bytes@),
    {
        if bytes[3] == 0u8 && bytes[2] == 0u8 && bytes[1] == 0u8 {
            FeatureElements::One(FeatureHue::from(bytes[0]))
        } else if bytes[3] == 0u8 && bytes[2] == 0u8 {
            FeatureElements::Two(FeatureHue::from(bytes[0]), FeatureHue::from(bytes[1]))
        } else if bytes[3] == 0u8 {
            FeatureElements::Three(
                FeatureHue::from(bytes[0]),
                FeatureHue::from(bytes[1]),
                FeatureHue::from(bytes[2]),
            )
        } else {
            FeatureElements::Four(
                FeatureHue::from(bytes[0]),
                FeatureHue::from(bytes[1]),
                FeatureHue::from(bytes[2]),
                FeatureHue::from(bytes[3]),
            )
        }
    }
}

impl From<u32> for FeatureElements {
    fn from(num: u32) -> (r: FeatureElements) {
        let bytes: [u8; 4] = [
            (num >> 0) as u8,
            (num >> 4) as u8,
            (num >> 8) as u8,
            (num >> 12) as u8,
        ];
        proof {
            assert(bytes@ =~= elements_bytes_of_u32(num));
        }
        FeatureElements::from_bytes(&bytes)
    }
}

impl vstd::std_specs::convert::FromSpecImpl<u32> for FeatureElements {
    open spec fn obeys_from_spec() -> bool {
        true
    }

    open spec fn from_spec(num: u32) -> FeatureElements {
        elements_of_bytes(elements_bytes_of_u32(num))
    }
}

impl Default for FeatureElements {
    fn default() -> (r: Self)
        ensures
            r == FeatureElements::One(FeatureHue::Green),
    {
        FeatureElements::One(FeatureHue::Green)
    }
}

/// A plain level from zero to five.
#[derive(Clone, Copy, Debug, PartialEq, Eq, Structural)]
pub enum FeatureLevel {
    Lv0,
    Lv1,
    Lv2,
    Lv3,
    Lv4,
    Lv5,
}

/// The level a byte decodes to; unknown bytes decode to level zero.
pub open spec fn level_of_byte(num: u8) -> FeatureLevel {
    if num == 1u8 {
        FeatureLevel::Lv1
    } else if num == 2u8 {
        FeatureLevel::Lv2
    } else if num == 3u8 {
        FeatureLevel::Lv3
    } else if num == 4u8 {
        FeatureLevel::Lv4
    } else if num == 5u8 {
        FeatureLevel::Lv5
    } else {
        FeatureLevel::Lv0
    }
}

/// The byte that encodes a level.
pub open spec fn level_byte(l: FeatureLevel) -> u8 {
    match l {
        FeatureLevel::Lv0 => 0u8,
        FeatureLevel::Lv1 => 1u8,
        FeatureLevel::Lv2 => 2u8,
        FeatureLevel::Lv3 => 3u8,
        FeatureLevel::Lv4 => 4u8,
        FeatureLevel::Lv5 => 5u8,
    }
}

impl From<u8> for FeatureLevel {
    fn from(num: u8) -> (r: FeatureLevel) {
        match num {
            0u8 => FeatureLevel::Lv0,
            1u8 => FeatureLevel::Lv1,
            2u8 => FeatureLevel::Lv2,
            3u8 => FeatureLevel::Lv3,
            4u8 => FeatureLevel::Lv4,
            5u8 => FeatureLevel::Lv5,
            _ => FeatureLevel::Lv0,
        }
    }
}

impl vstd::std_specs::convert::FromSpecImpl<u8> for FeatureLevel {
    open spec fn obeys_from_spec() -> bool {
        true
    }

    open spec fn from_spec(num: u8) -> FeatureLevel {
        level_of_byte(num)
    }
}

impl From<FeatureLevel> for u8 {
    fn from(l: FeatureLevel) -> (r: u8) {
        match l {
            FeatureLevel::Lv0 => 0u8,
            FeatureLevel::Lv1 => 1u8,
            FeatureLevel::Lv2 => 2u8,
            FeatureLevel::Lv3 => 3u8,
            FeatureLevel::Lv4 => 4u8,
            FeatureLevel::Lv5 => 5u8,
        }
    }
}

impl vstd::std_specs::convert::FromSpecImpl<FeatureLevel> for u8 {
    open spec fn obeys_from_spec() -> bool {
        true
    }

    open spec fn from_spec(l: FeatureLevel) -> u8 {
        level_byte(l)
    }
}

impl Default for FeatureLevel {
    fn default() -> (r: Self)
        ensures
            r == FeatureLevel::Lv0,
    {
        FeatureLevel::Lv0
    }
}

/// A level within a low, middle or high band.
#[derive(Clone, Copy, Debug, PartialEq, Eq, Structural)]
pub enum FeatureRankedLevel {
    Low(FeatureLevel),
    Middle(FeatureLevel),
    High(FeatureLevel),
}

impl Default for FeatureRankedLevel {
    fn default() -> (r: Self)
        ensures
            r == FeatureRankedLevel::Low(FeatureLevel::Lv0),
    {
        FeatureRankedLevel::Low(FeatureLevel::Lv0)
    }
}

/// The destiny rank of an asset.
#[derive(Clone, Copy, Debug, PartialEq, Eq, Structural)]
pub enum FeatureDestinyRank {
    Tian,
    Di,
    Xuan,
    Huang,
}

impl Default for FeatureDestinyRank {
    fn default() -> (r: Self)
        ensures
            r == FeatureDestinyRank::Huang,
    {
        FeatureDestinyRank::Huang
    }
}

/// The feature bundle attached to an asset.
#[derive(Clone, Copy, Debug, PartialEq, Eq, Structural)]
pub struct AssetFeature {
    /// The destiny rank of this asset.
    pub destiny: FeatureDestinyRank,
    /// The elements info of this asset.
    pub elements: FeatureElements,
    /// The saturation of this asset.
    pub saturation: FeatureRankedLevel,
    /// The lightness of this asset.
    pub lightness: FeatureLevel,
}

impl AssetFeature {
    /// Bundle the four features.
    pub fn create(
        destiny: FeatureDestinyRank,
        elements: FeatureElements,
        saturation: FeatureRankedLevel,
        lightness: FeatureLevel,
    ) -> (r: Self)
        ensures
            r.destiny == destiny,
            r.elements == elements,
            r.saturation == saturation,
            r.lightness == lightness,
    {
        AssetFeature { destiny, elements, saturation, lightness }
    }
}

impl Default for AssetFeature {
    fn default() -> (r: Self)
        ensures
            r.destiny == FeatureDestinyRank::Huang,
            r.elements == FeatureElements::One(FeatureHue::Green),
            r.saturation == FeatureRankedLevel::Low(FeatureLevel::Lv0),
            r.lightness == FeatureLevel::Lv0,
    {
        AssetFeature {
            destiny: FeatureDestinyRank::Huang,
            elements: FeatureElements::One(FeatureHue::Green),
            saturation: FeatureRankedLevel::Low(FeatureLevel::Lv0),
            lightness: FeatureLevel::Lv0,
        }
    }
}

} // verus!
