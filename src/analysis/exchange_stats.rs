use vstd::prelude::*;
use crate::tichu_hand::{CardIndex, PHOENIX, DRAGON, MAHJONG, get_card_type};

verus! {

/// The exchange value of a card: its rank for suited cards, and dog 0, phoenix 14,
/// dragon 15, mahjong 16.
pub open spec fn exchange_value(card: u8) -> u8 {
    if card % 16 != 0 {
        card % 16
    } else if card == PHOENIX {
        14
    } else if card == DRAGON {
        15
    } else if card == MAHJONG {
        16
    } else {
        0
    }
}

pub fn get_exchange_card_type(card: CardIndex) -> (r: u8)
    requires
        card < 64,
    ensures
        r == exchange_value(card),
{
    let res = get_card_type(card);
    if res == 0 {
        match card {
            0 => 14,
            32 => 15,
            48 => 16,
            _ => 0,
        }
    } else {
        res
    }
}

} // verus!
