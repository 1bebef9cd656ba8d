use vstd::prelude::*;
use vstd::std_specs::bits::{u64_trailing_zeros, u64_leading_zeros};
use crate::bits::{popcount, lemma_popcount_bound};
use crate::tichu_hand::{Hand, CardType, MASK_YELLOW, MASK_NORMAL_CARDS, PHOENIX_BIT};

verus! {

broadcast use vstd::std_specs::bits::axiom_u64_trailing_zeros, vstd::std_specs::bits::axiom_u64_leading_zeros;

/// Ranks held in any column, at bits 1 to 13.
pub open spec fn held_ranks(hand: u64) -> u64 {
    (hand | (hand >> 48u64) | (hand >> 32u64) | (hand >> 16u64)) & MASK_YELLOW
}

/// Suited cards that share their rank with a card of a later column.
pub open spec fn paired_cards(hand: u64) -> u64 {
    ((hand >> 16u64) | (hand >> 32u64) | (hand >> 48u64)) & hand & MASK_NORMAL_CARDS
}

/// Ranks held at least twice, at bits 1 to 13.
pub open spec fn paired_ranks(hand: u64) -> u64 {
    let t = paired_cards(hand);
    (t | (t >> 16u64) | (t >> 32u64)) & MASK_YELLOW
}

/// The lowest rank of the pair street that the hand forms, if any: an even number of 4
/// to 14 cards whose ranks form a gapless run, each rank held exactly twice, or once
/// for exactly one rank when the phoenix completes that pair; no other special card.
pub open spec fn pair_street_spec(hand: u64) -> Option<CardType> {
    let cnt = popcount(hand);
    let ph: nat = if hand & PHOENIX_BIT != 0 { 1 } else { 0 };
    let singles = held_ranks(hand);
    let pairs = paired_ranks(hand);
    if cnt < 4 || cnt > 14 || cnt % 2 != 0 {
        None
    } else if popcount(singles) + popcount(pairs) + ph != cnt || popcount(pairs ^ singles) != ph {
        None
    } else if 64 <= popcount(singles) + u64_leading_zeros(singles) + u64_trailing_zeros(singles) {
        Some(u64_trailing_zeros(singles) as u8)
    } else {
        None
    }
}

/// Detects a pair street; returns its lowest rank.
pub fn is_pair_street_fast(hand: Hand) -> (r: Option<CardType>)
    ensures
        r == pair_street_spec(hand),
{
    let cnt = hand.count_ones();
    if cnt < 4 || cnt > 14 || cnt % 2 != 0 {
        return None;
    }
    let has_phoenix: u32 = if hand & PHOENIX_BIT != 0 { 1 } else { 0 };
    let singles = (hand | (hand >> 48u64) | (hand >> 32u64) | (hand >> 16u64)) & MASK_YELLOW;
    let lowest_non_special_card = singles.trailing_zeros() as CardType;
    let true_pairs: Hand = ((hand >> 16u64) | (hand >> 32u64) | (hand >> 48u64)) & hand
        & MASK_NORMAL_CARDS;
    let true_pairs_in_yellow: Hand = (true_pairs | (true_pairs >> 16u64) | (true_pairs >> 32u64))
        & MASK_YELLOW;
    let n_singles = singles.count_ones();
    let n_pairs = true_pairs_in_yellow.count_ones();
    proof {
        lemma_popcount_bound(singles);
        lemma_popcount_bound(true_pairs_in_yellow);
    }
    if n_singles + n_pairs + has_phoenix != cnt || (true_pairs_in_yellow ^ singles).count_ones()
        != has_phoenix {
        return None;
    }
    // the span of the held ranks is 64 - leading zeros - trailing zeros
    let lz = singles.leading_zeros();
    let tz = singles.trailing_zeros();
    if 64 <= n_singles + lz + tz {
        Some(lowest_non_special_card)
    } else {
        None
    }
}

} // verus!
