use vstd::prelude::*;
use crate::bits::{popcount, lemma_popcount_and_le, lemma_popcount_bound};
use crate::countable_properties::CountableProperty;
use crate::tichu_hand::{Hand, in_deck, MASK_ACES, MASK_KINGS, DRAGON_BIT, PHOENIX_BIT, DOG_BIT, MAHJONG_BIT};

verus! {

/// A summary of a hand by its strongest cards: number of aces times 16, plus one bit each
/// for dragon (8), phoenix (4), dog (2) and mahjong (1).
#[derive(Clone, Copy, PartialEq, Eq, Structural, Debug)]
pub struct HandCategory(pub usize);

pub open spec fn flag(b: bool) -> nat {
    if b { 1 } else { 0 }
}

/// The category number of a hand.
pub open spec fn category_of(hand: u64) -> nat {
    popcount(hand & MASK_ACES) * 16 + flag(hand & DRAGON_BIT != 0) * 8 + flag(hand & PHOENIX_BIT != 0) * 4
        + flag(hand & DOG_BIT != 0) * 2 + flag(hand & MAHJONG_BIT != 0)
}

/// No hand has more than four aces.
pub proof fn lemma_aces_at_most_four(hand: u64)
    ensures
        popcount(hand & MASK_ACES) <= 4,
        category_of(hand) < 80,
{
    lemma_popcount_and_le(hand, MASK_ACES);
    lemma_popcount_aces();
}

/// The ace mask has four cards.
#[verifier::rlimit(60)]
proof fn lemma_popcount_aces()
    ensures
        popcount(MASK_ACES) == 4,
{
    reveal_with_fuel(popcount, 65);
}

impl HandCategory {
    pub fn categorize_hand(hand: &Hand) -> (r: HandCategory)
        ensures
            r.0 == category_of(*hand),
            r.0 < 80,
    {
        proof {
            lemma_aces_at_most_four(*hand);
        }
        let num_aces = (*hand & MASK_ACES).count_ones() as usize;
        let has_dragon = (*hand & DRAGON_BIT) != 0;
        let has_phoenix = (*hand & PHOENIX_BIT) != 0;
        let has_dog = (*hand & DOG_BIT) != 0;
        let has_mahjong = (*hand & MAHJONG_BIT) != 0;
        HandCategory::construct(num_aces, has_dragon, has_phoenix, has_dog, has_mahjong)
    }

    pub fn construct(num_aces: usize, has_dragon: bool, has_phoenix: bool, has_dog: bool, has_mahjong: bool) -> (r: HandCategory)
        requires
            num_aces <= 0x0FFF_FFFF,
        ensures
            r.0 == num_aces * 16 + flag(has_dragon) * 8 + flag(has_phoenix) * 4 + flag(has_dog) * 2 + flag(has_mahjong),
    {
        let d: usize = if has_dragon { 1 } else { 0 };
        let p: usize = if has_phoenix { 1 } else { 0 };
        let g: usize = if has_dog { 1 } else { 0 };
        let m: usize = if has_mahjong { 1 } else { 0 };
        HandCategory(num_aces * 16 + d * 8 + p * 4 + g * 2 + m)
    }

    pub fn num_aces(&self) -> (r: usize)
        ensures
            r == self.0 / 16,
    {
        self.0 / 16
    }

    pub fn has_dragon(&self) -> (r: bool)
        ensures
            r == ((self.0 / 8) % 2 == 1),
    {
        (self.0 / 8) % 2 == 1
    }

    pub fn has_phoenix(&self) -> (r: bool)
        ensures
            r == ((self.0 / 4) % 2 == 1),
    {
        (self.0 / 4) % 2 == 1
    }

    pub fn has_dog(&self) -> (r: bool)
        ensures
            r == ((self.0 / 2) % 2 == 1),
    {
        (self.0 / 2) % 2 == 1
    }

    pub fn has_mahjong(&self) -> (r: bool)
        ensures
            r == (self.0 % 2 == 1),
    {
        self.0 % 2 == 1
    }
}

/// A hand worth a grand call: aces count 1, kings 0.05, the dragon 2, the phoenix 1.9,
/// mahjong and dog 0.01 each, and the sum reaches 3.  Weighed here in hundredths.
#[derive(Debug, Clone, Copy)]
pub struct CountCustomGTStrategy;

/// The weight of a hand's high cards, in hundredths.
pub open spec fn gt_weight(hand: u64) -> nat {
    100 * popcount(hand & MASK_ACES) + 5 * popcount(hand & MASK_KINGS) + 200 * popcount(
        hand & DRAGON_BIT,
    ) + 190 * popcount(hand & PHOENIX_BIT) + popcount(hand & MAHJONG_BIT) + popcount(
        hand & DOG_BIT,
    )
}

impl CountableProperty for CountCustomGTStrategy {
    open spec fn bins(&self) -> nat {
        2
    }

    open spec fn bin_of(&self, hand: u64) -> nat {
        flag(gt_weight(hand) >= 300)
    }

    fn upper_bound(&self) -> (r: usize) {
        2
    }

    fn count(&self, hand: &Hand) -> (r: usize) {
        proof {
            lemma_popcount_bound(*hand & MASK_ACES);
            lemma_popcount_bound(*hand & MASK_KINGS);
            lemma_popcount_bound(*hand & DRAGON_BIT);
            lemma_popcount_bound(*hand & PHOENIX_BIT);
            lemma_popcount_bound(*hand & MAHJONG_BIT);
            lemma_popcount_bound(*hand & DOG_BIT);
        }
        let weight = 100 * (*hand & MASK_ACES).count_ones() + 5 * (*hand & MASK_KINGS).count_ones()
            + 200 * (*hand & DRAGON_BIT).count_ones() + 190 * (*hand & PHOENIX_BIT).count_ones()
            + (*hand & MAHJONG_BIT).count_ones() + (*hand & DOG_BIT).count_ones();
        if weight >= 300 {
            1
        } else {
            0
        }
    }
}

} // verus!
