use vstd::prelude::*;
use crate::countable_properties::{Counter, CountAll, CountBombs0_1, CountBombsFourOfKind0_1, CountBombsStraights0_1, CountHandCategory, CountHasFourAces0_1, CountLongestStraight, CountLongestStraightFlush};
use crate::enumerate_hands::{count_special_card_invariant_property, count_special_card_sensitive_property, enumerate_spec, tally_of, SpecialCardStrategy};

verus! {

/// All hands of fourteen cards.
pub fn count_tichu_hands() -> (r: Counter<CountAll>)
    ensures
        r.wf(),
        tally_of(r) == enumerate_spec(CountAll, 14, SpecialCardStrategy::GroupedByCount),
{
    count_special_card_invariant_property::<CountAll, 14>(CountAll)
}

/// Hands of fourteen cards with and without a bomb.
pub fn count_bombs_0_1() -> (r: Counter<CountBombs0_1>)
    ensures
        r.wf(),
        tally_of(r) == enumerate_spec(CountBombs0_1, 14, SpecialCardStrategy::GroupedByCount),
{
    count_special_card_invariant_property::<CountBombs0_1, 14>(CountBombs0_1)
}

/// Hands of fourteen cards with and without four of a kind.
pub fn count_four_of_kind_bombs_0_1() -> (r: Counter<CountBombsFourOfKind0_1>)
    ensures
        r.wf(),
        tally_of(r) == enumerate_spec(CountBombsFourOfKind0_1, 14, SpecialCardStrategy::GroupedByCount),
{
    count_special_card_invariant_property::<CountBombsFourOfKind0_1, 14>(CountBombsFourOfKind0_1)
}

/// Hands of fourteen cards with and without a straight bomb.
pub fn count_straight_bombs_0_1() -> (r: Counter<CountBombsStraights0_1>)
    ensures
        r.wf(),
        tally_of(r) == enumerate_spec(CountBombsStraights0_1, 14, SpecialCardStrategy::GroupedByCount),
{
    count_special_card_invariant_property::<CountBombsStraights0_1, 14>(CountBombsStraights0_1)
}

/// All hands of the first eight cards.
pub fn count_gt_hands() -> (r: Counter<CountAll>)
    ensures
        r.wf(),
        tally_of(r) == enumerate_spec(CountAll, 8, SpecialCardStrategy::GroupedByCount),
{
    count_special_card_invariant_property::<CountAll, 8>(CountAll)
}

/// Hands of eight cards with and without a bomb.
pub fn count_gt_bombs_0_1() -> (r: Counter<CountBombs0_1>)
    ensures
        r.wf(),
        tally_of(r) == enumerate_spec(CountBombs0_1, 8, SpecialCardStrategy::GroupedByCount),
{
    count_special_card_invariant_property::<CountBombs0_1, 8>(CountBombs0_1)
}

/// Hands of eight cards by `HandCategory`.
pub fn count_gt_hand_category() -> (r: Vec<u128>)
    ensures
        r@.len() == 80,
        r@ == enumerate_spec(CountHandCategory, 8, SpecialCardStrategy::AllSubsets).2,
{
    count_special_card_sensitive_property::<CountHandCategory, 8>(CountHandCategory).property_counted
}

/// Hands of fourteen cards by `HandCategory`.
pub fn count_first14_hand_category() -> (r: Vec<u128>)
    ensures
        r@.len() == 80,
        r@ == enumerate_spec(CountHandCategory, 14, SpecialCardStrategy::AllSubsets).2,
{
    count_special_card_sensitive_property::<CountHandCategory, 14>(CountHandCategory).property_counted
}

/// Hands of eight cards with and without all four aces.
pub fn count_gt_hand_has_four_aces() -> (r: Counter<CountHasFourAces0_1>)
    ensures
        r.wf(),
        tally_of(r) == enumerate_spec(CountHasFourAces0_1, 8, SpecialCardStrategy::GroupedByCount),
{
    count_special_card_invariant_property::<CountHasFourAces0_1, 8>(CountHasFourAces0_1)
}

/// Hands of fourteen cards by their longest run of ranks.
pub fn count_longest_straight_distribution() -> (r: Counter<CountLongestStraight>)
    ensures
        r.wf(),
        tally_of(r) == enumerate_spec(CountLongestStraight, 14, SpecialCardStrategy::GroupedByCount),
{
    count_special_card_invariant_property::<CountLongestStraight, 14>(CountLongestStraight)
}

/// Hands of fourteen cards by their longest run of ranks within one column.
pub fn count_longest_straight_flush_distribution() -> (r: Counter<CountLongestStraightFlush>)
    ensures
        r.wf(),
        tally_of(r) == enumerate_spec(CountLongestStraightFlush, 14, SpecialCardStrategy::GroupedByCount),
{
    count_special_card_invariant_property::<CountLongestStraightFlush, 14>(CountLongestStraightFlush)
}

} // verus!
