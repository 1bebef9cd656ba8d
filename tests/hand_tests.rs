use tichu_rust::countable_properties::{CountAll, CountBombs0_1};
use tichu_rust::enumerate_hands::count_special_card_invariant_property;
use tichu_rust::pair_street_detection_trick::is_pair_street_fast;
use tichu_rust::street_detection_tricks::{is_street_fast, is_street_fast_in, is_street_slow, phoenix_used_as_street_extension, StreetTable};
use tichu_rust::tichu_hand::{
    classify, hand_from_cards, tichu_one_str_to_hand, Hand, HandType, TichuHand, ACE, BLUE, DOG, DRAGON,
    EIGHT, FIVE, FOUR, GREEN, JACK, KING, MAHJONG, MASK_RED, NINE, PHOENIX, QUEEN, RED, SEVEN,
    SIX, SPECIAL_CARD, TEN, THREE, TWO, YELLOW,
};

fn h(cards: &[u8]) -> Hand {
    hand_from_cards(cards)
}

#[test]
fn simple_hand_print() {
    let hand: Hand = h(&[ACE + RED, ACE + GREEN, ACE + BLUE, TEN + YELLOW, DRAGON, MAHJONG, PHOENIX]);
    println!("{}", hand.debug_print());
    println!("{}", hand.pretty_print());
}

#[test]
fn a_few_tichu_one_hands() {
    let hand: Hand = tichu_one_str_to_hand("gizHsF2t").unwrap();
    println!("gizHsF2t: {}", hand.pretty_print());
    let hand: Hand = tichu_one_str_to_hand("OS3PX6oU").unwrap();
    println!("OS3PX6oU: {}", hand.pretty_print());
    let hand: Hand = tichu_one_str_to_hand("4WIq5LRT").unwrap();
    println!("4WIq5LRT: {}", hand.pretty_print());
    let hand: Hand = tichu_one_str_to_hand("QGCEVfvr").unwrap();
    println!("QGCEVfvr: {}", hand.pretty_print());
    let hand: Hand = tichu_one_str_to_hand("gizHsF2tpAaDkK").unwrap();
    println!("gizHsF2tpAaDkK: {}", hand.pretty_print());
    let hand: Hand = tichu_one_str_to_hand("OS3PX6oUuynelN").unwrap();
    println!("OS3PX6oUuynelN: {}", hand.pretty_print());
    let hand: Hand = tichu_one_str_to_hand("4WIq5LRTBMxmcJ").unwrap();
    println!("4WIq5LRTBMxmcJ: {}", hand.pretty_print());
    let hand: Hand = tichu_one_str_to_hand("QGCEVfvrh1djbw").unwrap();
    println!("QGCEVfvrh1djbw: {}", hand.pretty_print());
}

#[test]
fn bomb_detection() {
    let hand: Hand = h(&[ACE + RED, ACE + GREEN, ACE + BLUE, TEN + YELLOW, DRAGON, MAHJONG, PHOENIX]);
    assert!(!hand.contains_four_of_kind_bomb());
    assert!(!hand.contains_straight_bomb());
    let hand: Hand = h(&[ACE + RED, ACE + GREEN, ACE + BLUE, ACE + YELLOW, DRAGON, MAHJONG, PHOENIX]);
    assert!(hand.contains_four_of_kind_bomb());
    assert!(!hand.contains_straight_bomb());
    let hand: Hand = h(&[TWO + RED, THREE + RED, FOUR + RED, FIVE + RED, MAHJONG]);
    assert!(!hand.contains_four_of_kind_bomb());
    assert!(!hand.contains_straight_bomb());
    let hand: Hand = h(&[TWO + RED, THREE + RED, FOUR + RED, FIVE + RED, SIX + RED, MAHJONG]);
    assert!(!hand.contains_four_of_kind_bomb());
    assert!(hand.contains_straight_bomb());
}

#[test]
fn gt_card_counts() {
    assert_eq!(count_special_card_invariant_property::<CountAll, 8>(CountAll).property_counted[0], 1420494075);
    assert_eq!(count_special_card_invariant_property::<CountBombs0_1, 8>(CountBombs0_1).property_counted[1], 4229667);
}

#[test]
fn hand_type_pairs() {
    assert!(matches!(h(&[TWO + RED, TWO + BLUE]).hand_type(), Some(HandType::Pairs(card)) if card == TWO));
    assert!(matches!(h(&[TWO + RED, TWO + GREEN]).hand_type(), Some(HandType::Pairs(card)) if card == TWO));
    assert!(matches!(h(&[TWO + RED, TWO + YELLOW]).hand_type(), Some(HandType::Pairs(card)) if card == TWO));
    assert!(matches!(h(&[TWO + YELLOW, TWO + BLUE]).hand_type(), Some(HandType::Pairs(card)) if card == TWO));
    assert!(matches!(h(&[TWO + RED, PHOENIX]).hand_type(), Some(HandType::Pairs(card)) if card == TWO));
    assert!(h(&[TWO + RED, THREE + BLUE]).hand_type() == None);
    assert!(h(&[PHOENIX, MAHJONG]).hand_type() == None);
}

#[test]
fn hand_type_triplets() {
    assert!(matches!(h(&[TWO + RED, TWO + BLUE, TWO + YELLOW]).hand_type(), Some(HandType::Triplets(card)) if card == TWO));
    assert!(matches!(h(&[TWO + RED, TWO + GREEN, TWO + YELLOW]).hand_type(), Some(HandType::Triplets(card)) if card == TWO));
    assert!(matches!(h(&[TWO + GREEN, TWO + BLUE, TWO + YELLOW]).hand_type(), Some(HandType::Triplets(card)) if card == TWO));
    assert!(matches!(h(&[TWO + RED, TWO + BLUE, TWO + GREEN]).hand_type(), Some(HandType::Triplets(card)) if card == TWO));
    assert!(matches!(h(&[TWO + RED, PHOENIX, TWO + YELLOW]).hand_type(), Some(HandType::Triplets(card)) if card == TWO));
    assert!(matches!(h(&[DOG, PHOENIX, TWO + YELLOW]).hand_type(), None));
    assert!(matches!(h(&[DRAGON, PHOENIX, TWO + YELLOW]).hand_type(), None));
    assert!(matches!(h(&[MAHJONG, PHOENIX, TWO + YELLOW]).hand_type(), None));
    assert!(matches!(h(&[THREE + YELLOW, PHOENIX, TWO + YELLOW]).hand_type(), None));
}

#[test]
fn hand_type_bomb4() {
    assert!(matches!(h(&[ACE + RED, ACE + GREEN, ACE + BLUE, PHOENIX]).hand_type(), None));
    assert!(matches!(h(&[ACE + RED, ACE + GREEN, ACE + BLUE, MAHJONG]).hand_type(), None));
    assert!(matches!(h(&[ACE + RED, ACE + GREEN, ACE + BLUE, DRAGON]).hand_type(), None));
    assert!(matches!(h(&[ACE + RED, ACE + GREEN, ACE + BLUE, DOG]).hand_type(), None));
    assert!(matches!(h(&[ACE + RED, ACE + GREEN, ACE + BLUE, TWO + YELLOW]).hand_type(), None));
    assert!(matches!(h(&[ACE + RED, ACE + GREEN, ACE + BLUE, ACE + YELLOW]).hand_type(), Some(HandType::Bomb4(card)) if card == ACE));
}

#[test]
fn hand_type_pairstreet4() {
    assert!(matches!(h(&[ACE + RED, ACE + GREEN, DOG, PHOENIX]).hand_type(), None));
    assert!(matches!(h(&[ACE + RED, ACE + GREEN, KING + BLUE, PHOENIX]).hand_type(), Some(HandType::PairStreet(card, length)) if card == KING && length == 4));
    assert!(matches!(h(&[ACE + RED, ACE + GREEN, MAHJONG, PHOENIX]).hand_type(), None));
}

#[test]
fn hand_type_fullhouse() {
    assert!(matches!(h(&[ACE + RED, ACE + GREEN, ACE + BLUE, ACE + YELLOW, PHOENIX]).hand_type(), None));
    assert!(matches!(h(&[ACE + RED, ACE + GREEN, ACE + BLUE, KING + YELLOW, PHOENIX]).hand_type(), Some(HandType::FullHouse(card, card2)) if card == KING && card2 == ACE));
    assert!(matches!(h(&[ACE + RED, ACE + GREEN, KING + BLUE, KING + YELLOW, PHOENIX]).hand_type(), Some(HandType::FullHouse(card, card2)) if card == KING && card2 == ACE));
    assert!(matches!(h(&[TWO + RED, KING + GREEN, KING + BLUE, KING + YELLOW, PHOENIX]).hand_type(), Some(HandType::FullHouse(card, card2)) if card == TWO && card2 == KING));
    assert!(matches!(h(&[DOG, KING + GREEN, KING + BLUE, KING + YELLOW, PHOENIX]).hand_type(), None));
    assert!(matches!(h(&[MAHJONG, KING + GREEN, KING + BLUE, KING + YELLOW, PHOENIX]).hand_type(), None));
    assert!(matches!(h(&[TWO + RED, TWO + GREEN, KING + GREEN, KING + BLUE, PHOENIX]).hand_type(), Some(HandType::FullHouse(card, card2)) if card == TWO && card2 == KING));
    assert!(matches!(h(&[SIX + RED, SIX + BLUE, EIGHT + GREEN, EIGHT + BLUE, EIGHT + YELLOW]).hand_type(), Some(HandType::FullHouse(card, card2)) if card == SIX && card2 == EIGHT));
}

#[test]
fn is_street_test() {
    assert_eq!(is_street_fast(h(&[DOG])), None);
    assert_eq!(is_street_fast(h(&[DOG, MAHJONG, PHOENIX, DRAGON, KING + YELLOW])), None);
    assert_eq!(is_street_fast(h(&[TWO + BLUE, MAHJONG, PHOENIX, THREE + RED, FOUR + YELLOW])), Some(SPECIAL_CARD));
    assert_eq!(is_street_fast(h(&[TWO + BLUE, MAHJONG, PHOENIX, THREE + RED, FOUR + YELLOW, FIVE + BLUE])), Some(SPECIAL_CARD));
    assert_eq!(is_street_fast(h(&[TWO + BLUE, MAHJONG, PHOENIX, THREE + RED, FIVE + BLUE])), Some(SPECIAL_CARD));
    assert_eq!(is_street_fast(h(&[TWO + BLUE, MAHJONG, PHOENIX, THREE + RED, FIVE + BLUE, SIX + RED])), Some(SPECIAL_CARD));
    assert_eq!(is_street_fast(h(&[TWO + BLUE, FOUR + RED, THREE + RED, FIVE + BLUE, SIX + RED])), Some(TWO));
    assert_eq!(is_street_fast(h(&[TWO + BLUE, FOUR + RED, THREE + RED, FIVE + RED])), None);
    assert_eq!(is_street_fast(h(&[TWO + BLUE, FOUR + RED, THREE + RED, FIVE + RED, SEVEN + RED])), None);
    assert_eq!(is_street_fast(h(&[TWO + BLUE, FOUR + RED, THREE + RED, SIX + RED])), None);
    assert_eq!(is_street_fast(h(&[MAHJONG, PHOENIX, THREE + RED, FIVE + BLUE, SIX + RED])), None);
    assert_eq!(is_street_fast(h(&[MAHJONG, PHOENIX, THREE + RED, FIVE + BLUE, FIVE + RED])), None);
    assert_eq!(is_street_fast(h(&[MAHJONG, PHOENIX, FOUR + RED, FIVE + BLUE, SIX + RED])), None);
}

#[test]
fn is_street_extension_phoenix() {
    assert_eq!(phoenix_used_as_street_extension(h(&[PHOENIX])), false);
    assert_eq!(phoenix_used_as_street_extension(h(&[TWO + BLUE, MAHJONG, PHOENIX, THREE + RED, FOUR + YELLOW])), true);
    assert_eq!(phoenix_used_as_street_extension(h(&[TWO + BLUE, MAHJONG, PHOENIX, THREE + RED, FOUR + YELLOW, FIVE + BLUE])), true);
    assert_eq!(phoenix_used_as_street_extension(h(&[TWO + BLUE, MAHJONG, PHOENIX, THREE + RED, FIVE + BLUE])), false);
    assert_eq!(phoenix_used_as_street_extension(h(&[TWO + BLUE, MAHJONG, PHOENIX, THREE + RED, FIVE + BLUE, SIX + RED])), false);
    assert_eq!(phoenix_used_as_street_extension(h(&[TWO + BLUE, MAHJONG, PHOENIX, THREE + RED, FIVE + BLUE])), false);
}

#[test]
fn hand_type_street() {
    assert!(matches!(h(&[DOG, MAHJONG, PHOENIX, DRAGON, KING + YELLOW]).hand_type(), None));
    assert!(matches!(h(&[TWO + BLUE, MAHJONG, PHOENIX, THREE + RED, FOUR + YELLOW]).hand_type(), Some(HandType::Street(card, length)) if card == SPECIAL_CARD && length == 5));
    assert!(matches!(h(&[TWO + BLUE, MAHJONG, PHOENIX, THREE + RED, FOUR + YELLOW, FIVE + BLUE]).hand_type(), Some(HandType::Street(card, length)) if card == SPECIAL_CARD && length == 6));
    assert!(matches!(h(&[TWO + BLUE, MAHJONG, PHOENIX, THREE + RED, FIVE + BLUE, SIX + RED]).hand_type(), Some(HandType::Street(card, length)) if card == SPECIAL_CARD && length == 6));
    assert!(matches!(h(&[TWO + BLUE, FOUR + RED, THREE + RED, FIVE + BLUE, SIX + RED]).hand_type(), Some(HandType::Street(card, length)) if card == TWO && length == 5));
    assert!(matches!(h(&[TWO + RED, FOUR + RED, THREE + RED, FIVE + RED, SIX + RED, SEVEN + RED]).hand_type(), Some(HandType::BombStreet(card, length)) if card == TWO && length == 6));
    assert!(matches!(h(&[TWO + RED, FOUR + RED, THREE + RED, FIVE + RED, SIX + RED, SEVEN + RED, PHOENIX]).hand_type(), Some(HandType::Street(card, length)) if card == TWO && length == 7));
    assert!(matches!(h(&[TWO + BLUE, FOUR + RED, THREE + RED, SIX + RED]).hand_type(), None));
    assert!(matches!(h(&[MAHJONG, PHOENIX, THREE + RED, FIVE + BLUE, SIX + RED]).hand_type(), None));
    assert!(matches!(h(&[MAHJONG, PHOENIX, THREE + RED, FIVE + BLUE, FIVE + RED]).hand_type(), None));
    assert!(matches!(h(&[MAHJONG, PHOENIX, FOUR + RED, FIVE + BLUE, SIX + RED]).hand_type(), None));
    assert!(matches!(h(&[ACE + RED, KING + RED, QUEEN + RED, JACK + RED, TEN + RED, NINE + RED, PHOENIX]).hand_type(), Some(HandType::Street(card, length)) if card == EIGHT && length == 7));
    assert!(matches!(MASK_RED.hand_type(), Some(HandType::BombStreet(card, length)) if card == TWO && length == 13));
    assert!(matches!((h(&[MAHJONG]) | MASK_RED).hand_type(), Some(HandType::Street(card, length)) if card == SPECIAL_CARD && length == 14));
    assert!(matches!((h(&[PHOENIX]) | MASK_RED).hand_type(), None));
}

#[test]
fn is_pair_street_fast_test() {
    assert_eq!(is_pair_street_fast(h(&[PHOENIX, ACE + YELLOW, ACE + BLUE, KING + YELLOW])), Some(KING));
    assert_eq!(is_pair_street_fast(h(&[PHOENIX, ACE + YELLOW, ACE + BLUE, KING + YELLOW, KING + RED])), None);
    assert_eq!(is_pair_street_fast(h(&[PHOENIX, ACE + YELLOW, ACE + BLUE, KING + YELLOW, MAHJONG])), None);
    assert_eq!(is_pair_street_fast(h(&[PHOENIX, ACE + YELLOW, DOG, KING + YELLOW])), None);
    assert_eq!(is_pair_street_fast(h(&[PHOENIX, ACE + YELLOW, KING + RED, KING + YELLOW])), Some(KING));
    assert_eq!(is_pair_street_fast(h(&[PHOENIX, ACE + YELLOW, ACE + BLUE, QUEEN + YELLOW])), None);
    assert_eq!(is_pair_street_fast(h(&[PHOENIX, ACE + YELLOW, KING + BLUE, QUEEN + YELLOW])), None);
    assert_eq!(is_pair_street_fast(h(&[PHOENIX, ACE + YELLOW, KING + BLUE, QUEEN + YELLOW, JACK + RED, JACK + BLUE])), None);
    assert_eq!(is_pair_street_fast(h(&[PHOENIX, ACE + YELLOW, ACE + BLUE, KING + YELLOW, QUEEN + BLUE, QUEEN + RED])), Some(QUEEN));
    assert_eq!(is_pair_street_fast(h(&[PHOENIX, ACE + YELLOW, ACE + BLUE, KING + YELLOW, QUEEN + RED])), None);
    assert_eq!(is_pair_street_fast(h(&[ACE + RED, ACE + YELLOW, ACE + BLUE, KING + YELLOW, KING + RED, KING + BLUE])), None);
    assert_eq!(is_pair_street_fast(h(&[TWO + RED, TWO + YELLOW, FOUR + BLUE, FOUR + YELLOW])), None);
    assert_eq!(is_pair_street_fast(h(&[TWO + RED, TWO + YELLOW, FOUR + BLUE, FOUR + YELLOW, KING + RED, KING + BLUE])), None);
    assert_eq!(is_pair_street_fast(h(&[TWO + RED, TWO + YELLOW, THREE + RED, THREE + YELLOW, FOUR + BLUE, FOUR + GREEN, FIVE + YELLOW, PHOENIX, SIX + BLUE, SIX + YELLOW])), Some(TWO));
}

#[test]
fn pair_street_hand_type() {
    assert!(matches!(h(&[PHOENIX, ACE + YELLOW, ACE + BLUE, KING + YELLOW]).hand_type(), Some(HandType::PairStreet(card, length)) if card == KING && length == 4));
    assert!(matches!(h(&[PHOENIX, ACE + YELLOW, ACE + BLUE, KING + YELLOW, MAHJONG]).hand_type(), None));
    assert!(matches!(h(&[PHOENIX, ACE + YELLOW, DOG, KING + YELLOW]).hand_type(), None));
    assert!(matches!(h(&[PHOENIX, ACE + YELLOW, KING + RED, KING + YELLOW]).hand_type(), Some(HandType::PairStreet(card, length)) if card == KING && length == 4));
    assert!(matches!(h(&[PHOENIX, ACE + YELLOW, ACE + BLUE, QUEEN + YELLOW]).hand_type(), None));
    assert!(matches!(h(&[PHOENIX, ACE + YELLOW, ACE + BLUE, KING + YELLOW, QUEEN + BLUE, QUEEN + RED]).hand_type(), Some(HandType::PairStreet(card, length)) if card == QUEEN && length == 6));
    assert!(matches!(h(&[PHOENIX, ACE + YELLOW, ACE + BLUE, KING + YELLOW, QUEEN + RED]).hand_type(), None));
    assert!(matches!(h(&[ACE + RED, ACE + YELLOW, ACE + BLUE, KING + YELLOW, KING + RED, KING + BLUE]).hand_type(), None));
    assert!(matches!(h(&[TWO + RED, TWO + YELLOW, FOUR + BLUE, FOUR + YELLOW, KING + RED, KING + BLUE]).hand_type(), None));
    assert!(matches!(h(&[TWO + RED, TWO + YELLOW, THREE + RED, THREE + YELLOW, FOUR + BLUE, FOUR + GREEN, FIVE + YELLOW, PHOENIX, SIX + BLUE, SIX + YELLOW]).hand_type(), Some(HandType::PairStreet(card, length)) if card == TWO && length == 10));
}

#[test]
fn street_table_agrees_with_direct_decision() {
    use_table();
}

fn use_table() {
    let table = StreetTable::new();
    let again = StreetTable::new();
    assert_eq!(table.entries, again.entries);
    assert_eq!(table.entries.len(), 512);
    for p in 0u64..0x8000 {
        assert_eq!(table.contains(p), is_street_slow(p), "profile {:x}", p);
    }
    let hands = [
        h(&[TWO + BLUE, MAHJONG, PHOENIX, THREE + RED, FOUR + YELLOW]),
        h(&[ACE + RED, KING + RED, QUEEN + RED, JACK + RED, TEN + RED, NINE + RED, PHOENIX]),
        h(&[PHOENIX]) | MASK_RED,
        h(&[MAHJONG]) | MASK_RED,
        h(&[TWO + RED, TWO + YELLOW, THREE + RED, THREE + YELLOW]),
        h(&[DOG]),
    ];
    for hand in hands.iter() {
        assert_eq!(classify(&table, *hand), hand.hand_type());
        assert_eq!(is_street_fast_in(&table, *hand), is_street_fast(*hand));
    }
}
