use tichu_rust::analysis::exchange_stats::get_exchange_card_type;
use tichu_rust::analysis::gt_stats::{CountCustomGTStrategy, HandCategory};
use tichu_rust::bsw_database::{card_wish_to_cardtype, trick_type_str_to_trick_type};
use tichu_rust::countable_properties::{
    CountAll, CountBombs0_1, CountBombsFourOfKind0_1, CountBombsStraights0_1, CountHandCategory,
    CountHasFourAces0_1, CountLongestStraight, CountLongestStraightFlush, CountableProperty, Counter,
};
use tichu_rust::enumerate_hands::{enumerate, symmetry_class_size, SpecialCardStrategy};
use tichu_rust::tichu_hand::{
    get_card_type, get_color, hand_from_cards, Hand, HandType, TichuHand, ACE, BLUE, DOG, DRAGON,
    FIVE, FOUR, GREEN, KING, MAHJONG, MASK_ALL, MASK_BLUE, PHOENIX, RED, SIX, TEN, THREE, TWO,
    YELLOW, TRICK_BOMB4, TRICK_BOMB5, TRICK_PAIRSTREET4, TRICK_STREET5,
};

fn h(cards: &[u8]) -> Hand {
    hand_from_cards(cards)
}

/// A fixed sequence of pseudo-random hands of 1 to 14 cards of the deck.
fn sample_hands() -> Vec<Hand> {
    let mut state: u64 = 0x9E37_79B9_7F4A_7C15;
    let mut hands = Vec::new();
    for n in 0..3000u64 {
        let size = 1 + (n % 14) as u32;
        let mut hand: Hand = 0;
        while hand.count_ones() < size {
            state = state.wrapping_mul(6364136223846793005).wrapping_add(1442695040888963407);
            let pos = (state >> 58) as u32;
            if (MASK_ALL >> pos) & 1 == 1 {
                hand |= 1u64 << pos;
            }
        }
        hands.push(hand);
    }
    hands
}

fn shape_len(t: &HandType) -> u32 {
    match t {
        HandType::Dog | HandType::Singleton(_, _) => 1,
        HandType::Pairs(_) => 2,
        HandType::Triplets(_) => 3,
        HandType::PairStreet(_, l) | HandType::Street(_, l) | HandType::BombStreet(_, l) => *l as u32,
        HandType::FullHouse(_, _) => 5,
        HandType::Bomb4(_) => 4,
    }
}

/// Moves the cards of column `from[i]` to column `i`.
fn permute_columns(hand: Hand, from: [u32; 4]) -> Hand {
    let mut res = 0u64;
    for (to, src) in from.iter().enumerate() {
        let column = (hand >> (16 * src)) & 0x3FFE;
        res |= column << (16 * to as u32);
    }
    res | (hand & 0x0001_0001_0001_0001)
}

#[test]
fn classify_length_matches_card_count() {
    for hand in sample_hands() {
        if let Some(t) = hand.hand_type() {
            assert_eq!(shape_len(&t), hand.count_ones(), "hand {:x}", hand);
        }
    }
    let street = h(&[TWO + RED, THREE + BLUE, FOUR + RED, FIVE + GREEN, SIX + YELLOW, PHOENIX]);
    assert!(matches!(street.hand_type(), Some(HandType::Street(_, 6))));
}

#[test]
fn classify_scenarios() {
    assert_eq!(h(&[SIX + YELLOW, SIX + BLUE, SIX + GREEN, SIX + RED]).hand_type(), Some(HandType::Bomb4(SIX)));
    assert_eq!(
        h(&[THREE + GREEN, FOUR + GREEN, FIVE + GREEN, SIX + GREEN, SIX + GREEN + 1]).hand_type(),
        Some(HandType::BombStreet(THREE, 5))
    );
    assert_eq!(
        h(&[PHOENIX, TWO + RED, THREE + BLUE, FOUR + GREEN, FIVE + YELLOW]).hand_type(),
        Some(HandType::Street(TWO, 5))
    );
    assert_eq!(
        h(&[MAHJONG, PHOENIX, THREE + BLUE, FOUR + GREEN, FIVE + YELLOW]).hand_type(),
        Some(HandType::Street(SPECIAL_CARD_RANK, 5))
    );
    assert_eq!((h(&[PHOENIX]) | tichu_rust::tichu_hand::MASK_YELLOW).hand_type(), None);
    assert_eq!(h(&[DOG]).hand_type(), Some(HandType::Dog));
    assert_eq!(h(&[DRAGON]).hand_type(), Some(HandType::Singleton(0, DRAGON)));
    assert_eq!(h(&[KING + BLUE]).hand_type(), Some(HandType::Singleton(KING, KING + BLUE)));
}

const SPECIAL_CARD_RANK: u8 = 0;

#[test]
fn full_house_triplet_found_in_every_position() {
    // the three same-rank relations come out in the orders a a b, a b b and a b a
    assert_eq!(h(&[TWO + YELLOW, TWO + BLUE, TWO + GREEN, FIVE + BLUE, FIVE + GREEN]).hand_type(), Some(HandType::FullHouse(FIVE, TWO)));
    assert_eq!(h(&[TWO + YELLOW, TWO + BLUE, FIVE + YELLOW, FIVE + BLUE, FIVE + RED]).hand_type(), Some(HandType::FullHouse(TWO, FIVE)));
    assert_eq!(h(&[TWO + YELLOW, TWO + GREEN, TWO + RED, FIVE + BLUE, FIVE + GREEN]).hand_type(), Some(HandType::FullHouse(FIVE, TWO)));
    assert_eq!(h(&[FIVE + YELLOW, FIVE + BLUE, TWO + BLUE, TWO + GREEN, TWO + RED]).hand_type(), Some(HandType::FullHouse(FIVE, TWO)));
}

#[test]
fn classify_twice_gives_same_result() {
    for hand in sample_hands() {
        assert_eq!(hand.hand_type(), hand.hand_type());
    }
}

#[test]
fn classify_invariant_under_column_permutation() {
    let perms: [[u32; 4]; 4] = [[1, 0, 2, 3], [3, 2, 1, 0], [2, 3, 0, 1], [1, 2, 3, 0]];
    for hand in sample_hands() {
        if hand & !0x0001_0001_0001_0001 == 0 {
            continue;
        }
        let t = hand.hand_type();
        for p in perms.iter() {
            let q = permute_columns(hand, *p);
            assert_eq!(q.count_ones(), hand.count_ones());
            let u = q.hand_type();
            assert_eq!(t.is_some(), u.is_some(), "hand {:x}", hand);
            if let (Some(a), Some(b)) = (t, u) {
                assert_eq!(std::mem::discriminant(&a), std::mem::discriminant(&b));
                assert_eq!(shape_len(&a), shape_len(&b));
            }
        }
    }
}

fn binomial(n: u128, k: u128) -> u128 {
    let mut r = 1u128;
    for i in 0..k {
        r = r * (n - i) / (i + 1);
    }
    r
}

#[test]
fn enumeration_counts_every_hand_once() {
    assert_eq!(enumerate::<CountAll, 1>(CountAll, SpecialCardStrategy::GroupedByCount).hands_counted, 56);
    assert_eq!(enumerate::<CountAll, 2>(CountAll, SpecialCardStrategy::GroupedByCount).hands_counted, binomial(56, 2));
    assert_eq!(enumerate::<CountAll, 3>(CountAll, SpecialCardStrategy::AllSubsets).hands_counted, binomial(56, 3));
    assert_eq!(enumerate::<CountAll, 4>(CountAll, SpecialCardStrategy::GroupedByCount).property_counted[0], binomial(56, 4));
    assert_eq!(enumerate::<CountAll, 5>(CountAll, SpecialCardStrategy::AllSubsets).property_counted[0], binomial(56, 5));
    assert_eq!(enumerate::<CountAll, 0>(CountAll, SpecialCardStrategy::AllSubsets).hands_counted, 1);
}

#[test]
fn enumeration_bins_add_up() {
    let c = enumerate::<CountBombs0_1, 5>(CountBombs0_1, SpecialCardStrategy::GroupedByCount);
    assert_eq!(c.property_counted[0] + c.property_counted[1], binomial(56, 5));
    // four of a kind plus one of the other 52 cards, and the 4 * 9 straight bombs
    let four = enumerate::<CountBombsFourOfKind0_1, 5>(CountBombsFourOfKind0_1, SpecialCardStrategy::AllSubsets);
    assert_eq!(four.property_counted[1], 13 * 52);
    let straight = enumerate::<CountBombsStraights0_1, 5>(CountBombsStraights0_1, SpecialCardStrategy::GroupedByCount);
    assert_eq!(straight.property_counted[1], 36);
    assert_eq!(c.property_counted[1], 13 * 52 + 36);
    let aces = enumerate::<CountHasFourAces0_1, 4>(CountHasFourAces0_1, SpecialCardStrategy::GroupedByCount);
    assert_eq!(aces.property_counted[1], 1);
}

#[test]
fn enumeration_is_repeatable() {
    let a = enumerate::<CountHandCategory, 4>(CountHandCategory, SpecialCardStrategy::AllSubsets);
    let b = enumerate::<CountHandCategory, 4>(CountHandCategory, SpecialCardStrategy::AllSubsets);
    assert_eq!(a.property_counted, b.property_counted);
    assert_eq!(a.hands_counted, b.hands_counted);
    assert_eq!(a.hands_evaluated, b.hands_evaluated);
    let s: u128 = a.property_counted.iter().sum();
    assert_eq!(s, binomial(56, 4));
}

#[test]
fn counter_merge_and_scale() {
    let mut a = Counter::new(CountBombs0_1);
    let mut b = Counter::new(CountBombs0_1);
    let bomb = h(&[TWO + YELLOW, TWO + BLUE, TWO + GREEN, TWO + RED]);
    a.count_hand(&bomb, 3);
    b.count_hand(&h(&[DOG]), 2);
    b.count_hand(&bomb, 1);
    let c = a.merge(b);
    assert_eq!(c.property_counted, vec![2, 4]);
    assert_eq!(c.hands_evaluated, 3);
    assert_eq!(c.hands_counted, 6);
    let d = c.scale(5);
    assert_eq!(d.property_counted, vec![10, 20]);
    assert_eq!(d.hands_counted, 30);
    assert_eq!(d.hands_evaluated, 3);
}

#[test]
fn longest_runs() {
    let run = h(&[TWO + RED, THREE + BLUE, FOUR + RED, FIVE + GREEN, KING + RED]);
    assert_eq!(CountLongestStraight.count(&run), 3);
    assert_eq!(CountLongestStraightFlush.count(&run), 0);
    assert_eq!(CountLongestStraightFlush.count(&tichu_rust::tichu_hand::MASK_RED), 12);
    assert_eq!(CountLongestStraight.count(&h(&[DOG])), 0);
    assert_eq!(CountLongestStraight.upper_bound(), 13);
}

#[test]
fn hand_category_fields() {
    let c = HandCategory::categorize_hand(&h(&[ACE + RED, ACE + BLUE, DRAGON, MAHJONG, TEN + RED]));
    assert_eq!(c.0, 2 * 16 + 8 + 1);
    assert_eq!(c.num_aces(), 2);
    assert!(c.has_dragon());
    assert!(!c.has_phoenix());
    assert!(!c.has_dog());
    assert!(c.has_mahjong());
    assert_eq!(HandCategory::construct(4, true, true, true, true).0, 79);
    assert_eq!(CountHandCategory.count(&h(&[PHOENIX, DOG])), 6);
}

#[test]
fn symmetry_class_sizes() {
    let sizes: Vec<u128> = (0u8..8).map(symmetry_class_size).collect();
    assert_eq!(sizes, vec![24, 12, 12, 4, 12, 6, 4, 1]);
}

#[test]
fn card_basics() {
    assert_eq!(get_card_type(ACE + RED), ACE);
    assert_eq!(get_card_type(DRAGON), 0);
    assert_eq!(get_color(KING + GREEN), GREEN);
    assert_eq!(get_color(TWO + BLUE), BLUE);
    let mut hand = h(&[FIVE + RED, TWO + BLUE]);
    assert_eq!(hand.get_lsb_card(), TWO + BLUE);
    assert_eq!(hand.pop_some_card(), TWO + BLUE);
    assert_eq!(hand, h(&[FIVE + RED]));
    assert_eq!(h(&[FIVE + RED, TEN + BLUE, KING + YELLOW, DRAGON, PHOENIX]).get_card_points(), 25);
    assert_eq!(h(&[KING + YELLOW, ACE + RED, PHOENIX, DOG]).get_high_card_amt(), 3);
    assert_eq!(h(&[KING + YELLOW, KING + RED, KING + BLUE, KING + GREEN]).count_triplets(), 2);
    assert_eq!(h(&[KING + YELLOW, KING + RED, KING + BLUE]).count_triplets(), 1);
    assert_eq!(MASK_BLUE & MASK_ALL, MASK_BLUE);
}

#[test]
fn hand_type_ordering() {
    assert!(HandType::Pairs(5).is_bigger_than_same_handtype(&HandType::Pairs(3)));
    assert!(!HandType::Pairs(3).is_bigger_than_same_handtype(&HandType::Pairs(3)));
    assert!(HandType::Singleton(0, PHOENIX).is_bigger_than_same_handtype(&HandType::Singleton(ACE, ACE)));
    assert!(HandType::Singleton(0, DRAGON).is_bigger_than_same_handtype(&HandType::Singleton(0, PHOENIX)));
    assert!(HandType::Singleton(0, DRAGON).is_bigger_than_same_handtype(&HandType::Singleton(0, MAHJONG)));
    assert!(!HandType::Singleton(ACE, ACE).is_bigger_than_same_handtype(&HandType::Singleton(0, DRAGON)));
    assert!(!HandType::Singleton(FIVE, FIVE).is_bigger_than_same_handtype(&HandType::Singleton(0, PHOENIX)));
    assert!(HandType::Singleton(0, DRAGON).is_bigger_than_same_handtype(&HandType::Singleton(ACE, ACE)));
    assert!(HandType::Singleton(TWO, TWO + RED).is_bigger_than_same_handtype(&HandType::Singleton(0, MAHJONG)));
    assert!(!HandType::Singleton(0, MAHJONG).is_bigger_than_same_handtype(&HandType::Singleton(0, PHOENIX)));
    assert!(HandType::FullHouse(2, 9).is_bigger_than_same_handtype(&HandType::FullHouse(12, 8)));
    assert_eq!(HandType::PairStreet(3, 8).get_trick_type(), TRICK_PAIRSTREET4 + 2);
    assert_eq!(HandType::Street(3, 5).get_trick_type(), TRICK_STREET5);
    assert_eq!(HandType::BombStreet(3, 6).get_trick_type(), TRICK_BOMB5 + 1);
    assert!(HandType::Bomb4(2).matches_trick_type(TRICK_STREET5));
    assert!(!HandType::Bomb4(2).matches_trick_type(TRICK_BOMB5));
    assert!(HandType::Bomb4(2).matches_trick_type(TRICK_BOMB4));
    assert!(!HandType::Pairs(2).matches_trick_type(TRICK_STREET5));
}

#[test]
fn codes_of_the_records() {
    assert_eq!(trick_type_str_to_trick_type("1"), 0);
    assert_eq!(trick_type_str_to_trick_type("D"), 21);
    assert_eq!(trick_type_str_to_trick_type("T3"), 5);
    assert_eq!(trick_type_str_to_trick_type("S14"), 19);
    assert_eq!(trick_type_str_to_trick_type("B13"), 31);
    assert_eq!(trick_type_str_to_trick_type("F"), 20);
    assert_eq!(card_wish_to_cardtype('.'), 0);
    assert_eq!(card_wish_to_cardtype('2'), TWO);
    assert_eq!(card_wish_to_cardtype('T'), TEN);
    assert_eq!(card_wish_to_cardtype('A'), ACE);
    assert_eq!(get_exchange_card_type(PHOENIX), 14);
    assert_eq!(get_exchange_card_type(DRAGON), 15);
    assert_eq!(get_exchange_card_type(MAHJONG), 16);
    assert_eq!(get_exchange_card_type(DOG), 0);
    assert_eq!(get_exchange_card_type(QUEEN_RED), 11);
}

const QUEEN_RED: u8 = 11 + RED;

#[test]
fn custom_grand_call_weights() {
    // ace and dragon: 1 + 2 = 3
    assert_eq!(CountCustomGTStrategy.count(&h(&[ACE + RED, DRAGON])), 1);
    // ace, two kings and the phoenix: 1 + 0.1 + 1.9 = 3
    assert_eq!(CountCustomGTStrategy.count(&h(&[ACE + RED, KING + RED, KING + BLUE, PHOENIX])), 1);
    // ace, one king and the phoenix: 2.95
    assert_eq!(CountCustomGTStrategy.count(&h(&[ACE + RED, KING + RED, PHOENIX])), 0);
    assert_eq!(CountCustomGTStrategy.count(&h(&[MAHJONG, DOG, DRAGON, KING + GREEN])), 0);
}
