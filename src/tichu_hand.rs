use vstd::prelude::*;
use vstd::string::{StrSliceExecFns, StringExecFns};
use vstd::std_specs::bits::u64_trailing_zeros;
use crate::bsw_binary_format::binary_format_constants::Score;
use crate::bits::{popcount, lemma_popcount_bound, lemma_popcount_clear_lowest};
use crate::street_detection_tricks::{is_street_fast, is_street_fast_in, street_spec, StreetTable};
use crate::pair_street_detection_trick::{is_pair_street_fast, pair_street_spec};

verus! {

broadcast use vstd::std_specs::bits::axiom_u64_trailing_zeros;

/// A set of cards: bit `16 * column + rank` stands for one card.
/// Rank 0 of each column holds one of the four special cards.
pub type Hand = u64;

/// A bit position of a `Hand`.
pub type CardIndex = u8;

/// The rank part of a `CardIndex`; all special cards report rank 0.
pub type CardType = u8;

/// The column offset of a card: 0, 16, 32 or 48.
pub type Color = u8;

pub const YELLOW: Color = 0;
pub const BLUE: Color = 16;
pub const GREEN: Color = 32;
pub const RED: Color = 48;

/// The wildcard special card; it sits at bit 0.
pub const PHOENIX: CardType = 0;

pub const DOG: CardIndex = 16;
pub const DRAGON: CardIndex = 32;
pub const MAHJONG: CardIndex = 48;

pub const SPECIAL_CARD: CardType = 0;
pub const TWO: CardType = 1;
pub const THREE: CardType = 2;
pub const FOUR: CardType = 3;
pub const FIVE: CardType = 4;
pub const SIX: CardType = 5;
pub const SEVEN: CardType = 6;
pub const EIGHT: CardType = 7;
pub const NINE: CardType = 8;
pub const TEN: CardType = 9;
pub const JACK: CardType = 10;
pub const QUEEN: CardType = 11;
pub const KING: CardType = 12;
pub const ACE: CardType = 13;

pub const MASK_SPECIAL_CARDS: Hand = 0x0001_0001_0001_0001;
pub const MASK_NORMAL_CARDS: Hand = 0xFFFE_FFFE_FFFE_FFFE;

pub const MASK_TWOS: Hand = 0x0002_0002_0002_0002;
pub const MASK_THREES: Hand = 0x0004_0004_0004_0004;
pub const MASK_FOURS: Hand = 0x0008_0008_0008_0008;
pub const MASK_FIVES: Hand = 0x0010_0010_0010_0010;
pub const MASK_SIXS: Hand = 0x0020_0020_0020_0020;
pub const MASK_SEVENS: Hand = 0x0040_0040_0040_0040;
pub const MASK_EIGHTS: Hand = 0x0080_0080_0080_0080;
pub const MASK_NINES: Hand = 0x0100_0100_0100_0100;
pub const MASK_TENS: Hand = 0x0200_0200_0200_0200;
pub const MASK_JACKS: Hand = 0x0400_0400_0400_0400;
pub const MASK_QUEENS: Hand = 0x0800_0800_0800_0800;
pub const MASK_KINGS: Hand = 0x1000_1000_1000_1000;
pub const MASK_ACES: Hand = 0x2000_2000_2000_2000;

pub const MASK_YELLOW: Hand = 0x0000_0000_0000_3FFE;
pub const MASK_BLUE: Hand = 0x0000_0000_3FFE_0000;
pub const MASK_GREEN: Hand = 0x0000_3FFE_0000_0000;
pub const MASK_RED: Hand = 0x3FFE_0000_0000_0000;

/// The 56 positions that stand for cards.
pub const MASK_ALL: Hand = 0x3FFF_3FFF_3FFF_3FFF;

pub const PHOENIX_BIT: Hand = 0x0000_0000_0000_0001;
pub const DOG_BIT: Hand = 0x0000_0000_0001_0000;
pub const DRAGON_BIT: Hand = 0x0000_0001_0000_0000;
pub const MAHJONG_BIT: Hand = 0x0001_0000_0000_0000;

/// The hand that holds exactly the card at `card`.
pub open spec fn card_bit(card: u64) -> u64 {
    1u64 << card
}

/// The mask of all four cards of `rank` (1 to 13).
pub open spec fn four_of_kind_spec(rank: u8) -> u64 {
    MASK_TWOS << ((rank - 1) as u64)
}

/// Column offset of a suited card.
pub fn get_color(card: CardIndex) -> (r: Color)
    requires
        card < 64,
        card % 16 != 0,
    ensures
        r == (card / 16) * 16,
        r == YELLOW || r == BLUE || r == GREEN || r == RED,
{
    let c = card >> 4u8;
    proof {
        assert(card >> 4u8 == card / 16) by (bit_vector);
    }
    c * 16
}

/// Rank of a card; 0 for the four special cards.
pub fn get_card_type(card: CardIndex) -> (r: CardType)
    ensures
        r == card % 16,
{
    let r = card & 0b1111u8;
    proof {
        assert(card & 0b1111u8 == card % 16) by (bit_vector);
    }
    r
}

/// The mask of all four cards of one rank.
pub fn four_of_kind_mask(rank: CardType) -> (r: Hand)
    requires
        1 <= rank <= 13,
    ensures
        r == four_of_kind_spec(rank),
        r & MASK_ALL == r,
{
    let r = MASK_TWOS << ((rank - 1) as u64);
    proof {
        lemma_four_of_kind_shape(rank);
    }
    r
}

proof fn lemma_four_of_kind_shape(rank: u8)
    requires
        1 <= rank <= 13,
    ensures
        four_of_kind_spec(rank) & MASK_ALL == four_of_kind_spec(rank),
{
    let m = four_of_kind_spec(rank);
    let s = (rank - 1) as u64;
    assert(m & MASK_ALL == m) by (bit_vector)
        requires
            s < 13,
            m == MASK_TWOS << s,
    ;
}

//-------------------------------------- trick types
pub type TrickType = u8;

pub const TRICK_SINGLETON: TrickType = 0;
pub const TRICK_PAIRS: TrickType = 1;
pub const TRICK_TRIPLETS: TrickType = 2;
pub const TRICK_PAIRSTREET4: TrickType = 4;
pub const TRICK_PAIRSTREET6: TrickType = 5;
pub const TRICK_PAIRSTREET8: TrickType = 6;
pub const TRICK_PAIRSTREET10: TrickType = 7;
pub const TRICK_PAIRSTREET12: TrickType = 8;
pub const TRICK_PAIRSTREET14: TrickType = 9;
pub const TRICK_STREET5: TrickType = 10;
pub const TRICK_STREET6: TrickType = 11;
pub const TRICK_STREET7: TrickType = 12;
pub const TRICK_STREET8: TrickType = 13;
pub const TRICK_STREET9: TrickType = 14;
pub const TRICK_STREET10: TrickType = 15;
pub const TRICK_STREET11: TrickType = 16;
pub const TRICK_STREET12: TrickType = 17;
pub const TRICK_STREET13: TrickType = 18;
pub const TRICK_STREET14: TrickType = 19;
pub const TRICK_FULLHOUSE: TrickType = 20;
pub const TRICK_DOG: TrickType = 21;
pub const TRICK_BOMB4: TrickType = 22;
pub const TRICK_BOMB5: TrickType = 23;
pub const TRICK_BOMB6: TrickType = 24;
pub const TRICK_BOMB7: TrickType = 25;
pub const TRICK_BOMB8: TrickType = 26;
pub const TRICK_BOMB9: TrickType = 27;
pub const TRICK_BOMB10: TrickType = 28;
pub const TRICK_BOMB11: TrickType = 29;
pub const TRICK_BOMB12: TrickType = 30;
pub const TRICK_BOMB13: TrickType = 31;

/// The shape of a legal combination, with what is needed to compare two of one shape.
#[derive(PartialEq, Eq, Structural, Debug, Clone, Copy)]
pub enum HandType {
    Dog,
    /// Rank and card index.
    Singleton(CardType, CardIndex),
    Pairs(CardType),
    Triplets(CardType),
    /// Lowest rank and number of cards.
    PairStreet(CardType, u8),
    /// Lowest rank and number of cards.
    Street(CardType, u8),
    /// Rank of the pair and rank of the triplet.
    FullHouse(CardType, CardType),
    Bomb4(CardType),
    /// Lowest rank and number of cards.
    BombStreet(CardType, u8),
}

/// Number of cards a combination of this shape is made of.
pub open spec fn shape_len(t: HandType) -> nat {
    match t {
        HandType::Dog => 1,
        HandType::Singleton(_, _) => 1,
        HandType::Pairs(_) => 2,
        HandType::Triplets(_) => 3,
        HandType::PairStreet(_, l) => l as nat,
        HandType::Street(_, l) => l as nat,
        HandType::FullHouse(_, _) => 5,
        HandType::Bomb4(_) => 4,
        HandType::BombStreet(_, l) => l as nat,
    }
}

/// The lengths that a shape can have.
pub open spec fn valid_shape(t: HandType) -> bool {
    match t {
        HandType::PairStreet(_, l) => 4 <= l <= 14,
        HandType::Street(_, l) => 5 <= l <= 14,
        HandType::BombStreet(_, l) => 5 <= l <= 14,
        _ => true,
    }
}

/// Two values that `is_bigger_than_same_handtype` may compare: one variant, and for
/// runs one length.
pub open spec fn same_shape(a: HandType, b: HandType) -> bool {
    match (a, b) {
        (HandType::Singleton(_, _), HandType::Singleton(_, _)) => true,
        (HandType::Pairs(_), HandType::Pairs(_)) => true,
        (HandType::Triplets(_), HandType::Triplets(_)) => true,
        (HandType::PairStreet(_, s), HandType::PairStreet(_, s2)) => s == s2,
        (HandType::Street(_, s), HandType::Street(_, s2)) => s == s2,
        (HandType::FullHouse(_, _), HandType::FullHouse(_, _)) => true,
        (HandType::Bomb4(_), HandType::Bomb4(_)) => true,
        (HandType::BombStreet(_, s), HandType::BombStreet(_, s2)) => s == s2,
        _ => false,
    }
}

/// Whether `this` beats `other` of the same shape: the higher rank wins.  Among singles
/// the mahjong counts as rank 0, the phoenix beats every ranked card and the mahjong, and
/// the dragon beats every other single; nothing beats the dragon, and only the dragon
/// beats the phoenix.
pub open spec fn beats(this: HandType, other: HandType) -> bool {
    match (other, this) {
        (HandType::Singleton(c1, c1_idx), HandType::Singleton(c2, c2_idx)) => {
            c1 < c2 && c1_idx != DRAGON && c1_idx != PHOENIX || (c1 > 0 || c1_idx == MAHJONG)
                && c2_idx == PHOENIX || c1 > 0 && c2_idx == DRAGON || (c1_idx == PHOENIX || c1_idx
                == MAHJONG) && c2_idx == DRAGON
        },
        (HandType::Pairs(c1), HandType::Pairs(c2)) => c1 < c2,
        (HandType::Triplets(c1), HandType::Triplets(c2)) => c1 < c2,
        (HandType::PairStreet(c1, _), HandType::PairStreet(c2, _)) => c1 < c2,
        (HandType::Street(c1, _), HandType::Street(c2, _)) => c1 < c2,
        (HandType::FullHouse(_, c1), HandType::FullHouse(_, c2)) => c1 < c2,
        (HandType::Bomb4(c1), HandType::Bomb4(c2)) => c1 < c2,
        (HandType::BombStreet(c1, _), HandType::BombStreet(c2, _)) => c1 < c2,
        _ => false,
    }
}

/// A single names a card and that card's rank.
pub open spec fn singleton_ok(t: HandType) -> bool {
    match t {
        HandType::Singleton(c, i) => i < 64 && c == i % 16,
        _ => true,
    }
}

/// Beating is a strict order on combinations of one shape: no combination beats itself,
/// and of two combinations at most one beats the other.
pub proof fn lemma_beats_strict(a: HandType, b: HandType)
    requires
        same_shape(a, b),
        singleton_ok(a),
        singleton_ok(b),
    ensures
        !beats(a, a),
        beats(a, b) ==> !beats(b, a),
{
}

/// Singles are totally ordered: of two different cards other than the dog, one beats the
/// other unless both are ranked cards of the same rank.
pub proof fn lemma_singles_total(a: HandType, b: HandType)
    requires
        a matches HandType::Singleton(ca, ia),
        b matches HandType::Singleton(cb, ib),
        singleton_ok(a),
        singleton_ok(b),
        a->Singleton_0 != b->Singleton_0 || a->Singleton_0 == 0,
        a->Singleton_1 != b->Singleton_1,
        a->Singleton_1 != DOG && b->Singleton_1 != DOG,
    ensures
        beats(a, b) || beats(b, a),
{
}

/// The kind of trick a combination opens; bombs are ordered above all others.
pub open spec fn trick_type_of(t: HandType) -> int {
    match t {
        HandType::Dog => TRICK_DOG as int,
        HandType::Singleton(_, _) => TRICK_SINGLETON as int,
        HandType::Pairs(_) => TRICK_PAIRS as int,
        HandType::Triplets(_) => TRICK_TRIPLETS as int,
        HandType::PairStreet(_, l) => TRICK_PAIRSTREET4 + (l - 4) / 2,
        HandType::Street(_, l) => TRICK_STREET5 + l - 5,
        HandType::FullHouse(_, _) => TRICK_FULLHOUSE as int,
        HandType::Bomb4(_) => TRICK_BOMB4 as int,
        HandType::BombStreet(_, l) => TRICK_BOMB5 + l - 5,
    }
}

impl HandType {
    /// Compares two combinations of one shape.
    pub fn is_bigger_than_same_handtype(&self, other: &HandType) -> (r: bool)
        requires
            same_shape(*self, *other),
        ensures
            r == beats(*self, *other),
    {
        match (other, self) {
            (HandType::Singleton(c1, c1_idx), HandType::Singleton(c2, c2_idx)) => {
                *c1 < *c2 && *c1_idx != DRAGON && *c1_idx != PHOENIX || (*c1 > 0 || *c1_idx == MAHJONG) && *c2_idx == PHOENIX || *c1 > 0
                    && *c2_idx == DRAGON || (*c1_idx == PHOENIX || *c1_idx == MAHJONG) && *c2_idx
                    == DRAGON
            },
            (HandType::Pairs(c1), HandType::Pairs(c2)) => *c1 < *c2,
            (HandType::Triplets(c1), HandType::Triplets(c2)) => *c1 < *c2,
            (HandType::PairStreet(c1, _), HandType::PairStreet(c2, _)) => *c1 < *c2,
            (HandType::Street(c1, _), HandType::Street(c2, _)) => *c1 < *c2,
            (HandType::FullHouse(_, c1), HandType::FullHouse(_, c2)) => *c1 < *c2,
            (HandType::Bomb4(c1), HandType::Bomb4(c2)) => *c1 < *c2,
            (HandType::BombStreet(c1, _), HandType::BombStreet(c2, _)) => *c1 < *c2,
            _ => false,
        }
    }

    /// Whether this combination may be played into a trick of `trick_type`: a non-bomb
    /// must match it exactly, a bomb may be played on any trick of lower order.
    pub fn matches_trick_type(&self, trick_type: TrickType) -> (r: bool)
        requires
            valid_shape(*self),
        ensures
            r == (trick_type_of(*self) < TRICK_BOMB4 && trick_type_of(*self) == trick_type
                || trick_type_of(*self) >= TRICK_BOMB4 && trick_type <= trick_type_of(*self)),
    {
        let self_trick_type = self.get_trick_type();
        self_trick_type < TRICK_BOMB4 && self_trick_type == trick_type || self_trick_type
            >= TRICK_BOMB4 && trick_type <= self_trick_type
    }

    /// The kind of trick this combination opens.
    pub fn get_trick_type(&self) -> (r: TrickType)
        requires
            valid_shape(*self),
        ensures
            r as int == trick_type_of(*self),
    {
        match self {
            HandType::Dog => TRICK_DOG,
            HandType::Singleton(_, _) => TRICK_SINGLETON,
            HandType::Pairs(_) => TRICK_PAIRS,
            HandType::Triplets(_) => TRICK_TRIPLETS,
            HandType::PairStreet(_, length) => TRICK_PAIRSTREET4 + (*length - 4) / 2,
            HandType::Street(_, length) => TRICK_STREET5 + *length - 5,
            HandType::FullHouse(_, _) => TRICK_FULLHOUSE,
            HandType::Bomb4(_) => TRICK_BOMB4,
            HandType::BombStreet(_, length) => TRICK_BOMB5 + *length - 5,
        }
    }
}

//-------------------------------------- classification

/// A hand that lies in the 56 card positions.
pub open spec fn in_deck(h: u64) -> bool {
    h & MASK_ALL == h
}

/// Index of the lowest card of a nonempty hand.
pub open spec fn lsb_spec(h: u64) -> u8 {
    u64_trailing_zeros(h) as u8
}

/// Suited cards that share their rank with a card of a later column.
pub open spec fn same_rank_cards(h: u64) -> u64 {
    let n = h & MASK_NORMAL_CARDS;
    ((n >> 16u64) | (n >> 32u64) | (n >> 48u64)) & n
}

/// A two-card pair: two suited cards of one rank, or one suited card and the phoenix.
/// Only the rank of the lowest suited card is read.
pub open spec fn pair_spec(h: u64) -> Option<HandType> {
    let normals = h & MASK_NORMAL_CARDS;
    if ((h & PHOENIX_BIT) | same_rank_cards(h)) != 0 && normals != 0 {
        Some(HandType::Pairs(lsb_spec(normals) % 16))
    } else {
        None
    }
}

/// A three-card triplet: without its lowest card the hand is a pair, and that card is
/// the phoenix or of the pair's rank.
pub open spec fn triplet_spec(h: u64) -> Option<HandType> {
    let low = lsb_spec(h);
    match pair_spec(h ^ card_bit(low as u64)) {
        Some(HandType::Pairs(card)) => {
            if low == PHOENIX || card == low % 16 {
                Some(HandType::Triplets(card))
            } else {
                None
            }
        },
        _ => None,
    }
}

/// Some rank is held in all four columns.
pub open spec fn four_of_kind_bomb_spec(h: u64) -> bool {
    let n = h & MASK_NORMAL_CARDS;
    let s1 = n & (n >> 16u64);
    (s1 & (s1 >> 32u64)) != 0
}

/// Some column holds five consecutive ranks.
pub open spec fn straight_bomb_spec(h: u64) -> bool {
    let s = h & MASK_NORMAL_CARDS;
    (s & (s << 1u64) & (s << 2u64) & (s << 3u64) & (s << 4u64)) != 0
}

/// A full house made with the phoenix: two true pairs (the phoenix joins the higher
/// one), or a true triplet plus a card that pairs with the phoenix.
pub open spec fn fullhouse_with_phoenix_spec(h: u64) -> Option<HandType> {
    let true_pairs = same_rank_cards(h);
    if true_pairs == 0 {
        None
    } else {
        let pair_one = lsb_spec(true_pairs) % 16;
        let mask = four_of_kind_spec(pair_one);
        let rest = true_pairs & !mask;
        if rest == 0 {
            if popcount(mask & h) == 3 {
                match pair_spec(h & !mask) {
                    Some(HandType::Pairs(card)) => Some(HandType::FullHouse(card, pair_one)),
                    _ => None,
                }
            } else {
                None
            }
        } else {
            let pair_two = lsb_spec(rest) % 16;
            if pair_one <= pair_two {
                Some(HandType::FullHouse(pair_one, pair_two))
            } else {
                Some(HandType::FullHouse(pair_two, pair_one))
            }
        }
    }
}

/// A full house without the phoenix: exactly three same-rank relations among the suited
/// cards.  The rank that shows up twice among them is the triplet.
pub open spec fn fullhouse_plain_spec(h: u64) -> Option<HandType> {
    let t0 = same_rank_cards(h);
    if popcount(t0) != 3 {
        None
    } else {
        let t1 = t0 & ((t0 - 1) as u64);
        let t2 = t1 & ((t1 - 1) as u64);
        let first = lsb_spec(t0) % 16;
        let second = lsb_spec(t1) % 16;
        let third = lsb_spec(t2) % 16;
        if first == second && second != third {
            Some(HandType::FullHouse(third, first))
        } else if first != second && second == third {
            Some(HandType::FullHouse(first, third))
        } else if first == third && second != third {
            Some(HandType::FullHouse(second, third))
        } else {
            None
        }
    }
}

/// The full house that a hand forms, if any.
pub open spec fn fullhouse_spec(h: u64) -> Option<HandType> {
    if h & PHOENIX_BIT != 0 {
        fullhouse_with_phoenix_spec(h)
    } else {
        fullhouse_plain_spec(h)
    }
}

/// Whether all cards of the hand lie in one column.
pub open spec fn one_column(h: u64) -> bool {
    let cards = popcount(h);
    popcount(h & MASK_YELLOW) == cards || popcount(h & MASK_BLUE) == cards || popcount(
        h & MASK_GREEN,
    ) == cards || popcount(h & MASK_RED) == cards
}

/// The street (or straight bomb) that a hand of five or more cards forms.  The phoenix
/// extends a street at the top unless it would pass the ace.
pub open spec fn street_shape(h: u64) -> Option<HandType> {
    let cards = popcount(h);
    match street_spec(h) {
        Some(card_type) => {
            if one_column(h) {
                Some(HandType::BombStreet(card_type, cards as u8))
            } else if card_type + cards - 1 > ACE {
                Some(HandType::Street((card_type - 1) as u8, cards as u8))
            } else {
                Some(HandType::Street(card_type, cards as u8))
            }
        },
        None => None,
    }
}

/// The combination a hand forms, or `None` when it is no legal combination.
pub open spec fn classify_spec(h: u64) -> Option<HandType> {
    let cards = popcount(h);
    if cards == 1 {
        if lsb_spec(h) == DOG {
            Some(HandType::Dog)
        } else {
            Some(HandType::Singleton(lsb_spec(h) % 16, lsb_spec(h)))
        }
    } else if cards == 2 {
        pair_spec(h)
    } else if cards == 3 {
        triplet_spec(h)
    } else if cards % 2 == 0 && pair_street_spec(h) is Some {
        Some(HandType::PairStreet(pair_street_spec(h)->0, cards as u8))
    } else if cards == 4 {
        if four_of_kind_bomb_spec(h) {
            Some(HandType::Bomb4(lsb_spec(h) % 16))
        } else {
            None
        }
    } else if cards == 5 && fullhouse_spec(h) is Some {
        fullhouse_spec(h)
    } else {
        street_shape(h)
    }
}

/// A hand of the deck holds four of a kind exactly when it holds all four cards of some
/// rank.
pub proof fn lemma_four_of_kind_meaning(h: u64)
    requires
        in_deck(h),
    ensures
        four_of_kind_bomb_spec(h) <==> exists|r: u8|
            1 <= r <= 13 && #[trigger] (h & four_of_kind_spec(r)) == four_of_kind_spec(r),
{
    assert(four_of_kind_bomb_spec(h) <==> (h & MASK_TWOS == MASK_TWOS || h & MASK_THREES == MASK_THREES || h & MASK_FOURS == MASK_FOURS || h & MASK_FIVES == MASK_FIVES || h & MASK_SIXS == MASK_SIXS || h & MASK_SEVENS == MASK_SEVENS || h & MASK_EIGHTS == MASK_EIGHTS || h & MASK_NINES == MASK_NINES || h & MASK_TENS == MASK_TENS || h & MASK_JACKS == MASK_JACKS || h & MASK_QUEENS == MASK_QUEENS || h & MASK_KINGS == MASK_KINGS || h & MASK_ACES == MASK_ACES)) by (bit_vector)
        requires
            h & MASK_ALL == h,
    ;
    assert(MASK_TWOS << 0u64 == MASK_TWOS && MASK_TWOS << 1u64 == MASK_THREES && MASK_TWOS << 2u64 == MASK_FOURS && MASK_TWOS << 3u64 == MASK_FIVES && MASK_TWOS << 4u64 == MASK_SIXS && MASK_TWOS << 5u64 == MASK_SEVENS && MASK_TWOS << 6u64 == MASK_EIGHTS && MASK_TWOS << 7u64 == MASK_NINES && MASK_TWOS << 8u64 == MASK_TENS && MASK_TWOS << 9u64 == MASK_JACKS && MASK_TWOS << 10u64 == MASK_QUEENS && MASK_TWOS << 11u64 == MASK_KINGS && MASK_TWOS << 12u64 == MASK_ACES) by (bit_vector);
    if four_of_kind_bomb_spec(h) {
        assert(four_of_kind_spec(1) == MASK_TWOS);
        assert(four_of_kind_spec(2) == MASK_THREES);
        assert(four_of_kind_spec(3) == MASK_FOURS);
        assert(four_of_kind_spec(4) == MASK_FIVES);
        assert(four_of_kind_spec(5) == MASK_SIXS);
        assert(four_of_kind_spec(6) == MASK_SEVENS);
        assert(four_of_kind_spec(7) == MASK_EIGHTS);
        assert(four_of_kind_spec(8) == MASK_NINES);
        assert(four_of_kind_spec(9) == MASK_TENS);
        assert(four_of_kind_spec(10) == MASK_JACKS);
        assert(four_of_kind_spec(11) == MASK_QUEENS);
        assert(four_of_kind_spec(12) == MASK_KINGS);
        assert(four_of_kind_spec(13) == MASK_ACES);
    }
    if exists|r: u8| 1 <= r <= 13 && #[trigger] (h & four_of_kind_spec(r)) == four_of_kind_spec(r) {
        let r = choose|r: u8| 1 <= r <= 13 && #[trigger] (h & four_of_kind_spec(r)) == four_of_kind_spec(r);
        assert(r == 1 || r == 2 || r == 3 || r == 4 || r == 5 || r == 6 || r == 7 || r == 8 || r == 9 || r == 10 || r == 11 || r == 12 || r == 13);
    }
}

/// Five consecutive ranks, from `start` (1 to 9), in the column at offset `column`.
pub open spec fn straight_mask(column: u64, start: u64) -> u64 {
    0x1Fu64 << (column + start)
}

/// A hand of the deck holds a straight bomb exactly when one column holds five
/// consecutive ranks.
pub proof fn lemma_straight_bomb_meaning(h: u64)
    requires
        in_deck(h),
    ensures
        straight_bomb_spec(h) <==> exists|column: u64, start: u64|
            (column == 0 || column == 16 || column == 32 || column == 48) && 1 <= start <= 9
                && #[trigger] (h & straight_mask(column, start)) == straight_mask(column, start),
{
    assert(straight_bomb_spec(h) <==> (h & 0x3Eu64 == 0x3Eu64 || h & 0x7Cu64 == 0x7Cu64 || h & 0xF8u64 == 0xF8u64 || h & 0x1F0u64 == 0x1F0u64 || h & 0x3E0u64 == 0x3E0u64 || h & 0x7C0u64 == 0x7C0u64 || h & 0xF80u64 == 0xF80u64 || h & 0x1F00u64 == 0x1F00u64 || h & 0x3E00u64 == 0x3E00u64 || h & 0x3E0000u64 == 0x3E0000u64 || h & 0x7C0000u64 == 0x7C0000u64 || h & 0xF80000u64 == 0xF80000u64 || h & 0x1F00000u64 == 0x1F00000u64 || h & 0x3E00000u64 == 0x3E00000u64 || h & 0x7C00000u64 == 0x7C00000u64 || h & 0xF800000u64 == 0xF800000u64 || h & 0x1F000000u64 == 0x1F000000u64 || h & 0x3E000000u64 == 0x3E000000u64 || h & 0x3E00000000u64 == 0x3E00000000u64 || h & 0x7C00000000u64 == 0x7C00000000u64 || h & 0xF800000000u64 == 0xF800000000u64 || h & 0x1F000000000u64 == 0x1F000000000u64 || h & 0x3E000000000u64 == 0x3E000000000u64 || h & 0x7C000000000u64 == 0x7C000000000u64 || h & 0xF8000000000u64 == 0xF8000000000u64 || h & 0x1F0000000000u64 == 0x1F0000000000u64 || h & 0x3E0000000000u64 == 0x3E0000000000u64 || h & 0x3E000000000000u64 == 0x3E000000000000u64 || h & 0x7C000000000000u64 == 0x7C000000000000u64 || h & 0xF8000000000000u64 == 0xF8000000000000u64 || h & 0x1F0000000000000u64 == 0x1F0000000000000u64 || h & 0x3E0000000000000u64 == 0x3E0000000000000u64 || h & 0x7C0000000000000u64 == 0x7C0000000000000u64 || h & 0xF80000000000000u64 == 0xF80000000000000u64 || h & 0x1F00000000000000u64 == 0x1F00000000000000u64 || h & 0x3E00000000000000u64 == 0x3E00000000000000u64)) by (bit_vector)
        requires
            h & MASK_ALL == h,
    ;
    assert(0x1Fu64 << 1u64 == 0x3Eu64 && 0x1Fu64 << 2u64 == 0x7Cu64 && 0x1Fu64 << 3u64 == 0xF8u64 && 0x1Fu64 << 4u64 == 0x1F0u64 && 0x1Fu64 << 5u64 == 0x3E0u64 && 0x1Fu64 << 6u64 == 0x7C0u64 && 0x1Fu64 << 7u64 == 0xF80u64 && 0x1Fu64 << 8u64 == 0x1F00u64 && 0x1Fu64 << 9u64 == 0x3E00u64 && 0x1Fu64 << 17u64 == 0x3E0000u64 && 0x1Fu64 << 18u64 == 0x7C0000u64 && 0x1Fu64 << 19u64 == 0xF80000u64 && 0x1Fu64 << 20u64 == 0x1F00000u64 && 0x1Fu64 << 21u64 == 0x3E00000u64 && 0x1Fu64 << 22u64 == 0x7C00000u64 && 0x1Fu64 << 23u64 == 0xF800000u64 && 0x1Fu64 << 24u64 == 0x1F000000u64 && 0x1Fu64 << 25u64 == 0x3E000000u64 && 0x1Fu64 << 33u64 == 0x3E00000000u64 && 0x1Fu64 << 34u64 == 0x7C00000000u64 && 0x1Fu64 << 35u64 == 0xF800000000u64 && 0x1Fu64 << 36u64 == 0x1F000000000u64 && 0x1Fu64 << 37u64 == 0x3E000000000u64 && 0x1Fu64 << 38u64 == 0x7C000000000u64 && 0x1Fu64 << 39u64 == 0xF8000000000u64 && 0x1Fu64 << 40u64 == 0x1F0000000000u64 && 0x1Fu64 << 41u64 == 0x3E0000000000u64 && 0x1Fu64 << 49u64 == 0x3E000000000000u64 && 0x1Fu64 << 50u64 == 0x7C000000000000u64 && 0x1Fu64 << 51u64 == 0xF8000000000000u64 && 0x1Fu64 << 52u64 == 0x1F0000000000000u64 && 0x1Fu64 << 53u64 == 0x3E0000000000000u64 && 0x1Fu64 << 54u64 == 0x7C0000000000000u64 && 0x1Fu64 << 55u64 == 0xF80000000000000u64 && 0x1Fu64 << 56u64 == 0x1F00000000000000u64 && 0x1Fu64 << 57u64 == 0x3E00000000000000u64) by (bit_vector);
    if exists|column: u64, start: u64|
        (column == 0 || column == 16 || column == 32 || column == 48) && 1 <= start <= 9
            && #[trigger] (h & straight_mask(column, start)) == straight_mask(column, start) {
        let (column, start) = choose|column: u64, start: u64|
            (column == 0 || column == 16 || column == 32 || column == 48) && 1 <= start <= 9
                && #[trigger] (h & straight_mask(column, start)) == straight_mask(column, start);
        assert(start == 1 || start == 2 || start == 3 || start == 4 || start == 5 || start == 6 || start == 7 || start == 8 || start == 9);
    }
    if straight_bomb_spec(h) {
        if h & 0x3Eu64 == 0x3Eu64 {
            assert(straight_mask(0, 1) == 0x3Eu64);
        }
        if h & 0x7Cu64 == 0x7Cu64 {
            assert(straight_mask(0, 2) == 0x7Cu64);
        }
        if h & 0xF8u64 == 0xF8u64 {
            assert(straight_mask(0, 3) == 0xF8u64);
        }
        if h & 0x1F0u64 == 0x1F0u64 {
            assert(straight_mask(0, 4) == 0x1F0u64);
        }
        if h & 0x3E0u64 == 0x3E0u64 {
            assert(straight_mask(0, 5) == 0x3E0u64);
        }
        if h & 0x7C0u64 == 0x7C0u64 {
            assert(straight_mask(0, 6) == 0x7C0u64);
        }
        if h & 0xF80u64 == 0xF80u64 {
            assert(straight_mask(0, 7) == 0xF80u64);
        }
        if h & 0x1F00u64 == 0x1F00u64 {
            assert(straight_mask(0, 8) == 0x1F00u64);
        }
        if h & 0x3E00u64 == 0x3E00u64 {
            assert(straight_mask(0, 9) == 0x3E00u64);
        }
        if h & 0x3E0000u64 == 0x3E0000u64 {
            assert(straight_mask(16, 1) == 0x3E0000u64);
        }
        if h & 0x7C0000u64 == 0x7C0000u64 {
            assert(straight_mask(16, 2) == 0x7C0000u64);
        }
        if h & 0xF80000u64 == 0xF80000u64 {
            assert(straight_mask(16, 3) == 0xF80000u64);
        }
        if h & 0x1F00000u64 == 0x1F00000u64 {
            assert(straight_mask(16, 4) == 0x1F00000u64);
        }
        if h & 0x3E00000u64 == 0x3E00000u64 {
            assert(straight_mask(16, 5) == 0x3E00000u64);
        }
        if h & 0x7C00000u64 == 0x7C00000u64 {
            assert(straight_mask(16, 6) == 0x7C00000u64);
        }
        if h & 0xF800000u64 == 0xF800000u64 {
            assert(straight_mask(16, 7) == 0xF800000u64);
        }
        if h & 0x1F000000u64 == 0x1F000000u64 {
            assert(straight_mask(16, 8) == 0x1F000000u64);
        }
        if h & 0x3E000000u64 == 0x3E000000u64 {
            assert(straight_mask(16, 9) == 0x3E000000u64);
        }
        if h & 0x3E00000000u64 == 0x3E00000000u64 {
            assert(straight_mask(32, 1) == 0x3E00000000u64);
        }
        if h & 0x7C00000000u64 == 0x7C00000000u64 {
            assert(straight_mask(32, 2) == 0x7C00000000u64);
        }
        if h & 0xF800000000u64 == 0xF800000000u64 {
            assert(straight_mask(32, 3) == 0xF800000000u64);
        }
        if h & 0x1F000000000u64 == 0x1F000000000u64 {
            assert(straight_mask(32, 4) == 0x1F000000000u64);
        }
        if h & 0x3E000000000u64 == 0x3E000000000u64 {
            assert(straight_mask(32, 5) == 0x3E000000000u64);
        }
        if h & 0x7C000000000u64 == 0x7C000000000u64 {
            assert(straight_mask(32, 6) == 0x7C000000000u64);
        }
        if h & 0xF8000000000u64 == 0xF8000000000u64 {
            assert(straight_mask(32, 7) == 0xF8000000000u64);
        }
        if h & 0x1F0000000000u64 == 0x1F0000000000u64 {
            assert(straight_mask(32, 8) == 0x1F0000000000u64);
        }
        if h & 0x3E0000000000u64 == 0x3E0000000000u64 {
            assert(straight_mask(32, 9) == 0x3E0000000000u64);
        }
        if h & 0x3E000000000000u64 == 0x3E000000000000u64 {
            assert(straight_mask(48, 1) == 0x3E000000000000u64);
        }
        if h & 0x7C000000000000u64 == 0x7C000000000000u64 {
            assert(straight_mask(48, 2) == 0x7C000000000000u64);
        }
        if h & 0xF8000000000000u64 == 0xF8000000000000u64 {
            assert(straight_mask(48, 3) == 0xF8000000000000u64);
        }
        if h & 0x1F0000000000000u64 == 0x1F0000000000000u64 {
            assert(straight_mask(48, 4) == 0x1F0000000000000u64);
        }
        if h & 0x3E0000000000000u64 == 0x3E0000000000000u64 {
            assert(straight_mask(48, 5) == 0x3E0000000000000u64);
        }
        if h & 0x7C0000000000000u64 == 0x7C0000000000000u64 {
            assert(straight_mask(48, 6) == 0x7C0000000000000u64);
        }
        if h & 0xF80000000000000u64 == 0xF80000000000000u64 {
            assert(straight_mask(48, 7) == 0xF80000000000000u64);
        }
        if h & 0x1F00000000000000u64 == 0x1F00000000000000u64 {
            assert(straight_mask(48, 8) == 0x1F00000000000000u64);
        }
        if h & 0x3E00000000000000u64 == 0x3E00000000000000u64 {
            assert(straight_mask(48, 9) == 0x3E00000000000000u64);
        }
    }
}

/// A hand of 1 to 14 cards is either no combination or a combination of exactly its
/// cards: the number of cards of the shape (the length, for runs) is the hand's size.
pub proof fn lemma_classified_length_is_card_count(h: u64)
    requires
        1 <= popcount(h) <= 14,
    ensures
        classify_spec(h) matches Some(t) ==> shape_len(t) == popcount(h),
{
}

/// Classification depends on the cards alone: two results that `hand_type` may give for
/// one hand are the same.
pub proof fn lemma_classify_deterministic(h: u64, first: Option<HandType>, second: Option<HandType>)
    requires
        first == classify_spec(h),
        second == classify_spec(h),
    ensures
        first == second,
{
}

/// The lowest set bit of a nonempty hand lies in the hand.
pub proof fn lemma_lowest_card_in(x: u64, region: u64)
    requires
        x != 0,
        x & region == x,
    ensures
        u64_trailing_zeros(x) < 64,
        (region >> u64_trailing_zeros(x) as u64) & 1u64 == 1u64,
{
    let t = u64_trailing_zeros(x) as u64;
    assert((x >> t) & 1u64 == 1u64);
    assert((region >> t) & 1u64 == 1u64) by (bit_vector)
        requires
            (x >> t) & 1u64 == 1u64,
            x & region == x,
    ;
}

/// The lowest same-rank card of a hand in the deck is a suited card.
proof fn lemma_same_rank_lowest(h: u64, t: u64)
    requires
        in_deck(h),
        t != 0,
        t & same_rank_cards(h) == t,
    ensures
        1 <= lsb_spec(t) % 16 <= 13,
{
    let region = MASK_ALL & MASK_NORMAL_CARDS;
    assert(t & region == t) by (bit_vector)
        requires
            h & MASK_ALL == h,
            t & ((((h & MASK_NORMAL_CARDS) >> 16u64) | ((h & MASK_NORMAL_CARDS) >> 32u64) | ((h
                & MASK_NORMAL_CARDS) >> 48u64)) & (h & MASK_NORMAL_CARDS)) == t,
            region == MASK_ALL & MASK_NORMAL_CARDS,
    ;
    lemma_lowest_card_in(t, region);
    let i = u64_trailing_zeros(t) as u64;
    assert(1 <= i % 16 <= 13) by (bit_vector)
        requires
            i < 64,
            (region >> i) & 1u64 == 1u64,
            region == MASK_ALL & MASK_NORMAL_CARDS,
    ;
}

/// The operations on a hand of cards.
pub trait TichuHand: Sized {
    /// The cards as a bit-set.
    spec fn bits(&self) -> u64;

    fn get_lsb_card(&self) -> (r: CardIndex)
        requires
            self.bits() != 0,
        ensures
            r == lsb_spec(self.bits()),
            r < 64,
    ;

    /// Classifies a hand of 1 to 14 cards.
    fn hand_type(&self) -> (r: Option<HandType>)
        requires
            in_deck(self.bits()),
            1 <= popcount(self.bits()) <= 14,
        ensures
            r == classify_spec(self.bits()),
            r matches Some(t) ==> shape_len(t) == popcount(self.bits()) && valid_shape(t),
    ;

    /// The full house a hand forms, if any; only ever a `FullHouse`.
    fn is_fullhouse(&self) -> (r: Option<HandType>)
        requires
            in_deck(self.bits()),
        ensures
            r == fullhouse_spec(self.bits()),
            r matches Some(t) ==> t is FullHouse,
    ;

    fn contains_straight_bomb(&self) -> (r: bool)
        ensures
            r == straight_bomb_spec(self.bits()),
    ;

    fn contains_four_of_kind_bomb(&self) -> (r: bool)
        ensures
            r == four_of_kind_bomb_spec(self.bits()),
    ;

    /// Removes the lowest card and returns its index.
    fn pop_some_card(&mut self) -> (r: CardIndex)
        requires
            old(self).bits() != 0,
        ensures
            r == lsb_spec(old(self).bits()),
            r < 64,
            final(self).bits() == old(self).bits() & ((old(self).bits() - 1) as u64),
            popcount(final(self).bits()) + 1 == popcount(old(self).bits()),
    ;

    /// The cards in reading order.
    fn pretty_print(&self) -> String;

    /// A table of all positions of the hand.
    fn debug_print(&self) -> String;

    /// Card points: 5 per five, 10 per ten and king, 25 for the dragon, -25 for the phoenix.
    fn get_card_points(&self) -> (r: Score)
        ensures
            r as int == card_points(self.bits()),
    ;

    /// Number of kings, aces, phoenix and dragon.
    fn get_high_card_amt(&self) -> (r: u32)
        ensures
            r == popcount(self.bits() & (MASK_KINGS | MASK_ACES | PHOENIX_BIT | DRAGON_BIT)),
    ;

    /// Number of suited cards with two more cards of their rank in later columns; a four
    /// of a kind counts twice.
    fn count_triplets(&self) -> (r: u32)
        ensures
            r == popcount(triplet_cards(self.bits())),
    ;
}

/// Card points of a hand.
pub open spec fn card_points(h: u64) -> int {
    5 * popcount(h & MASK_FIVES) + 10 * popcount(h & (MASK_TENS | MASK_KINGS)) + 25 * popcount(
        h & DRAGON_BIT,
    ) - 25 * popcount(h & PHOENIX_BIT)
}

/// Suited cards that share their rank with two cards of later columns.
pub open spec fn triplet_cards(h: u64) -> u64 {
    let t = same_rank_cards(h);
    ((t >> 16u64) | (t >> 32u64)) & t
}

impl TichuHand for Hand {
    open spec fn bits(&self) -> u64 {
        *self
    }

    fn get_lsb_card(&self) -> (r: CardIndex) {
        self.trailing_zeros() as CardIndex
    }

    fn hand_type(&self) -> (r: Option<HandType>) {
        classify_with(*self, None)
    }

    fn is_fullhouse(&self) -> (r: Option<HandType>) {
        let has_phoenix: bool = *self & PHOENIX_BIT != 0u64;
        let normals = *self & MASK_NORMAL_CARDS;
        let true_pairs: Hand = ((normals >> 16u64) | (normals >> 32u64) | (normals >> 48u64))
            & normals;
        if has_phoenix {
            if true_pairs == 0u64 {
                return None;
            }
            proof {
                assert(true_pairs & true_pairs == true_pairs) by (bit_vector);
                lemma_same_rank_lowest(*self, true_pairs);
            }
            let pair_one_card = get_card_type(true_pairs.get_lsb_card());
            let mask = four_of_kind_mask(pair_one_card);
            let rest = true_pairs & !mask;
            if rest == 0u64 {
                if (mask & *self).count_ones() == 3 {
                    if let Some(HandType::Pairs(card)) = pair_type(*self & !mask) {
                        return Some(HandType::FullHouse(card, pair_one_card));
                    }
                }
                return None;
            }
            let pair_two_card = get_card_type(rest.get_lsb_card());
            if pair_one_card <= pair_two_card {
                return Some(HandType::FullHouse(pair_one_card, pair_two_card));
            } else {
                return Some(HandType::FullHouse(pair_two_card, pair_one_card));
            }
        }
        if true_pairs.count_ones() != 3 {
            return None;
        }
        let mut remaining = true_pairs;
        proof {
            lemma_popcount_clear_lowest(remaining);
        }
        let first_card = get_card_type(remaining.pop_some_card());
        proof {
            lemma_popcount_clear_lowest(remaining);
        }
        let second_card = get_card_type(remaining.pop_some_card());
        let third_card = get_card_type(remaining.pop_some_card());
        if first_card == second_card && second_card != third_card {
            return Some(HandType::FullHouse(third_card, first_card));
        }
        if first_card != second_card && second_card == third_card {
            return Some(HandType::FullHouse(first_card, third_card));
        }
        if first_card == third_card && second_card != third_card {
            return Some(HandType::FullHouse(second_card, third_card));
        }
        None
    }

    fn contains_straight_bomb(&self) -> (r: bool) {
        let straight_cards = *self & MASK_NORMAL_CARDS;
        (straight_cards & (straight_cards << 1u64) & (straight_cards << 2u64) & (straight_cards
            << 3u64) & (straight_cards << 4u64)) != 0u64
    }

    fn contains_four_of_kind_bomb(&self) -> (r: bool) {
        let normal_cards = *self & MASK_NORMAL_CARDS;
        let shift_one_cards = normal_cards & (normal_cards >> 16u64);
        (shift_one_cards & (shift_one_cards >> 32u64)) != 0u64
    }

    fn pretty_print(&self) -> String {
        pretty_print_bits(*self)
    }

    fn debug_print(&self) -> String {
        debug_print_bits(*self)
    }

    fn get_card_points(&self) -> (r: Score) {
        proof {
            lemma_popcount_bound(*self & MASK_FIVES);
            lemma_popcount_bound(*self & (MASK_TENS | MASK_KINGS));
            lemma_popcount_bound(*self & DRAGON_BIT);
            lemma_popcount_bound(*self & PHOENIX_BIT);
        }
        let positive = 5 * (*self & MASK_FIVES).count_ones() + 10 * (*self & (MASK_TENS
            | MASK_KINGS)).count_ones() + 25 * (*self & DRAGON_BIT).count_ones();
        positive as Score - 25 * (*self & PHOENIX_BIT).count_ones() as Score
    }

    fn get_high_card_amt(&self) -> (r: u32) {
        (*self & (MASK_KINGS | MASK_ACES | PHOENIX_BIT | DRAGON_BIT)).count_ones()
    }

    fn count_triplets(&self) -> (r: u32) {
        let normals = *self & MASK_NORMAL_CARDS;
        let true_pairs: Hand = ((normals >> 16u64) | (normals >> 32u64) | (normals >> 48u64))
            & normals;
        let true_triplets = ((true_pairs >> 16u64) | (true_pairs >> 32u64)) & true_pairs;
        true_triplets.count_ones()
    }

    fn pop_some_card(&mut self) -> (r: CardIndex) {
        let card = self.get_lsb_card();
        proof {
            lemma_popcount_clear_lowest(*self);
        }
        *self = *self & (*self - 1);
        card
    }
}

fn classify_with(hand: Hand, table: Option<&StreetTable>) -> (r: Option<HandType>)
    requires
        in_deck(hand),
        1 <= popcount(hand) <= 14,
        table matches Some(t) ==> t.wf(),
    ensures
        r == classify_spec(hand),
        r matches Some(t) ==> shape_len(t) == popcount(hand) && valid_shape(t),
{
    let cards = hand.count_ones();
    if cards == 1 {
        let card = hand.get_lsb_card();
        if card == DOG {
            return Some(HandType::Dog);
        } else {
            return Some(HandType::Singleton(get_card_type(card), card));
        }
    }
    if cards == 2 {
        return pair_type(hand);
    }
    if cards == 3 {
        let removed_card = hand.get_lsb_card();
        if let Some(HandType::Pairs(card)) = pair_type(hand ^ (1u64 << removed_card)) {
            if removed_card == PHOENIX || card == get_card_type(removed_card) {
                return Some(HandType::Triplets(card));
            }
            return None;
        }
        return None;
    }
    if cards % 2 == 0 {
        if let Some(card) = is_pair_street_fast(hand) {
            return Some(HandType::PairStreet(card, cards as u8));
        }
    }
    if cards == 4 {
        if hand.contains_four_of_kind_bomb() {
            return Some(HandType::Bomb4(get_card_type(hand.get_lsb_card())));
        }
        return None;
    }
    if cards == 5 {
        let fh = hand.is_fullhouse();
        if fh.is_some() {
            return fh;
        }
    }
    let street = match table {
        Some(t) => is_street_fast_in(t, hand),
        None => is_street_fast(hand),
    };
    if let Some(card_type) = street {
        proof {
            lemma_popcount_bound(hand & MASK_YELLOW);
            lemma_popcount_bound(hand & MASK_BLUE);
            lemma_popcount_bound(hand & MASK_GREEN);
            lemma_popcount_bound(hand & MASK_RED);
        }
        if (hand & MASK_YELLOW).count_ones() == cards || (hand & MASK_BLUE).count_ones()
            == cards || (hand & MASK_GREEN).count_ones() == cards || (hand
            & MASK_RED).count_ones() == cards {
            return Some(HandType::BombStreet(card_type, cards as u8));
        } else {
            if card_type + cards as u8 - 1 > ACE {
                return Some(HandType::Street(card_type - 1, cards as u8));
            }
            return Some(HandType::Street(card_type, cards as u8));
        }
    }
    None
}

/// Classifies a hand of 1 to 14 cards, reading streets from a table built once.
pub fn classify(table: &StreetTable, hand: Hand) -> (r: Option<HandType>)
    requires
        table.wf(),
        in_deck(hand),
        1 <= popcount(hand) <= 14,
    ensures
        r == classify_spec(hand),
        r matches Some(t) ==> shape_len(t) == popcount(hand) && valid_shape(t),
{
    classify_with(hand, Some(table))
}

/// Classifies a hand as a pair; see `pair_spec`.
fn pair_type(h: Hand) -> (r: Option<HandType>)
    ensures
        r == pair_spec(h),
{
    let normals = h & MASK_NORMAL_CARDS;
    let is_pair = ((h & PHOENIX_BIT) | (((normals >> 16u64) | (normals >> 32u64) | (normals
        >> 48u64)) & normals)) != 0u64 && normals != 0;
    if is_pair {
        Some(HandType::Pairs(get_card_type(normals.get_lsb_card())))
    } else {
        None
    }
}

//-------------------------------------- text

/// Relies on colored's `Colorize::yellow`: wraps the text in a colour code when the
/// terminal is set to show colours, and hands it back unchanged otherwise.
#[verifier::external_body]
fn paint_yellow(s: &str) -> String {
    colored::Colorize::yellow(s).to_string()
}

/// Relies on colored's `Colorize::blue`, as `paint_yellow` does.
#[verifier::external_body]
fn paint_blue(s: &str) -> String {
    colored::Colorize::blue(s).to_string()
}

/// Relies on colored's `Colorize::green`, as `paint_yellow` does.
#[verifier::external_body]
fn paint_green(s: &str) -> String {
    colored::Colorize::green(s).to_string()
}

/// Relies on colored's `Colorize::red`, as `paint_yellow` does.
#[verifier::external_body]
fn paint_red(s: &str) -> String {
    colored::Colorize::red(s).to_string()
}

/// The symbol printed for a card: the rank for suited cards (`T` for ten), and a sign of
/// its own for each special card.
fn card_symbol(card: CardIndex) -> (r: &'static str)
    requires
        card < 64,
{
    if card == DOG {
        "\u{21BA}"
    } else if card == PHOENIX {
        "\u{1F426}"
    } else if card == DRAGON {
        "\u{1F409}"
    } else if card == MAHJONG {
        "1"
    } else {
        match card % 16 {
            1 => "2",
            2 => "3",
            3 => "4",
            4 => "5",
            5 => "6",
            6 => "7",
            7 => "8",
            8 => "9",
            9 => "T",
            10 => "J",
            11 => "Q",
            12 => "K",
            13 => "A",
            _ => "?",
        }
    }
}

/// The symbol of a card, in the colour of its column for suited cards.
pub fn card_to_colored_string(card: CardIndex) -> (r: String)
    requires
        card < 64,
{
    let symbol = card_symbol(card);
    if card % 16 == 0 {
        return symbol.to_string();
    }
    let color = get_color(card);
    if color == YELLOW {
        paint_yellow(symbol)
    } else if color == BLUE {
        paint_blue(symbol)
    } else if color == GREEN {
        paint_green(symbol)
    } else {
        paint_red(symbol)
    }
}

/// Appends the decimal digits of `n`.
pub(crate) fn push_decimal(s: &mut String, n: u64)
    decreases n,
{
    if n >= 10 {
        push_decimal(s, n / 10);
    }
    let digit: &str = match n % 10 {
        0 => "0",
        1 => "1",
        2 => "2",
        3 => "3",
        4 => "4",
        5 => "5",
        6 => "6",
        7 => "7",
        8 => "8",
        _ => "9",
    };
    s.append(digit);
}

/// The cards of a hand in reading order: rank by rank from the lowest, the four columns
/// side by side, with the special cards after the aces.  Positions that hold no card
/// are skipped.
fn pretty_print_bits(hand: Hand) -> (r: String) {
    let mut res_str = String::new();
    let mut y: u8 = 0;
    while y < 16
        invariant
            y <= 16,
        decreases 16 - y,
    {
        let mut x: u8 = 0;
        while x < 4
            invariant
                x <= 4,
                y < 16,
            decreases 4 - x,
        {
            let shift: CardIndex = (y + 1) % 16 + 16 * x;
            if (hand >> shift) & 1u64 != 0u64 && (y + 1) % 16 <= 13 {
                let card = card_to_colored_string(shift);
                res_str.append(card.as_str());
            }
            x += 1;
        }
        y += 1;
    }
    res_str
}

/// A table of the 56 positions, one row per rank from the top and one column per suit:
/// each cell gives the bit position and, if held, the card.
fn debug_print_bits(hand: Hand) -> (r: String) {
    let mut res_str = String::new();
    let mut y: u8 = 0;
    while y < 14
        invariant
            y <= 14,
        decreases 14 - y,
    {
        res_str.append("|");
        let mut x: u8 = 0;
        while x < 4
            invariant
                x <= 4,
                y < 14,
            decreases 4 - x,
        {
            let shift: CardIndex = 61 - (y + 16 * x);
            res_str.append("\t");
            push_decimal(&mut res_str, shift as u64);
            res_str.append(" ");
            if (hand >> shift) & 1u64 != 0u64 {
                let card = card_to_colored_string(shift);
                res_str.append(card.as_str());
            } else {
                res_str.append(" ");
            }
            res_str.append("\t|");
            x += 1;
        }
        res_str.append("\n");
        y += 1;
    }
    res_str
}

/// The card a character of the single-letter card notation stands for: `a` dog, `b`
/// mahjong, `5` phoenix, `6` dragon, and for each rank from two to ace four characters,
/// one per column from yellow to red (`c`-`f` the twos, ..., `1`-`4` the aces).
pub open spec fn tichu_one_card(c: char) -> Option<u8> {
    if 'c' <= c && c <= 'z' {
        Some(((c as int - 'c' as int) / 4 + 1 + 16 * ((c as int - 'c' as int) % 4)) as u8)
    } else if 'A' <= c && c <= 'X' {
        Some(((c as int - 'A' as int) / 4 + 7 + 16 * ((c as int - 'A' as int) % 4)) as u8)
    } else if '1' <= c && c <= '4' {
        Some((13 + 16 * (c as int - '1' as int)) as u8)
    } else if c == 'a' {
        Some(DOG)
    } else if c == 'b' {
        Some(MAHJONG)
    } else if c == '5' {
        Some(PHOENIX)
    } else if c == '6' {
        Some(DRAGON)
    } else {
        None
    }
}

/// Decodes one character of the single-letter card notation.
pub fn tichu_one_char_to_card(c: char) -> (r: Option<CardIndex>)
    ensures
        r == tichu_one_card(c),
        r matches Some(card) ==> card < 64,
{
    if 'c' <= c && c <= 'z' {
        let k = (c as u32) - ('c' as u32);
        Some((k / 4 + 1 + 16 * (k % 4)) as u8)
    } else if 'A' <= c && c <= 'X' {
        let k = (c as u32) - ('A' as u32);
        Some((k / 4 + 7 + 16 * (k % 4)) as u8)
    } else if '1' <= c && c <= '4' {
        let k = (c as u32) - ('1' as u32);
        Some((13 + 16 * k) as u8)
    } else if c == 'a' {
        Some(DOG)
    } else if c == 'b' {
        Some(MAHJONG)
    } else if c == '5' {
        Some(PHOENIX)
    } else if c == '6' {
        Some(DRAGON)
    } else {
        None
    }
}

/// The hand of the cards written in the single-letter notation, or `None` when a
/// character is no card.
pub fn tichu_one_str_to_hand(hand_str: &str) -> (r: Option<Hand>)
    ensures
        r is Some <==> forall|i: int| 0 <= i < hand_str@.len() ==> tichu_one_card(#[trigger] hand_str@[i]) is Some,
        r matches Some(hand) ==> forall|c: u64| c < 64 ==> ((hand >> c) & 1u64 == 1u64 <==> exists|i: int|
            0 <= i < hand_str@.len() && tichu_one_card(hand_str@[i]) == Some(c as u8)),
{
    let n = hand_str.unicode_len();
    let mut hand: Hand = 0u64;
    let mut i: usize = 0;
    proof {
        assert forall|c: u64| c < 64 implies (0u64 >> c) & 1u64 != 1u64 by {
            assert((0u64 >> c) & 1u64 == 0u64) by (bit_vector);
        }
    }
    while i < n
        invariant
            n == hand_str@.len(),
            i <= n,
            forall|j: int| 0 <= j < i ==> tichu_one_card(#[trigger] hand_str@[j]) is Some,
            forall|c: u64| c < 64 ==> ((hand >> c) & 1u64 == 1u64 <==> exists|j: int| 0 <= j < i && tichu_one_card(hand_str@[j]) == Some(c as u8)),
        decreases n - i,
    {
        match tichu_one_char_to_card(hand_str.get_char(i)) {
            Some(card) => {
                let old_hand = hand;
                hand = hand | (1u64 << card);
                proof {
                    lemma_set_bit(old_hand, hand, card as u64);
                    assert forall|c: u64| c < 64 implies ((hand >> c) & 1u64 == 1u64 <==> exists|j: int| 0 <= j < i + 1 && tichu_one_card(hand_str@[j]) == Some(c as u8)) by {
                        if (hand >> c) & 1u64 == 1u64 {
                            if c == card as u64 {
                                assert(tichu_one_card(hand_str@[i as int]) == Some(c as u8));
                            } else {
                                let j = choose|j: int| 0 <= j < i && tichu_one_card(hand_str@[j]) == Some(c as u8);
                                assert(0 <= j < i + 1);
                            }
                        } else {
                            if exists|j: int| 0 <= j < i + 1 && tichu_one_card(hand_str@[j]) == Some(c as u8) {
                                let j = choose|j: int| 0 <= j < i + 1 && tichu_one_card(hand_str@[j]) == Some(c as u8);
                                if j == i {
                                    assert(c as u8 == card);
                                }
                            }
                        }
                    }
                }
            },
            None => {
                return None;
            },
        }
        i += 1;
    }
    Some(hand)
}

/// Setting bit `k` sets exactly that bit.
proof fn lemma_set_bit(before: u64, after: u64, k: u64)
    requires
        k < 64,
        after == before | (1u64 << k),
    ensures
        forall|c: u64| c < 64 ==> ((after >> c) & 1u64 == 1u64 <==> ((before >> c) & 1u64 == 1u64 || c == k)),
{
    assert forall|c: u64| c < 64 implies ((after >> c) & 1u64 == 1u64 <==> ((before >> c) & 1u64 == 1u64 || c == k)) by {
        assert((after >> c) & 1u64 == 1u64 <==> ((before >> c) & 1u64 == 1u64 || c == k)) by (bit_vector)
            requires
                c < 64,
                k < 64,
                after == before | (1u64 << k),
        ;
    }
}

/// The hand holding exactly the given cards.
pub fn hand_from_cards(cards: &[CardIndex]) -> (r: Hand)
    requires
        forall|i: int| 0 <= i < cards@.len() ==> cards@[i] < 64,
    ensures
        forall|c: u64| c < 64 ==> ((r >> c) & 1u64 == 1u64 <==> exists|i: int| 0 <= i < cards@.len() && cards@[i] == c),
{
    let mut hand: Hand = 0;
    let mut i: usize = 0;
    proof {
        assert forall|c: u64| c < 64 implies (0u64 >> c) & 1u64 != 1u64 by {
            assert((0u64 >> c) & 1u64 == 0u64) by (bit_vector);
        }
    }
    while i < cards.len()
        invariant
            i <= cards@.len(),
            forall|j: int| 0 <= j < cards@.len() ==> cards@[j] < 64,
            forall|c: u64| c < 64 ==> ((hand >> c) & 1u64 == 1u64 <==> exists|j: int| 0 <= j < i && cards@[j] == c),
        decreases cards@.len() - i,
    {
        let card = cards[i];
        let old_hand = hand;
        hand = hand | (1u64 << card);
        proof {
            lemma_set_bit(old_hand, hand, card as u64);
            assert forall|c: u64| c < 64 implies ((hand >> c) & 1u64 == 1u64 <==> exists|j: int| 0 <= j < i + 1 && cards@[j] == c) by {
                if (hand >> c) & 1u64 == 1u64 {
                    if c == card as u64 {
                        assert(cards@[i as int] == c);
                    } else {
                        let j = choose|j: int| 0 <= j < i && cards@[j] == c;
                        assert(0 <= j < i + 1 && cards@[j] == c);
                    }
                }
            }
        }
        i += 1;
    }
    hand
}

} // verus!
