use vstd::prelude::*;
use crate::bits::{popcount, lemma_popcount_bound, lemma_popcount_clear_lowest};
use crate::tichu_hand::lemma_lowest_card_in;
use vstd::std_specs::bits::u64_trailing_zeros;
use crate::tichu_hand::{classify_spec, in_deck};
use crate::bsw_binary_format::binary_format_constants::{PlayerIDInternal, teammate};
use crate::bsw_binary_format::round_log::{RoundLog, TaggedCardIndex, TaggedCardIndexT, SEPERATOR_NEW_MOVE, SEPERATOR_NEW_TRICK};
use crate::street_detection_tricks::phoenix_used_as_street_extension;
use crate::tichu_hand::{Hand, HandType, TichuHand, TrickType, DRAGON_BIT, MASK_ACES, MASK_ALL, MASK_NORMAL_CARDS, PHOENIX_BIT, SPECIAL_CARD, TRICK_BOMB4, TRICK_DOG, TRICK_FULLHOUSE, TRICK_STREET14, TRICK_STREET5, same_shape, four_of_kind_mask, fullhouse_spec};

verus! {

#[derive(Debug, Clone)]
pub enum TrickIntegrityError {
    EmptyTrickLog,
    DogTrickTooLong,
    /// Index of the move.
    EmptyPlayedHand(usize),
    HandNotAvailable { hand: String, available_hand: String, player: PlayerIDInternal, move_idx: usize },
    HandNoType(String, PlayerIDInternal, usize),
    HandWrongTrickType(String, PlayerIDInternal, usize, HandType, TrickType),
    TwiceInARowNoBomb(usize, PlayerIDInternal),
    ImplementationBug(usize, TrickType, HandType),
    HandTooSmall {
        hand: String,
        hand_type: HandType,
        prev_hand: String,
        prev_hand_type: HandType,
        move_idx: usize,
    },
}

/// One trick: its kind and the moves in order, each a seat and the cards it played.
#[derive(Default, Debug, Clone)]
pub struct Trick {
    pub trick_type: TrickType,
    pub trick_log: Vec<(PlayerIDInternal, Hand)>,
}

/// The union of the hands of the first `n` moves.
pub open spec fn played_upto(log: Seq<(u8, u64)>, n: int) -> u64
    decreases n,
{
    if n <= 0 {
        0
    } else {
        played_upto(log, n - 1) | log[n - 1].1
    }
}

/// The bytes of a move's cards, lowest card first, each the card index plus 64 times the
/// seat; `fuel` bounds the number of cards.
pub open spec fn card_bytes(player: u8, hand: u64, fuel: nat) -> Seq<u8>
    decreases fuel,
{
    if fuel == 0 || hand == 0 {
        Seq::empty()
    } else {
        seq![(u64_trailing_zeros(hand) + 64 * player) as u8] + card_bytes(player, hand & ((hand - 1) as u64), (fuel - 1) as nat)
    }
}

/// The bytes of one move: its cards, then the move separator.
pub open spec fn move_bytes(m: (u8, u64)) -> Seq<u8> {
    card_bytes(m.0, m.1, popcount(m.1)).push(SEPERATOR_NEW_MOVE)
}

/// The bytes of a sequence of moves.
pub open spec fn moves_bytes(ms: Seq<(u8, u64)>) -> Seq<u8>
    decreases ms.len(),
{
    if ms.len() == 0 {
        Seq::empty()
    } else {
        moves_bytes(ms.drop_last()) + move_bytes(ms.last())
    }
}

/// The bytes of a trick: the trick separator, the kind, then the moves.
pub open spec fn trick_bytes(trick_type: u8, ms: Seq<(u8, u64)>) -> Seq<u8> {
    seq![SEPERATOR_NEW_TRICK, trick_type] + moves_bytes(ms)
}

pub proof fn lemma_moves_bytes_push(ms: Seq<(u8, u64)>, i: int)
    requires
        0 <= i < ms.len(),
    ensures
        moves_bytes(ms.subrange(0, i + 1)) == moves_bytes(ms.subrange(0, i)) + move_bytes(ms[i]),
{
    assert(ms.subrange(0, i + 1).drop_last() =~= ms.subrange(0, i));
}

/// A move that a log can hold: a seat and a nonempty hand of the deck.
pub open spec fn move_wf(m: (u8, u64)) -> bool {
    m.0 < 4 && m.1 != 0 && in_deck(m.1)
}

/// The bytes of `log` from `pos` on begin with those of the move.
pub open spec fn move_at(log: Seq<u8>, pos: int, m: (u8, u64)) -> bool {
    &&& 0 <= pos
    &&& pos + move_bytes(m).len() <= log.len()
    &&& log.subrange(pos, pos + move_bytes(m).len()) == move_bytes(m)
}

/// The bytes of `log` from `pos` on are those of a trick, followed by the end of the log
/// or the next trick.
pub open spec fn trick_at(log: Seq<u8>, pos: int, trick_type: u8, ms: Seq<(u8, u64)>) -> bool {
    let len = trick_bytes(trick_type, ms).len();
    &&& forall|i: int| 0 <= i < ms.len() ==> #[trigger] move_wf(ms[i])
    &&& 0 <= pos
    &&& pos + len <= log.len()
    &&& log.subrange(pos, pos + len) == trick_bytes(trick_type, ms)
    &&& (pos + len == log.len() || log[pos + len] == SEPERATOR_NEW_TRICK)
}

pub proof fn lemma_card_bytes_len(player: u8, hand: u64, fuel: nat)
    requires
        fuel == popcount(hand),
    ensures
        card_bytes(player, hand, fuel).len() == fuel,
    decreases fuel,
{
    if fuel > 0 && hand != 0 {
        lemma_popcount_clear_lowest(hand);
        lemma_card_bytes_len(player, hand & ((hand - 1) as u64), (fuel - 1) as nat);
    } else if hand == 0 {
        reveal_with_fuel(popcount, 1);
    } else {
        lemma_popcount_bound(hand);
    }
}

/// The bytes of the first `j` moves begin the bytes of all moves.
pub proof fn lemma_moves_bytes_prefix(ms: Seq<(u8, u64)>, j: int)
    requires
        0 <= j <= ms.len(),
    ensures
        moves_bytes(ms.subrange(0, j)).len() <= moves_bytes(ms).len(),
        moves_bytes(ms).subrange(0, moves_bytes(ms.subrange(0, j)).len() as int) == moves_bytes(
            ms.subrange(0, j),
        ),
    decreases ms.len() - j,
{
    if j == ms.len() {
        assert(ms.subrange(0, j) =~= ms);
        assert(moves_bytes(ms).subrange(0, moves_bytes(ms).len() as int) =~= moves_bytes(ms));
    } else {
        lemma_moves_bytes_prefix(ms, j + 1);
        lemma_moves_bytes_push(ms, j);
        let a = moves_bytes(ms.subrange(0, j));
        let b = moves_bytes(ms.subrange(0, j + 1));
        assert(moves_bytes(ms).subrange(0, a.len() as int) =~= b.subrange(0, a.len() as int));
        assert(b.subrange(0, a.len() as int) =~= a);
    }
}

/// No byte of a move's cards is a separator.
pub proof fn lemma_card_bytes_no_separator(player: u8, hand: u64, fuel: nat)
    requires
        player < 4,
        in_deck(hand),
    ensures
        forall|k: int| 0 <= k < card_bytes(player, hand, fuel).len() ==> #[trigger] card_bytes(player, hand, fuel)[k]
            != SEPERATOR_NEW_MOVE && card_bytes(player, hand, fuel)[k] != SEPERATOR_NEW_TRICK,
    decreases fuel,
{
    if fuel > 0 && hand != 0 {
        let c = u64_trailing_zeros(hand);
        lemma_lowest_card_in(hand, MASK_ALL);
        assert(c != 14 && c != 15) by (bit_vector)
            requires
                c < 64,
                (MASK_ALL >> c) & 1u64 == 1u64,
        ;
        let rest = hand & ((hand - 1) as u64);
        assert(rest & MASK_ALL == rest) by (bit_vector)
            requires
                hand & MASK_ALL == hand,
                rest == hand & ((hand - 1) as u64),
        ;
        lemma_card_bytes_no_separator(player, rest, (fuel - 1) as nat);
        let s = card_bytes(player, hand, fuel);
        assert forall|k: int| 0 <= k < s.len() implies #[trigger] s[k] != SEPERATOR_NEW_MOVE && s[k] != SEPERATOR_NEW_TRICK by {
            if k > 0 {
                assert(s[k] == card_bytes(player, rest, (fuel - 1) as nat)[k - 1]);
            }
        }
    }
}

/// The cards of a move are determined by their bytes.
pub proof fn lemma_card_bytes_injective(p1: u8, h1: u64, p2: u8, h2: u64)
    requires
        p1 < 4,
        p2 < 4,
        h1 != 0,
        h2 != 0,
        card_bytes(p1, h1, popcount(h1)) == card_bytes(p2, h2, popcount(h2)),
    ensures
        p1 == p2,
        h1 == h2,
    decreases popcount(h1),
{
    lemma_popcount_bound(h1);
    lemma_popcount_bound(h2);
    lemma_popcount_clear_lowest(h1);
    lemma_popcount_clear_lowest(h2);
    let c1 = u64_trailing_zeros(h1);
    let c2 = u64_trailing_zeros(h2);
    let r1 = h1 & ((h1 - 1) as u64);
    let r2 = h2 & ((h2 - 1) as u64);
    let s1 = card_bytes(p1, h1, popcount(h1));
    let s2 = card_bytes(p2, h2, popcount(h2));
    assert(s1[0] == s2[0]);
    assert((c1 + 64 * p1) / 64 == p1 && (c1 + 64 * p1) % 64 == c1 && (c2 + 64 * p2) / 64 == p2 && (c2
        + 64 * p2) % 64 == c2) by (nonlinear_arith)
        requires
            c1 < 64,
            c2 < 64,
    ;
    assert(s1.drop_first() =~= card_bytes(p1, r1, popcount(r1)));
    assert(s2.drop_first() =~= card_bytes(p2, r2, popcount(r2)));
    lemma_card_bytes_len(p1, r1, popcount(r1));
    lemma_card_bytes_len(p2, r2, popcount(r2));
    if r1 != 0 && r2 != 0 {
        lemma_card_bytes_injective(p1, r1, p2, r2);
    } else if r1 == 0 && r2 != 0 {
        lemma_popcount_bound(r2);
        reveal_with_fuel(popcount, 1);
    } else if r1 != 0 && r2 == 0 {
        lemma_popcount_bound(r1);
        reveal_with_fuel(popcount, 1);
    }
    let c = c1 as u64;
    assert((h1 >> c) & 1u64 == 1u64 && h1 << ((64 - c) as u64) == 0);
    assert((h2 >> c) & 1u64 == 1u64 && h2 << ((64 - c) as u64) == 0);
    assert(h1 == h2) by (bit_vector)
        requires
            c < 64,
            (h1 >> c) & 1u64 == 1u64,
            h1 << ((64 - c) as u64) == 0,
            (h2 >> c) & 1u64 == 1u64,
            h2 << ((64 - c) as u64) == 0,
            h1 & ((h1 - 1) as u64) == h2 & ((h2 - 1) as u64),
            h1 != 0,
            h2 != 0,
    ;
}

/// The bytes of a nonempty sequence of moves begin with those of its first move.
pub proof fn lemma_moves_bytes_front(ms: Seq<(u8, u64)>)
    requires
        ms.len() > 0,
    ensures
        moves_bytes(ms) == move_bytes(ms[0]) + moves_bytes(ms.drop_first()),
    decreases ms.len(),
{
    if ms.len() == 1 {
        assert(ms.drop_first() =~= Seq::<(u8, u64)>::empty());
        assert(ms.drop_last() =~= Seq::<(u8, u64)>::empty());
        assert(moves_bytes(ms.drop_last()) == Seq::<u8>::empty());
        assert(moves_bytes(ms.drop_first()) == Seq::<u8>::empty());
        assert(ms.last() == ms[0]);
        assert(moves_bytes(ms) =~= move_bytes(ms[0]));
    } else {
        lemma_moves_bytes_front(ms.drop_last());
        assert(ms.drop_last().drop_first() =~= ms.drop_first().drop_last());
        assert(ms.drop_first().last() == ms.last());
        assert(moves_bytes(ms) =~= move_bytes(ms[0]) + moves_bytes(ms.drop_first()));
    }
}

/// Facts on the bytes of a move of the deck: their number, the final move separator, and
/// no separator before it.
proof fn lemma_move_bytes_shape(m: (u8, u64))
    requires
        move_wf(m),
    ensures
        move_bytes(m).len() == popcount(m.1) + 1,
        move_bytes(m).len() >= 2,
        move_bytes(m).last() == SEPERATOR_NEW_MOVE,
        forall|k: int| 0 <= k < move_bytes(m).len() - 1 ==> #[trigger] move_bytes(m)[k] != SEPERATOR_NEW_MOVE
            && move_bytes(m)[k] != SEPERATOR_NEW_TRICK,
{
    lemma_card_bytes_len(m.0, m.1, popcount(m.1));
    lemma_card_bytes_no_separator(m.0, m.1, popcount(m.1));
    lemma_popcount_bound(m.1);
    let s = card_bytes(m.0, m.1, popcount(m.1));
    assert forall|k: int| 0 <= k < move_bytes(m).len() - 1 implies #[trigger] move_bytes(m)[k]
        != SEPERATOR_NEW_MOVE && move_bytes(m)[k] != SEPERATOR_NEW_TRICK by {
        assert(move_bytes(m)[k] == s[k]);
    }
}

/// A run of moves, ended by the end of the log or a trick separator, is determined by the
/// bytes of the log.
proof fn lemma_moves_unique(log: Seq<u8>, q: int, ms1: Seq<(u8, u64)>, ms2: Seq<(u8, u64)>)
    requires
        0 <= q,
        forall|i: int| 0 <= i < ms1.len() ==> #[trigger] move_wf(ms1[i]),
        forall|i: int| 0 <= i < ms2.len() ==> #[trigger] move_wf(ms2[i]),
        q + moves_bytes(ms1).len() <= log.len(),
        q + moves_bytes(ms2).len() <= log.len(),
        log.subrange(q, q + moves_bytes(ms1).len()) == moves_bytes(ms1),
        log.subrange(q, q + moves_bytes(ms2).len()) == moves_bytes(ms2),
        q + moves_bytes(ms1).len() == log.len() || log[q + moves_bytes(ms1).len()] == SEPERATOR_NEW_TRICK,
        q + moves_bytes(ms2).len() == log.len() || log[q + moves_bytes(ms2).len()] == SEPERATOR_NEW_TRICK,
    ensures
        ms1 == ms2,
    decreases ms1.len(),
{
    if ms1.len() == 0 && ms2.len() == 0 {
        assert(ms1 =~= ms2);
    } else if ms1.len() == 0 {
        assert(moves_bytes(ms1).len() == 0);
        lemma_moves_bytes_front(ms2);
        assert(move_wf(ms2[0]));
        lemma_move_bytes_shape(ms2[0]);
        assert(log[q] == moves_bytes(ms2)[0]);
        assert(moves_bytes(ms2)[0] == move_bytes(ms2[0])[0]);
    } else if ms2.len() == 0 {
        assert(moves_bytes(ms2).len() == 0);
        lemma_moves_bytes_front(ms1);
        assert(move_wf(ms1[0]));
        lemma_move_bytes_shape(ms1[0]);
        assert(log[q] == moves_bytes(ms1)[0]);
        assert(moves_bytes(ms1)[0] == move_bytes(ms1[0])[0]);
    } else {
        lemma_moves_bytes_front(ms1);
        lemma_moves_bytes_front(ms2);
        let m1 = ms1[0];
        let m2 = ms2[0];
        assert(move_wf(m1));
        assert(move_wf(m2));
        lemma_move_bytes_shape(m1);
        lemma_move_bytes_shape(m2);
        let b1 = move_bytes(m1);
        let b2 = move_bytes(m2);
        let l1 = b1.len() as int;
        let l2 = b2.len() as int;
        assert forall|k: int| 0 <= k < l1 implies log[q + k] == #[trigger] b1[k] by {
            assert(log[q + k] == log.subrange(q, q + moves_bytes(ms1).len())[k]);
        }
        assert forall|k: int| 0 <= k < l2 implies log[q + k] == #[trigger] b2[k] by {
            assert(log[q + k] == log.subrange(q, q + moves_bytes(ms2).len())[k]);
        }
        if l1 < l2 {
            assert(b1[l1 - 1] == SEPERATOR_NEW_MOVE);
            assert(b2[l1 - 1] != SEPERATOR_NEW_MOVE);
        }
        if l2 < l1 {
            assert(b2[l2 - 1] == SEPERATOR_NEW_MOVE);
            assert(b1[l2 - 1] != SEPERATOR_NEW_MOVE);
        }
        assert(b1 =~= b2);
        assert(b1.drop_last() =~= card_bytes(m1.0, m1.1, popcount(m1.1)));
        assert(b2.drop_last() =~= card_bytes(m2.0, m2.1, popcount(m2.1)));
        lemma_card_bytes_injective(m1.0, m1.1, m2.0, m2.1);
        let rest1 = ms1.drop_first();
        let rest2 = ms2.drop_first();
        assert(log.subrange(q + l1, q + l1 + moves_bytes(rest1).len()) =~= log.subrange(q, q + moves_bytes(ms1).len()).subrange(l1, moves_bytes(ms1).len() as int));
        assert(log.subrange(q + l1, q + l1 + moves_bytes(rest2).len()) =~= log.subrange(q, q + moves_bytes(ms2).len()).subrange(l1, moves_bytes(ms2).len() as int));
        assert forall|i: int| 0 <= i < rest1.len() implies #[trigger] move_wf(rest1[i]) by {
            assert(move_wf(ms1[i + 1]));
        }
        assert forall|i: int| 0 <= i < rest2.len() implies #[trigger] move_wf(rest2[i]) by {
            assert(move_wf(ms2[i + 1]));
        }
        assert(moves_bytes(ms1).subrange(l1, moves_bytes(ms1).len() as int) =~= moves_bytes(rest1));
        assert(moves_bytes(ms2).subrange(l1, moves_bytes(ms2).len() as int) =~= moves_bytes(rest2));
        lemma_moves_unique(log, q + l1, rest1, rest2);
        assert(ms1 =~= ms2) by {
            assert(ms1 =~= seq![m1] + rest1);
            assert(ms2 =~= seq![m2] + rest2);
        }
    }
}

/// A log holds at most one trick at a position: its kind and moves are determined by the
/// bytes.
pub proof fn lemma_trick_at_unique(log: Seq<u8>, pos: int, ty1: u8, ms1: Seq<(u8, u64)>, ty2: u8, ms2: Seq<(u8, u64)>)
    requires
        trick_at(log, pos, ty1, ms1),
        trick_at(log, pos, ty2, ms2),
    ensures
        ty1 == ty2,
        ms1 == ms2,
{
    let l1 = trick_bytes(ty1, ms1).len() as int;
    let l2 = trick_bytes(ty2, ms2).len() as int;
    assert(log[pos + 1] == log.subrange(pos, pos + l1)[1]);
    assert(log[pos + 1] == log.subrange(pos, pos + l2)[1]);
    assert(log.subrange(pos + 2, pos + l1) =~= log.subrange(pos, pos + l1).subrange(2, l1));
    assert(log.subrange(pos + 2, pos + l2) =~= log.subrange(pos, pos + l2).subrange(2, l2));
    assert(trick_bytes(ty1, ms1).subrange(2, l1) =~= moves_bytes(ms1));
    assert(trick_bytes(ty2, ms2).subrange(2, l2) =~= moves_bytes(ms2));
    lemma_moves_unique(log, pos + 2, ms1, ms2);
}

/// What `serialize_into` appends is read back by `next_trick` as the same trick: the
/// appended bytes, at the end of the log, are those of that trick and of no other.
pub proof fn lemma_trick_round_trip(prefix: Seq<u8>, ty: u8, ms: Seq<(u8, u64)>)
    requires
        forall|i: int| 0 <= i < ms.len() ==> #[trigger] move_wf(ms[i]),
    ensures
        trick_at(prefix + trick_bytes(ty, ms), prefix.len() as int, ty, ms),
        forall|ty2: u8, ms2: Seq<(u8, u64)>| #[trigger] trick_at(prefix + trick_bytes(ty, ms), prefix.len() as int, ty2, ms2)
            ==> ty2 == ty && ms2 == ms,
{
    let log = prefix + trick_bytes(ty, ms);
    let n = prefix.len() as int;
    assert(log.subrange(n, n + trick_bytes(ty, ms).len()) =~= trick_bytes(ty, ms));
    assert forall|ty2: u8, ms2: Seq<(u8, u64)>| #[trigger] trick_at(log, n, ty2, ms2) implies ty2 == ty && ms2 == ms by {
        lemma_trick_at_unique(log, n, ty, ms, ty2, ms2);
    }
}

/// The hands of the four seats after the first `n` moves have left them.
pub open spec fn hands_after(hands: Seq<u64>, log: Seq<(u8, u64)>, n: int) -> Seq<u64>
    decreases n,
{
    if n <= 0 {
        hands
    } else {
        let prev = hands_after(hands, log, n - 1);
        let (player, hand) = log[n - 1];
        prev.update(player as int, prev[player as int] ^ hand)
    }
}

/// Move `i` is a legal combination that its seat held at that point.
pub open spec fn move_ok(hands: Seq<u64>, log: Seq<(u8, u64)>, i: int) -> bool {
    let (player, hand) = log[i];
    &&& hand & hands_after(hands, log, i)[player as int] == hand
    &&& in_deck(hand)
    &&& 1 <= popcount(hand) <= 14
    &&& classify_spec(hand) is Some
}

/// Whether two shapes are comparable; see `same_shape`.
fn is_same_shape(a: &HandType, b: &HandType) -> (r: bool)
    ensures
        r == same_shape(*a, *b),
{
    match (a, b) {
        (HandType::Singleton(_, _), HandType::Singleton(_, _)) => true,
        (HandType::Pairs(_), HandType::Pairs(_)) => true,
        (HandType::Triplets(_), HandType::Triplets(_)) => true,
        (HandType::PairStreet(_, s), HandType::PairStreet(_, s2)) => *s == *s2,
        (HandType::Street(_, s), HandType::Street(_, s2)) => *s == *s2,
        (HandType::FullHouse(_, _), HandType::FullHouse(_, _)) => true,
        (HandType::Bomb4(_), HandType::Bomb4(_)) => true,
        (HandType::BombStreet(_, s), HandType::BombStreet(_, s2)) => *s == *s2,
        _ => false,
    }
}

impl Trick {
    /// Every move is made by a seat 0 to 3.
    pub open spec fn players_ok(&self) -> bool {
        forall|i: int| 0 <= i < self.trick_log@.len() ==> #[trigger] self.trick_log@[i].0 < 4
    }

    /// Appends the trick to a log: the trick separator and the trick kind, then for each
    /// move its cards, lowest first, each tagged with the seat, and a move separator.
    pub fn serialize_into(&self, round_log: &mut RoundLog)
        requires
            self.players_ok(),
        ensures
            final(round_log).mahjong_wish == old(round_log).mahjong_wish,
            final(round_log).dragon_player_gift == old(round_log).dragon_player_gift,
            final(round_log).log@ == old(round_log).log@ + trick_bytes(self.trick_type, self.trick_log@),
    {
        let ghost start = round_log.log@;
        round_log.log.push(SEPERATOR_NEW_TRICK);
        round_log.log.push(self.trick_type);
        let mut i: usize = 0;
        while i < self.trick_log.len()
            invariant
                self.players_ok(),
                i <= self.trick_log@.len(),
                round_log.log@ == start + seq![SEPERATOR_NEW_TRICK, self.trick_type] + moves_bytes(
                    self.trick_log@.subrange(0, i as int),
                ),
                round_log.mahjong_wish == old(round_log).mahjong_wish,
                round_log.dragon_player_gift == old(round_log).dragon_player_gift,
                start == old(round_log).log@,
            decreases self.trick_log@.len() - i,
        {
            let (player, hand) = self.trick_log[i];
            assert(self.trick_log@[i as int].0 < 4);
            let ghost base = round_log.log@;
            let mut rest = hand;
            while rest != 0u64
                invariant
                    player < 4,
                    round_log.log@ + card_bytes(player, rest, popcount(rest)) == base + card_bytes(
                        player,
                        hand,
                        popcount(hand),
                    ),
                    round_log.mahjong_wish == old(round_log).mahjong_wish,
                    round_log.dragon_player_gift == old(round_log).dragon_player_gift,
                decreases popcount(rest),
            {
                let ghost before = round_log.log@;
                let ghost r0 = rest;
                let card = rest.pop_some_card();
                let tagged = <TaggedCardIndex as TaggedCardIndexT>::construct(player, card);
                round_log.log.push(tagged);
                proof {
                    assert(card_bytes(player, r0, popcount(r0)) == seq![tagged] + card_bytes(player, rest, popcount(rest)));
                    assert(round_log.log@ + card_bytes(player, rest, popcount(rest)) =~= before + card_bytes(player, r0, popcount(r0)));
                }
            }
            let ghost after_cards = round_log.log@;
            round_log.log.push(SEPERATOR_NEW_MOVE);
            proof {
                assert(after_cards =~= base + card_bytes(player, hand, popcount(hand)));
                lemma_moves_bytes_push(self.trick_log@, i as int);
                assert(round_log.log@ =~= start + seq![SEPERATOR_NEW_TRICK, self.trick_type] + moves_bytes(
                    self.trick_log@.subrange(0, i + 1)));
            }
            i += 1;
        }
        proof {
            assert(self.trick_log@.subrange(0, self.trick_log@.len() as int) =~= self.trick_log@);
        }
    }

    /// Replays the trick on the hands of the four seats and checks it: at least one
    /// move, a dog alone in its trick, no empty move, every move held by its player
    /// and a legal combination that fits the trick, no seat twice in a row unless with a
    /// bomb, and each move of the trick's kind beating the one before.  The played cards
    /// leave the hands.
    pub fn integrity_check(&self, player_hands: &mut [Hand; 4]) -> (r: Result<(), TrickIntegrityError>)
        requires
            self.players_ok(),
        ensures
            (r matches Err(TrickIntegrityError::EmptyTrickLog)) <==> self.trick_log@.len() == 0,
            (r matches Err(TrickIntegrityError::DogTrickTooLong)) <==> (self.trick_log@.len() > 0
                && self.trick_type == TRICK_DOG && self.trick_log@.len() != 1),
            r matches Err(TrickIntegrityError::EmptyPlayedHand(i)) ==> i < self.trick_log@.len()
                && self.trick_log@[i as int].1 == 0,
            r is Ok ==> self.trick_log@.len() > 0 && forall|i: int|
                0 <= i < self.trick_log@.len() ==> #[trigger] self.trick_log@[i].1 != 0,
            r is Ok ==> forall|i: int| 0 <= i < self.trick_log@.len() ==> #[trigger] move_ok(old(player_hands)@, self.trick_log@, i),
            (r matches Err(TrickIntegrityError::EmptyTrickLog) || r matches Err(
                TrickIntegrityError::DogTrickTooLong,
            ) || r matches Err(TrickIntegrityError::EmptyPlayedHand(_))) ==> final(player_hands)@
                == old(player_hands)@,
            r is Ok ==> final(player_hands)@ == hands_after(old(player_hands)@, self.trick_log@, self.trick_log@.len() as int),
    {
        let n = self.trick_log.len();
        if n == 0 {
            return Err(TrickIntegrityError::EmptyTrickLog);
        }
        if self.trick_type == TRICK_DOG && n != 1 {
            return Err(TrickIntegrityError::DogTrickTooLong);
        }
        let mut i: usize = 0;
        while i < n
            invariant
                n == self.trick_log@.len(),
                n > 0,
                i <= n,
                !(self.trick_type == TRICK_DOG && n != 1),
                forall|j: int| 0 <= j < i ==> #[trigger] self.trick_log@[j].1 != 0,
            decreases n - i,
        {
            if self.trick_log[i].1 == 0 {
                return Err(TrickIntegrityError::EmptyPlayedHand(i));
            }
            i += 1;
        }
        let mut prev_player: Option<PlayerIDInternal> = None;
        let mut trick_type = self.trick_type;
        let mut prev_hand: Option<HandType> = None;
        let mut move_idx: usize = 0;
        while move_idx < n
            invariant
                n == self.trick_log@.len(),
                n > 0,
                move_idx <= n,
                self.players_ok(),
                forall|j: int| 0 <= j < n ==> #[trigger] self.trick_log@[j].1 != 0,
                prev_hand is Some ==> move_idx >= 1,
                !(self.trick_type == TRICK_DOG && n != 1),
                player_hands@ == hands_after(old(player_hands)@, self.trick_log@, move_idx as int),
                player_hands@.len() == 4,
                forall|j: int| 0 <= j < move_idx ==> #[trigger] move_ok(old(player_hands)@, self.trick_log@, j),
            decreases n - move_idx,
        {
            let (player, hand) = self.trick_log[move_idx];
            assert(self.trick_log@[move_idx as int].0 < 4);
            let p = player as usize;
            if hand & player_hands[p] != hand {
                return Err(TrickIntegrityError::HandNotAvailable {
                    hand: hand.pretty_print(),
                    available_hand: player_hands[p].pretty_print(),
                    player,
                    move_idx,
                });
            }
            player_hands[p] = player_hands[p] ^ hand;
            proof {
                lemma_popcount_bound(hand);
            }
            if hand & MASK_ALL != hand || hand.count_ones() > 14 {
                return Err(TrickIntegrityError::HandNoType(hand.pretty_print(), player, move_idx));
            }
            let hand_type = match hand.hand_type() {
                Some(t) => t,
                None => {
                    return Err(TrickIntegrityError::HandNoType(hand.pretty_print(), player, move_idx));
                },
            };
            if !hand_type.matches_trick_type(trick_type) {
                return Err(TrickIntegrityError::HandWrongTrickType(hand.pretty_print(), player, move_idx, hand_type, trick_type));
            }
            let new_trick_type = hand_type.get_trick_type();
            if prev_player == Some(player) && new_trick_type < TRICK_BOMB4 {
                return Err(TrickIntegrityError::TwiceInARowNoBomb(move_idx, player));
            }
            if trick_type == new_trick_type {
                if let Some(prev) = prev_hand {
                    let mut prev_hand_type = prev;
                    let prev_cards = self.get_hand(move_idx - 1);
                    // a phoenix that lengthened the previous street may have been played
                    // at its bottom instead of its top
                    if trick_type >= TRICK_STREET5 && trick_type <= TRICK_STREET14
                        && phoenix_used_as_street_extension(prev_cards) {
                        if let HandType::Street(lowest_card, length) = prev_hand_type {
                            if lowest_card > SPECIAL_CARD && prev_cards & MASK_ACES == 0 {
                                prev_hand_type = HandType::Street(lowest_card - 1, length);
                            }
                        } else {
                            return Err(TrickIntegrityError::ImplementationBug(move_idx, trick_type, prev_hand_type));
                        }
                    }
                    // with two pairs and the phoenix, the phoenix may have joined either pair
                    if trick_type == TRICK_FULLHOUSE && Trick::hand_is_two_pairs_plus_phoenix(prev_cards) {
                        if let HandType::FullHouse(lower_card, higher_card) = prev_hand_type {
                            prev_hand_type = HandType::FullHouse(higher_card, lower_card);
                        } else {
                            return Err(TrickIntegrityError::ImplementationBug(move_idx, trick_type, prev_hand_type));
                        }
                    }
                    if !is_same_shape(&hand_type, &prev_hand_type) {
                        return Err(TrickIntegrityError::ImplementationBug(move_idx, trick_type, prev_hand_type));
                    }
                    if !hand_type.is_bigger_than_same_handtype(&prev_hand_type) {
                        return Err(TrickIntegrityError::HandTooSmall {
                            hand: hand.pretty_print(),
                            hand_type,
                            prev_hand: prev_cards.pretty_print(),
                            prev_hand_type,
                            move_idx,
                        });
                    }
                }
            }
            trick_type = new_trick_type;
            prev_hand = Some(hand_type);
            prev_player = Some(player);
            move_idx += 1;
        }
        Ok(())
    }

    /// The seat of a move.
    pub fn get_player(&self, index: usize) -> (r: PlayerIDInternal)
        requires
            index < self.trick_log@.len(),
        ensures
            r == self.trick_log@[index as int].0,
    {
        self.trick_log[index].0
    }

    /// The cards of a move.
    pub fn get_hand(&self, index: usize) -> (r: Hand)
        requires
            index < self.trick_log@.len(),
        ensures
            r == self.trick_log@[index as int].1,
    {
        self.trick_log[index].1
    }

    /// All cards played in the trick.
    pub fn played_cards(&self) -> (r: Hand)
        ensures
            r == played_upto(self.trick_log@, self.trick_log@.len() as int),
    {
        let mut acc: Hand = 0;
        let mut i: usize = 0;
        while i < self.trick_log.len()
            invariant
                i <= self.trick_log@.len(),
                acc == played_upto(self.trick_log@, i as int),
            decreases self.trick_log@.len() - i,
        {
            acc = acc | self.trick_log[i].1;
            i += 1;
        }
        acc
    }

    /// The trick ends with the dragon alone, so its winner has to give it away.
    pub fn has_to_gift_trick(&self) -> (r: bool)
        requires
            self.trick_log@.len() > 0,
        ensures
            r == (self.trick_log@.last().1 == DRAGON_BIT),
    {
        self.get_hand(self.trick_log.len() - 1) == DRAGON_BIT
    }

    /// The seat that opened the trick.
    pub fn get_starting_player(&self) -> (r: PlayerIDInternal)
        requires
            self.trick_log@.len() > 0,
        ensures
            r == self.trick_log@[0].0,
    {
        self.get_player(0)
    }

    /// The seat that takes the trick: the last one to play, or for the dog the teammate
    /// of the seat that played it.
    pub fn get_trick_winner(&self) -> (r: PlayerIDInternal)
        requires
            self.trick_log@.len() > 0,
            self.players_ok(),
        ensures
            self.trick_type == TRICK_DOG ==> r == teammate(self.trick_log@[0].0),
            self.trick_type != TRICK_DOG ==> r == self.trick_log@.last().0,
            r < 4,
    {
        if self.trick_type == TRICK_DOG {
            let start = self.get_starting_player();
            assert(self.trick_log@[0].0 < 4);
            (start + 2) % 4
        } else {
            let last = self.get_player(self.trick_log.len() - 1);
            assert(self.trick_log@[self.trick_log@.len() - 1].0 < 4);
            last
        }
    }

    /// A full house of two true pairs and the phoenix; false for any hand that is no
    /// full house.
    pub fn hand_is_two_pairs_plus_phoenix(hand: Hand) -> (r: bool)
        ensures
            r ==> hand & MASK_ALL == hand && hand & PHOENIX_BIT != 0 && fullhouse_spec(hand) is Some,
    {
        if hand & MASK_ALL != hand {
            return false;
        }
        if hand.is_fullhouse().is_none() {
            return false;
        }
        if hand & PHOENIX_BIT == 0 {
            return false;
        }
        let normals = hand & MASK_NORMAL_CARDS;
        let true_pairs: Hand = ((normals >> 16u64) | (normals >> 32u64) | (normals >> 48u64))
            & normals;
        if true_pairs == 0 {
            return false;
        }
        let pair_one_card = (true_pairs.get_lsb_card()) % 16;
        if pair_one_card == 0 || pair_one_card > 13 {
            return false;
        }
        let rest = true_pairs & !four_of_kind_mask(pair_one_card);
        rest != 0
    }
}

} // verus!
