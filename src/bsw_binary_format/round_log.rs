use vstd::prelude::*;
use vstd::string::StringExecFns;
use crate::bits::popcount;
use crate::bsw_binary_format::binary_format_constants::{PlayerIDInternal, Rank, Score, PLAYER_0, PLAYER_1, PLAYER_2, PLAYER_3, RANK_1, RANK_2, RANK_3, RANK_4};
use crate::bsw_binary_format::round::Round;
use crate::bsw_binary_format::trick::{Trick, TrickIntegrityError, move_wf, move_at, move_bytes, moves_bytes, card_bytes, trick_bytes, trick_at, lemma_card_bytes_len, lemma_moves_bytes_prefix, lemma_moves_bytes_push};
use crate::bits::{lemma_popcount_clear_lowest, lemma_popcount_bound};
use crate::tichu_hand::lemma_lowest_card_in;
use vstd::std_specs::bits::u64_trailing_zeros;
use crate::tichu_hand::{CardIndex, Hand, TichuHand, push_decimal, in_deck, MASK_ALL};
use crate::bsw_binary_format::player_round_hand::lemma_and_le;

verus! {

/// The moves of one round as bytes: a trick separator, the trick kind, then the moves,
/// each a run of tagged cards closed by a move separator.
#[derive(Default, Debug, Clone)]
pub struct RoundLog {
    pub mahjong_wish: Option<CardIndex>,
    pub dragon_player_gift: Option<PlayerIDInternal>,
    pub log: Vec<u8>,
}

/// A card index in the low six bits, the seat that played it in the top two.
pub type TaggedCardIndex = u8;

pub trait TaggedCardIndexT: Sized {
    spec fn tag_bits(&self) -> u8;

    fn construct(player: PlayerIDInternal, card_index: CardIndex) -> (r: Self)
        requires
            player < 4,
            card_index < 64,
        ensures
            r.tag_bits() == card_index + 64 * player,
    ;

    fn get_player(&self) -> (r: PlayerIDInternal)
        ensures
            r == self.tag_bits() / 64,
            r < 4,
    ;

    fn get_card(&self) -> (r: CardIndex)
        ensures
            r == self.tag_bits() % 64,
            r < 64,
    ;
}

impl TaggedCardIndexT for TaggedCardIndex {
    open spec fn tag_bits(&self) -> u8 {
        *self
    }

    fn construct(player: PlayerIDInternal, card_index: CardIndex) -> (r: Self) {
        card_index + 64 * player
    }

    fn get_player(&self) -> (r: PlayerIDInternal) {
        *self / 64
    }

    fn get_card(&self) -> (r: CardIndex) {
        *self % 64
    }
}

/// A hand with the seat that played it in bits 14 and 15, which hold no card.
pub type TaggedHand = u64;

pub trait TaggedHandT: Sized {
    spec fn tagged_bits(&self) -> u64;

    fn construct(player: PlayerIDInternal, hand: Hand) -> (r: Self)
        requires
            player < 4,
        ensures
            r.tagged_bits() == hand | ((player as u64) << 14u64),
    ;

    fn get_player(&self) -> (r: PlayerIDInternal)
        ensures
            r as u64 == (self.tagged_bits() >> 14u64) & 3u64,
            r < 4,
    ;

    fn get_hand(&self) -> (r: Hand)
        ensures
            r == self.tagged_bits() & MASK_ALL,
    ;
}

impl TaggedHandT for TaggedHand {
    open spec fn tagged_bits(&self) -> u64 {
        *self
    }

    fn construct(player: PlayerIDInternal, hand: Hand) -> (r: Self) {
        hand | ((player as u64) << 14u64)
    }

    fn get_player(&self) -> (r: PlayerIDInternal) {
        proof {
            lemma_and_le(*self >> 14u64, 3u64);
        }
        ((*self >> 14u64) & 3u64) as PlayerIDInternal
    }

    fn get_hand(&self) -> (r: Hand) {
        *self & MASK_ALL
    }
}

/// Tagging a hand of the deck keeps both the hand and the seat.
pub proof fn lemma_tagged_hand_round_trip(player: u8, hand: u64)
    requires
        player < 4,
        in_deck(hand),
    ensures
        ((hand | ((player as u64) << 14u64)) >> 14u64) & 3u64 == player as u64,
        (hand | ((player as u64) << 14u64)) & MASK_ALL == hand,
{
    let p = player as u64;
    assert(((hand | (p << 14u64)) >> 14u64) & 3u64 == p && (hand | (p << 14u64)) & MASK_ALL == hand)
        by (bit_vector)
        requires
            p < 4,
            hand & MASK_ALL == hand,
    ;
}

/// Opens a trick; the trick kind follows.
pub const SEPERATOR_NEW_TRICK: u8 = 14;

/// Closes a move.
pub const SEPERATOR_NEW_MOVE: u8 = 15;

/// Reads the tricks of a log one by one.
pub struct RoundLogIterator<'a> {
    round_log: &'a RoundLog,
    current_index: usize,
}

impl<'a> RoundLogIterator<'a> {
    pub closed spec fn position(&self) -> int {
        self.current_index as int
    }

    pub closed spec fn source(&self) -> &'a RoundLog {
        self.round_log
    }

    pub closed spec fn wf(&self) -> bool {
        self.current_index <= self.round_log.log@.len()
    }

    /// A card byte of the current move follows.
    fn has_move_in_trick(&self) -> (r: bool)
        requires
            self.wf(),
        ensures
            r == (self.current_index < self.round_log.log@.len() && self.round_log.log@[self.current_index as int]
                != SEPERATOR_NEW_MOVE && self.round_log.log@[self.current_index as int] != SEPERATOR_NEW_TRICK),
    {
        self.current_index < self.round_log.log.len() && self.round_log.log[self.current_index]
            != SEPERATOR_NEW_MOVE && self.round_log.log[self.current_index] != SEPERATOR_NEW_TRICK
    }

    /// Reads one move: the cards up to the next separator.  A card of another seat ends
    /// the move as well.  Where the bytes at the current position are those of `expected`,
    /// that move is read.
    fn next_move_in_trick(&mut self, Ghost(expected): Ghost<Option<(u8, u64)>>) -> (r: Option<(PlayerIDInternal, Hand)>)
        requires
            old(self).wf(),
        ensures
            final(self).wf(),
            final(self).round_log == old(self).round_log,
            final(self).current_index >= old(self).current_index,
            r is Some ==> final(self).current_index > old(self).current_index,
            r matches Some(m) ==> m.0 < 4,
            (old(self).current_index == old(self).round_log.log@.len() || old(self).round_log.log@[old(self).current_index as int] == SEPERATOR_NEW_TRICK)
                ==> r is None && final(self).current_index == old(self).current_index,
            expected matches Some(m) ==> (move_wf(m) && move_at(old(self).round_log.log@, old(self).current_index as int, m)
                ==> r == Some(m) && final(self).current_index == old(self).current_index + move_bytes(m).len()),
    {
        let mut hand: Hand = 0u64;
        let mut player: Option<PlayerIDInternal> = None;
        let ghost start = self.current_index as int;
        let ghost log = self.round_log.log@;
        let ghost on_track = expected matches Some(m) && move_wf(m) && move_at(log, start, m);
        let ghost p: u8 = match expected { Some(m) => m.0, None => 0 };
        let ghost h: u64 = match expected { Some(m) => m.1, None => 0 };
        let ghost mut rest: u64 = h;
        proof {
            if on_track {
                lemma_card_bytes_len(p, h, popcount(h));
                assert(0u64 & h == 0 && (0u64 | h) == h) by (bit_vector);
            }
        }
        loop
            invariant
                self.wf(),
                self.round_log == old(self).round_log,
                log == self.round_log.log@,
                self.current_index >= start,
                start == old(self).current_index,
                hand != 0 ==> self.current_index > start,
                hand != 0 <==> player is Some,
                player matches Some(q) ==> q < 4,
                on_track ==> expected == Some((p, h)) && move_wf((p, h)) && move_at(log, start, (p, h)),
                (start == log.len() || log[start] == SEPERATOR_NEW_TRICK) ==> self.current_index == start
                    && hand == 0,
                on_track ==> p < 4 && in_deck(rest) && hand & rest == 0 && hand | rest == h,
                on_track ==> hand != 0 ==> player == Some(p),
                on_track ==> self.current_index + popcount(rest) + 1 == start + move_bytes((p, h)).len(),
                on_track ==> log.subrange(self.current_index as int, self.current_index + popcount(rest) + 1)
                    == card_bytes(p, rest, popcount(rest)).push(SEPERATOR_NEW_MOVE),
            ensures
                self.wf(),
                on_track ==> rest == 0,
            decreases self.round_log.log@.len() - self.current_index,
        {
            let ghost cur = self.current_index as int;
            proof {
                if on_track {
                    lemma_card_bytes_len(p, rest, popcount(rest));
                    assert(log[cur] == log.subrange(cur, cur + popcount(rest) + 1)[0]);
                    if rest != 0 {
                        lemma_popcount_clear_lowest(rest);
                        let c = u64_trailing_zeros(rest);
                        assert(log[cur] == (c + 64 * p) as u8);
                        lemma_lowest_card_in(rest, MASK_ALL);
                        assert((c + 64 * p) / 64 == p && (c + 64 * p) % 64 == c) by (nonlinear_arith)
                            requires
                                c < 64,
                        ;
                        assert(c != 14 && c != 15) by (bit_vector)
                            requires
                                c < 64,
                                (MASK_ALL >> c) & 1u64 == 1u64,
                        ;
                    }
                }
            }
            if self.current_index >= self.round_log.log.len() || !self.has_move_in_trick() {
                break;
            }
            let tagged = self.round_log.log[self.current_index];
            let q = tagged.get_player();
            match player {
                None => {
                    player = Some(q);
                },
                Some(q0) => {
                    if q0 != q {
                        break;
                    }
                },
            }
            let card = tagged.get_card();
            proof {
                assert((hand | (1u64 << card)) != 0) by (bit_vector)
                    requires
                        card < 64,
                ;
                if on_track {
                    let c = card as u64;
                    let r0 = rest;
                    let r1 = r0 & ((r0 - 1) as u64);
                    assert(c == u64_trailing_zeros(r0));
                    assert((r0 >> c) & 1u64 == 1u64);
                    assert(r0 << ((64 - c) as u64) == 0);
                    assert((hand | (1u64 << c)) & r1 == 0 && ((hand | (1u64 << c)) | r1) == h && r1 & MASK_ALL == r1) by (bit_vector)
                        requires
                            c < 64,
                            (r0 >> c) & 1u64 == 1u64,
                            r0 << ((64 - c) as u64) == 0,
                            hand & r0 == 0,
                            hand | r0 == h,
                            r0 & MASK_ALL == r0,
                            r1 == r0 & ((r0 - 1) as u64),
                            r0 != 0,
                    ;
                    assert(log.subrange(cur + 1, cur + 1 + popcount(r1) + 1) =~= log.subrange(cur, cur + popcount(r0) + 1).drop_first());
                    rest = r1;
                }
            }
            hand = hand | (1u64 << card);
            self.current_index += 1;
        }
        proof {
            if on_track {
                let cur = self.current_index as int;
                assert(hand | 0u64 == hand) by (bit_vector);
                reveal_with_fuel(popcount, 1);
                assert(log.subrange(cur, cur + 1) == card_bytes(p, 0, 0).push(SEPERATOR_NEW_MOVE));
                assert(log[cur] == log.subrange(cur, cur + 1)[0]);
            }
        }
        if self.current_index < self.round_log.log.len() && self.round_log.log[self.current_index]
            == SEPERATOR_NEW_MOVE {
            self.current_index += 1;
        }
        match player {
            Some(q) => Some((q, hand)),
            None => None,
        }
    }

    /// Reads the next trick; `None` at the end of the log, or where no trick separator
    /// and trick kind stand at the current position.  Where the log holds the bytes that
    /// `Trick::serialize_into` writes for a trick, followed by the end of the log or the
    /// next trick, that trick is read.
    pub fn next_trick(&mut self) -> (r: Option<Trick>)
        requires
            old(self).wf(),
        ensures
            final(self).wf(),
            final(self).source() == old(self).source(),
            final(self).position() >= old(self).position(),
            r is Some ==> final(self).position() > old(self).position(),
            r matches Some(t) ==> t.players_ok(),
            (exists|ty: u8, ms: Seq<(u8, u64)>| #[trigger] trick_at(old(self).source().log@, old(self).position(), ty, ms))
                ==> (r matches Some(t) && trick_at(old(self).source().log@, old(self).position(), t.trick_type, t.trick_log@)
                && final(self).position() == old(self).position() + trick_bytes(t.trick_type, t.trick_log@).len()),
    {
        let ghost log = self.round_log.log@;
        let ghost pos = self.current_index as int;
        let ghost found = exists|ty: u8, ms: Seq<(u8, u64)>| #[trigger] trick_at(log, pos, ty, ms);
        let ghost wty: u8 = 0;
        let ghost wms: Seq<(u8, u64)> = Seq::empty();
        proof {
            if found {
                let (a, b) = choose|ty: u8, ms: Seq<(u8, u64)>| #[trigger] trick_at(log, pos, ty, ms);
                wty = a;
                wms = b;
                let len = trick_bytes(wty, wms).len() as int;
                assert(log[pos] == log.subrange(pos, pos + len)[0]);
                assert(log[pos + 1] == log.subrange(pos, pos + len)[1]);
                assert(log.subrange(pos + 2, pos + len) =~= log.subrange(pos, pos + len).subrange(2, len));
                assert(trick_bytes(wty, wms).subrange(2, len) =~= moves_bytes(wms));
            }
        }
        if self.current_index >= self.round_log.log.len() || self.round_log.log.len()
            - self.current_index < 2 {
            return None;
        }
        if self.round_log.log[self.current_index] != SEPERATOR_NEW_TRICK {
            return None;
        }
        let trick_type = self.round_log.log[self.current_index + 1];
        self.current_index += 2;
        let mut res = Trick { trick_type, trick_log: Vec::new() };
        loop
            invariant
                self.wf(),
                self.round_log == old(self).round_log,
                log == self.round_log.log@,
                pos == old(self).current_index,
                self.current_index > old(self).current_index,
                res.players_ok(),
                found ==> trick_at(log, pos, wty, wms),
                found ==> log.subrange(pos + 2, pos + trick_bytes(wty, wms).len()) == moves_bytes(wms),
                found ==> res.trick_type == wty && res.trick_log@.len() <= wms.len()
                    && res.trick_log@ == wms.subrange(0, res.trick_log@.len() as int)
                    && self.current_index == pos + 2 + moves_bytes(wms.subrange(0, res.trick_log@.len() as int)).len(),
            ensures
                self.wf(),
                self.round_log == old(self).round_log,
                self.current_index > old(self).current_index,
                res.players_ok(),
                found ==> res.trick_type == wty && res.trick_log@ == wms
                    && self.current_index == pos + trick_bytes(wty, wms).len(),
            decreases self.round_log.log@.len() - self.current_index,
        {
            let ghost i = res.trick_log@.len() as int;
            let ghost expected: Option<(u8, u64)> = if found && i < wms.len() { Some(wms[i]) } else { None };
            proof {
                if found {
                    lemma_moves_bytes_prefix(wms, i);
                    assert(wms.subrange(0, wms.len() as int) =~= wms);
                    if i < wms.len() {
                        lemma_moves_bytes_prefix(wms, i + 1);
                        lemma_moves_bytes_push(wms, i);
                        let a = moves_bytes(wms.subrange(0, i)).len() as int;
                        let b = move_bytes(wms[i]).len() as int;
                        let all = moves_bytes(wms);
                        assert(log.subrange(pos + 2 + a, pos + 2 + a + b) =~= all.subrange(0, a + b).subrange(a, a + b));
                        assert(all.subrange(0, a + b).subrange(a, a + b) =~= move_bytes(wms[i]));
                        assert(move_wf(wms[i]));
                    } else {
                        assert(wms.subrange(0, i) =~= wms);
                    }
                }
            }
            match self.next_move_in_trick(Ghost(expected)) {
                Some(m) => {
                    let ghost before = res.trick_log@;
                    res.trick_log.push(m);
                    proof {
                        if found {
                            lemma_moves_bytes_push(wms, i);
                            assert(res.trick_log@ =~= wms.subrange(0, i + 1));
                        }
                    }
                },
                None => {
                    break;
                },
            }
        }
        proof {
            if found {
                assert(res.trick_log@ =~= wms);
            }
        }
        Some(res)
    }
}

#[derive(Debug, Clone)]
pub enum RoundLogIntegrityError {
    StartTrickIsNotNextInLine {
        trick_num: usize,
        starting_player: PlayerIDInternal,
        should_start: PlayerIDInternal,
    },
    Child(usize, TrickIntegrityError),
}

#[derive(Debug, Clone, Copy, PartialEq, Eq, Structural)]
pub struct RoundNotFinishedPlayingError;

/// `seat` names an opponent of `w`: the seat after it or the seat before it.
pub open spec fn opponent_of(seat: Option<u8>, w: u8) -> bool {
    seat == Some(((w + 1) % 4) as u8) || seat == Some(((w + 3) % 4) as u8)
}

/// Some seat finished at `rank` (and, if `no_points`, scored nothing).
pub open spec fn seat_with(ranks: [u8; 4], scores: [i16; 4], rank: u8, no_points: bool) -> bool {
    exists|i: int| 0 <= i < 4 && ranks[i] == rank && (!no_points || scores[i] == 0)
}

/// The first seat with the given finishing position.
fn position_of(ranks: &[Rank; 4], rank: Rank) -> (r: Option<usize>)
    ensures
        r matches Some(i) ==> i < 4 && ranks[i as int] == rank,
{
    let mut i: usize = 0;
    while i < 4
        invariant
            i <= 4,
        decreases 4 - i,
    {
        if ranks[i] == rank {
            return Some(i);
        }
        i += 1;
    }
    None
}

impl RoundLog {
    pub fn iter(&self) -> (r: RoundLogIterator<'_>)
        ensures
            r.wf(),
            r.source() == self,
            r.position() == 0,
    {
        RoundLogIterator { round_log: self, current_index: 0 }
    }

    /// Replays the log from the hands after the exchange: every trick passes its own
    /// check, and each trick is opened by the winner of the one before (or, if that seat
    /// is out of cards, the next seat that still holds some).
    pub fn integrity_check(&self, round: &Round) -> (r: Result<(), RoundLogIntegrityError>)
        ensures
            r matches Err(RoundLogIntegrityError::StartTrickIsNotNextInLine { starting_player, should_start, .. })
                ==> starting_player != should_start && should_start < 4,
    {
        let mut player_hands = round.get_starting_hands();
        let mut prev_trick_winner: Option<PlayerIDInternal> = None;
        let mut iter = self.iter();
        let mut trick_num: usize = 0;
        loop
            invariant
                iter.wf(),
                iter.round_log == self,
                trick_num <= iter.current_index,
                prev_trick_winner matches Some(p) ==> p < 4,
            decreases self.log@.len() - iter.current_index,
        {
            let trick = match iter.next_trick() {
                Some(t) => t,
                None => {
                    break;
                },
            };
            if trick.trick_log.len() == 0 {
                return Err(RoundLogIntegrityError::Child(trick_num, TrickIntegrityError::EmptyTrickLog));
            }
            if let Some(prev) = prev_trick_winner {
                if trick.get_starting_player() != prev {
                    return Err(RoundLogIntegrityError::StartTrickIsNotNextInLine {
                        trick_num,
                        starting_player: trick.get_starting_player(),
                        should_start: prev,
                    });
                }
            }
            match trick.integrity_check(&mut player_hands) {
                Ok(()) => {},
                Err(e) => {
                    return Err(RoundLogIntegrityError::Child(trick_num, e));
                },
            }
            let mut trick_winner = trick.get_trick_winner();
            let mut step: u8 = 0;
            while player_hands[trick_winner as usize] == 0u64 && step < 4
                invariant
                    trick_winner < 4,
                    step <= 4,
                decreases 4 - step,
            {
                trick_winner = (trick_winner + 1) % 4;
                step += 1;
            }
            prev_trick_winner = Some(trick_winner);
            trick_num += 1;
        }
        Ok(())
    }

    /// Repairs a known fault of the source data: the dragon given to the player who won
    /// with it, to the teammate, or to a player already out.  When exactly one opponent
    /// of the winner still holds cards, the gift goes to that opponent.  `Some(true)`
    /// after a repair, `Some(false)` when the gift is wrong but cannot be repaired (or
    /// is missing), `None` when no gift needs repair.
    pub fn try_fix_dragon_gifting(&mut self, round: &Round) -> (r: Option<bool>)
        ensures
            final(self).log == old(self).log,
            final(self).mahjong_wish == old(self).mahjong_wish,
            r != Some(true) ==> final(self).dragon_player_gift == old(self).dragon_player_gift,
            r == Some(true) ==> (final(self).dragon_player_gift matches Some(p) && p < 4),
            r == Some(true) ==> old(self).dragon_player_gift is Some && exists|w: u8|
                w < 4 && #[trigger] opponent_of(final(self).dragon_player_gift, w),
    {
        let mut player_hands = round.get_starting_hands();
        let mut fix: Option<PlayerIDInternal> = None;
        let mut result: Option<bool> = None;
        {
            let mut iter = self.iter();
            loop
                invariant
                    iter.wf(),
                    *iter.round_log == *self,
                    (result matches Some(true)) ==> (fix matches Some(p) && p < 4),
                    (result matches Some(true)) ==> self.dragon_player_gift is Some && exists|w: u8|
                        w < 4 && #[trigger] opponent_of(fix, w),
                decreases self.log@.len() - iter.current_index,
            {
                let trick = match iter.next_trick() {
                    Some(t) => t,
                    None => {
                        break;
                    },
                };
                let mut i: usize = 0;
                while i < trick.trick_log.len()
                    invariant
                        i <= trick.trick_log@.len(),
                        trick.players_ok(),
                    decreases trick.trick_log@.len() - i,
                {
                    let (player, hand) = trick.trick_log[i];
                    assert(trick.trick_log@[i as int].0 < 4);
                    player_hands[player as usize] = player_hands[player as usize] ^ hand;
                    i += 1;
                }
                if trick.trick_log.len() > 0 && trick.has_to_gift_trick() {
                    let gift_player = match self.dragon_player_gift {
                        Some(g) => g,
                        None => {
                            result = Some(false);
                            break;
                        },
                    };
                    let winner_player = trick.get_trick_winner();
                    if gift_player >= 4 || winner_player == gift_player || winner_player == (
                    gift_player + 2) % 4 || player_hands[gift_player as usize] == 0 {
                        if player_hands[((winner_player + 1) % 4) as usize] == 0 {
                            fix = Some((winner_player + 3) % 4);
                            assert(opponent_of(fix, winner_player));
                            result = Some(true);
                        } else if player_hands[((winner_player + 3) % 4) as usize] == 0 {
                            fix = Some((winner_player + 1) % 4);
                            assert(opponent_of(fix, winner_player));
                            result = Some(true);
                        } else {
                            result = Some(false);
                        }
                        break;
                    }
                }
            }
        }
        if let Some(true) = result {
            if let Some(p) = fix {
                self.dragon_player_gift = Some(p);
            }
        }
        result
    }

    /// Replays the round: the points of each trick go to its winner (or, for a dragon
    /// trick, to the seat it is given to), and each seat gets its finishing position when
    /// its hand runs empty.  On a double win the points do not count.  Otherwise the round
    /// must be played out to the third position: the last seat's tricks go to the first,
    /// its remaining hand to the third.  `Err` for a round that is not played out, or
    /// whose log gives no seat a recorded gift for the dragon, a finishing position twice,
    /// or points beyond the range of a score.
    pub fn play_round(&self, round: &Round) -> (r: Result<([Rank; 4], [Score; 4], bool), RoundNotFinishedPlayingError>)
        ensures
            r matches Ok((ranks, scores, double_win)) ==> (double_win <==> (ranks[0] + ranks[2]
                <= RANK_1 + RANK_2 || ranks[1] + ranks[3] <= RANK_1 + RANK_2)) && (double_win
                ==> forall|i: int| 0 <= i < 4 ==> scores[i] == 0) && forall|i: int| 0 <= i < 4 ==> ranks[i] <= RANK_4,
            r matches Ok((ranks, scores, double_win)) ==> double_win || (seat_with(ranks, scores, RANK_1,
                false) && seat_with(ranks, scores, RANK_3, false) && seat_with(ranks, scores, RANK_4, true)),
    {
        let mut player_hands = round.get_starting_hands();
        let mut player_scores: [Score; 4] = [0; 4];
        let mut player_ranks: [Rank; 4] = [RANK_4; 4];
        let mut next_rank: Rank = RANK_1;
        let mut iter = self.iter();
        loop
            invariant
                iter.wf(),
                iter.round_log == self,
                next_rank <= 4,
                forall|i: int| 0 <= i < 4 ==> player_ranks[i] <= RANK_4,
            decreases self.log@.len() - iter.current_index,
        {
            let trick = match iter.next_trick() {
                Some(t) => t,
                None => {
                    break;
                },
            };
            if trick.trick_log.len() == 0 {
                continue;
            }
            let card_points = trick.played_cards().get_card_points();
            let receiver: usize = if trick.has_to_gift_trick() {
                match self.dragon_player_gift {
                    Some(g) => {
                        if g >= 4 {
                            return Err(RoundNotFinishedPlayingError);
                        }
                        g as usize
                    },
                    None => {
                        return Err(RoundNotFinishedPlayingError);
                    },
                }
            } else {
                trick.get_trick_winner() as usize
            };
            match player_scores[receiver].checked_add(card_points) {
                Some(s) => {
                    player_scores[receiver] = s;
                },
                None => {
                    return Err(RoundNotFinishedPlayingError);
                },
            }
            let mut i: usize = 0;
            while i < trick.trick_log.len()
                invariant
                    i <= trick.trick_log@.len(),
                    trick.players_ok(),
                    next_rank <= 4,
                    forall|j: int| 0 <= j < 4 ==> player_ranks[j] <= RANK_4,
                decreases trick.trick_log@.len() - i,
            {
                let (player, hand) = trick.trick_log[i];
                assert(trick.trick_log@[i as int].0 < 4);
                let p = player as usize;
                player_hands[p] = player_hands[p] ^ hand;
                if player_hands[p] == 0 {
                    if next_rank > RANK_4 {
                        return Err(RoundNotFinishedPlayingError);
                    }
                    player_ranks[p] = next_rank;
                    next_rank += 1;
                }
                i += 1;
            }
        }
        let is_double_win = player_ranks[PLAYER_0 as usize] + player_ranks[PLAYER_2 as usize]
            <= RANK_1 + RANK_2 || player_ranks[PLAYER_1 as usize] + player_ranks[PLAYER_3 as usize]
            <= RANK_1 + RANK_2;
        if is_double_win {
            return Ok((player_ranks, [0; 4], true));
        }
        if next_rank <= RANK_3 {
            return Err(RoundNotFinishedPlayingError);
        }
        let first_player = match position_of(&player_ranks, RANK_1) {
            Some(p) => p,
            None => {
                return Err(RoundNotFinishedPlayingError);
            },
        };
        let third_player = match position_of(&player_ranks, RANK_3) {
            Some(p) => p,
            None => {
                return Err(RoundNotFinishedPlayingError);
            },
        };
        let fourth_player = match position_of(&player_ranks, RANK_4) {
            Some(p) => p,
            None => {
                return Err(RoundNotFinishedPlayingError);
            },
        };
        let gifted = match player_scores[first_player].checked_add(player_scores[fourth_player]) {
            Some(s) => s,
            None => {
                return Err(RoundNotFinishedPlayingError);
            },
        };
        player_scores[first_player] = gifted;
        player_scores[fourth_player] = 0;
        let rest = match player_scores[third_player].checked_add(
            player_hands[fourth_player].get_card_points(),
        ) {
            Some(s) => s,
            None => {
                return Err(RoundNotFinishedPlayingError);
            },
        };
        player_scores[third_player] = rest;
        assert(seat_with(player_ranks, player_scores, RANK_1, false)) by {
            assert(player_ranks[first_player as int] == RANK_1);
        }
        assert(seat_with(player_ranks, player_scores, RANK_3, false)) by {
            assert(player_ranks[third_player as int] == RANK_3);
        }
        assert(seat_with(player_ranks, player_scores, RANK_4, true)) by {
            assert(player_ranks[fourth_player as int] == RANK_4 && player_scores[fourth_player as int] == 0);
        }
        Ok((player_ranks, player_scores, false))
    }

    /// The starting hands and every move of the round, one per line.
    pub fn to_debug_str(&self, round: &Round) -> String {
        let player_hands = round.get_starting_hands();
        let mut res_str = String::new();
        let mut seat: usize = 0;
        while seat < 4
            invariant
                seat <= 4,
            decreases 4 - seat,
        {
            res_str.append("P");
            push_decimal(&mut res_str, seat as u64);
            res_str.append(": ");
            res_str.append(player_hands[seat].pretty_print().as_str());
            res_str.append("\n");
            seat += 1;
        }
        let mut trick_num: u64 = 0;
        let mut iter = self.iter();
        loop
            invariant
                iter.wf(),
                iter.round_log == self,
                trick_num <= iter.current_index,
            decreases self.log@.len() - iter.current_index,
        {
            let trick = match iter.next_trick() {
                Some(t) => t,
                None => {
                    break;
                },
            };
            res_str.append("Trick ");
            push_decimal(&mut res_str, trick_num);
            res_str.append(" with type ");
            push_decimal(&mut res_str, trick.trick_type as u64);
            res_str.append(":\n");
            let mut move_idx: usize = 0;
            while move_idx < trick.trick_log.len()
                invariant
                    move_idx <= trick.trick_log@.len(),
                decreases trick.trick_log@.len() - move_idx,
            {
                let (player, hand) = trick.trick_log[move_idx];
                res_str.append("Move ");
                push_decimal(&mut res_str, move_idx as u64);
                res_str.append(", Player ");
                push_decimal(&mut res_str, player as u64);
                res_str.append(": ");
                res_str.append(hand.pretty_print().as_str());
                res_str.append("\n");
                move_idx += 1;
            }
            if trick.trick_log.len() > 0 {
                res_str.append("Trick ");
                push_decimal(&mut res_str, trick_num);
                res_str.append(" trick winner: ");
                push_decimal(&mut res_str, trick.get_trick_winner() as u64);
                res_str.append("\n-----------------\n");
            }
            trick_num += 1;
        }
        res_str
    }

}

} // verus!
