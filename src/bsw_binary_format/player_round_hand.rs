use vstd::prelude::*;
use crate::bits::popcount;
use crate::bsw_binary_format::binary_format_constants::{TichuCall, PlayerIDInternal, Rank, Score, PLAYER_0, PLAYER_1, PLAYER_2, PLAYER_3, RANK_1, RANK_2};
use crate::tichu_hand::{CardIndex, Hand, MASK_ALL, card_bit};

verus! {

/// What one player held and did in one round.
#[derive(Default, Debug, Clone, Copy, PartialEq, Eq, Structural)]
pub struct PlayerRoundHand {
    /// The first eight cards dealt.
    pub first_8: Hand,
    /// All fourteen cards dealt, before the exchange.
    pub first_14: Hand,
    /// Exchange, calls, ranks, seat and card points; see `binary_format_constants`.
    pub extras: u64,
}

#[derive(Debug, Clone, Copy, PartialEq, Eq, Structural)]
pub enum PlayerRoundHandIntegrityError {
    First8Count(u32),
    First8Invalid,
    First14Count(u32),
    First14Invalid,
    Final14Count(u32),
    Final14Invalid,
    OutExchangeCardsNotInFirst14,
    InExchangeCardsInFirst14,
}

/// Bits `lo ..` of `x` under `mask`.
pub open spec fn field(x: u64, lo: u64, mask: u64) -> u64 {
    (x >> lo) & mask
}

pub proof fn lemma_and_le(x: u64, m: u64)
    ensures
        x & m <= m,
{
    assert(x & m <= m) by (bit_vector);
}

impl PlayerRoundHand {
    pub open spec fn left_out(&self) -> u8 {
        field(self.extras, 0, 0x3F) as u8
    }

    pub open spec fn partner_out(&self) -> u8 {
        field(self.extras, 6, 0x3F) as u8
    }

    pub open spec fn right_out(&self) -> u8 {
        field(self.extras, 12, 0x3F) as u8
    }

    pub open spec fn left_in(&self) -> u8 {
        field(self.extras, 18, 0x3F) as u8
    }

    pub open spec fn partner_in(&self) -> u8 {
        field(self.extras, 24, 0x3F) as u8
    }

    pub open spec fn right_in(&self) -> u8 {
        field(self.extras, 30, 0x3F) as u8
    }

    pub open spec fn call_of(&self, p: u8) -> u8 {
        field(self.extras, (36 + 2 * p) as u64, 3) as u8
    }

    pub open spec fn rank_of(&self, p: u8) -> u8 {
        field(self.extras, (46 + 2 * p) as u64, 3) as u8
    }

    pub open spec fn seat(&self) -> u8 {
        field(self.extras, 44, 3) as u8
    }

    pub open spec fn card_score(&self) -> int {
        field(self.extras, 54, 0xFF) as int
    }

    /// The three cards given away.
    pub open spec fn out_cards(&self) -> u64 {
        card_bit(self.left_out() as u64) | card_bit(self.partner_out() as u64) | card_bit(
            self.right_out() as u64,
        )
    }

    /// The three cards received.
    pub open spec fn in_cards(&self) -> u64 {
        card_bit(self.left_in() as u64) | card_bit(self.partner_in() as u64) | card_bit(
            self.right_in() as u64,
        )
    }

    /// The hand after the exchange.
    pub open spec fn final_14_spec(&self) -> u64 {
        self.first_14 ^ (card_bit(self.left_out() as u64) | card_bit(self.partner_out() as u64)
            | card_bit(self.right_out() as u64) | card_bit(self.left_in() as u64) | card_bit(
            self.partner_in() as u64,
        ) | card_bit(self.right_in() as u64))
    }

    /// The first failed consistency condition of the record, if any.
    pub open spec fn check_spec(&self) -> Result<(), PlayerRoundHandIntegrityError> {
        if popcount(self.first_8) != 8 {
            Err(PlayerRoundHandIntegrityError::First8Count(popcount(self.first_8) as u32))
        } else if self.first_8 & MASK_ALL != self.first_8 {
            Err(PlayerRoundHandIntegrityError::First8Invalid)
        } else if popcount(self.first_14) != 14 {
            Err(PlayerRoundHandIntegrityError::First14Count(popcount(self.first_14) as u32))
        } else if self.first_14 & MASK_ALL != self.first_14 {
            Err(PlayerRoundHandIntegrityError::First14Invalid)
        } else if popcount(self.final_14_spec()) != 14 {
            Err(PlayerRoundHandIntegrityError::Final14Count(popcount(self.final_14_spec()) as u32))
        } else if self.final_14_spec() & MASK_ALL != self.final_14_spec() {
            Err(PlayerRoundHandIntegrityError::Final14Invalid)
        } else if popcount(self.out_cards() & self.first_14) != 3 {
            Err(PlayerRoundHandIntegrityError::OutExchangeCardsNotInFirst14)
        } else if popcount(self.in_cards() & self.first_14) != 0 {
            Err(PlayerRoundHandIntegrityError::InExchangeCardsInFirst14)
        } else {
            Ok(())
        }
    }

    /// Checks the record: 8 and 14 dealt cards, 14 after the exchange, all in the deck,
    /// the cards given away taken from the dealt ones, the cards received not.
    pub fn integrity_check(&self) -> (r: Result<(), PlayerRoundHandIntegrityError>)
        ensures
            r == self.check_spec(),
    {
        if self.first_8.count_ones() != 8 {
            return Err(PlayerRoundHandIntegrityError::First8Count(self.first_8.count_ones()));
        }
        if self.first_8 & MASK_ALL != self.first_8 {
            return Err(PlayerRoundHandIntegrityError::First8Invalid);
        }
        if self.first_14.count_ones() != 14 {
            return Err(PlayerRoundHandIntegrityError::First14Count(self.first_14.count_ones()));
        }
        if self.first_14 & MASK_ALL != self.first_14 {
            return Err(PlayerRoundHandIntegrityError::First14Invalid);
        }
        let final_14 = self.final_14();
        if final_14.count_ones() != 14 {
            return Err(PlayerRoundHandIntegrityError::Final14Count(final_14.count_ones()));
        }
        if final_14 & MASK_ALL != final_14 {
            return Err(PlayerRoundHandIntegrityError::Final14Invalid);
        }
        let out_cards = (1u64 << self.left_out_exchange_card()) | (1u64
            << self.partner_out_exchange_card()) | (1u64 << self.right_out_exchange_card());
        if (out_cards & self.first_14).count_ones() != 3 {
            return Err(PlayerRoundHandIntegrityError::OutExchangeCardsNotInFirst14);
        }
        let in_cards = (1u64 << self.left_in_exchange_card()) | (1u64
            << self.partner_in_exchange_card()) | (1u64 << self.right_in_exchange_card());
        if (in_cards & self.first_14).count_ones() != 0 {
            return Err(PlayerRoundHandIntegrityError::InExchangeCardsInFirst14);
        }
        Ok(())
    }

    pub fn left_out_exchange_card(&self) -> (r: CardIndex)
        ensures
            r == self.left_out(),
            r < 64,
    {
        proof {
            lemma_and_le(self.extras >> 0u64, 0x3F);
        }
        ((self.extras >> 0u64) & 0x3F) as CardIndex
    }

    pub fn partner_out_exchange_card(&self) -> (r: CardIndex)
        ensures
            r == self.partner_out(),
            r < 64,
    {
        proof {
            lemma_and_le(self.extras >> 6u64, 0x3F);
        }
        ((self.extras >> 6u64) & 0x3F) as CardIndex
    }

    pub fn right_out_exchange_card(&self) -> (r: CardIndex)
        ensures
            r == self.right_out(),
            r < 64,
    {
        proof {
            lemma_and_le(self.extras >> 12u64, 0x3F);
        }
        ((self.extras >> 12u64) & 0x3F) as CardIndex
    }

    pub fn left_in_exchange_card(&self) -> (r: CardIndex)
        ensures
            r == self.left_in(),
            r < 64,
    {
        proof {
            lemma_and_le(self.extras >> 18u64, 0x3F);
        }
        ((self.extras >> 18u64) & 0x3F) as CardIndex
    }

    pub fn partner_in_exchange_card(&self) -> (r: CardIndex)
        ensures
            r == self.partner_in(),
            r < 64,
    {
        proof {
            lemma_and_le(self.extras >> 24u64, 0x3F);
        }
        ((self.extras >> 24u64) & 0x3F) as CardIndex
    }

    pub fn right_in_exchange_card(&self) -> (r: CardIndex)
        ensures
            r == self.right_in(),
            r < 64,
    {
        proof {
            lemma_and_le(self.extras >> 30u64, 0x3F);
        }
        ((self.extras >> 30u64) & 0x3F) as CardIndex
    }

    /// The hand after the exchange: the six exchanged cards toggled.
    pub fn final_14(&self) -> (r: Hand)
        ensures
            r == self.final_14_spec(),
    {
        self.first_14 ^ ((1u64 << self.left_out_exchange_card()) | (1u64
            << self.partner_out_exchange_card()) | (1u64 << self.right_out_exchange_card()) | (
        1u64 << self.left_in_exchange_card()) | (1u64 << self.partner_in_exchange_card()) | (1u64
            << self.right_in_exchange_card()))
    }

    /// The call of a seat.
    pub fn player_call(&self, player_id: PlayerIDInternal) -> (r: TichuCall)
        requires
            player_id < 4,
        ensures
            r == self.call_of(player_id),
            r <= 3,
    {
        let shift = 36 + 2 * player_id as u64;
        proof {
            lemma_and_le(self.extras >> shift, 3);
        }
        ((self.extras >> shift) & 3) as TichuCall
    }

    pub fn player_0_call(&self) -> (r: TichuCall)
        ensures
            r == self.call_of(0),
            r <= 3,
    {
        self.player_call(PLAYER_0)
    }

    pub fn player_1_call(&self) -> (r: TichuCall)
        ensures
            r == self.call_of(1),
            r <= 3,
    {
        self.player_call(PLAYER_1)
    }

    pub fn player_2_call(&self) -> (r: TichuCall)
        ensures
            r == self.call_of(2),
            r <= 3,
    {
        self.player_call(PLAYER_2)
    }

    pub fn player_3_call(&self) -> (r: TichuCall)
        ensures
            r == self.call_of(3),
            r <= 3,
    {
        self.player_call(PLAYER_3)
    }

    /// The seat of the player the record belongs to.
    pub fn player_id(&self) -> (r: PlayerIDInternal)
        ensures
            r == self.seat(),
            r <= 3,
    {
        proof {
            lemma_and_le(self.extras >> 44u64, 3);
        }
        ((self.extras >> 44u64) & 3) as PlayerIDInternal
    }

    /// The finishing position of a seat.
    pub fn player_rank(&self, player_id: PlayerIDInternal) -> (r: Rank)
        requires
            player_id < 4,
        ensures
            r == self.rank_of(player_id),
            r <= 3,
    {
        let shift = 46 + 2 * player_id as u64;
        proof {
            lemma_and_le(self.extras >> shift, 3);
        }
        ((self.extras >> shift) & 3) as Rank
    }

    pub fn player_0_rank(&self) -> (r: Rank)
        ensures
            r == self.rank_of(0),
            r <= 3,
    {
        self.player_rank(PLAYER_0)
    }

    pub fn player_1_rank(&self) -> (r: Rank)
        ensures
            r == self.rank_of(1),
            r <= 3,
    {
        self.player_rank(PLAYER_1)
    }

    pub fn player_2_rank(&self) -> (r: Rank)
        ensures
            r == self.rank_of(2),
            r <= 3,
    {
        self.player_rank(PLAYER_2)
    }

    pub fn player_3_rank(&self) -> (r: Rank)
        ensures
            r == self.rank_of(3),
            r <= 3,
    {
        self.player_rank(PLAYER_3)
    }

    /// Both players of team 1 finished first and second.
    pub fn is_double_win_team_1(&self) -> (r: bool)
        ensures
            r == (self.rank_of(0) + self.rank_of(2) <= RANK_1 + RANK_2),
    {
        self.player_0_rank() + self.player_2_rank() <= RANK_1 + RANK_2
    }

    /// Both players of team 2 finished first and second.
    pub fn is_double_win_team_2(&self) -> (r: bool)
        ensures
            r == (self.rank_of(1) + self.rank_of(3) <= RANK_1 + RANK_2),
    {
        self.player_1_rank() + self.player_3_rank() <= RANK_1 + RANK_2
    }

    /// The points a call brings its team: 100 per call level, won if the caller
    /// finished first and lost otherwise.
    pub open spec fn call_points(&self, p: u8) -> int {
        if self.rank_of(p) == RANK_1 {
            self.call_of(p) * 100
        } else {
            -(self.call_of(p) * 100)
        }
    }

    /// Round score of (team 1, team 2): call points, plus 200 for a double win, or else
    /// the card points, shifted by the 25 that the phoenix costs.
    pub open spec fn round_score_spec(&self) -> (int, int) {
        let calls_1 = self.call_points(0) + self.call_points(2);
        let calls_2 = self.call_points(1) + self.call_points(3);
        if self.rank_of(0) + self.rank_of(2) <= 1 {
            (calls_1 + 200, calls_2)
        } else if self.rank_of(1) + self.rank_of(3) <= 1 {
            (calls_1, calls_2 + 200)
        } else {
            (calls_1 + self.card_score() - 25, calls_2 + 125 - self.card_score())
        }
    }

    /// The points the call of a seat brings its team.
    fn call_score(&self, player_id: PlayerIDInternal) -> (r: Score)
        requires
            player_id < 4,
        ensures
            r as int == self.call_points(player_id),
            -300 <= r <= 300,
    {
        let c = self.player_call(player_id) as Score * 100;
        if self.player_rank(player_id) == RANK_1 {
            c
        } else {
            -c
        }
    }

    pub fn round_score(&self) -> (r: (Score, Score))
        ensures
            r.0 as int == self.round_score_spec().0,
            r.1 as int == self.round_score_spec().1,
            -1000 <= r.0 <= 1000 && -1000 <= r.1 <= 1000,
    {
        let mut score_team_1: Score = 0;
        let mut score_team_2: Score = 0;
        score_team_1 = score_team_1 + self.call_score(PLAYER_0);
        score_team_1 = score_team_1 + self.call_score(PLAYER_2);
        score_team_2 = score_team_2 + self.call_score(PLAYER_1);
        score_team_2 = score_team_2 + self.call_score(PLAYER_3);
        if self.is_double_win_team_1() {
            score_team_1 = score_team_1 + 200;
        } else if self.is_double_win_team_2() {
            score_team_2 = score_team_2 + 200;
        } else {
            proof {
                lemma_and_le(self.extras >> 54u64, 0xFF);
            }
            let card_score: Score = ((self.extras >> 54u64) & 0xFF) as Score;
            score_team_1 = score_team_1 + card_score - 25;
            score_team_2 = score_team_2 + 125 - card_score;
        }
        (score_team_1, score_team_2)
    }

    /// The score difference from the view of the player's own team.
    pub fn round_score_relative_gain(&self) -> (r: Score)
        ensures
            self.seat() == 0 || self.seat() == 2 ==> r == self.round_score_spec().0
                - self.round_score_spec().1,
            self.seat() == 1 || self.seat() == 3 ==> r == self.round_score_spec().1
                - self.round_score_spec().0,
    {
        let round_score = self.round_score();
        let id = self.player_id();
        if id == PLAYER_0 || id == PLAYER_2 {
            round_score.0 - round_score.1
        } else {
            round_score.1 - round_score.0
        }
    }
}

} // verus!
