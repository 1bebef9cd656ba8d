use vstd::prelude::*;
use crate::bits::{popcount, lemma_popcount_and_lt};
use crate::bsw_binary_format::binary_format_constants::{PlayerIDInternal, Score, PLAYER_0, PLAYER_1, PLAYER_2, PLAYER_3};
use crate::bsw_binary_format::player_round_hand::{PlayerRoundHand, PlayerRoundHandIntegrityError, field, lemma_and_le};
use crate::tichu_hand::{Hand, MASK_ALL};

verus! {

pub type ParsingFlagRound = u8;

/// A dragon gift was changed in the round.
pub const FLAG_CHANGED_DRAGON: ParsingFlagRound = 0b1;

/// The round score differs from the one in the source data.
pub const FLAG_CHANGED_ROUND_SCORE: ParsingFlagRound = 0b10;

/// The round score changed although the dragon gift did not.
pub const FLAG_CHANGED_ROUND_SCORE_WITHOUT_DRAGON: ParsingFlagRound = 0b10_0000;

/// The four player records of one round, by seat.
#[derive(Default, Debug, Clone, Copy)]
pub struct Round {
    pub player_rounds: [PlayerRoundHand; 4],
    pub parsing_flags: ParsingFlagRound,
}

#[derive(Debug, Clone, Copy, PartialEq, Eq, Structural)]
pub enum RoundIntegrityError {
    Child(PlayerRoundHandIntegrityError),
    NotAllCardsDistributed(u32),
    ExchangeCardMismatch { p_out: PlayerIDInternal, p_in: PlayerIDInternal },
    CallsMismatch { p_a: PlayerIDInternal, p_b: PlayerIDInternal, calls_a: u8, calls_b: u8 },
    IdMismatch(PlayerIDInternal, u8),
    RankMismatch { p_a: PlayerIDInternal, p_b: PlayerIDInternal, ranks_a: u8, ranks_b: u8 },
    CardScoreMismatch {
        p_a: PlayerIDInternal,
        p_b: PlayerIDInternal,
        cardscore_a: Score,
        cardscore_b: Score,
    },
    CardScoreTooLarge(Score),
}

/// The byte of calls (bits 36 to 43) of a record.
pub open spec fn calls_byte(p: PlayerRoundHand) -> u8 {
    field(p.extras, 36, 0xFF) as u8
}

/// The byte of ranks (bits 46 to 53) of a record.
pub open spec fn ranks_byte(p: PlayerRoundHand) -> u8 {
    field(p.extras, 46, 0xFF) as u8
}

/// The card points field (bits 54 and up) of a record.
pub open spec fn score_field(p: PlayerRoundHand) -> int {
    (p.extras >> 54u64) as int
}

/// The deck has 56 cards.
pub proof fn lemma_popcount_deck()
    ensures
        popcount(MASK_ALL) == 56,
{
    lemma_popcount_column_0();
    lemma_popcount_column_1();
    lemma_popcount_column_2();
    lemma_popcount_column_3();
}

proof fn lemma_popcount_column_0()
    ensures
        popcount(0x3FFF3FFF3FFF3FFFu64) == 14 + popcount(0x3FFF3FFF3FFFu64),
{
    reveal_with_fuel(popcount, 17);
}

proof fn lemma_popcount_column_1()
    ensures
        popcount(0x3FFF3FFF3FFFu64) == 14 + popcount(0x3FFF3FFFu64),
{
    reveal_with_fuel(popcount, 17);
}

proof fn lemma_popcount_column_2()
    ensures
        popcount(0x3FFF3FFFu64) == 14 + popcount(0x3FFFu64),
{
    reveal_with_fuel(popcount, 17);
}

proof fn lemma_popcount_column_3()
    ensures
        popcount(0x3FFFu64) == 14 + popcount(0x0u64),
{
    reveal_with_fuel(popcount, 17);
}

proof fn lemma_union_in_deck(a: u64, b: u64, c: u64, d: u64)
    requires
        a & MASK_ALL == a,
        b & MASK_ALL == b,
        c & MASK_ALL == c,
        d & MASK_ALL == d,
    ensures
        (a | b | c | d) & MASK_ALL == a | b | c | d,
{
    assert((a | b | c | d) & MASK_ALL == a | b | c | d) by (bit_vector)
        requires
            a & MASK_ALL == a,
            b & MASK_ALL == b,
            c & MASK_ALL == c,
            d & MASK_ALL == d,
    ;
}

proof fn lemma_top_bits(x: u64)
    ensures
        x >> 54u64 <= 1023,
{
    assert(x >> 54u64 <= 1023) by (bit_vector);
}

impl Round {
    /// All four records are consistent with each other: each passes its own check, the
    /// dealt hands make up the deck, every card given is the card its receiver got, the
    /// records agree on calls, ranks and card points, each record sits at its own seat,
    /// and the card points are at most 150.
    pub open spec fn consistent(&self) -> bool {
        let p0 = self.player_rounds[0];
        let p1 = self.player_rounds[1];
        let p2 = self.player_rounds[2];
        let p3 = self.player_rounds[3];
        &&& p0.check_spec() is Ok
        &&& p1.check_spec() is Ok
        &&& p2.check_spec() is Ok
        &&& p3.check_spec() is Ok
        &&& p0.first_14 | p1.first_14 | p2.first_14 | p3.first_14 == MASK_ALL
        &&& p0.right_out() == p1.left_in() && p1.right_out() == p2.left_in()
        &&& p2.right_out() == p3.left_in() && p3.right_out() == p0.left_in()
        &&& p0.left_out() == p3.right_in() && p1.left_out() == p0.right_in()
        &&& p2.left_out() == p1.right_in() && p3.left_out() == p2.right_in()
        &&& p0.partner_out() == p2.partner_in() && p1.partner_out() == p3.partner_in()
        &&& p2.partner_out() == p0.partner_in() && p3.partner_out() == p1.partner_in()
        &&& calls_byte(p0) == calls_byte(p1) && calls_byte(p1) == calls_byte(p2)
        &&& calls_byte(p2) == calls_byte(p3)
        &&& p0.seat() == 0 && p1.seat() == 1 && p2.seat() == 2 && p3.seat() == 3
        &&& ranks_byte(p0) == ranks_byte(p1) && ranks_byte(p1) == ranks_byte(p2)
        &&& ranks_byte(p2) == ranks_byte(p3)
        &&& score_field(p0) == score_field(p1) && score_field(p1) == score_field(p2)
        &&& score_field(p2) == score_field(p3)
        &&& score_field(p0) <= 150
    }

    /// Checks the round; the error names the first condition of `consistent` that fails.
    pub fn integrity_check(&self) -> (r: Result<(), RoundIntegrityError>)
        ensures
            r is Ok <==> self.consistent(),
            r matches Err(RoundIntegrityError::Child(e)) ==> exists|i: int|
                0 <= i < 4 && self.player_rounds[i].check_spec() == Err::<(), PlayerRoundHandIntegrityError>(e),
            r matches Err(RoundIntegrityError::NotAllCardsDistributed(n)) ==> n == popcount(
                self.player_rounds[0].first_14 | self.player_rounds[1].first_14
                    | self.player_rounds[2].first_14 | self.player_rounds[3].first_14,
            ) && (self.player_rounds[0].first_14 | self.player_rounds[1].first_14
                | self.player_rounds[2].first_14 | self.player_rounds[3].first_14) != MASK_ALL
                && n < 56,
    {
        let mut i: usize = 0;
        while i < 4
            invariant
                i <= 4,
                forall|j: int| 0 <= j < i ==> self.player_rounds[j].check_spec() is Ok,
            decreases 4 - i,
        {
            match self.player_rounds[i].integrity_check() {
                Ok(()) => {},
                Err(e) => {
                    return Err(RoundIntegrityError::Child(e));
                },
            }
            i += 1;
        }
        let p0 = &self.player_rounds[0];
        let p1 = &self.player_rounds[1];
        let p2 = &self.player_rounds[2];
        let p3 = &self.player_rounds[3];
        let dealt = p0.first_14 | p1.first_14 | p2.first_14 | p3.first_14;
        if dealt != MASK_ALL {
            proof {
                lemma_union_in_deck(p0.first_14, p1.first_14, p2.first_14, p3.first_14);
                lemma_popcount_and_lt(dealt, MASK_ALL);
                lemma_popcount_deck();
            }
            return Err(RoundIntegrityError::NotAllCardsDistributed(dealt.count_ones()));
        }
        if p0.right_out_exchange_card() != p1.left_in_exchange_card() {
            return Err(RoundIntegrityError::ExchangeCardMismatch { p_out: PLAYER_0, p_in: PLAYER_1 });
        }
        if p1.right_out_exchange_card() != p2.left_in_exchange_card() {
            return Err(RoundIntegrityError::ExchangeCardMismatch { p_out: PLAYER_1, p_in: PLAYER_2 });
        }
        if p2.right_out_exchange_card() != p3.left_in_exchange_card() {
            return Err(RoundIntegrityError::ExchangeCardMismatch { p_out: PLAYER_2, p_in: PLAYER_3 });
        }
        if p3.right_out_exchange_card() != p0.left_in_exchange_card() {
            return Err(RoundIntegrityError::ExchangeCardMismatch { p_out: PLAYER_3, p_in: PLAYER_0 });
        }
        if p0.left_out_exchange_card() != p3.right_in_exchange_card() {
            return Err(RoundIntegrityError::ExchangeCardMismatch { p_out: PLAYER_0, p_in: PLAYER_3 });
        }
        if p1.left_out_exchange_card() != p0.right_in_exchange_card() {
            return Err(RoundIntegrityError::ExchangeCardMismatch { p_out: PLAYER_1, p_in: PLAYER_0 });
        }
        if p2.left_out_exchange_card() != p1.right_in_exchange_card() {
            return Err(RoundIntegrityError::ExchangeCardMismatch { p_out: PLAYER_2, p_in: PLAYER_1 });
        }
        if p3.left_out_exchange_card() != p2.right_in_exchange_card() {
            return Err(RoundIntegrityError::ExchangeCardMismatch { p_out: PLAYER_3, p_in: PLAYER_2 });
        }
        if p0.partner_out_exchange_card() != p2.partner_in_exchange_card() {
            return Err(RoundIntegrityError::ExchangeCardMismatch { p_out: PLAYER_0, p_in: PLAYER_2 });
        }
        if p1.partner_out_exchange_card() != p3.partner_in_exchange_card() {
            return Err(RoundIntegrityError::ExchangeCardMismatch { p_out: PLAYER_1, p_in: PLAYER_3 });
        }
        if p2.partner_out_exchange_card() != p0.partner_in_exchange_card() {
            return Err(RoundIntegrityError::ExchangeCardMismatch { p_out: PLAYER_2, p_in: PLAYER_0 });
        }
        if p3.partner_out_exchange_card() != p1.partner_in_exchange_card() {
            return Err(RoundIntegrityError::ExchangeCardMismatch { p_out: PLAYER_3, p_in: PLAYER_1 });
        }
        proof {
            lemma_and_le(p0.extras >> 36u64, 0xFF);
            lemma_and_le(p1.extras >> 36u64, 0xFF);
            lemma_and_le(p2.extras >> 36u64, 0xFF);
            lemma_and_le(p3.extras >> 36u64, 0xFF);
            lemma_and_le(p0.extras >> 46u64, 0xFF);
            lemma_and_le(p1.extras >> 46u64, 0xFF);
            lemma_and_le(p2.extras >> 46u64, 0xFF);
            lemma_and_le(p3.extras >> 46u64, 0xFF);
        }
        let calls_0 = ((p0.extras >> 36u64) & 0xFF) as u8;
        let calls_1 = ((p1.extras >> 36u64) & 0xFF) as u8;
        let calls_2 = ((p2.extras >> 36u64) & 0xFF) as u8;
        let calls_3 = ((p3.extras >> 36u64) & 0xFF) as u8;
        if calls_0 != calls_1 {
            return Err(RoundIntegrityError::CallsMismatch { p_a: PLAYER_0, p_b: PLAYER_1, calls_a: calls_0, calls_b: calls_1 });
        }
        if calls_1 != calls_2 {
            return Err(RoundIntegrityError::CallsMismatch { p_a: PLAYER_1, p_b: PLAYER_2, calls_a: calls_1, calls_b: calls_2 });
        }
        if calls_2 != calls_3 {
            return Err(RoundIntegrityError::CallsMismatch { p_a: PLAYER_2, p_b: PLAYER_3, calls_a: calls_2, calls_b: calls_3 });
        }
        if p0.player_id() != PLAYER_0 {
            return Err(RoundIntegrityError::IdMismatch(PLAYER_0, p0.player_id()));
        }
        if p1.player_id() != PLAYER_1 {
            return Err(RoundIntegrityError::IdMismatch(PLAYER_1, p1.player_id()));
        }
        if p2.player_id() != PLAYER_2 {
            return Err(RoundIntegrityError::IdMismatch(PLAYER_2, p2.player_id()));
        }
        if p3.player_id() != PLAYER_3 {
            return Err(RoundIntegrityError::IdMismatch(PLAYER_3, p3.player_id()));
        }
        let ranks_0 = ((p0.extras >> 46u64) & 0xFF) as u8;
        let ranks_1 = ((p1.extras >> 46u64) & 0xFF) as u8;
        let ranks_2 = ((p2.extras >> 46u64) & 0xFF) as u8;
        let ranks_3 = ((p3.extras >> 46u64) & 0xFF) as u8;
        if ranks_0 != ranks_1 {
            return Err(RoundIntegrityError::RankMismatch { p_a: PLAYER_0, p_b: PLAYER_1, ranks_a: ranks_0, ranks_b: ranks_1 });
        }
        if ranks_1 != ranks_2 {
            return Err(RoundIntegrityError::RankMismatch { p_a: PLAYER_1, p_b: PLAYER_2, ranks_a: ranks_1, ranks_b: ranks_2 });
        }
        if ranks_2 != ranks_3 {
            return Err(RoundIntegrityError::RankMismatch { p_a: PLAYER_2, p_b: PLAYER_3, ranks_a: ranks_2, ranks_b: ranks_3 });
        }
        proof {
            lemma_top_bits(p0.extras);
            lemma_top_bits(p1.extras);
            lemma_top_bits(p2.extras);
            lemma_top_bits(p3.extras);
        }
        let cardscore_0 = (p0.extras >> 54u64) as Score;
        let cardscore_1 = (p1.extras >> 54u64) as Score;
        let cardscore_2 = (p2.extras >> 54u64) as Score;
        let cardscore_3 = (p3.extras >> 54u64) as Score;
        if cardscore_0 != cardscore_1 {
            return Err(RoundIntegrityError::CardScoreMismatch { p_a: PLAYER_0, p_b: PLAYER_1, cardscore_a: cardscore_0, cardscore_b: cardscore_1 });
        }
        if cardscore_1 != cardscore_2 {
            return Err(RoundIntegrityError::CardScoreMismatch { p_a: PLAYER_1, p_b: PLAYER_2, cardscore_a: cardscore_1, cardscore_b: cardscore_2 });
        }
        if cardscore_2 != cardscore_3 {
            return Err(RoundIntegrityError::CardScoreMismatch { p_a: PLAYER_2, p_b: PLAYER_3, cardscore_a: cardscore_2, cardscore_b: cardscore_3 });
        }
        if cardscore_0 > 150 {
            return Err(RoundIntegrityError::CardScoreTooLarge(cardscore_0));
        }
        Ok(())
    }

    /// The hands of the four seats after the exchange.
    pub fn get_starting_hands(&self) -> (r: [Hand; 4])
        ensures
            forall|i: int| 0 <= i < 4 ==> r[i] == self.player_rounds[i].final_14_spec(),
    {
        [
            self.player_rounds[0].final_14(),
            self.player_rounds[1].final_14(),
            self.player_rounds[2].final_14(),
            self.player_rounds[3].final_14(),
        ]
    }
}

} // verus!
