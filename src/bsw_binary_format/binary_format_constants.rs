use vstd::prelude::*;

verus! {

/// Bit layout of `PlayerRoundHand::extras`: six-bit card indices of the six exchanged
/// cards, two-bit calls and finishing ranks of the four players, the player's own seat,
/// and the card points of team 1.
pub const LEFT_OUT_EXCHANGE_MASK: u64 = 0x3F;
pub const PARTNER_OUT_EXCHANGE_MASK: u64 = 0xFC0;
pub const RIGHT_OUT_EXCHANGE_MASK: u64 = 0x3_F000;
pub const LEFT_IN_EXCHANGE_MASK: u64 = 0xFC_0000;
pub const PARTNER_IN_EXCHANGE_MASK: u64 = 0x3F00_0000;
pub const RIGHT_IN_EXCHANGE_MASK: u64 = 0xF_C000_0000;

pub type TichuCall = u8;

pub const CALL_NONE: TichuCall = 0;
pub const CALL_TICHU: TichuCall = 1;
pub const CALL_GRAND_TICHU: TichuCall = 2;

pub const CALL_PLAYER_0_MASK: u64 = 0x30_0000_0000;
pub const CALL_PLAYER_1_MASK: u64 = 0xC0_0000_0000;
pub const CALL_PLAYER_2_MASK: u64 = 0x300_0000_0000;
pub const CALL_PLAYER_3_MASK: u64 = 0xC00_0000_0000;

pub type PlayerIDGlobal = u32;

/// A seat at the table, 0 to 3; seats 0 and 2 form team 1.
pub type PlayerIDInternal = u8;

pub const PLAYER_0: PlayerIDInternal = 0;
pub const PLAYER_1: PlayerIDInternal = 1;
pub const PLAYER_2: PlayerIDInternal = 2;
pub const PLAYER_3: PlayerIDInternal = 3;

pub const PLAYER_ID_MASK: u64 = 0x3000_0000_0000;

/// Finishing position, 0 for the first player out.
pub type Rank = u8;

pub const RANK_1: Rank = 0;
pub const RANK_2: Rank = 1;
pub const RANK_3: Rank = 2;
pub const RANK_4: Rank = 3;

pub const RANK_PLAYER_0_MASK: u64 = 0xC000_0000_0000;
pub const RANK_PLAYER_1_MASK: u64 = 0x3_0000_0000_0000;
pub const RANK_PLAYER_2_MASK: u64 = 0xC_0000_0000_0000;
pub const RANK_PLAYER_3_MASK: u64 = 0x30_0000_0000_0000;

pub type Score = i16;

/// Card points of team 1 in the round (0 to 150 in a consistent record).
pub const CARD_SCORE_MASK: u64 = 0x3FC0_0000_0000_0000;

/// The teammate of a seat.
pub open spec fn teammate(p: u8) -> u8 {
    ((p + 2) % 4) as u8
}

#[derive(PartialEq, Eq, Structural, Debug, Clone, Copy)]
pub enum Team {
    Team1,
    Team2,
}

impl Team {
    /// The two seats of the team.
    pub fn get_players(&self) -> (r: (PlayerIDInternal, PlayerIDInternal))
        ensures
            *self == Team::Team1 ==> r == (PLAYER_0, PLAYER_2),
            *self == Team::Team2 ==> r == (PLAYER_1, PLAYER_3),
    {
        match self {
            Team::Team1 => (PLAYER_0, PLAYER_2),
            Team::Team2 => (PLAYER_1, PLAYER_3),
        }
    }
}

} // verus!
