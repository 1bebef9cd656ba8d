use vstd::prelude::*;
use crate::bsw_binary_format::binary_format_constants::{PlayerIDGlobal, Team, PLAYER_0};
use crate::bsw_binary_format::round::Round;
use crate::bsw_binary_format::round_log::RoundLog;

verus! {

pub type ParsingFlagGame = u8;

/// A dragon gift was changed in at least one round.
pub const FLAG_CHANGED_DRAGON: ParsingFlagGame = 0b1;

/// A round score differs from the source data in at least one round.
pub const FLAG_CHANGED_ROUND_SCORE: ParsingFlagGame = 0b10;

/// At least one round of the source data was left out.
pub const FLAG_EXCLUDED_ROUND: ParsingFlagGame = 0b100;

/// The source data names no winner.
pub const FLAG_NO_WINNER_BSW: ParsingFlagGame = 0b1000;

/// The game stopped in the middle of a round.
pub const FLAG_GAME_STOPPED_WITHIN_ROUND: ParsingFlagGame = 0b1_0000;

/// A round score changed without a change of the dragon gift.
pub const FLAG_CHANGED_ROUND_SCORE_WITHOUT_DRAGON: ParsingFlagGame = 0b10_0000;

/// A recorded game: its rounds with their logs, and the players by seat.
#[derive(Debug, Clone)]
pub struct Game {
    pub rounds: Vec<(Round, RoundLog)>,
    pub player_ids: [PlayerIDGlobal; 4],
    pub original_bsw_id: u32,
    pub parsing_flags: ParsingFlagGame,
}

/// Total score of (team 1, team 2) over the first `n` rounds, as recorded by seat 0.
pub open spec fn game_totals(rounds: Seq<(Round, RoundLog)>, n: int) -> (int, int)
    decreases n,
{
    if n <= 0 {
        (0, 0)
    } else {
        let prev = game_totals(rounds, n - 1);
        let s = rounds[n - 1].0.player_rounds[0].round_score_spec();
        (prev.0 + s.0, prev.1 + s.1)
    }
}

impl Game {
    /// The team with the higher total score, `None` on a tie.
    pub fn get_winner(&self) -> (r: Option<Team>)
        ensures
            ({
                let t = game_totals(self.rounds@, self.rounds@.len() as int);
                &&& (t.0 > t.1 <==> r == Some(Team::Team1))
                &&& (t.0 < t.1 <==> r == Some(Team::Team2))
                &&& (t.0 == t.1 <==> r is None)
            }),
    {
        let mut score_team_0: i128 = 0;
        let mut score_team_1: i128 = 0;
        let mut i: usize = 0;
        while i < self.rounds.len()
            invariant
                i <= self.rounds@.len(),
                score_team_0 == game_totals(self.rounds@, i as int).0,
                score_team_1 == game_totals(self.rounds@, i as int).1,
                -1000 * i <= score_team_0 <= 1000 * i,
                -1000 * i <= score_team_1 <= 1000 * i,
            decreases self.rounds@.len() - i,
        {
            let round_scores = self.rounds[i].0.player_rounds[PLAYER_0 as usize].round_score();
            score_team_0 = score_team_0 + round_scores.0 as i128;
            score_team_1 = score_team_1 + round_scores.1 as i128;
            i += 1;
        }
        if score_team_0 > score_team_1 {
            Some(Team::Team1)
        } else if score_team_0 < score_team_1 {
            Some(Team::Team2)
        } else {
            None
        }
    }
}

} // verus!
