use vstd::prelude::*;
use vstd::string::StrSliceExecFns;
use std::collections::HashMap;
use crate::bsw_binary_format::binary_format_constants::Team;
use crate::bsw_binary_format::game::Game;
use crate::tichu_hand::{CardType, TrickType};

verus! {

broadcast use vstd::std_specs::hash::group_hash_axioms;

/// The value of a one- or two-digit decimal number without a leading zero.
pub open spec fn small_number(s: Seq<char>) -> Option<int> {
    if s.len() == 1 && '0' <= s[0] && s[0] <= '9' {
        Some(s[0] as int - '0' as int)
    } else if s.len() == 2 && '1' <= s[0] && s[0] <= '9' && '0' <= s[1] && s[1] <= '9' {
        Some(10 * (s[0] as int - '0' as int) + (s[1] as int - '0' as int))
    } else {
        None
    }
}

/// The trick kind written as in the source records: `1`, `2`, `3` for single, pair and
/// triplet, `T2` to `T7` for pair streets of 2 to 7 pairs, `S5` to `S14` for streets,
/// `F` for a full house, `D` for the dog, `B4` to `B13` for bombs.
pub open spec fn trick_code(s: Seq<char>) -> Option<int> {
    if s == seq!['1'] {
        Some(0)
    } else if s == seq!['2'] {
        Some(1)
    } else if s == seq!['3'] {
        Some(2)
    } else if s == seq!['F'] {
        Some(20)
    } else if s == seq!['D'] {
        Some(21)
    } else if s.len() >= 2 && small_number(s.drop_first()) is Some {
        let n = small_number(s.drop_first())->0;
        if s[0] == 'T' && 2 <= n <= 7 {
            Some(n + 2)
        } else if s[0] == 'S' && 5 <= n <= 14 {
            Some(n + 5)
        } else if s[0] == 'B' && 4 <= n <= 13 {
            Some(n + 18)
        } else {
            None
        }
    } else {
        None
    }
}

/// Decodes a decimal digit.
fn digit_value(c: char) -> (r: Option<u32>)
    ensures
        ('0' <= c && c <= '9') ==> r == Some((c as int - '0' as int) as u32),
        !('0' <= c && c <= '9') ==> r is None,
{
    if '0' <= c && c <= '9' {
        Some((c as u32) - ('0' as u32))
    } else {
        None
    }
}

/// The trick kind of its code in the source records.
pub fn trick_type_str_to_trick_type(trick_type: &str) -> (r: TrickType)
    requires
        trick_code(trick_type@) is Some,
    ensures
        r as int == trick_code(trick_type@)->0,
{
    let n = trick_type.unicode_len();
    let first = trick_type.get_char(0);
    if n == 1 {
        assert(trick_type@ =~= seq![first]);
        if first == '1' {
            return 0;
        } else if first == '2' {
            return 1;
        } else if first == '3' {
            return 2;
        } else if first == 'F' {
            return 20;
        } else {
            return 21;
        }
    }
    let ghost rest = trick_type@.drop_first();
    assert(!(trick_type@ =~= seq!['1']) && !(trick_type@ =~= seq!['2']) && !(trick_type@ =~= seq!['3']) && !(trick_type@ =~= seq!['F']) && !(trick_type@ =~= seq!['D'])) by {
        assert(trick_type@.len() != 1);
    }
    let d1 = digit_value(trick_type.get_char(1));
    let mut value: u32 = match d1 {
        Some(d) => d,
        None => 0,
    };
    assert(rest[0] == trick_type@[1]);
    if n == 3 {
        assert(rest[1] == trick_type@[2]);
        let d2 = digit_value(trick_type.get_char(2));
        value = value * 10 + match d2 {
            Some(d) => d,
            None => 0,
        };
    }
    assert(value as int == small_number(rest)->0);
    if first == 'T' {
        (value + 2) as TrickType
    } else if first == 'S' {
        (value + 5) as TrickType
    } else {
        (value + 18) as TrickType
    }
}

/// The rank a mahjong wish names: `.` for none, then `2` to `9`, `T`, `J`, `Q`, `K`, `A`.
pub open spec fn wish_rank(c: char) -> Option<u8> {
    if c == '.' {
        Some(0)
    } else if '2' <= c && c <= '9' {
        Some((c as int - '1' as int) as u8)
    } else if c == 'T' {
        Some(9)
    } else if c == 'J' {
        Some(10)
    } else if c == 'Q' {
        Some(11)
    } else if c == 'K' {
        Some(12)
    } else if c == 'A' {
        Some(13)
    } else {
        None
    }
}

/// The rank of a mahjong wish.
pub fn card_wish_to_cardtype(card_wish: char) -> (r: CardType)
    requires
        wish_rank(card_wish) is Some,
    ensures
        r == wish_rank(card_wish)->0,
{
    if card_wish == '.' {
        0
    } else if '2' <= card_wish && card_wish <= '9' {
        ((card_wish as u32) - ('1' as u32)) as CardType
    } else if card_wish == 'T' {
        9
    } else if card_wish == 'J' {
        10
    } else if card_wish == 'Q' {
        11
    } else if card_wish == 'K' {
        12
    } else {
        13
    }
}

/// All recorded games, and the players' names indexed by their global id.
pub struct DataBase {
    pub games: Vec<Game>,
    pub players: Vec<String>,
}

impl DataBase {
    /// For every player of a game with a winner: (games played, games won).
    pub fn collect_winrate_players(&self) -> (r: HashMap<usize, (usize, usize)>)
        requires
            self.games@.len() <= usize::MAX / 4,
        ensures
            forall|k: usize| #[trigger] r@.contains_key(k) ==> 1 <= r@[k].0 && r@[k].1 <= r@[k].0,
            forall|k: usize| #[trigger] r@.contains_key(k) ==> exists|g: int, s: int|
                0 <= g < self.games@.len() && 0 <= s < 4 && self.games@[g].player_ids[s] as usize == k,
    {
        let mut res: HashMap<usize, (usize, usize)> = HashMap::new();
        let mut g: usize = 0;
        while g < self.games.len()
            invariant
                g <= self.games@.len(),
                self.games@.len() <= usize::MAX / 4,
                forall|k: usize| #[trigger] res@.contains_key(k) ==> 1 <= res@[k].0 && res@[k].1
                    <= res@[k].0 && res@[k].0 <= 4 * g,
                forall|k: usize| #[trigger] res@.contains_key(k) ==> exists|g2: int, s: int|
                    0 <= g2 < g && 0 <= s < 4 && self.games@[g2].player_ids[s] as usize == k,
            decreases self.games@.len() - g,
        {
            let game = &self.games[g];
            let winner = game.get_winner();
            if let Some(w) = winner {
                let mut id_internal: usize = 0;
                while id_internal < 4
                    invariant
                        id_internal <= 4,
                        g < self.games@.len(),
                        self.games@.len() <= usize::MAX / 4,
                        forall|k: usize| #[trigger] res@.contains_key(k) ==> 1 <= res@[k].0
                            && res@[k].1 <= res@[k].0 && res@[k].0 <= 4 * g + id_internal,
                        forall|k: usize| #[trigger] res@.contains_key(k) ==> exists|g2: int, s: int|
                            0 <= g2 <= g && 0 <= s < 4 && self.games@[g2].player_ids[s] as usize == k,
                        game == &self.games@[g as int],
                    decreases 4 - id_internal,
                {
                    let player_id = game.player_ids[id_internal] as usize;
                    let (games, wins) = match res.get(&player_id) {
                        Some(v) => *v,
                        None => (0, 0),
                    };
                    let won = w == Team::Team1 && id_internal % 2 == 0 || w == Team::Team2
                        && id_internal % 2 == 1;
                    let new_wins = if won { wins + 1 } else { wins };
                    res.insert(player_id, (games + 1, new_wins));
                    proof {
                        assert(self.games@[g as int].player_ids[id_internal as int] as usize == player_id);
                    }
                    id_internal += 1;
                }
            }
            proof {
                assert forall|k: usize| #[trigger] res@.contains_key(k) implies exists|g2: int, s: int|
                    0 <= g2 < g + 1 && 0 <= s < 4 && self.games@[g2].player_ids[s] as usize == k by {
                    let (g2, s) = choose|g2: int, s: int|
                        0 <= g2 <= g && 0 <= s < 4 && self.games@[g2].player_ids[s] as usize == k;
                    assert(0 <= g2 < g + 1);
                }
            }
            g += 1;
        }
        res
    }
}

} // verus!
