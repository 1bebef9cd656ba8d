use tichu_rust::bsw_binary_format::binary_format_constants::Team;
use tichu_rust::bsw_binary_format::game::Game;
use tichu_rust::bsw_binary_format::player_round_hand::{PlayerRoundHand, PlayerRoundHandIntegrityError};
use tichu_rust::bsw_binary_format::round::{Round, RoundIntegrityError};
use tichu_rust::bsw_binary_format::round_log::{RoundLog, TaggedCardIndex, TaggedCardIndexT, TaggedHand, TaggedHandT};
use tichu_rust::bsw_binary_format::trick::{Trick, TrickIntegrityError};
use tichu_rust::tichu_hand::{hand_from_cards, Hand, DOG, DRAGON, FIVE, FOUR, KING, PHOENIX, RED, THREE, TRICK_DOG, TRICK_SINGLETON, TWO, YELLOW, BLUE};

fn h(cards: &[u8]) -> Hand {
    hand_from_cards(cards)
}

fn extras(fields: &[(u32, u64)]) -> u64 {
    fields.iter().fold(0u64, |acc, (shift, v)| acc | (v << shift))
}

#[test]
fn player_record_fields() {
    let p = PlayerRoundHand {
        first_8: 0,
        first_14: 0,
        extras: extras(&[(0, 5), (6, 17), (12, 33), (18, 2), (24, 40), (30, 61), (36, 1), (38, 2), (44, 3), (46, 1), (52, 3), (54, 80)]),
    };
    assert_eq!(p.left_out_exchange_card(), 5);
    assert_eq!(p.partner_out_exchange_card(), 17);
    assert_eq!(p.right_out_exchange_card(), 33);
    assert_eq!(p.left_in_exchange_card(), 2);
    assert_eq!(p.partner_in_exchange_card(), 40);
    assert_eq!(p.right_in_exchange_card(), 61);
    assert_eq!(p.player_0_call(), 1);
    assert_eq!(p.player_1_call(), 2);
    assert_eq!(p.player_call(1), 2);
    assert_eq!(p.player_2_call(), 0);
    assert_eq!(p.player_3_call(), 0);
    assert_eq!(p.player_id(), 3);
    assert_eq!(p.player_0_rank(), 1);
    assert_eq!(p.player_1_rank(), 0);
    assert_eq!(p.player_2_rank(), 0);
    assert_eq!(p.player_3_rank(), 3);
    assert_eq!(p.player_rank(3), 3);
    assert!(p.is_double_win_team_1());
    assert!(!p.is_double_win_team_2());
    // team 1: tichu of seat 0 lost (-100) + double win; team 2: grand tichu of seat 1 won
    assert_eq!(p.round_score(), (100, 200));
    assert_eq!(p.round_score_relative_gain(), 100);
}

#[test]
fn round_score_with_card_points() {
    let p = PlayerRoundHand {
        first_8: 0,
        first_14: 0,
        extras: extras(&[(46, 0), (48, 1), (50, 2), (52, 3), (54, 80), (44, 0)]),
    };
    assert!(!p.is_double_win_team_1());
    assert_eq!(p.round_score(), (55, 45));
    assert_eq!(p.round_score_relative_gain(), 10);
}

#[test]
fn final_hand_after_exchange() {
    let p = PlayerRoundHand {
        first_8: 0,
        first_14: h(&[TWO + RED, THREE + RED, FOUR + RED]),
        extras: extras(&[(0, (TWO + RED) as u64), (6, (THREE + RED) as u64), (12, (FOUR + RED) as u64), (18, 5), (24, 6), (30, 7)]),
    };
    assert_eq!(p.final_14(), h(&[5, 6, 7]));
    assert_eq!(p.integrity_check(), Err(PlayerRoundHandIntegrityError::First8Count(0)));
}

#[test]
fn empty_round_fails_its_check() {
    let round = Round::default();
    assert_eq!(round.integrity_check(), Err(RoundIntegrityError::Child(PlayerRoundHandIntegrityError::First8Count(0))));
}

#[test]
fn tagged_cards() {
    let t = <TaggedCardIndex as TaggedCardIndexT>::construct(3, 45);
    assert_eq!(t.get_player(), 3);
    assert_eq!(t.get_card(), 45);
}

#[test]
fn trick_round_trip_through_the_log() {
    let trick = Trick {
        trick_type: TRICK_SINGLETON,
        trick_log: vec![(1, h(&[TWO + RED])), (2, h(&[KING + YELLOW])), (3, h(&[DRAGON]))],
    };
    let mut log = RoundLog::default();
    trick.serialize_into(&mut log);
    let pairs = Trick { trick_type: 1, trick_log: vec![(0, h(&[THREE + RED, THREE + BLUE]))] };
    pairs.serialize_into(&mut log);
    let mut iter = log.iter();
    let first = iter.next_trick().unwrap();
    assert_eq!(first.trick_type, TRICK_SINGLETON);
    assert_eq!(first.trick_log, trick.trick_log);
    let second = iter.next_trick().unwrap();
    assert_eq!(second.trick_log, pairs.trick_log);
    assert!(iter.next_trick().is_none());
    assert_eq!(trick.played_cards(), h(&[TWO + RED, KING + YELLOW, DRAGON]));
    assert!(trick.has_to_gift_trick());
    assert_eq!(trick.get_starting_player(), 1);
    assert_eq!(trick.get_trick_winner(), 3);
    assert_eq!(trick.get_player(1), 2);
    assert_eq!(trick.get_hand(1), h(&[KING + YELLOW]));
}

#[test]
fn trick_checks() {
    let mut hands: [Hand; 4] = [h(&[TWO + RED, DOG]), h(&[KING + YELLOW]), h(&[FIVE + BLUE]), 0];
    let trick = Trick { trick_type: TRICK_SINGLETON, trick_log: vec![(0, h(&[TWO + RED])), (1, h(&[KING + YELLOW]))] };
    assert!(trick.integrity_check(&mut hands).is_ok());
    assert_eq!(hands[0], h(&[DOG]));
    assert_eq!(hands[1], 0);
    let smaller = Trick { trick_type: TRICK_SINGLETON, trick_log: vec![(2, h(&[FIVE + BLUE])), (0, h(&[DOG]))] };
    assert!(matches!(smaller.integrity_check(&mut hands), Err(TrickIntegrityError::HandWrongTrickType(..))));
    let empty = Trick { trick_type: TRICK_SINGLETON, trick_log: vec![] };
    assert!(matches!(empty.integrity_check(&mut hands), Err(TrickIntegrityError::EmptyTrickLog)));
    let dogs = Trick { trick_type: TRICK_DOG, trick_log: vec![(0, h(&[DOG])), (1, h(&[PHOENIX]))] };
    assert!(matches!(dogs.integrity_check(&mut hands), Err(TrickIntegrityError::DogTrickTooLong)));
    let dog = Trick { trick_type: TRICK_DOG, trick_log: vec![(1, h(&[DOG]))] };
    assert_eq!(dog.get_trick_winner(), 3);
    let mut stolen: [Hand; 4] = [0, 0, 0, 0];
    assert!(matches!(trick.integrity_check(&mut stolen), Err(TrickIntegrityError::HandNotAvailable { .. })));
}

fn quick_round() -> (Round, RoundLog) {
    // the six exchanged cards of every record are card 0, so each final hand is the
    // dealt hand with that card toggled
    let mut round = Round::default();
    round.player_rounds[0].first_14 = h(&[PHOENIX, TWO + YELLOW]);
    round.player_rounds[1].first_14 = h(&[PHOENIX, FOUR + YELLOW]);
    round.player_rounds[2].first_14 = h(&[PHOENIX, THREE + YELLOW]);
    round.player_rounds[3].first_14 = h(&[PHOENIX, FIVE + YELLOW]);
    let mut log = RoundLog::default();
    Trick { trick_type: TRICK_SINGLETON, trick_log: vec![(0, h(&[TWO + YELLOW])), (2, h(&[THREE + YELLOW]))] }
        .serialize_into(&mut log);
    (round, log)
}

#[test]
fn double_win_round() {
    let (round, log) = quick_round();
    assert_eq!(round.get_starting_hands()[0], h(&[TWO + YELLOW]));
    assert_eq!(log.play_round(&round).unwrap(), ([0, 3, 1, 3], [0, 0, 0, 0], true));
    assert!(log.integrity_check(&round).is_ok());
    let text = log.to_debug_str(&round);
    assert!(text.contains("Trick 0 with type 0"));
}

#[test]
fn dragon_gift_repair() {
    let mut round = Round::default();
    round.player_rounds[0].first_14 = h(&[PHOENIX, DRAGON]);
    round.player_rounds[1].first_14 = h(&[PHOENIX]);
    round.player_rounds[2].first_14 = h(&[PHOENIX, TWO + BLUE]);
    round.player_rounds[3].first_14 = h(&[PHOENIX, FIVE + RED]);
    let mut log = RoundLog { mahjong_wish: None, dragon_player_gift: Some(2), log: vec![] };
    Trick { trick_type: TRICK_SINGLETON, trick_log: vec![(0, h(&[DRAGON]))] }.serialize_into(&mut log);
    // the dragon went to the teammate; seat 1 is out, so it belongs to seat 3
    assert_eq!(log.try_fix_dragon_gifting(&round), Some(true));
    assert_eq!(log.dragon_player_gift, Some(3));
    assert_eq!(log.try_fix_dragon_gifting(&round), None);
}

#[test]
fn game_winner() {
    let mut won = Round::default();
    won.player_rounds[0].extras = extras(&[(46, 0), (50, 1), (48, 2), (52, 3)]);
    let game = Game { rounds: vec![(won, RoundLog::default())], player_ids: [0, 1, 2, 3], original_bsw_id: 7, parsing_flags: 0 };
    assert_eq!(game.get_winner(), Some(Team::Team1));
    assert_eq!(Team::Team2.get_players(), (1, 3));
    let empty = Game { rounds: vec![], player_ids: [0, 1, 2, 3], original_bsw_id: 7, parsing_flags: 0 };
    assert_eq!(empty.get_winner(), None);
}

#[test]
fn tagged_hands() {
    let hand = h(&[TWO + RED, KING + YELLOW, DRAGON]);
    let t = <TaggedHand as TaggedHandT>::construct(2, hand);
    assert_eq!(TaggedHandT::get_player(&t), 2);
    assert_eq!(TaggedHandT::get_hand(&t), hand);
}

#[test]
fn round_with_bad_records() {
    let round = Round::default();
    let mut full = round;
    for p in 0..4 {
        full.player_rounds[p].first_8 = 0xFF;
    }
    assert!(matches!(full.integrity_check(), Err(RoundIntegrityError::Child(_))));
}
