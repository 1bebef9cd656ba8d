pub mod binary_format_constants;
pub mod player_round_hand;
pub mod round;
pub mod trick;
pub mod round_log;
pub mod game;
