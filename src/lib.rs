pub mod bits;
pub mod tichu_hand;
pub mod street_detection_tricks;
pub mod pair_street_detection_trick;
pub mod countable_properties;
pub mod analysis;
pub mod enumerate_hands;
pub mod bsw_binary_format;
pub mod bsw_database;
pub mod enumeration_results;
