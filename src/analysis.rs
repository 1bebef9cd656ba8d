pub mod gt_stats;
pub mod exchange_stats;
