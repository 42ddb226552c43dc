//! The 11-tile family: 23 tile kinds, hands of one pair plus three melds.

pub mod agari;
pub mod exposure;
pub mod hand;
pub mod handchecker;
pub mod set;
pub mod stats;
pub mod tile;
