//! The 14-tile family: 34 tile kinds, hands of one pair plus four melds.

pub mod agari;
pub mod hand;
pub mod handchecker;
pub mod set;
pub mod stats;
pub mod tile;
