//! Enumeration and classification of winning tile hands.
//!
//! A hand is a fixed-size multiset of tiles.  The library decomposes a hand
//! into every valid arrangement of one pair plus a fixed number of
//! three-tile groups (melds), classifies each arrangement against a closed
//! catalogue of scoring categories, and derives a capped score.  Two closed
//! tile families are modelled: a 14-tile family with four melds per hand
//! (module [`four`]) and an 11-tile family with three melds per hand
//! (module [`three`]).

pub mod four;
pub mod three;
