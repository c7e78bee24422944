//! Core of a four-player riichi mahjong simulation engine: tile and hand
//! model, win detection, yaku and fu evaluation, point calculation, the
//! round state machine, and a fixed-shape tensor encoder for one seat's
//! per-turn observation and legal actions.

use vstd::prelude::*;

pub mod agari;
pub mod encode;
pub mod env;
pub mod schema;
pub mod score;
pub mod types;
pub mod yaku;

verus! {

/// Number of distinct tile kinds: man 0-8, pin 9-17, sou 18-26,
/// winds 27-30, dragons 31-33.
pub const NUM_KINDS: usize = 34;

} // verus!
