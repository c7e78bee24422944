//! Fixed shapes and integer codes of the per-turn tensors, and the
//! small conversions between engine values and tensor codes.

use vstd::prelude::*;
use crate::env::ActionType;
use crate::types::MeldType;

verus! {

pub const NUM_PLAYERS: usize = 4;

pub const MAX_STATE_TOKENS: usize = 256;
pub const MAX_ACTIONS: usize = 128;
pub const MAX_CONSUME_TILES: usize = 4;

pub const TOKEN_MAIN_DIM: usize = 7;

pub const TOK_CLS: i64 = 0;
pub const TOK_ROUND: i64 = 1;
pub const TOK_SCORE: i64 = 2;
pub const TOK_DORA: i64 = 3;
pub const TOK_DRAWN: i64 = 4;
pub const TOK_HAND: i64 = 5;
pub const TOK_MELD_TILE: i64 = 6;
pub const TOK_RIVER: i64 = 7;

pub const MAX_HAND_TIDS: usize = 14;
pub const MAX_RIVER: usize = 30;
pub const MAX_MELDS: usize = 4;
pub const MAX_MELD_TILES: usize = 4;
pub const MAX_DORA: usize = 5;

pub const ACTION_MAIN_DIM: usize = 6;

pub const ACT_DISCARD: i64 = 0;
pub const ACT_CHI: i64 = 1;
pub const ACT_PON: i64 = 2;
pub const ACT_DAIMINKAN: i64 = 3;
pub const ACT_ANKAN: i64 = 4;
pub const ACT_KAKAN: i64 = 5;
pub const ACT_RIICHI: i64 = 6;
pub const ACT_RON: i64 = 7;
pub const ACT_TSUMO: i64 = 8;
pub const ACT_PASS: i64 = 9;
pub const ACT_KYUSHU_KYUHAI: i64 = 10;

/// Sentinel tile id meaning "none" in tensor slots.
pub const TID_NONE: i64 = 136;

pub const RIVER_FLAG_TSUMOGIRI: u8 = 1;
pub const RIVER_FLAG_RIICHI_TILE: u8 = 2;
/// River flag values range over 0..NUM_RIVER_FLAGS.
pub const NUM_RIVER_FLAGS: u8 = 4;

/// Seat index relative to a viewpoint seat: 0 = the viewpoint itself,
/// then clockwise, so that `abs_to_rel(me, me) == 0`.
pub open spec fn spec_abs_to_rel(p_abs: int, me: int) -> int {
    ((p_abs - me) % 4 + 4) % 4
}

/// Turn an absolute seat index into one relative to `me`.
pub fn abs_to_rel(p_abs: u8, me: u8) -> (r: u8)
    requires
        me < 4,
    ensures
        r == spec_abs_to_rel(p_abs as int, me as int),
        r < 4,
{
    let r = ((p_abs % 4) + 4 - me) % 4;
    proof {
        let p = p_abs as int;
        let m = me as int;
        assert(r as int == ((p % 4) + 4 - m) % 4);
        assert(((p % 4) + 4 - m) % 4 == ((p - m) % 4 + 4) % 4) by {
            vstd::arithmetic::div_mod::lemma_mod_sub_multiples_vanish(p - m, 4);
            vstd::arithmetic::div_mod::lemma_mod_twice(p - m, 4);
            vstd::arithmetic::div_mod::lemma_add_mod_noop(p % 4, 4 - m, 4);
            vstd::arithmetic::div_mod::lemma_add_mod_noop((p - m) % 4, 4 - m + m, 4);
        }
    }
    r
}

/// Tensor code of a meld kind.
pub open spec fn spec_meld_kind(meld_type: MeldType) -> i64 {
    match meld_type {
        MeldType::Chi => 1,
        MeldType::Peng => 2,
        MeldType::Gang => 3,
        MeldType::Angang => 4,
        MeldType::Addgang => 5,
    }
}

/// Turn a meld kind into its tensor code.
pub fn meld_kind(meld_type: MeldType) -> (r: i64)
    ensures
        r == spec_meld_kind(meld_type),
{
    match meld_type {
        MeldType::Chi => 1,
        MeldType::Peng => 2,
        MeldType::Gang => 3,
        MeldType::Angang => 4,
        MeldType::Addgang => 5,
    }
}

/// Tensor code of an action kind.
pub open spec fn spec_action_kind(action_type: ActionType) -> i64 {
    match action_type {
        ActionType::Discard => ACT_DISCARD,
        ActionType::Chi => ACT_CHI,
        ActionType::Pon => ACT_PON,
        ActionType::Daiminkan => ACT_DAIMINKAN,
        ActionType::Ankan => ACT_ANKAN,
        ActionType::Kakan => ACT_KAKAN,
        ActionType::Riichi => ACT_RIICHI,
        ActionType::Ron => ACT_RON,
        ActionType::Tsumo => ACT_TSUMO,
        ActionType::Pass => ACT_PASS,
        ActionType::KyushuKyuhai => ACT_KYUSHU_KYUHAI,
    }
}

/// Turn an action kind into its tensor code.
pub fn action_kind(action_type: ActionType) -> (r: i64)
    ensures
        r == spec_action_kind(action_type),
{
    match action_type {
        ActionType::Discard => ACT_DISCARD,
        ActionType::Chi => ACT_CHI,
        ActionType::Pon => ACT_PON,
        ActionType::Daiminkan => ACT_DAIMINKAN,
        ActionType::Ankan => ACT_ANKAN,
        ActionType::Kakan => ACT_KAKAN,
        ActionType::Riichi => ACT_RIICHI,
        ActionType::Ron => ACT_RON,
        ActionType::Tsumo => ACT_TSUMO,
        ActionType::Pass => ACT_PASS,
        ActionType::KyushuKyuhai => ACT_KYUSHU_KYUHAI,
    }
}

} // verus!
