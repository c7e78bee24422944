//! Round state machine: phases, actions, and the environment that owns
//! wall, hands, rivers, melds and scores.

use vstd::prelude::*;
use std::collections::HashMap;
use crate::score::Score;
use crate::types::Meld;

verus! {

/// Phase of the round state machine.
#[derive(Clone, Copy, PartialEq, Eq, Debug)]
pub enum Phase {
    /// The current actor must draw and act, or a claim has just landed.
    WaitAct,
    /// A discard is open to rival seats.
    WaitClaim,
    /// A riichi declaration tile may still be ronned before acceptance.
    WaitRiichiAccept,
    /// Round over, next round not yet initialized.
    DoneKyoku,
    /// Match over.
    DoneGame,
}

/// Kind of an action a seat may take.
#[derive(Clone, Copy, PartialEq, Eq, Debug)]
pub enum ActionType {
    Discard,
    Chi,
    Pon,
    Daiminkan,
    Ankan,
    Kakan,
    Riichi,
    Ron,
    Tsumo,
    Pass,
    KyushuKyuhai,
}

/// One candidate action: its kind, the declared tile if any, and the
/// concealed tiles consumed to form a meld.
#[derive(Clone, Debug)]
pub struct Action {
    pub action_type: ActionType,
    pub tile: Option<u8>,
    pub consume_tiles: Vec<u8>,
}

/// The whole state of one match: wall, per-seat hands, melds and
/// rivers, scores, riichi bookkeeping, round counters, claim windows,
/// and the event log.
///
/// A river entry is a pair (tile id, flags), flags below
/// `crate::schema::NUM_RIVER_FLAGS`.
pub struct RiichiEnv {
    pub wall: Vec<u8>,
    pub hands: [Vec<u8>; 4],
    pub melds: [Vec<Meld>; 4],
    pub discards: [Vec<(u8, u8)>; 4],
    pub current_player: u8,
    pub turn_count: u32,
    pub is_done: bool,
    pub needs_tsumo: bool,
    pub needs_initialize_next_round: bool,
    pub pending_oya_won: bool,
    pub pending_is_draw: bool,
    pub scores: [i32; 4],
    pub score_deltas: [i32; 4],
    pub riichi_sticks: u32,
    pub riichi_declared: [bool; 4],
    pub riichi_stage: [bool; 4],
    pub double_riichi_declared: [bool; 4],
    pub phase: Phase,
    pub active_players: Vec<u8>,
    pub last_discard: Option<(u8, u8)>,
    pub current_claims: HashMap<u8, Action>,
    pub pending_kan: Option<(u8, u8)>,
    pub oya: u8,
    pub honba: u32,
    pub kyoku_idx: u8,
    pub dora_indicators: Vec<u8>,
    pub rinshan_draw_count: u32,
    pub pending_kan_dora_count: u32,
    pub is_rinshan_flag: bool,
    pub is_first_turn: bool,
    pub missed_agari_riichi: [bool; 4],
    pub missed_agari_doujun: [bool; 4],
    pub riichi_pending_acceptance: Option<u8>,
    pub nagashi_eligible: [bool; 4],
    pub drawn_tile: Option<u8>,
    pub wall_digest: String,
    pub salt: String,
    pub agari_results: HashMap<u8, Score>,
    pub last_agari_results: HashMap<u8, Score>,
    pub round_end_scores: Option<[i32; 4]>,
    pub mjai_log: Vec<String>,
    pub mjai_log_per_player: [Vec<String>; 4],
    pub player_event_counts: [u32; 4],
    pub round_wind: u8,
    pub ippatsu_cycle: [bool; 4],
    pub game_type: u8,
    pub skip_mjai_logging: bool,
    pub seed: Option<u64>,
    pub forbidden_discards: [Vec<u8>; 4],
}

} // verus!
