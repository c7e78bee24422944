use std::collections::HashMap;
use riichienv::encode::encode_turn;
use riichienv::env::{Action, ActionType, Phase, RiichiEnv};
use riichienv::schema::{abs_to_rel, action_kind, meld_kind};
use riichienv::types::{Meld, MeldType};

fn empty_env() -> RiichiEnv {
    RiichiEnv {
        wall: Vec::new(),
        hands: [Vec::new(), Vec::new(), Vec::new(), Vec::new()],
        melds: [Vec::new(), Vec::new(), Vec::new(), Vec::new()],
        discards: [Vec::new(), Vec::new(), Vec::new(), Vec::new()],
        current_player: 0,
        turn_count: 0,
        is_done: false,
        needs_tsumo: false,
        needs_initialize_next_round: false,
        pending_oya_won: false,
        pending_is_draw: false,
        scores: [25000; 4],
        score_deltas: [0; 4],
        riichi_sticks: 0,
        riichi_declared: [false; 4],
        riichi_stage: [false; 4],
        double_riichi_declared: [false; 4],
        phase: Phase::WaitAct,
        active_players: vec![0],
        last_discard: None,
        current_claims: HashMap::new(),
        pending_kan: None,
        oya: 0,
        honba: 0,
        kyoku_idx: 0,
        dora_indicators: Vec::new(),
        rinshan_draw_count: 0,
        pending_kan_dora_count: 0,
        is_rinshan_flag: false,
        is_first_turn: true,
        missed_agari_riichi: [false; 4],
        missed_agari_doujun: [false; 4],
        riichi_pending_acceptance: None,
        nagashi_eligible: [true; 4],
        drawn_tile: None,
        wall_digest: String::new(),
        salt: String::new(),
        agari_results: HashMap::new(),
        last_agari_results: HashMap::new(),
        round_end_scores: None,
        mjai_log: Vec::new(),
        mjai_log_per_player: [Vec::new(), Vec::new(), Vec::new(), Vec::new()],
        player_event_counts: [0; 4],
        round_wind: 0,
        ippatsu_cycle: [false; 4],
        game_type: 0,
        skip_mjai_logging: false,
        seed: None,
        forbidden_discards: [Vec::new(), Vec::new(), Vec::new(), Vec::new()],
    }
}

#[test]
fn test_abs_to_rel_wraps() {
    assert_eq!(abs_to_rel(0, 0), 0);
    assert_eq!(abs_to_rel(1, 3), 2);
    assert_eq!(abs_to_rel(3, 1), 2);
    assert_eq!(abs_to_rel(2, 2), 0);
}

#[test]
fn test_meld_and_action_kind_codes() {
    assert_eq!(meld_kind(MeldType::Chi), 1);
    assert_eq!(meld_kind(MeldType::Peng), 2);
    assert_eq!(meld_kind(MeldType::Gang), 3);
    assert_eq!(meld_kind(MeldType::Angang), 4);
    assert_eq!(meld_kind(MeldType::Addgang), 5);
    assert_eq!(action_kind(ActionType::Discard), 0);
    assert_eq!(action_kind(ActionType::Ron), 7);
    assert_eq!(action_kind(ActionType::KyushuKyuhai), 10);
}

#[test]
fn test_encode_turn_layout() {
    let mut env = empty_env();
    env.honba = 2;
    env.riichi_sticks = 1;
    env.kyoku_idx = 3;
    env.oya = 1;
    env.round_wind = 1;
    env.scores = [26000, 25000, 24000, 25000];
    env.dora_indicators = vec![52];
    env.current_player = 2;
    env.drawn_tile = Some(100);
    env.discards[0].push((8, 0));
    env.melds[3].push(Meld {
        meld_type: MeldType::Peng,
        tiles: vec![40, 41, 42],
        opened: true,
        from_seat: 0,
    });
    let hand: Vec<u8> = vec![16, 4, 8, 12];
    let actions = vec![
        Action { action_type: ActionType::Discard, tile: Some(16), consume_tiles: vec![] },
        Action { action_type: ActionType::Pon, tile: Some(40), consume_tiles: vec![41, 43] },
    ];
    let y = encode_turn(&env, 2, &hand, &actions).expect("encodes");

    // CLS token.
    assert_eq!(y.token_main[0].ttype, 0);
    assert_eq!(y.token_main[0].tile, 136);
    // ROUND token: wind and dealer relative to seat 2; raw scalars.
    assert_eq!(y.token_main[1].ttype, 1);
    assert_eq!(y.token_main[1].aux1, 1);
    assert_eq!(y.token_main[1].aux2, 3);
    assert_eq!(y.token_scalar[1].c0, 2);
    assert_eq!(y.token_scalar[1].c1, 1);
    assert_eq!(y.token_scalar[1].c2, 3);
    // SCORE token of absolute seat 0: relative seat 2, score offset.
    assert_eq!(y.token_main[2].ttype, 2);
    assert_eq!(y.token_main[2].seat, 2);
    assert_eq!(y.token_scalar[2].c0, 1000);
    // DORA token.
    assert_eq!(y.token_main[6].ttype, 3);
    assert_eq!(y.token_main[6].tile, 52);
    // DRAWN token: viewpoint is the actor, so the tile shows.
    assert_eq!(y.token_main[7].ttype, 4);
    assert_eq!(y.token_main[7].tile, 100);
    // HAND tokens sorted ascending.
    assert_eq!(y.token_main[8].tile, 4);
    assert_eq!(y.token_main[9].tile, 8);
    assert_eq!(y.token_main[10].tile, 12);
    assert_eq!(y.token_main[11].tile, 16);
    // MELD tokens of seat 3 (relative 1), then RIVER token of seat 0.
    assert_eq!(y.token_main[12].ttype, 6);
    assert_eq!(y.token_main[12].seat, 1);
    assert_eq!(y.token_main[12].aux1, 2);
    assert_eq!(y.token_main[15].ttype, 7);
    assert_eq!(y.token_main[15].seat, 2);
    assert_eq!(y.token_main[15].tile, 8);
    // Mask: 16 real tokens.
    assert!(y.token_mask[15]);
    assert!(!y.token_mask[16]);
    // Actions.
    assert_eq!(y.action_main[0].kind, 0);
    assert_eq!(y.action_main[0].tile, 16);
    assert_eq!(y.action_main[0].has_tile, 1);
    assert_eq!(y.action_main[1].kind, 2);
    assert_eq!(y.action_main[1].consume_len, 2);
    assert_eq!(y.action_consume[1].t0, 41);
    assert_eq!(y.action_consume[1].t1, 43);
    assert_eq!(y.action_consume[1].t2, 136);
    assert!(y.action_consume_mask[1].m1);
    assert!(!y.action_consume_mask[1].m2);
    assert!(y.legal_action_mask[1]);
    assert!(!y.legal_action_mask[2]);
}

#[test]
fn test_encode_turn_round_trip() {
    let mut env = empty_env();
    env.dora_indicators = vec![5];
    env.discards[1].push((77, 1));
    let hand: Vec<u8> = vec![3, 1, 2];
    let actions = vec![Action {
        action_type: ActionType::Pass,
        tile: None,
        consume_tiles: vec![],
    }];
    let a = encode_turn(&env, 1, &hand, &actions).expect("encodes");
    let b = encode_turn(&env, 1, &hand, &actions).expect("encodes");
    assert_eq!(a.token_main, b.token_main);
    assert_eq!(a.token_scalar, b.token_scalar);
    assert_eq!(a.token_mask, b.token_mask);
    assert_eq!(a.action_main, b.action_main);
    assert_eq!(a.action_consume, b.action_consume);
    assert_eq!(a.action_consume_mask, b.action_consume_mask);
    assert_eq!(a.legal_action_mask, b.legal_action_mask);
}

#[test]
fn test_encode_turn_overflow_errors() {
    let env = empty_env();
    let hand: Vec<u8> = vec![0; 15];
    let actions = vec![Action {
        action_type: ActionType::Pass,
        tile: None,
        consume_tiles: vec![],
    }];
    assert!(encode_turn(&env, 0, &hand, &actions).is_err());

    let hand_ok: Vec<u8> = vec![0];
    let no_actions: Vec<Action> = Vec::new();
    assert!(encode_turn(&env, 0, &hand_ok, &no_actions).is_err());

    let bad_tid: Vec<u8> = vec![200];
    assert!(encode_turn(&env, 0, &bad_tid, &actions).is_err());
}
