use riichienv::agari::{is_agari, is_chiitoitsu, is_kokushi};
use riichienv::score::calculate_score;
use riichienv::types::Hand;

#[test]
fn test_agari_standard() {
    // Pinfu Tsumo: 123 456 789 m 234 p 55 s
    let tiles = [
        0, 1, 2, // 123m
        3, 4, 5, // 456m
        6, 7, 8, // 789m
        9, 10, 11, // 123p (mapped to 9,10,11)
        18, 18, // 1s pair (mapped to 18)
    ];
    let mut hand = Hand::new(Some(tiles.to_vec()));
    assert!(is_agari(&mut hand), "Should be agari");
}

#[test]
fn test_basic_pinfu() {
    // 123m 456m 789m 123p 11s
    // m: 0-8, p: 9-17, s: 18-26_
    // 123p -> 9, 10, 11
    // 11s -> 18, 18
    let mut hand = Hand::new(None);
    // 123m
    hand.add(0);
    hand.add(1);
    hand.add(2);
    // 456m
    hand.add(3);
    hand.add(4);
    hand.add(5);
    // 789m
    hand.add(6);
    hand.add(7);
    hand.add(8);
    // 123p
    hand.add(9);
    hand.add(10);
    hand.add(11);
    // 11s (pair)
    hand.add(18);
    hand.add(18);

    assert!(is_agari(&mut hand));
}

#[test]
fn test_chiitoitsu() {
    let mut hand = Hand::new(None);
    let pairs = [0, 2, 4, 6, 8, 10, 12];
    for &t in &pairs {
        hand.add(t);
        hand.add(t);
    }
    assert!(is_chiitoitsu(&hand));
    assert!(is_agari(&mut hand));
}

#[test]
fn test_kokushi() {
    let mut hand = Hand::new(None);
    // 1m,9m, 1p,9p, 1s,9s, 1z-7z
    let terminals = [0, 8, 9, 17, 18, 26, 27, 28, 29, 30, 31, 32, 33];
    for &t in &terminals {
        hand.add(t);
    }
    hand.add(0); // Double 1m
    assert!(is_kokushi(&hand));
    assert!(is_agari(&mut hand));
}

#[test]
fn test_score_calculation() {
    // Mangan: 30fu 4han -> 7700 or 8000 (usually rounded) -> 2000 base
    // 30 * 2^(2+4) = 30 * 64 = 1920 -> 2000.
    // Ko Tsumo: 2000/4000? No, mangan is 8000 total.
    // Oya pays 4000, ko pays 2000.

    // Update: Current implementation does NOT do Kiriage Mangan (rounding 1920->2000).
    // So base is 1920.
    // Oya pays: ceil(1920*2/100)*100 = 3900.
    // Ko pays: ceil(1920/100)*100 = 2000.
    // Total: 3900 + 2000*2 = 7900.

    let score = calculate_score(4, 30, false, true); // Ko Tsumo

    assert_eq!(score.pay_tsumo_oya, 3900);
    assert_eq!(score.pay_tsumo_ko, 2000);
    assert_eq!(score.total, 7900); // 3900 + 2000 + 2000
}

#[test]
fn test_score_yakuman_ko_tsumo() {
    // Yakuman: base 8000. Ko tsumo: oya pays 16000, each ko 8000; 32000 total.
    let score = calculate_score(13, 30, false, true);
    assert_eq!(score.pay_tsumo_oya, 16000);
    assert_eq!(score.pay_tsumo_ko, 8000);
    assert_eq!(score.total, 32000);
}

#[test]
fn test_score_pinfu_tsumo_payments() {
    // 2 han 20 fu: base 20 * 2^4 = 320. Ko tsumo: oya 700, ko 400.
    let score = calculate_score(2, 20, false, true);
    assert_eq!(score.pay_tsumo_oya, 700);
    assert_eq!(score.pay_tsumo_ko, 400);
    assert_eq!(score.total, 1500);
}

#[test]
fn test_score_oya_ron() {
    // 3 han 30 fu dealer ron: base 30 * 32 = 960, pays ceil(5760/100)*100 = 5800.
    let score = calculate_score(3, 30, true, false);
    assert_eq!(score.pay_ron, 5800);
    assert_eq!(score.total, 5800);
}

#[test]
fn test_agari_rejects_near_miss() {
    // 13 tiles + an unrelated tile is not a winning hand.
    let tiles = [0, 1, 2, 3, 4, 5, 6, 7, 8, 9, 10, 11, 18, 20];
    let mut hand = Hand::new(Some(tiles.to_vec()));
    assert!(!is_agari(&mut hand));
}

#[test]
fn test_agari_honor_runs_refused() {
    // Honors may not form runs: E,S,W "run" plus melds is no win.
    let tiles = [27, 28, 29, 30, 30, 30, 31, 31, 31, 32, 32, 32, 33, 33];
    let mut hand = Hand::new(Some(tiles.to_vec()));
    assert!(!is_agari(&mut hand));
}
