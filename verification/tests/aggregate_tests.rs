use tuxparty::minigame::{aggregate_result, apply_delta, MinigameResult};

#[test]
fn nothing_pays_nobody() {
    let coins: Vec<u16> = vec![5, 10, 15];
    let r = aggregate_result(&MinigameResult::Nothing, &coins);
    assert_eq!(r, vec![0, 0, 0]);
}

#[test]
fn winner_takes_whole_pool() {
    let coins: Vec<u16> = vec![5, 10, 15];
    let r = aggregate_result(&MinigameResult::Winner(1), &coins);
    assert_eq!(r, vec![0, 10, 0]);
}

#[test]
fn winner_out_of_range_pays_nobody() {
    let coins: Vec<u16> = vec![5, 10];
    let r = aggregate_result(&MinigameResult::Winner(7), &coins);
    assert_eq!(r, vec![0, 0]);
}

#[test]
fn tie_of_three_rounds_down() {
    // Pool 10 split three ways: 3 each, total 9 — the remainder is
    // dropped, not redistributed.
    let coins: Vec<u16> = vec![0, 0, 0, 0];
    let r = aggregate_result(&MinigameResult::Tie(vec![0, 1, 2]), &coins);
    assert_eq!(r, vec![3, 3, 3, 0]);
    let total: i64 = r.iter().sum();
    assert_eq!(total, 9);
    assert_ne!(total, 10);
}

#[test]
fn tie_of_two_splits_evenly() {
    let coins: Vec<u16> = vec![0, 0, 0];
    let r = aggregate_result(&MinigameResult::Tie(vec![2, 0]), &coins);
    assert_eq!(r, vec![5, 0, 5]);
}

#[test]
fn ratios_normalize_by_larger_side() {
    // Normalizer = max(4, 2) = 4, scale = 10/4: deltas 10 and -5.
    let coins: Vec<u16> = vec![100, 100];
    let r = aggregate_result(&MinigameResult::Ratios(vec![4, -2]), &coins);
    assert_eq!(r, vec![10, -5]);
}

#[test]
fn ratios_negative_clamps_at_balance() {
    // The loser holds only 3 coins, so the -5 clamps to -3.
    let coins: Vec<u16> = vec![100, 3];
    let r = aggregate_result(&MinigameResult::Ratios(vec![4, -2]), &coins);
    assert_eq!(r, vec![10, -3]);
}

#[test]
fn ratios_zero_normalizer_pays_nobody() {
    let coins: Vec<u16> = vec![7, 7];
    let r = aggregate_result(&MinigameResult::Ratios(vec![0, 0]), &coins);
    assert_eq!(r, vec![0, 0]);
}

#[test]
fn ratios_negative_only_normalizes_by_magnitude() {
    // Normalizer = max(0, 5) = 5; deltas -8 and -2 before clamping.
    let coins: Vec<u16> = vec![100, 100];
    let r = aggregate_result(&MinigameResult::Ratios(vec![-4, -1]), &coins);
    assert_eq!(r, vec![-8, -2]);
}

#[test]
fn ratios_truncate_toward_zero() {
    // Normalizer 7: 7 * 10 / 7 = 10; -3 * 10 / 7 = -4.28.. -> -4, not -5.
    let coins: Vec<u16> = vec![100, 100];
    let r = aggregate_result(&MinigameResult::Ratios(vec![7, -3]), &coins);
    assert_eq!(r, vec![10, -4]);
}

#[test]
fn apply_delta_clamps_at_zero() {
    assert_eq!(apply_delta(5, -10), 0);
    assert_eq!(apply_delta(5, -5), 0);
    assert_eq!(apply_delta(5, -4), 1);
}

#[test]
fn apply_delta_adds_and_caps() {
    assert_eq!(apply_delta(5, 3), 8);
    assert_eq!(apply_delta(65530, 100), 65535);
    assert_eq!(apply_delta(0, 0), 0);
}
