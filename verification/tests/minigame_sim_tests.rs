use tuxparty::game::UpdateProps;
use tuxparty::minigame::MinigameResult;
use tuxparty::minigames::castleclimb::MGCastleClimb;
use tuxparty::minigames::hotrope::MGHotRope;
use tuxparty::minigames::itemcatch::MGItemCatch;
use tuxparty::minigames::pong::MGPong;
use tuxparty::minigames::quickdraw::MGQuickdraw;
use tuxparty::minigames::snake::MGSnake;
use tuxparty::tputil::{InputMethod, InputState, Player, SourceInput};

fn idle(source: InputMethod) -> SourceInput {
    SourceInput {
        source,
        axis_x: 0,
        axis_y: 0,
        south: false,
        east: false,
        start: false,
        south_pressed: false,
        start_pressed: false,
    }
}

fn roster(n: u64) -> Vec<Player> {
    (0..n).map(|i| Player { input: InputMethod::Gamepad(i), color: i as usize }).collect()
}

fn quiet(players: &[Player], ms: u64) -> UpdateProps {
    UpdateProps { time: ms, input: InputState { sources: players.iter().map(|p| idle(p.input)).collect() } }
}

fn holding_south(players: &[Player], who: &[usize], ms: u64) -> UpdateProps {
    let mut sources: Vec<SourceInput> = players.iter().map(|p| idle(p.input)).collect();
    for &w in who {
        sources[w].south = true;
        sources[w].south_pressed = true;
    }
    UpdateProps { time: ms, input: InputState { sources } }
}

#[test]
fn quickdraw_all_early_signals_is_no_winner() {
    let players = roster(3);
    let mut g = MGQuickdraw::new(players.clone());
    // Well before the earliest possible go time, everyone signals.
    let r = g.update(&holding_south(&players, &[0, 1, 2], 16));
    assert!(matches!(r, Some(MinigameResult::Nothing)));
}

#[test]
fn quickdraw_signal_after_go_wins() {
    let players = roster(2);
    let mut g = MGQuickdraw::new(players.clone());
    // Skip past every possible go time, then player 1 signals.
    let r = g.update(&quiet(&players, 20_000));
    assert!(r.is_none());
    let r = g.update(&holding_south(&players, &[1], 16));
    assert!(matches!(r, Some(MinigameResult::Winner(1))));
}

#[test]
fn quickdraw_early_signal_eliminates() {
    let players = roster(2);
    let mut g = MGQuickdraw::new(players.clone());
    let r = g.update(&holding_south(&players, &[0], 16));
    assert!(r.is_none());
    assert!(g.player_buzzes[0] >= 0, "player 0 should carry an elimination stamp");
    assert_eq!(g.player_buzzes[1], -1);
}

#[test]
fn hotrope_first_cycle_speeds_up() {
    let players = roster(2);
    let mut g = MGHotRope::new(players.clone());
    // The rope starts beyond the sweep window with everyone standing:
    // the cycle restarts and the speed grows by ten percent.
    let r = g.update(&quiet(&players, 16));
    assert!(r.is_none());
    assert_eq!(g.speed, 1100);
    assert!(g.rope_pos <= 0);
}

#[test]
fn hotrope_sole_survivor_wins() {
    let players = roster(2);
    let mut g = MGHotRope::new(players.clone());
    // Mark player 0 as swept long ago; the survivor is announced once
    // nobody is mid-fall.
    g.swept_at[0] = 0;
    g.time = 5_000;
    let r = g.update(&quiet(&players, 16));
    assert!(matches!(r, Some(MinigameResult::Winner(1))));
}

#[test]
fn snake_lone_snake_wins_first_step() {
    let players = roster(1);
    let mut g = MGSnake::new(players.clone());
    let r = g.update(&quiet(&players, 250));
    assert!(matches!(r, Some(MinigameResult::Winner(0))));
}

#[test]
fn snake_survives_rival_crashing_into_the_wall() {
    let players = roster(2);
    let mut g = MGSnake::new(players.clone());
    // Both snakes run straight at the walls. The southbound one starts
    // a row closer to its wall and crashes first, leaving the other as
    // the winner.
    let mut result = None;
    for _ in 0..64 {
        if let Some(r) = g.update(&quiet(&players, 250)) {
            result = Some(r);
            break;
        }
    }
    assert!(matches!(result, Some(MinigameResult::Winner(0))));
}

#[test]
fn snake_turns_latch_once_per_step() {
    let players = roster(1);
    let mut g = MGSnake::new(players.clone());
    let mut sources: Vec<SourceInput> = players.iter().map(|p| idle(p.input)).collect();
    sources[0].axis_x = 900;
    let props = UpdateProps { time: 16, input: InputState { sources } };
    let r = g.update(&props);
    assert!(r.is_none());
    assert!(g.turned[0]);
}

#[test]
fn itemcatch_times_out_with_scores() {
    let players = roster(2);
    let mut g = MGItemCatch::new(players.clone());
    let r = g.update(&quiet(&players, 31_000));
    match r {
        Some(MinigameResult::Ratios(v)) => assert_eq!(v, vec![0, 0]),
        other => panic!("expected a Ratios outcome, got {:?}", other),
    }
}

#[test]
fn itemcatch_keeps_players_inside_the_walls() {
    let players = roster(1);
    let mut g = MGItemCatch::new(players.clone());
    let mut sources: Vec<SourceInput> = players.iter().map(|p| idle(p.input)).collect();
    sources[0].axis_x = 1000;
    let props = UpdateProps { time: 5000, input: InputState { sources } };
    let r = g.update(&props);
    assert!(r.is_none());
    assert!(g.pos_x[0] <= 940);
}

#[test]
fn castleclimb_lone_player_wins_at_once() {
    let players = roster(1);
    let mut g = MGCastleClimb::new(players.clone());
    let r = g.update(&quiet(&players, 16));
    assert!(matches!(r, Some(MinigameResult::Winner(0))));
}

#[test]
fn castleclimb_round_runs_while_two_stand() {
    let players = roster(2);
    let mut g = MGCastleClimb::new(players.clone());
    let r = g.update(&quiet(&players, 16));
    assert!(r.is_none());
    // Platform generation filled the screen upward.
    assert!(g.blocks.len() > 1);
    assert!(g.blocks[g.blocks.len() - 1].y <= -2000);
}

#[test]
fn pong_lone_player_wins_at_once() {
    let players = roster(1);
    let mut g = MGPong::new(players.clone());
    let r = g.update(&quiet(&players, 16));
    assert!(matches!(r, Some(MinigameResult::Winner(0))));
}

#[test]
fn pong_round_runs_with_two_players() {
    let players = roster(2);
    let mut g = MGPong::new(players.clone());
    let r = g.update(&quiet(&players, 16));
    assert!(r.is_none());
    assert!(!g.out[0] && !g.out[1]);
}
