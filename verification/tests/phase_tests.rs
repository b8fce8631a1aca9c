use tuxparty::board::{Board, Space, SpaceTransition, SpaceType};
use tuxparty::game::{Phase, UpdateProps};
use tuxparty::ingame::{BoardMoveState, DieRollState, GameInfo, PlayerInfo};
use tuxparty::minigame::{Minigame, MinigameState};
use tuxparty::minigames::quickdraw::MGQuickdraw;
use tuxparty::tputil::{InputMethod, InputState, Player, Point2D, SourceInput};

fn idle(source: InputMethod) -> SourceInput {
    SourceInput {
        source,
        axis_x: 0,
        axis_y: 0,
        south: false,
        east: false,
        start: false,
        south_pressed: false,
        start_pressed: false,
    }
}

fn quiet_tick(players: &[Player], ms: u64) -> UpdateProps {
    let sources = players.iter().map(|p| idle(p.input)).collect();
    UpdateProps { time: ms, input: InputState { sources } }
}

fn confirm_tick(players: &[Player], who: usize, ms: u64) -> UpdateProps {
    let mut sources: Vec<SourceInput> = players.iter().map(|p| idle(p.input)).collect();
    sources[who].south = true;
    sources[who].south_pressed = true;
    UpdateProps { time: ms, input: InputState { sources } }
}

fn all_south_tick(players: &[Player], ms: u64) -> UpdateProps {
    let sources = players
        .iter()
        .map(|p| {
            let mut s = idle(p.input);
            s.south = true;
            s.south_pressed = true;
            s
        })
        .collect();
    UpdateProps { time: ms, input: InputState { sources } }
}

fn three_player_session() -> (GameInfo, Vec<Player>) {
    let players: Vec<Player> = (0..3u64)
        .map(|i| Player { input: InputMethod::Gamepad(i), color: i as usize })
        .collect();
    let roster: Vec<PlayerInfo> = players.iter().map(|p| PlayerInfo::from(*p)).collect();
    let game = GameInfo::new(roster, Board::get_default_board());
    (game, players)
}

/// Drives a die-roll phase for `who` through confirm and animation until
/// it hands over to movement, then through the movement and the space
/// result. Returns the phase after the space-result pause expires.
fn play_one_turn(mut phase: Phase, players: &[Player], who: usize) -> Phase {
    // Confirm the roll.
    phase = phase.update(&confirm_tick(players, who, 16));
    assert!(matches!(phase, Phase::DieRoll(_)));
    // Let the confirmation animation finish: the roll hands to movement.
    phase = phase.update(&quiet_tick(players, 600));
    // The die showed 1 (confirmed on the first tick), so a single move:
    // drive the slide until the space result appears.
    let mut hops = 0;
    loop {
        match phase {
            Phase::BoardMove(_) | Phase::TransitionChoice(_) => {
                // Confirm any branch choice; just wait out moves.
                phase = phase.update(&confirm_tick(players, who, 500));
                hops += 1;
                assert!(hops < 100, "movement never finished");
            }
            Phase::SpaceResult(_) => break,
            ref other => panic!("unexpected phase while moving: {}", phase_name(other)),
        }
    }
    // Wait out the result pause.
    phase.update(&quiet_tick(players, 1100))
}

fn phase_name(p: &Phase) -> &'static str {
    match p {
        Phase::Menu(_) => "Menu",
        Phase::Join(_) => "Join",
        Phase::DieRoll(_) => "DieRoll",
        Phase::TransitionChoice(_) => "TransitionChoice",
        Phase::BoardMove(_) => "BoardMove",
        Phase::SpaceResult(_) => "SpaceResult",
        Phase::Minigame(_) => "Minigame",
        Phase::MinigameResult(_) => "MinigameResult",
    }
}

#[test]
fn turn_cycling_visits_every_player_then_minigame_then_player_zero() {
    let (game, players) = three_player_session();
    let mut phase = Phase::DieRoll(DieRollState::new(game, 0));

    // Player 0's turn ends at player 1's die roll.
    phase = play_one_turn(phase, &players, 0);
    match &phase {
        Phase::DieRoll(d) => assert_eq!(d.turn, 1),
        other => panic!("expected player 1's roll, got {}", phase_name(other)),
    }

    // Player 1's turn ends at player 2's die roll.
    phase = play_one_turn(phase, &players, 1);
    match &phase {
        Phase::DieRoll(d) => assert_eq!(d.turn, 2),
        other => panic!("expected player 2's roll, got {}", phase_name(other)),
    }

    // Player 2's turn ends at the minigame — only after every player
    // has moved.
    phase = play_one_turn(phase, &players, 2);
    let game_now = match phase {
        Phase::Minigame(m) => m.game,
        ref other => panic!("expected the minigame, got {}", phase_name(other)),
    };

    // Deterministic minigame round: everyone jumps the gun at once, so
    // the round ends immediately with no winner.
    let roster: Vec<Player> = game_now.players.iter().map(|p| p.player).collect();
    let quick = Minigame::Quickdraw(MGQuickdraw::new(roster));
    let coins_before: Vec<u16> = game_now.players.iter().map(|p| p.coins).collect();
    let mut phase = Phase::Minigame(MinigameState::new(game_now, quick));
    phase = phase.update(&all_south_tick(&players, 16));
    match &phase {
        Phase::MinigameResult(q) => {
            assert_eq!(q.result, vec![0, 0, 0]);
        }
        other => panic!("expected the result display, got {}", phase_name(other)),
    }

    // The display expires back into player 0's die roll, starting the
    // next round; a no-winner round changes no balances.
    phase = phase.update(&quiet_tick(&players, 3100));
    match &phase {
        Phase::DieRoll(d) => {
            assert_eq!(d.turn, 0);
            let coins_after: Vec<u16> = d.game.players.iter().map(|p| p.coins).collect();
            assert_eq!(coins_before, coins_after);
        }
        other => panic!("expected player 0's roll, got {}", phase_name(other)),
    }
}

#[test]
fn minigame_is_discarded_the_moment_it_reports() {
    let (game, players) = three_player_session();
    let roster: Vec<Player> = game.players.iter().map(|p| p.player).collect();
    let quick = Minigame::Quickdraw(MGQuickdraw::new(roster));
    let phase = Phase::Minigame(MinigameState::new(game, quick));
    // Everyone signals before the go time: the round reports at once,
    // and the successor phase carries only the session and the deltas —
    // the spent minigame instance is gone.
    let next = phase.update(&all_south_tick(&players, 16));
    assert!(matches!(next, Phase::MinigameResult(_)));
}

#[test]
fn space_effect_applies_on_the_final_space() {
    let (game, players) = three_player_session();
    // Player 0 stands on space 0; its single transition leads to space
    // 1, a beneficial space: one move lands there and grants 3.
    let start_space = game.players[0].space;
    assert_eq!(start_space, 0);
    let mv = BoardMoveState::new(game, 0, 0, 1);
    let mut phase = Phase::BoardMove(mv);
    loop {
        phase = phase.update(&quiet_tick(&players, 900));
        match &phase {
            Phase::BoardMove(_) => {}
            Phase::SpaceResult(s) => {
                assert_eq!(s.game.players[0].space, 1);
                assert_eq!(s.game.players[0].coins, 3);
                return;
            }
            other => panic!("unexpected phase: {}", phase_name(other)),
        }
    }
}

#[test]
fn star_purchase_deducts_cost_and_grants_token() {
    let (mut game, players) = three_player_session();
    // Put the objective token on space 1 (where player 0 will land) and
    // give player 0 enough currency.
    game.star_space = 1;
    let mut p0 = game.players[0];
    p0.coins = 25;
    game.players[0] = p0;
    let mv = BoardMoveState::new(game, 0, 0, 1);
    let mut phase = Phase::BoardMove(mv);
    loop {
        phase = phase.update(&quiet_tick(&players, 900));
        match &phase {
            Phase::BoardMove(_) => {}
            Phase::SpaceResult(s) => {
                // 25 - 20 for the token, +3 for the beneficial space.
                assert_eq!(s.game.players[0].coins, 8);
                assert_eq!(s.game.players[0].stars, 1);
                return;
            }
            other => panic!("unexpected phase: {}", phase_name(other)),
        }
    }
}

#[test]
fn poor_player_cannot_buy_the_token() {
    let (mut game, players) = three_player_session();
    game.star_space = 1;
    let mut p0 = game.players[0];
    p0.coins = 19;
    game.players[0] = p0;
    let mv = BoardMoveState::new(game, 0, 0, 1);
    let mut phase = Phase::BoardMove(mv);
    loop {
        phase = phase.update(&quiet_tick(&players, 900));
        match &phase {
            Phase::BoardMove(_) => {}
            Phase::SpaceResult(s) => {
                assert_eq!(s.game.players[0].coins, 22);
                assert_eq!(s.game.players[0].stars, 0);
                assert_eq!(s.game.star_space, 1);
                return;
            }
            other => panic!("unexpected phase: {}", phase_name(other)),
        }
    }
}

#[test]
fn detrimental_space_cannot_push_below_zero() {
    let (game, players) = three_player_session();
    // Space 2 forks to space 3 (detrimental). A broke player landing
    // there stays at zero.
    let mut game = game;
    let mut p0 = game.players[0];
    p0.space = 2;
    p0.coins = 1;
    game.players[0] = p0;
    let mv = BoardMoveState::new(game, 0, 0, 1);
    let mut phase = Phase::BoardMove(mv);
    loop {
        phase = phase.update(&quiet_tick(&players, 900));
        match &phase {
            Phase::BoardMove(_) => {}
            Phase::SpaceResult(s) => {
                assert_eq!(s.game.players[0].space, 3);
                assert_eq!(s.game.players[0].coins, 0);
                return;
            }
            other => panic!("unexpected phase: {}", phase_name(other)),
        }
    }
}

#[test]
fn die_number_cycles_before_confirm_and_freezes_after() {
    let (game, players) = three_player_session();
    let phase = Phase::DieRoll(DieRollState::new(game, 0));
    // Half a second of quiet cycling advances the number four times
    // (one step per 111 ms), from 1 to 5.
    let phase = phase.update(&quiet_tick(&players, 500));
    let frozen = match &phase {
        Phase::DieRoll(d) => {
            assert!(!d.jump);
            assert_eq!(d.number, 5);
            d.number
        }
        other => panic!("expected the die roll, got {}", phase_name(other)),
    };
    // Confirming freezes the number.
    let phase = phase.update(&confirm_tick(&players, 0, 16));
    match &phase {
        Phase::DieRoll(d) => {
            assert!(d.jump);
            assert_eq!(d.number, frozen);
        }
        other => panic!("expected the die roll, got {}", phase_name(other)),
    }
    // Further quiet time does not move it either.
    let phase = phase.update(&quiet_tick(&players, 400));
    match &phase {
        Phase::DieRoll(d) => assert_eq!(d.number, frozen),
        other => panic!("expected the die roll, got {}", phase_name(other)),
    }
}

#[test]
fn angular_tiebreak_at_ten_degrees() {
    // A space with two exits at bearings 0 and 180 degrees; an input
    // direction of about 10 degrees selects the exit at 0.
    let board = Board {
        spaces: vec![
            Space {
                id: 0,
                transitions: vec![SpaceTransition { to: 1 }, SpaceTransition { to: 2 }],
                pos: Point2D { x: 0, y: 0 },
                space_type: SpaceType::Positive,
            },
            Space {
                id: 1,
                transitions: vec![],
                pos: Point2D { x: 1000, y: 0 },
                space_type: SpaceType::Positive,
            },
            Space {
                id: 2,
                transitions: vec![],
                pos: Point2D { x: -1000, y: 0 },
                space_type: SpaceType::Positive,
            },
        ],
    };
    let player = Player { input: InputMethod::Gamepad(0), color: 0 };
    let game = GameInfo {
        players: vec![PlayerInfo { player, space: 0, coins: 0, stars: 0 }],
        board,
        star_space: 0,
    };
    let tc = tuxparty::ingame::TransitionChoiceState::new(game, 0, 1);
    let mut src = idle(player.input);
    src.axis_x = 984;
    src.axis_y = -173;  // about 10 degrees after the y flip
    let props = UpdateProps { time: 16, input: InputState { sources: vec![src] } };
    let next = Phase::TransitionChoice(tc).update(&props);
    match next {
        Phase::TransitionChoice(t) => assert_eq!(t.selected, 0),
        ref other => panic!("unexpected phase: {}", phase_name(other)),
    }
}

#[test]
fn steering_selects_the_nearest_bearing() {
    let (mut game, players) = three_player_session();
    // Space 2 forks: to space 3 (due west of it) and space 13 (south-
    // east and below). Point the stick 10 degrees off east: the fork
    // whose bearing is closest wins — here that is space 13's branch,
    // not the one pointing straight back west.
    let mut p0 = game.players[0];
    p0.space = 2;
    game.players[0] = p0;
    let tc = tuxparty::ingame::TransitionChoiceState::new(game, 0, 1);
    let mut sources: Vec<SourceInput> = players.iter().map(|p| idle(p.input)).collect();
    sources[0].axis_x = 984;
    sources[0].axis_y = -173;  // stick up-right; screen y grows downward
    let props = UpdateProps { time: 16, input: InputState { sources } };
    let next = Phase::TransitionChoice(tc).update(&props);
    match next {
        Phase::TransitionChoice(t) => assert_eq!(t.selected, 1),
        ref other => panic!("unexpected phase: {}", phase_name(other)),
    }
}
