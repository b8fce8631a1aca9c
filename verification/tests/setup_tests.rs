use tuxparty::game::{Phase, UpdateProps};
use tuxparty::setup::{JoinState, MenuState};
use tuxparty::tputil::{Button, InputMethod, InputState, SourceInput};

fn idle(source: InputMethod) -> SourceInput {
    SourceInput {
        source,
        axis_x: 0,
        axis_y: 0,
        south: false,
        east: false,
        start: false,
        south_pressed: false,
        start_pressed: false,
    }
}

fn props(sources: Vec<SourceInput>, ms: u64) -> UpdateProps {
    UpdateProps { time: ms, input: InputState { sources } }
}

#[test]
fn menu_waits_until_a_confirm() {
    let quiet = props(vec![idle(InputMethod::Keyboard)], 16);
    let next = Phase::Menu(MenuState {}).update(&quiet);
    assert!(matches!(next, Phase::Menu(_)));
}

#[test]
fn menu_opens_the_lobby_on_confirm() {
    let mut k = idle(InputMethod::Keyboard);
    k.south_pressed = true;
    let next = Phase::Menu(MenuState {}).update(&props(vec![k], 16));
    match next {
        Phase::Join(j) => assert_eq!(j.players.len(), 0),
        _ => panic!("expected the lobby"),
    }
}

#[test]
fn two_sources_join_with_distinct_colors() {
    let mut a = idle(InputMethod::Gamepad(1));
    a.south_pressed = true;
    let mut b = idle(InputMethod::Keyboard);
    b.south_pressed = true;
    let next = Phase::Join(JoinState::new()).update(&props(vec![a, b], 16));
    match next {
        Phase::Join(j) => {
            assert_eq!(j.players.len(), 2);
            assert_ne!(j.players[0].player.color, j.players[1].player.color);
            assert_ne!(j.players[0].player.input, j.players[1].player.input);
        }
        _ => panic!("expected the lobby to continue"),
    }
}

#[test]
fn a_source_joins_only_once() {
    let mut a = idle(InputMethod::Gamepad(1));
    a.south_pressed = true;
    a.south = true;
    let lobby = Phase::Join(JoinState::new());
    let lobby = lobby.update(&props(vec![a], 16));
    let lobby = lobby.update(&props(vec![a], 16));
    match lobby {
        Phase::Join(j) => assert_eq!(j.players.len(), 1),
        _ => panic!("expected the lobby to continue"),
    }
}

#[test]
fn holding_leave_drops_the_player() {
    let mut a = idle(InputMethod::Gamepad(1));
    a.south_pressed = true;
    let lobby = Phase::Join(JoinState::new()).update(&props(vec![a], 16));
    let mut leaving = idle(InputMethod::Gamepad(1));
    leaving.east = true;
    let lobby = lobby.update(&props(vec![leaving], 16));
    match lobby {
        Phase::Join(j) => assert_eq!(j.players.len(), 0),
        _ => panic!("expected the lobby to continue"),
    }
}

#[test]
fn leave_while_confirming_stays() {
    let mut a = idle(InputMethod::Gamepad(1));
    a.south_pressed = true;
    let lobby = Phase::Join(JoinState::new()).update(&props(vec![a], 16));
    let mut both = idle(InputMethod::Gamepad(1));
    both.east = true;
    both.south = true;
    let lobby = lobby.update(&props(vec![both], 16));
    match lobby {
        Phase::Join(j) => assert_eq!(j.players.len(), 1),
        _ => panic!("expected the lobby to continue"),
    }
}

#[test]
fn starting_an_empty_lobby_is_refused() {
    let mut k = idle(InputMethod::Keyboard);
    k.start_pressed = true;
    let next = Phase::Join(JoinState::new()).update(&props(vec![k], 16));
    assert!(matches!(next, Phase::Join(_)));
}

#[test]
fn start_builds_the_session_for_player_zero() {
    let mut a = idle(InputMethod::Gamepad(1));
    a.south_pressed = true;
    let lobby = Phase::Join(JoinState::new()).update(&props(vec![a], 16));
    let mut starting = idle(InputMethod::Gamepad(1));
    starting.start_pressed = true;
    let next = lobby.update(&props(vec![starting], 16));
    match next {
        Phase::DieRoll(d) => {
            assert_eq!(d.turn, 0);
            assert_eq!(d.game.players.len(), 1);
            assert_eq!(d.game.players[0].space, 0);
            assert_eq!(d.game.players[0].coins, 0);
            assert_eq!(d.game.players[0].stars, 0);
            assert_eq!(d.game.board.spaces.len(), 30);
            assert!(d.game.board.get_space(d.game.star_space).is_some());
        }
        _ => panic!("expected the first die roll"),
    }
}

#[test]
fn lobby_never_exceeds_the_palette() {
    // Six sources press confirm; only five colors exist.
    let mut sources = Vec::new();
    for i in 0..6u64 {
        let mut s = idle(InputMethod::Gamepad(i));
        s.south_pressed = true;
        sources.push(s);
    }
    let next = Phase::Join(JoinState::new()).update(&props(sources, 16));
    match next {
        Phase::Join(j) => assert_eq!(j.players.len(), 5),
        _ => panic!("expected the lobby to continue"),
    }
}
