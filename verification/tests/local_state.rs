use multiplayer_fps::local_state::{
    handle_input, handle_level_up, update_state, Direction, GameState, LocalGameState, PlayerInput,
};

#[test]
fn state_past_first_level_shows_level_up() {
    let gs = GameState { players: vec![], level: 2 };
    assert_eq!(update_state(Some(&gs)), Some(LocalGameState::LevelUp));
    let gs = GameState { players: vec![], level: 1 };
    assert_eq!(update_state(Some(&gs)), Some(LocalGameState::Playing));
    assert_eq!(update_state(None), None);
}

#[test]
fn keys_have_priority_w_s_a_d() {
    let mv = |d| Some(PlayerInput::Move { id: 1, direction: d });
    assert_eq!(handle_input(true, true, true, true), mv(Direction::Up));
    assert_eq!(handle_input(false, true, true, true), mv(Direction::Down));
    assert_eq!(handle_input(false, false, true, true), mv(Direction::Left));
    assert_eq!(handle_input(false, false, false, true), mv(Direction::Right));
    assert_eq!(handle_input(false, false, false, false), None);
}

#[test]
fn direction_components() {
    assert_eq!(Direction::Up.components(), (0, 1));
    assert_eq!(Direction::Down.components(), (0, -1));
    assert_eq!(Direction::Left.components(), (-1, 0));
    assert_eq!(Direction::Right.components(), (1, 0));
}

#[test]
fn level_up_returns_to_play() {
    assert_eq!(handle_level_up(), LocalGameState::Playing);
    assert_eq!(LocalGameState::default_state(), LocalGameState::Connecting);
}
