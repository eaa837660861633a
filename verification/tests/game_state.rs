use multiplayer_fps::game_state::{GameState, Player};

fn player(id: u32, name: &str) -> Player {
    Player { id, username: name.to_string(), position: (0, 0) }
}

fn ids(gs: &GameState) -> Vec<u32> {
    gs.players.iter().map(|p| p.id).collect()
}

#[test]
fn new_game_has_no_players() {
    let gs = GameState::new();
    assert!(gs.players.is_empty());
}

#[test]
fn add_player_appends_in_order() {
    let mut gs = GameState::new();
    gs.add_player(player(7, "ann"));
    gs.add_player(player(3, "bob"));
    assert_eq!(ids(&gs), vec![7, 3]);
    assert_eq!(gs.players[1].username, "bob");
}

#[test]
fn remove_player_drops_every_player_with_the_id() {
    let mut gs = GameState::new();
    gs.add_player(player(1, "a"));
    gs.add_player(player(2, "b"));
    gs.add_player(player(1, "c"));
    gs.add_player(player(3, "d"));
    gs.remove_player(1);
    assert_eq!(ids(&gs), vec![2, 3]);
    assert_eq!(gs.players[0].username, "b");
    assert_eq!(gs.players[1].username, "d");
}

#[test]
fn remove_missing_player_changes_nothing() {
    let mut gs = GameState::new();
    gs.add_player(player(1, "a"));
    gs.remove_player(9);
    assert_eq!(ids(&gs), vec![1]);
}

#[test]
fn remove_after_add_restores_the_players() {
    let mut gs = GameState::new();
    gs.add_player(player(1, "a"));
    gs.add_player(player(2, "b"));
    gs.add_player(player(5, "new"));
    gs.remove_player(5);
    assert_eq!(ids(&gs), vec![1, 2]);
    gs.remove_player(5);
    assert_eq!(ids(&gs), vec![1, 2]);
}

#[test]
fn update_moves_only_the_first_player_with_the_id() {
    let mut gs = GameState::new();
    gs.add_player(player(4, "x"));
    gs.add_player(player(2, "y"));
    gs.add_player(player(2, "z"));
    let pos = (1.5f32.to_bits(), (-2.0f32).to_bits());
    gs.update_player_position(2, pos);
    assert_eq!(gs.players[0].position, (0, 0));
    assert_eq!(gs.players[1].position, pos);
    assert_eq!(gs.players[2].position, (0, 0));
    assert_eq!(f32::from_bits(gs.players[1].position.0), 1.5);
    assert_eq!(f32::from_bits(gs.players[1].position.1), -2.0);
    assert_eq!(ids(&gs), vec![4, 2, 2]);
}

#[test]
fn update_missing_player_changes_nothing() {
    let mut gs = GameState::new();
    gs.add_player(player(4, "x"));
    gs.update_player_position(8, (1, 1));
    assert_eq!(gs.players[0].position, (0, 0));
    assert_eq!(gs.players.len(), 1);
}
