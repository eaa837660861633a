use multiplayer_fps::client::{
    apply_shot, delete_dead_players, getcurrplayer, handle_lobby_message, is_dead_player, keyboard_direction,
    move_message, player_is_alive, player_is_dead, register_hit, shoot_message, update_position,
    HitInfo, Message, MovementKeys, Player,
};
use multiplayer_fps::types::{Quat, Vec3};

fn player(id: u32, addr: &str, lives: u32) -> Player {
    Player {
        id,
        position: None,
        addr: addr.to_string(),
        username: format!("p{}", id),
        rotation: None,
        lives,
    }
}

fn message(action: &str, players: Option<Vec<Player>>, curr: Option<Player>) -> Message {
    Message {
        action: action.to_string(),
        level: Some(1),
        players,
        curr_player: curr,
        position: None,
        senderid: None,
        rotation: None,
    }
}

fn lobby() -> Vec<Player> {
    vec![
        player(1, "192.168.1.20:50001", 3),
        player(2, "192.168.1.21:50002", 3),
        player(3, "10.0.0.4:50002", 3),
    ]
}

#[test]
fn current_player_is_found_by_port() {
    let m = message("start", Some(lobby()), None);
    let found = getcurrplayer(m, "0.0.0.0:50002".to_string()).expect("a player");
    assert_eq!(found.id, 2);
}

#[test]
fn current_player_missing_port_gives_none() {
    let m = message("start", Some(lobby()), None);
    assert!(getcurrplayer(m, "0.0.0.0:6000".to_string()).is_none());
}

#[test]
fn current_player_text_without_colon_is_matched_whole() {
    let m = message("start", Some(lobby()), None);
    let found = getcurrplayer(m, "50001".to_string()).expect("a player");
    assert_eq!(found.id, 1);
    let m = message("start", Some(lobby()), None);
    let found = getcurrplayer(m, "0001".to_string()).expect("a player");
    assert_eq!(found.id, 1);
}

#[test]
fn current_player_empty_port_matches_first() {
    let m = message("start", Some(lobby()), None);
    let found = getcurrplayer(m, "1.2.3.4:".to_string()).expect("a player");
    assert_eq!(found.id, 1);
}

#[test]
fn lobby_message_start_sets_current_player() {
    let m = message("start", Some(lobby()), None);
    let started = handle_lobby_message(m, &"127.0.0.1:50001".to_string()).expect("started");
    assert_eq!(started.action, "start");
    assert_eq!(started.curr_player.map(|p| p.id), Some(1));
    assert_eq!(started.players.map(|v| v.len()), Some(3));
    assert_eq!(started.level, Some(1));
}

#[test]
fn lobby_message_other_action_is_passed_over() {
    let m = message("move", None, None);
    assert!(handle_lobby_message(m, &"127.0.0.1:50001".to_string()).is_none());
}

#[test]
fn alive_follows_first_player_with_the_id() {
    let me = player(2, "x:1", 3);
    let m = message("start", Some(lobby()), Some(me.clone()));
    assert!(player_is_alive(&m));
    assert!(!player_is_dead(&m));
    let mut ps = lobby();
    ps[1].lives = 0;
    let m = message("start", Some(ps), Some(me.clone()));
    assert!(!player_is_alive(&m));
    assert!(player_is_dead(&m));
}

#[test]
fn not_alive_without_current_player_or_list() {
    assert!(!player_is_alive(&message("start", Some(lobby()), None)));
    assert!(!player_is_alive(&message("start", None, Some(player(1, "a", 3)))));
    assert!(!player_is_alive(&message("start", Some(lobby()), Some(player(9, "a", 3)))));
    assert!(player_is_dead(&message("start", None, None)));
}

#[test]
fn hit_takes_one_life_from_first_living_player_with_the_id() {
    let mut ps = vec![player(5, "a", 0), player(5, "b", 2), player(5, "c", 2), player(6, "d", 1)];
    register_hit(&mut ps, 5);
    let lives: Vec<u32> = ps.iter().map(|p| p.lives).collect();
    assert_eq!(lives, vec![0, 1, 2, 1]);
    let total_before: u32 = 0 + 2 + 2 + 1;
    let total_after: u32 = lives.iter().sum();
    assert_eq!(total_after, total_before - 1);
}

#[test]
fn hit_on_dead_or_missing_player_changes_nothing() {
    let mut ps = vec![player(5, "a", 0), player(6, "d", 1)];
    register_hit(&mut ps, 5);
    register_hit(&mut ps, 7);
    let lives: Vec<u32> = ps.iter().map(|p| p.lives).collect();
    assert_eq!(lives, vec![0, 1]);
}

#[test]
fn dead_player_detection() {
    let ps = vec![player(1, "a", 2), player(2, "b", 0), player(1, "c", 0)];
    assert!(is_dead_player(&ps, 2));
    assert!(is_dead_player(&ps, 1));
    assert!(!is_dead_player(&ps, 3));
}

#[test]
fn deleting_dead_players_keeps_the_living_in_order() {
    let mut ps = Some(vec![player(1, "a", 2), player(2, "b", 0), player(3, "c", 1)]);
    delete_dead_players(&mut ps);
    let ids: Vec<u32> = ps.as_ref().unwrap().iter().map(|p| p.id).collect();
    assert_eq!(ids, vec![1, 3]);
    delete_dead_players(&mut ps);
    let again: Vec<u32> = ps.unwrap().iter().map(|p| p.id).collect();
    assert_eq!(again, vec![1, 3]);
}

#[test]
fn deleting_when_all_dead_leaves_no_list() {
    let mut ps = Some(vec![player(1, "a", 0), player(2, "b", 0)]);
    delete_dead_players(&mut ps);
    assert!(ps.is_none());
    let mut none: Option<Vec<Player>> = None;
    delete_dead_players(&mut none);
    assert!(none.is_none());
    let mut empty: Option<Vec<Player>> = Some(vec![]);
    delete_dead_players(&mut empty);
    assert!(empty.is_none());
}

#[test]
fn pose_comes_from_last_placed_player() {
    let p1 = Vec3 { x_bits: 1, y_bits: 2, z_bits: 3 };
    let p2 = Vec3 { x_bits: 4, y_bits: 5, z_bits: 6 };
    let r = Quat { x_bits: 0, y_bits: 0, z_bits: 0, w_bits: 1.0f32.to_bits() };
    let mut a = player(4, "a", 1);
    a.position = Some(p1);
    let mut b = player(4, "b", 1);
    b.position = Some(p2);
    b.rotation = Some(r);
    let c = player(4, "c", 1);
    let ps = vec![a, b, c];
    assert_eq!(update_position(&ps, 4), Some((p2, Some(r))));
    assert_eq!(update_position(&ps, 5), None);
}

#[test]
fn keyboard_direction_sums_keys() {
    let none = MovementKeys { w: false, z: false, s: false, a: false, q: false, d: false };
    assert_eq!(keyboard_direction(none), (0, 0));
    assert_eq!(keyboard_direction(MovementKeys { w: true, z: true, ..none }), (0, -1));
    assert_eq!(keyboard_direction(MovementKeys { z: true, s: true, ..none }), (0, 0));
    assert_eq!(keyboard_direction(MovementKeys { q: true, ..none }), (-1, 0));
    assert_eq!(keyboard_direction(MovementKeys { a: true, d: true, s: true, ..none }), (0, 1));
    assert_eq!(keyboard_direction(MovementKeys { d: true, w: true, ..none }), (1, -1));
}

#[test]
fn move_and_shoot_messages_carry_the_sender() {
    let m = message("start", Some(lobby()), Some(player(3, "x", 3)));
    let pos = Vec3 { x_bits: 7, y_bits: 8, z_bits: 9 };
    let rot = Quat { x_bits: 1, y_bits: 2, z_bits: 3, w_bits: 4 };
    let mv = move_message(&m, pos, rot);
    assert_eq!(mv.action, "move");
    assert_eq!(mv.senderid, Some(3));
    assert_eq!(mv.position, Some(pos));
    assert_eq!(mv.rotation, Some(rot));
    assert!(mv.players.is_none() && mv.level.is_none() && mv.curr_player.is_none());
    let hit = HitInfo { point: pos, playerid: 2 };
    let sh = shoot_message(&m, pos, pos, Some(hit));
    assert_eq!(sh.action, "shoot");
    assert_eq!(sh.senderid, 3);
    assert_eq!(sh.hitpoint.map(|h| h.playerid), Some(2));
}

#[test]
fn shot_hit_takes_a_life_only_with_a_hit_and_a_list() {
    let pos = Vec3 { x_bits: 0, y_bits: 0, z_bits: 0 };
    let mut ps = Some(vec![player(1, "a", 2), player(2, "b", 1)]);
    apply_shot(&mut ps, Some(HitInfo { point: pos, playerid: 2 }));
    let lives: Vec<u32> = ps.as_ref().unwrap().iter().map(|p| p.lives).collect();
    assert_eq!(lives, vec![2, 0]);
    apply_shot(&mut ps, None);
    let lives: Vec<u32> = ps.as_ref().unwrap().iter().map(|p| p.lives).collect();
    assert_eq!(lives, vec![2, 0]);
    let mut none: Option<Vec<Player>> = None;
    apply_shot(&mut none, Some(HitInfo { point: pos, playerid: 1 }));
    assert!(none.is_none());
}
