use multiplayer_fps::client::Player;
use multiplayer_fps::labyrinth::{cells_with, spawn_plan, starting_positions, Spawn, START_CELL, WALL_CELL};

fn maze() -> Vec<Vec<u8>> {
    vec![vec![1, 1, 1, 1], vec![1, 2, 0, 1], vec![1, 0, 2, 1], vec![2, 1, 1, 1]]
}

fn player(id: u32) -> Player {
    Player { id, position: None, addr: String::from("1.2.3.4:5"), username: String::new(), rotation: None, lives: 3 }
}

#[test]
fn start_cells_in_row_order() {
    assert_eq!(starting_positions(&maze()), vec![(1, 1), (2, 2), (0, 3)]);
    assert_eq!(START_CELL, 2);
}

#[test]
fn wall_cells_listed() {
    let walls = cells_with(&maze(), WALL_CELL);
    assert_eq!(walls.len(), 11);
    assert_eq!(walls[0], (0, 0));
    assert_eq!(walls[4], (0, 1));
    assert!(walls.iter().all(|&(x, y)| maze()[y][x] == 1));
    assert!(cells_with(&vec![], 1).is_empty());
}

#[test]
fn players_spawn_on_start_cell_of_their_id() {
    let starts = starting_positions(&maze());
    let plan = spawn_plan(&vec![player(2), player(1), player(3)], 1, &starts);
    assert_eq!(
        plan,
        vec![
            Spawn { id: 2, cell: (2, 2), own: false },
            Spawn { id: 1, cell: (1, 1), own: true },
            Spawn { id: 3, cell: (0, 3), own: false },
        ]
    );
}
