use vstd::prelude::*;

verus! {

/// A player of a levelled game: its id and its position on the plane, as
/// the bit patterns of two `f32` values.
#[derive(Debug, Clone, Copy)]
pub struct Player {
    pub id: u32,
    pub position: (u32, u32),
}

/// The state that the server sends: the players and the level.
#[derive(Debug)]
pub struct GameState {
    pub players: Vec<Player>,
    pub level: u32,
}

/// One of the four unit steps on the plane.
#[derive(Debug, Clone, Copy, PartialEq, Eq, Structural)]
pub enum Direction {
    Up,
    Down,
    Left,
    Right,
}

impl Direction {
    /// The step's components `(x, y)`: up is `(0, 1)`, down `(0, -1)`, left
    /// `(-1, 0)` and right `(1, 0)`.
    pub fn components(&self) -> (c: (i8, i8))
        ensures
            c == match *self {
                Direction::Up => (0i8, 1i8),
                Direction::Down => (0i8, -1i8),
                Direction::Left => (-1i8, 0i8),
                Direction::Right => (1i8, 0i8),
            },
    {
        match self {
            Direction::Up => (0, 1),
            Direction::Down => (0, -1),
            Direction::Left => (-1, 0),
            Direction::Right => (1, 0),
        }
    }
}

/// What a client asks of the server.
#[derive(Debug, Clone, Copy, PartialEq, Eq, Structural)]
pub enum PlayerInput {
    Move { id: u32, direction: Direction },
}

/// The screen that a client shows.
#[derive(Debug, Clone, Copy, PartialEq, Eq, Structural)]
pub enum LocalGameState {
    Connecting,
    Playing,
    LevelUp,
}

impl LocalGameState {
    /// A client starts out connecting.
    pub fn default_state() -> (s: LocalGameState)
        ensures
            s == LocalGameState::Connecting,
    {
        LocalGameState::Connecting
    }
}

/// The player id that a client puts in its moves.
pub const INPUT_PLAYER_ID: u32 = 1;

/// The screen that follows a state from the server: the level-up screen
/// past the first level, play otherwise. Nothing changes when no state came.
pub fn update_state(received: Option<&GameState>) -> (next: Option<LocalGameState>)
    ensures
        next == match received {
            Some(gs) => Some(
                if gs.level > 1 {
                    LocalGameState::LevelUp
                } else {
                    LocalGameState::Playing
                },
            ),
            None => None,
        },
{
    match received {
        Some(gs) => {
            if gs.level > 1 {
                Some(LocalGameState::LevelUp)
            } else {
                Some(LocalGameState::Playing)
            }
        },
        None => None,
    }
}

/// The move that the pressed keys ask for, W before S before A before D;
/// none when none of them is pressed.
pub fn handle_input(w: bool, s: bool, a: bool, d: bool) -> (input: Option<PlayerInput>)
    ensures
        input == if w {
            Some(PlayerInput::Move { id: INPUT_PLAYER_ID, direction: Direction::Up })
        } else if s {
            Some(PlayerInput::Move { id: INPUT_PLAYER_ID, direction: Direction::Down })
        } else if a {
            Some(PlayerInput::Move { id: INPUT_PLAYER_ID, direction: Direction::Left })
        } else if d {
            Some(PlayerInput::Move { id: INPUT_PLAYER_ID, direction: Direction::Right })
        } else {
            None
        },
{
    let direction = if w {
        Some(Direction::Up)
    } else if s {
        Some(Direction::Down)
    } else if a {
        Some(Direction::Left)
    } else if d {
        Some(Direction::Right)
    } else {
        None
    };
    match direction {
        Some(direction) => Some(PlayerInput::Move { id: INPUT_PLAYER_ID, direction }),
        None => None,
    }
}

/// After the level-up screen the game goes back to play.
pub fn handle_level_up() -> (next: LocalGameState)
    ensures
        next == LocalGameState::Playing,
{
    LocalGameState::Playing
}

} // verus!
