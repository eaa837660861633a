use vstd::prelude::*;

use crate::client::Player;

verus! {

/// A maze cell that holds a wall.
pub const WALL_CELL: u8 = 1;

/// A maze cell where a player may start.
pub const START_CELL: u8 = 2;

/// The cells `(x, y)` of the row `row`, numbered `y`, that hold `value`,
/// from left to right.
pub open spec fn row_cells(row: Seq<u8>, y: int, value: u8) -> Seq<(usize, usize)>
    decreases row.len(),
{
    if row.len() == 0 {
        Seq::empty()
    } else {
        let rest = row_cells(row.drop_last(), y, value);
        if row.last() == value {
            rest.push(((row.len() - 1) as usize, y as usize))
        } else {
            rest
        }
    }
}

/// The cells `(x, y)` of the maze that hold `value`, row after row.
pub open spec fn grid_cells(rows: Seq<Seq<u8>>, value: u8) -> Seq<(usize, usize)>
    decreases rows.len(),
{
    if rows.len() == 0 {
        Seq::empty()
    } else {
        grid_cells(rows.drop_last(), value) + row_cells(rows.last(), rows.len() - 1, value)
    }
}

/// The rows of a maze as sequences.
pub open spec fn rows_of(maze: Seq<Vec<u8>>) -> Seq<Seq<u8>> {
    maze.map_values(|r: Vec<u8>| r@)
}

/// The cells `(x, y)` of the maze that hold `value`, row after row and from
/// left to right in each row.
pub fn cells_with(maze: &Vec<Vec<u8>>, value: u8) -> (cells: Vec<(usize, usize)>)
    ensures
        cells@ == grid_cells(rows_of(maze@), value),
{
    let ghost rows = rows_of(maze@);
    let mut cells: Vec<(usize, usize)> = Vec::new();
    let mut y: usize = 0;
    while y < maze.len()
        invariant
            y <= maze.len(),
            rows == rows_of(maze@),
            cells@ == grid_cells(rows.subrange(0, y as int), value),
        decreases maze.len() - y,
    {
        let row = &maze[y];
        let ghost before = cells@;
        let mut x: usize = 0;
        while x < row.len()
            invariant
                x <= row.len(),
                y < maze.len(),
                *row == maze@[y as int],
                rows == rows_of(maze@),
                cells@ == before + row_cells(row@.subrange(0, x as int), y as int, value),
            decreases row.len() - x,
        {
            proof {
                assert(row@.subrange(0, x + 1).drop_last() =~= row@.subrange(0, x as int));
            }
            if row[x] == value {
                cells.push((x, y));
                proof {
                    assert(cells@ =~= before + row_cells(row@.subrange(0, x + 1), y as int, value));
                }
            }
            x = x + 1;
        }
        proof {
            assert(row@.subrange(0, x as int) =~= row@);
            assert(rows.subrange(0, y + 1).drop_last() =~= rows.subrange(0, y as int));
            assert(rows.subrange(0, y + 1).last() == row@);
        }
        y = y + 1;
    }
    proof {
        assert(rows.subrange(0, y as int) =~= rows);
    }
    cells
}

/// Where the players start: the start cells of the maze, row after row.
pub fn starting_positions(maze: &Vec<Vec<u8>>) -> (starts: Vec<(usize, usize)>)
    ensures
        starts@ == grid_cells(rows_of(maze@), START_CELL),
{
    cells_with(maze, START_CELL)
}

/// Where a player appears when the game starts, and whether it is the
/// client's own player.
#[derive(Debug, Clone, Copy, PartialEq, Eq)]
pub struct Spawn {
    pub id: u32,
    pub cell: (usize, usize),
    pub own: bool,
}

/// Every player appears, in order, on the start cell numbered by its id
/// (the first start cell for player 1); it is the client's own player when
/// its id is `own_id`.
pub fn spawn_plan(players: &Vec<Player>, own_id: u32, starts: &Vec<(usize, usize)>) -> (plan: Vec<
    Spawn,
>)
    requires
        forall|i: int|
            0 <= i < players.len() ==> 1 <= #[trigger] players@[i].id <= starts.len(),
    ensures
        plan@.len() == players@.len(),
        forall|i: int|
            0 <= i < players.len() ==> (#[trigger] plan@[i]).id == players@[i].id && plan@[i].cell
                == starts@[players@[i].id - 1] && plan@[i].own == (players@[i].id == own_id),
{
    let mut plan: Vec<Spawn> = Vec::new();
    let mut i: usize = 0;
    while i < players.len()
        invariant
            i <= players.len(),
            plan@.len() == i,
            forall|j: int|
                0 <= j < players.len() ==> 1 <= #[trigger] players@[j].id <= starts.len(),
            forall|j: int|
                0 <= j < i ==> (#[trigger] plan@[j]).id == players@[j].id && plan@[j].cell
                    == starts@[players@[j].id - 1] && plan@[j].own == (players@[j].id == own_id),
        decreases players.len() - i,
    {
        let id = players[i].id;
        let k = (id - 1) as usize;
        plan.push(Spawn { id, cell: starts[k], own: id == own_id });
        i = i + 1;
    }
    plan
}

/// Every cell listed for a value holds that value (for a maze whose size
/// fits in memory).
pub proof fn lemma_cells_hold_value(rows: Seq<Seq<u8>>, value: u8, i: int)
    requires
        rows.len() <= usize::MAX,
        forall|r: int| 0 <= r < rows.len() ==> #[trigger] rows[r].len() <= usize::MAX,
        0 <= i < grid_cells(rows, value).len(),
    ensures
        ({
            let (x, y) = grid_cells(rows, value)[i];
            &&& y < rows.len()
            &&& x < rows[y as int].len()
            &&& rows[y as int][x as int] == value
        }),
    decreases rows.len(),
{
    let rest = grid_cells(rows.drop_last(), value);
    if i < rest.len() {
        lemma_cells_hold_value(rows.drop_last(), value, i);
        assert(grid_cells(rows, value)[i] == rest[i]);
        assert(rows.drop_last()[grid_cells(rows, value)[i].1 as int] == rows[grid_cells(rows, value)[i].1 as int]);
    } else {
        assert(rows[rows.len() - 1].len() <= usize::MAX);
        lemma_row_cells_hold_value(rows.last(), rows.len() - 1, value, i - rest.len());
    }
}

proof fn lemma_row_cells_hold_value(row: Seq<u8>, y: int, value: u8, i: int)
    requires
        0 <= y <= usize::MAX,
        row.len() <= usize::MAX,
        0 <= i < row_cells(row, y, value).len(),
    ensures
        ({
            let (cx, cy) = row_cells(row, y, value)[i];
            &&& cy == y
            &&& cx < row.len()
            &&& row[cx as int] == value
        }),
    decreases row.len(),
{
    let rest = row_cells(row.drop_last(), y, value);
    if i < rest.len() {
        lemma_row_cells_hold_value(row.drop_last(), y, value, i);
        assert(row_cells(row, y, value)[i] == rest[i]);
    }
}

} // verus!
