//! Board geometry: cells, bounds, the edge, and the runner's reach.

use vstd::prelude::*;

verus! {

/// A cell of the grid, by column `x` and row `y`, counted from zero.
#[derive(Clone, Copy, Debug, PartialEq, Eq, Structural)]
pub struct Position {
    pub x: i16,
    pub y: i16,
}

/// The absolute value of `d`.
pub open spec fn abs_delta(d: int) -> int {
    if d < 0 {
        -d
    } else {
        d
    }
}

/// The Chebyshev distance between two cells: the larger of the two axis
/// distances.
pub open spec fn chebyshev_distance(a: Position, b: Position) -> int {
    let dx: int = abs_delta(a.x - b.x);
    let dy: int = abs_delta(a.y - b.y);
    if dx >= dy {
        dx
    } else {
        dy
    }
}

/// `to` can be reached from `from` in one move of radius `power`: neither
/// axis distance exceeds `power`, and the two cells differ.
pub open spec fn within_power(from: Position, to: Position, power: int) -> bool {
    &&& abs_delta(from.x - to.x) <= power
    &&& abs_delta(from.y - to.y) <= power
    &&& !(from.x == to.x && from.y == to.y)
}

/// `pos` lies on the board of side `board_size`.
pub open spec fn in_bounds(pos: Position, board_size: int) -> bool {
    0 <= pos.x < board_size && 0 <= pos.y < board_size
}

/// One coordinate of `pos` is the first or the last of a board of side
/// `board_size`.
pub open spec fn on_edge(pos: Position, board_size: int) -> bool {
    pos.x == 0 || pos.x == board_size - 1 || pos.y == 0 || pos.y == board_size - 1
}

/// Whether a move from `from` to `to` is within `power`.
pub fn is_within_power(from: Position, to: Position, power: i16) -> (r: bool)
    ensures
        r == within_power(from, to, power as int),
        r == (0 < chebyshev_distance(from, to) <= power),
{
    let dx: i32 = from.x as i32 - to.x as i32;
    let dy: i32 = from.y as i32 - to.y as i32;
    let dx: i32 = if dx < 0 { -dx } else { dx };
    let dy: i32 = if dy < 0 { -dy } else { dy };
    dx <= power as i32 && dy <= power as i32 && !(dx == 0 && dy == 0)
}

/// Whether `pos` is on the edge of a board of side `board_size`.
pub fn is_on_edge(pos: Position, board_size: i16) -> (r: bool)
    ensures
        r == on_edge(pos, board_size as int),
{
    let last: i32 = board_size as i32 - 1;
    pos.x == 0 || pos.x as i32 == last || pos.y == 0 || pos.y as i32 == last
}

/// Whether `pos` is on a board of side `board_size`.
pub fn is_in_bounds(pos: Position, board_size: i16) -> (r: bool)
    ensures
        r == in_bounds(pos, board_size as int),
{
    0 <= pos.x && pos.x < board_size && 0 <= pos.y && pos.y < board_size
}

/// The cell at column `column` and row `row`, if the board has it.
pub fn cell_at(column: i16, row: i16, board_size: i16) -> (r: Option<Position>)
    ensures
        r == if in_bounds(Position { x: column, y: row }, board_size as int) {
            Some(Position { x: column, y: row })
        } else {
            None
        },
{
    let pos = Position { x: column, y: row };
    if is_in_bounds(pos, board_size) {
        Some(pos)
    } else {
        None
    }
}

/// Whether `cells` holds `pos`.
pub fn contains_position(cells: &Vec<Position>, pos: Position) -> (r: bool)
    ensures
        r == cells@.contains(pos),
{
    let mut i: usize = 0;
    while i < cells.len()
        invariant
            i <= cells.len(),
            forall|j: int| 0 <= j < i ==> cells@[j] != pos,
        decreases cells.len() - i,
    {
        if cells[i] == pos {
            return true;
        }
        i += 1;
    }
    false
}

/// Whether the cells of `cells` are all different.
pub fn all_different(cells: &Vec<Position>) -> (r: bool)
    ensures
        r == cells@.no_duplicates(),
{
    let mut i: usize = 0;
    while i < cells.len()
        invariant
            i <= cells.len(),
            forall|a: int, b: int| 0 <= a < b < i ==> cells@[a] != cells@[b],
        decreases cells.len() - i,
    {
        let mut j: usize = 0;
        while j < i
            invariant
                j <= i < cells.len(),
                forall|a: int, b: int| 0 <= a < b < i ==> cells@[a] != cells@[b],
                forall|a: int| 0 <= a < j ==> cells@[a] != cells@[i as int],
            decreases i - j,
        {
            if cells[j] == cells[i] {
                assert(cells@[j as int] == cells@[i as int] && j != i);
                return false;
            }
            j += 1;
        }
        i += 1;
    }
    assert forall|a: int, b: int|
        0 <= a < cells@.len() && 0 <= b < cells@.len() && a != b implies cells@[a]
        != cells@[b] by {
        if a < b {
            assert(cells@[a] != cells@[b]);
        } else {
            assert(cells@[b] != cells@[a]);
        }
    }
    true
}

/// Reach is the same thing as Chebyshev distance: a cell is within `power`
/// of another exactly when their distance is at least one and at most
/// `power`. At distance zero, and beyond `power`, it is not.
pub proof fn lemma_within_power_is_chebyshev(from: Position, to: Position, power: int)
    ensures
        within_power(from, to, power) <==> 0 < chebyshev_distance(from, to) <= power,
        chebyshev_distance(from, to) == 0 <==> from == to,
        chebyshev_distance(from, to) >= 0,
{
}

} // verus!
