//! The runner's reach on a board with obstacles: where it may go, and
//! whether it may go anywhere.

use vstd::prelude::*;

use crate::geometry::{
    contains_position, in_bounds, is_in_bounds, is_within_power, within_power, Position,
};
use crate::state::RunnerState;

verus! {

/// The runner may go to `to`: it is within reach, on the board of side
/// `board_size` and not among the cells of `blocked`.
pub open spec fn is_destination(
    runner: RunnerState,
    board_size: i16,
    blocked: Seq<Position>,
    to: Position,
) -> bool {
    &&& within_power(runner.position, to, runner.power as int)
    &&& in_bounds(to, board_size as int)
    &&& !blocked.contains(to)
}

/// The runner has somewhere to go. The cell it stands on does not count.
pub open spec fn has_destination(
    runner: RunnerState,
    board_size: i16,
    blocked: Seq<Position>,
) -> bool {
    exists|to: Position| #[trigger] is_destination(runner, board_size, blocked, to)
}

/// The larger of two numbers.
fn larger(a: i32, b: i32) -> (r: i32)
    ensures
        r == if a >= b {
            a
        } else {
            b
        },
{
    if a >= b {
        a
    } else {
        b
    }
}

/// The smaller of two numbers.
fn smaller(a: i32, b: i32) -> (r: i32)
    ensures
        r == if a <= b {
            a
        } else {
            b
        },
{
    if a <= b {
        a
    } else {
        b
    }
}

/// Whether the runner may go to `to`.
pub fn check_destination(
    runner: RunnerState,
    board_size: i16,
    blocked: &Vec<Position>,
    to: Position,
) -> (r: bool)
    ensures
        r == is_destination(runner, board_size, blocked@, to),
{
    is_within_power(runner.position, to, runner.power) && is_in_bounds(to, board_size)
        && !contains_position(blocked, to)
}

/// Whether the runner has somewhere to go.
pub fn can_move(runner: RunnerState, board_size: i16, blocked: &Vec<Position>) -> (r: bool)
    ensures
        r == has_destination(runner, board_size, blocked@),
{
    let cx: i32 = runner.position.x as i32;
    let cy: i32 = runner.position.y as i32;
    let power: i32 = runner.power as i32;
    let side: i32 = board_size as i32;
    let x_first: i32 = larger(cx - power, 0);
    let x_last: i32 = smaller(cx + power, side - 1);
    let y_first: i32 = larger(cy - power, 0);
    let y_last: i32 = smaller(cy + power, side - 1);
    let mut x: i32 = x_first;
    while x <= x_last
        invariant
            cx == runner.position.x,
            cy == runner.position.y,
            power == runner.power,
            side == board_size,
            x_first == if cx - power >= 0 {
                cx - power
            } else {
                0
            },
            x_last == if cx + power <= side - 1 {
                cx + power
            } else {
                side - 1
            },
            y_first == if cy - power >= 0 {
                cy - power
            } else {
                0
            },
            y_last == if cy + power <= side - 1 {
                cy + power
            } else {
                side - 1
            },
            x_first <= x,
            forall|to: Position| #[trigger] is_destination(runner, board_size, blocked@, to) ==> to.x >= x,
        decreases x_last - x + 1,
    {
        let mut y: i32 = y_first;
        while y <= y_last
            invariant
                cx == runner.position.x,
                cy == runner.position.y,
                power == runner.power,
                side == board_size,
                x_first <= x <= x_last,
                x_first == if cx - power >= 0 {
                    cx - power
                } else {
                    0
                },
                x_last == if cx + power <= side - 1 {
                    cx + power
                } else {
                    side - 1
                },
                y_first == if cy - power >= 0 {
                    cy - power
                } else {
                    0
                },
                y_last == if cy + power <= side - 1 {
                    cy + power
                } else {
                    side - 1
                },
                y_first <= y,
                forall|to: Position| #[trigger]
                    is_destination(runner, board_size, blocked@, to) ==> to.x > x || (to.x == x && to.y >= y),
            decreases y_last - y + 1,
        {
            if !(x == cx && y == cy) {
                let to = Position { x: x as i16, y: y as i16 };
                if !contains_position(blocked, to) {
                    assert(is_destination(runner, board_size, blocked@, to));
                    return true;
                }
            }
            y += 1;
        }
        x += 1;
    }
    false
}

} // verus!
