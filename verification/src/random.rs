//! The source of chance: where the obstacles of a new board fall, and which
//! move a simulated runner takes.
//!
//! The generator is the `rand` crate's. What this module states of it is
//! believed, not proved; everything built on top is proved for every value
//! that the generator may return.

use rand::rngs::ThreadRng;
use rand::seq::SliceRandom;
use rand::Rng;
use vstd::prelude::*;

use crate::geometry::Position;

verus! {

/// `rand::rngs::ThreadRng`, the generator local to a thread. Nothing is
/// known of its contents.
#[verifier::external_type_specification]
#[verifier::external_body]
pub struct ExThreadRng(ThreadRng);

/// `rand::thread_rng` hands out the calling thread's generator. Nothing is
/// claimed of the generator it returns. It gives up where the system has no
/// randomness to seed the generator with.
pub assume_specification[ rand::thread_rng ]() -> (rng: ThreadRng)
;

/// `Rng::gen_range` on the half-open range `low..high` of `i16`. The range
/// must not be empty; the result lies in it. Which of its values comes back
/// is left open.
#[verifier::external_body]
fn random_in_range(rng: &mut ThreadRng, low: i16, high: i16) -> (r: i16)
    requires
        low < high,
    ensures
        low <= r < high,
{
    rng.gen_range(low..high)
}

/// `SliceRandom::choose` on the cells of `pool`. An empty pool gives
/// nothing; any other pool gives one of its cells. Which one is left open.
#[verifier::external_body]
pub(crate) fn choose_cell(rng: &mut ThreadRng, pool: &Vec<Position>) -> (r: Option<Position>)
    ensures
        r is None <==> pool@.len() == 0,
        r matches Some(cell) ==> pool@.contains(cell),
{
    pool.choose(rng).copied()
}

/// What a sequence of draws for a new board of side `board_size` looks like:
/// two draws per unit of side, each off the edge. A board of side below
/// three has no cell off the edge, and no draws.
pub open spec fn is_layout_draw(draws: Seq<Position>, board_size: int) -> bool {
    &&& draws.len() == if board_size >= 3 {
        2 * board_size
    } else {
        0
    }
    &&& forall|i: int|
        0 <= i < draws.len() ==> 1 <= (#[trigger] draws[i]).x < board_size - 1 && 1
            <= draws[i].y < board_size - 1
}

/// A layout draw for a board of side `board_size`: the first cell off the
/// edge, as often as a draw is long.
pub open spec fn some_layout_draw(board_size: int) -> Seq<Position> {
    if board_size >= 3 {
        Seq::new((2 * board_size) as nat, |i: int| Position { x: 1, y: 1 })
    } else {
        Seq::empty()
    }
}

/// There is a layout draw for every board.
pub proof fn lemma_layout_draw_exists(board_size: int)
    ensures
        is_layout_draw(some_layout_draw(board_size), board_size),
{
}

/// Draws the obstacles of a new board of side `board_size`, repeats
/// included.
pub fn draw_layout(board_size: i16) -> (draws: Vec<Position>)
    ensures
        is_layout_draw(draws@, board_size as int),
{
    let mut draws: Vec<Position> = Vec::new();
    if board_size >= 3 {
        let mut rng = rand::thread_rng();
        let count: i32 = 2 * (board_size as i32);
        let mut i: i32 = 0;
        while i < count
            invariant
                board_size >= 3,
                count == 2 * board_size,
                0 <= i <= count,
                draws@.len() == i,
                forall|j: int|
                    0 <= j < draws@.len() ==> 1 <= (#[trigger] draws@[j]).x < board_size - 1 && 1
                        <= draws@[j].y < board_size - 1,
            decreases count - i,
        {
            let x: i16 = random_in_range(&mut rng, 1, board_size - 1);
            let y: i16 = random_in_range(&mut rng, 1, board_size - 1);
            draws.push(Position { x, y });
            i += 1;
        }
    }
    draws
}

} // verus!
