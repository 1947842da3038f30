//! The game for two players at one screen: a board of sixteen cells a
//! side, a runner of reach two that starts in the middle of the bottom row
//! and wins on the top row.
//!
//! The players take turns by picking cells. The runner's player picks a
//! free cell within reach; the blocker's player then picks a free cell that
//! the runner does not stand on. A pick that is not allowed is ignored.

use vstd::prelude::*;

use crate::client::{
    blocker_target_legal, is_blocker_target, is_runner_target, runner_target_legal,
};
use crate::geometry::{in_bounds, is_in_bounds, Position};
use crate::reach::{can_move, has_destination};
use crate::state::{Role, RunnerState};

verus! {

/// The side of the board.
pub const SOLO_BOARD_SIZE: i16 = 16;

/// The runner's reach.
pub const SOLO_POWER: i16 = 2;

/// The view of a [`SoloGame`].
pub struct SoloView {
    pub runner: RunnerState,
    pub blocked: Seq<Position>,
    pub game_over: bool,
    pub won: bool,
    pub turn_count: nat,
}

/// `macroquad::rand::gen_range` on `i16`, between bounds that are not
/// negative and of which the first is the smaller. The result is at least the
/// first bound and below the second. Which of these values comes back is
/// left open: the generator keeps a state of its own.
#[verifier::external_body]
fn random_below(low: i16, high: i16) -> (r: i16)
    requires
        0 <= low < high,
    ensures
        low <= r < high,
{
    macroquad::rand::gen_range(low, high)
}

/// What a sequence of draws for a new game looks like: fewer cells than
/// the board has rows, all of them on the board.
pub open spec fn is_solo_draw(draws: Seq<Position>) -> bool {
    &&& draws.len() < SOLO_BOARD_SIZE
    &&& forall|i: int| 0 <= i < draws.len() ==> in_bounds(#[trigger] draws[i], SOLO_BOARD_SIZE as int)
}

/// Draws the obstacles of a new game: first how many, then where, repeats
/// included.
pub fn draw_solo_layout() -> (draws: Vec<Position>)
    ensures
        is_solo_draw(draws@),
{
    let count: i16 = random_below(0, SOLO_BOARD_SIZE);
    draw_solo_cells(count)
}

/// Draws `count` cells of the board, repeats included; none where `count`
/// is not positive.
pub fn draw_solo_cells(count: i16) -> (draws: Vec<Position>)
    ensures
        draws@.len() == if count > 0 {
            count as int
        } else {
            0
        },
        forall|i: int|
            0 <= i < draws@.len() ==> in_bounds(#[trigger] draws@[i], SOLO_BOARD_SIZE as int),
{
    let mut draws: Vec<Position> = Vec::new();
    let mut i: i16 = 0;
    while i < count
        invariant
            0 <= i,
            i <= count || i == 0,
            draws@.len() == i,
            forall|j: int|
                0 <= j < draws@.len() ==> in_bounds(#[trigger] draws@[j], SOLO_BOARD_SIZE as int),
        decreases count - i,
    {
        let x: i16 = random_below(0, SOLO_BOARD_SIZE);
        let y: i16 = random_below(0, SOLO_BOARD_SIZE);
        draws.push(Position { x, y });
        i += 1;
    }
    draws
}

/// A game that has not begun, with the cells of `layout` blocked.
pub open spec fn solo_start(layout: Seq<Position>) -> SoloView {
    SoloView {
        runner: RunnerState {
            position: Position { x: 8, y: 15 },
            power: SOLO_POWER,
            moved: false,
        },
        blocked: layout,
        game_over: false,
        won: false,
        turn_count: 0,
    }
}

impl SoloView {
    /// The game has ended: the runner is trapped, or it has won.
    pub open spec fn is_over(self) -> bool {
        self.game_over || self.won
    }

    /// The side whose pick is awaited.
    pub open spec fn to_move(self) -> Role {
        if self.runner.moved {
            Role::Blocker
        } else {
            Role::Runner
        }
    }

    /// The game once the runner has gone to `cell`. On the top row it has
    /// won.
    pub open spec fn after_runner_pick(self, cell: Position) -> SoloView {
        SoloView {
            runner: RunnerState { position: cell, moved: true, ..self.runner },
            won: cell.y == 0,
            ..self
        }
    }

    /// The game once `cell` has been blocked. The round is closed; if the
    /// runner has nowhere to go, it is trapped.
    pub open spec fn after_blocker_pick(self, cell: Position) -> SoloView {
        SoloView {
            runner: RunnerState { moved: false, ..self.runner },
            blocked: self.blocked.push(cell),
            game_over: !has_destination(self.runner, SOLO_BOARD_SIZE, self.blocked.push(cell)),
            turn_count: self.turn_count + 1,
            ..self
        }
    }

    /// The game once `cell` has been picked. Nothing happens when the game
    /// is over, when the board has no such cell, and when the side whose
    /// pick is awaited may not pick it.
    pub open spec fn click(self, cell: Position) -> SoloView {
        if self.is_over() || !in_bounds(cell, SOLO_BOARD_SIZE as int) {
            self
        } else if !self.runner.moved {
            if runner_target_legal(self.runner, self.blocked, cell) {
                self.after_runner_pick(cell)
            } else {
                self
            }
        } else if blocker_target_legal(self.runner, self.blocked, cell) {
            self.after_blocker_pick(cell)
        } else {
            self
        }
    }

    /// No more rounds are closed than cells are blocked.
    pub open spec fn wf(self) -> bool {
        self.turn_count <= self.blocked.len()
    }
}

/// One game at one screen.
#[derive(Clone, Debug, PartialEq, Eq)]
pub struct SoloGame {
    runner: RunnerState,
    blocked: Vec<Position>,
    game_over: bool,
    won: bool,
    turn_count: u64,
}

impl View for SoloGame {
    type V = SoloView;

    closed spec fn view(&self) -> SoloView {
        SoloView {
            runner: self.runner,
            blocked: self.blocked@,
            game_over: self.game_over,
            won: self.won,
            turn_count: self.turn_count as nat,
        }
    }
}

impl SoloGame {
    /// What holds of every game that this crate hands out: see
    /// [`SoloView::wf`].
    pub open spec fn wf(&self) -> bool {
        self@.wf()
    }

    /// A game that has not begun, with the cells of `layout` blocked.
    pub fn new(layout: Vec<Position>) -> (game: SoloGame)
        ensures
            game.wf(),
            game@ == solo_start(layout@),
    {
        SoloGame {
            runner: RunnerState {
                position: Position { x: 8, y: 15 },
                power: SOLO_POWER,
                moved: false,
            },
            blocked: layout,
            game_over: false,
            won: false,
            turn_count: 0,
        }
    }

    /// A game that has not begun, with obstacles where chance put them.
    pub fn random() -> (game: SoloGame)
        ensures
            game.wf(),
            exists|draws: Seq<Position>| #[trigger] is_solo_draw(draws) && game@ == solo_start(draws),
    {
        let draws = draw_solo_layout();
        assert(is_solo_draw(draws@));
        Self::new(draws)
    }

    /// Whether the game is one that this crate hands out.
    pub fn is_well_formed(&self) -> (r: bool)
        ensures
            r == self.wf(),
    {
        self.turn_count <= self.blocked.len() as u64
    }

    /// The runner.
    pub fn runner(&self) -> (r: RunnerState)
        ensures
            r == self@.runner,
    {
        self.runner
    }

    /// The blocked cells, oldest first.
    pub fn blocked(&self) -> (r: &Vec<Position>)
        ensures
            r@ == self@.blocked,
    {
        &self.blocked
    }

    /// Whether the runner is trapped.
    pub fn game_over(&self) -> (r: bool)
        ensures
            r == self@.game_over,
    {
        self.game_over
    }

    /// Whether the runner has won.
    pub fn won(&self) -> (r: bool)
        ensures
            r == self@.won,
    {
        self.won
    }

    /// The number of rounds that are closed.
    pub fn turn_count(&self) -> (r: u64)
        ensures
            r == self@.turn_count,
    {
        self.turn_count
    }

    /// Whether the game has ended.
    pub fn is_over(&self) -> (r: bool)
        ensures
            r == self@.is_over(),
    {
        self.game_over || self.won
    }

    /// The side whose pick is awaited.
    pub fn to_move(&self) -> (r: Role)
        ensures
            r == self@.to_move(),
    {
        if self.runner.moved {
            Role::Blocker
        } else {
            Role::Runner
        }
    }

    /// Whether picking `cell` now would change the game.
    pub fn may_pick(&self, cell: Position) -> (r: bool)
        ensures
            r == (self@.click(cell) != self@),
    {
        if self.is_over() || !is_in_bounds(cell, SOLO_BOARD_SIZE) {
            false
        } else if !self.runner.moved {
            is_runner_target(self.runner, &self.blocked, cell)
        } else {
            is_blocker_target(self.runner, &self.blocked, cell)
        }
    }

    /// Takes the pick of `cell`.
    pub fn click(&mut self, cell: Position)
        requires
            old(self).wf(),
        ensures
            final(self).wf(),
            final(self)@ == old(self)@.click(cell),
    {
        if self.is_over() || !is_in_bounds(cell, SOLO_BOARD_SIZE) {
            return ;
        }
        if !self.runner.moved {
            if is_runner_target(self.runner, &self.blocked, cell) {
                self.runner.position = cell;
                self.runner.moved = true;
                self.won = cell.y == 0;
            }
        } else if is_blocker_target(self.runner, &self.blocked, cell) {
            self.blocked.push(cell);
            assert(self.blocked@.len() == self.blocked.len());
            self.game_over = !can_move(self.runner, SOLO_BOARD_SIZE, &self.blocked);
            self.runner.moved = false;
            self.turn_count = self.turn_count + 1;
        }
    }
}

/// A game that is over stays as it is, whatever is picked.
pub proof fn lemma_solo_over_is_final(game: SoloView, cell: Position)
    requires
        game.is_over(),
    ensures
        game.click(cell) == game,
{
}

/// The sides take turns: a pick that is taken passes the turn, and the
/// blocker's pick closes one round; a pick that is ignored changes nothing.
pub proof fn lemma_solo_turns_alternate(game: SoloView, cell: Position)
    requires
        game.click(cell) != game,
    ensures
        game.click(cell).to_move() == game.to_move().other(),
        game.click(cell).turn_count == game.turn_count + if game.to_move() == Role::Blocker {
            1nat
        } else {
            0nat
        },
        game.to_move() == Role::Runner ==> game.click(cell).runner.position == cell
            && game.click(cell).blocked == game.blocked,
        game.to_move() == Role::Blocker ==> game.click(cell).runner.position
            == game.runner.position && game.click(cell).blocked == game.blocked.push(cell),
{
}

} // verus!
