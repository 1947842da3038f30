//! The simulated runner: which moves it weighs, and what its turn makes of
//! a match.

use vstd::prelude::*;

use crate::geometry::{contains_position, is_on_edge, on_edge, Position};
use crate::random::choose_cell;
use crate::state::{GamePhase, MatchState, MatchView, Role};

verus! {

impl MatchView {
    /// How often `to` stands in the pool that the simulated runner picks
    /// from: three times where it is a legal destination on the edge, once
    /// where it is any other legal destination, and not at all otherwise.
    pub open spec fn candidate_weight(self, to: Position) -> nat {
        if !self.legal_destination(to) {
            0
        } else if on_edge(to, self.board_size as int) {
            3
        } else {
            1
        }
    }

    /// `pool` holds every cell as often as its weight says.
    pub open spec fn is_candidate_pool(self, pool: Seq<Position>) -> bool {
        forall|to: Position| #[trigger] pool.to_multiset().count(to) == self.candidate_weight(to)
    }

    /// It is for the simulated runner to move.
    pub open spec fn cpu_to_move(self) -> bool {
        self.phase == GamePhase::CpuMode && self.current_player == Role::Runner
    }

    /// `choice` is something that a pick from the pool can give: a legal
    /// destination, or nothing where there is none.
    pub open spec fn cpu_choice_allowed(self, choice: Option<Position>) -> bool {
        match choice {
            Some(to) => self.legal_destination(to),
            None => !self.runner_can_move(),
        }
    }

    /// The match after the simulated runner's turn, `choice` being what was
    /// picked. Where it is not for the simulated runner to move, and where
    /// nothing was picked, the match stays as it is.
    pub open spec fn after_cpu_turn(self, choice: Option<Position>) -> MatchView {
        match choice {
            Some(to) => if self.cpu_to_move() {
                self.after_runner_move(to)
            } else {
                self
            },
            None => self,
        }
    }
}

/// Pushing `last` on `cells` adds one to the number of times `last` stands
/// in it, and leaves the number of every other cell as it was.
proof fn lemma_count_push(cells: Seq<Position>, last: Position, cell: Position)
    ensures
        cells.push(last).to_multiset().count(cell) == cells.to_multiset().count(cell) + if last
            == cell {
            1nat
        } else {
            0nat
        },
{
    broadcast use vstd::multiset::group_multiset_axioms;

    vstd::seq_lib::to_multiset_build(cells, last);
}

/// The cell `to` comes before the place `(at_x, at_y)` when the board is
/// read column by column.
spec fn read_before(to: Position, at_x: int, at_y: int) -> bool {
    to.x < at_x || (to.x == at_x && to.y < at_y)
}

impl MatchState {
    /// The pool that the simulated runner picks from. Every legal
    /// destination is in it, three times if it is on the edge and once if
    /// not, and nothing else is.
    pub fn candidate_pool(&self) -> (pool: Vec<Position>)
        ensures
            self@.is_candidate_pool(pool@),
            forall|to: Position| pool@.contains(to) <==> self@.legal_destination(to),
            pool@.len() == 0 <==> !self@.runner_can_move(),
    {
        broadcast use vstd::seq_lib::group_to_multiset_ensures;

        let runner = self.runner();
        let side: i32 = self.board_size() as i32;
        let cx: i32 = runner.position.x as i32;
        let cy: i32 = runner.position.y as i32;
        let power: i32 = runner.power as i32;
        let x_first: i32 = if cx - power >= 0 {
            cx - power
        } else {
            0
        };
        let x_last: i32 = if cx + power <= side - 1 {
            cx + power
        } else {
            side - 1
        };
        let y_first: i32 = if cy - power >= 0 {
            cy - power
        } else {
            0
        };
        let y_last: i32 = if cy + power <= side - 1 {
            cy + power
        } else {
            side - 1
        };
        let mut pool: Vec<Position> = Vec::new();
        let mut x: i32 = x_first;
        while x <= x_last
            invariant
                runner == self@.runner,
                side == self@.board_size,
                cx == runner.position.x,
                cy == runner.position.y,
                power == runner.power,
                x_first == if cx - power >= 0 {
                    cx - power
                } else {
                    0
                },
                x_last == if cx + power <= side - 1 {
                    cx + power
                } else {
                    side - 1
                },
                y_first == if cy - power >= 0 {
                    cy - power
                } else {
                    0
                },
                y_last == if cy + power <= side - 1 {
                    cy + power
                } else {
                    side - 1
                },
                x_first <= x,
                forall|to: Position| #[trigger]
                    pool@.to_multiset().count(to) == if read_before(to, x as int, y_first as int) {
                        self@.candidate_weight(to)
                    } else {
                        0
                    },
            decreases x_last - x + 1,
        {
            let mut y: i32 = y_first;
            while y <= y_last
                invariant
                    runner == self@.runner,
                    side == self@.board_size,
                    cx == runner.position.x,
                    cy == runner.position.y,
                    power == runner.power,
                    x_first == if cx - power >= 0 {
                        cx - power
                    } else {
                        0
                    },
                    x_last == if cx + power <= side - 1 {
                        cx + power
                    } else {
                        side - 1
                    },
                    y_first == if cy - power >= 0 {
                        cy - power
                    } else {
                        0
                    },
                    y_last == if cy + power <= side - 1 {
                        cy + power
                    } else {
                        side - 1
                    },
                    x_first <= x <= x_last,
                    y_first <= y,
                    forall|to: Position| #[trigger]
                        pool@.to_multiset().count(to) == if read_before(to, x as int, y as int) {
                            self@.candidate_weight(to)
                        } else {
                            0
                        },
                decreases y_last - y + 1,
            {
                let to = Position { x: x as i16, y: y as i16 };
                let ghost before = pool@;
                if !(x == cx && y == cy) && !contains_position(&self.blocker().blocked, to) {
                    assert(self@.legal_destination(to));
                    pool.push(to);
                    if is_on_edge(to, self.board_size()) {
                        pool.push(to);
                        pool.push(to);
                    }
                } else {
                    assert(!self@.legal_destination(to));
                }
                proof {
                    assert forall|cell: Position| #[trigger]
                        pool@.to_multiset().count(cell) == if read_before(
                            cell,
                            x as int,
                            y as int + 1,
                        ) {
                            self@.candidate_weight(cell)
                        } else {
                            0
                        } by {
                        assert(before.to_multiset().count(cell) == if read_before(
                            cell,
                            x as int,
                            y as int,
                        ) {
                            self@.candidate_weight(cell)
                        } else {
                            0
                        });
                        lemma_count_push(before, to, cell);
                        lemma_count_push(before.push(to), to, cell);
                        lemma_count_push(before.push(to).push(to), to, cell);
                    }
                }
                y += 1;
            }
            x += 1;
        }
        proof {
            assert forall|to: Position| #[trigger]
                pool@.to_multiset().count(to) == self@.candidate_weight(to) by {
                if self@.legal_destination(to) {
                    assert(read_before(to, x as int, y_first as int));
                }
            }
            assert forall|to: Position| pool@.contains(to) <==> self@.legal_destination(to) by {
                assert(pool@.to_multiset().count(to) == self@.candidate_weight(to));
            }
            if pool@.len() > 0 {
                assert(pool@.contains(pool@[0]));
                assert(self@.legal_destination(pool@[0]));
            }
            if self@.runner_can_move() {
                let to = choose|to: Position| #[trigger] self@.legal_destination(to);
                assert(pool@.contains(to));
            }
        }
        pool
    }

    /// Whether it is for the simulated runner to move.
    pub fn cpu_to_move(&self) -> (r: bool)
        ensures
            r == self@.cpu_to_move(),
    {
        let simulated = match self.phase() {
            GamePhase::CpuMode => true,
            _ => false,
        };
        let runner_next = match self.current_player() {
            Role::Runner => true,
            Role::Blocker => false,
        };
        simulated && runner_next
    }

    /// The simulated runner's turn, `choice` being what was picked for it.
    /// The runner goes to the cell picked, as if a player had sent it there.
    /// Nothing happens where nothing was picked, or where it is not for the
    /// simulated runner to move.
    pub fn cpu_move(&mut self, choice: Option<Position>)
        requires
            old(self).wf(),
        ensures
            final(self).wf(),
            final(self)@ == old(self)@.after_cpu_turn(choice),
    {
        match choice {
            Some(to) => {
                if self.cpu_to_move() {
                    self.move_runner_to(to);
                }
            },
            None => {},
        }
    }

    /// The simulated runner's turn: it picks a cell from its pool at random
    /// and goes there. With an empty pool it stays where it is, and the turn
    /// stays with it.
    pub fn simulate_cpu_runner(&mut self)
        requires
            old(self).wf(),
        ensures
            final(self).wf(),
            exists|choice: Option<Position>| #[trigger]
                old(self)@.cpu_choice_allowed(choice) && final(self)@ == old(self)@.after_cpu_turn(
                    choice,
                ),
    {
        if self.cpu_to_move() {
            let pool = self.candidate_pool();
            let mut rng = rand::thread_rng();
            let choice = choose_cell(&mut rng, &pool);
            assert(self@.cpu_choice_allowed(choice));
            self.cpu_move(choice);
        } else {
            proof {
                lemma_some_choice_allowed(self@);
                let choice = some_allowed_choice(self@);
                assert(self@.cpu_choice_allowed(choice));
                assert(self@.after_cpu_turn(choice) == self@);
            }
        }
    }
}

/// Something that a pick from the pool of `state` can give.
pub open spec fn some_allowed_choice(state: MatchView) -> Option<Position> {
    if state.runner_can_move() {
        Some(choose|to: Position| #[trigger] state.legal_destination(to))
    } else {
        None
    }
}

/// There is always something that a pick from the pool can give.
pub proof fn lemma_some_choice_allowed(state: MatchView)
    ensures
        state.cpu_choice_allowed(some_allowed_choice(state)),
{
}

/// The simulated runner only ever goes to a legal destination, and its turn
/// closes no round.
pub proof fn lemma_cpu_turn_is_a_legal_move(state: MatchView, choice: Option<Position>)
    requires
        state.wf(),
        state.cpu_choice_allowed(choice),
    ensures
        state.after_cpu_turn(choice).wf(),
        state.after_cpu_turn(choice).turn_count == state.turn_count,
        state.after_cpu_turn(choice) != state ==> state.legal_destination(
            state.after_cpu_turn(choice).runner.position,
        ),
{
}

} // verus!
