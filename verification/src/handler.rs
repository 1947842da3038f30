//! The connection handler's critical section: what one request makes of the
//! match, and what the caller is told.
//!
//! Two requests are dealt with before the match sees them. `activate_cpu`
//! hands the runner to the simulator while the match waits for a second
//! player; `poll` lets the simulator move while it plays. Everything else
//! is a command for the match. Whenever the simulated runner is left with
//! the turn, it moves before the answer is given.
//!
//! The caller holds the lock on the match for the length of one call.

use vstd::prelude::*;

use crate::cpu::{lemma_some_choice_allowed, some_allowed_choice};
use crate::geometry::Position;
use crate::protocol::{parse_command, parse_request};
use crate::state::{Command, GamePhase, MatchState, MatchView, Role};

verus! {

/// A request as far as the match itself is concerned.
pub struct Handled {
    /// The match once the request is dealt with.
    pub state: MatchView,
    /// Whether the request was accepted.
    pub accepted: bool,
    /// Whether the simulated runner is given a turn before the answer.
    pub cpu_turn: bool,
}

impl MatchView {
    /// The request `line` from `role`, dealt with up to the simulated
    /// runner's turn.
    ///
    /// A request that is no command is rejected and changes nothing.
    /// `activate_cpu` in a waiting match and `poll` in a simulated one are
    /// accepted whoever sends them, and give the simulated runner a turn.
    /// Any other command is applied to the match, and gives the simulated
    /// runner a turn if it is accepted.
    pub open spec fn handle(self, line: Seq<u8>, role: Role) -> Handled {
        match parse_request(line) {
            Err(_) => Handled { state: self, accepted: false, cpu_turn: false },
            Ok(command) => if command == Command::ActivateCpu && self.phase
                == GamePhase::WaitingForPlayers {
                Handled { state: self.after_cpu_activation(), accepted: true, cpu_turn: true }
            } else if command == Command::Poll && self.phase == GamePhase::CpuMode {
                Handled { state: self, accepted: true, cpu_turn: true }
            } else {
                let (state, accepted) = self.apply(command, role, Seq::empty());
                Handled { state, accepted, cpu_turn: accepted }
            },
        }
    }

    /// The match after the request `line` from `role`, and whether the
    /// request was accepted. `choice` is what the simulated runner picks.
    pub open spec fn respond(self, line: Seq<u8>, role: Role, choice: Option<Position>) -> (
        MatchView,
        bool,
    ) {
        let handled = self.handle(line, role);
        if handled.cpu_turn {
            (handled.state.after_cpu_turn(choice), handled.accepted)
        } else {
            (handled.state, handled.accepted)
        }
    }

    /// `choice` is something that the simulated runner can pick while the
    /// request `line` from `role` is dealt with.
    pub open spec fn choice_allowed(
        self,
        line: Seq<u8>,
        role: Role,
        choice: Option<Position>,
    ) -> bool {
        self.handle(line, role).state.cpu_choice_allowed(choice)
    }
}

/// What a player is told after a request: the match as it then stands, the
/// player's own role, and whether the request was accepted.
#[derive(Clone, Debug, PartialEq, Eq)]
pub struct Response {
    pub snapshot: MatchState,
    pub role: Role,
    pub accepted: bool,
}

/// Deals with the request `line` from the player `role`, and gives the
/// answer for that player.
pub fn respond(state: &mut MatchState, role: Role, line: &[u8]) -> (response: Response)
    requires
        old(state).wf(),
    ensures
        final(state).wf(),
        response.snapshot@ == final(state)@,
        response.role == role,
        exists|choice: Option<Position>| #[trigger]
            old(state)@.choice_allowed(line@, role, choice) && (final(state)@, response.accepted)
                == old(state)@.respond(line@, role, choice),
{
    let accepted = handle_request(state, role, line);
    Response { snapshot: state.snapshot(), role, accepted }
}

/// How a request fared with the match itself.
#[derive(Clone, Copy, Debug, PartialEq, Eq, Structural)]
pub struct Dispatch {
    /// Whether the request was accepted.
    pub accepted: bool,
    /// Whether the simulated runner is to be given a turn before the
    /// answer.
    pub cpu_turn: bool,
}

/// Deals with the request `line` from the player `role` up to the simulated
/// runner's turn.
pub fn dispatch(state: &mut MatchState, role: Role, line: &[u8]) -> (outcome: Dispatch)
    requires
        old(state).wf(),
    ensures
        final(state).wf(),
        final(state)@ == old(state)@.handle(line@, role).state,
        outcome.accepted == old(state)@.handle(line@, role).accepted,
        outcome.cpu_turn == old(state)@.handle(line@, role).cpu_turn,
{
    match parse_command(line) {
        Err(_) => Dispatch { accepted: false, cpu_turn: false },
        Ok(command) => {
            let activation = match command {
                Command::ActivateCpu => true,
                _ => false,
            };
            let poll = match command {
                Command::Poll => true,
                _ => false,
            };
            let waiting = match state.phase() {
                GamePhase::WaitingForPlayers => true,
                _ => false,
            };
            let simulated = match state.phase() {
                GamePhase::CpuMode => true,
                _ => false,
            };
            if activation && waiting {
                state.activate_cpu();
                Dispatch { accepted: true, cpu_turn: true }
            } else if poll && simulated {
                Dispatch { accepted: true, cpu_turn: true }
            } else {
                let nothing: Vec<Position> = Vec::new();
                let accepted = state.apply_with(command, role, &nothing);
                Dispatch { accepted, cpu_turn: accepted }
            }
        },
    }
}

/// Deals with the request `line` from the player `role`, and says whether
/// it was accepted. Where the simulated runner is given a turn, it picks
/// its move at random.
pub fn handle_request(state: &mut MatchState, role: Role, line: &[u8]) -> (accepted: bool)
    requires
        old(state).wf(),
    ensures
        final(state).wf(),
        exists|choice: Option<Position>| #[trigger]
            old(state)@.choice_allowed(line@, role, choice) && (final(state)@, accepted)
                == old(state)@.respond(line@, role, choice),
{
    let ghost before = state@;
    let outcome = dispatch(state, role, line);
    let ghost handled = before.handle(line@, role);
    if outcome.cpu_turn {
        state.simulate_cpu_runner();
        proof {
            let choice = choose|choice: Option<Position>| #[trigger]
                handled.state.cpu_choice_allowed(choice) && state@ == handled.state.after_cpu_turn(
                    choice,
                );
            assert(before.choice_allowed(line@, role, choice));
        }
    } else {
        proof {
            lemma_some_choice_allowed(handled.state);
            assert(before.choice_allowed(line@, role, some_allowed_choice(handled.state)));
        }
    }
    outcome.accepted
}

} // verus!
