//! The session registry: who may join a match, and as what.
//!
//! A match has two seats. The first connection is the blocker, the second
//! the runner; every later one is turned away with a fixed message and
//! leaves no trace. A seat that is taken stays taken, also when its player
//! has left.

use vstd::prelude::*;

use crate::state::{MatchState, MatchView, Role};

verus! {

/// The number of seats of a match.
pub const SEATS: u8 = 2;

/// What a new connection is told.
#[derive(Clone, Copy, Debug, PartialEq, Eq, Structural)]
pub enum Admission {
    /// The connection has a seat and plays this role.
    Admitted(Role),
    /// Both seats are taken.
    Full,
}

/// What the connection that finds `connected` players before it is told.
pub open spec fn admission_for(connected: nat) -> Admission {
    if connected == 0 {
        Admission::Admitted(Role::Blocker)
    } else if connected == 1 {
        Admission::Admitted(Role::Runner)
    } else {
        Admission::Full
    }
}

/// The number of players once a connection that found `connected` before it
/// has been dealt with.
pub open spec fn connected_after(connected: nat) -> nat {
    if connected < SEATS {
        connected + 1
    } else {
        connected
    }
}

/// The match once a connection that found `connected` players before it has
/// been dealt with: the second player begins play, nobody else touches the
/// match.
pub open spec fn match_after_admission(connected: nat, state: MatchView) -> MatchView {
    if connected == 1 {
        state.after_second_player()
    } else {
        state
    }
}

/// The seats of one match.
#[derive(Debug)]
pub struct SessionRegistry {
    connected: u8,
}

impl View for SessionRegistry {
    type V = nat;

    closed spec fn view(&self) -> nat {
        self.connected as nat
    }
}

impl SessionRegistry {
    /// No more players than seats.
    pub open spec fn wf(&self) -> bool {
        self@ <= SEATS
    }

    /// A registry with both seats free.
    pub fn new() -> (registry: SessionRegistry)
        ensures
            registry.wf(),
            registry@ == 0,
    {
        SessionRegistry { connected: 0 }
    }

    /// Whether the registry is one that this crate hands out.
    pub fn is_well_formed(&self) -> (r: bool)
        ensures
            r == self.wf(),
    {
        self.connected <= SEATS
    }

    /// The number of players that have a seat.
    pub fn connected(&self) -> (n: u8)
        ensures
            n == self@,
    {
        self.connected
    }

    /// Whether both seats are taken.
    pub fn is_full(&self) -> (full: bool)
        ensures
            full == (self@ >= SEATS),
    {
        self.connected >= SEATS
    }

    /// Deals with a new connection. While a seat is free the connection
    /// takes it; the player on the second seat begins play. With both seats
    /// taken the connection is turned away, and neither the registry nor
    /// the match changes.
    pub fn register(&mut self, state: &mut MatchState) -> (admission: Admission)
        requires
            old(self).wf(),
            old(state).wf(),
        ensures
            final(self).wf(),
            final(state).wf(),
            admission == admission_for(old(self)@),
            final(self)@ == connected_after(old(self)@),
            final(state)@ == match_after_admission(old(self)@, old(state)@),
    {
        if self.connected >= SEATS {
            return Admission::Full;
        }
        self.connected = self.connected + 1;
        if self.connected == 1 {
            Admission::Admitted(Role::Blocker)
        } else {
            state.second_player_joined();
            Admission::Admitted(Role::Runner)
        }
    }
}

/// What a connection is sent when both seats are taken.
pub fn game_full_message() -> (message: &'static str)
    ensures
        message@ == "Game full"@,
{
    "Game full"
}

/// A connection that finds both seats taken is turned away and changes
/// nothing; one that finds a seat free is never turned away.
pub proof fn lemma_full_registry_turns_away(connected: nat, state: MatchView)
    ensures
        connected >= SEATS ==> admission_for(connected) == Admission::Full && connected_after(
            connected,
        ) == connected && match_after_admission(connected, state) == state,
        connected < SEATS ==> admission_for(connected) != Admission::Full,
{
}

} // verus!
