//! The state of one match and the transitions that commands make on it.
//!
//! A match is described by its view, [`MatchView`], a plain mathematical
//! record. Every transition is first a function on views; the executable
//! methods of [`MatchState`] are proved to compute exactly those functions.

use vstd::prelude::*;

use crate::geometry::{all_different, contains_position, is_on_edge, on_edge, Position};
use crate::random::{draw_layout, is_layout_draw, lemma_layout_draw_exists, some_layout_draw};
use crate::reach::{can_move, check_destination, is_destination};

verus! {

/// The two sides of a match.
#[derive(Clone, Copy, Debug, PartialEq, Eq, Structural)]
pub enum Role {
    Runner,
    Blocker,
}

impl Role {
    /// The name of the role on the wire.
    pub open spec fn name(self) -> Seq<char> {
        match self {
            Role::Runner => "runner"@,
            Role::Blocker => "blocker"@,
        }
    }

    /// The other side.
    pub open spec fn other(self) -> Role {
        match self {
            Role::Runner => Role::Blocker,
            Role::Blocker => Role::Runner,
        }
    }

    /// The name of the role on the wire: `runner` or `blocker`.
    pub fn as_str(self) -> (name: &'static str)
        ensures
            name@ == self.name(),
    {
        match self {
            Role::Runner => "runner",
            Role::Blocker => "blocker",
        }
    }

    /// The other side.
    pub fn opponent(self) -> (r: Role)
        ensures
            r == self.other(),
    {
        match self {
            Role::Runner => Role::Blocker,
            Role::Blocker => Role::Runner,
        }
    }
}

/// Where a match stands. `GameOver` carries the outcome: `true` when the
/// runner escaped, `false` when it was trapped.
#[derive(Clone, Copy, Debug, PartialEq, Eq, Structural)]
pub enum GamePhase {
    WaitingForPlayers,
    Playing,
    CpuMode,
    GameOver(bool),
}

/// What a player may ask of a match. `Init`, `ActivateCpu`, `Poll` and
/// `Unknown` leave the match as it is; the connection handler gives
/// `ActivateCpu` and `Poll` their meaning before they come this far.
#[derive(Clone, Copy, Debug, PartialEq, Eq, Structural)]
pub enum Command {
    Init,
    ActivateCpu,
    Poll,
    MoveRunner(Position),
    MoveBlocker(Position),
    Reset,
    Unknown,
}

/// The runner: where it stands, how far it moves at once, and whether it has
/// moved in the round that is open.
#[derive(Clone, Copy, Debug, PartialEq, Eq, Structural)]
pub struct RunnerState {
    pub position: Position,
    pub power: i16,
    pub moved: bool,
}

/// The blocker: the cells it has blocked, oldest first, and whether it has
/// moved in the round that is open.
#[derive(Clone, Debug, PartialEq, Eq)]
pub struct BlockerState {
    pub blocked: Vec<Position>,
    pub moved: bool,
}

/// The view of a [`BlockerState`].
pub struct BlockerView {
    pub blocked: Seq<Position>,
    pub moved: bool,
}

impl View for BlockerState {
    type V = BlockerView;

    open spec fn view(&self) -> BlockerView {
        BlockerView { blocked: self.blocked@, moved: self.moved }
    }
}

/// The view of a [`MatchState`]: a match as a mathematical record.
pub struct MatchView {
    pub runner: RunnerState,
    pub blocker: BlockerView,
    pub game_over: bool,
    pub runner_won: bool,
    pub turn_count: nat,
    pub phase: GamePhase,
    pub board_size: i16,
    pub current_player: Role,
}

/// The cells of `cells` in the order of their first occurrence, each once.
pub open spec fn distinct_cells(cells: Seq<Position>) -> Seq<Position>
    decreases cells.len(),
{
    if cells.len() == 0 {
        Seq::empty()
    } else {
        let earlier = distinct_cells(cells.drop_last());
        if earlier.contains(cells.last()) {
            earlier
        } else {
            earlier.push(cells.last())
        }
    }
}

/// A match that has not begun: the runner in the middle of a board of side
/// `board_size`, the cells of `layout` blocked, nobody connected.
pub open spec fn fresh_match(board_size: i16, power: i16, layout: Seq<Position>) -> MatchView {
    MatchView {
        runner: RunnerState {
            position: Position { x: (board_size / 2) as i16, y: (board_size / 2) as i16 },
            power,
            moved: false,
        },
        blocker: BlockerView { blocked: layout, moved: false },
        game_over: false,
        runner_won: false,
        turn_count: 0,
        phase: GamePhase::WaitingForPlayers,
        board_size,
        current_player: Role::Runner,
    }
}

impl MatchView {
    /// What holds of every match that this crate hands out.
    ///
    /// The board has at least one cell and the runner a reach of at least
    /// one. No cell is blocked twice. The runner has moved in the open round
    /// exactly when it is the blocker's turn, and the blocker never has: its
    /// move closes the round. Every closed round placed one obstacle. The
    /// two outcome flags say what the phase says.
    pub open spec fn wf(self) -> bool {
        &&& self.board_size >= 1
        &&& self.runner.power >= 1
        &&& self.blocker.blocked.no_duplicates()
        &&& !self.blocker.moved
        &&& self.runner.moved == (self.current_player == Role::Blocker)
        &&& self.turn_count <= self.blocker.blocked.len()
        &&& self.runner_won == (self.phase == GamePhase::GameOver(true))
        &&& self.game_over == (self.phase == GamePhase::GameOver(false))
    }

    /// The match has ended.
    pub open spec fn is_over(self) -> bool {
        self.phase is GameOver
    }

    /// The runner may go to `to`: it is within reach, on the board and not
    /// blocked.
    pub open spec fn legal_destination(self, to: Position) -> bool {
        is_destination(self.runner, self.board_size, self.blocker.blocked, to)
    }

    /// The runner has somewhere to go.
    pub open spec fn runner_can_move(self) -> bool {
        exists|to: Position| #[trigger] self.legal_destination(to)
    }

    /// The match once the runner has gone to `to`. The turn passes to the
    /// blocker; on the edge of the board the runner has won.
    pub open spec fn after_runner_move(self, to: Position) -> MatchView {
        let escaped = on_edge(to, self.board_size as int);
        MatchView {
            runner: RunnerState { position: to, power: self.runner.power, moved: true },
            current_player: Role::Blocker,
            runner_won: if escaped {
                true
            } else {
                self.runner_won
            },
            phase: if escaped {
                GamePhase::GameOver(true)
            } else {
                self.phase
            },
            ..self
        }
    }

    /// The match once `at` has been blocked, before anything else is looked
    /// at.
    pub open spec fn with_obstacle(self, at: Position) -> MatchView {
        MatchView {
            blocker: BlockerView { blocked: self.blocker.blocked.push(at), moved: true },
            current_player: Role::Runner,
            ..self
        }
    }

    /// The match once the blocker has blocked `at`. The turn passes to the
    /// runner; if that leaves the runner nowhere to go, the blocker has won.
    pub open spec fn after_blocker_move(self, at: Position) -> MatchView {
        let placed = self.with_obstacle(at);
        if placed.runner_can_move() {
            placed
        } else {
            MatchView { game_over: true, phase: GamePhase::GameOver(false), ..placed }
        }
    }

    /// The match once an open round in which both sides have moved is
    /// closed and counted.
    pub open spec fn close_round(self) -> MatchView {
        if self.runner.moved && self.blocker.moved {
            MatchView {
                runner: RunnerState { moved: false, ..self.runner },
                blocker: BlockerView { moved: false, ..self.blocker },
                turn_count: self.turn_count + 1,
                ..self
            }
        } else {
            self
        }
    }

    /// `role` may move the runner now.
    pub open spec fn runner_move_allowed(self, role: Role) -> bool {
        &&& role == self.current_player
        &&& role == Role::Runner
        &&& !self.runner.moved
        &&& !self.is_over()
    }

    /// `role` may block `at` now.
    pub open spec fn blocker_move_allowed(self, role: Role, at: Position) -> bool {
        &&& role == self.current_player
        &&& role == Role::Blocker
        &&& !self.blocker.moved
        &&& !self.is_over()
        &&& !self.blocker.blocked.contains(at)
    }

    /// The match once a second player has joined: play begins if the match
    /// was waiting for it.
    pub open spec fn after_second_player(self) -> MatchView {
        if self.phase == GamePhase::WaitingForPlayers {
            MatchView { phase: GamePhase::Playing, ..self }
        } else {
            self
        }
    }

    /// The match once a waiting player has asked for a simulated runner.
    pub open spec fn after_cpu_activation(self) -> MatchView {
        if self.phase == GamePhase::WaitingForPlayers {
            MatchView { phase: GamePhase::CpuMode, ..self }
        } else {
            self
        }
    }

    /// What `command`, sent by `role`, makes of the match, and whether it is
    /// accepted. `layout` is what a reset blocks on the new board.
    ///
    /// A command from the side whose turn it is not is rejected. A move is
    /// rejected when the match is over, when the side has moved already, and
    /// when the cell to block is blocked already. A rejected command changes
    /// nothing. From the side whose turn it is, a reset and every command
    /// that is not a move are accepted; only the reset changes anything. The
    /// move that is the second of its round closes the round.
    pub open spec fn apply(self, command: Command, role: Role, layout: Seq<Position>) -> (
        MatchView,
        bool,
    ) {
        if role != self.current_player {
            (self, false)
        } else {
            match command {
                Command::MoveRunner(to) => if self.runner_move_allowed(role) {
                    (self.after_runner_move(to).close_round(), true)
                } else {
                    (self, false)
                },
                Command::MoveBlocker(at) => if self.blocker_move_allowed(role, at) {
                    (self.after_blocker_move(at).close_round(), true)
                } else {
                    (self, false)
                },
                Command::Reset => (
                    fresh_match(self.board_size, self.runner.power, distinct_cells(layout)),
                    true,
                ),
                _ => (self, true),
            }
        }
    }
}

/// One match: the single source of truth for both players.
#[derive(Clone, Debug, PartialEq, Eq)]
pub struct MatchState {
    runner: RunnerState,
    blocker: BlockerState,
    game_over: bool,
    runner_won: bool,
    turn_count: u64,
    phase: GamePhase,
    board_size: i16,
    current_player: Role,
}

impl View for MatchState {
    type V = MatchView;

    closed spec fn view(&self) -> MatchView {
        MatchView {
            runner: self.runner,
            blocker: self.blocker@,
            game_over: self.game_over,
            runner_won: self.runner_won,
            turn_count: self.turn_count as nat,
            phase: self.phase,
            board_size: self.board_size,
            current_player: self.current_player,
        }
    }
}

/// A sequence with `last` pushed on it holds `cell` exactly when it held it
/// before or `cell` is `last`.
proof fn lemma_push_contains(cells: Seq<Position>, last: Position, cell: Position)
    ensures
        cells.push(last).contains(cell) <==> cells.contains(cell) || cell == last,
{
    let pushed = cells.push(last);
    if cells.contains(cell) {
        let i = cells.index_of(cell);
        assert(pushed[i] == cell);
    }
    if cell == last {
        assert(pushed[cells.len() as int] == cell);
    }
    if pushed.contains(cell) {
        let i = pushed.index_of(cell);
        if i < cells.len() {
            assert(cells[i] == cell);
        }
    }
}

/// A cell that is pushed on cells that are all different, and that is not
/// one of them, leaves them all different.
pub proof fn lemma_push_keeps_distinct(cells: Seq<Position>, cell: Position)
    requires
        cells.no_duplicates(),
        !cells.contains(cell),
    ensures
        cells.push(cell).no_duplicates(),
{
    let pushed = cells.push(cell);
    assert forall|i: int, j: int|
        0 <= i < pushed.len() && 0 <= j < pushed.len() && i != j implies pushed[i]
        != pushed[j] by {
        if i < cells.len() {
            assert(cells.contains(pushed[i]));
        }
        if j < cells.len() {
            assert(cells.contains(pushed[j]));
        }
    }
}

/// `distinct_cells` keeps every cell, none twice, and adds none.
pub proof fn lemma_distinct_cells(cells: Seq<Position>)
    ensures
        distinct_cells(cells).no_duplicates(),
        distinct_cells(cells).len() <= cells.len(),
        forall|cell: Position| #[trigger]
            distinct_cells(cells).contains(cell) <==> cells.contains(cell),
    decreases cells.len(),
{
    if cells.len() > 0 {
        let front = cells.drop_last();
        let earlier = distinct_cells(front);
        lemma_distinct_cells(front);
        assert(cells =~= front.push(cells.last()));
        assert forall|cell: Position| #[trigger]
            distinct_cells(cells).contains(cell) <==> cells.contains(cell) by {
            assert(earlier.contains(cell) <==> front.contains(cell));
            lemma_push_contains(front, cells.last(), cell);
            lemma_push_contains(earlier, cells.last(), cell);
        }
        if !earlier.contains(cells.last()) {
            lemma_push_keeps_distinct(earlier, cells.last());
        }
    }
}

/// Whether two roles are the same.
fn same_role(a: Role, b: Role) -> (r: bool)
    ensures
        r == (a == b),
{
    match (a, b) {
        (Role::Runner, Role::Runner) => true,
        (Role::Blocker, Role::Blocker) => true,
        _ => false,
    }
}

/// The cells of `cells`, each once, in the order of their first occurrence.
pub fn first_occurrences(cells: &Vec<Position>) -> (kept: Vec<Position>)
    ensures
        kept@ == distinct_cells(cells@),
        kept@.no_duplicates(),
{
    let mut kept: Vec<Position> = Vec::new();
    let mut i: usize = 0;
    assert(cells@.take(0) =~= Seq::<Position>::empty());
    while i < cells.len()
        invariant
            i <= cells.len(),
            kept@ == distinct_cells(cells@.take(i as int)),
        decreases cells.len() - i,
    {
        let cell = cells[i];
        proof {
            let next = cells@.take(i as int + 1);
            assert(next.drop_last() =~= cells@.take(i as int));
            assert(next.last() == cell);
        }
        if !contains_position(&kept, cell) {
            kept.push(cell);
        }
        i += 1;
    }
    proof {
        assert(cells@.take(cells.len() as int) =~= cells@);
        lemma_distinct_cells(cells@);
    }
    kept
}

impl MatchState {
    /// The side of the board of a match made by [`MatchState::new`].
    pub const DEFAULT_BOARD_SIZE: i16 = 21;

    /// The runner's reach in a match made by [`MatchState::new`].
    pub const DEFAULT_POWER: i16 = 1;

    /// What holds of every match that this crate hands out: see
    /// [`MatchView::wf`].
    pub open spec fn wf(&self) -> bool {
        self@.wf()
    }

    /// A match on a board of side `board_size`, with a runner of reach
    /// `power` and the cells of `layout` blocked. Neither number may be below
    /// one.
    fn fresh(board_size: i16, power: i16, layout: &Vec<Position>) -> (state: MatchState)
        requires
            board_size >= 1,
            power >= 1,
        ensures
            state.wf(),
            state@ == fresh_match(board_size, power, distinct_cells(layout@)),
    {
        let blocked = first_occurrences(layout);
        MatchState {
            runner: RunnerState {
                position: Position { x: board_size / 2, y: board_size / 2 },
                power,
                moved: false,
            },
            blocker: BlockerState { blocked, moved: false },
            game_over: false,
            runner_won: false,
            turn_count: 0,
            phase: GamePhase::WaitingForPlayers,
            board_size,
            current_player: Role::Runner,
        }
    }

    /// A match on the default board with obstacles where chance put them:
    /// the cells of some layout draw, each once.
    pub fn new() -> (state: MatchState)
        ensures
            state.wf(),
            exists|draws: Seq<Position>|
                #[trigger] is_layout_draw(draws, Self::DEFAULT_BOARD_SIZE as int) && state@
                    == fresh_match(
                    Self::DEFAULT_BOARD_SIZE,
                    Self::DEFAULT_POWER,
                    distinct_cells(draws),
                ),
    {
        let draws = draw_layout(Self::DEFAULT_BOARD_SIZE);
        Self::fresh(Self::DEFAULT_BOARD_SIZE, Self::DEFAULT_POWER, &draws)
    }

    /// A match on a board of side `board_size`, with a runner of reach
    /// `power` and the cells of `layout` blocked, each once and in the order
    /// in which `layout` first names them. There is no such match when the
    /// side or the reach is below one.
    pub fn with_layout(board_size: i16, power: i16, layout: &Vec<Position>) -> (r: Option<
        MatchState,
    >)
        ensures
            r is Some <==> board_size >= 1 && power >= 1,
            r matches Some(state) ==> state.wf() && state@ == fresh_match(
                board_size,
                power,
                distinct_cells(layout@),
            ),
    {
        if board_size >= 1 && power >= 1 {
            Some(Self::fresh(board_size, power, layout))
        } else {
            None
        }
    }

    /// Whether the match is one that this crate hands out. Every match made
    /// and changed by this crate is.
    pub fn is_well_formed(&self) -> (r: bool)
        ensures
            r == self.wf(),
    {
        let blockers_turn = match self.current_player {
            Role::Blocker => true,
            Role::Runner => false,
        };
        let runner_has_won = match self.phase {
            GamePhase::GameOver(true) => true,
            _ => false,
        };
        let blocker_has_won = match self.phase {
            GamePhase::GameOver(false) => true,
            _ => false,
        };
        self.board_size >= 1 && self.runner.power >= 1 && !self.blocker.moved && self.runner.moved
            == blockers_turn && self.runner_won == runner_has_won && self.game_over
            == blocker_has_won && self.turn_count <= self.blocker.blocked.len() as u64
            && all_different(&self.blocker.blocked)
    }

    /// A copy of the match as it stands.
    pub fn snapshot(&self) -> (copy: MatchState)
        ensures
            copy@ == self@,
    {
        let mut blocked: Vec<Position> = Vec::new();
        let mut i: usize = 0;
        while i < self.blocker.blocked.len()
            invariant
                i <= self.blocker.blocked.len(),
                blocked@ == self.blocker.blocked@.take(i as int),
            decreases self.blocker.blocked.len() - i,
        {
            blocked.push(self.blocker.blocked[i]);
            assert(blocked@ =~= self.blocker.blocked@.take(i as int + 1));
            i += 1;
        }
        assert(blocked@ =~= self.blocker.blocked@);
        MatchState {
            runner: self.runner,
            blocker: BlockerState { blocked, moved: self.blocker.moved },
            game_over: self.game_over,
            runner_won: self.runner_won,
            turn_count: self.turn_count,
            phase: self.phase,
            board_size: self.board_size,
            current_player: self.current_player,
        }
    }

    /// The runner.
    pub fn runner(&self) -> (r: RunnerState)
        ensures
            r == self@.runner,
    {
        self.runner
    }

    /// The blocker.
    pub fn blocker(&self) -> (r: &BlockerState)
        ensures
            r@ == self@.blocker,
    {
        &self.blocker
    }

    /// Whether the blocker has trapped the runner.
    pub fn game_over(&self) -> (r: bool)
        ensures
            r == self@.game_over,
    {
        self.game_over
    }

    /// Whether the runner has escaped.
    pub fn runner_won(&self) -> (r: bool)
        ensures
            r == self@.runner_won,
    {
        self.runner_won
    }

    /// The number of rounds that are closed.
    pub fn turn_count(&self) -> (r: u64)
        ensures
            r == self@.turn_count,
    {
        self.turn_count
    }

    /// The phase of the match.
    pub fn phase(&self) -> (r: GamePhase)
        ensures
            r == self@.phase,
    {
        self.phase
    }

    /// The side of the board.
    pub fn board_size(&self) -> (r: i16)
        ensures
            r == self@.board_size,
    {
        self.board_size
    }

    /// The side whose turn it is.
    pub fn current_player(&self) -> (r: Role)
        ensures
            r == self@.current_player,
    {
        self.current_player
    }

    /// Whether the match has ended.
    pub fn is_over(&self) -> (r: bool)
        ensures
            r == self@.is_over(),
    {
        match self.phase {
            GamePhase::GameOver(_) => true,
            _ => false,
        }
    }

    /// Whether the runner may go to `to`.
    pub fn is_legal_destination(&self, to: Position) -> (r: bool)
        ensures
            r == self@.legal_destination(to),
    {
        check_destination(self.runner, self.board_size, &self.blocker.blocked, to)
    }

    /// Whether the runner has somewhere to go.
    pub fn runner_can_move(&self) -> (r: bool)
        ensures
            r == self@.runner_can_move(),
    {
        let r = can_move(self.runner, self.board_size, &self.blocker.blocked);
        proof {
            if r {
                let to = choose|to: Position| #[trigger]
                    is_destination(self.runner, self.board_size, self.blocker.blocked@, to);
                assert(self@.legal_destination(to));
            }
            if self@.runner_can_move() {
                let to = choose|to: Position| #[trigger] self@.legal_destination(to);
                assert(is_destination(self.runner, self.board_size, self.blocker.blocked@, to));
            }
        }
        r
    }

    /// Begins play if the match was waiting for a second player.
    pub fn second_player_joined(&mut self)
        requires
            old(self).wf(),
        ensures
            final(self).wf(),
            final(self)@ == old(self)@.after_second_player(),
    {
        match self.phase {
            GamePhase::WaitingForPlayers => {
                self.phase = GamePhase::Playing;
            },
            _ => {},
        }
    }

    /// Hands the runner to the simulator if the match was waiting for a
    /// second player, and says whether it did.
    pub fn activate_cpu(&mut self) -> (activated: bool)
        requires
            old(self).wf(),
        ensures
            final(self).wf(),
            activated == (old(self)@.phase == GamePhase::WaitingForPlayers),
            final(self)@ == old(self)@.after_cpu_activation(),
    {
        match self.phase {
            GamePhase::WaitingForPlayers => {
                self.phase = GamePhase::CpuMode;
                true
            },
            _ => false,
        }
    }

    /// Puts the runner on `to` and passes the turn to the blocker.
    pub(crate) fn move_runner_to(&mut self, to: Position)
        ensures
            final(self)@ == old(self)@.after_runner_move(to),
    {
        self.runner.position = to;
        self.runner.moved = true;
        self.current_player = Role::Blocker;
        if is_on_edge(to, self.board_size) {
            self.runner_won = true;
            self.phase = GamePhase::GameOver(true);
        }
    }

    /// Blocks `at` and passes the turn to the runner.
    fn place_obstacle(&mut self, at: Position)
        ensures
            final(self)@ == old(self)@.after_blocker_move(at),
    {
        self.blocker.blocked.push(at);
        self.blocker.moved = true;
        self.current_player = Role::Runner;
        if !self.runner_can_move() {
            self.game_over = true;
            self.phase = GamePhase::GameOver(false);
        }
    }

    /// Closes the open round if both sides have moved in it.
    fn close_round(&mut self)
        requires
            old(self).runner.moved && old(self).blocker.moved ==> old(self).turn_count < u64::MAX,
        ensures
            final(self)@ == old(self)@.close_round(),
    {
        if self.runner.moved && self.blocker.moved {
            self.runner.moved = false;
            self.blocker.moved = false;
            self.turn_count = self.turn_count + 1;
        }
    }

    /// Applies `command`, sent by `role`, and says whether it was accepted.
    /// Should the command be a reset, the new board has the cells of
    /// `layout` blocked.
    pub fn apply_with(&mut self, command: Command, role: Role, layout: &Vec<Position>) -> (accepted:
        bool)
        requires
            old(self).wf(),
        ensures
            final(self).wf(),
            (final(self)@, accepted) == old(self)@.apply(command, role, layout@),
    {
        proof {
            lemma_apply_keeps_wf(self@, command, role, layout@);
        }
        if !same_role(role, self.current_player) {
            return false;
        }
        match command {
            Command::MoveRunner(to) => {
                if same_role(role, Role::Runner) && !self.runner.moved && !self.is_over() {
                    self.move_runner_to(to);
                    self.close_round();
                    true
                } else {
                    false
                }
            },
            Command::MoveBlocker(at) => {
                if same_role(role, Role::Blocker) && !self.blocker.moved && !self.is_over()
                    && !contains_position(&self.blocker.blocked, at) {
                    let ghost before = self@;
                    self.place_obstacle(at);
                    assert(self.turn_count < u64::MAX) by {
                        assert(self.blocker.blocked@.len() == before.blocker.blocked.len() + 1);
                        assert(self.blocker.blocked@.len() == self.blocker.blocked.len());
                    }
                    self.close_round();
                    true
                } else {
                    false
                }
            },
            Command::Reset => {
                *self = Self::fresh(self.board_size, self.runner.power, layout);
                true
            },
            _ => true,
        }
    }

    /// Applies `command`, sent by `role`, and says whether it was accepted.
    /// A reset blocks the cells of a layout draw on the new board.
    pub fn apply(&mut self, command: Command, role: Role) -> (accepted: bool)
        requires
            old(self).wf(),
        ensures
            final(self).wf(),
            exists|draws: Seq<Position>|
                #[trigger] is_layout_draw(draws, old(self)@.board_size as int) && (
                    final(self)@,
                    accepted,
                ) == old(self)@.apply(command, role, draws),
    {
        let ghost before = self@;
        match command {
            Command::Reset => {
                let draws = draw_layout(self.board_size);
                self.apply_with(command, role, &draws)
            },
            _ => {
                let none: Vec<Position> = Vec::new();
                let accepted = self.apply_with(command, role, &none);
                proof {
                    let draws = some_layout_draw(before.board_size as int);
                    lemma_layout_draw_exists(before.board_size as int);
                    assert(before.apply(command, role, draws) == before.apply(
                        command,
                        role,
                        none@,
                    ));
                }
                accepted
            },
        }
    }
}

/// A command applied to a well-formed match leaves a well-formed match on a
/// board of the same side.
pub proof fn lemma_apply_keeps_wf(
    before: MatchView,
    command: Command,
    role: Role,
    layout: Seq<Position>,
)
    requires
        before.wf(),
    ensures
        before.apply(command, role, layout).0.wf(),
        before.apply(command, role, layout).0.board_size == before.board_size,
{
    lemma_distinct_cells(layout);
    match command {
        Command::MoveBlocker(at) => {
            if before.blocker_move_allowed(role, at) {
                lemma_push_keeps_distinct(before.blocker.blocked, at);
            }
        },
        _ => {},
    }
}

} // verus!
