//! What holds of every match, whatever is asked of it.

use vstd::prelude::*;

use crate::geometry::{in_bounds, on_edge, Position};
use crate::protocol::parse_request;
use crate::state::{
    fresh_match, lemma_apply_keeps_wf, lemma_push_keeps_distinct, Command, GamePhase, MatchView,
    Role,
};

verus! {

/// A command from the side whose turn it is not is rejected and changes
/// nothing, whatever the command.
pub proof fn lemma_out_of_turn_is_rejected(
    before: MatchView,
    command: Command,
    role: Role,
    layout: Seq<Position>,
)
    requires
        role != before.current_player,
    ensures
        before.apply(command, role, layout) == (before, false),
{
}

/// A runner move that the blocker sends, or that anyone sends while it is
/// the blocker's turn, is rejected and changes nothing.
pub proof fn lemma_runner_move_out_of_turn(
    before: MatchView,
    to: Position,
    role: Role,
    layout: Seq<Position>,
)
    requires
        role == Role::Blocker || before.current_player == Role::Blocker,
    ensures
        before.apply(Command::MoveRunner(to), role, layout) == (before, false),
{
}

/// A blocker move that the runner sends, or that anyone sends while it is
/// the runner's turn, is rejected and changes nothing.
pub proof fn lemma_blocker_move_out_of_turn(
    before: MatchView,
    at: Position,
    role: Role,
    layout: Seq<Position>,
)
    requires
        role == Role::Runner || before.current_player == Role::Runner,
    ensures
        before.apply(Command::MoveBlocker(at), role, layout) == (before, false),
{
}

/// A rejected command changes nothing; in particular it closes no round.
pub proof fn lemma_rejected_changes_nothing(
    before: MatchView,
    command: Command,
    role: Role,
    layout: Seq<Position>,
)
    requires
        !before.apply(command, role, layout).1,
    ensures
        before.apply(command, role, layout).0 == before,
{
}

/// An accepted blocker move blocks the cell asked for, behind the cells
/// blocked before: one cell more, in the old order, and none twice.
pub proof fn lemma_blocker_move_adds_one(
    before: MatchView,
    at: Position,
    role: Role,
    layout: Seq<Position>,
)
    requires
        before.blocker.blocked.no_duplicates(),
        before.apply(Command::MoveBlocker(at), role, layout).1,
    ensures
        ({
            let after = before.apply(Command::MoveBlocker(at), role, layout).0;
            &&& after.blocker.blocked == before.blocker.blocked.push(at)
            &&& after.blocker.blocked.len() == before.blocker.blocked.len() + 1
            &&& after.blocker.blocked.no_duplicates()
            &&& !before.blocker.blocked.contains(at)
        }),
{
    lemma_push_keeps_distinct(before.blocker.blocked, at);
}

/// A command that is not a blocker move leaves the blocked cells as they
/// are, unless it is a reset.
pub proof fn lemma_only_blocker_moves_block(
    before: MatchView,
    command: Command,
    role: Role,
    layout: Seq<Position>,
)
    requires
        !(command is MoveBlocker),
        !(command is Reset),
    ensures
        before.apply(command, role, layout).0.blocker.blocked == before.blocker.blocked,
{
}

/// An accepted runner move closes no round.
pub proof fn lemma_runner_move_counts_nothing(
    before: MatchView,
    to: Position,
    role: Role,
    layout: Seq<Position>,
)
    requires
        before.wf(),
        before.apply(Command::MoveRunner(to), role, layout).1,
    ensures
        before.apply(Command::MoveRunner(to), role, layout).0.turn_count == before.turn_count,
{
}

/// An accepted blocker move closes exactly one round.
pub proof fn lemma_blocker_move_counts_one(
    before: MatchView,
    at: Position,
    role: Role,
    layout: Seq<Position>,
)
    requires
        before.wf(),
        before.apply(Command::MoveBlocker(at), role, layout).1,
    ensures
        before.apply(Command::MoveBlocker(at), role, layout).0.turn_count == before.turn_count
            + 1,
{
}

/// One runner move and one blocker move, both accepted, count as one round,
/// whichever of the two came first.
pub proof fn lemma_pair_of_moves_counts_once(
    before: MatchView,
    first: Command,
    first_role: Role,
    second: Command,
    second_role: Role,
    layout: Seq<Position>,
)
    requires
        before.wf(),
        (first is MoveRunner && second is MoveBlocker) || (first is MoveBlocker
            && second is MoveRunner),
        before.apply(first, first_role, layout).1,
        before.apply(first, first_role, layout).0.apply(second, second_role, layout).1,
    ensures
        before.apply(first, first_role, layout).0.apply(second, second_role, layout).0.turn_count
            == before.turn_count + 1,
{
    let between = before.apply(first, first_role, layout).0;
    lemma_apply_keeps_wf(before, first, first_role, layout);
    assert(between.wf());
}

/// A command that is no move and no reset never closes a round.
pub proof fn lemma_other_commands_count_nothing(
    before: MatchView,
    command: Command,
    role: Role,
    layout: Seq<Position>,
)
    requires
        !(command is MoveRunner),
        !(command is MoveBlocker),
        !(command is Reset),
    ensures
        before.apply(command, role, layout).0 == before,
{
}

/// An accepted runner move onto the edge of the board ends the match at
/// once: the runner has won.
pub proof fn lemma_edge_move_wins(
    before: MatchView,
    to: Position,
    role: Role,
    layout: Seq<Position>,
)
    requires
        before.apply(Command::MoveRunner(to), role, layout).1,
        on_edge(to, before.board_size as int),
    ensures
        ({
            let after = before.apply(Command::MoveRunner(to), role, layout).0;
            &&& after.phase == GamePhase::GameOver(true)
            &&& after.runner_won
            &&& after.runner.position == to
            &&& after.is_over()
        }),
{
}

/// An accepted runner move to a cell off the edge leaves the phase as it
/// was.
pub proof fn lemma_inner_move_goes_on(
    before: MatchView,
    to: Position,
    role: Role,
    layout: Seq<Position>,
)
    requires
        before.apply(Command::MoveRunner(to), role, layout).1,
        !on_edge(to, before.board_size as int),
    ensures
        before.apply(Command::MoveRunner(to), role, layout).0.phase == before.phase,
        before.apply(Command::MoveRunner(to), role, layout).0.runner.position == to,
{
}

/// Once a match is over nothing changes it but a reset: every move is
/// rejected, and every other command leaves it as it is.
pub proof fn lemma_game_over_is_final(
    before: MatchView,
    command: Command,
    role: Role,
    layout: Seq<Position>,
    choice: Option<Position>,
)
    requires
        before.is_over(),
        !(command is Reset),
    ensures
        before.apply(command, role, layout).0 == before,
        command is MoveRunner || command is MoveBlocker ==> !before.apply(command, role, layout).1,
        before.after_cpu_turn(choice) == before,
        before.after_second_player() == before,
        before.after_cpu_activation() == before,
{
}

/// The legal destinations of the runner depend on where it stands, how far
/// it reaches, the side of the board and the blocked cells, and on nothing
/// else.
pub proof fn lemma_destinations_depend_on_board(a: MatchView, b: MatchView)
    requires
        a.runner.position == b.runner.position,
        a.runner.power == b.runner.power,
        a.board_size == b.board_size,
        a.blocker.blocked == b.blocker.blocked,
    ensures
        a.runner_can_move() == b.runner_can_move(),
{
    if a.runner_can_move() {
        let to = choose|to: Position| #[trigger] a.legal_destination(to);
        assert(b.legal_destination(to));
    }
    if b.runner_can_move() {
        let to = choose|to: Position| #[trigger] b.legal_destination(to);
        assert(a.legal_destination(to));
    }
}

/// An accepted blocker move that leaves the runner nowhere to go ends the
/// match at once: the blocker has won. One that leaves the runner somewhere
/// to go leaves the phase as it was.
pub proof fn lemma_trapping_move_wins(
    before: MatchView,
    at: Position,
    role: Role,
    layout: Seq<Position>,
)
    requires
        before.apply(Command::MoveBlocker(at), role, layout).1,
    ensures
        ({
            let after = before.apply(Command::MoveBlocker(at), role, layout).0;
            &&& !after.runner_can_move() ==> after.phase == GamePhase::GameOver(false)
                && after.game_over
            &&& after.runner_can_move() ==> after.phase == before.phase
        }),
{
    let after = before.apply(Command::MoveBlocker(at), role, layout).0;
    lemma_destinations_depend_on_board(after, before.with_obstacle(at));
}

/// The side of the board never changes, and neither does the runner's
/// reach.
pub proof fn lemma_board_is_fixed(
    before: MatchView,
    command: Command,
    role: Role,
    layout: Seq<Position>,
    choice: Option<Position>,
)
    ensures
        before.apply(command, role, layout).0.board_size == before.board_size,
        before.apply(command, role, layout).0.runner.power == before.runner.power,
        before.after_cpu_turn(choice).board_size == before.board_size,
        before.after_cpu_turn(choice).runner.power == before.runner.power,
{
}

/// The runner stays on the board as long as it is sent to cells of the
/// board: a match begins with the runner on the board, the simulated runner
/// never leaves it, and no command but a runner move puts the runner
/// anywhere.
pub proof fn lemma_runner_stays_on_board(
    before: MatchView,
    command: Command,
    role: Role,
    layout: Seq<Position>,
    choice: Option<Position>,
)
    requires
        before.wf(),
        in_bounds(before.runner.position, before.board_size as int),
        command matches Command::MoveRunner(to) ==> in_bounds(to, before.board_size as int),
        before.cpu_choice_allowed(choice),
    ensures
        in_bounds(before.apply(command, role, layout).0.runner.position, before.board_size as int),
        in_bounds(before.after_cpu_turn(choice).runner.position, before.board_size as int),
        in_bounds(
            fresh_match(before.board_size, before.runner.power, layout).runner.position,
            before.board_size as int,
        ),
{
}

/// A request that is no command is rejected and changes nothing.
pub proof fn lemma_malformed_request_is_rejected(
    before: MatchView,
    line: Seq<u8>,
    role: Role,
    choice: Option<Position>,
)
    requires
        parse_request(line) is Err,
    ensures
        before.respond(line, role, choice) == (before, false),
{
}

/// A request that is rejected changes nothing, and the simulated runner
/// does not move after it.
pub proof fn lemma_rejected_request_changes_nothing(
    before: MatchView,
    line: Seq<u8>,
    role: Role,
    choice: Option<Position>,
)
    requires
        !before.respond(line, role, choice).1,
    ensures
        before.respond(line, role, choice).0 == before,
{
}

/// A runner move that arrives from the blocker, or while it is the
/// blocker's turn, is rejected and changes nothing.
pub proof fn lemma_runner_request_out_of_turn(
    before: MatchView,
    line: Seq<u8>,
    role: Role,
    choice: Option<Position>,
)
    requires
        parse_request(line) matches Ok(command) && command is MoveRunner,
        role == Role::Blocker || before.current_player == Role::Blocker,
    ensures
        before.respond(line, role, choice) == (before, false),
{
}

/// After an accepted request the simulated runner is never left with the
/// turn while it has somewhere to go: no answer shows a match in which the
/// simulated runner could move and has not.
pub proof fn lemma_simulated_runner_has_moved(
    before: MatchView,
    line: Seq<u8>,
    role: Role,
    choice: Option<Position>,
)
    requires
        before.choice_allowed(line, role, choice),
        before.respond(line, role, choice).1,
    ensures
        ({
            let after = before.respond(line, role, choice).0;
            after.cpu_to_move() ==> !after.runner_can_move()
        }),
{
}

/// Dealing with a request leaves a well-formed match well-formed, on a
/// board of the same side, and never begins a new match.
pub proof fn lemma_respond_keeps_wf(
    before: MatchView,
    line: Seq<u8>,
    role: Role,
    choice: Option<Position>,
)
    requires
        before.wf(),
    ensures
        before.respond(line, role, choice).0.wf(),
        before.respond(line, role, choice).0.board_size == before.board_size,
        before.respond(line, role, choice).0.turn_count >= before.turn_count,
{
    match parse_request(line) {
        Ok(command) => {
            lemma_apply_keeps_wf(before, command, role, Seq::empty());
        },
        Err(_) => {},
    }
}

/// Once a match is over no request changes it.
pub proof fn lemma_no_request_after_game_over(
    before: MatchView,
    line: Seq<u8>,
    role: Role,
    choice: Option<Position>,
)
    requires
        before.is_over(),
    ensures
        before.respond(line, role, choice).0 == before,
{
}

} // verus!
