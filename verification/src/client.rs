//! The player's side of the protocol: which cells a player may pick, and
//! how a move is written on the wire.
//!
//! A player checks a move before sending it; the server takes the runner's
//! destination on trust. What is written here is always read back as the
//! same move by [`crate::protocol::parse_command`].

use vstd::prelude::*;
use vstd::slice::slice_to_vec;
use vstd::string::StringSliceAdditionalSpecFns;

use crate::geometry::{contains_position, is_within_power, within_power, Position};
use crate::protocol::{
    all_digits, blank_free, closed_words, decimal_value, is_blank, is_digit, open_word,
    parse_coordinate, parse_request, same_bytes, words, ProtocolError,
};
use crate::state::{Command, Role, RunnerState};

verus! {

/// The runner's player may send the runner to `target`: it is within reach
/// and not blocked.
pub open spec fn runner_target_legal(
    runner: RunnerState,
    blocked: Seq<Position>,
    target: Position,
) -> bool {
    within_power(runner.position, target, runner.power as int) && !blocked.contains(target)
}

/// The blocker's player may block `target`: the runner does not stand on it
/// and it is not blocked.
pub open spec fn blocker_target_legal(
    runner: RunnerState,
    blocked: Seq<Position>,
    target: Position,
) -> bool {
    target != runner.position && !blocked.contains(target)
}

/// The player `role` may pick `target`.
pub open spec fn target_legal(
    role: Role,
    runner: RunnerState,
    blocked: Seq<Position>,
    target: Position,
) -> bool {
    match role {
        Role::Runner => runner_target_legal(runner, blocked, target),
        Role::Blocker => blocker_target_legal(runner, blocked, target),
    }
}

/// The digits that write `n` in base ten, without leading zeros.
pub open spec fn decimal_digits(n: nat) -> Seq<u8>
    decreases n,
{
    if n < 10 {
        seq![(0x30 + n) as u8]
    } else {
        decimal_digits(n / 10).push((0x30 + n % 10) as u8)
    }
}

/// How a coordinate is written: a minus sign if it is negative, then its
/// digits.
pub open spec fn write_coordinate(value: i16) -> Seq<u8> {
    if value < 0 {
        seq![0x2du8] + decimal_digits((-value) as nat)
    } else {
        decimal_digits(value as nat)
    }
}

/// The verb by which `role` moves.
pub open spec fn move_verb(role: Role) -> Seq<u8> {
    match role {
        Role::Runner => "move_runner".spec_bytes(),
        Role::Blocker => "move_blocker".spec_bytes(),
    }
}

/// The command by which `role` moves to, or blocks, `target`.
pub open spec fn move_command(role: Role, target: Position) -> Command {
    match role {
        Role::Runner => Command::MoveRunner(target),
        Role::Blocker => Command::MoveBlocker(target),
    }
}

/// How the move of `role` to `target` is written: the verb and the two
/// coordinates, a space between them.
pub open spec fn write_move(role: Role, target: Position) -> Seq<u8> {
    move_verb(role) + seq![0x20u8] + write_coordinate(target.x) + seq![0x20u8] + write_coordinate(
        target.y,
    )
}

/// The player `role` is on the side that has won. A player without a role
/// has never won.
pub open spec fn has_won(runner_won: bool, role: Option<Role>) -> bool {
    if runner_won {
        role == Some(Role::Runner)
    } else {
        role == Some(Role::Blocker)
    }
}

/// What the player `role` is told when the match is over.
pub open spec fn verdict_text(runner_won: bool, role: Option<Role>) -> Seq<char> {
    if runner_won {
        if has_won(runner_won, role) {
            "You won! The runner escaped!"@
        } else {
            "You lost! The runner escaped!"@
        }
    } else {
        if has_won(runner_won, role) {
            "You won! The runner is trapped!"@
        } else {
            "You lost! You are trapped!"@
        }
    }
}

/// The role that goes by `name` on the wire.
pub open spec fn role_named(name: Seq<char>) -> Option<Role> {
    if name == "runner"@ {
        Some(Role::Runner)
    } else if name == "blocker"@ {
        Some(Role::Blocker)
    } else {
        None
    }
}

/// The digits of a number are digits, at least one, and write that number.
pub proof fn lemma_decimal_digits(n: nat)
    ensures
        decimal_digits(n).len() >= 1,
        all_digits(decimal_digits(n)),
        decimal_value(decimal_digits(n)) == n,
    decreases n,
{
    if n >= 10 {
        lemma_decimal_digits(n / 10);
        let front = decimal_digits(n / 10);
        let digits = decimal_digits(n);
        assert(digits.drop_last() =~= front);
        assert forall|i: int| 0 <= i < digits.len() implies is_digit(#[trigger] digits[i]) by {
            if i < front.len() {
                assert(digits[i] == front[i]);
            }
        }
    } else {
        let digits = decimal_digits(n);
        assert(digits.drop_last() =~= Seq::<u8>::empty());
        assert(decimal_value(digits.drop_last()) == 0);
    }
}

/// A coordinate that is written is read back as it was.
pub proof fn lemma_coordinate_round_trip(value: i16)
    ensures
        parse_coordinate(write_coordinate(value)) == Some(value),
        write_coordinate(value).len() >= 1,
        blank_free(write_coordinate(value)),
{
    let text = write_coordinate(value);
    if value < 0 {
        let digits = decimal_digits((-value) as nat);
        lemma_decimal_digits((-value) as nat);
        assert(text[0] == 0x2d);
        assert(text.drop_first() =~= digits);
        assert forall|i: int| 0 <= i < text.len() implies !is_blank(#[trigger] text[i]) by {
            if i > 0 {
                assert(text[i] == digits[i - 1]);
                assert(is_digit(digits[i - 1]));
            }
        }
    } else {
        lemma_decimal_digits(value as nat);
        assert(is_digit(text[0]));
        assert forall|i: int| 0 <= i < text.len() implies !is_blank(#[trigger] text[i]) by {
            assert(is_digit(text[i]));
        }
    }
}

/// Bytes without a blank, put behind a line, lengthen the word that the
/// line ends in and close none.
pub proof fn lemma_append_word(line: Seq<u8>, word: Seq<u8>)
    requires
        blank_free(word),
    ensures
        open_word(line + word) == open_word(line) + word,
        closed_words(line + word) == closed_words(line),
    decreases word.len(),
{
    if word.len() == 0 {
        assert(line + word =~= line);
        assert(open_word(line) + word =~= open_word(line));
    } else {
        let front = word.drop_last();
        assert(blank_free(front)) by {
            assert forall|i: int| 0 <= i < front.len() implies !is_blank(#[trigger] front[i]) by {
                assert(front[i] == word[i]);
            }
        }
        lemma_append_word(line, front);
        assert((line + word).drop_last() =~= line + front);
        assert((line + word).last() == word.last());
        assert(!is_blank(word[word.len() - 1]));
        assert(open_word(line) + word =~= (open_word(line) + front).push(word.last()));
    }
}

/// A blank behind a line closes the word that the line ends in.
pub proof fn lemma_append_blank(line: Seq<u8>, blank: u8)
    requires
        is_blank(blank),
    ensures
        open_word(line.push(blank)) == Seq::<u8>::empty(),
        closed_words(line.push(blank)) == words(line),
{
    assert(line.push(blank).drop_last() =~= line);
}

/// A verb and two arguments, none of them empty or holding a blank, with a
/// space between them, are the three words of the line that they make.
pub proof fn lemma_words_of_three(verb: Seq<u8>, first: Seq<u8>, second: Seq<u8>)
    requires
        verb.len() > 0,
        first.len() > 0,
        second.len() > 0,
        blank_free(verb),
        blank_free(first),
        blank_free(second),
    ensures
        words(verb + seq![0x20u8] + first + seq![0x20u8] + second) == seq![verb, first, second],
{
    let none = Seq::<u8>::empty();
    let one = verb;
    let two = one.push(0x20u8);
    let three = two + first;
    let four = three.push(0x20u8);
    let five = four + second;
    lemma_append_word(none, verb);
    assert(none + verb =~= verb);
    assert(open_word(none) + verb =~= verb);
    assert(closed_words(none) =~= Seq::<Seq<u8>>::empty());
    lemma_append_blank(one, 0x20u8);
    lemma_append_word(two, first);
    assert(open_word(two) + first =~= first);
    lemma_append_blank(three, 0x20u8);
    lemma_append_word(four, second);
    assert(open_word(four) + second =~= second);
    assert(words(five) =~= seq![verb, first, second]);
    assert(verb + seq![0x20u8] + first + seq![0x20u8] + second =~= five);
}

/// The two verbs of a move are different words without a blank.
pub proof fn lemma_move_verbs()
    ensures
        move_verb(Role::Runner).len() == 11,
        move_verb(Role::Blocker).len() == 12,
        blank_free(move_verb(Role::Runner)),
        blank_free(move_verb(Role::Blocker)),
{
    reveal_strlit("move_runner");
    reveal_strlit("move_blocker");
    let runner = "move_runner"@;
    let blocker = "move_blocker"@;
    assert(vstd::utf8::is_ascii_chars(runner));
    assert(vstd::utf8::is_ascii_chars(blocker));
    vstd::utf8::is_ascii_chars_encode_utf8(runner);
    vstd::utf8::is_ascii_chars_encode_utf8(blocker);
    let runner_bytes = move_verb(Role::Runner);
    let blocker_bytes = move_verb(Role::Blocker);
    assert forall|i: int| 0 <= i < runner_bytes.len() implies !is_blank(
        #[trigger] runner_bytes[i],
    ) by {
        assert(runner_bytes[i] == runner[i] as u8);
    }
    assert forall|i: int| 0 <= i < blocker_bytes.len() implies !is_blank(
        #[trigger] blocker_bytes[i],
    ) by {
        assert(blocker_bytes[i] == blocker[i] as u8);
    }
}

/// A move that is written is read back as the same move, whichever side
/// makes it and whatever cell it names.
pub proof fn lemma_move_round_trip(role: Role, target: Position)
    ensures
        parse_request(write_move(role, target)) == Ok::<Command, ProtocolError>(
            move_command(role, target),
        ),
{
    lemma_move_verbs();
    lemma_coordinate_round_trip(target.x);
    lemma_coordinate_round_trip(target.y);
    lemma_words_of_three(
        move_verb(role),
        write_coordinate(target.x),
        write_coordinate(target.y),
    );
}

/// Whether the runner's player may send the runner to `target`.
pub fn is_runner_target(runner: RunnerState, blocked: &Vec<Position>, target: Position) -> (r:
    bool)
    ensures
        r == runner_target_legal(runner, blocked@, target),
{
    is_within_power(runner.position, target, runner.power) && !contains_position(blocked, target)
}

/// Whether the blocker's player may block `target`.
pub fn is_blocker_target(runner: RunnerState, blocked: &Vec<Position>, target: Position) -> (r:
    bool)
    ensures
        r == blocker_target_legal(runner, blocked@, target),
{
    !(target == runner.position) && !contains_position(blocked, target)
}

/// Whether the player `role` may pick `target`.
pub fn target_is_legal(
    role: Role,
    runner: RunnerState,
    blocked: &Vec<Position>,
    target: Position,
) -> (r: bool)
    ensures
        r == target_legal(role, runner, blocked@, target),
{
    match role {
        Role::Runner => is_runner_target(runner, blocked, target),
        Role::Blocker => is_blocker_target(runner, blocked, target),
    }
}

/// Writes the digits of `n` behind `line`.
fn push_digits(line: &mut Vec<u8>, n: u16)
    ensures
        final(line)@ == old(line)@ + decimal_digits(n as nat),
    decreases n,
{
    if n >= 10 {
        push_digits(line, n / 10);
    }
    line.push(0x30u8 + (n % 10) as u8);
    assert(line@ =~= old(line)@ + decimal_digits(n as nat));
}

/// Writes `value` behind `line`.
fn push_coordinate(line: &mut Vec<u8>, value: i16)
    ensures
        final(line)@ == old(line)@ + write_coordinate(value),
{
    if value < 0 {
        line.push(0x2du8);
        let magnitude: u16 = (-(value as i32)) as u16;
        push_digits(line, magnitude);
        assert(line@ =~= old(line)@ + write_coordinate(value));
    } else {
        push_digits(line, value as u16);
    }
}

/// Writes the move of `role` to `target` as a request.
pub fn encode_move(role: Role, target: Position) -> (line: Vec<u8>)
    ensures
        line@ == write_move(role, target),
        parse_request(line@) == Ok::<Command, ProtocolError>(
            move_command(role, target),
        ),
{
    let verb: &[u8] = match role {
        Role::Runner => "move_runner".as_bytes(),
        Role::Blocker => "move_blocker".as_bytes(),
    };
    let mut line: Vec<u8> = slice_to_vec(verb);
    line.push(0x20u8);
    push_coordinate(&mut line, target.x);
    line.push(0x20u8);
    push_coordinate(&mut line, target.y);
    proof {
        assert(line@ =~= write_move(role, target));
        lemma_move_round_trip(role, target);
    }
    line
}

/// What a player sends when it picks `target`: its move, if it is the
/// player's turn and the player may pick the cell, and nothing otherwise.
pub fn click_request(
    role: Role,
    current_player: Role,
    runner: RunnerState,
    blocked: &Vec<Position>,
    target: Position,
) -> (request: Option<Vec<u8>>)
    ensures
        request is Some <==> role == current_player && target_legal(
            role,
            runner,
            blocked@,
            target,
        ),
        request matches Some(line) ==> line@ == write_move(role, target),
{
    let in_turn = match (role, current_player) {
        (Role::Runner, Role::Runner) => true,
        (Role::Blocker, Role::Blocker) => true,
        _ => false,
    };
    if in_turn && target_is_legal(role, runner, blocked, target) {
        Some(encode_move(role, target))
    } else {
        None
    }
}

/// Whether the player `role` is on the side that has won.
pub fn player_won(runner_won: bool, role: Option<Role>) -> (won: bool)
    ensures
        won == has_won(runner_won, role),
{
    match role {
        Some(Role::Runner) => runner_won,
        Some(Role::Blocker) => !runner_won,
        None => false,
    }
}

/// What the player `role` is told when the match is over.
pub fn verdict(runner_won: bool, role: Option<Role>) -> (text: &'static str)
    ensures
        text@ == verdict_text(runner_won, role),
{
    let won = player_won(runner_won, role);
    if runner_won {
        if won {
            "You won! The runner escaped!"
        } else {
            "You lost! The runner escaped!"
        }
    } else {
        if won {
            "You won! The runner is trapped!"
        } else {
            "You lost! You are trapped!"
        }
    }
}

/// The role that goes by `name` on the wire, if any does.
pub fn role_from_name(name: &str) -> (role: Option<Role>)
    ensures
        role == role_named(name@),
{
    proof {
        vstd::utf8::encode_utf8_decode_utf8(name@);
        vstd::utf8::encode_utf8_decode_utf8("runner"@);
        vstd::utf8::encode_utf8_decode_utf8("blocker"@);
    }
    if same_bytes(name.as_bytes(), "runner".as_bytes()) {
        Some(Role::Runner)
    } else if same_bytes(name.as_bytes(), "blocker".as_bytes()) {
        Some(Role::Blocker)
    } else {
        None
    }
}

} // verus!
