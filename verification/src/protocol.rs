//! The text protocol: a request is one line of bytes, a verb followed by
//! its arguments, separated by blanks.
//!
//! | request              | command                  |
//! |----------------------|--------------------------|
//! | `init`               | `Command::Init`          |
//! | `activate_cpu`       | `Command::ActivateCpu`   |
//! | `poll`               | `Command::Poll`          |
//! | `move_runner X Y`    | `Command::MoveRunner`    |
//! | `move_blocker X Y`   | `Command::MoveBlocker`   |
//! | any other verb       | `Command::Unknown`       |
//!
//! `X` and `Y` are decimal numbers that fit sixteen bits, with an optional
//! sign. A blank is a space, a tab, a line feed, a vertical tab, a form feed
//! or a carriage return.
//!
//! A request that is no command (no word at all, a known verb with the
//! wrong number of arguments, a coordinate that is no number) is an error.
//! It is answered like a rejected command, and the connection stays open.
//! No request resets a match.

use vstd::prelude::*;
use vstd::string::StringSliceAdditionalSpecFns;

use crate::geometry::Position;
use crate::state::Command;

verus! {

/// Why a request is no command.
#[derive(Clone, Copy, Debug, PartialEq, Eq, Structural)]
pub enum ProtocolError {
    /// The request holds no word.
    Empty,
    /// A known verb with more or fewer arguments than it takes.
    WrongArgumentCount,
    /// A coordinate that is no number, or none that fits sixteen bits.
    BadCoordinate,
}

/// `byte` is a blank.
pub open spec fn is_blank(byte: u8) -> bool {
    byte == 0x20 || (0x09 <= byte <= 0x0d)
}

/// `byte` is a decimal digit.
pub open spec fn is_digit(byte: u8) -> bool {
    0x30 <= byte <= 0x39
}

/// The word that `line` ends in: its longest tail free of blanks. It is
/// empty when `line` is empty or ends in a blank.
pub open spec fn open_word(line: Seq<u8>) -> Seq<u8>
    decreases line.len(),
{
    if line.len() == 0 || is_blank(line.last()) {
        Seq::empty()
    } else {
        open_word(line.drop_last()).push(line.last())
    }
}

/// The words of `line` that a blank has ended, in order.
pub open spec fn closed_words(line: Seq<u8>) -> Seq<Seq<u8>>
    decreases line.len(),
{
    if line.len() == 0 {
        Seq::empty()
    } else if is_blank(line.last()) && open_word(line.drop_last()).len() > 0 {
        closed_words(line.drop_last()).push(open_word(line.drop_last()))
    } else {
        closed_words(line.drop_last())
    }
}

/// The words of `line`: its longest runs of bytes that are not blanks, in
/// order.
pub open spec fn words(line: Seq<u8>) -> Seq<Seq<u8>> {
    if open_word(line).len() > 0 {
        closed_words(line).push(open_word(line))
    } else {
        closed_words(line)
    }
}

/// No byte of `text` is a blank.
pub open spec fn blank_free(text: Seq<u8>) -> bool {
    forall|i: int| 0 <= i < text.len() ==> !is_blank(#[trigger] text[i])
}

/// Every byte of `text` is a decimal digit.
pub open spec fn all_digits(text: Seq<u8>) -> bool {
    forall|i: int| 0 <= i < text.len() ==> is_digit(#[trigger] text[i])
}

/// The number that the digits of `text` write in base ten.
pub open spec fn decimal_value(text: Seq<u8>) -> nat
    decreases text.len(),
{
    if text.len() == 0 {
        0
    } else {
        decimal_value(text.drop_last()) * 10 + (text.last() - 0x30) as nat
    }
}

/// `text` begins with a sign.
pub open spec fn has_sign(text: Seq<u8>) -> bool {
    text.len() > 0 && (text[0] == 0x2b || text[0] == 0x2d)
}

/// The number that `text` writes: an optional sign, then at least one
/// digit, the whole within sixteen bits. Anything else writes no number.
pub open spec fn parse_coordinate(text: Seq<u8>) -> Option<i16> {
    let digits = if has_sign(text) {
        text.drop_first()
    } else {
        text
    };
    let value = if has_sign(text) && text[0] == 0x2d {
        -(decimal_value(digits) as int)
    } else {
        decimal_value(digits) as int
    };
    if digits.len() > 0 && all_digits(digits) && i16::MIN <= value <= i16::MAX {
        Some(value as i16)
    } else {
        None
    }
}

/// The cell that the two arguments of a move name.
pub open spec fn parse_cell(words: Seq<Seq<u8>>) -> Result<Position, ProtocolError> {
    if words.len() != 3 {
        Err(ProtocolError::WrongArgumentCount)
    } else {
        match (parse_coordinate(words[1]), parse_coordinate(words[2])) {
            (Some(x), Some(y)) => Ok(Position { x, y }),
            _ => Err(ProtocolError::BadCoordinate),
        }
    }
}

/// A verb that takes no argument gives `command` when it stands alone.
pub open spec fn parse_bare(words: Seq<Seq<u8>>, command: Command) -> Result<
    Command,
    ProtocolError,
> {
    if words.len() != 1 {
        Err(ProtocolError::WrongArgumentCount)
    } else {
        Ok(command)
    }
}

/// The command that the request `line` writes.
pub open spec fn parse_request(line: Seq<u8>) -> Result<Command, ProtocolError> {
    let words = words(line);
    if words.len() == 0 {
        Err(ProtocolError::Empty)
    } else if words[0] == "move_runner".spec_bytes() {
        match parse_cell(words) {
            Ok(to) => Ok(Command::MoveRunner(to)),
            Err(e) => Err(e),
        }
    } else if words[0] == "move_blocker".spec_bytes() {
        match parse_cell(words) {
            Ok(at) => Ok(Command::MoveBlocker(at)),
            Err(e) => Err(e),
        }
    } else if words[0] == "init".spec_bytes() {
        parse_bare(words, Command::Init)
    } else if words[0] == "activate_cpu".spec_bytes() {
        parse_bare(words, Command::ActivateCpu)
    } else if words[0] == "poll".spec_bytes() {
        parse_bare(words, Command::Poll)
    } else {
        Ok(Command::Unknown)
    }
}

/// The views of the words held in `words`.
pub open spec fn word_views(words: Seq<Vec<u8>>) -> Seq<Seq<u8>> {
    Seq::new(words.len(), |i: int| words[i]@)
}

/// Whether `byte` is a blank.
pub fn byte_is_blank(byte: u8) -> (r: bool)
    ensures
        r == is_blank(byte),
{
    byte == 0x20 || (0x09 <= byte && byte <= 0x0d)
}

/// Whether two runs of bytes are the same.
pub fn same_bytes(a: &[u8], b: &[u8]) -> (r: bool)
    ensures
        r == (a@ == b@),
{
    if a.len() != b.len() {
        return false;
    }
    let mut i: usize = 0;
    while i < a.len()
        invariant
            a@.len() == b@.len(),
            i <= a@.len(),
            forall|j: int| 0 <= j < i ==> a@[j] == b@[j],
        decreases a.len() - i,
    {
        if a[i] != b[i] {
            return false;
        }
        i += 1;
    }
    assert(a@ =~= b@);
    true
}

/// The words of `line`.
pub fn split_words(line: &[u8]) -> (found: Vec<Vec<u8>>)
    ensures
        word_views(found@) == words(line@),
{
    let mut found: Vec<Vec<u8>> = Vec::new();
    let mut current: Vec<u8> = Vec::new();
    let mut i: usize = 0;
    assert(line@.take(0) =~= Seq::<u8>::empty());
    assert(word_views(found@) =~= closed_words(line@.take(0)));
    while i < line.len()
        invariant
            i <= line.len(),
            word_views(found@) == closed_words(line@.take(i as int)),
            current@ == open_word(line@.take(i as int)),
        decreases line.len() - i,
    {
        let byte: u8 = line[i];
        proof {
            let next = line@.take(i as int + 1);
            assert(next.drop_last() =~= line@.take(i as int));
            assert(next.last() == byte);
        }
        if byte_is_blank(byte) {
            if current.len() > 0 {
                let ghost before = found@;
                found.push(current);
                current = Vec::new();
                assert(word_views(found@) =~= word_views(before).push(
                    open_word(line@.take(i as int)),
                ));
            }
        } else {
            current.push(byte);
        }
        i += 1;
    }
    assert(line@.take(line.len() as int) =~= line@);
    if current.len() > 0 {
        let ghost before = found@;
        found.push(current);
        assert(word_views(found@) =~= word_views(before).push(open_word(line@)));
    }
    found
}

/// One digit more multiplies the number by ten and adds the digit.
proof fn lemma_decimal_value_push(front: Seq<u8>, byte: u8)
    ensures
        decimal_value(front.push(byte)) == decimal_value(front) * 10 + (byte - 0x30) as nat,
{
    assert(front.push(byte).drop_last() =~= front);
}

/// A number as far as a coordinate cares: everything above 32768 is the
/// same, too large.
pub open spec fn capped(n: nat) -> int {
    if n > 32768 {
        32769
    } else {
        n as int
    }
}

/// The number that the digits `digits` write, capped, if all of them are
/// digits.
fn read_digits(digits: &[u8]) -> (r: Option<i32>)
    ensures
        r is Some <==> all_digits(digits@),
        r matches Some(value) ==> value == capped(decimal_value(digits@)),
{
    let mut value: i32 = 0;
    let mut i: usize = 0;
    assert(digits@.take(0) =~= Seq::<u8>::empty());
    while i < digits.len()
        invariant
            i <= digits.len(),
            all_digits(digits@.take(i as int)),
            value == capped(decimal_value(digits@.take(i as int))),
        decreases digits.len() - i,
    {
        let byte: u8 = digits[i];
        let ghost seen = digits@.take(i as int);
        proof {
            assert(digits@.take(i as int + 1) =~= seen.push(byte));
            lemma_decimal_value_push(seen, byte);
        }
        if !(0x30 <= byte && byte <= 0x39) {
            assert(!is_digit(digits@[i as int]));
            return None;
        }
        value = value * 10 + (byte - 0x30) as i32;
        if value > 32768 {
            value = 32769;
        }
        proof {
            let next = seen.push(byte);
            assert forall|j: int| 0 <= j < next.len() implies is_digit(#[trigger] next[j]) by {
                if j < seen.len() {
                    assert(seen[j] == next[j]);
                }
            }
        }
        i += 1;
    }
    assert(digits@.take(digits.len() as int) =~= digits@);
    Some(value)
}

/// The number that `text` writes, if it writes one.
pub fn read_coordinate(text: &[u8]) -> (r: Option<i16>)
    ensures
        r == parse_coordinate(text@),
{
    let signed = text.len() > 0 && (text[0] == 0x2b || text[0] == 0x2d);
    let negative = signed && text[0] == 0x2d;
    let start: usize = if signed {
        1
    } else {
        0
    };
    let digits = vstd::slice::slice_subrange(text, start, text.len());
    assert(has_sign(text@) ==> digits@ =~= text@.drop_first());
    assert(!has_sign(text@) ==> digits@ =~= text@);
    if digits.len() == 0 {
        return None;
    }
    match read_digits(digits) {
        None => None,
        Some(value) => {
            if negative {
                if value <= 32768 {
                    Some((-value) as i16)
                } else {
                    None
                }
            } else {
                if value <= 32767 {
                    Some(value as i16)
                } else {
                    None
                }
            }
        },
    }
}

/// The cell that the arguments of a move name.
fn read_cell(found: &Vec<Vec<u8>>) -> (r: Result<Position, ProtocolError>)
    ensures
        r == parse_cell(word_views(found@)),
{
    if found.len() != 3 {
        return Err(ProtocolError::WrongArgumentCount);
    }
    let x = read_coordinate(found[1].as_slice());
    let y = read_coordinate(found[2].as_slice());
    match (x, y) {
        (Some(x), Some(y)) => Ok(Position { x, y }),
        _ => Err(ProtocolError::BadCoordinate),
    }
}

/// What a verb without arguments gives.
fn read_bare(found: &Vec<Vec<u8>>, command: Command) -> (r: Result<Command, ProtocolError>)
    ensures
        r == parse_bare(word_views(found@), command),
{
    if found.len() != 1 {
        Err(ProtocolError::WrongArgumentCount)
    } else {
        Ok(command)
    }
}

/// The word that a line ends in holds no blank.
pub proof fn lemma_open_word_is_blank_free(line: Seq<u8>)
    ensures
        blank_free(open_word(line)),
        open_word(line).len() <= line.len(),
    decreases line.len(),
{
    if line.len() > 0 && !is_blank(line.last()) {
        let front = open_word(line.drop_last());
        lemma_open_word_is_blank_free(line.drop_last());
        let word = open_word(line);
        assert forall|i: int| 0 <= i < word.len() implies !is_blank(#[trigger] word[i]) by {
            if i < front.len() {
                assert(word[i] == front[i]);
            }
        }
    }
}

/// Every word of a line holds at least one byte and no blank, and a line
/// has no more words than bytes.
pub proof fn lemma_words_are_blank_free(line: Seq<u8>)
    ensures
        forall|i: int|
            0 <= i < words(line).len() ==> (#[trigger] words(line)[i]).len() > 0 && blank_free(
                words(line)[i],
            ),
        words(line).len() <= line.len(),
{
    lemma_closed_words_are_blank_free(line);
    lemma_open_word_is_blank_free(line);
}

/// Every word that a blank has ended holds at least one byte and no blank.
/// Together with the word that the line ends in, they are no more than the
/// line has bytes.
proof fn lemma_closed_words_are_blank_free(line: Seq<u8>)
    ensures
        forall|i: int|
            0 <= i < closed_words(line).len() ==> (#[trigger] closed_words(line)[i]).len() > 0
                && blank_free(closed_words(line)[i]),
        closed_words(line).len() + open_word(line).len() <= line.len(),
    decreases line.len(),
{
    if line.len() > 0 {
        let front = line.drop_last();
        lemma_closed_words_are_blank_free(front);
        lemma_open_word_is_blank_free(front);
        let closed = closed_words(line);
        assert forall|i: int| 0 <= i < closed.len() implies (#[trigger] closed[i]).len() > 0
            && blank_free(closed[i]) by {
            if i < closed_words(front).len() {
                assert(closed[i] == closed_words(front)[i]);
            }
        }
    }
}

/// No request is read as a reset.
pub proof fn lemma_no_request_resets(line: Seq<u8>)
    ensures
        parse_request(line) != Ok::<Command, ProtocolError>(Command::Reset),
{
}

/// Reads the request `line`.
///
/// A line without a word, a known verb with the wrong number of
/// arguments, and a move whose coordinates are no sixteen-bit numbers are
/// errors. A verb that is not known is the command `Unknown`.
pub fn parse_command(line: &[u8]) -> (r: Result<Command, ProtocolError>)
    ensures
        r == parse_request(line@),
{
    let found = split_words(line);
    if found.len() == 0 {
        return Err(ProtocolError::Empty);
    }
    let verb = found[0].as_slice();
    assert(verb@ == word_views(found@)[0]);
    if same_bytes(verb, "move_runner".as_bytes()) {
        match read_cell(&found) {
            Ok(to) => Ok(Command::MoveRunner(to)),
            Err(e) => Err(e),
        }
    } else if same_bytes(verb, "move_blocker".as_bytes()) {
        match read_cell(&found) {
            Ok(at) => Ok(Command::MoveBlocker(at)),
            Err(e) => Err(e),
        }
    } else if same_bytes(verb, "init".as_bytes()) {
        read_bare(&found, Command::Init)
    } else if same_bytes(verb, "activate_cpu".as_bytes()) {
        read_bare(&found, Command::ActivateCpu)
    } else if same_bytes(verb, "poll".as_bytes()) {
        read_bare(&found, Command::Poll)
    } else {
        Ok(Command::Unknown)
    }
}

} // verus!
