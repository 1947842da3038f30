use angel_problem::geometry::Position;
use angel_problem::protocol::{
    byte_is_blank, parse_command, read_coordinate, same_bytes, split_words, ProtocolError,
};
use angel_problem::state::Command;

fn cell(x: i16, y: i16) -> Position {
    Position { x, y }
}

#[test]
fn verbs_without_arguments() {
    assert_eq!(parse_command(b"init"), Ok(Command::Init));
    assert_eq!(parse_command(b"activate_cpu"), Ok(Command::ActivateCpu));
    assert_eq!(parse_command(b"poll"), Ok(Command::Poll));
}

#[test]
fn moves_carry_their_cell() {
    assert_eq!(parse_command(b"move_runner 0 10"), Ok(Command::MoveRunner(cell(0, 10))));
    assert_eq!(parse_command(b"move_blocker 5 5"), Ok(Command::MoveBlocker(cell(5, 5))));
    assert_eq!(parse_command(b"move_runner 20 19"), Ok(Command::MoveRunner(cell(20, 19))));
    assert_eq!(parse_command(b"move_blocker 12 3"), Ok(Command::MoveBlocker(cell(12, 3))));
}

#[test]
fn first_coordinate_is_the_column() {
    assert_eq!(parse_command(b"move_runner 1 2"), Ok(Command::MoveRunner(cell(1, 2))));
    assert_ne!(parse_command(b"move_runner 1 2"), Ok(Command::MoveRunner(cell(2, 1))));
}

#[test]
fn blanks_around_and_between_are_ignored() {
    assert_eq!(parse_command(b"  move_runner   3\t4 \r\n"), Ok(Command::MoveRunner(cell(3, 4))));
    assert_eq!(parse_command(b"\tpoll\n"), Ok(Command::Poll));
    assert_eq!(parse_command(b"move_blocker\x0b7\x0c8"), Ok(Command::MoveBlocker(cell(7, 8))));
    assert_eq!(parse_command(b"\n\ninit"), Ok(Command::Init));
}

#[test]
fn unknown_verbs_are_commands_without_effect() {
    assert_eq!(parse_command(b"hello"), Ok(Command::Unknown));
    assert_eq!(parse_command(b"hello 1 2 3"), Ok(Command::Unknown));
    assert_eq!(parse_command(b"MOVE_RUNNER 1 2"), Ok(Command::Unknown));
    assert_eq!(parse_command(b"move_runner_ 1 2"), Ok(Command::Unknown));
    assert_eq!(parse_command(b"move_runne 1 2"), Ok(Command::Unknown));
    assert_eq!(parse_command(b"polls"), Ok(Command::Unknown));
    assert_eq!(parse_command(b"reset"), Ok(Command::Unknown));
    assert_eq!(parse_command(b"reset 0"), Ok(Command::Unknown));
    assert_eq!(parse_command(b"12 poll"), Ok(Command::Unknown));
    assert_eq!(parse_command(&[0xff, 0xfe]), Ok(Command::Unknown));
}

#[test]
fn a_request_without_a_word_is_empty() {
    assert_eq!(parse_command(b""), Err(ProtocolError::Empty));
    assert_eq!(parse_command(b" "), Err(ProtocolError::Empty));
    assert_eq!(parse_command(b"\r\n"), Err(ProtocolError::Empty));
    assert_eq!(parse_command(b" \t \n "), Err(ProtocolError::Empty));
}

#[test]
fn known_verbs_count_their_arguments() {
    assert_eq!(parse_command(b"move_runner"), Err(ProtocolError::WrongArgumentCount));
    assert_eq!(parse_command(b"move_runner 1"), Err(ProtocolError::WrongArgumentCount));
    assert_eq!(parse_command(b"move_runner 1 2 3"), Err(ProtocolError::WrongArgumentCount));
    assert_eq!(parse_command(b"move_blocker"), Err(ProtocolError::WrongArgumentCount));
    assert_eq!(parse_command(b"move_blocker 1"), Err(ProtocolError::WrongArgumentCount));
    assert_eq!(parse_command(b"move_blocker 1 2 3"), Err(ProtocolError::WrongArgumentCount));
    assert_eq!(parse_command(b"move_blocker x"), Err(ProtocolError::WrongArgumentCount));
    assert_eq!(parse_command(b"init now"), Err(ProtocolError::WrongArgumentCount));
    assert_eq!(parse_command(b"activate_cpu 1"), Err(ProtocolError::WrongArgumentCount));
    assert_eq!(parse_command(b"poll poll"), Err(ProtocolError::WrongArgumentCount));
}

#[test]
fn coordinates_must_be_numbers() {
    assert_eq!(parse_command(b"move_runner a 2"), Err(ProtocolError::BadCoordinate));
    assert_eq!(parse_command(b"move_runner 1 b"), Err(ProtocolError::BadCoordinate));
    assert_eq!(parse_command(b"move_runner 1.5 2"), Err(ProtocolError::BadCoordinate));
    assert_eq!(parse_command(b"move_runner 1 2x"), Err(ProtocolError::BadCoordinate));
    assert_eq!(parse_command(b"move_blocker - 2"), Err(ProtocolError::BadCoordinate));
    assert_eq!(parse_command(b"move_blocker 1 +"), Err(ProtocolError::BadCoordinate));
    assert_eq!(parse_command(b"move_blocker 0x10 2"), Err(ProtocolError::BadCoordinate));
    assert_eq!(parse_command(b"move_blocker --1 2"), Err(ProtocolError::BadCoordinate));
    assert_eq!(parse_command(b"move_blocker 1 2-"), Err(ProtocolError::BadCoordinate));
}

#[test]
fn coordinates_must_fit_sixteen_bits() {
    assert_eq!(
        parse_command(b"move_runner 32767 -32768"),
        Ok(Command::MoveRunner(cell(32767, -32768)))
    );
    assert_eq!(parse_command(b"move_runner 32768 0"), Err(ProtocolError::BadCoordinate));
    assert_eq!(parse_command(b"move_runner 0 -32769"), Err(ProtocolError::BadCoordinate));
    assert_eq!(parse_command(b"move_runner 99999999999999999999 0"), Err(ProtocolError::BadCoordinate));
    assert_eq!(parse_command(b"move_runner 0 4294967296"), Err(ProtocolError::BadCoordinate));
    assert_eq!(parse_command(b"move_runner 65536 0"), Err(ProtocolError::BadCoordinate));
}

#[test]
fn coordinates_may_carry_a_sign_and_zeros() {
    assert_eq!(parse_command(b"move_runner +5 -3"), Ok(Command::MoveRunner(cell(5, -3))));
    assert_eq!(parse_command(b"move_runner 007 -0"), Ok(Command::MoveRunner(cell(7, 0))));
    assert_eq!(
        parse_command(b"move_blocker 000000000000000000000012 +0"),
        Ok(Command::MoveBlocker(cell(12, 0)))
    );
}

#[test]
fn read_coordinate_reads_like_the_standard_library() {
    let texts: [&str; 22] = [
        "0", "7", "10", "123", "32767", "32768", "-32768", "-32769", "+1", "-1", "+", "-", "",
        "1a", "a1", " 1", "1 ", "0000", "-0000", "+032767", "++1", "9999999999",
    ];
    for text in texts {
        assert_eq!(read_coordinate(text.as_bytes()), text.parse::<i16>().ok(), "{}", text);
    }
}

#[test]
fn read_coordinate_covers_every_value() {
    for value in i16::MIN..=i16::MAX {
        let text = format!("{}", value);
        assert_eq!(read_coordinate(text.as_bytes()), Some(value));
    }
}

#[test]
fn split_words_gives_the_runs_between_blanks() {
    let none: Vec<Vec<u8>> = Vec::new();
    assert_eq!(split_words(b""), none);
    assert_eq!(split_words(b"   "), none);
    assert_eq!(split_words(b"a"), vec![b"a".to_vec()]);
    assert_eq!(split_words(b" ab  cd "), vec![b"ab".to_vec(), b"cd".to_vec()]);
    assert_eq!(
        split_words(b"move_runner 3 4\n"),
        vec![b"move_runner".to_vec(), b"3".to_vec(), b"4".to_vec()]
    );
    assert_eq!(split_words(b"x\ty\rz"), vec![b"x".to_vec(), b"y".to_vec(), b"z".to_vec()]);
}

#[test]
fn split_words_agrees_with_the_standard_library_on_ascii() {
    let lines: [&str; 6] = [
        "move_runner 1 2",
        "  leading and trailing  ",
        "tabs\tand\nnewlines\r\n",
        "",
        "one",
        "a  b   c    d",
    ];
    for line in lines {
        let expected: Vec<Vec<u8>> =
            line.split_whitespace().map(|word| word.as_bytes().to_vec()).collect();
        assert_eq!(split_words(line.as_bytes()), expected);
    }
}

#[test]
fn blanks_are_the_six_ascii_ones() {
    for byte in 0u8..=255 {
        let expected = byte == b' ' || (9..=13).contains(&byte);
        assert_eq!(byte_is_blank(byte), expected);
    }
}

#[test]
fn same_bytes_compares_length_and_content() {
    assert!(same_bytes(b"", b""));
    assert!(same_bytes(b"poll", b"poll"));
    assert!(!same_bytes(b"poll", b"pol"));
    assert!(!same_bytes(b"pol", b"poll"));
    assert!(!same_bytes(b"poll", b"pool"));
}
