use angel_problem::client::{
    click_request, encode_move, is_blocker_target, is_runner_target, player_won, role_from_name,
    target_is_legal, verdict,
};
use angel_problem::geometry::Position;
use angel_problem::protocol::parse_command;
use angel_problem::state::{Command, Role, RunnerState};

fn p(x: i16, y: i16) -> Position {
    Position { x, y }
}

fn runner_at(x: i16, y: i16, power: i16) -> RunnerState {
    RunnerState { position: p(x, y), power, moved: false }
}

#[test]
fn moves_are_written_as_the_server_reads_them() {
    assert_eq!(encode_move(Role::Runner, p(0, 10)), b"move_runner 0 10".to_vec());
    assert_eq!(encode_move(Role::Blocker, p(5, 5)), b"move_blocker 5 5".to_vec());
    assert_eq!(encode_move(Role::Runner, p(20, 19)), b"move_runner 20 19".to_vec());
    assert_eq!(encode_move(Role::Blocker, p(-7, 100)), b"move_blocker -7 100".to_vec());
    assert_eq!(
        encode_move(Role::Runner, p(i16::MIN, i16::MAX)),
        b"move_runner -32768 32767".to_vec()
    );
    assert_eq!(encode_move(Role::Runner, p(-1, -10)), b"move_runner -1 -10".to_vec());
    assert_eq!(encode_move(Role::Blocker, p(1000, 10000)), b"move_blocker 1000 10000".to_vec());
}

#[test]
fn written_moves_read_like_format() {
    for x in [-32768i16, -9999, -100, -10, -9, -1, 0, 1, 9, 10, 99, 100, 101, 999, 1000, 32767] {
        for y in [-32768i16, -1, 0, 7, 15, 20, 12345, 32767] {
            let expected = format!("move_runner {} {}", x, y);
            assert_eq!(encode_move(Role::Runner, p(x, y)), expected.as_bytes().to_vec());
            let expected = format!("move_blocker {} {}", x, y);
            assert_eq!(encode_move(Role::Blocker, p(x, y)), expected.as_bytes().to_vec());
        }
    }
}

#[test]
fn written_moves_are_read_back() {
    for x in (i16::MIN..=i16::MAX).step_by(97) {
        for y in [i16::MIN, -1, 0, 1, 20, i16::MAX] {
            assert_eq!(
                parse_command(&encode_move(Role::Runner, p(x, y))),
                Ok(Command::MoveRunner(p(x, y)))
            );
            assert_eq!(
                parse_command(&encode_move(Role::Blocker, p(y, x))),
                Ok(Command::MoveBlocker(p(y, x)))
            );
        }
    }
}

#[test]
fn runner_targets_are_near_and_free() {
    let blocked = vec![p(11, 11), p(3, 3)];
    let runner = runner_at(10, 10, 1);
    assert!(is_runner_target(runner, &blocked, p(10, 11)));
    assert!(is_runner_target(runner, &blocked, p(9, 9)));
    assert!(!is_runner_target(runner, &blocked, p(11, 11)));
    assert!(!is_runner_target(runner, &blocked, p(10, 10)));
    assert!(!is_runner_target(runner, &blocked, p(12, 10)));
    assert!(is_runner_target(runner_at(10, 10, 2), &blocked, p(12, 10)));
    assert!(is_runner_target(runner_at(0, 0, 1), &blocked, p(-1, -1)));
}

#[test]
fn blocker_targets_are_free_and_not_under_the_runner() {
    let blocked = vec![p(11, 11), p(3, 3)];
    let runner = runner_at(10, 10, 1);
    assert!(is_blocker_target(runner, &blocked, p(0, 0)));
    assert!(is_blocker_target(runner, &blocked, p(10, 11)));
    assert!(!is_blocker_target(runner, &blocked, p(10, 10)));
    assert!(!is_blocker_target(runner, &blocked, p(11, 11)));
    assert!(!is_blocker_target(runner, &blocked, p(3, 3)));
}

#[test]
fn a_click_becomes_a_request_in_turn_only() {
    let blocked = vec![p(11, 11)];
    let runner = runner_at(10, 10, 1);
    assert_eq!(
        click_request(Role::Runner, Role::Runner, runner, &blocked, p(10, 11)),
        Some(b"move_runner 10 11".to_vec())
    );
    assert_eq!(click_request(Role::Runner, Role::Blocker, runner, &blocked, p(10, 11)), None);
    assert_eq!(click_request(Role::Runner, Role::Runner, runner, &blocked, p(11, 11)), None);
    assert_eq!(click_request(Role::Runner, Role::Runner, runner, &blocked, p(10, 12)), None);
    assert_eq!(
        click_request(Role::Blocker, Role::Blocker, runner, &blocked, p(0, 7)),
        Some(b"move_blocker 0 7".to_vec())
    );
    assert_eq!(click_request(Role::Blocker, Role::Runner, runner, &blocked, p(0, 7)), None);
    assert_eq!(click_request(Role::Blocker, Role::Blocker, runner, &blocked, p(10, 10)), None);
    assert_eq!(click_request(Role::Blocker, Role::Blocker, runner, &blocked, p(11, 11)), None);
}

#[test]
fn roles_are_known_by_their_names() {
    assert_eq!(role_from_name("runner"), Some(Role::Runner));
    assert_eq!(role_from_name("blocker"), Some(Role::Blocker));
    assert_eq!(role_from_name("Runner"), None);
    assert_eq!(role_from_name("runner "), None);
    assert_eq!(role_from_name(""), None);
    assert_eq!(role_from_name("devil"), None);
    assert_eq!(role_from_name(Role::Runner.as_str()), Some(Role::Runner));
    assert_eq!(role_from_name(Role::Blocker.as_str()), Some(Role::Blocker));
}

#[test]
fn each_player_hears_its_own_verdict() {
    assert_eq!(verdict(true, Some(Role::Runner)), "You won! The runner escaped!");
    assert_eq!(verdict(true, Some(Role::Blocker)), "You lost! The runner escaped!");
    assert_eq!(verdict(false, Some(Role::Blocker)), "You won! The runner is trapped!");
    assert_eq!(verdict(false, Some(Role::Runner)), "You lost! You are trapped!");
    assert_eq!(verdict(true, None), "You lost! The runner escaped!");
    assert_eq!(verdict(false, None), "You lost! You are trapped!");
    assert!(player_won(true, Some(Role::Runner)));
    assert!(!player_won(true, Some(Role::Blocker)));
    assert!(player_won(false, Some(Role::Blocker)));
    assert!(!player_won(false, Some(Role::Runner)));
    assert!(!player_won(true, None));
    assert!(!player_won(false, None));
}

#[test]
fn targets_depend_on_the_role() {
    let blocked = vec![p(11, 11)];
    let runner = runner_at(10, 10, 1);
    assert!(target_is_legal(Role::Runner, runner, &blocked, p(10, 11)));
    assert!(!target_is_legal(Role::Runner, runner, &blocked, p(0, 0)));
    assert!(target_is_legal(Role::Blocker, runner, &blocked, p(0, 0)));
    assert!(!target_is_legal(Role::Blocker, runner, &blocked, p(10, 10)));
    assert!(!target_is_legal(Role::Runner, runner, &blocked, p(11, 11)));
    assert!(!target_is_legal(Role::Blocker, runner, &blocked, p(11, 11)));
}
