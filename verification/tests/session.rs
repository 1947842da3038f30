use angel_problem::state::{GamePhase, MatchState, Role};
use angel_problem::session::{game_full_message, Admission, SessionRegistry, SEATS};

#[test]
fn first_connection_is_the_blocker() {
    let mut registry = SessionRegistry::new();
    let mut state = MatchState::with_layout(21, 1, &Vec::new()).unwrap();
    let before = state.clone();
    assert_eq!(registry.connected(), 0);
    assert!(!registry.is_full());
    assert_eq!(registry.register(&mut state), Admission::Admitted(Role::Blocker));
    assert_eq!(registry.connected(), 1);
    assert!(!registry.is_full());
    assert_eq!(state, before);
    assert_eq!(state.phase(), GamePhase::WaitingForPlayers);
}

#[test]
fn second_connection_is_the_runner_and_begins_play() {
    let mut registry = SessionRegistry::new();
    let mut state = MatchState::with_layout(21, 1, &Vec::new()).unwrap();
    registry.register(&mut state);
    assert_eq!(registry.register(&mut state), Admission::Admitted(Role::Runner));
    assert_eq!(registry.connected(), 2);
    assert!(registry.is_full());
    assert_eq!(state.phase(), GamePhase::Playing);
    assert_eq!(state.current_player(), Role::Runner);
    assert_eq!(state.turn_count(), 0);
}

#[test]
fn second_connection_leaves_a_simulated_match_simulated() {
    let mut registry = SessionRegistry::new();
    let mut state = MatchState::with_layout(21, 1, &Vec::new()).unwrap();
    registry.register(&mut state);
    assert!(state.activate_cpu());
    let before = state.clone();
    assert_eq!(registry.register(&mut state), Admission::Admitted(Role::Runner));
    assert_eq!(state, before);
    assert_eq!(state.phase(), GamePhase::CpuMode);
}

#[test]
fn third_connection_is_turned_away() {
    let mut registry = SessionRegistry::new();
    let mut state = MatchState::new();
    registry.register(&mut state);
    registry.register(&mut state);
    let before = state.clone();
    for _ in 0..5 {
        assert_eq!(registry.register(&mut state), Admission::Full);
        assert_eq!(registry.connected(), 2);
        assert_eq!(state, before);
    }
    assert!(registry.is_well_formed());
    assert!(SessionRegistry::new().is_well_formed());
    assert_eq!(game_full_message(), "Game full");
    assert_eq!(SEATS, 2);
}
