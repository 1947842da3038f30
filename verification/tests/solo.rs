use angel_problem::geometry::Position;
use angel_problem::solo::{
    draw_solo_cells, draw_solo_layout, SoloGame, SOLO_BOARD_SIZE, SOLO_POWER,
};
use angel_problem::state::{Role, RunnerState};

fn c(x: i16, y: i16) -> Position {
    Position { x, y }
}

#[test]
fn solo_game_starts_at_the_bottom() {
    let game = SoloGame::new(vec![c(1, 1), c(1, 1)]);
    assert_eq!(SOLO_BOARD_SIZE, 16);
    assert_eq!(SOLO_POWER, 2);
    assert_eq!(game.runner(), RunnerState { position: c(8, 15), power: 2, moved: false });
    assert_eq!(game.blocked(), &vec![c(1, 1), c(1, 1)]);
    assert!(!game.game_over());
    assert!(!game.won());
    assert!(!game.is_over());
    assert_eq!(game.turn_count(), 0);
    assert_eq!(game.to_move(), Role::Runner);
}

#[test]
fn solo_players_take_turns() {
    let mut game = SoloGame::new(Vec::new());
    assert!(game.may_pick(c(8, 13)));
    game.click(c(8, 13));
    assert_eq!(game.runner(), RunnerState { position: c(8, 13), power: 2, moved: true });
    assert_eq!(game.to_move(), Role::Blocker);
    assert_eq!(game.turn_count(), 0);
    assert!(game.may_pick(c(8, 12)));
    game.click(c(8, 12));
    assert_eq!(game.blocked(), &vec![c(8, 12)]);
    assert_eq!(game.to_move(), Role::Runner);
    assert!(!game.runner().moved);
    assert_eq!(game.turn_count(), 1);
    assert!(!game.is_over());
}

#[test]
fn solo_ignores_picks_that_are_not_allowed() {
    let mut game = SoloGame::new(vec![c(8, 14)]);
    let start = game.clone();
    for cell in [c(8, 15), c(8, 14), c(8, 12), c(11, 15), c(8, 16), c(-1, 15), c(16, 0), c(5, 5)] {
        assert!(!game.may_pick(cell));
        game.click(cell);
        assert_eq!(game, start);
    }
    game.click(c(9, 14));
    let moved = game.clone();
    for cell in [c(9, 14), c(8, 14), c(16, 16), c(0, -1)] {
        assert!(!game.may_pick(cell));
        game.click(cell);
        assert_eq!(game, moved);
    }
}

#[test]
fn solo_runner_wins_on_the_top_row() {
    let mut game = SoloGame::new(Vec::new());
    let mut row = 15i16;
    let mut round = 0u64;
    while row > 1 {
        row -= 2;
        game.click(c(8, row));
        assert_eq!(game.runner().position, c(8, row));
        assert!(!game.won());
        game.click(c(0, row));
        round += 1;
        assert_eq!(game.turn_count(), round);
    }
    assert_eq!(row, 1);
    game.click(c(7, 0));
    assert!(game.won());
    assert!(game.is_over());
    assert!(!game.game_over());
    let ended = game.clone();
    game.click(c(0, 0));
    game.click(c(7, 1));
    assert_eq!(game, ended);
    assert!(!game.may_pick(c(0, 0)));
}

#[test]
fn solo_blocker_wins_by_closing_the_last_way() {
    let mut layout = Vec::new();
    for x in 6i16..=10 {
        for y in 11i16..=15 {
            if !(x == 8 && y == 13) && !(x == 8 && y == 15) {
                layout.push(c(x, y));
            }
        }
    }
    let mut game = SoloGame::new(layout);
    assert!(game.may_pick(c(8, 13)));
    assert!(!game.may_pick(c(8, 14)));
    game.click(c(8, 13));
    assert_eq!(game.runner().position, c(8, 13));
    assert!(!game.is_over());
    assert!(!game.may_pick(c(8, 13)));
    assert!(game.may_pick(c(8, 15)));
    game.click(c(8, 15));
    assert!(game.game_over());
    assert!(game.is_over());
    assert!(!game.won());
    assert_eq!(game.turn_count(), 1);
    assert!(!game.runner().moved);
    let ended = game.clone();
    game.click(c(0, 0));
    assert_eq!(game, ended);
}

#[test]
fn solo_blocker_move_that_leaves_a_way_goes_on() {
    let mut layout = Vec::new();
    for x in 6i16..=10 {
        for y in 11i16..=15 {
            if !(x == 8 && y == 13) && !(x == 8 && y == 15) && !(x == 6 && y == 11) {
                layout.push(c(x, y));
            }
        }
    }
    let mut game = SoloGame::new(layout);
    game.click(c(8, 13));
    game.click(c(8, 15));
    assert!(!game.is_over());
    assert_eq!(game.turn_count(), 1);
    assert!(game.may_pick(c(6, 11)));
    assert!(!game.may_pick(c(8, 15)));
    assert!(!game.may_pick(c(8, 13)));
    game.click(c(6, 11));
    assert_eq!(game.runner().position, c(6, 11));
    assert!(!game.is_over());
}

#[test]
fn solo_layouts_stay_on_the_board() {
    let mut longest = 0usize;
    let mut cells: Vec<Position> = Vec::new();
    for _ in 0..200 {
        let layout = draw_solo_layout();
        assert!(layout.len() < 16);
        longest = longest.max(layout.len());
        for cell in &layout {
            assert!(0 <= cell.x && cell.x < 16 && 0 <= cell.y && cell.y < 16);
            if !cells.contains(cell) {
                cells.push(*cell);
            }
        }
        let game = SoloGame::new(layout.clone());
        assert_eq!(game.blocked(), &layout);
    }
    assert!(longest >= 8);
    assert!(cells.len() >= 100);
    let game = SoloGame::random();
    assert!(game.is_well_formed());
    assert!(game.blocked().len() < 16);
    assert_eq!(game.runner().position, c(8, 15));
}

#[test]
fn solo_cells_are_as_many_as_asked_for() {
    for count in [-3i16, 0, 1, 2, 15, 16, 40, 300] {
        let cells = draw_solo_cells(count);
        assert_eq!(cells.len(), count.max(0) as usize);
        for cell in &cells {
            assert!(0 <= cell.x && cell.x < 16 && 0 <= cell.y && cell.y < 16);
        }
    }
    let cells = draw_solo_cells(300);
    assert!(cells.iter().any(|cell| cell.x != cells[0].x));
    assert!(cells.iter().any(|cell| cell.y != cells[0].y));
}
