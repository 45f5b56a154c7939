use minesweeper::board::Board;
use minesweeper::session::GameSession;
use minesweeper::session::GameState;
use minesweeper::timer::Timer;

/// A session over a 3x3 board with mines forced at indices 0 and 4.
fn session_3x3() -> GameSession {
    let mut layout = vec![false; 9];
    layout[0] = true;
    layout[4] = true;
    GameSession::new(Board::from_mines(3, 3, layout, 1, 5))
}

/// A session over a 2x2 board with a single mine at index 0.
fn session_2x2() -> GameSession {
    GameSession::new(Board::from_mines(2, 2, vec![true, false, false, false], 1, 5))
}

#[test]
fn menu_rules() {
    let mut s = session_3x3();
    assert_eq!(s.state, GameState::Menu);
    assert_eq!(s.elapsed_time(100), None);
    // only start applies in the menu
    s.reveal_tile(8, 100);
    s.toggle_flag(8);
    s.chord(8, 100);
    assert_eq!(s.state, GameState::Menu);
    assert!(!s.board.tiles[8].revealed && !s.board.tiles[8].flagged);
    s.start(1000);
    assert_eq!(s.state, GameState::Running);
    assert_eq!(s.timer, Timer::Ticking(1000));
    // a second start is a no-op
    s.start(2000);
    assert_eq!(s.timer, Timer::Ticking(1000));
}

#[test]
fn reveal_flagged_tile_is_noop() {
    let mut s = session_3x3();
    s.start(0);
    s.toggle_flag(8);
    let before = s.board.tiles.clone();
    s.reveal_tile(8, 50);
    assert_eq!(s.state, GameState::Running);
    assert_eq!(s.board.tiles, before);
    assert!(!s.board.tiles[8].revealed);
    assert_eq!(s.timer, Timer::Ticking(0));
}

#[test]
fn reveal_mine_loses_and_stops_stopwatch() {
    let mut s = session_3x3();
    s.start(1000);
    s.reveal_tile(0, 3000);
    assert_eq!(s.state, GameState::Lose);
    assert!(!s.board.tiles[0].revealed);
    // the stopwatch is frozen at the captured duration
    assert_eq!(s.elapsed_time(5000), Some(2000));
    assert_eq!(s.elapsed_time(999_999), Some(2000));
}

#[test]
fn reveal_safe_keeps_running() {
    let mut s = session_3x3();
    s.start(10);
    s.reveal_tile(8, 20);
    assert_eq!(s.state, GameState::Running);
    assert!(s.board.tiles[8].revealed);
    // the stopwatch keeps ticking
    assert_eq!(s.elapsed_time(60), Some(50));
}

#[test]
fn win_on_last_safe_tile() {
    let mut s = session_2x2();
    s.start(100);
    s.reveal_tile(1, 200);
    assert_eq!(s.state, GameState::Running);
    s.reveal_tile(2, 300);
    assert_eq!(s.state, GameState::Running);
    s.reveal_tile(3, 400);
    assert_eq!(s.state, GameState::Win);
    assert_eq!(s.elapsed_time(999), Some(300));
}

#[test]
fn win_in_any_order_exactly_on_third_reveal() {
    let orders: [[usize; 3]; 6] = [
        [1, 2, 3],
        [1, 3, 2],
        [2, 1, 3],
        [2, 3, 1],
        [3, 1, 2],
        [3, 2, 1],
    ];
    for order in orders {
        let mut s = session_2x2();
        s.start(0);
        s.reveal_tile(order[0], 1);
        assert_eq!(s.state, GameState::Running);
        s.reveal_tile(order[1], 2);
        assert_eq!(s.state, GameState::Running);
        s.reveal_tile(order[2], 3);
        assert_eq!(s.state, GameState::Win);
    }
}

#[test]
fn chord_mismatch_changes_nothing() {
    let mut s = session_3x3();
    s.start(0);
    s.reveal_tile(8, 1);
    let before = s.board.tiles.clone();
    // no flags: flagged-neighbour count 0 differs from adjacency count 1
    s.chord(8, 2);
    assert_eq!(s.board.tiles, before);
    assert_eq!(s.state, GameState::Running);
}

#[test]
fn chord_match_reveals_unflagged_neighbours_once() {
    let mut s = session_3x3();
    s.start(0);
    s.reveal_tile(8, 1);
    s.toggle_flag(4);
    s.chord(8, 2);
    assert_eq!(s.state, GameState::Running);
    // exactly the unflagged neighbours 5 and 7 of tile 8 came up
    assert!(s.board.tiles[5].revealed);
    assert!(s.board.tiles[7].revealed);
    assert!(s.board.tiles[4].flagged && !s.board.tiles[4].revealed);
    // no cascade: the neighbours of 5 and 7 outside tile 8's set stay down
    assert!(!s.board.tiles[1].revealed);
    assert!(!s.board.tiles[2].revealed);
    assert!(!s.board.tiles[3].revealed);
    assert!(!s.board.tiles[6].revealed);
}

#[test]
fn chord_into_mine_loses() {
    let mut s = session_3x3();
    s.start(500);
    s.reveal_tile(1, 600);
    // two wrong flags match tile 1's adjacency count of 2
    s.toggle_flag(3);
    s.toggle_flag(5);
    s.chord(1, 700);
    assert_eq!(s.state, GameState::Lose);
    assert!(s.board.tiles[2].revealed);
    assert!(!s.board.tiles[0].revealed && !s.board.tiles[4].revealed);
    assert_eq!(s.elapsed_time(9999), Some(200));
}

#[test]
fn chord_can_win() {
    let mut s = session_2x2();
    s.start(0);
    s.reveal_tile(3, 1);
    s.toggle_flag(0);
    // tile 3 has adjacency count 1 and one flagged neighbour: the pass
    // reveals 1 and 2, the last remaining non-mine tiles
    s.chord(3, 2);
    assert_eq!(s.state, GameState::Win);
    assert!(s.board.tiles[1].revealed && s.board.tiles[2].revealed);
}

#[test]
fn reset_returns_to_menu_with_fresh_board() {
    let mut s = session_3x3();
    s.start(0);
    s.toggle_flag(7);
    s.reveal_tile(0, 10);
    assert_eq!(s.state, GameState::Lose);
    s.reset();
    assert_eq!(s.state, GameState::Menu);
    assert_eq!(s.timer, Timer::Idle);
    assert_eq!(s.elapsed_time(123), None);
    assert_eq!(s.board.width, 3);
    assert_eq!(s.board.height, 3);
    assert_eq!(s.board.tiles.len(), 9);
    assert_eq!(s.board.mines, s.board.tiles.iter().filter(|t| t.mine).count());
    for t in &s.board.tiles {
        assert!(!t.revealed && !t.flagged);
    }
}

#[test]
fn reset_from_win() {
    let mut s = session_2x2();
    s.start(0);
    s.reveal_tile(1, 1);
    s.reveal_tile(2, 2);
    s.reveal_tile(3, 3);
    assert_eq!(s.state, GameState::Win);
    s.reset();
    assert_eq!(s.state, GameState::Menu);
    assert_eq!(s.timer, Timer::Idle);
    for t in &s.board.tiles {
        assert!(!t.revealed && !t.flagged);
    }
}

#[test]
fn actions_after_game_over_are_ignored() {
    let mut s = session_3x3();
    s.start(0);
    s.reveal_tile(0, 10);
    assert_eq!(s.state, GameState::Lose);
    let before = s.board.tiles.clone();
    s.reveal_tile(8, 20);
    s.toggle_flag(8);
    s.chord(8, 30);
    s.start(40);
    assert_eq!(s.state, GameState::Lose);
    assert_eq!(s.board.tiles, before);
}

#[test]
fn out_of_range_actions_are_ignored() {
    let mut s = session_3x3();
    s.start(0);
    let before = s.board.tiles.clone();
    s.reveal_tile(9, 1);
    s.reveal_tile(usize::MAX, 2);
    s.toggle_flag(100);
    s.chord(42, 3);
    assert_eq!(s.board.tiles, before);
    assert_eq!(s.state, GameState::Running);
}

#[test]
fn flagging_never_ends_the_game() {
    let mut s = session_2x2();
    s.start(0);
    for i in 0..4 {
        s.toggle_flag(i);
    }
    assert_eq!(s.state, GameState::Running);
    assert_eq!(s.remaining_mines(), 1 - 4);
}

#[test]
fn session_remaining_mines() {
    let mut s = session_3x3();
    assert_eq!(s.remaining_mines(), 2);
    s.start(0);
    s.toggle_flag(4);
    assert_eq!(s.remaining_mines(), 1);
}

#[test]
fn reset_from_running_abandons_the_game() {
    let mut s = session_3x3();
    s.start(0);
    s.reveal_tile(8, 5);
    s.reset();
    assert_eq!(s.state, GameState::Menu);
    assert_eq!(s.timer, Timer::Idle);
    assert!(!s.board.tiles.iter().any(|t| t.revealed || t.flagged));
}
