use minesweeper::board::Board;
use minesweeper::board::RevealOutcome;

/// A 3x3 board with mines forced at indices 0 and 4.
fn three_by_three() -> Board {
    let mut layout = vec![false; 9];
    layout[0] = true;
    layout[4] = true;
    Board::from_mines(3, 3, layout, 1, 5)
}

/// Recount the mined neighbours of `i` through the public neighbour list.
fn recount(b: &Board, i: usize) -> u8 {
    let mut n: u8 = 0;
    for j in b.neighbours(i) {
        if b.tiles[j].mine {
            n += 1;
        }
    }
    n
}

#[test]
fn generated_board_invariants_hold() {
    let b = Board::new(4, 5, 1, 5);
    assert_eq!(b.width, 4);
    assert_eq!(b.height, 5);
    assert_eq!(b.tiles.len(), 20);
    let mines = b.tiles.iter().filter(|t| t.mine).count();
    assert_eq!(b.mines, mines);
    for i in 0..b.tiles.len() {
        assert_eq!(b.tiles[i].neighbours, recount(&b, i));
        assert!(!b.tiles[i].revealed);
        assert!(!b.tiles[i].flagged);
    }
}

#[test]
fn forced_board_adjacency() {
    let b = three_by_three();
    assert_eq!(b.mines, 2);
    let expected: [u8; 9] = [1, 2, 1, 2, 1, 1, 1, 1, 1];
    for i in 0..9 {
        assert_eq!(b.tiles[i].neighbours, expected[i]);
        assert_eq!(b.tiles[i].neighbours, recount(&b, i));
    }
    assert_eq!(b.tiles[0].mine, true);
    assert_eq!(b.tiles[4].mine, true);
    assert_eq!(b.tiles.iter().filter(|t| t.mine).count(), 2);
}

#[test]
fn neighbour_lists_are_sorted_and_clipped() {
    let b = three_by_three();
    assert_eq!(b.neighbours(0), vec![1, 3, 4]);
    assert_eq!(b.neighbours(4), vec![0, 1, 2, 3, 5, 6, 7, 8]);
    assert_eq!(b.neighbours(5), vec![1, 2, 4, 7, 8]);
    assert_eq!(b.neighbours(8), vec![4, 5, 7]);
}

#[test]
fn single_column_neighbours() {
    let b = Board::from_mines(1, 4, vec![false, true, false, false], 0, 1);
    assert_eq!(b.neighbours(0), vec![1]);
    assert_eq!(b.neighbours(2), vec![1, 3]);
    assert_eq!(b.tiles[0].neighbours, 1);
    assert_eq!(b.tiles[1].neighbours, 0);
    assert_eq!(b.tiles[2].neighbours, 1);
    assert_eq!(b.tiles[3].neighbours, 0);
}

#[test]
fn board_reveal_cases() {
    let mut b = three_by_three();
    assert_eq!(b.reveal_tile(8), RevealOutcome::Revealed);
    assert!(b.tiles[8].revealed);
    assert_eq!(b.reveal_tile(8), RevealOutcome::Ignored);
    b.toggle_flag(5);
    assert_eq!(b.reveal_tile(5), RevealOutcome::Ignored);
    assert!(!b.tiles[5].revealed);
    assert_eq!(b.reveal_tile(0), RevealOutcome::MineHit);
    assert!(!b.tiles[0].revealed);
}

#[test]
fn board_toggle_flag_cases() {
    let mut b = three_by_three();
    b.toggle_flag(2);
    assert!(b.tiles[2].flagged);
    b.toggle_flag(2);
    assert!(!b.tiles[2].flagged);
    b.reveal_tile(2);
    b.toggle_flag(2);
    assert!(!b.tiles[2].flagged);
}

#[test]
fn board_chord_needs_matching_flags() {
    let mut b = three_by_three();
    b.reveal_tile(8);
    // flagged-neighbour count 0 does not match the adjacency count 1
    assert_eq!(b.flagged_neighbours(8), 0);
    assert_eq!(b.chord(8), RevealOutcome::Ignored);
    assert!(!b.tiles[5].revealed && !b.tiles[7].revealed);
    // flag the mine at 4: the counts now match and the pass reveals 5 and 7
    b.toggle_flag(4);
    assert_eq!(b.flagged_neighbours(8), 1);
    assert_eq!(b.chord(8), RevealOutcome::Revealed);
    assert!(b.tiles[5].revealed);
    assert!(b.tiles[7].revealed);
    assert!(b.tiles[4].flagged && !b.tiles[4].revealed);
    assert!(!b.tiles[1].revealed && !b.tiles[2].revealed);
}

#[test]
fn board_chord_into_mine() {
    let mut b = three_by_three();
    b.reveal_tile(1);
    // two wrong flags match tile 1's adjacency count of 2
    b.toggle_flag(3);
    b.toggle_flag(5);
    assert_eq!(b.chord(1), RevealOutcome::MineHit);
    // the non-mine unflagged neighbour 2 was still revealed in the pass
    assert!(b.tiles[2].revealed);
    // the mines at 0 and 4 stay face down, the flags stay put
    assert!(!b.tiles[0].revealed && !b.tiles[4].revealed);
    assert!(b.tiles[3].flagged && b.tiles[5].flagged);
}

#[test]
fn board_remaining_mines_display() {
    let mut b = three_by_three();
    assert_eq!(b.remaining_mines(), 2);
    b.toggle_flag(0);
    assert_eq!(b.remaining_mines(), 1);
    b.toggle_flag(7);
    assert_eq!(b.remaining_mines(), 0);
    b.toggle_flag(6);
    assert_eq!(b.remaining_mines(), -1);
}

#[test]
fn board_check_win() {
    let mut b = Board::from_mines(2, 2, vec![true, false, false, false], 1, 5);
    assert!(!b.check_win());
    b.reveal_tile(1);
    b.reveal_tile(2);
    assert!(!b.check_win());
    b.reveal_tile(3);
    assert!(b.check_win());
}

#[test]
fn board_reset_regenerates() {
    let mut b = three_by_three();
    b.reveal_tile(8);
    b.toggle_flag(2);
    b.reset();
    assert_eq!(b.width, 3);
    assert_eq!(b.height, 3);
    assert_eq!(b.tiles.len(), 9);
    assert_eq!(b.mines, b.tiles.iter().filter(|t| t.mine).count());
    for i in 0..9 {
        assert!(!b.tiles[i].revealed);
        assert!(!b.tiles[i].flagged);
        assert_eq!(b.tiles[i].neighbours, recount(&b, i));
    }
}

#[test]
fn reveal_does_not_flood_fill() {
    // a single corner mine leaves tile 8 with adjacency count 0; revealing
    // it must not auto-reveal its neighbours
    let mut layout = vec![false; 9];
    layout[0] = true;
    let mut b = Board::from_mines(3, 3, layout, 1, 5);
    assert_eq!(b.tiles[8].neighbours, 0);
    b.reveal_tile(8);
    assert!(b.tiles[8].revealed);
    for i in 0..8 {
        assert!(!b.tiles[i].revealed);
    }
}

#[test]
fn zero_probability_board_has_no_mines() {
    let b = Board::new(3, 3, 0, 1);
    assert_eq!(b.mines, 0);
    assert!(b.tiles.iter().all(|t| !t.mine));
    assert!(b.tiles.iter().all(|t| t.neighbours == 0));
}

#[test]
fn certain_probability_board_is_all_mines() {
    let b = Board::new(3, 3, 5, 5);
    assert_eq!(b.mines, 9);
    assert!(b.tiles.iter().all(|t| t.mine));
    // the centre tile is surrounded by eight mines
    assert_eq!(b.tiles[4].neighbours, 8);
}
