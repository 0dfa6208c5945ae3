use rand::rngs::StdRng;
use rand::SeedableRng;
use tetris::game::{Game, GRAVITY_THRESHOLD};
use tetris::shapes::{height, offsets, width};

const BLANK: [[u8; 10]; 20] = [[0; 10]; 20];

/// A game with kind `kind` in `rotation` at row `y` and column `x`, not drawn.
fn game_with(kind: u8, rotation: u8, x: u8, y: u8) -> Game {
    let mut g = Game::empty();
    g.place(kind, rotation, x);
    g.y = y;
    g.prev_y = y;
    g
}

/// A board whose rows 0 to 4 hold a pattern with gaps.
fn busy_top() -> [[u8; 10]; 20] {
    let mut board = BLANK;
    for row in 0..5usize {
        for col in 0..10usize {
            board[row][col] = ((row * 3 + col) % 8) as u8;
        }
        board[row][row] = 0;
    }
    board
}

#[test]
fn empty_game_is_blank_and_well_formed() {
    let g = Game::empty();
    assert_eq!(g.board, BLANK);
    assert_eq!((g.kind, g.rotation, g.x, g.y), (0, 0, 0, 0));
    assert_eq!((g.prev_rotation, g.prev_x, g.prev_y), (0, 0, 0));
    assert_eq!(g.tick, 0);
    assert_eq!(g.score, 0);
    assert_eq!(g.threshold, 30);
    assert_eq!(GRAVITY_THRESHOLD, 30);
    assert!(g.is_wf());
    assert!(g.is_settled());
}

#[test]
fn new_game_has_a_blank_board_and_a_piece_at_the_top() {
    for seed in 0..50u64 {
        let mut rng = StdRng::seed_from_u64(seed);
        let g = Game::new(&mut rng);
        assert_eq!(g.board, BLANK);
        assert_eq!(g.score, 0);
        assert_eq!(g.tick, 0);
        assert_eq!(g.y, 0);
        assert!(g.kind < 7);
        assert!(g.rotation < 4);
        assert!(g.x + width(g.kind, g.rotation) <= 9);
        assert!(g.is_wf());
        assert!(g.is_settled());
    }
}

#[test]
fn set_piece_writes_the_four_cells() {
    let mut g = game_with(0, 0, 3, 0);
    g.set_piece(3, 0, 0, 1);
    let mut expected = BLANK;
    expected[0][3] = 1;
    expected[0][4] = 1;
    expected[1][4] = 1;
    expected[1][5] = 1;
    assert_eq!(g.board, expected);
}

#[test]
fn set_piece_writes_at_the_given_place_in_the_given_rotation() {
    let mut g = game_with(5, 0, 0, 0);
    g.set_piece(9, 16, 1, 6);
    let mut expected = BLANK;
    for row in 16..20 {
        expected[row][9] = 6;
    }
    assert_eq!(g.board, expected);
    assert_eq!((g.x, g.y, g.rotation), (0, 0, 0));
    assert_eq!((g.prev_x, g.prev_y, g.prev_rotation), (0, 0, 0));
}

#[test]
fn set_piece_writes_exactly_the_offsets_for_every_shape() {
    for kind in 0..7u8 {
        for rotation in 0..4u8 {
            let mut g = game_with(kind, rotation, 0, 0);
            let x = 9 - width(kind, rotation);
            let y = 19 - height(kind, rotation);
            g.set_piece(x, y, rotation, kind + 1);
            let mut expected = BLANK;
            for (row, col) in offsets(kind, rotation) {
                expected[(y + row) as usize][(x + col) as usize] = kind + 1;
            }
            assert_eq!(g.board, expected);
        }
    }
}

#[test]
fn set_piece_then_erase_restores_empty_cells() {
    for kind in 0..7u8 {
        for rotation in 0..4u8 {
            let mut g = game_with(kind, rotation, 0, 0);
            g.board = busy_top();
            let before = g.board;
            g.set_piece(2, 10, rotation, kind + 1);
            assert_ne!(g.board, before);
            g.set_piece(2, 10, rotation, 0);
            assert_eq!(g.board, before);
        }
    }
}

#[test]
fn set_piece_then_erase_empties_cells_that_were_occupied() {
    let mut g = game_with(2, 0, 0, 0);
    g.board[0][0] = 3;
    g.board[5][5] = 4;
    g.set_piece(0, 0, 0, 1);
    g.set_piece(0, 0, 0, 0);
    let mut expected = BLANK;
    expected[5][5] = 4;
    assert_eq!(g.board, expected);
}

#[test]
fn update_piece_draws_the_piece_where_it_is() {
    let mut g = game_with(4, 0, 2, 0);
    g.update_piece();
    let mut expected = BLANK;
    expected[1][2] = 5;
    expected[1][3] = 5;
    expected[1][4] = 5;
    expected[0][3] = 5;
    assert_eq!(g.board, expected);
    assert!(g.is_settled());
}

#[test]
fn update_piece_erases_the_old_drawing() {
    let mut g = game_with(4, 0, 2, 0);
    g.update_piece();
    g.x = 5;
    g.y = 7;
    g.rotation = 1;
    assert!(!g.is_settled());
    g.update_piece();
    let mut expected = BLANK;
    expected[7][5] = 5;
    expected[8][5] = 5;
    expected[9][5] = 5;
    expected[8][6] = 5;
    assert_eq!(g.board, expected);
    assert_eq!((g.prev_x, g.prev_y, g.prev_rotation), (5, 7, 1));
    assert!(g.is_settled());
}

#[test]
fn update_piece_keeps_locked_cells() {
    let mut g = game_with(2, 0, 4, 3);
    g.board[19] = [7; 10];
    g.board[10][0] = 2;
    g.update_piece();
    g.y = 4;
    g.update_piece();
    let mut expected = BLANK;
    expected[19] = [7; 10];
    expected[10][0] = 2;
    expected[4][4] = 3;
    expected[4][5] = 3;
    expected[5][4] = 3;
    expected[5][5] = 3;
    assert_eq!(g.board, expected);
}

#[test]
fn check_hit_is_false_on_an_empty_board() {
    for kind in 0..7u8 {
        for rotation in 0..4u8 {
            for y in 0..=(19 - height(kind, rotation)) {
                for x in 0..=(9 - width(kind, rotation)) {
                    let mut g = game_with(kind, 0, 0, 0);
                    assert!(!g.check_hit(x, y, rotation));
                }
            }
        }
    }
}

#[test]
fn check_hit_is_true_below_the_floor() {
    for kind in 0..7u8 {
        for rotation in 0..4u8 {
            let mut g = game_with(kind, rotation, 0, 0);
            let last = 19 - height(kind, rotation);
            assert!(!g.check_hit(0, last, rotation));
            assert!(g.check_hit(0, last + 1, rotation));
            assert!(g.check_hit(0, 20, rotation));
            assert!(g.check_hit(0, 255, rotation));
        }
    }
}

#[test]
fn check_hit_below_the_floor_does_not_touch_the_board() {
    let mut g = game_with(0, 0, 3, 0);
    assert!(g.check_hit(3, 19, 0));
    assert_eq!(g.board, BLANK);
}

#[test]
fn check_hit_is_true_on_a_locked_cell() {
    let mut g = game_with(0, 0, 3, 0);
    g.update_piece();
    g.board[2][4] = 5;
    assert!(g.check_hit(3, 1, 0));
    assert!(!g.check_hit(4, 1, 0));
    assert!(g.check_hit(3, 2, 0));
    assert!(!g.check_hit(0, 5, 0));
}

#[test]
fn check_hit_does_not_count_the_piece_itself() {
    let mut g = game_with(5, 1, 4, 0);
    g.update_piece();
    assert_eq!(g.board[0][4], 6);
    assert_eq!(g.board[3][4], 6);
    assert!(!g.check_hit(4, 1, 1));
    assert!(!g.check_hit(4, 0, 1));
    assert!(!g.check_hit(3, 0, 0));
}

#[test]
fn check_hit_leaves_the_board_and_the_piece_as_they_were() {
    let mut g = game_with(3, 2, 6, 4);
    g.board = busy_top();
    g.board[19] = [1; 10];
    g.update_piece();
    let before = g;
    for y in 0..22u8 {
        for x in 0..=8u8 {
            g.check_hit(x, y, 2);
            assert_eq!(g.board, before.board);
            assert_eq!((g.kind, g.rotation, g.x, g.y), (3, 2, 6, 4));
            assert_eq!((g.prev_rotation, g.prev_x, g.prev_y), (2, 6, 4));
            assert_eq!((g.tick, g.score), (0, 0));
        }
    }
}

#[test]
fn check_hit_draws_a_piece_that_was_not_drawn() {
    let mut g = game_with(2, 0, 4, 0);
    assert!(!g.check_hit(4, 1, 0));
    let mut expected = BLANK;
    expected[0][4] = 3;
    expected[0][5] = 3;
    expected[1][4] = 3;
    expected[1][5] = 3;
    assert_eq!(g.board, expected);
}

#[test]
fn place_sets_piece_and_shadow_and_keeps_the_rest() {
    let mut g = Game::empty();
    g.board = busy_top();
    g.score = 12;
    g.tick = 7;
    g.y = 9;
    g.place(6, 3, 7);
    assert_eq!((g.kind, g.rotation, g.x, g.y), (6, 3, 7, 0));
    assert_eq!((g.prev_rotation, g.prev_x, g.prev_y), (3, 7, 0));
    assert_eq!(g.board, busy_top());
    assert_eq!((g.score, g.tick, g.threshold), (12, 7, 30));
}

#[test]
fn spawn_puts_a_fitting_piece_at_the_top() {
    let mut rng = StdRng::seed_from_u64(2024);
    let mut seen_kinds = [false; 7];
    let mut seen_rotations = [false; 4];
    let mut g = Game::empty();
    g.board = busy_top();
    g.score = 3;
    g.tick = 5;
    for _ in 0..2000 {
        g.y = 11;
        g.spawn(&mut rng);
        assert!(g.kind < 7);
        assert!(g.rotation < 4);
        assert!(g.x <= 9 - width(g.kind, g.rotation));
        assert_eq!(g.y, 0);
        assert_eq!((g.prev_rotation, g.prev_x, g.prev_y), (g.rotation, g.x, 0));
        assert_eq!(g.board, busy_top());
        assert_eq!((g.score, g.tick), (3, 5));
        assert!(g.is_wf());
        seen_kinds[g.kind as usize] = true;
        seen_rotations[g.rotation as usize] = true;
    }
    assert_eq!(seen_kinds, [true; 7]);
    assert_eq!(seen_rotations, [true; 4]);
}

#[test]
fn spawn_reaches_both_ends_of_the_column_range() {
    let mut rng = StdRng::seed_from_u64(7);
    let mut g = Game::empty();
    let mut leftmost = false;
    let mut rightmost = false;
    for _ in 0..2000 {
        g.spawn(&mut rng);
        leftmost |= g.x == 0;
        rightmost |= g.x == 9 - width(g.kind, g.rotation);
    }
    assert!(leftmost);
    assert!(rightmost);
}

#[test]
fn spawn_with_the_same_seed_gives_the_same_pieces() {
    let mut first = StdRng::seed_from_u64(99);
    let mut second = StdRng::seed_from_u64(99);
    let mut a = Game::empty();
    let mut b = Game::empty();
    for _ in 0..100 {
        a.spawn(&mut first);
        b.spawn(&mut second);
        assert_eq!((a.kind, a.rotation, a.x), (b.kind, b.rotation, b.x));
    }
}

#[test]
fn row_is_full_only_without_an_empty_cell() {
    let mut g = Game::empty();
    g.board[5] = [1, 2, 3, 4, 5, 6, 7, 1, 2, 3];
    g.board[6] = [1, 2, 3, 4, 5, 6, 7, 1, 2, 0];
    g.board[7] = [0, 2, 3, 4, 5, 6, 7, 1, 2, 3];
    assert!(g.row_is_full(5));
    assert!(!g.row_is_full(6));
    assert!(!g.row_is_full(7));
    assert!(!g.row_is_full(0));
}

#[test]
fn remove_row_moves_the_rows_above_down() {
    let mut g = Game::empty();
    g.board = busy_top();
    g.board[5] = [7; 10];
    g.board[6] = [0, 0, 3, 0, 0, 0, 0, 0, 0, 0];
    let before = g.board;
    g.remove_row(5);
    assert_eq!(g.board[0], [0; 10]);
    for row in 1..=5 {
        assert_eq!(g.board[row], before[row - 1]);
    }
    for row in 6..20 {
        assert_eq!(g.board[row], before[row]);
    }
    assert_eq!(g.score, 0);
}

#[test]
fn remove_row_at_the_top_empties_it() {
    let mut g = Game::empty();
    g.board = busy_top();
    let before = g.board;
    g.remove_row(0);
    assert_eq!(g.board[0], [0; 10]);
    for row in 1..20 {
        assert_eq!(g.board[row], before[row]);
    }
}

#[test]
fn lock_and_clear_takes_out_the_one_full_row() {
    // A bar lying in row 5 completes that row; rows 0 to 4 hold a pattern.
    let mut g = game_with(5, 0, 6, 5);
    g.board = busy_top();
    g.board[5] = [2, 2, 2, 2, 2, 2, 0, 0, 0, 0];
    g.board[6] = [0, 0, 0, 1, 0, 0, 0, 0, 0, 0];
    g.score = 41;
    g.update_piece();
    assert_eq!(g.board[5], [2, 2, 2, 2, 2, 2, 6, 6, 6, 6]);
    let before = g.board;
    g.lock_and_clear();
    assert_eq!(g.board[0], [0; 10]);
    for row in 1..=5 {
        assert_eq!(g.board[row], before[row - 1]);
    }
    for row in 6..20 {
        assert_eq!(g.board[row], before[row]);
    }
    assert_eq!(g.score, 42);
    assert_eq!((g.kind, g.rotation, g.x, g.y), (5, 0, 6, 5));
}

#[test]
fn lock_and_clear_without_a_full_row_changes_nothing() {
    let mut g = game_with(0, 1, 3, 10);
    g.board = busy_top();
    g.board[12] = [1, 1, 1, 0, 1, 1, 1, 1, 1, 0];
    g.update_piece();
    assert_eq!(g.board[12], [1, 1, 1, 1, 1, 1, 1, 1, 1, 0]);
    let before = g;
    g.lock_and_clear();
    assert_eq!(g.board, before.board);
    assert_eq!(g.score, before.score);
}

#[test]
fn lock_and_clear_looks_only_at_the_rows_of_the_piece() {
    let mut g = game_with(2, 0, 0, 10);
    g.board[9] = [4; 10];
    g.board[12] = [4; 10];
    g.update_piece();
    let before = g.board;
    g.lock_and_clear();
    assert_eq!(g.board, before);
    assert_eq!(g.score, 0);
}

#[test]
fn lock_and_clear_takes_out_two_adjacent_rows() {
    let mut g = game_with(2, 0, 8, 18);
    g.board[16] = [0, 3, 0, 0, 0, 0, 0, 0, 0, 0];
    g.board[17] = [1, 0, 1, 0, 1, 0, 1, 0, 0, 0];
    g.board[18] = [5, 5, 5, 5, 5, 5, 5, 5, 0, 0];
    g.board[19] = [4, 4, 4, 4, 4, 4, 4, 4, 0, 0];
    g.update_piece();
    g.lock_and_clear();
    let mut expected = BLANK;
    expected[18] = [0, 3, 0, 0, 0, 0, 0, 0, 0, 0];
    expected[19] = [1, 0, 1, 0, 1, 0, 1, 0, 0, 0];
    assert_eq!(g.board, expected);
    assert_eq!(g.score, 2);
}

#[test]
fn lock_and_clear_moves_each_row_by_the_full_rows_below_it() {
    // An upright bar in rows 16 to 19 completes rows 17 and 19 only.
    let mut g = game_with(5, 1, 9, 16);
    g.board[14] = [0, 0, 0, 0, 2, 0, 0, 0, 0, 0];
    g.board[15] = [7, 0, 0, 0, 0, 0, 0, 0, 0, 0];
    g.board[16] = [1, 1, 0, 0, 0, 0, 0, 0, 0, 0];
    g.board[17] = [2, 2, 2, 2, 2, 2, 2, 2, 2, 0];
    g.board[18] = [3, 0, 3, 0, 3, 0, 3, 0, 3, 0];
    g.board[19] = [4, 4, 4, 4, 4, 4, 4, 4, 4, 0];
    g.update_piece();
    g.lock_and_clear();
    let mut expected = BLANK;
    expected[16] = [0, 0, 0, 0, 2, 0, 0, 0, 0, 0];
    expected[17] = [7, 0, 0, 0, 0, 0, 0, 0, 0, 0];
    expected[18] = [1, 1, 0, 0, 0, 0, 0, 0, 0, 6];
    expected[19] = [3, 0, 3, 0, 3, 0, 3, 0, 3, 6];
    assert_eq!(g.board, expected);
    assert_eq!(g.score, 2);
}

#[test]
fn lock_and_clear_takes_out_four_rows() {
    let mut g = game_with(5, 1, 0, 16);
    for row in 16..20 {
        g.board[row] = [0, 1, 1, 1, 1, 1, 1, 1, 1, 1];
    }
    g.board[15] = [0, 0, 0, 0, 0, 0, 0, 0, 5, 0];
    g.score = 10;
    g.update_piece();
    g.lock_and_clear();
    let mut expected = BLANK;
    expected[19] = [0, 0, 0, 0, 0, 0, 0, 0, 5, 0];
    assert_eq!(g.board, expected);
    assert_eq!(g.score, 14);
}

#[test]
fn lock_and_clear_takes_out_a_full_top_row() {
    let mut g = game_with(5, 0, 0, 0);
    g.board[0] = [0, 0, 0, 0, 1, 1, 1, 1, 1, 1];
    g.board[1] = [0, 0, 0, 0, 0, 0, 0, 0, 0, 2];
    g.update_piece();
    g.lock_and_clear();
    let mut expected = BLANK;
    expected[1] = [0, 0, 0, 0, 0, 0, 0, 0, 0, 2];
    assert_eq!(g.board, expected);
    assert_eq!(g.score, 1);
}

#[test]
fn is_wf_tells_bad_states() {
    let good = game_with(5, 0, 6, 19);
    assert!(good.is_wf());

    let mut g = good;
    g.kind = 7;
    assert!(!g.is_wf());

    let mut g = good;
    g.rotation = 4;
    assert!(!g.is_wf());

    let mut g = good;
    g.prev_rotation = 4;
    assert!(!g.is_wf());

    let mut g = good;
    g.x = 7;
    assert!(!g.is_wf());

    let mut g = good;
    g.y = 20;
    assert!(!g.is_wf());

    let mut g = good;
    g.prev_x = 7;
    assert!(!g.is_wf());

    let mut g = good;
    g.prev_rotation = 1;
    assert!(!g.is_wf());

    let mut g = good;
    g.tick = 31;
    assert!(!g.is_wf());

    let mut g = good;
    g.board[19][9] = 8;
    assert!(!g.is_wf());

    let mut g = good;
    g.board[19][9] = 7;
    g.tick = 30;
    g.score = u32::MAX;
    assert!(g.is_wf());
}

#[test]
fn is_settled_compares_piece_and_shadow() {
    let mut g = game_with(1, 2, 3, 4);
    assert!(g.is_settled());
    g.x = 4;
    assert!(!g.is_settled());
    g.x = 3;
    g.y = 5;
    assert!(!g.is_settled());
    g.y = 4;
    g.rotation = 3;
    assert!(!g.is_settled());
}
