use pokablocks::animation::board::{Board, CHALLENGER, DEFENDER, EMPTY};
use pokablocks::animation::upscale::up_scale;

#[test]
fn palette_indices_are_fixed() {
    assert_eq!(EMPTY, 0);
    assert_eq!(CHALLENGER, 1);
    assert_eq!(DEFENDER, 2);
}

#[test]
fn board_new_takes_one_cell_for_each_position() {
    let board = Board::new(3, 2, vec![0, 1, 2, 2, 1, 0]).unwrap();
    assert_eq!(board.width(), 3);
    assert_eq!(board.height(), 2);
    assert_eq!(board.cells(), &vec![0, 1, 2, 2, 1, 0]);
    assert_eq!(board.get(0, 0), 0);
    assert_eq!(board.get(1, 0), 1);
    assert_eq!(board.get(2, 0), 2);
    assert_eq!(board.get(0, 1), 2);
    assert_eq!(board.get(2, 1), 0);
}

#[test]
fn board_new_refuses_a_wrong_number_of_cells() {
    assert!(Board::new(3, 2, vec![0; 5]).is_none());
    assert!(Board::new(3, 2, vec![0; 7]).is_none());
    assert!(Board::new(0, 2, vec![0]).is_none());
    assert!(Board::new(usize::MAX, 2, vec![0; 4]).is_none());
    assert!(Board::new(0, 0, vec![]).is_some());
    assert!(Board::new(0, 5, vec![]).is_some());
}

#[test]
fn board_count_counts_one_colour() {
    let board = Board::new(3, 2, vec![0, 1, 2, 2, 1, 2]).unwrap();
    assert_eq!(board.count(EMPTY), 1);
    assert_eq!(board.count(CHALLENGER), 2);
    assert_eq!(board.count(DEFENDER), 3);
    assert_eq!(board.count(7), 0);
}

#[test]
fn neighbours_of_an_inner_cell() {
    let board = Board::new(3, 3, vec![1, 2, 1, 2, 0, 1, 1, 1, 2]).unwrap();
    assert_eq!(board.count_neighbors(1, 1, CHALLENGER), 5);
    assert_eq!(board.count_neighbors(1, 1, DEFENDER), 3);
    assert_eq!(board.count_neighbors(1, 1, EMPTY), 0);
}

#[test]
fn neighbours_are_clipped_at_the_edges() {
    let board = Board::new(3, 3, vec![1; 9]).unwrap();
    assert_eq!(board.count_neighbors(0, 0, 1), 3);
    assert_eq!(board.count_neighbors(2, 0, 1), 3);
    assert_eq!(board.count_neighbors(0, 2, 1), 3);
    assert_eq!(board.count_neighbors(2, 2, 1), 3);
    assert_eq!(board.count_neighbors(1, 0, 1), 5);
    assert_eq!(board.count_neighbors(0, 1, 1), 5);
    assert_eq!(board.count_neighbors(2, 1, 1), 5);
    assert_eq!(board.count_neighbors(1, 2, 1), 5);
    assert_eq!(board.count_neighbors(1, 1, 1), 8);
}

#[test]
fn a_single_cell_has_no_neighbours() {
    let board = Board::new(1, 1, vec![1]).unwrap();
    assert_eq!(board.count_neighbors(0, 0, 1), 0);
}

#[test]
fn stack_sets_the_second_board_below_the_first() {
    let upper = Board::new(2, 1, vec![2, 0]).unwrap();
    let lower = Board::new(2, 2, vec![1, 1, 0, 1]).unwrap();
    let both = Board::stack(upper, lower).unwrap();
    assert_eq!(both.width(), 2);
    assert_eq!(both.height(), 3);
    assert_eq!(both.cells(), &vec![2, 0, 1, 1, 0, 1]);
    assert_eq!(both.count_neighbors(0, 0, CHALLENGER), 2);
}

#[test]
fn stack_refuses_boards_of_different_width() {
    let upper = Board::new(2, 1, vec![2, 0]).unwrap();
    let lower = Board::new(1, 2, vec![1, 1]).unwrap();
    assert!(Board::stack(upper, lower).is_none());
}

#[test]
fn up_scale_fills_a_block_for_each_cell() {
    let raster = up_scale(&vec![1, 0, 0, 2], 2, 2, 2);
    assert_eq!(raster, vec![1, 1, 0, 0, 1, 1, 0, 0, 0, 0, 2, 2, 0, 0, 2, 2]);
}

#[test]
fn up_scale_quadrants_are_constant() {
    let source: Vec<u8> = vec![1, 0, 0, 2];
    let raster = up_scale(&source, 2, 2, 2);
    assert_eq!(raster.len(), 16);
    for y in 0..2usize {
        for x in 0..2usize {
            for dy in 0..2usize {
                for dx in 0..2usize {
                    assert_eq!(raster[(y * 2 + dy) * 4 + x * 2 + dx], source[y * 2 + x]);
                }
            }
        }
    }
}

#[test]
fn up_scale_by_three_on_an_oblong_board() {
    let raster = up_scale(&vec![1, 2, 0], 3, 1, 3);
    let row: Vec<u8> = vec![1, 1, 1, 2, 2, 2, 0, 0, 0];
    let mut expected: Vec<u8> = Vec::new();
    for _ in 0..3 {
        expected.extend_from_slice(&row);
    }
    assert_eq!(raster, expected);
}

#[test]
fn up_scale_by_one_changes_nothing() {
    let source: Vec<u8> = vec![1, 0, 2, 2, 0, 1];
    assert_eq!(up_scale(&source, 2, 3, 1), source);
}

#[test]
fn up_scale_of_nothing_is_empty() {
    assert_eq!(up_scale(&vec![], 0, 0, 16), Vec::<u8>::new());
    assert_eq!(up_scale(&vec![], 0, 7, 16), Vec::<u8>::new());
    assert_eq!(up_scale(&vec![1, 2], 2, 1, 0), Vec::<u8>::new());
}
