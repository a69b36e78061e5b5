use iqfit_solver::board::{BinaryBoard, Board, DisplayBoard};
use iqfit_solver::pieces::Color;
use iqfit_solver::puzzles::{pieces_117, pieces_49};
use iqfit_solver::solver::{solve_with_counter, ColorSet};

#[test]
fn test_color_to_int() {
    assert_eq!(Color::Yellow as u8, 0);
    assert_eq!(Color::Pink as u8, 3);
}

#[test]
fn test_color_hasher() {
    let mut set = ColorSet::full();
    assert_eq!(set.0, 0b1111111111111111);
    assert_eq!(set.without_color(Color::Pink).0, 0b1111111111110111);
    assert_eq!(set.0, 0b1111111111111111);
    set.remove(Color::Pink);
    assert_eq!(set.0, 0b1111111111110111);
    assert!(set.contains(Color::Yellow));
    assert!(!set.contains(Color::Pink));
}

#[test]
fn test_49() {
    let (pieces, c) = solve_with_counter::<BinaryBoard>(&pieces_49());
    assert!(pieces.is_some());
    assert_eq!(
        BinaryBoard::from_placed_piece_list(&pieces.clone().unwrap())
            .unwrap()
            .first_empty_cell(0),
        None
    );
    assert_eq!(
        DisplayBoard::from_placed_piece_list(&pieces.unwrap())
            .unwrap()
            .first_empty_cell(0),
        None
    );
    assert_eq!(c, 471);
}

#[test]
fn test_117() {
    let (pieces, c) = solve_with_counter::<BinaryBoard>(&pieces_117());
    assert!(pieces.is_some());
    assert_eq!(
        BinaryBoard::from_placed_piece_list(&pieces.clone().unwrap())
            .unwrap()
            .first_empty_cell(0),
        None
    );
    assert_eq!(
        DisplayBoard::from_placed_piece_list(&pieces.unwrap())
            .unwrap()
            .first_empty_cell(0),
        None
    );
    assert_eq!(c, 753688);
}
