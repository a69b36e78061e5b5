use iqfit_solver::board::{BinaryBoard, Board, DisplayBoard};
use iqfit_solver::pieces::{Piece, PlacedPiece};

/// Boards to look at: pieces laid where they fit, chosen by a fixed rule.
fn some_boards() -> Vec<Vec<PlacedPiece>> {
    let mut boards = Vec::new();
    let mut state: u32 = 12345;
    let mut next = |below: u32| {
        state = state.wrapping_mul(1664525).wrapping_add(1013904223);
        (state >> 8) % below
    };
    for _ in 0..3000 {
        let mut board = BinaryBoard::empty();
        let mut pieces = Vec::new();
        let wanted = 1 + next(10);
        let mut tries = 0;
        while (pieces.len() as u32) < wanted && tries < 200 {
            tries += 1;
            let p = PlacedPiece {
                piece: Piece::from_byte(next(80) as u8).unwrap(),
                top_left: next(50) as u8,
            };
            if board.can_place_piece(p) {
                board = board.with_piece(p);
                pieces.push(p);
            }
        }
        boards.push(pieces);
    }
    boards
}

struct Cells(DisplayBoard);

impl Cells {
    fn filled(&self, i: i32) -> bool {
        i >= 50 || (i >= 0 && !self.0.is_cell_empty(i as u8))
    }

    fn vacant(&self, i: i32) -> bool {
        (0..50).contains(&i) && self.0.is_cell_empty(i as u8)
    }

    /// Which of the eight pockets ends in cell `h`, if one does.
    fn pocket(&self, h: i32) -> Option<usize> {
        let f = |d: i32| self.filled(h + d);
        let v = |d: i32| self.vacant(h + d);
        let end = v(0) && f(1) && f(10);
        let end_of_two = end && f(-10) && v(-1) && f(9);
        let kinds = [
            end && f(-10) && f(-1),
            end_of_two && f(-2) && f(-11),
            end && f(-1) && v(-10) && f(-9) && f(-11) && f(-20),
            end_of_two && v(-2) && f(-11) && f(7) && f(8) && f(-12) && f(-3),
            end_of_two && f(-2) && v(-11) && f(-21) && f(-12) && f(-3),
            end && f(9) && v(-1) && f(-2) && f(-9) && v(-10) && f(-11) && f(-20),
            end && f(-1) && f(-9) && v(-10) && v(-11) && f(-12) && f(-20) && f(-21),
            end && f(-1) && f(-8) && v(-9) && v(-10) && f(-11) && f(-19) && f(-20),
        ];
        kinds.iter().position(|k| *k)
    }

    fn gives_up(&self, index: i32) -> bool {
        (0..50).contains(&index)
            && !self.vacant(index + 10)
            && (index % 10 == 9
                || !self.vacant(index + 1)
                || (!self.vacant(index + 11) && !self.vacant(index + 2)))
    }
}

#[test]
fn a_bit_board_gives_up_on_its_pockets() {
    let mut seen = [0; 8];
    for pieces in some_boards() {
        let binary = BinaryBoard::from_placed_piece_list(&pieces).unwrap();
        let cells = Cells(DisplayBoard::from_placed_piece_list(&pieces).unwrap());
        for h in 0..50 {
            if let Some(kind) = cells.pocket(h) {
                seen[kind] += 1;
            }
        }
        for index in 0..=255u8 {
            let expected = (index as i32..50).any(|h| cells.pocket(h).is_some());
            assert_eq!(binary.check_common_failures(index), expected);
        }
    }
    // Each kind of pocket was met.
    assert!(seen.iter().all(|n| *n > 0), "{:?}", seen);
}

#[test]
fn a_cell_board_gives_up_where_the_first_cell_is_walled_in() {
    let mut gave_up = 0;
    for pieces in some_boards() {
        let display = DisplayBoard::from_placed_piece_list(&pieces).unwrap();
        let cells = Cells(display);
        for index in 0..=255u8 {
            let expected = cells.gives_up(index as i32);
            assert_eq!(display.check_common_failures(index), expected);
            if expected && display.first_empty_cell(0) == Some(index) {
                gave_up += 1;
                // No piece can be placed on the first empty cell.
                for b in 0..80 {
                    let p = PlacedPiece {
                        piece: Piece::from_byte(b).unwrap(),
                        top_left: index,
                    };
                    assert!(!display.can_place_piece(p));
                }
            }
        }
    }
    assert!(gave_up > 0);
}

#[test]
fn two_free_cells_one_above_the_other_are_a_pocket() {
    // Cells 39 and 49 are free, between the green and the purple piece.
    let pieces = [
        PlacedPiece { piece: Piece::from_byte(5 * 8).unwrap(), top_left: 18 },
        PlacedPiece { piece: Piece::from_byte(9 * 8 + 4 + 3).unwrap(), top_left: 36 },
        PlacedPiece { piece: Piece::from_byte(4).unwrap(), top_left: 10 },
    ];
    let binary = BinaryBoard::from_placed_piece_list(&pieces).unwrap();
    assert!(binary.is_cell_empty(39) && binary.is_cell_empty(49));
    assert!(!binary.is_cell_empty(29) && !binary.is_cell_empty(38) && !binary.is_cell_empty(48));
    assert!(binary.check_common_failures(0));
    assert!(binary.check_common_failures(49));
    let cells = Cells(DisplayBoard::from_placed_piece_list(&pieces).unwrap());
    assert_eq!(cells.pocket(49), Some(2));
}

#[test]
fn three_free_cells_in_a_row_need_walls_below_all_of_them() {
    // Cells 10, 11, 12 and 20 are free; the cells around them are not.
    let mut pieces = Vec::new();
    for (byte, top_left) in [
        (7 * 8 + 4 + 3, 36),
        (2 * 8 + 3, 35),
        (5 * 8 + 4 + 1, 30),
        (9 * 8 + 1, 21),
        (8 * 8 + 2, 17),
        (6 * 8 + 4 + 2, 9),
        (3 * 8 + 4 + 1, 5),
        (8, 4),
        (1, 0),
    ] {
        pieces.push(PlacedPiece { piece: Piece::from_byte(byte).unwrap(), top_left });
    }
    let binary = BinaryBoard::from_placed_piece_list(&pieces).unwrap();
    assert_eq!(binary.first_empty_cell(0), Some(10));
    assert!(binary.is_cell_empty(20) && !binary.is_cell_empty(19));
    assert!(!binary.check_common_failures(10));
}

#[test]
fn no_pocket_is_seen_in_the_top_row() {
    // Cell 0 between the balls on cells 1 and 10: a bit board counts no index before the
    // first cell as filled.
    let orange = PlacedPiece {
        piece: Piece::from_byte(8 + 2).unwrap(),
        top_left: 1,
    };
    let binary = BinaryBoard::empty().with_piece(orange);
    assert!(binary.is_cell_empty(0) && !binary.is_cell_empty(1) && !binary.is_cell_empty(10));
    assert!(!binary.check_common_failures(0));
    let display = DisplayBoard::empty().with_piece(orange);
    assert!(display.check_common_failures(0));
}
