use iqfit_solver::board::binary_board::FIRST_UNSET_BIT;
use iqfit_solver::board::{get_placement_info, BinaryBoard, Board, DisplayBoard};
use iqfit_solver::pieces::{Color, Face, Orientation, Piece, PlacedPiece};

const COLORS: [Color; 10] = [
    Color::Yellow,
    Color::Orange,
    Color::Red,
    Color::Pink,
    Color::LightGreen,
    Color::Green,
    Color::LightBlue,
    Color::Blue,
    Color::DeepBlue,
    Color::Purple,
];

const ORIENTATIONS: [Orientation; 4] = [
    Orientation::Up,
    Orientation::Right,
    Orientation::Down,
    Orientation::Left,
];

fn placed(color: Color, face: Face, orientation: Orientation, top_left: u8) -> PlacedPiece {
    PlacedPiece {
        piece: Piece::new()
            .with_color(color)
            .with_face(face)
            .with_orientation(orientation),
        top_left,
    }
}

fn every_piece() -> Vec<Piece> {
    (0..80).map(|b| Piece::from_byte(b).unwrap()).collect()
}

/// The cells under a piece: its anchor's cell plus each offset of its placement data.
fn cells_of(p: PlacedPiece) -> Vec<u8> {
    let info = get_placement_info(p.piece);
    info.balls[..info.num_balls as usize]
        .iter()
        .map(|b| p.top_left + b)
        .collect()
}

fn occupied<B: Board>(board: &B) -> Vec<u8> {
    (0..=255u8).filter(|i| *i < 50 && !board.is_cell_empty(*i)).collect()
}

/// A full board: the solution of puzzle 49.
fn full_board() -> Vec<PlacedPiece> {
    vec![
        placed(Color::Pink, Face::A, Orientation::Right, 0),
        placed(Color::Red, Face::A, Orientation::Down, 4),
        placed(Color::LightBlue, Face::A, Orientation::Up, 6),
        placed(Color::LightGreen, Face::B, Orientation::Right, 7),
        placed(Color::Yellow, Face::B, Orientation::Up, 10),
        placed(Color::DeepBlue, Face::A, Orientation::Down, 13),
        placed(Color::Blue, Face::A, Orientation::Up, 14),
        placed(Color::Green, Face::A, Orientation::Up, 18),
        placed(Color::Purple, Face::B, Orientation::Left, 31),
        placed(Color::Orange, Face::B, Orientation::Left, 37),
    ]
}

fn empty_board_has_no_ball<B: Board>() {
    let board = B::empty();
    for i in 0..50u8 {
        assert!(board.is_cell_empty(i));
    }
    assert_eq!(board.first_empty_cell(0), Some(0));
    assert!(!board.check_common_failures(0));
}

#[test]
fn empty_binary_board_has_no_ball() {
    empty_board_has_no_ball::<BinaryBoard>();
    assert_eq!(BinaryBoard::default(), BinaryBoard::empty());
}

#[test]
fn empty_display_board_has_no_ball() {
    empty_board_has_no_ball::<DisplayBoard>();
    assert_eq!(DisplayBoard::default(), DisplayBoard::empty());
}

fn no_cell_outside_the_grid_is_empty<B: Board>() {
    let board = B::empty();
    for i in 50..=255u8 {
        assert!(!board.is_cell_empty(i));
    }
}

#[test]
fn no_cell_outside_the_grid_is_empty_binary() {
    no_cell_outside_the_grid_is_empty::<BinaryBoard>();
}

#[test]
fn no_cell_outside_the_grid_is_empty_display() {
    no_cell_outside_the_grid_is_empty::<DisplayBoard>();
}

fn can_place_asks_twice_and_changes_nothing<B: Board + PartialEq + std::fmt::Debug>() {
    let board = B::empty().with_piece(placed(Color::Pink, Face::A, Orientation::Right, 22));
    let before = board;
    for piece in every_piece() {
        for top_left in 0..60u8 {
            let p = PlacedPiece { piece, top_left };
            let first = board.can_place_piece(p);
            let second = board.can_place_piece(p);
            assert_eq!(first, second);
            assert_eq!(board, before);
        }
    }
}

#[test]
fn can_place_asks_twice_and_changes_nothing_binary() {
    can_place_asks_twice_and_changes_nothing::<BinaryBoard>();
}

#[test]
fn can_place_asks_twice_and_changes_nothing_display() {
    can_place_asks_twice_and_changes_nothing::<DisplayBoard>();
}

fn with_piece_fills_the_cells_of_the_piece_only<B: Board>() {
    let start = B::empty()
        .with_piece(placed(Color::Yellow, Face::B, Orientation::Up, 10))
        .with_piece(placed(Color::Green, Face::A, Orientation::Up, 18));
    for piece in every_piece() {
        for top_left in 0..50u8 {
            let p = PlacedPiece { piece, top_left };
            if !start.can_place_piece(p) {
                continue;
            }
            let next = start.with_piece(p);
            let under = cells_of(p);
            for i in 0..50u8 {
                if under.contains(&i) {
                    assert!(start.is_cell_empty(i));
                    assert!(!next.is_cell_empty(i));
                } else {
                    assert_eq!(next.is_cell_empty(i), start.is_cell_empty(i));
                }
            }
        }
    }
}

#[test]
fn with_piece_fills_the_cells_of_the_piece_only_binary() {
    with_piece_fills_the_cells_of_the_piece_only::<BinaryBoard>();
}

#[test]
fn with_piece_fills_the_cells_of_the_piece_only_display() {
    with_piece_fills_the_cells_of_the_piece_only::<DisplayBoard>();
}

fn board_from_list_covers_the_cells_of_its_pieces<B: Board>() {
    let all = full_board();
    for n in 0..=all.len() {
        let pieces = &all[..n];
        let board = B::from_placed_piece_list(pieces).unwrap();
        let mut expected: Vec<u8> = pieces.iter().flat_map(|p| cells_of(*p)).collect();
        expected.sort();
        assert_eq!(occupied(&board), expected);
    }
}

#[test]
fn board_from_list_covers_the_cells_of_its_pieces_binary() {
    board_from_list_covers_the_cells_of_its_pieces::<BinaryBoard>();
}

#[test]
fn board_from_list_covers_the_cells_of_its_pieces_display() {
    board_from_list_covers_the_cells_of_its_pieces::<DisplayBoard>();
}

fn board_from_list_refuses_what_cannot_lie_together<B: Board>() {
    // Two pieces on a common cell.
    assert!(B::from_placed_piece_list(&[
        placed(Color::Pink, Face::A, Orientation::Right, 22),
        placed(Color::Yellow, Face::B, Orientation::Up, 11),
    ])
    .is_none());
    // A piece that leaves the grid.
    assert!(
        B::from_placed_piece_list(&[placed(Color::Pink, Face::A, Orientation::Right, 7)]).is_none()
    );
    assert!(B::from_placed_piece_list(&[
        placed(Color::Yellow, Face::B, Orientation::Up, 0),
        placed(Color::Pink, Face::A, Orientation::Right, 42),
    ])
    .is_none());
    // The same piece twice.
    assert!(B::from_placed_piece_list(&[
        placed(Color::Green, Face::A, Orientation::Up, 18),
        placed(Color::Green, Face::A, Orientation::Up, 18),
    ])
    .is_none());
    assert!(B::from_placed_piece_list(&[]).is_some());
}

#[test]
fn board_from_list_refuses_what_cannot_lie_together_binary() {
    board_from_list_refuses_what_cannot_lie_together::<BinaryBoard>();
}

#[test]
fn board_from_list_refuses_what_cannot_lie_together_display() {
    board_from_list_refuses_what_cannot_lie_together::<DisplayBoard>();
}

fn first_empty_cell_is_the_first_from_the_bound<B: Board>() {
    let all = full_board();
    for n in 0..=all.len() {
        let board = B::from_placed_piece_list(&all[..n]).unwrap();
        for lower_bound in 0..=255u8 {
            let expected = (lower_bound..50).find(|i| board.is_cell_empty(*i));
            let found = board.first_empty_cell(lower_bound);
            assert_eq!(found, expected);
            if let Some(cell) = found {
                assert!(cell >= lower_bound);
            }
        }
    }
    let full = B::from_placed_piece_list(&all).unwrap();
    assert_eq!(full.first_empty_cell(0), None);
}

#[test]
fn first_empty_cell_is_the_first_from_the_bound_binary() {
    first_empty_cell_is_the_first_from_the_bound::<BinaryBoard>();
}

#[test]
fn first_empty_cell_is_the_first_from_the_bound_display() {
    first_empty_cell_is_the_first_from_the_bound::<DisplayBoard>();
}

#[test]
fn first_empty_cell_passes_empty_cells_before_the_bound() {
    // Cell 8 is empty and cell 9 is not: from 9 on, the first empty cell is 10.
    let board = BinaryBoard::empty().with_piece(placed(Color::Green, Face::A, Orientation::Up, 9));
    assert!(board.is_cell_empty(8));
    assert!(!board.is_cell_empty(9));
    assert_eq!(board.first_empty_cell(9), Some(10));
    assert_eq!(board.get_first_unset_bit(9), 10);
    assert_eq!(board.get_first_unset_bit(8), 8);
    assert_eq!(board.get_first_unset_bit(50), 50);
    assert_eq!(board.get_first_unset_bit(200), 50);
}

#[test]
fn first_unset_bit_table_is_right() {
    for byte in 0..=255u8 {
        let expected = (0..8).find(|i| byte & (1 << i) == 0).unwrap_or(8);
        assert_eq!(FIRST_UNSET_BIT[byte as usize], expected);
    }
}

fn nothing_is_placed_past_the_edge<B: Board>() {
    let board = B::empty();
    for piece in every_piece() {
        let info = get_placement_info(piece);
        for top_left in 0..50u8 {
            let (row, col) = (top_left / 10, top_left % 10);
            let p = PlacedPiece { piece, top_left };
            if col + info.width_right > 9 || row + info.height > 4 || col < info.width_left {
                assert!(!board.can_place_piece(p));
            } else {
                assert!(board.can_place_piece(p));
            }
        }
        for top_left in 50..=255u8 {
            assert!(!board.can_place_piece(PlacedPiece { piece, top_left }));
        }
    }
}

#[test]
fn nothing_is_placed_past_the_edge_binary() {
    nothing_is_placed_past_the_edge::<BinaryBoard>();
}

#[test]
fn nothing_is_placed_past_the_edge_display() {
    nothing_is_placed_past_the_edge::<DisplayBoard>();
}

#[test]
fn the_two_boards_agree() {
    let all = full_board();
    for n in 0..=all.len() {
        let binary = BinaryBoard::from_placed_piece_list(&all[..n]).unwrap();
        let display = DisplayBoard::from_placed_piece_list(&all[..n]).unwrap();
        assert_eq!(occupied(&binary), occupied(&display));
        for piece in every_piece() {
            for top_left in 0..60u8 {
                let p = PlacedPiece { piece, top_left };
                assert_eq!(binary.can_place_piece(p), display.can_place_piece(p));
                if binary.can_place_piece(p) {
                    assert_eq!(
                        occupied(&binary.with_piece(p)),
                        occupied(&display.with_piece(p))
                    );
                }
            }
        }
    }
}

#[test]
fn display_board_keeps_the_colours() {
    let board = DisplayBoard::from_placed_piece_list(&full_board()).unwrap();
    for p in full_board() {
        for cell in cells_of(p) {
            assert_eq!(*board.cell_at(cell), Some(p.piece.color()));
        }
    }
    let board = DisplayBoard::empty();
    for cell in 0..50 {
        assert_eq!(*board.cell_at(cell), None);
    }
    // A piece laid later shows on its cells only.
    let red = placed(Color::Red, Face::A, Orientation::Down, 4);
    let board = DisplayBoard::empty()
        .with_piece(placed(Color::Pink, Face::A, Orientation::Right, 0))
        .with_piece(red);
    for cell in 0..50 {
        let expected = if cells_of(red).contains(&cell) {
            Some(Color::Red)
        } else if [0, 1, 2, 3, 12].contains(&cell) {
            Some(Color::Pink)
        } else {
            None
        };
        assert_eq!(*board.cell_at(cell), expected);
    }
}

#[test]
fn maybe_with_piece_places_what_can_be_placed() {
    let board = DisplayBoard::empty();
    let pink = placed(Color::Pink, Face::A, Orientation::Right, 22);
    let next = board.maybe_with_piece(pink);
    assert_eq!(next, Some(board.with_piece(pink)));
    let next = next.unwrap();
    assert_eq!(
        next.maybe_with_piece(placed(Color::Yellow, Face::B, Orientation::Up, 11)),
        None
    );
    assert_eq!(
        board.maybe_with_piece(placed(Color::Pink, Face::A, Orientation::Right, 7)),
        None
    );
}

fn place_piece_top_left_uses_the_first_empty_cell<B: Board>() {
    let mut board = B::empty();
    let pink = Piece::new()
        .with_color(Color::Pink)
        .with_face(Face::A)
        .with_orientation(Orientation::Right);
    assert!(board.place_piece_top_left(pink));
    assert_eq!(occupied(&board), vec![0, 1, 2, 3, 12]);
    // The next empty cell is 4; a piece that reaches to the left does not fit there.
    let red_left = Piece::new()
        .with_color(Color::Red)
        .with_face(Face::A)
        .with_orientation(Orientation::Left);
    assert!(!board.place_piece_top_left(red_left));
    assert_eq!(occupied(&board), vec![0, 1, 2, 3, 12]);
    let red_down = Piece::new()
        .with_color(Color::Red)
        .with_face(Face::A)
        .with_orientation(Orientation::Down);
    assert!(board.place_piece_top_left(red_down));
    assert_eq!(occupied(&board), vec![0, 1, 2, 3, 4, 5, 12, 15, 25, 35]);
    // On a full board nothing is placed.
    let mut full = B::from_placed_piece_list(&full_board()).unwrap();
    assert!(!full.place_piece_top_left(pink));
    assert_eq!(full.first_empty_cell(0), None);
}

#[test]
fn place_piece_top_left_uses_the_first_empty_cell_binary() {
    place_piece_top_left_uses_the_first_empty_cell::<BinaryBoard>();
}

#[test]
fn place_piece_top_left_uses_the_first_empty_cell_display() {
    place_piece_top_left_uses_the_first_empty_cell::<DisplayBoard>();
}

fn from_piece_list_places_each_on_the_first_empty_cell<B: Board>() {
    // The pieces of puzzle 49's solution, in the order of their anchors.
    let pieces: Vec<Piece> = full_board().iter().map(|p| p.piece).collect();
    let board = B::from_piece_list(&pieces).unwrap();
    assert_eq!(board.first_empty_cell(0), None);
    for n in 0..=pieces.len() {
        let board = B::from_piece_list(&pieces[..n]).unwrap();
        let same = B::from_placed_piece_list(&full_board()[..n]).unwrap();
        assert_eq!(occupied(&board), occupied(&same));
    }
    // A piece that does not fit on the first empty cell stops the list: the third of
    // three pieces four cells wide would have to start in column 8.
    assert!(B::from_piece_list(&[pieces[0], pieces[0]]).is_some());
    assert!(B::from_piece_list(&[pieces[0], pieces[0], pieces[0]]).is_none());
    assert!(B::from_piece_list(&[]).is_some());
}

#[test]
fn from_piece_list_places_each_on_the_first_empty_cell_binary() {
    from_piece_list_places_each_on_the_first_empty_cell::<BinaryBoard>();
}

#[test]
fn from_piece_list_places_each_on_the_first_empty_cell_display() {
    from_piece_list_places_each_on_the_first_empty_cell::<DisplayBoard>();
}

#[test]
fn pieces_of_every_colour_and_orientation_can_be_placed_somewhere() {
    for color in COLORS.iter() {
        for o in ORIENTATIONS.iter() {
            for f in [Face::A, Face::B] {
                let any = (0..50u8).any(|a| BinaryBoard::empty().can_place_piece(placed(*color, f,
                    *o, a)));
                assert!(any);
            }
        }
    }
}
