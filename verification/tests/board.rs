use iqfit_solver::board::{get_placement_info, Board, DisplayBoard, DisplayBoardPlacementInfo};
use iqfit_solver::pieces::{Color, Face, Orientation, Piece, PlacedPiece};

#[test]
fn pink_display_info() {
    let info = get_placement_info(
        Piece::new()
            .with_color(Color::Pink)
            .with_face(Face::A)
            .with_orientation(Orientation::Right),
    );
    assert_eq!(
        info,
        DisplayBoardPlacementInfo {
            height: 1,
            width_right: 3,
            width_left: 0,
            num_balls: 5,
            balls: [0, 1, 2, 3, 12, 0],
            as_binary: 0b1000000001111,
        }
    );
}

#[test]
fn fail_place_piece() {
    let board = DisplayBoard::empty();
    // Too far right.
    assert!(!board.can_place_piece(PlacedPiece {
        piece: Piece::new()
            .with_color(Color::Pink)
            .with_face(Face::A)
            .with_orientation(Orientation::Right),
        top_left: 7,
    }));
    // Too low.
    assert!(!board.can_place_piece(PlacedPiece {
        piece: Piece::new()
            .with_color(Color::Pink)
            .with_face(Face::A)
            .with_orientation(Orientation::Right),
        top_left: 42,
    }));
    // Too far left.
    assert!(!board.can_place_piece(PlacedPiece {
        piece: Piece::new()
            .with_color(Color::Pink)
            .with_face(Face::A)
            .with_orientation(Orientation::Left),
        top_left: 20,
    }));

    assert_eq!(board, DisplayBoard::empty());
}

#[test]
fn fail_place_piece_intersect() {
    let mut board = DisplayBoard::empty();
    let pink_piece = PlacedPiece {
        piece: Piece::new()
            .with_color(Color::Pink)
            .with_face(Face::A)
            .with_orientation(Orientation::Right),
        top_left: 22,
    };
    assert!(board.can_place_piece(pink_piece));
    board = board.with_piece(pink_piece);
    // Intersects.
    assert!(!board.can_place_piece(PlacedPiece {
        piece: Piece::new()
            .with_color(Color::Yellow)
            .with_face(Face::B)
            .with_orientation(Orientation::Up),
        top_left: 11,
    }));

    // Intersects.
    assert!(!board.can_place_piece(PlacedPiece {
        piece: Piece::new()
            .with_color(Color::Yellow)
            .with_face(Face::B)
            .with_orientation(Orientation::Up),
        top_left: 4,
    }));

    // Doesn't intersect.
    assert!(board.can_place_piece(PlacedPiece {
        piece: Piece::new()
            .with_color(Color::Yellow)
            .with_face(Face::B)
            .with_orientation(Orientation::Up),
        top_left: 0,
    }));
}

#[test]
fn success_fill_board() {
    let mut board = DisplayBoard::empty();
    // Solution 49.
    let pieces = vec![
        PlacedPiece {
            piece: Piece::new()
                .with_color(Color::Pink)
                .with_face(Face::A)
                .with_orientation(Orientation::Right),
            top_left: 0,
        },
        PlacedPiece {
            piece: Piece::new()
                .with_color(Color::Red)
                .with_face(Face::A)
                .with_orientation(Orientation::Down),
            top_left: 4,
        },
        PlacedPiece {
            piece: Piece::new()
                .with_color(Color::LightBlue)
                .with_face(Face::A)
                .with_orientation(Orientation::Up),
            top_left: 6,
        },
        PlacedPiece {
            piece: Piece::new()
                .with_color(Color::LightGreen)
                .with_face(Face::B)
                .with_orientation(Orientation::Right),
            top_left: 7,
        },
        PlacedPiece {
            piece: Piece::new()
                .with_color(Color::Yellow)
                .with_face(Face::B)
                .with_orientation(Orientation::Up),
            top_left: 10,
        },
        PlacedPiece {
            piece: Piece::new()
                .with_color(Color::DeepBlue)
                .with_face(Face::A)
                .with_orientation(Orientation::Down),
            top_left: 13,
        },
        PlacedPiece {
            piece: Piece::new()
                .with_color(Color::Blue)
                .with_face(Face::A)
                .with_orientation(Orientation::Up),
            top_left: 14,
        },
        PlacedPiece {
            piece: Piece::new()
                .with_color(Color::Green)
                .with_face(Face::A)
                .with_orientation(Orientation::Up),
            top_left: 18,
        },
        PlacedPiece {
            piece: Piece::new()
                .with_color(Color::Purple)
                .with_face(Face::B)
                .with_orientation(Orientation::Left),
            top_left: 31,
        },
        PlacedPiece {
            piece: Piece::new()
                .with_color(Color::Orange)
                .with_face(Face::B)
                .with_orientation(Orientation::Left),
            top_left: 37,
        },
    ];
    for p in pieces.iter() {
        assert!(board.can_place_piece(*p));
        board = board.with_piece(*p);
    }
    let new_board = DisplayBoard::from_placed_piece_list(&pieces);
    assert!(new_board.is_some());
    assert_eq!(board, new_board.unwrap());
}
