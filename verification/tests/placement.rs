use iqfit_solver::board::{get_placement_info, is_valid_piece_placement};
use iqfit_solver::pieces::{Color, Face, Orientation, Piece, PlacedPiece};

const COLORS: [Color; 10] = [
    Color::Yellow,
    Color::Orange,
    Color::Red,
    Color::Pink,
    Color::LightGreen,
    Color::Green,
    Color::LightBlue,
    Color::Blue,
    Color::DeepBlue,
    Color::Purple,
];

const ORIENTATIONS: [Orientation; 4] = [
    Orientation::Up,
    Orientation::Right,
    Orientation::Down,
    Orientation::Left,
];

fn piece(color: Color, face: Face, orientation: Orientation) -> Piece {
    Piece::new()
        .with_color(color)
        .with_face(face)
        .with_orientation(orientation)
}

/// The balls of a piece as rows and columns from the anchor, in reading order.
fn balls_of(p: Piece) -> Vec<(i32, i32)> {
    let info = get_placement_info(p);
    info.balls[..info.num_balls as usize]
        .iter()
        .map(|b| {
            let row = (*b as i32 + 3) / 10;
            (row, *b as i32 - 10 * row)
        })
        .collect()
}

/// A quarter turn to the right, then the first ball in reading order moved to the origin.
fn quarter_turn(balls: &[(i32, i32)]) -> Vec<(i32, i32)> {
    let mut turned: Vec<(i32, i32)> = balls.iter().map(|(r, c)| (*c, -*r)).collect();
    turned.sort();
    let first = turned[0];
    turned.iter().map(|(r, c)| (r - first.0, c - first.1)).collect()
}

#[test]
fn four_orientations_have_the_same_ball_count() {
    let face_a_counts = [5, 5, 5, 5, 4, 4, 5, 5, 4, 4];
    for (ci, color) in COLORS.iter().enumerate() {
        for o in ORIENTATIONS.iter() {
            assert_eq!(
                get_placement_info(piece(*color, Face::A, *o)).num_balls,
                face_a_counts[ci]
            );
            assert_eq!(
                get_placement_info(piece(*color, Face::B, *o)).num_balls,
                face_a_counts[ci] + 1
            );
        }
    }
}

#[test]
fn each_orientation_is_the_one_before_turned() {
    for color in COLORS.iter() {
        for face in [Face::A, Face::B].iter() {
            for k in 0..4 {
                let here = balls_of(piece(*color, *face, ORIENTATIONS[k]));
                let next = balls_of(piece(*color, *face, ORIENTATIONS[(k + 1) % 4]));
                assert_eq!(quarter_turn(&here), next);
            }
        }
    }
}

#[test]
fn four_quarter_turns_give_the_balls_back() {
    for color in COLORS.iter() {
        for face in [Face::A, Face::B].iter() {
            for o in ORIENTATIONS.iter() {
                let balls = balls_of(piece(*color, *face, *o));
                let turned = quarter_turn(&quarter_turn(&quarter_turn(&quarter_turn(&balls))));
                assert_eq!(turned, balls);
            }
        }
    }
}

#[test]
fn upright_pieces_are_spine_and_extras() {
    assert_eq!(
        balls_of(piece(Color::Yellow, Face::A, Orientation::Up)),
        vec![(0, 0), (0, 1), (1, 0), (2, 0), (3, 0)]
    );
    assert_eq!(
        balls_of(piece(Color::Yellow, Face::B, Orientation::Up)),
        vec![(0, 0), (0, 1), (1, 0), (1, 1), (2, 0), (3, 0)]
    );
    assert_eq!(
        balls_of(piece(Color::Purple, Face::A, Orientation::Up)),
        vec![(0, 0), (0, 1), (1, 0), (2, 0)]
    );
    assert_eq!(
        balls_of(piece(Color::Red, Face::B, Orientation::Up)),
        vec![(0, 0), (0, 1), (1, 0), (2, 0), (3, 0), (3, 1)]
    );
    assert_eq!(
        balls_of(piece(Color::Green, Face::B, Orientation::Up)),
        vec![(0, 0), (1, 0), (1, 1), (2, 0), (2, 1)]
    );
}

#[test]
fn some_turned_pieces() {
    let info = get_placement_info(piece(Color::Orange, Face::A, Orientation::Left));
    assert_eq!(info.balls, [0, 8, 9, 10, 11, 0]);
    assert_eq!(info.width_left, 2);
    assert_eq!(info.width_right, 1);
    assert_eq!(info.height, 1);
    assert_eq!(info.as_binary, 0xf01);
    let info = get_placement_info(piece(Color::Blue, Face::B, Orientation::Down));
    assert_eq!(info.balls, [0, 9, 10, 20, 29, 30]);
    assert_eq!(info.width_left, 1);
    assert_eq!(info.width_right, 0);
    assert_eq!(info.height, 3);
    assert_eq!(info.num_balls, 6);
    let info = get_placement_info(piece(Color::LightGreen, Face::A, Orientation::Right));
    assert_eq!(info.balls, [0, 1, 2, 10, 0, 0]);
    assert_eq!(info.num_balls, 4);
    assert_eq!(info.as_binary, 0b100_0000_0111);
}

#[test]
fn placement_data_is_consistent() {
    for color in COLORS.iter() {
        for face in [Face::A, Face::B].iter() {
            for o in ORIENTATIONS.iter() {
                let p = piece(*color, *face, *o);
                let info = get_placement_info(p);
                let n = info.num_balls as usize;
                assert!((4..=6).contains(&n));
                // The anchor comes first, the others follow in reading order.
                assert_eq!(info.balls[0], 0);
                for i in 1..n {
                    assert!(info.balls[i - 1] < info.balls[i]);
                }
                for i in n..6 {
                    assert_eq!(info.balls[i], 0);
                }
                // One bit for each ball.
                let mut mask = 0u64;
                for b in info.balls[..n].iter() {
                    mask |= 1 << b;
                }
                assert_eq!(info.as_binary, mask);
                assert_eq!(info.as_binary.count_ones() as usize, n);
                // The extent is that of the balls.
                let balls = balls_of(p);
                assert_eq!(
                    info.height as i32,
                    balls.iter().map(|b| b.0).max().unwrap()
                );
                assert_eq!(
                    info.width_right as i32,
                    balls.iter().map(|b| b.1).max().unwrap()
                );
                assert_eq!(
                    -(info.width_left as i32),
                    balls.iter().map(|b| b.1).min().unwrap()
                );
                // Asking again gives the same.
                assert_eq!(get_placement_info(p), info);
            }
        }
    }
}

#[test]
fn pieces_are_in_one_piece() {
    // Every ball but the anchor touches a ball that comes before it in reading order or
    // lies beside it in its row.
    for color in COLORS.iter() {
        for face in [Face::A, Face::B].iter() {
            for o in ORIENTATIONS.iter() {
                let balls = balls_of(piece(*color, *face, *o));
                let mut reached = vec![balls[0]];
                let mut grew = true;
                while grew {
                    grew = false;
                    for b in balls.iter() {
                        if !reached.contains(b)
                            && reached
                                .iter()
                                .any(|r| (r.0 - b.0).abs() + (r.1 - b.1).abs() == 1)
                        {
                            reached.push(*b);
                            grew = true;
                        }
                    }
                }
                assert_eq!(reached.len(), balls.len());
            }
        }
    }
}

#[test]
fn valid_placement_is_the_bounding_box_on_the_grid() {
    for color in COLORS.iter() {
        for face in [Face::A, Face::B].iter() {
            for o in ORIENTATIONS.iter() {
                let p = piece(*color, *face, *o);
                let info = get_placement_info(p);
                let balls = balls_of(p);
                for top_left in 0..=255u8 {
                    let placed = PlacedPiece { piece: p, top_left };
                    let (row, col) = (top_left as i32 / 10, top_left as i32 % 10);
                    let on_grid = top_left < 50
                        && balls.iter().all(|(dr, dc)| {
                            (0..5).contains(&(row + dr)) && (0..10).contains(&(col + dc))
                        });
                    assert_eq!(is_valid_piece_placement(placed, &info), on_grid);
                }
            }
        }
    }
}
