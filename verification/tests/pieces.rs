use iqfit_solver::pieces::{Color, Face, Orientation, Piece, PlacedPiece};

const COLORS: [Color; 10] = [
    Color::Yellow,
    Color::Orange,
    Color::Red,
    Color::Pink,
    Color::LightGreen,
    Color::Green,
    Color::LightBlue,
    Color::Blue,
    Color::DeepBlue,
    Color::Purple,
];

#[test]
fn new_piece_is_yellow_a_up() {
    let p = Piece::new();
    assert_eq!(p.color(), Color::Yellow);
    assert_eq!(p.face(), Face::A);
    assert_eq!(p.orientation(), Orientation::Up);
    assert_eq!(p.as_byte(), 0);
}

#[test]
fn as_byte_packs_orientation_face_color() {
    let pink = Piece::new()
        .with_color(Color::Pink)
        .with_face(Face::A)
        .with_orientation(Orientation::Right);
    assert_eq!(pink.as_byte(), 0b0011_0_01);
    let purple = Piece::new()
        .with_color(Color::Purple)
        .with_face(Face::B)
        .with_orientation(Orientation::Left);
    assert_eq!(purple.as_byte(), 0b1001_1_11);
    assert_eq!(purple.as_byte(), 79);
    let yellow_b = Piece::new().with_face(Face::B);
    assert_eq!(yellow_b.as_byte(), 4);
    let orange = Piece::new().with_color(Color::Orange);
    assert_eq!(orange.as_byte(), 8);
    let down = Piece::new().with_orientation(Orientation::Down);
    assert_eq!(down.as_byte(), 2);
}

#[test]
fn byte_and_piece_round_trip() {
    let mut seen = [false; 80];
    for (ci, color) in COLORS.iter().enumerate() {
        for (fi, face) in [Face::A, Face::B].iter().enumerate() {
            for (oi, orientation) in [
                Orientation::Up,
                Orientation::Right,
                Orientation::Down,
                Orientation::Left,
            ]
            .iter()
            .enumerate()
            {
                let p = Piece::new()
                    .with_color(*color)
                    .with_face(*face)
                    .with_orientation(*orientation);
                let b = p.as_byte();
                assert_eq!(b as usize, ci * 8 + fi * 4 + oi);
                assert!(!seen[b as usize]);
                seen[b as usize] = true;
                assert_eq!(Piece::from_byte(b), Some(p));
            }
        }
    }
    assert!(seen.iter().all(|s| *s));
    for b in 0..80u8 {
        assert_eq!(Piece::from_byte(b).unwrap().as_byte(), b);
    }
}

#[test]
fn bytes_from_80_on_name_no_piece() {
    for b in 80..=255u8 {
        assert_eq!(Piece::from_byte(b), None);
    }
}

#[test]
fn setters_change_one_field() {
    let mut p = Piece::new();
    p.set_color(Color::Green);
    assert_eq!(p, Piece::new().with_color(Color::Green));
    p.set_face(Face::B);
    assert_eq!(p, Piece::new().with_color(Color::Green).with_face(Face::B));
    p.set_orientation(Orientation::Left);
    assert_eq!(p.color(), Color::Green);
    assert_eq!(p.face(), Face::B);
    assert_eq!(p.orientation(), Orientation::Left);
}

#[test]
fn color_indices_follow_the_list() {
    for (i, c) in COLORS.iter().enumerate() {
        assert_eq!(c.to_index() as usize, i);
        assert_eq!(*c as usize, i);
        assert_eq!(Color::from_index(i as u8), *c);
    }
}

#[test]
fn top_left_coords_are_row_and_column() {
    let at = |top_left: u8| PlacedPiece { piece: Piece::new(), top_left }.top_left_coords();
    assert_eq!(at(0), (0, 0));
    assert_eq!(at(9), (0, 9));
    assert_eq!(at(10), (1, 0));
    assert_eq!(at(37), (3, 7));
    assert_eq!(at(49), (4, 9));
}
