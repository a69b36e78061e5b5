use iqfit_solver::board::{BinaryBoard, Board, DisplayBoard};
use iqfit_solver::pieces::{Color, Face, Orientation, Piece, PlacedPiece};
use iqfit_solver::puzzles::{pieces_117, pieces_49};
use iqfit_solver::solve;
use iqfit_solver::solver::{
    is_valid_seed, solve_impl, solve_rec, solve_with_counter, ColorSet, IterationCounter,
    NoOpIterationCounter, SimpleIterationCounter, TenPieceFacePolicy, MAX_ITERATIONS,
};

fn placed(color: Color, face: Face, orientation: Orientation, top_left: u8) -> PlacedPiece {
    PlacedPiece {
        piece: Piece::new()
            .with_color(color)
            .with_face(face)
            .with_orientation(orientation),
        top_left,
    }
}

/// Nine pieces that leave four cells for the light green piece, face A up, turned right.
fn all_but_light_green() -> Vec<PlacedPiece> {
    vec![
        placed(Color::Blue, Face::B, Orientation::Left, 36),
        placed(Color::Red, Face::A, Orientation::Left, 35),
        placed(Color::Green, Face::B, Orientation::Right, 30),
        placed(Color::Purple, Face::A, Orientation::Right, 21),
        placed(Color::DeepBlue, Face::A, Orientation::Down, 17),
        placed(Color::LightBlue, Face::B, Orientation::Down, 9),
        placed(Color::Pink, Face::B, Orientation::Right, 5),
        placed(Color::Orange, Face::A, Orientation::Up, 4),
        placed(Color::Yellow, Face::A, Orientation::Right, 0),
    ]
}

/// Whether the pieces are a full board of the ten pieces that ends with the seed.
fn is_full_board_from(pieces: &[PlacedPiece], seed: &[PlacedPiece]) -> bool {
    let board = DisplayBoard::from_placed_piece_list(pieces);
    let each_colour_once = (0..10u8).all(|c| {
        pieces
            .iter()
            .filter(|p| p.piece.color().to_index() == c)
            .count()
            == 1
    });
    let faces_a = pieces.iter().filter(|p| p.piece.face() == Face::A).count();
    pieces.len() == 10
        && each_colour_once
        && faces_a == 6
        && board.is_some()
        && board.unwrap().first_empty_cell(0).is_none()
        && (0..50u8).all(|i| !board.unwrap().is_cell_empty(i))
        && pieces.ends_with(seed)
}

#[test]
fn puzzle_49_is_solved() {
    let seed = pieces_49();
    let found = solve::<BinaryBoard>(&seed).unwrap();
    assert!(is_full_board_from(&found, &seed));
    assert_eq!(
        found,
        vec![
            placed(Color::Orange, Face::B, Orientation::Left, 37),
            placed(Color::Purple, Face::B, Orientation::Left, 31),
            placed(Color::DeepBlue, Face::A, Orientation::Down, 13),
            placed(Color::LightGreen, Face::B, Orientation::Right, 7),
            placed(Color::LightBlue, Face::A, Orientation::Up, 6),
            placed(Color::Red, Face::A, Orientation::Down, 4),
            placed(Color::Pink, Face::A, Orientation::Right, 0),
            placed(Color::Yellow, Face::B, Orientation::Up, 10),
            placed(Color::Blue, Face::A, Orientation::Up, 14),
            placed(Color::Green, Face::A, Orientation::Up, 18),
        ]
    );
}

#[test]
fn puzzle_117_is_solved() {
    let seed = pieces_117();
    let found = solve::<BinaryBoard>(&seed).unwrap();
    assert!(is_full_board_from(&found, &seed));
    assert_eq!(
        found,
        vec![
            placed(Color::Yellow, Face::A, Orientation::Left, 36),
            placed(Color::LightGreen, Face::A, Orientation::Left, 32),
            placed(Color::Orange, Face::B, Orientation::Right, 25),
            placed(Color::Pink, Face::A, Orientation::Right, 21),
            placed(Color::Red, Face::B, Orientation::Down, 8),
            placed(Color::Green, Face::A, Orientation::Left, 7),
            placed(Color::Purple, Face::B, Orientation::Left, 1),
            placed(Color::Blue, Face::A, Orientation::Up, 0),
            placed(Color::LightBlue, Face::B, Orientation::Right, 3),
            placed(Color::DeepBlue, Face::A, Orientation::Left, 34),
        ]
    );
}

#[test]
fn solving_twice_gives_the_same() {
    let seed = pieces_49();
    assert_eq!(solve::<BinaryBoard>(&seed), solve::<BinaryBoard>(&seed));
    assert_eq!(solve::<DisplayBoard>(&seed), solve::<DisplayBoard>(&seed));
    assert_eq!(
        solve_with_counter::<BinaryBoard>(&seed),
        solve_with_counter::<BinaryBoard>(&seed)
    );
    let seed = pieces_117();
    assert_eq!(
        solve_with_counter::<BinaryBoard>(&seed),
        solve_with_counter::<BinaryBoard>(&seed)
    );
}

#[test]
fn both_boards_solve_the_puzzles_alike() {
    let seed = pieces_49();
    assert_eq!(solve::<BinaryBoard>(&seed), solve::<DisplayBoard>(&seed));
    let seed = pieces_117();
    assert_eq!(solve::<BinaryBoard>(&seed), solve::<DisplayBoard>(&seed));
}

#[test]
fn counting_changes_nothing() {
    let seed = pieces_49();
    assert_eq!(
        solve_with_counter::<BinaryBoard>(&seed).0,
        solve::<BinaryBoard>(&seed)
    );
    assert_eq!(
        solve_with_counter::<DisplayBoard>(&seed).0,
        solve::<DisplayBoard>(&seed)
    );
}

#[test]
fn a_cell_board_tries_more_placements() {
    assert_eq!(solve_with_counter::<DisplayBoard>(&pieces_49()).1, 787);
    assert_eq!(solve_with_counter::<DisplayBoard>(&pieces_117()).1, 2930368);
}

#[test]
fn the_empty_board_is_solved() {
    let (found, tried) = solve_with_counter::<BinaryBoard>(&[]);
    let found = found.unwrap();
    assert!(is_full_board_from(&found, &[]));
    assert_eq!(found[9], placed(Color::Yellow, Face::A, Orientation::Up, 0));
    assert_eq!(found[0], placed(Color::Pink, Face::B, Orientation::Left, 38));
    assert_eq!(tried, 782310);
}

#[test]
fn a_full_board_needs_no_search() {
    let seed = solve::<BinaryBoard>(&pieces_49()).unwrap();
    assert!(is_valid_seed::<BinaryBoard>(&seed));
    assert_eq!(solve_with_counter::<BinaryBoard>(&seed), (Some(seed.clone()), 0));
    assert_eq!(solve_with_counter::<DisplayBoard>(&seed), (Some(seed.clone()), 0));
}

#[test]
fn a_walled_in_cell_cannot_be_filled() {
    // The orange piece leaves cell 0 with a ball after it and a ball below it.
    let seed = [placed(Color::Orange, Face::A, Orientation::Down, 1)];
    assert!(is_valid_seed::<DisplayBoard>(&seed));
    // A cell board gives up at once.
    assert_eq!(solve_with_counter::<DisplayBoard>(&seed), (None, 0));
    // A bit board sees no pocket in the top row, and tries each of the nine colours that
    // are left, with either face and in each orientation.
    assert_eq!(solve_with_counter::<BinaryBoard>(&seed), (None, 72));
}

#[test]
fn the_last_piece_is_found_by_a_cell_board() {
    let seed = all_but_light_green();
    assert!(is_valid_seed::<DisplayBoard>(&seed));
    let (found, tried) = solve_with_counter::<DisplayBoard>(&seed);
    let found = found.unwrap();
    assert!(is_full_board_from(&found, &seed));
    assert_eq!(found[0], placed(Color::LightGreen, Face::A, Orientation::Right, 10));
    assert_eq!(tried, 2);
}

#[test]
fn three_free_cells_in_a_row_with_a_free_cell_below_are_no_pocket() {
    // Cells 10, 11, 12 and 20 are free: three in a row with walls around them, but for
    // the cell below the first. The light green piece fits there.
    let seed = all_but_light_green();
    let board = BinaryBoard::from_placed_piece_list(&seed).unwrap();
    assert_eq!(board.first_empty_cell(0), Some(10));
    assert!(board.is_cell_empty(11) && board.is_cell_empty(12) && board.is_cell_empty(20));
    assert!(!board.is_cell_empty(19) && !board.is_cell_empty(21) && !board.is_cell_empty(22));
    assert!(!board.check_common_failures(10));
    assert!(board.can_place_piece(placed(Color::LightGreen, Face::A, Orientation::Right, 10)));
    let (found, tried) = solve_with_counter::<BinaryBoard>(&seed);
    let found = found.unwrap();
    assert!(is_full_board_from(&found, &seed));
    assert_eq!(found[0], placed(Color::LightGreen, Face::A, Orientation::Right, 10));
    assert_eq!(tried, 2);
    let display = DisplayBoard::from_placed_piece_list(&seed).unwrap();
    assert!(!display.check_common_failures(10));
}

#[test]
fn what_one_board_solves_the_other_solves() {
    let mut seed = all_but_light_green();
    while !seed.is_empty() {
        assert!(is_valid_seed::<BinaryBoard>(&seed));
        let by_bits = solve::<BinaryBoard>(&seed);
        let by_cells = solve::<DisplayBoard>(&seed);
        assert!(by_bits.is_some());
        assert_eq!(by_bits, by_cells);
        seed.pop();
        seed.pop();
        seed.pop();
    }
}

#[test]
fn a_seed_with_a_colour_twice_is_no_seed() {
    let seed = [
        placed(Color::Yellow, Face::B, Orientation::Up, 10),
        placed(Color::Yellow, Face::A, Orientation::Up, 14),
    ];
    assert!(BinaryBoard::from_placed_piece_list(&seed).is_some());
    assert!(!is_valid_seed::<BinaryBoard>(&seed));
    assert!(!is_valid_seed::<DisplayBoard>(&seed));
}

#[test]
fn a_seed_that_overlaps_or_leaves_the_grid_is_no_seed() {
    let overlapping = [
        placed(Color::Pink, Face::A, Orientation::Right, 22),
        placed(Color::Yellow, Face::B, Orientation::Up, 11),
    ];
    assert!(!is_valid_seed::<BinaryBoard>(&overlapping));
    assert!(!is_valid_seed::<DisplayBoard>(&overlapping));
    let off_grid = [placed(Color::Pink, Face::A, Orientation::Right, 7)];
    assert!(!is_valid_seed::<BinaryBoard>(&off_grid));
    assert!(!is_valid_seed::<DisplayBoard>(&off_grid));
    let past_the_end = [placed(Color::Pink, Face::A, Orientation::Right, 200)];
    assert!(!is_valid_seed::<BinaryBoard>(&past_the_end));
}

#[test]
fn the_puzzles_and_the_empty_seed_are_seeds() {
    assert!(is_valid_seed::<BinaryBoard>(&[]));
    assert!(is_valid_seed::<DisplayBoard>(&[]));
    assert!(is_valid_seed::<DisplayBoard>(&pieces_49()));
    assert!(is_valid_seed::<DisplayBoard>(&pieces_117()));
}

#[test]
fn the_puzzles_are_as_in_the_booklet() {
    assert_eq!(
        pieces_49(),
        [
            placed(Color::Yellow, Face::B, Orientation::Up, 10),
            placed(Color::Blue, Face::A, Orientation::Up, 14),
            placed(Color::Green, Face::A, Orientation::Up, 18),
        ]
    );
    assert_eq!(
        pieces_117(),
        [
            placed(Color::LightBlue, Face::B, Orientation::Right, 3),
            placed(Color::DeepBlue, Face::A, Orientation::Left, 34),
        ]
    );
}

#[test]
fn solve_impl_counts_with_the_counter_it_is_given() {
    let seed = pieces_49();
    let mut counter = SimpleIterationCounter(1000);
    let found = solve_impl::<BinaryBoard, SimpleIterationCounter>(&seed, &mut counter);
    assert_eq!(found, solve::<BinaryBoard>(&seed));
    assert_eq!(counter.get(), 1471);
    let mut no_op = NoOpIterationCounter {};
    let found = solve_impl::<BinaryBoard, NoOpIterationCounter>(&seed, &mut no_op);
    assert_eq!(found, solve::<BinaryBoard>(&seed));
    assert_eq!(no_op.get(), 0);
}

#[test]
fn solve_rec_fills_what_is_left() {
    // The board of puzzle 49 with the first piece of its solution on it.
    let mut laid = pieces_49().to_vec();
    laid.push(placed(Color::Pink, Face::A, Orientation::Right, 0));
    let board = BinaryBoard::from_placed_piece_list(&laid).unwrap();
    let colors = ColorSet::full()
        .without_color(Color::Yellow)
        .without_color(Color::Blue)
        .without_color(Color::Green)
        .without_color(Color::Pink);
    let faces = TenPieceFacePolicy::from_placed_pieces(&laid);
    let mut counter = SimpleIterationCounter(0);
    let found = solve_rec(board, colors, 1, faces, &mut counter).unwrap();
    let whole = solve::<BinaryBoard>(&pieces_49()).unwrap();
    assert_eq!(found[..], whole[..6]);
    assert!(counter.get() < 471);
    // From a bound past the last cell there is nothing to do.
    let mut counter = SimpleIterationCounter(0);
    assert_eq!(
        solve_rec(BinaryBoard::empty(), ColorSet::full(), 50, faces, &mut counter),
        Some(vec![])
    );
    assert_eq!(counter.get(), 0);
}

#[test]
fn counters_count() {
    let mut counter = SimpleIterationCounter(0);
    assert_eq!(counter.get(), 0);
    counter.increment();
    counter.increment();
    assert_eq!(counter.get(), 2);
    // The counter counts up to the most that a search may try.
    assert_eq!(MAX_ITERATIONS, 5_000_000);
    let mut last = SimpleIterationCounter(MAX_ITERATIONS - 2);
    last.increment();
    assert_eq!(last.get(), MAX_ITERATIONS - 1);
    last.increment();
    assert_eq!(last.get(), MAX_ITERATIONS);
    let mut no_op = NoOpIterationCounter {};
    no_op.increment();
    assert_eq!(no_op.get(), 0);
}

#[test]
fn color_set_loses_colours_one_by_one() {
    let mut set = ColorSet::full();
    for c in 0..10u8 {
        let color = Color::from_index(c);
        assert!(set.contains(color));
        assert!(set.remove(color));
        assert!(!set.contains(color));
        assert!(!set.remove(color));
        assert_eq!(set.0, 0xffff << (c + 1));
    }
    assert_eq!(set.0, 0b1111110000000000);
    let set = ColorSet::full().without_color(Color::Purple).without_color(Color::Yellow);
    assert_eq!(set.0, 0b1111110111111110);
    assert_eq!(set.without_color(Color::Purple).0, set.0);
}

#[test]
fn face_quota_is_six_and_four() {
    let none = TenPieceFacePolicy::from_placed_pieces(&[]);
    assert_eq!((none.num_face_a, none.num_face_b), (0, 0));
    assert!(none.can_add_face(Face::A));
    assert!(none.can_add_face(Face::B));
    let mut counts = none;
    for n in 0..6u8 {
        assert_eq!(counts.num_face_a, n);
        assert!(counts.can_add_face(Face::A));
        counts = counts.with_face(Face::A);
    }
    assert!(!counts.can_add_face(Face::A));
    assert!(counts.can_add_face(Face::B));
    for n in 0..4u8 {
        assert_eq!(counts.num_face_b, n);
        assert!(counts.can_add_face(Face::B));
        counts = counts.with_face(Face::B);
    }
    assert!(!counts.can_add_face(Face::B));
    assert_eq!((counts.num_face_a, counts.num_face_b), (6, 4));
    // Past the quota no face is added either.
    let over = TenPieceFacePolicy { num_face_a: 7, num_face_b: 5 };
    assert!(!over.can_add_face(Face::A));
    assert!(!over.can_add_face(Face::B));
    let most = TenPieceFacePolicy { num_face_a: 255, num_face_b: 255 };
    assert!(!most.can_add_face(Face::A));
    assert!(!most.can_add_face(Face::B));
    let nearly = TenPieceFacePolicy { num_face_a: 5, num_face_b: 3 };
    assert!(nearly.can_add_face(Face::A));
    assert!(nearly.can_add_face(Face::B));
    let of_49 = TenPieceFacePolicy::from_placed_pieces(&pieces_49());
    assert_eq!((of_49.num_face_a, of_49.num_face_b), (2, 1));
    let whole = solve::<BinaryBoard>(&pieces_117()).unwrap();
    let of_whole = TenPieceFacePolicy::from_placed_pieces(&whole);
    assert_eq!((of_whole.num_face_a, of_whole.num_face_b), (6, 4));
}
