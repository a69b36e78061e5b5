//! Two puzzles of the booklet.
use vstd::prelude::*;
use crate::board::lie_together;
use crate::pieces::{Color, Face, Orientation, Piece, PlacedPiece};
use crate::shapes::{has_ball, lemma_anchor};
use crate::solver::seed::valid_seed;

verus! {

/// The pieces that puzzle 49 of the booklet starts from.
pub open spec fn puzzle_49() -> Seq<PlacedPiece> {
    seq![
        PlacedPiece {
            piece: Piece { orientation: Orientation::Up, face: Face::B, color: Color::Yellow },
            top_left: 10,
        },
        PlacedPiece {
            piece: Piece { orientation: Orientation::Up, face: Face::A, color: Color::Blue },
            top_left: 14,
        },
        PlacedPiece {
            piece: Piece { orientation: Orientation::Up, face: Face::A, color: Color::Green },
            top_left: 18,
        },
    ]
}

/// The pieces that puzzle 117 of the booklet starts from.
pub open spec fn puzzle_117() -> Seq<PlacedPiece> {
    seq![
        PlacedPiece {
            piece: Piece { orientation: Orientation::Right, face: Face::B,
                color: Color::LightBlue },
            top_left: 3,
        },
        PlacedPiece {
            piece: Piece { orientation: Orientation::Left, face: Face::A, color: Color::DeepBlue },
            top_left: 34,
        },
    ]
}

/// The pieces of both puzzles can be laid on the board to start from.
pub proof fn lemma_puzzles_are_seeds()
    ensures
        valid_seed(puzzle_49()),
        valid_seed(puzzle_117()),
{
    reveal(valid_seed);
    reveal(has_ball);
    let a = puzzle_49();
    lemma_anchor(a[0].piece);
    lemma_anchor(a[1].piece);
    lemma_anchor(a[2].piece);
    assert(a[0].on_grid() && a[1].on_grid() && a[2].on_grid());
    assert(a[0].cells().disjoint(a[1].cells()));
    assert(a[0].cells().disjoint(a[2].cells()));
    assert(a[1].cells().disjoint(a[2].cells()));
    assert(lie_together(a));
    let b = puzzle_117();
    lemma_anchor(b[0].piece);
    lemma_anchor(b[1].piece);
    assert(b[0].on_grid() && b[1].on_grid());
    assert(b[0].cells().disjoint(b[1].cells()));
    assert(lie_together(b));
}

/// Puzzle 49: three upright pieces in the second row.
pub fn pieces_49() -> (seed: [PlacedPiece; 3])
    ensures
        seed@ == puzzle_49(),
        valid_seed(seed@),
{
    proof {
        lemma_puzzles_are_seeds();
    }
    let seed = [
        PlacedPiece {
            piece: Piece::new().with_color(Color::Yellow).with_face(Face::B).with_orientation(
                Orientation::Up,
            ),
            top_left: 10,
        },
        PlacedPiece {
            piece: Piece::new().with_color(Color::Blue).with_face(Face::A).with_orientation(
                Orientation::Up,
            ),
            top_left: 14,
        },
        PlacedPiece {
            piece: Piece::new().with_color(Color::Green).with_face(Face::A).with_orientation(
                Orientation::Up,
            ),
            top_left: 18,
        },
    ];
    assert(seed@ =~= puzzle_49());
    seed
}

/// Puzzle 117: two pieces.
pub fn pieces_117() -> (seed: [PlacedPiece; 2])
    ensures
        seed@ == puzzle_117(),
        valid_seed(seed@),
{
    proof {
        lemma_puzzles_are_seeds();
    }
    let seed = [
        PlacedPiece {
            piece: Piece::new().with_color(Color::LightBlue).with_face(Face::B).with_orientation(
                Orientation::Right,
            ),
            top_left: 3,
        },
        PlacedPiece {
            piece: Piece::new().with_color(Color::DeepBlue).with_face(Face::A).with_orientation(
                Orientation::Left,
            ),
            top_left: 34,
        },
    ];
    assert(seed@ =~= puzzle_117());
    seed
}

} // verus!
