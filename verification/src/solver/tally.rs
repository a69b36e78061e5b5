//! Counting balls: a full board has ten pieces, six with face A up and four with face B.
use vstd::prelude::*;
use crate::board::covered;
use crate::board::display_board_placement_info::lemma_cells_count;
use crate::pieces::{Color, Face, PlacedPiece};
use crate::shapes::ball_count;
use crate::solver::TenPieceFacePolicy;
use crate::solver::filling::{count_face_b, has_color, is_solution};
use crate::solver::seed::{
    colors_left, lemma_num_colors, lemma_num_colors_remove, lemma_seed_grows, num_colors,
    valid_seed,
};

verus! {

/// How many balls the pieces of the colours of a set have together, each with face A up.
/// All ten have 46.
#[verifier::opaque]
pub open spec fn face_a_balls(colors: Set<Color>) -> nat {
    balls_if(colors, Color::Yellow) + balls_if(colors, Color::Orange) + balls_if(
        colors,
        Color::Red,
    ) + balls_if(colors, Color::Pink) + balls_if(colors, Color::LightGreen) + balls_if(
        colors,
        Color::Green,
    ) + balls_if(colors, Color::LightBlue) + balls_if(colors, Color::Blue) + balls_if(
        colors,
        Color::DeepBlue,
    ) + balls_if(colors, Color::Purple)
}

/// The balls of the piece of a colour, face A up, if the set holds the colour.
pub open spec fn balls_if(colors: Set<Color>, c: Color) -> nat {
    if colors.contains(c) {
        ball_count(c, Face::A)
    } else {
        0
    }
}

/// Taking a colour out of a set that holds it takes the balls of its piece from the count.
pub proof fn lemma_face_a_balls_remove(colors: Set<Color>, c: Color)
    requires
        colors.contains(c),
    ensures
        face_a_balls(colors.remove(c)) + ball_count(c, Face::A) == face_a_balls(colors),
{
    reveal(face_a_balls);
    let fewer = colors.remove(c);
    assert forall|d: Color| #[trigger] balls_if(fewer, d) == if d == c {
        0
    } else {
        balls_if(colors, d)
    } by {}
    match c {
        Color::Yellow => {},
        Color::Orange => {},
        Color::Red => {},
        Color::Pink => {},
        Color::LightGreen => {},
        Color::Green => {},
        Color::LightBlue => {},
        Color::Blue => {},
        Color::DeepBlue => {},
        Color::Purple => {},
    }
}

/// The pieces of all ten colours have 46 balls with face A up, and only the pieces of no
/// colour have none.
pub proof fn lemma_no_balls_no_colors(colors: Set<Color>)
    ensures
        (forall|c: Color| colors.contains(c)) ==> face_a_balls(colors) == 46,
        face_a_balls(colors) == 0 ==> num_colors(colors) == 0 && forall|c: Color|
            !colors.contains(c),
{
    reveal(face_a_balls);
    reveal(num_colors);
    lemma_num_colors(colors);
}

/// The tally of pieces of distinct colours that lie together: the cells that they cover
/// and the balls, face A up, of the colours that they leave are 46 and one more for each
/// piece with face B up; and the pieces and the colours that they leave are ten.
pub proof fn lemma_tally(pieces: Seq<PlacedPiece>)
    requires
        valid_seed(pieces),
    ensures
        covered(pieces).finite(),
        covered(pieces).len() + face_a_balls(colors_left(pieces)) == 46 + count_face_b(pieces),
        pieces.len() + num_colors(colors_left(pieces)) == 10,
        0 <= TenPieceFacePolicy::count_face_a(pieces) <= pieces.len(),
    decreases pieces.len(),
{
    if pieces.len() == 0 {
        assert(covered(pieces) =~= Set::<int>::empty());
        assert(forall|c: Color| colors_left(pieces).contains(c));
        lemma_no_balls_no_colors(colors_left(pieces));
        lemma_num_colors(colors_left(pieces));
    } else {
        let n = pieces.len() - 1;
        let before = pieces.drop_last();
        let last = pieces.last();
        let left = colors_left(before);
        let c = last.piece.color;
        assert(pieces.len() > 0 ==> last.on_grid()) by {
            reveal(valid_seed);
        }
        assert({
            &&& valid_seed(before)
            &&& last.on_grid()
            &&& covered(before).disjoint(last.cells())
            &&& left.contains(c)
            &&& covered(pieces) == covered(before).union(last.cells())
            &&& colors_left(pieces) == left.remove(c)
        }) by {
            assert(before =~= pieces.take(n));
            assert(pieces.take(n + 1) =~= pieces);
            lemma_seed_grows(pieces, n);
        }
        lemma_tally(before);
        assert(covered(pieces).finite() && covered(pieces).len() == covered(before).len()
            + ball_count(c, last.piece.face)) by {
            lemma_cells_count(last);
            vstd::set_lib::lemma_set_disjoint_lens(covered(before), last.cells());
        }
        lemma_face_a_balls_remove(left, c);
        lemma_num_colors_remove(left, c);
    }
}

/// A full board covers all fifty cells.
pub proof fn lemma_full_board(pieces: Seq<PlacedPiece>)
    requires
        is_solution(pieces),
    ensures
        covered(pieces) == vstd::set_lib::set_int_range(0, 50),
        covered(pieces).len() == 50,
{
    vstd::set_lib::lemma_int_range(0, 50);
    assert(covered(pieces) =~= vstd::set_lib::set_int_range(0, 50));
}

/// A full board of ten pieces has six with face A up and four with face B up.
pub proof fn lemma_face_quota(pieces: Seq<PlacedPiece>)
    requires
        is_solution(pieces),
        pieces.len() == 10,
    ensures
        TenPieceFacePolicy::count_face_a(pieces) == 6,
        count_face_b(pieces) == 4,
{
    reveal(valid_seed);
    lemma_tally(pieces);
    lemma_full_board(pieces);
    lemma_num_colors(colors_left(pieces));
    reveal(face_a_balls);
}

/// A full board with four pieces or fewer that have face B up has ten pieces, one of each
/// colour, six of them with face A up and four with face B up.
pub proof fn lemma_ten_pieces(pieces: Seq<PlacedPiece>)
    requires
        is_solution(pieces),
        count_face_b(pieces) <= 4,
    ensures
        pieces.len() == 10,
        forall|c: Color| #[trigger] has_color(pieces, c),
        TenPieceFacePolicy::count_face_a(pieces) == 6,
        count_face_b(pieces) == 4,
{
    reveal(valid_seed);
    lemma_tally(pieces);
    lemma_full_board(pieces);
    let left = colors_left(pieces);
    assert(face_a_balls(left) == 0);
    lemma_no_balls_no_colors(left);
    assert forall|c: Color| #[trigger] has_color(pieces, c) by {
        assert(!left.contains(c));
    }
}

} // verus!
