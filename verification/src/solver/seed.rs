//! The pieces laid on the board before a search, and what solving returns for them.
use vstd::prelude::*;
use crate::board::{
    can_place, covered, lemma_covered_push, lemma_lie_together_push, lemma_lie_together_take,
    lie_together, Board,
};
use crate::pieces::{Color, PlacedPiece};
use crate::solver::TenPieceFacePolicy;
use crate::solver::search::{search, search_steps};

verus! {

/// Whether no two pieces of the list have the same colour.
pub open spec fn distinct_colors(pieces: Seq<PlacedPiece>) -> bool {
    forall|i: int, j: int|
        0 <= i < j < pieces.len() ==> (#[trigger] pieces[i]).piece.color != (
        #[trigger] pieces[j]).piece.color
}

/// Whether the pieces can be laid on the board before a search: they lie on the grid, no
/// two on a common cell, and no two have the same colour.
#[verifier::opaque]
pub open spec fn valid_seed(pieces: Seq<PlacedPiece>) -> bool {
    lie_together(pieces) && distinct_colors(pieces)
}

/// The colours of which no piece is in the list.
pub open spec fn colors_left(pieces: Seq<PlacedPiece>) -> Set<Color> {
    Set::new(|c: Color| forall|i: int| 0 <= i < pieces.len()
        ==> (#[trigger] pieces[i]).piece.color != c)
}

/// How many of the ten colours a set holds.
#[verifier::opaque]
pub open spec fn num_colors(colors: Set<Color>) -> nat {
    one_if(colors.contains(Color::Yellow)) + one_if(colors.contains(Color::Orange)) + one_if(
        colors.contains(Color::Red),
    ) + one_if(colors.contains(Color::Pink)) + one_if(colors.contains(Color::LightGreen)) + one_if(
        colors.contains(Color::Green),
    ) + one_if(colors.contains(Color::LightBlue)) + one_if(colors.contains(Color::Blue)) + one_if(
        colors.contains(Color::DeepBlue),
    ) + one_if(colors.contains(Color::Purple))
}

/// One if the condition holds, else zero.
pub open spec fn one_if(b: bool) -> nat {
    if b {
        1
    } else {
        0
    }
}

/// Taking a colour out of a set that holds it leaves one colour less.
pub proof fn lemma_num_colors_remove(colors: Set<Color>, c: Color)
    requires
        colors.contains(c),
    ensures
        num_colors(colors.remove(c)) == num_colors(colors) - 1,
{
    reveal(num_colors);
}

/// A set that holds every colour holds ten, and one that holds a colour holds one at
/// least.
pub proof fn lemma_num_colors(colors: Set<Color>)
    ensures
        (forall|c: Color| colors.contains(c)) ==> num_colors(colors) == 10,
        num_colors(colors) == 0 ==> forall|c: Color| !colors.contains(c),
{
    reveal(num_colors);
    if num_colors(colors) == 0 {
        assert forall|c: Color| !colors.contains(c) by {
            match c {
                Color::Yellow => {},
                Color::Orange => {},
                Color::Red => {},
                Color::Pink => {},
                Color::LightGreen => {},
                Color::Green => {},
                Color::LightBlue => {},
                Color::Blue => {},
                Color::DeepBlue => {},
                Color::Purple => {},
            }
        }
    }
}

/// What solving returns for the pieces `seed` laid on the board beforehand: the pieces
/// that the search on that board adds, those placed last first, and then the pieces of the
/// seed; or nothing, where that search fails.
pub open spec fn solution<B: Board>(seed: Seq<PlacedPiece>) -> Option<Seq<PlacedPiece>> {
    let face_a = TenPieceFacePolicy::count_face_a(seed) as int;
    match search::<B>(covered(seed), colors_left(seed), 0, face_a, seed.len() - face_a) {
        Some(added) => Some(added + seed),
        None => None,
    }
}

/// How many placements solving tries.
pub open spec fn solution_steps<B: Board>(seed: Seq<PlacedPiece>) -> nat {
    let face_a = TenPieceFacePolicy::count_face_a(seed) as int;
    search_steps::<B>(covered(seed), colors_left(seed), 0, face_a, seed.len() - face_a)
}

/// One piece more of a colour that was left takes that colour from those left.
pub proof fn lemma_colors_left_push(pieces: Seq<PlacedPiece>, piece: PlacedPiece)
    ensures
        colors_left(pieces.push(piece)) == colors_left(pieces).remove(piece.piece.color),
        distinct_colors(pieces) ==> (distinct_colors(pieces.push(piece)) <==> colors_left(
            pieces,
        ).contains(piece.piece.color)),
{
    let more = pieces.push(piece);
    let last = pieces.len() as int;
    assert forall|c: Color| colors_left(more).contains(c) <==> colors_left(pieces).contains(c) && c
        != piece.piece.color by {
        if colors_left(more).contains(c) {
            assert(more[last].piece.color != c);
            assert forall|i: int| 0 <= i < pieces.len() implies (#[trigger] pieces[i]).piece.color
                != c by {
                assert(more[i].piece.color != c);
            }
        }
        if colors_left(pieces).contains(c) && c != piece.piece.color {
            assert forall|i: int| 0 <= i < more.len() implies (#[trigger] more[i]).piece.color
                != c by {
                if i < last {
                    assert(pieces[i].piece.color != c);
                }
            }
        }
    }
    assert(colors_left(more) =~= colors_left(pieces).remove(piece.piece.color));
    if distinct_colors(pieces) {
        if distinct_colors(more) {
            assert forall|i: int| 0 <= i < pieces.len() implies (#[trigger] pieces[i]).piece.color
                != piece.piece.color by {
                assert(more[i].piece.color != more[last].piece.color);
            }
        }
        if colors_left(pieces).contains(piece.piece.color) {
            assert forall|i: int, j: int| 0 <= i < j < more.len() implies (
            #[trigger] more[i]).piece.color != (#[trigger] more[j]).piece.color by {
                if j < last {
                    assert(pieces[i].piece.color != pieces[j].piece.color);
                } else {
                    assert(pieces[i].piece.color != piece.piece.color);
                }
            }
        }
    }
}

/// Pieces of distinct colours still are when the last of them are taken away.
pub proof fn lemma_distinct_colors_take(pieces: Seq<PlacedPiece>, n: int)
    requires
        0 <= n <= pieces.len(),
    ensures
        distinct_colors(pieces) ==> distinct_colors(pieces.take(n)),
{
    let fewer = pieces.take(n);
    if distinct_colors(pieces) {
        assert forall|i: int, j: int| 0 <= i < j < fewer.len() implies (
        #[trigger] fewer[i]).piece.color != (#[trigger] fewer[j]).piece.color by {
            assert(pieces[i].piece.color != pieces[j].piece.color);
        }
    }
}

/// No pieces are a valid seed: they cover nothing and leave every colour.
pub proof fn lemma_seed_starts(pieces: Seq<PlacedPiece>)
    ensures
        valid_seed(pieces.take(0)),
        covered(pieces.take(0)) == Set::<int>::empty(),
        forall|c: Color| colors_left(pieces.take(0)).contains(c),
        pieces.take(pieces.len() as int) == pieces,
{
    reveal(valid_seed);
    assert(covered(pieces.take(0)) =~= Set::<int>::empty());
    assert(pieces.take(pieces.len() as int) =~= pieces);
}

/// What piece `i` of a list adds to the pieces before it: its cells to those covered, and
/// its colour to those used. With it the pieces are a valid seed exactly if those before it
/// are, its colour was left and it can be placed; and a valid seed is valid up to each of
/// its pieces.
pub proof fn lemma_seed_grows(pieces: Seq<PlacedPiece>, i: int)
    requires
        0 <= i < pieces.len(),
    ensures
        covered(pieces.take(i + 1)) == covered(pieces.take(i)).union(pieces[i].cells()),
        colors_left(pieces.take(i + 1))
            == colors_left(pieces.take(i)).remove(pieces[i].piece.color),
        valid_seed(pieces.take(i + 1)) <==> {
            &&& valid_seed(pieces.take(i))
            &&& colors_left(pieces.take(i)).contains(pieces[i].piece.color)
            &&& can_place(covered(pieces.take(i)), pieces[i])
        },
        valid_seed(pieces) ==> valid_seed(pieces.take(i + 1)),
{
    reveal(valid_seed);
    let before = pieces.take(i);
    let p = pieces[i];
    assert(before.push(p) =~= pieces.take(i + 1));
    lemma_covered_push(before, p);
    lemma_colors_left_push(before, p);
    lemma_lie_together_take(pieces.take(i + 1), i);
    assert(pieces.take(i + 1).take(i) =~= before);
    lemma_distinct_colors_take(pieces.take(i + 1), i);
    if lie_together(before) {
        lemma_lie_together_push(before, p);
    }
    lemma_lie_together_take(pieces, i + 1);
    lemma_distinct_colors_take(pieces, i + 1);
}

} // verus!
