//! What a search returns fills the board.
use vstd::prelude::*;
use crate::board::{
    can_place, covered, fills, lemma_anchor_covered, lemma_covered_push, lemma_lie_together_push,
    lie_together, Board,
};
use crate::pieces::{Color, Face, PlacedPiece};
use crate::solver::TenPieceFacePolicy;
use crate::solver::search::{candidate, search, search_from, search_with, within_quota};
use crate::solver::seed::{colors_left, distinct_colors, solution, valid_seed};
use crate::solver::tally::lemma_ten_pieces;

verus! {

/// Whether the pieces `added` fill a board of which the cells `taken` hold a ball, with
/// pieces of the colours `colors`: they lie together on the free cells, cover each of
/// them, and no two have the same colour.
pub open spec fn completes(taken: Set<int>, colors: Set<Color>, added: Seq<PlacedPiece>) -> bool {
    &&& fills(taken, added)
    &&& distinct_colors(added)
    &&& forall|i: int| 0 <= i < added.len() ==> colors.contains((#[trigger] added[i]).piece.color)
}

/// Whether the pieces `added` keep a board within the quota, if it is: with them the board
/// has no more than six pieces with face A up and four with face B up, where it had no
/// more before.
pub open spec fn keeps_quota(added: Seq<PlacedPiece>, face_a: int, face_b: int) -> bool {
    face_a <= 6 && face_b <= 4 ==> face_a + TenPieceFacePolicy::count_face_a(added) <= 6 && face_b
        + count_face_b(added) <= 4
}

/// How many of the pieces have face B up.
pub open spec fn count_face_b(pieces: Seq<PlacedPiece>) -> int {
    pieces.len() - TenPieceFacePolicy::count_face_a(pieces)
}

/// No more pieces of a list have face A up than the list has.
pub proof fn lemma_count_face_a_nonnegative(pieces: Seq<PlacedPiece>)
    ensures
        0 <= TenPieceFacePolicy::count_face_a(pieces) <= pieces.len(),
    decreases pieces.len(),
{
    if pieces.len() > 0 {
        lemma_count_face_a_nonnegative(pieces.drop_last());
    }
}

/// The pieces with face A up of two lists are those of the one and those of the other.
pub proof fn lemma_count_face_a_join(front: Seq<PlacedPiece>, back: Seq<PlacedPiece>)
    ensures
        TenPieceFacePolicy::count_face_a(front + back) == TenPieceFacePolicy::count_face_a(front)
            + TenPieceFacePolicy::count_face_a(back),
    decreases back.len(),
{
    if back.len() == 0 {
        assert(front + back =~= front);
    } else {
        assert((front + back).drop_last() =~= front + back.drop_last());
        lemma_count_face_a_join(front, back.drop_last());
    }
}

/// A piece that can be placed on the first free cell, followed by pieces that fill the
/// board with it, fills the board.
pub proof fn lemma_completes_push(
    taken: Set<int>,
    colors: Set<Color>,
    rest: Seq<PlacedPiece>,
    placed: PlacedPiece,
)
    requires
        can_place(taken, placed),
        colors.contains(placed.piece.color),
        completes(taken.union(placed.cells()), colors.remove(placed.piece.color), rest),
    ensures
        completes(taken, colors, rest.push(placed)),
{
    let added = rest.push(placed);
    let last = rest.len() as int;
    lemma_covered_push(rest, placed);
    assert(can_place(covered(rest), placed)) by {
        assert forall|cell: int| !(covered(rest).contains(cell)
            && placed.cells().contains(cell)) by {
            if placed.cells().contains(cell) {
                assert(taken.union(placed.cells()).contains(cell));
            }
        }
    }
    lemma_lie_together_push(rest, placed);
    assert forall|cell: int| !(covered(added).contains(cell) && taken.contains(cell)) by {
        if taken.contains(cell) {
            assert(taken.union(placed.cells()).contains(cell));
        }
    }
    assert forall|cell: int| 0 <= cell < 50 implies taken.contains(cell) || covered(added).contains(
        cell,
    ) by {
        assert(taken.union(placed.cells()).contains(cell) || covered(rest).contains(cell));
    }
    assert forall|i: int| 0 <= i < added.len() implies colors.contains(
        (#[trigger] added[i]).piece.color,
    ) by {
        if i < last {
            assert(colors.remove(placed.piece.color).contains(rest[i].piece.color));
        }
    }
    assert forall|i: int, j: int| 0 <= i < j < added.len() implies (
    #[trigger] added[i]).piece.color != (#[trigger] added[j]).piece.color by {
        if j < last {
            assert(rest[i].piece.color != rest[j].piece.color);
        } else {
            assert(colors.remove(placed.piece.color).contains(rest[i].piece.color));
        }
    }
}

/// What a search returns fills the board: the pieces lie together on the cells that were
/// free, cover each of them, and have distinct colours among those that were left.
pub proof fn lemma_search_fills<B: Board>(
    taken: Set<int>,
    colors: Set<Color>,
    lower: int,
    face_a: int,
    face_b: int,
)
    requires
        0 <= lower,
        forall|cell: int| 0 <= cell < lower ==> taken.contains(cell),
    ensures
        search::<B>(taken, colors, lower, face_a, face_b) matches Some(added) ==> completes(
            taken,
            colors,
            added,
        ) && keeps_quota(added, face_a, face_b),
    decreases 50 - lower, 81int,
{
    if lower >= 50 {
        assert(covered(Seq::<PlacedPiece>::empty()) =~= Set::<int>::empty());
    } else if taken.contains(lower) {
        lemma_search_fills::<B>(taken, colors, lower + 1, face_a, face_b);
    } else if B::hopeless(taken, lower) {
    } else {
        lemma_search_from_fills::<B>(taken, colors, lower, face_a, face_b, 0);
    }
}

/// What a search returns when it fills the first free cell `index` fills the board.
pub proof fn lemma_search_from_fills<B: Board>(
    taken: Set<int>,
    colors: Set<Color>,
    index: int,
    face_a: int,
    face_b: int,
    k: int,
)
    requires
        0 <= index,
        forall|cell: int| 0 <= cell < index ==> taken.contains(cell),
    ensures
        search_from::<B>(taken, colors, index, face_a, face_b, k) matches Some(added)
            ==> completes(taken, colors, added) && keeps_quota(added, face_a, face_b),
    decreases 50 - index, 80 - k,
{
    if 0 <= k < 80 && index < 50 {
        let placed = candidate(k, index);
        if colors.contains(placed.piece.color) && within_quota(placed.piece.face, face_a, face_b)
            && can_place(taken, placed) {
            match search_with::<B>(taken, colors, face_a, face_b, placed) {
                Some(rest) => {
                    lemma_anchor_covered(placed);
                    lemma_search_fills::<B>(
                        taken.union(placed.cells()),
                        colors.remove(placed.piece.color),
                        index + 1,
                        face_a + if placed.piece.face == Face::A { 1int } else { 0 },
                        face_b + if placed.piece.face == Face::B { 1int } else { 0 },
                    );
                    lemma_completes_push(taken, colors, rest, placed);
                    assert(rest.push(placed).drop_last() =~= rest);
                },
                None => {
                    lemma_search_from_fills::<B>(taken, colors, index, face_a, face_b, k + 1);
                },
            }
        } else {
            lemma_search_from_fills::<B>(taken, colors, index, face_a, face_b, k + 1);
        }
    }
}

/// Whether the pieces of the list are a full board: they lie together, cover every cell,
/// and no two have the same colour.
pub open spec fn is_solution(pieces: Seq<PlacedPiece>) -> bool {
    &&& lie_together(pieces)
    &&& forall|cell: int| 0 <= cell < 50 ==> covered(pieces).contains(cell)
    &&& distinct_colors(pieces)
}

/// Whether the pieces are within the quota: six at most have face A up, four at most
/// face B.
pub open spec fn within_quota_so_far(pieces: Seq<PlacedPiece>) -> bool {
    TenPieceFacePolicy::count_face_a(pieces) <= 6 && count_face_b(pieces) <= 4
}

/// Whether a piece of the list has the colour.
pub open spec fn has_color(pieces: Seq<PlacedPiece>, c: Color) -> bool {
    exists|i: int| 0 <= i < pieces.len() && (#[trigger] pieces[i]).piece.color == c
}

/// Whether the pieces are a full board of the ten pieces: one of each colour, six with
/// face A up and four with face B up, lying together on all fifty cells.
pub open spec fn is_ten_piece_solution(pieces: Seq<PlacedPiece>) -> bool {
    &&& is_solution(pieces)
    &&& pieces.len() == 10
    &&& forall|c: Color| #[trigger] has_color(pieces, c)
    &&& TenPieceFacePolicy::count_face_a(pieces) == 6
    &&& count_face_b(pieces) == 4
}

/// Pieces that fill the board on which a seed lies are, with the seed, a full board.
pub proof fn lemma_completes_join(added: Seq<PlacedPiece>, seed: Seq<PlacedPiece>)
    requires
        valid_seed(seed),
        completes(covered(seed), colors_left(seed), added),
    ensures
        is_solution(added + seed),
    decreases seed.len(),
{
    reveal(valid_seed);
    let all = added + seed;
    let n = added.len() as int;
    assert forall|i: int| 0 <= i < all.len() implies (#[trigger] all[i]).on_grid() by {
        if i < n {
            assert(added[i].on_grid());
        } else {
            assert(seed[i - n].on_grid());
        }
    }
    assert forall|i: int, j: int| 0 <= i < j < all.len()
        implies (#[trigger] all[i]).cells().disjoint(
        (#[trigger] all[j]).cells(),
    ) by {
        if j < n {
            assert(added[i].cells().disjoint(added[j].cells()));
        } else if i >= n {
            assert(seed[i - n].cells().disjoint(seed[j - n].cells()));
        } else {
            assert forall|cell: int| !(all[i].cells().contains(cell)
                && all[j].cells().contains(cell)) by {
                if added[i].cells().contains(cell) && seed[j - n].cells().contains(cell) {
                    assert(covered(added).contains(cell));
                    assert(covered(seed).contains(cell));
                }
            }
        }
    }
    assert forall|i: int, j: int| 0 <= i < j < all.len()
        implies (#[trigger] all[i]).piece.color != (
    #[trigger] all[j]).piece.color by {
        if j < n {
            assert(added[i].piece.color != added[j].piece.color);
        } else if i >= n {
            assert(seed[i - n].piece.color != seed[j - n].piece.color);
        } else {
            assert(colors_left(seed).contains(added[i].piece.color));
            assert(seed[j - n].piece.color != added[i].piece.color);
        }
    }
    assert forall|cell: int| 0 <= cell < 50 implies covered(all).contains(cell) by {
        if covered(seed).contains(cell) {
            let i = choose|i: int| 0 <= i < seed.len() && #[trigger] seed[i].cells().contains(cell);
            assert(all[n + i].cells().contains(cell));
        } else {
            assert(covered(added).contains(cell));
            let i = choose|i: int| 0 <= i < added.len()
                && #[trigger] added[i].cells().contains(cell);
            assert(all[i].cells().contains(cell));
        }
    }
}

/// What solving returns for a valid seed is a full board that ends with the seed; and
/// where the seed is within the quota, it is a full board of the ten pieces.
pub proof fn lemma_solution<B: Board>(seed: Seq<PlacedPiece>)
    requires
        valid_seed(seed),
    ensures
        solution::<B>(seed) matches Some(pieces) ==> {
            &&& is_solution(pieces)
            &&& pieces.len() >= seed.len()
            &&& pieces.skip(pieces.len() - seed.len()) == seed
            &&& within_quota_so_far(seed) ==> is_ten_piece_solution(pieces)
        },
{
    let face_a = TenPieceFacePolicy::count_face_a(seed) as int;
    lemma_search_fills::<B>(covered(seed), colors_left(seed), 0, face_a, seed.len() - face_a);
    if let Some(added) = search::<B>(covered(seed), colors_left(seed), 0, face_a,
        seed.len() - face_a) {
        lemma_completes_join(added, seed);
        assert((added + seed).skip(added.len() as int) =~= seed);
        if within_quota_so_far(seed) {
            lemma_count_face_a_join(added, seed);
            lemma_ten_pieces(added + seed);
        }
    }
}

} // verus!
