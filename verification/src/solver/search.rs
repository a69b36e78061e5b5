//! What the search returns and how many placements it tries, step by step.
use vstd::prelude::*;
use crate::board::{can_place, Board};
use crate::pieces::{Color, Face, Piece, PlacedPiece};
use crate::solver::{COLOR_LIST, FACE_LIST, ORIENTATION_LIST};

verus! {

/// The placement of the variant with identifier `k` with its anchor on cell `index`.
pub open spec fn candidate(k: int, index: int) -> PlacedPiece {
    PlacedPiece { piece: Piece::with_id(k), top_left: index as u8 }
}

/// Whether one more piece with face `f` up is within the quota of six pieces with face A
/// and four with face B.
pub open spec fn within_quota(f: Face, face_a: int, face_b: int) -> bool {
    match f {
        Face::A => face_a < 6,
        Face::B => face_b < 4,
    }
}

/// What the search returns. The cells `taken` hold a ball, the pieces of `colors` are left,
/// no cell before `lower` is free, and `face_a` pieces lie with face A up and `face_b` with
/// face B up.
///
/// The search goes to the first free cell. If none is left it is done, with nothing more
/// to place. If the kind of board `B` gives the position up, it fails. Else it tries to
/// fill the cell.
pub open spec fn search<B: Board>(
    taken: Set<int>,
    colors: Set<Color>,
    lower: int,
    face_a: int,
    face_b: int,
) -> Option<Seq<PlacedPiece>>
    decreases 50 - lower, 81int,
{
    if lower >= 50 {
        Some(Seq::empty())
    } else if taken.contains(lower) {
        search::<B>(taken, colors, lower + 1, face_a, face_b)
    } else if B::hopeless(taken, lower) {
        None
    } else {
        search_from::<B>(taken, colors, lower, face_a, face_b, 0)
    }
}

/// What the search returns when it fills the free cell `index` with one of the variants
/// from identifier `k` on. It takes the first variant whose colour is left, whose face is
/// within the quota and that can be placed there, such that the search on the board with
/// that piece succeeds; the piece then follows what that search returned.
pub open spec fn search_from<B: Board>(
    taken: Set<int>,
    colors: Set<Color>,
    index: int,
    face_a: int,
    face_b: int,
    k: int,
) -> Option<Seq<PlacedPiece>>
    decreases 50 - index, 80 - k,
{
    if !(0 <= k < 80) || !(0 <= index < 50) {
        None
    } else {
        let placed = candidate(k, index);
        if colors.contains(placed.piece.color) && within_quota(placed.piece.face, face_a, face_b)
            && can_place(taken, placed) {
            match search_with::<B>(taken, colors, face_a, face_b, placed) {
                Some(rest) => Some(rest.push(placed)),
                None => search_from::<B>(taken, colors, index, face_a, face_b, k + 1),
            }
        } else {
            search_from::<B>(taken, colors, index, face_a, face_b, k + 1)
        }
    }
}

/// What the search returns once `placed` was laid on the first free cell.
pub open spec fn search_with<B: Board>(
    taken: Set<int>,
    colors: Set<Color>,
    face_a: int,
    face_b: int,
    placed: PlacedPiece,
) -> Option<Seq<PlacedPiece>>
    decreases 50 - placed.top_left, 0int,
{
    if placed.top_left >= 50 {
        None
    } else {
        search::<B>(
            taken.union(placed.cells()),
            colors.remove(placed.piece.color),
            placed.top_left + 1,
            face_a + if placed.piece.face == Face::A { 1int } else { 0 },
            face_b + if placed.piece.face == Face::B { 1int } else { 0 },
        )
    }
}

/// How many placements the search tries.
pub open spec fn search_steps<B: Board>(
    taken: Set<int>,
    colors: Set<Color>,
    lower: int,
    face_a: int,
    face_b: int,
) -> nat
    decreases 50 - lower, 81int,
{
    if lower >= 50 {
        0
    } else if taken.contains(lower) {
        search_steps::<B>(taken, colors, lower + 1, face_a, face_b)
    } else if B::hopeless(taken, lower) {
        0
    } else {
        search_steps_from::<B>(taken, colors, lower, face_a, face_b, 0)
    }
}

/// How many placements the search tries when it fills the free cell `index` with one of
/// the variants from identifier `k` on: one for each variant whose colour is left and whose
/// face is within the quota, and those of the search that follows where the variant can be
/// placed, up to the first that succeeds.
pub open spec fn search_steps_from<B: Board>(
    taken: Set<int>,
    colors: Set<Color>,
    index: int,
    face_a: int,
    face_b: int,
    k: int,
) -> nat
    decreases 50 - index, 80 - k,
{
    if !(0 <= k < 80) || !(0 <= index < 50) {
        0
    } else {
        let placed = candidate(k, index);
        let later = search_steps_from::<B>(taken, colors, index, face_a, face_b, k + 1);
        if colors.contains(placed.piece.color) && within_quota(placed.piece.face, face_a, face_b) {
            if can_place(taken, placed) {
                1 + search_steps_with::<B>(taken, colors, face_a, face_b, placed)
                    + if search_with::<
                    B,
                >(taken, colors, face_a, face_b, placed) is Some {
                    0
                } else {
                    later
                }
            } else {
                1 + later
            }
        } else {
            later
        }
    }
}

/// How many placements the search tries once `placed` was laid on the first free cell.
pub open spec fn search_steps_with<B: Board>(
    taken: Set<int>,
    colors: Set<Color>,
    face_a: int,
    face_b: int,
    placed: PlacedPiece,
) -> nat
    decreases 50 - placed.top_left, 0int,
{
    if placed.top_left >= 50 {
        0
    } else {
        search_steps::<B>(
            taken.union(placed.cells()),
            colors.remove(placed.piece.color),
            placed.top_left + 1,
            face_a + if placed.piece.face == Face::A { 1int } else { 0 },
            face_b + if placed.piece.face == Face::B { 1int } else { 0 },
        )
    }
}

/// How far the search has come on the free cell `index`: it has tried the variants before
/// identifier `k`, none with success, and `done` placements in all.
pub open spec fn tried<B: Board>(
    taken: Set<int>,
    colors: Set<Color>,
    lower: int,
    index: int,
    face_a: int,
    face_b: int,
    k: int,
    done: nat,
) -> bool {
    &&& search::<B>(taken, colors, lower, face_a, face_b) == search_from::<B>(
        taken,
        colors,
        index,
        face_a,
        face_b,
        k,
    )
    &&& search_steps::<B>(taken, colors, lower, face_a, face_b) == done + search_steps_from::<B>(
        taken,
        colors,
        index,
        face_a,
        face_b,
        k,
    )
}

/// The search skips the cells that hold a ball.
pub proof fn lemma_search_skips<B: Board>(
    taken: Set<int>,
    colors: Set<Color>,
    lower: int,
    face_a: int,
    face_b: int,
    index: int,
)
    requires
        0 <= lower <= index <= 50,
        forall|j: int| lower <= j < index ==> taken.contains(j),
    ensures
        search::<B>(taken, colors, lower, face_a, face_b) == search::<B>(
            taken,
            colors,
            index,
            face_a,
            face_b,
        ),
        search_steps::<B>(taken, colors, lower, face_a, face_b) == search_steps::<B>(
            taken,
            colors,
            index,
            face_a,
            face_b,
        ),
    decreases index - lower,
{
    if lower < index {
        lemma_search_skips::<B>(taken, colors, lower + 1, face_a, face_b, index);
    }
}

/// The search passes over the variants that it may not use: `n` of them in a row, from
/// identifier `k` on, whose colour is not left or whose face is over the quota.
pub proof fn lemma_search_passes<B: Board>(
    taken: Set<int>,
    colors: Set<Color>,
    index: int,
    face_a: int,
    face_b: int,
    k: int,
    n: int,
)
    requires
        0 <= k,
        0 <= n,
        k + n <= 80,
        forall|i: int|
            k <= i < k + n ==> !(colors.contains(#[trigger] Piece::with_id(i).color)
                && within_quota(
                Piece::with_id(i).face,
                face_a,
                face_b,
            )),
    ensures
        search_from::<B>(taken, colors, index, face_a, face_b, k) == search_from::<B>(
            taken,
            colors,
            index,
            face_a,
            face_b,
            k + n,
        ),
        search_steps_from::<B>(taken, colors, index, face_a, face_b, k) == search_steps_from::<B>(
            taken,
            colors,
            index,
            face_a,
            face_b,
            k + n,
        ),
    decreases n,
{
    if n > 0 {
        assert(!(colors.contains(Piece::with_id(k).color) && within_quota(
            Piece::with_id(k).face,
            face_a,
            face_b,
        )));
        lemma_search_passes::<B>(taken, colors, index, face_a, face_b, k + 1, n - 1);
    }
}

/// The lists of colours, faces and orientations are in the order of the identifiers.
pub proof fn lemma_order(ci: int, fi: int, oi: int)
    requires
        0 <= ci < 10,
        0 <= fi < 2,
        0 <= oi < 4,
    ensures
        Piece::with_id(8 * ci + 4 * fi + oi) == (Piece {
            orientation: ORIENTATION_LIST@[oi],
            face: FACE_LIST@[fi],
            color: COLOR_LIST@[ci],
        }),
{
}

/// One step of the search on the free cell `index`: the variant with identifier `k`,
/// whose colour is left and whose face is within the quota, is tried.
pub proof fn lemma_search_tries<B: Board>(
    taken: Set<int>,
    colors: Set<Color>,
    lower: int,
    index: int,
    face_a: int,
    face_b: int,
    k: int,
    done: nat,
)
    requires
        tried::<B>(taken, colors, lower, index, face_a, face_b, k, done),
        0 <= k < 80,
        0 <= index < 50,
        colors.contains(Piece::with_id(k).color),
        within_quota(Piece::with_id(k).face, face_a, face_b),
    ensures
        ({
            let placed = candidate(k, index);
            let rest = search_with::<B>(taken, colors, face_a, face_b, placed);
            let steps = search_steps_with::<B>(taken, colors, face_a, face_b, placed);
            if !can_place(taken, placed) {
                tried::<B>(taken, colors, lower, index, face_a, face_b, k + 1, done + 1)
            } else if rest is None {
                tried::<B>(taken, colors, lower, index, face_a, face_b, k + 1, done + 1 + steps)
            } else {
                &&& search::<B>(taken, colors, lower, face_a, face_b) == Some(
                    rest.unwrap().push(placed),
                )
                &&& search_steps::<B>(taken, colors, lower, face_a, face_b) == done + 1 + steps
            }
        }),
{
}

} // verus!
