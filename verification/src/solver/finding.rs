//! What can be filled is found: the boards give up on lost positions only.
use vstd::prelude::*;
use crate::board::{
    can_place, covered, is_first_empty, lemma_anchor_covered, lemma_piece_on_first_empty, Board,
};
use crate::pieces::{lemma_piece_id_round_trip, Color, Face, PlacedPiece};
use crate::solver::TenPieceFacePolicy;
use crate::solver::filling::{
    completes, count_face_b, is_solution, is_ten_piece_solution, lemma_count_face_a_join,
    lemma_count_face_a_nonnegative, lemma_solution, within_quota_so_far,
};
use crate::solver::search::{candidate, search, search_from, search_with, within_quota};
use crate::solver::seed::{colors_left, solution, valid_seed};
use crate::solver::tally::lemma_face_quota;

verus! {

/// Whether the pieces `added` fill the board within the quota.
pub open spec fn fills_within_quota(
    taken: Set<int>,
    colors: Set<Color>,
    face_a: int,
    face_b: int,
    added: Seq<PlacedPiece>,
) -> bool {
    &&& completes(taken, colors, added)
    &&& face_a + TenPieceFacePolicy::count_face_a(added) <= 6
    &&& face_b + count_face_b(added) <= 4
}

/// Whether the seed can be made a full board of the ten pieces: whether some pieces put
/// before it give one.
pub open spec fn solvable(seed: Seq<PlacedPiece>) -> bool {
    exists|added: Seq<PlacedPiece>| is_ten_piece_solution(#[trigger] (added + seed))
}

/// Taking a piece out of a list takes it out of the count of pieces with face A up, if it
/// is one.
pub proof fn lemma_count_face_a_remove(pieces: Seq<PlacedPiece>, i: int)
    requires
        0 <= i < pieces.len(),
    ensures
        TenPieceFacePolicy::count_face_a(pieces) == TenPieceFacePolicy::count_face_a(
            pieces.remove(i),
        ) + if pieces[i].piece.face == Face::A { 1int } else { 0 },
    decreases pieces.len(),
{
    if i == pieces.len() - 1 {
        assert(pieces.remove(i) =~= pieces.drop_last());
    } else {
        assert(pieces.remove(i).drop_last() =~= pieces.drop_last().remove(i));
        lemma_count_face_a_remove(pieces.drop_last(), i);
    }
}

/// Pieces that fill the board still do once one of them, which can be placed, lies on it.
pub proof fn lemma_completes_remove(
    taken: Set<int>,
    colors: Set<Color>,
    added: Seq<PlacedPiece>,
    i: int,
)
    requires
        completes(taken, colors, added),
        0 <= i < added.len(),
    ensures
        completes(
            taken.union(added[i].cells()),
            colors.remove(added[i].piece.color),
            added.remove(i),
        ),
        TenPieceFacePolicy::count_face_a(added) == TenPieceFacePolicy::count_face_a(
            added.remove(i),
        ) + if added[i].piece.face == Face::A { 1int } else { 0 },
{
    let rest = added.remove(i);
    let piece = added[i];
    let at = |j: int| if j < i { j } else { j + 1 };
    assert forall|j: int| 0 <= j < rest.len() implies #[trigger] rest[j] == added[at(j)] by {}
    assert forall|j: int| 0 <= j < rest.len() implies (#[trigger] rest[j]).on_grid() by {
        assert(added[at(j)].on_grid());
    }
    assert forall|j: int, k: int| 0 <= j < k < rest.len()
        implies (#[trigger] rest[j]).cells().disjoint(
        (#[trigger] rest[k]).cells(),
    ) by {
        assert(added[at(j)].cells().disjoint(added[at(k)].cells()));
    }
    assert forall|j: int, k: int| 0 <= j < k < rest.len() implies (#[trigger] rest[j]).piece.color
        != (#[trigger] rest[k]).piece.color by {
        assert(added[at(j)].piece.color != added[at(k)].piece.color);
    }
    assert forall|j: int| 0 <= j < rest.len() implies colors.remove(piece.piece.color).contains(
        (#[trigger] rest[j]).piece.color,
    ) by {
        assert(colors.contains(added[at(j)].piece.color));
        if at(j) < i {
            assert(added[at(j)].piece.color != added[i].piece.color);
        } else {
            assert(added[i].piece.color != added[at(j)].piece.color);
        }
    }
    assert forall|cell: int| covered(rest).contains(cell) implies covered(added).contains(cell)
        && !piece.cells().contains(cell) by {
        let j = choose|j: int| 0 <= j < rest.len() && #[trigger] rest[j].cells().contains(cell);
        assert(added[at(j)].cells().contains(cell));
        if at(j) < i {
            assert(added[at(j)].cells().disjoint(added[i].cells()));
        } else {
            assert(added[i].cells().disjoint(added[at(j)].cells()));
        }
    }
    assert forall|cell: int| 0 <= cell < 50 implies taken.union(piece.cells()).contains(cell)
        || covered(rest).contains(cell) by {
        if !taken.contains(cell) && !piece.cells().contains(cell) {
            assert(covered(added).contains(cell));
            let j = choose|j: int| 0 <= j < added.len()
                && #[trigger] added[j].cells().contains(cell);
            if j < i {
                assert(rest[j].cells().contains(cell));
            } else {
                assert(rest[j - 1].cells().contains(cell));
            }
        }
    }
    lemma_count_face_a_remove(added, i);
}

/// The search succeeds wherever pieces fill the board within the quota.
pub proof fn lemma_search_finds<B: Board>(
    taken: Set<int>,
    colors: Set<Color>,
    lower: int,
    face_a: int,
    face_b: int,
    added: Seq<PlacedPiece>,
)
    requires
        0 <= lower,
        forall|cell: int| 0 <= cell < lower ==> taken.contains(cell),
        fills_within_quota(taken, colors, face_a, face_b, added),
    ensures
        search::<B>(taken, colors, lower, face_a, face_b) is Some,
    decreases 50 - lower, 81int,
{
    if lower >= 50 {
    } else if taken.contains(lower) {
        lemma_search_finds::<B>(taken, colors, lower + 1, face_a, face_b, added);
    } else {
        assert(is_first_empty(taken, 0, lower));
        if B::hopeless(taken, lower) {
            B::lemma_gives_up_rightly(taken, lower, added);
        }
        let i = lemma_piece_on_first_empty(taken, added, lower);
        lemma_piece_id_round_trip(added[i].piece, 0);
        lemma_search_from_finds::<B>(taken, colors, lower, face_a, face_b, added, i, 0);
    }
}

/// The search on the first empty cell `index` succeeds with one of the variants from
/// identifier `k` on, where a later one, laid on that cell, is among pieces that fill the
/// board within the quota.
pub proof fn lemma_search_from_finds<B: Board>(
    taken: Set<int>,
    colors: Set<Color>,
    index: int,
    face_a: int,
    face_b: int,
    added: Seq<PlacedPiece>,
    i: int,
    k: int,
)
    requires
        is_first_empty(taken, 0, index),
        fills_within_quota(taken, colors, face_a, face_b, added),
        0 <= i < added.len(),
        added[i] == candidate(added[i].piece.id(), index),
        can_place(taken, added[i]),
        colors.contains(added[i].piece.color),
        0 <= k <= added[i].piece.id(),
    ensures
        search_from::<B>(taken, colors, index, face_a, face_b, k) is Some,
    decreases 50 - index, 80 - k,
{
    let placed = added[i];
    lemma_piece_id_round_trip(placed.piece, 0);
    if k < placed.piece.id() {
        // Whether variant `k` succeeds or not, a later one does.
        lemma_search_from_finds::<B>(taken, colors, index, face_a, face_b, added, i, k + 1);
        assert(search_from::<B>(taken, colors, index, face_a, face_b, k + 1) is Some);
        assert(0 <= k < 80 && 0 <= index < 50);
    } else {
        // Variant `k` is the piece of the list, and the rest of the list fills the board
        // with it.
        lemma_completes_remove(taken, colors, added, i);
        lemma_count_face_a_nonnegative(added.remove(i));
        lemma_anchor_covered(placed);
        lemma_search_finds::<B>(
            taken.union(placed.cells()),
            colors.remove(placed.piece.color),
            index + 1,
            face_a + if placed.piece.face == Face::A { 1int } else { 0 },
            face_b + if placed.piece.face == Face::B { 1int } else { 0 },
            added.remove(i),
        );
        assert(placed == candidate(k, index));
        assert(within_quota(placed.piece.face, face_a, face_b));
        assert(search_with::<B>(taken, colors, face_a, face_b, placed) is Some);
    }
}

/// Pieces that make a full board with a seed fill the board on which the seed lies.
pub proof fn lemma_completes_split(added: Seq<PlacedPiece>, seed: Seq<PlacedPiece>)
    requires
        is_solution(added + seed),
    ensures
        completes(covered(seed), colors_left(seed), added),
{
    let all = added + seed;
    let n = added.len() as int;
    assert forall|i: int| 0 <= i < added.len() implies (#[trigger] added[i]).on_grid() by {
        assert(all[i].on_grid());
    }
    assert forall|i: int, j: int| 0 <= i < j < added.len()
        implies (#[trigger] added[i]).cells().disjoint(
        (#[trigger] added[j]).cells(),
    ) by {
        assert(all[i].cells().disjoint(all[j].cells()));
    }
    assert forall|i: int, j: int| 0 <= i < j < added.len() implies (#[trigger] added[i]).piece.color
        != (#[trigger] added[j]).piece.color by {
        assert(all[i].piece.color != all[j].piece.color);
    }
    assert forall|i: int| 0 <= i < added.len() implies colors_left(seed).contains(
        (#[trigger] added[i]).piece.color,
    ) by {
        assert forall|j: int| 0 <= j < seed.len() implies (#[trigger] seed[j]).piece.color
            != added[i].piece.color by {
            assert(all[i].piece.color != all[n + j].piece.color);
        }
    }
    assert forall|cell: int| !(covered(added).contains(cell) && covered(seed).contains(cell)) by {
        if covered(added).contains(cell) && covered(seed).contains(cell) {
            let i = choose|i: int| 0 <= i < added.len()
                && #[trigger] added[i].cells().contains(cell);
            let j = choose|j: int| 0 <= j < seed.len() && #[trigger] seed[j].cells().contains(cell);
            assert(all[i].cells().disjoint(all[n + j].cells()));
        }
    }
    assert forall|cell: int| 0 <= cell < 50 implies covered(seed).contains(cell) || covered(
        added,
    ).contains(cell) by {
        assert(covered(all).contains(cell));
        let i = choose|i: int| 0 <= i < all.len() && #[trigger] all[i].cells().contains(cell);
        if i < n {
            assert(added[i].cells().contains(cell));
        } else {
            assert(seed[i - n].cells().contains(cell));
        }
    }
}

/// Solving succeeds wherever some pieces make, with the seed, a full board of ten pieces.
pub proof fn lemma_solvable<B: Board>(seed: Seq<PlacedPiece>, added: Seq<PlacedPiece>)
    requires
        is_solution(added + seed),
        (added + seed).len() == 10,
    ensures
        solution::<B>(seed) is Some,
{
    lemma_face_quota(added + seed);
    lemma_count_face_a_join(added, seed);
    lemma_completes_split(added, seed);
    lemma_count_face_a_nonnegative(added);
    lemma_count_face_a_nonnegative(seed);
    let face_a = TenPieceFacePolicy::count_face_a(seed) as int;
    lemma_search_finds::<B>(
        covered(seed),
        colors_left(seed),
        0,
        face_a,
        seed.len() - face_a,
        added,
    );
}

/// Solving a valid seed within the quota succeeds exactly if the seed can be made a full
/// board of the ten pieces.
pub proof fn lemma_solves_what_can_be_solved<B: Board>(seed: Seq<PlacedPiece>)
    requires
        valid_seed(seed),
        within_quota_so_far(seed),
    ensures
        solution::<B>(seed) is Some <==> solvable(seed),
{
    if solvable(seed) {
        let added = choose|added: Seq<PlacedPiece>| is_ten_piece_solution(#[trigger] (added
            + seed));
        lemma_solvable::<B>(seed, added);
    }
    if solution::<B>(seed) is Some {
        let face_a = TenPieceFacePolicy::count_face_a(seed) as int;
        let added = search::<B>(covered(seed), colors_left(seed), 0, face_a,
            seed.len() - face_a).unwrap();
        lemma_solution::<B>(seed);
        assert(is_ten_piece_solution(added + seed));
    }
}

} // verus!
