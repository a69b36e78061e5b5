//! Which way to fill the board is found: the first in the order of the search.
use vstd::prelude::*;
use crate::board::{can_place, covered, is_first_empty, lemma_anchor_covered, Board};
use crate::pieces::{lemma_piece_id_round_trip, Color, Face, PlacedPiece};
use crate::solver::filling::{count_face_b, lemma_search_fills, within_quota_so_far};
use crate::solver::finding::{fills_within_quota, lemma_search_finds};
use crate::solver::search::{candidate, search, search_from, search_with, within_quota};
use crate::solver::seed::{colors_left, solution};
use crate::solver::TenPieceFacePolicy;

verus! {

/// Whether the board can be filled within the quota.
pub open spec fn fillable(taken: Set<int>, colors: Set<Color>, face_a: int, face_b: int) -> bool {
    exists|added: Seq<PlacedPiece>| fills_within_quota(taken, colors, face_a, face_b, added)
}

/// Whether the board with the piece on its first empty cell can be filled within the quota,
/// the piece being of a colour that is left and its face within the quota.
pub open spec fn leads_on(
    taken: Set<int>,
    colors: Set<Color>,
    face_a: int,
    face_b: int,
    placed: PlacedPiece,
) -> bool {
    &&& colors.contains(placed.piece.color)
    &&& within_quota(placed.piece.face, face_a, face_b)
    &&& can_place(taken, placed)
    &&& fillable(
        taken.union(placed.cells()),
        colors.remove(placed.piece.color),
        face_a + if placed.piece.face == Face::A { 1int } else { 0 },
        face_b + if placed.piece.face == Face::B { 1int } else { 0 },
    )
}

/// Whether `added`, read from its end, is the first way to fill the board in the order of
/// the search: on the first empty cell lies the variant with the least identifier that
/// leads on to a full board, and the pieces before it in the list fill the rest in the
/// same way.
pub open spec fn is_first_way(
    taken: Set<int>,
    colors: Set<Color>,
    face_a: int,
    face_b: int,
    added: Seq<PlacedPiece>,
) -> bool
    decreases added.len(),
{
    if added.len() == 0 {
        forall|cell: int| 0 <= cell < 50 ==> taken.contains(cell)
    } else {
        let placed = added.last();
        &&& is_first_empty(taken, 0, placed.top_left as int)
        &&& leads_on(taken, colors, face_a, face_b, placed)
        &&& forall|k: int|
            0 <= k < placed.piece.id() ==> !leads_on(
                taken,
                colors,
                face_a,
                face_b,
                #[trigger] candidate(k, placed.top_left as int),
            )
        &&& is_first_way(
            taken.union(placed.cells()),
            colors.remove(placed.piece.color),
            face_a + if placed.piece.face == Face::A { 1int } else { 0 },
            face_b + if placed.piece.face == Face::B { 1int } else { 0 },
            added.drop_last(),
        )
    }
}

/// What the search returns is the first way to fill the board.
pub proof fn lemma_search_finds_first<B: Board>(
    taken: Set<int>,
    colors: Set<Color>,
    lower: int,
    face_a: int,
    face_b: int,
)
    requires
        0 <= lower,
        forall|cell: int| 0 <= cell < lower ==> taken.contains(cell),
        face_a <= 6,
        face_b <= 4,
    ensures
        search::<B>(taken, colors, lower, face_a, face_b) matches Some(added) ==> is_first_way(
            taken,
            colors,
            face_a,
            face_b,
            added,
        ),
    decreases 50 - lower, 81int,
{
    if lower >= 50 {
    } else if taken.contains(lower) {
        lemma_search_finds_first::<B>(taken, colors, lower + 1, face_a, face_b);
    } else if B::hopeless(taken, lower) {
    } else {
        lemma_search_from_finds_first::<B>(taken, colors, lower, face_a, face_b, 0);
    }
}

/// What the search returns when it fills the first empty cell `index` with one of the
/// variants from identifier `k` on is the first way to fill the board, if no variant
/// before `k` leads on to a full board.
pub proof fn lemma_search_from_finds_first<B: Board>(
    taken: Set<int>,
    colors: Set<Color>,
    index: int,
    face_a: int,
    face_b: int,
    k: int,
)
    requires
        is_first_empty(taken, 0, index),
        face_a <= 6,
        face_b <= 4,
        0 <= k,
        forall|j: int|
            0 <= j < k ==> !leads_on(taken, colors, face_a, face_b, #[trigger] candidate(j, index)),
    ensures
        search_from::<B>(taken, colors, index, face_a, face_b, k) matches Some(added)
            ==> is_first_way(taken, colors, face_a, face_b, added),
    decreases 50 - index, 80 - k,
{
    if k < 80 {
        let placed = candidate(k, index);
        lemma_piece_id_round_trip(placed.piece, k);
        let next_a = face_a + if placed.piece.face == Face::A { 1int } else { 0 };
        let next_b = face_b + if placed.piece.face == Face::B { 1int } else { 0 };
        let next_taken = taken.union(placed.cells());
        let next_colors = colors.remove(placed.piece.color);
        if colors.contains(placed.piece.color) && within_quota(placed.piece.face, face_a, face_b)
            && can_place(taken, placed) {
            lemma_anchor_covered(placed);
            match search_with::<B>(taken, colors, face_a, face_b, placed) {
                Some(rest) => {
                    lemma_search_fills::<B>(next_taken, next_colors, index + 1, next_a, next_b);
                    assert(fills_within_quota(next_taken, next_colors, next_a, next_b, rest));
                    lemma_search_finds_first::<B>(
                        next_taken,
                        next_colors,
                        index + 1,
                        next_a,
                        next_b,
                    );
                    let added = rest.push(placed);
                    assert(added.drop_last() =~= rest);
                    assert(added.last() == placed);
                },
                None => {
                    if fillable(next_taken, next_colors, next_a, next_b) {
                        let way = choose|way: Seq<PlacedPiece>|
                            fills_within_quota(next_taken, next_colors, next_a, next_b, way);
                        lemma_search_finds::<B>(
                            next_taken,
                            next_colors,
                            index + 1,
                            next_a,
                            next_b,
                            way,
                        );
                    }
                    lemma_search_from_finds_first::<B>(taken, colors, index, face_a, face_b, k + 1);
                },
            }
        } else {
            lemma_search_from_finds_first::<B>(taken, colors, index, face_a, face_b, k + 1);
        }
    }
}

/// There is one first way to fill a board at most.
pub proof fn lemma_one_first_way(
    taken: Set<int>,
    colors: Set<Color>,
    face_a: int,
    face_b: int,
    one: Seq<PlacedPiece>,
    other: Seq<PlacedPiece>,
)
    requires
        is_first_way(taken, colors, face_a, face_b, one),
        is_first_way(taken, colors, face_a, face_b, other),
    ensures
        one == other,
    decreases one.len(),
{
    if one.len() == 0 || other.len() == 0 {
        // On a full board nothing is placed, and on another something is.
        if one.len() > 0 {
            assert(!taken.contains(one.last().top_left as int));
        }
        if other.len() > 0 {
            assert(!taken.contains(other.last().top_left as int));
        }
        assert(one =~= other);
    } else {
        let p = one.last();
        let q = other.last();
        assert(p.top_left == q.top_left);
        lemma_piece_id_round_trip(p.piece, 0);
        lemma_piece_id_round_trip(q.piece, 0);
        let index = p.top_left as int;
        if p.piece.id() < q.piece.id() {
            assert(p == candidate(p.piece.id(), index));
        }
        if q.piece.id() < p.piece.id() {
            assert(q == candidate(q.piece.id(), index));
        }
        assert(p.piece == q.piece);
        assert(p == q);
        lemma_one_first_way(
            taken.union(p.cells()),
            colors.remove(p.piece.color),
            face_a + if p.piece.face == Face::A { 1int } else { 0 },
            face_b + if p.piece.face == Face::B { 1int } else { 0 },
            one.drop_last(),
            other.drop_last(),
        );
        assert(one =~= one.drop_last().push(p));
        assert(other =~= other.drop_last().push(q));
    }
}

/// Giving up early never changes what is found: on two kinds of board the search returns
/// the same.
pub proof fn lemma_search_alike<A: Board, B: Board>(
    taken: Set<int>,
    colors: Set<Color>,
    lower: int,
    face_a: int,
    face_b: int,
)
    requires
        0 <= lower,
        forall|cell: int| 0 <= cell < lower ==> taken.contains(cell),
        face_a <= 6,
        face_b <= 4,
    ensures
        search::<A>(taken, colors, lower, face_a, face_b) == search::<B>(
            taken,
            colors,
            lower,
            face_a,
            face_b,
        ),
{
    let by_a = search::<A>(taken, colors, lower, face_a, face_b);
    let by_b = search::<B>(taken, colors, lower, face_a, face_b);
    lemma_search_fills::<A>(taken, colors, lower, face_a, face_b);
    lemma_search_fills::<B>(taken, colors, lower, face_a, face_b);
    lemma_search_finds_first::<A>(taken, colors, lower, face_a, face_b);
    lemma_search_finds_first::<B>(taken, colors, lower, face_a, face_b);
    if let Some(way) = by_a {
        lemma_search_finds::<B>(taken, colors, lower, face_a, face_b, way);
    }
    if let Some(way) = by_b {
        lemma_search_finds::<A>(taken, colors, lower, face_a, face_b, way);
    }
    if by_a is Some {
        lemma_one_first_way(taken, colors, face_a, face_b, by_a.unwrap(), by_b.unwrap());
    }
}

/// Solving a seed within the quota gives the same on every kind of board.
pub proof fn lemma_solution_alike<A: Board, B: Board>(seed: Seq<PlacedPiece>)
    requires
        within_quota_so_far(seed),
    ensures
        solution::<A>(seed) == solution::<B>(seed),
{
    let face_a = TenPieceFacePolicy::count_face_a(seed) as int;
    lemma_search_alike::<A, B>(covered(seed), colors_left(seed), 0, face_a, seed.len() - face_a);
}

/// What solving a seed within the quota returns is the first way to fill the board on
/// which the seed lies, followed by the seed.
pub proof fn lemma_solution_is_first<B: Board>(seed: Seq<PlacedPiece>)
    requires
        within_quota_so_far(seed),
    ensures
        solution::<B>(seed) matches Some(all) ==> all.len() >= seed.len() && all.skip(
            all.len() - seed.len(),
        ) == seed && is_first_way(
            covered(seed),
            colors_left(seed),
            TenPieceFacePolicy::count_face_a(seed) as int,
            count_face_b(seed),
            all.take(all.len() - seed.len()),
        ),
{
    let face_a = TenPieceFacePolicy::count_face_a(seed) as int;
    lemma_search_finds_first::<B>(covered(seed), colors_left(seed), 0, face_a, seed.len() - face_a);
    if let Some(added) = search::<B>(
        covered(seed),
        colors_left(seed),
        0,
        face_a,
        seed.len() - face_a,
    ) {
        assert((added + seed).take(added.len() as int) =~= added);
        assert((added + seed).skip(added.len() as int) =~= seed);
    }
}

} // verus!
