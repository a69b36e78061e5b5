//! The balls of each piece: the upright shapes, the quarter turn, and the balls of a piece
//! from its anchor in each orientation.
use vstd::prelude::*;
use crate::pieces::{Color, Face, Orientation, Piece};

verus! {

/// Every piece, upright, has three balls in a column: rows 0 to 2 of column 0.
pub open spec fn spine(r: int, c: int) -> bool {
    c == 0 && 0 <= r <= 2
}

/// The balls that a face of a colour has besides the spine, upright: each either
/// lengthens the spine downward, at (3, 0), or sits to its right, in column 1.
pub open spec fn extra(color: Color, face: Face, r: int, c: int) -> bool {
    match (color, face) {
        (Color::Yellow, Face::A) => (r == 0 && c == 1) || (r == 3 && c == 0),
        (Color::Yellow, Face::B) => (r == 0 && c == 1) || (r == 1 && c == 1) || (r == 3 && c == 0),
        (Color::Orange, Face::A) => (r == 3 && c == 0) || (r == 2 && c == 1),
        (Color::Orange, Face::B) => (r == 3 && c == 0) || (r == 1 && c == 1) || (r == 3 && c == 1),
        (Color::Red, Face::A) => (r == 3 && c == 0) || (r == 3 && c == 1),
        (Color::Red, Face::B) => (r == 3 && c == 0) || (r == 0 && c == 1) || (r == 3 && c == 1),
        (Color::Pink, Face::A) => (r == 3 && c == 0) || (r == 1 && c == 1),
        (Color::Pink, Face::B) => (r == 3 && c == 0) || (r == 2 && c == 1) || (r == 3 && c == 1),
        (Color::LightGreen, Face::A) => r == 2 && c == 1,
        (Color::LightGreen, Face::B) => (r == 0 && c == 1) || (r == 2 && c == 1),
        (Color::Green, Face::A) => r == 1 && c == 1,
        (Color::Green, Face::B) => (r == 1 && c == 1) || (r == 2 && c == 1),
        (Color::LightBlue, Face::A) => (r == 3 && c == 0) || (r == 2 && c == 1),
        (Color::LightBlue, Face::B) => (r == 3 && c == 0) || (r == 1 && c == 1) || (r == 2
            && c == 1),
        (Color::Blue, Face::A) => (r == 3 && c == 0) || (r == 3 && c == 1),
        (Color::Blue, Face::B) => (r == 3 && c == 0) || (r == 0 && c == 1) || (r == 2 && c == 1),
        (Color::DeepBlue, Face::A) => r == 1 && c == 1,
        (Color::DeepBlue, Face::B) => (r == 0 && c == 1) || (r == 2 && c == 1),
        (Color::Purple, Face::A) => r == 0 && c == 1,
        (Color::Purple, Face::B) => (r == 0 && c == 1) || (r == 1 && c == 1),
    }
}

/// Whether a face of a colour, upright, has a ball in row `r`, column `c`.
/// Rows count downward and columns to the right.
pub open spec fn upright(color: Color, face: Face, r: int, c: int) -> bool {
    spine(r, c) || extra(color, face, r, c)
}

/// A quarter turn to the right about the origin.
pub open spec fn turn(p: (int, int)) -> (int, int) {
    (p.1, -p.0)
}

/// The position from which a quarter turn to the right leads to `p`.
pub open spec fn turn_back(p: (int, int)) -> (int, int) {
    (-p.1, p.0)
}

/// Whether the piece has a ball at `p` after it was turned about the origin, from upright
/// into its orientation.
pub open spec fn turned(piece: Piece, p: (int, int)) -> bool {
    let q = match piece.orientation {
        Orientation::Up => p,
        Orientation::Right => turn_back(p),
        Orientation::Down => turn_back(turn_back(p)),
        Orientation::Left => turn_back(turn_back(turn_back(p))),
    };
    upright(piece.color, piece.face, q.0, q.1)
}

/// Reading order: row by row, each from left to right.
pub open spec fn reads_before(p: (int, int), q: (int, int)) -> bool {
    p.0 < q.0 || (p.0 == q.0 && p.1 <= q.1)
}

/// Whether `p` is the first ball of the turned piece in reading order.
pub open spec fn is_anchor(piece: Piece, p: (int, int)) -> bool {
    &&& turned(piece, p)
    &&& forall|q: (int, int)| #[trigger] turned(piece, q) ==> reads_before(p, q)
}

/// The first ball of the turned piece in reading order. A piece is placed by this ball.
pub open spec fn anchor(piece: Piece) -> (int, int) {
    choose|p: (int, int)| is_anchor(piece, p)
}

/// Whether the piece has a ball `dr` rows below and `dc` columns to the right of its anchor.
#[verifier::opaque]
pub open spec fn has_ball(piece: Piece, dr: int, dc: int) -> bool {
    turned(piece, (anchor(piece).0 + dr, anchor(piece).1 + dc))
}

/// Where the anchor of each variant lies, before the piece is shifted to bring it to the
/// origin.
pub open spec fn anchor_at(piece: Piece) -> (int, int) {
    let reach: int = if upright(piece.color, piece.face, 3, 0) { 3 } else { 2 };
    match piece.orientation {
        Orientation::Up => (0, 0),
        Orientation::Right => (0, -reach),
        Orientation::Down => (-reach, if upright(piece.color, piece.face, reach,
            1) { -1int } else { 0 }),
        Orientation::Left => (
            -1,
            if upright(piece.color, piece.face, 0, 1) {
                0int
            } else if upright(piece.color, piece.face, 1, 1) {
                1
            } else if upright(piece.color, piece.face, 2, 1) {
                2
            } else {
                3
            },
        ),
    }
}

/// Each variant has a first ball in reading order, and it lies where `anchor_at` says.
pub proof fn lemma_anchor(piece: Piece)
    ensures
        is_anchor(piece, anchor(piece)),
        anchor(piece) == anchor_at(piece),
{
    let a = anchor_at(piece);
    assert(is_anchor(piece, a));
    let b = anchor(piece);
    assert(is_anchor(piece, b));
    assert(reads_before(a, b) && reads_before(b, a));
}

/// No ball lies before the anchor in reading order, nor more than three rows or columns
/// from it.
pub proof fn lemma_ball_extent(piece: Piece, dr: int, dc: int)
    requires
        has_ball(piece, dr, dc),
    ensures
        0 <= dr <= 3,
        -3 <= dc <= 3,
        dr == 0 ==> dc >= 0,
{
    reveal(has_ball);
    lemma_anchor(piece);
}

/// Every piece has a ball on its anchor.
pub proof fn lemma_anchor_ball(piece: Piece)
    ensures
        has_ball(piece, 0, 0),
{
    reveal(has_ball);
    lemma_anchor(piece);
}

/// Beside its anchor every piece has a ball below it, or one after it and then a third
/// after that one or below that one.
pub proof fn lemma_balls_near_anchor(piece: Piece)
    ensures
        has_ball(piece, 1, 0) || (has_ball(piece, 0, 1) && (has_ball(piece, 0, 2) || has_ball(
            piece,
            1,
            1,
        ))),
{
    reveal(has_ball);
    lemma_anchor(piece);
}

/// How many balls the spine of a piece has: three, or four where the upright piece has a
/// ball below the three.
pub open spec fn spine_len(piece: Piece) -> int {
    if upright(piece.color, piece.face, 3, 0) {
        4
    } else {
        3
    }
}

/// Where the first ball of the spine lies from the anchor, counting so that the others
/// follow it downward or to the right.
#[verifier::opaque]
pub open spec fn spine_start(piece: Piece) -> (int, int) {
    match piece.orientation {
        Orientation::Up | Orientation::Right => (0, 0),
        Orientation::Down => (0, -anchor_at(piece).1),
        Orientation::Left => (1, -anchor_at(piece).1),
    }
}

/// The step from a ball of the spine to the ball beside it, where there is one: every
/// ball off the spine lies on the same side of it.
pub open spec fn spine_side(piece: Piece) -> (int, int) {
    match piece.orientation {
        Orientation::Up => (0, 1),
        Orientation::Right => (1, 0),
        Orientation::Down => (0, -1),
        Orientation::Left => (-1, 0),
    }
}

/// Ball `k` of the spine, from the anchor: the balls follow each other downward where the
/// spine stands, and to the right where it lies.
pub open spec fn spine_ball(piece: Piece, k: int) -> (int, int) {
    match piece.orientation {
        Orientation::Up | Orientation::Down => (spine_start(piece).0 + k, spine_start(piece).1),
        Orientation::Right | Orientation::Left => (spine_start(piece).0, spine_start(piece).1 + k),
    }
}

/// Every piece is a spine with balls beside it: the balls of the spine are balls of the
/// piece, and one ball at least lies beside the spine.
pub proof fn lemma_spine(piece: Piece) -> (beside: int)
    ensures
        forall|k: int|
            0 <= k < spine_len(piece) ==> has_ball(
                piece,
                (#[trigger] spine_ball(piece, k)).0,
                spine_ball(piece, k).1,
            ),
        0 <= beside < spine_len(piece),
        has_ball(
            piece,
            spine_ball(piece, beside).0 + spine_side(piece).0,
            spine_ball(piece, beside).1 + spine_side(piece).1,
        ),
{
    reveal(has_ball);
    reveal(spine_start);
    lemma_anchor(piece);
    if upright(piece.color, piece.face, 0, 1) {
        if piece.orientation == Orientation::Up || piece.orientation == Orientation::Left {
            0
        } else {
            spine_len(piece) - 1
        }
    } else if upright(piece.color, piece.face, 1, 1) {
        if piece.orientation == Orientation::Up || piece.orientation == Orientation::Left {
            1
        } else {
            spine_len(piece) - 2
        }
    } else if upright(piece.color, piece.face, 2, 1) {
        if piece.orientation == Orientation::Up || piece.orientation == Orientation::Left {
            2
        } else {
            spine_len(piece) - 3
        }
    } else {
        if piece.orientation == Orientation::Up || piece.orientation == Orientation::Left {
            3
        } else {
            0
        }
    }
}

/// Every ball of a piece is a ball of its spine or lies beside one.
pub proof fn lemma_on_or_beside_spine(piece: Piece, dr: int, dc: int) -> (k: int)
    requires
        has_ball(piece, dr, dc),
    ensures
        0 <= k < spine_len(piece),
        (dr, dc) == spine_ball(piece, k) || (dr, dc) == (
            spine_ball(piece, k).0 + spine_side(piece).0,
            spine_ball(piece, k).1 + spine_side(piece).1,
        ),
{
    reveal(has_ball);
    reveal(spine_start);
    lemma_anchor(piece);
    let s = spine_start(piece);
    match piece.orientation {
        Orientation::Up | Orientation::Down => dr - s.0,
        Orientation::Right | Orientation::Left => dc - s.1,
    }
}

/// The balls of a piece, each by its row and column from the anchor.
pub open spec fn footprint(piece: Piece) -> Set<(int, int)> {
    Set::new(|p: (int, int)| has_ball(piece, p.0, p.1))
}

/// Whether `p` is the first position of the set in reading order.
pub open spec fn is_first(shape: Set<(int, int)>, p: (int, int)) -> bool {
    &&& shape.contains(p)
    &&& forall|q: (int, int)| shape.contains(q) ==> reads_before(p, q)
}

/// The set turned a quarter to the right about the origin.
pub open spec fn turned_set(shape: Set<(int, int)>) -> Set<(int, int)> {
    Set::new(|p: (int, int)| shape.contains(turn_back(p)))
}

/// The set turned a quarter to the right and then shifted so that its first position in
/// reading order comes to lie on the origin.
pub open spec fn quarter_turn(shape: Set<(int, int)>) -> Set<(int, int)> {
    let first = choose|p: (int, int)| is_first(turned_set(shape), p);
    Set::new(|p: (int, int)| turned_set(shape).contains((p.0 + first.0, p.1 + first.1)))
}

/// Four quarter turns bring every position back to where it was.
pub proof fn lemma_four_turns(p: (int, int))
    ensures
        turn(turn(turn(turn(p)))) == p,
        turn_back(turn(p)) == p,
        turn(turn_back(p)) == p,
{
}

/// The balls of a piece in its next orientation are its balls turned a quarter to the
/// right and anchored anew.
pub proof fn lemma_footprint_turns(piece: Piece)
    ensures
        footprint(piece.turned()) == quarter_turn(footprint(piece)),
{
    reveal(has_ball);
    let next = piece.turned();
    lemma_anchor(piece);
    lemma_anchor(next);
    let a = anchor(piece);
    let b = anchor(next);
    let shape = turned_set(footprint(piece));
    // Where the anchor of the next orientation lies among the balls turned about the old
    // anchor.
    let t = turn(a);
    let first = (b.0 - t.0, b.1 - t.1);
    assert forall|p: (int, int)| shape.contains(p) <==> turned(next, (p.0 + t.0, p.1 + t.1)) by {
        let q = turn_back(p);
        assert(shape.contains(p) <==> has_ball(piece, q.0, q.1));
    }
    assert(is_first(shape, first)) by {
        assert(turned(next, b));
        assert forall|q: (int, int)| shape.contains(q) implies reads_before(first, q) by {
            assert(turned(next, (q.0 + t.0, q.1 + t.1)));
        }
    }
    let chosen = choose|p: (int, int)| is_first(shape, p);
    assert(is_first(shape, chosen));
    assert(reads_before(first, chosen) && reads_before(chosen, first));
    assert(chosen == first);
    assert forall|p: (int, int)| footprint(next).contains(p) <==> quarter_turn(
        footprint(piece),
    ).contains(p) by {
        assert(quarter_turn(footprint(piece)).contains(p) <==> shape.contains(
            (p.0 + first.0, p.1 + first.1),
        ));
    }
    assert(footprint(next) =~= quarter_turn(footprint(piece)));
}

/// Turning a piece four times gives the balls that it had.
pub proof fn lemma_footprint_four_turns(piece: Piece)
    ensures
        piece.turned().turned().turned().turned() == piece,
        quarter_turn(quarter_turn(quarter_turn(quarter_turn(footprint(piece)))))
            == footprint(piece),
{
    lemma_footprint_turns(piece);
    lemma_footprint_turns(piece.turned());
    lemma_footprint_turns(piece.turned().turned());
    lemma_footprint_turns(piece.turned().turned().turned());
}

/// How many balls a face of a colour has: with face A up four or five, with face B up one
/// more.
pub open spec fn ball_count(color: Color, face: Face) -> nat {
    let face_a: nat = match color {
        Color::Yellow | Color::Orange | Color::Red | Color::Pink => 5,
        Color::LightGreen | Color::Green => 4,
        Color::LightBlue | Color::Blue => 5,
        Color::DeepBlue | Color::Purple => 4,
    };
    match face {
        Face::A => face_a,
        Face::B => face_a + 1,
    }
}

/// The balls of an upright piece, counted.
proof fn lemma_upright_count(color: Color, face: Face)
    ensures
        footprint(Piece { orientation: Orientation::Up, face, color }).finite(),
        footprint(Piece { orientation: Orientation::Up, face, color }).len() == ball_count(
            color,
            face,
        ),
{
    reveal(has_ball);
    let piece = Piece { orientation: Orientation::Up, face, color };
    lemma_anchor(piece);
    let spine = set![(0int, 0int), (1int, 0int), (2int, 0int)];
    let extras: Set<(int, int)> = match (color, face) {
        (Color::Yellow, Face::A) => set![(0int, 1int), (3int, 0int)],
        (Color::Yellow, Face::B) => set![(0int, 1int), (1int, 1int), (3int, 0int)],
        (Color::Orange, Face::A) => set![(3int, 0int), (2int, 1int)],
        (Color::Orange, Face::B) => set![(3int, 0int), (1int, 1int), (3int, 1int)],
        (Color::Red, Face::A) => set![(3int, 0int), (3int, 1int)],
        (Color::Red, Face::B) => set![(3int, 0int), (0int, 1int), (3int, 1int)],
        (Color::Pink, Face::A) => set![(3int, 0int), (1int, 1int)],
        (Color::Pink, Face::B) => set![(3int, 0int), (2int, 1int), (3int, 1int)],
        (Color::LightGreen, Face::A) => set![(2int, 1int)],
        (Color::LightGreen, Face::B) => set![(0int, 1int), (2int, 1int)],
        (Color::Green, Face::A) => set![(1int, 1int)],
        (Color::Green, Face::B) => set![(1int, 1int), (2int, 1int)],
        (Color::LightBlue, Face::A) => set![(3int, 0int), (2int, 1int)],
        (Color::LightBlue, Face::B) => set![(3int, 0int), (1int, 1int), (2int, 1int)],
        (Color::Blue, Face::A) => set![(3int, 0int), (3int, 1int)],
        (Color::Blue, Face::B) => set![(3int, 0int), (0int, 1int), (2int, 1int)],
        (Color::DeepBlue, Face::A) => set![(1int, 1int)],
        (Color::DeepBlue, Face::B) => set![(0int, 1int), (2int, 1int)],
        (Color::Purple, Face::A) => set![(0int, 1int)],
        (Color::Purple, Face::B) => set![(0int, 1int), (1int, 1int)],
    };
    assert(footprint(piece) =~= spine.union(extras));
    assert(spine.len() == 3);
    assert(spine.disjoint(extras));
    vstd::set_lib::lemma_set_disjoint_lens(spine, extras);
}

/// A quarter turn keeps the number of balls.
proof fn lemma_turn_keeps_count(piece: Piece)
    requires
        footprint(piece).finite(),
    ensures
        footprint(piece.turned()).finite(),
        footprint(piece.turned()).len() == footprint(piece).len(),
{
    let next = piece.turned();
    lemma_anchor(piece);
    lemma_anchor(next);
    let a = anchor(piece);
    let b = anchor(next);
    // Where a ball of the piece comes to lie among the balls of the turned piece.
    let moved = |p: (int, int)| { let t = turn((p.0 + a.0, p.1 + a.1)); (t.0 - b.0, t.1 - b.1) };
    assert forall|q: (int, int)| footprint(next).contains(q)
        <==> footprint(piece).map(moved).contains(
        q,
    ) by {
        reveal(has_ball);
        let t = turn_back((q.0 + b.0, q.1 + b.1));
        let p = (t.0 - a.0, t.1 - a.1);
        assert(moved(p) == q);
        if footprint(next).contains(q) {
            assert(footprint(piece).contains(p));
        }
        if footprint(piece).map(moved).contains(q) {
            let from = choose|from: (int, int)| footprint(piece).contains(from) && moved(from) == q;
            assert(from == p);
        }
    }
    assert(footprint(next) =~= footprint(piece).map(moved));
    assert(vstd::relations::injective_on(moved, footprint(piece)));
    vstd::set_lib::lemma_map_size(footprint(piece), footprint(next), moved);
}

/// The number of balls of a piece is that of its colour and face, whichever way it is
/// turned.
pub proof fn lemma_ball_count(piece: Piece)
    ensures
        footprint(piece).finite(),
        footprint(piece).len() == ball_count(piece.color, piece.face),
{
    let up = Piece { orientation: Orientation::Up, ..piece };
    lemma_upright_count(piece.color, piece.face);
    lemma_turn_keeps_count(up);
    lemma_turn_keeps_count(up.turned());
    lemma_turn_keeps_count(up.turned().turned());
}

} // verus!
