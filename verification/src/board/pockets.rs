//! Pockets: free cells that no piece can reach, because every piece is a spine of three
//! balls or more with balls beside it.
use vstd::prelude::*;
use crate::board::binary_board::{
    double_hole, double_hole_vertical, pocket, single_hole, triple_hole, triple_hole_l,
    triple_hole_l2, triple_hole_l3,
};
use crate::board::{can_place, covered, filled, fills, vacant};
use crate::pieces::{Orientation, PlacedPiece};
use crate::shapes::{
    has_ball, lemma_on_or_beside_spine, lemma_spine, spine_ball, spine_len, spine_side,
};

verus! {

/// Whether `x` is one of the three cells.
pub open spec fn in_pocket(pocket: (int, int, int), x: int) -> bool {
    x == pocket.0 || x == pocket.1 || x == pocket.2
}

/// Whether `x` is the index after `c`, before it, below it or above it.
pub open spec fn next_to(c: int, x: int) -> bool {
    x == c + 1 || x == c - 1 || x == c + 10 || x == c - 10
}

/// Whether the three cells, or fewer where some are the same, are walled in: every index
/// next to one of them is another of them or counts as filled.
pub open spec fn walled_in(taken: Set<int>, pocket: (int, int, int)) -> bool {
    forall|c: int, x: int|
        in_pocket(pocket, c) && #[trigger] next_to(c, x) ==> in_pocket(pocket, x) || filled(
            taken,
            x,
        )
}

/// The cell of ball `k` of the spine of a piece on the board.
pub open spec fn spine_cell(piece: PlacedPiece, k: int) -> int {
    piece.top_left + 10 * spine_ball(piece.piece, k).0 + spine_ball(piece.piece, k).1
}

/// From the cell of a ball of the spine to the cell of the ball beside it.
pub open spec fn side_stride(piece: PlacedPiece) -> int {
    10 * spine_side(piece.piece).0 + spine_side(piece.piece).1
}

/// The cell of a ball of a piece on the grid is a cell of the piece.
proof fn lemma_cell_of_ball(piece: PlacedPiece, dr: int, dc: int)
    requires
        piece.on_grid(),
        has_ball(piece.piece, dr, dc),
    ensures
        piece.cells().contains(piece.top_left + 10 * dr + dc),
{
    let cell = piece.top_left + 10 * dr + dc;
    assert(cell == 10 * (piece.row() + dr) + (piece.col() + dc));
    assert(cell / 10 == piece.row() + dr && cell % 10 == piece.col() + dc);
}

/// Whether `x` is a cell of the spine that starts on cell `start` and has `len` cells,
/// each `stride` after the one before it.
pub open spec fn on_spine(start: int, stride: int, len: int, x: int) -> bool {
    ||| x == start
    ||| x == start + stride
    ||| x == start + stride + stride
    ||| (len == 4 && x == start + stride + stride + stride)
}

/// Whether no cell of the spine counts as filled.
pub open spec fn spine_free(taken: Set<int>, start: int, stride: int, len: int) -> bool {
    &&& !filled(taken, start)
    &&& !filled(taken, start + stride)
    &&& !filled(taken, start + stride + stride)
    &&& len == 4 ==> !filled(taken, start + stride + stride + stride)
}

/// A spine of three cells or more with a cell beside it does not reach into three cells
/// that are walled in: if no cell of it counts as filled and one were walled in, then all
/// would be, and they are four at least.
proof fn lemma_spine_in_pocket(
    taken: Set<int>,
    pocket: (int, int, int),
    start: int,
    stride: int,
    len: int,
    side: int,
    tooth: int,
    cell: int,
)
    requires
        walled_in(taken, pocket),
        stride == 10 && (side == 1 || side == -1) || stride == 1 && (side == 10 || side == -10),
        len == 3 || len == 4,
        spine_free(taken, start, stride, len),
        on_spine(start, stride, len, tooth - side),
        !filled(taken, tooth),
        on_spine(start, stride, len, cell) || on_spine(start, stride, len, cell - side),
    ensures
        !in_pocket(pocket, cell),
{
    if in_pocket(pocket, cell) {
        let s0 = start;
        let s1 = start + stride;
        let s2 = s1 + stride;
        let s3 = s2 + stride;
        assert(on_spine(start, stride, len, s0) && on_spine(start, stride, len, s1) && on_spine(
            start,
            stride,
            len,
            s2,
        ));
        assert(len == 4 ==> on_spine(start, stride, len, s3));
        // The ball of the spine on the walled-in cell, or beside it.
        let on = if on_spine(start, stride, len, cell) {
            cell
        } else {
            cell - side
        };
        assert(next_to(cell, cell - side));
        assert(in_pocket(pocket, on));
        // From there the whole spine is walled in, ball by ball.
        assert(next_to(s0, s1) && next_to(s1, s0) && next_to(s1, s2) && next_to(s2, s1));
        assert(next_to(s2, s3) && next_to(s3, s2));
        assert(in_pocket(pocket, s0) && in_pocket(pocket, s1) && in_pocket(pocket, s2));
        // And so is the ball beside it: a fourth cell.
        assert(next_to(tooth - side, tooth));
        assert(in_pocket(pocket, tooth));
    }
}

/// The cells of the spine of a piece that can be placed, and the cell of a ball beside it,
/// hold no ball and are cells of the board: none counts as filled.
proof fn lemma_spine_cells_free(taken: Set<int>, piece: PlacedPiece, k: int) -> (beside: int)
    requires
        can_place(taken, piece),
        0 <= k < spine_len(piece.piece),
    ensures
        !filled(taken, spine_cell(piece, k)),
        0 <= beside < spine_len(piece.piece),
        !filled(taken, spine_cell(piece, beside) + side_stride(piece)),
{
    let p = piece.piece;
    let beside = lemma_spine(p);
    assert(has_ball(p, spine_ball(p, k).0, spine_ball(p, k).1));
    lemma_cell_of_ball(piece, spine_ball(p, k).0, spine_ball(p, k).1);
    lemma_cell_of_ball(
        piece,
        spine_ball(p, beside).0 + spine_side(p).0,
        spine_ball(p, beside).1 + spine_side(p).1,
    );
    beside
}

/// Each cell of a piece on the grid is a cell of its spine or lies beside one.
proof fn lemma_cell_on_or_beside_spine(piece: PlacedPiece, cell: int) -> (k: int)
    requires
        piece.on_grid(),
        piece.cells().contains(cell),
    ensures
        0 <= k < spine_len(piece.piece),
        cell == spine_cell(piece, k) || cell == spine_cell(piece, k) + side_stride(piece),
{
    lemma_on_or_beside_spine(piece.piece, cell / 10 - piece.row(), cell % 10 - piece.col())
}

/// The cell from which the spine of a piece on the board starts, the step from each of its
/// cells to the next, the number of its cells, the step to the cell beside it, and that
/// cell.
pub open spec fn spine_of(piece: PlacedPiece, beside: int) -> (int, int, int, int, int) {
    let stride: int = match piece.piece.orientation {
        Orientation::Up | Orientation::Down => 10,
        Orientation::Right | Orientation::Left => 1,
    };
    (
        spine_cell(piece, 0),
        stride,
        spine_len(piece.piece),
        side_stride(piece),
        spine_cell(piece, beside) + side_stride(piece),
    )
}

/// A piece that can be placed is a spine of three cells or four with a cell beside it, none
/// of which counts as filled; and each of its cells is a cell of the spine or lies beside
/// one.
proof fn lemma_piece_is_spine(taken: Set<int>, piece: PlacedPiece, cell: int) -> (beside: int)
    requires
        can_place(taken, piece),
        piece.cells().contains(cell),
    ensures
        ({
            let (start, stride, len, side, tooth) = spine_of(piece, beside);
            &&& stride == 10 && (side == 1 || side == -1) || stride == 1 && (side == 10 || side
                == -10)
            &&& len == 3 || len == 4
            &&& spine_free(taken, start, stride, len)
            &&& on_spine(start, stride, len, tooth - side)
            &&& !filled(taken, tooth)
            &&& on_spine(start, stride, len, cell) || on_spine(start, stride, len, cell - side)
        }),
{
    let beside = lemma_spine_cells_free(taken, piece, 0);
    lemma_spine_cells_free(taken, piece, 1);
    lemma_spine_cells_free(taken, piece, 2);
    if spine_len(piece.piece) == 4 {
        lemma_spine_cells_free(taken, piece, 3);
    }
    let k = lemma_cell_on_or_beside_spine(piece, cell);
    let (start, stride, len, side, tooth) = spine_of(piece, beside);
    assert(spine_cell(piece, 1) == start + stride);
    assert(spine_cell(piece, 2) == start + stride + stride);
    assert(spine_cell(piece, 3) == start + stride + stride + stride);
    assert(on_spine(start, stride, len, spine_cell(piece, k)));
    assert(on_spine(start, stride, len, spine_cell(piece, beside)));
    beside
}

/// No piece can be placed on a cell that is walled in with two others at most: the piece
/// would have to lie on walled-in cells only, and it has more than three balls.
pub proof fn lemma_no_piece_in_pocket(
    taken: Set<int>,
    pocket: (int, int, int),
    piece: PlacedPiece,
    cell: int,
)
    requires
        walled_in(taken, pocket),
        piece.on_grid(),
        piece.cells().contains(cell),
        in_pocket(pocket, cell),
    ensures
        !can_place(taken, piece),
{
    if can_place(taken, piece) {
        let beside = lemma_piece_is_spine(taken, piece, cell);
        let (start, stride, len, side, tooth) = spine_of(piece, beside);
        lemma_spine_in_pocket(taken, pocket, start, stride, len, side, tooth, cell);
    }
}

/// The cells of the pocket that ends in cell `h`.
pub open spec fn pocket_cells(taken: Set<int>, h: int) -> (int, int, int) {
    if single_hole(taken, h) {
        (h, h, h)
    } else if double_hole(taken, h) {
        (h - 1, h, h)
    } else if double_hole_vertical(taken, h) {
        (h - 10, h, h)
    } else if triple_hole(taken, h) {
        (h - 2, h - 1, h)
    } else if triple_hole_l(taken, h) {
        (h - 11, h - 1, h)
    } else if triple_hole_l2(taken, h) {
        (h - 10, h - 1, h)
    } else if triple_hole_l3(taken, h) {
        (h - 11, h - 10, h)
    } else {
        (h - 10, h - 9, h)
    }
}

/// A pocket is three free cells at most, walled in: every index next to one of them is
/// another of them or counts as filled.
pub proof fn lemma_pocket_walled_in(taken: Set<int>, h: int)
    requires
        pocket(taken, h),
    ensures
        walled_in(taken, pocket_cells(taken, h)),
        in_pocket(pocket_cells(taken, h), h),
        forall|x: int| in_pocket(pocket_cells(taken, h), x) ==> vacant(taken, x),
{
}

/// Where a pocket ends in a cell, no pieces fill the board.
pub proof fn lemma_pocket_is_lost(taken: Set<int>, pieces: Seq<PlacedPiece>, h: int)
    requires
        pocket(taken, h),
    ensures
        !fills(taken, pieces),
{
    if fills(taken, pieces) {
        lemma_pocket_walled_in(taken, h);
        assert(covered(pieces).contains(h));
        let i = choose|i: int| 0 <= i < pieces.len() && #[trigger] pieces[i].cells().contains(h);
        let piece = pieces[i];
        assert(piece.on_grid());
        assert forall|cell: int| !(taken.contains(cell) && piece.cells().contains(cell)) by {
            if piece.cells().contains(cell) {
                assert(covered(pieces).contains(cell));
            }
        }
        lemma_no_piece_in_pocket(taken, pocket_cells(taken, h), piece, h);
    }
}

} // verus!
