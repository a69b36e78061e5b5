//! The placement data of a piece, and what it says of the piece on the board.
use vstd::prelude::*;
use crate::board::can_place;
use crate::pieces::{Piece, PlacedPiece};
use crate::shapes::{
    ball_count, footprint, has_ball, lemma_anchor_ball, lemma_ball_count, lemma_ball_extent,
};

verus! {

/// Information about a board piece, to place and display it.
#[derive(Debug, Copy, Clone, PartialEq, Eq)]
pub struct DisplayBoardPlacementInfo {
    /// How many columns to the right of the top_left do you need.
    pub width_right: u8,
    /// How many columns to the left of the top_left do you need.
    pub width_left: u8,
    /// How many rows below the top_left do you need.
    pub height: u8,
    /// The number of balls on the piece. Also the number of elements in the array.
    pub num_balls: u8,
    /// The index of the balls, relative to the top-left corner.
    pub balls: [u8; 6],
    /// One bit for each ball, at the index of the ball.
    pub as_binary: u64,
}

/// The row of the ball that lies `offset` cells after the anchor in reading order, where no
/// ball lies more than three columns to the left of its anchor.
pub open spec fn offset_row(offset: int) -> int {
    (offset + 3) / 10
}

/// The column of that ball.
pub open spec fn offset_col(offset: int) -> int {
    offset - 10 * offset_row(offset)
}

/// The word that has bit `b` set for each `b` among the six given, and no other.
pub open spec fn bits_of(b0: u8, b1: u8, b2: u8, b3: u8, b4: u8, b5: u8) -> u64 {
    (1u64 << b0) | (1u64 << b1) | (1u64 << b2) | (1u64 << b3) | (1u64 << b4) | (1u64 << b5)
}

/// The word that has a bit set for each entry of a list of six.
pub open spec fn mask_of(balls: Seq<u8>) -> u64 {
    bits_of(balls[0], balls[1], balls[2], balls[3], balls[4], balls[5])
}

impl DisplayBoardPlacementInfo {
    /// Whether `offset` is among the balls listed.
    #[verifier::opaque]
    pub open spec fn lists(self, offset: int) -> bool {
        exists|i: int| 0 <= i < self.num_balls && #[trigger] self.balls@[i] == offset
    }

    /// The place in the list of an offset that is listed.
    pub proof fn lemma_listed(self, offset: int) -> (i: int)
        requires
            self.lists(offset),
        ensures
            0 <= i < self.num_balls,
            self.balls@[i] == offset,
    {
        reveal(DisplayBoardPlacementInfo::lists);
        choose|i: int| 0 <= i < self.num_balls && #[trigger] self.balls@[i] == offset
    }

    /// What stands in the list is listed.
    pub proof fn lemma_lists(self, i: int)
        requires
            0 <= i < self.num_balls,
        ensures
            self.lists(self.balls@[i] as int),
    {
        reveal(DisplayBoardPlacementInfo::lists);
    }

    /// Whether this is the placement data of `piece`: its balls in reading order, each as
    /// ten times its row plus its column from the anchor, the extent of the piece to the
    /// left, to the right and downward, and its balls as bits.
    pub open spec fn describes(self, piece: Piece) -> bool {
        &&& 4 <= self.num_balls <= 6
        &&& forall|i: int, j: int|
            0 <= i < j < self.num_balls ==> self.balls@[i] < self.balls@[j]
        &&& forall|i: int| self.num_balls <= i < 6 ==> self.balls@[i] == 0
        &&& forall|i: int|
            0 <= i < self.num_balls ==> has_ball(
                piece,
                offset_row(#[trigger] self.balls@[i] as int),
                offset_col(self.balls@[i] as int),
            )
        &&& forall|dr: int, dc: int| #[trigger]
            has_ball(piece, dr, dc) ==> {
                &&& self.lists(10 * dr + dc)
                &&& 0 <= dr <= self.height
                &&& -self.width_left <= dc <= self.width_right
            }
        &&& exists|dr: int, dc: int| #[trigger] has_ball(piece, dr, dc) && dc == -self.width_left
        &&& exists|dr: int, dc: int| #[trigger] has_ball(piece, dr, dc) && dc == self.width_right
        &&& exists|dr: int, dc: int| #[trigger] has_ball(piece, dr, dc) && dr == self.height
        &&& self.as_binary == mask_of(self.balls@)
    }
}

/// The extent that the placement data of a piece gives is at most three cells each way.
pub proof fn lemma_extent(piece: Piece, info: DisplayBoardPlacementInfo)
    requires
        info.describes(piece),
    ensures
        info.height <= 3,
        info.width_right <= 3,
        info.width_left <= 3,
{
    let (dr0, dc0) = choose|dr: int, dc: int| #[trigger] has_ball(piece, dr, dc)
        && dc == -info.width_left;
    let (dr1, dc1) = choose|dr: int, dc: int| #[trigger] has_ball(piece, dr, dc)
        && dc == info.width_right;
    let (dr2, dc2) = choose|dr: int, dc: int| #[trigger] has_ball(piece, dr, dc)
        && dr == info.height;
    lemma_ball_extent(piece, dr0, dc0);
    lemma_ball_extent(piece, dr1, dc1);
    lemma_ball_extent(piece, dr2, dc2);
}

/// A piece lies on the grid exactly if its extent to the left, to the right and downward
/// does.
pub proof fn lemma_bounding_box(piece: PlacedPiece, info: DisplayBoardPlacementInfo)
    requires
        info.describes(piece.piece),
    ensures
        piece.on_grid() <==> piece.row() + info.height < 5 && piece.col() + info.width_right < 10
            && piece.col() >= info.width_left,
{
    let p = piece.piece;
    let (dr0, dc0) = choose|dr: int, dc: int| #[trigger] has_ball(p, dr, dc)
        && dc == -info.width_left;
    let (dr1, dc1) = choose|dr: int, dc: int| #[trigger] has_ball(p, dr, dc)
        && dc == info.width_right;
    let (dr2, dc2) = choose|dr: int, dc: int| #[trigger] has_ball(p, dr, dc) && dr == info.height;
    assert(has_ball(p, dr0, dc0) && has_ball(p, dr1, dc1) && has_ball(p, dr2, dc2));
}

/// The cells of a piece on the grid are its anchor's cell plus each offset that its data
/// lists.
pub proof fn lemma_cells(piece: PlacedPiece, info: DisplayBoardPlacementInfo, cell: int)
    requires
        info.describes(piece.piece),
        piece.on_grid(),
    ensures
        piece.cells().contains(cell) <==> info.lists(cell - piece.top_left),
{
    let p = piece.piece;
    let (r, c) = (piece.row(), piece.col());
    if piece.cells().contains(cell) {
        let (dr, dc) = (cell / 10 - r, cell % 10 - c);
        assert(has_ball(p, dr, dc));
        assert(info.lists(10 * dr + dc));
    }
    if info.lists(cell - piece.top_left) {
        let i = info.lemma_listed(cell - piece.top_left);
        let b = info.balls@[i] as int;
        let (dr, dc) = (offset_row(b), offset_col(b));
        assert(has_ball(p, dr, dc));
        assert(cell == 10 * (r + dr) + (c + dc));
        assert(cell / 10 == r + dr && cell % 10 == c + dc);
    }
}

/// The cells of a piece on the grid, by its placement data: each slot of the list gives one,
/// the slots past the last ball the anchor's again, and there are no others.
pub proof fn lemma_piece_cells(piece: PlacedPiece, info: DisplayBoardPlacementInfo)
    requires
        info.describes(piece.piece),
        piece.on_grid(),
    ensures
        forall|i: int|
            0 <= i < 6 ==> piece.cells().contains(piece.top_left + #[trigger] info.balls@[i]),
        forall|cell: int|
            piece.cells().contains(cell) ==> exists|i: int|
                0 <= i < info.num_balls && cell == piece.top_left + #[trigger] info.balls@[i],
        forall|cell: int| piece.cells().contains(cell) ==> piece.top_left <= cell < 50,
{
    assert forall|i: int| 0 <= i < 6 implies piece.cells().contains(
        piece.top_left + #[trigger] info.balls@[i],
    ) by {
        if i < info.num_balls {
            info.lemma_lists(i);
            lemma_cells(piece, info, piece.top_left + info.balls@[i]);
        } else {
            lemma_anchor_ball(piece.piece);
            lemma_cells(piece, info, piece.top_left as int);
        }
    }
    assert forall|cell: int| piece.cells().contains(cell) implies piece.top_left <= cell < 50
        && exists|i: int|
        0 <= i < info.num_balls && cell == piece.top_left + #[trigger] info.balls@[i] by {
        lemma_cells(piece, info, cell);
        let i = info.lemma_listed(cell - piece.top_left);
        assert(cell == piece.top_left + info.balls@[i]);
    }
}

/// A piece whose extent reaches past the last column or the last row cannot be placed,
/// whatever the board holds.
pub proof fn lemma_past_the_edge(
    taken: Set<int>,
    piece: PlacedPiece,
    info: DisplayBoardPlacementInfo,
)
    requires
        info.describes(piece.piece),
        piece.col() + info.width_right > 9 || piece.row() + info.height > 4 || piece.col()
            < info.width_left,
    ensures
        !can_place(taken, piece),
{
    lemma_bounding_box(piece, info);
}

/// The placement data of a piece lists as many balls as the piece has: as many as its
/// colour and face have, whichever way it is turned.
pub proof fn lemma_num_balls(piece: Piece, info: DisplayBoardPlacementInfo)
    requires
        info.describes(piece),
    ensures
        info.num_balls == ball_count(piece.color, piece.face),
{
    let slots = vstd::set_lib::set_int_range(0, info.num_balls as int);
    let ball_in = |i: int| (offset_row(info.balls@[i] as int), offset_col(info.balls@[i] as int));
    vstd::set_lib::lemma_int_range(0, info.num_balls as int);
    assert forall|p: (int, int)| footprint(piece).contains(p) <==> slots.map(ball_in).contains(
        p,
    ) by {
        if footprint(piece).contains(p) {
            lemma_ball_extent(piece, p.0, p.1);
            let i = info.lemma_listed(10 * p.0 + p.1);
            assert(slots.contains(i) && ball_in(i) == p);
        }
        if slots.map(ball_in).contains(p) {
            let i = choose|i: int| slots.contains(i) && ball_in(i) == p;
            assert(has_ball(piece, offset_row(info.balls@[i] as int),
                offset_col(info.balls@[i] as int)));
        }
    }
    assert(footprint(piece) =~= slots.map(ball_in));
    assert forall|i: int, j: int|
        slots.contains(i) && slots.contains(j) && #[trigger] ball_in(i) == #[trigger] ball_in(
            j,
        ) implies i == j by {
        assert(info.balls@[i] == info.balls@[j]);
        if i < j {
            assert(info.balls@[i] < info.balls@[j]);
        }
        if j < i {
            assert(info.balls@[j] < info.balls@[i]);
        }
    }
    vstd::set_lib::lemma_map_size(slots, footprint(piece), ball_in);
    lemma_ball_count(piece);
}

/// A piece on the grid covers as many cells as it has balls.
pub proof fn lemma_cells_count(piece: PlacedPiece)
    requires
        piece.on_grid(),
    ensures
        piece.cells().finite(),
        piece.cells().len() == ball_count(piece.piece.color, piece.piece.face),
{
    let (r, c) = (piece.row(), piece.col());
    let cell_of = |p: (int, int)| 10 * (r + p.0) + (c + p.1);
    lemma_ball_count(piece.piece);
    assert forall|cell: int| piece.cells().contains(cell) <==> footprint(piece.piece).map(
        cell_of,
    ).contains(cell) by {
        if piece.cells().contains(cell) {
            let p = (cell / 10 - r, cell % 10 - c);
            assert(footprint(piece.piece).contains(p) && cell_of(p) == cell);
        }
        if footprint(piece.piece).map(cell_of).contains(cell) {
            let p = choose|p: (int, int)| footprint(piece.piece).contains(p) && cell_of(p) == cell;
            assert(has_ball(piece.piece, p.0, p.1));
            assert(cell / 10 == r + p.0 && cell % 10 == c + p.1);
        }
    }
    assert(piece.cells() =~= footprint(piece.piece).map(cell_of));
    assert forall|p: (int, int), q: (int, int)|
        footprint(piece.piece).contains(p) && footprint(piece.piece).contains(q)
            && #[trigger] cell_of(p) == #[trigger] cell_of(q) implies p == q by {
        assert(has_ball(piece.piece, p.0, p.1) && has_ball(piece.piece, q.0, q.1));
        assert((10 * (r + p.0) + (c + p.1)) / 10 == r + p.0);
        assert((10 * (r + q.0) + (c + q.1)) / 10 == r + q.0);
    }
    vstd::set_lib::lemma_map_size(footprint(piece.piece), piece.cells(), cell_of);
}

/// The four orientations of a face of a piece have the same number of balls.
pub proof fn lemma_same_count_each_way(
    piece: Piece,
    info: DisplayBoardPlacementInfo,
    other: Piece,
    other_info: DisplayBoardPlacementInfo,
)
    requires
        info.describes(piece),
        other_info.describes(other),
        piece.color == other.color,
        piece.face == other.face,
    ensures
        info.num_balls == other_info.num_balls,
{
    lemma_num_balls(piece, info);
    lemma_num_balls(other, other_info);
}

/// Two lists of the balls of one piece agree up to slot `i`.
proof fn lemma_same_balls(
    piece: Piece,
    one: DisplayBoardPlacementInfo,
    other: DisplayBoardPlacementInfo,
    i: int,
)
    requires
        one.describes(piece),
        other.describes(piece),
        one.num_balls == other.num_balls,
        0 <= i < one.num_balls,
    ensures
        forall|j: int| 0 <= j <= i ==> one.balls@[j] == other.balls@[j],
    decreases i,
{
    if i > 0 {
        lemma_same_balls(piece, one, other, i - 1);
    }
    let x = one.balls@[i] as int;
    let y = other.balls@[i] as int;
    assert(has_ball(piece, offset_row(x), offset_col(x)));
    assert(has_ball(piece, offset_row(y), offset_col(y)));
    let at_x = other.lemma_listed(x);
    let at_y = one.lemma_listed(y);
    if at_x < i {
        assert(one.balls@[at_x] < one.balls@[i]);
    }
    if at_x > i {
        assert(other.balls@[i] < other.balls@[at_x]);
    }
    if at_y < i {
        assert(other.balls@[at_y] < other.balls@[i]);
    }
    if at_y > i {
        assert(one.balls@[i] < one.balls@[at_y]);
    }
}

/// A piece has one placement data: what describes it is the same, field by field,
/// whenever it is asked for.
pub proof fn lemma_one_placement_info(
    piece: Piece,
    one: DisplayBoardPlacementInfo,
    other: DisplayBoardPlacementInfo,
)
    requires
        one.describes(piece),
        other.describes(piece),
    ensures
        one == other,
{
    lemma_num_balls(piece, one);
    lemma_num_balls(piece, other);
    lemma_same_balls(piece, one, other, one.num_balls - 1);
    assert(one.balls@ =~= other.balls@);
    assert(one.balls == other.balls);
    let (dr0, dc0) = choose|dr: int, dc: int| #[trigger] has_ball(piece, dr, dc)
        && dc == -one.width_left;
    let (dr1, dc1) = choose|dr: int, dc: int| #[trigger] has_ball(piece, dr, dc)
        && dc == one.width_right;
    let (dr2, dc2) = choose|dr: int, dc: int| #[trigger] has_ball(piece, dr, dc)
        && dr == one.height;
    let (dr3, dc3) = choose|dr: int, dc: int| #[trigger] has_ball(piece, dr, dc)
        && dc == -other.width_left;
    let (dr4, dc4) = choose|dr: int, dc: int| #[trigger] has_ball(piece, dr, dc)
        && dc == other.width_right;
    let (dr5, dc5) = choose|dr: int, dc: int| #[trigger] has_ball(piece, dr, dc)
        && dr == other.height;
    assert(has_ball(piece, dr0, dc0) && has_ball(piece, dr1, dc1) && has_ball(piece, dr2, dc2));
    assert(has_ball(piece, dr3, dc3) && has_ball(piece, dr4, dc4) && has_ball(piece, dr5, dc5));
}

} // verus!
