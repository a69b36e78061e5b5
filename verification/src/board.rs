//! The board: what it is to place a piece, and the operations that every kind of board
//! offers.
use vstd::prelude::*;
use crate::pieces::{Color, Piece, PlacedPiece};
use crate::shapes::{has_ball, lemma_anchor_ball, lemma_ball_extent};

pub mod binary_board;
pub mod display_board;
pub mod display_board_placement_info;
mod placement_table;
pub mod pockets;

pub use binary_board::BinaryBoard;
pub use display_board::DisplayBoard;
pub use display_board_placement_info::DisplayBoardPlacementInfo;

use display_board_placement_info::{lemma_bounding_box, lemma_extent};

verus! {

impl PlacedPiece {
    /// Whether every ball of the piece lies on the grid of five rows and ten columns.
    pub open spec fn on_grid(self) -> bool {
        &&& self.top_left < 50
        &&& forall|dr: int, dc: int| #[trigger]
            has_ball(self.piece, dr, dc) ==> 0 <= self.row() + dr < 5 && 0 <= self.col() + dc
                < 10
    }

    /// The cells of the grid on which a ball of the piece lies. Cells count row by row from
    /// the top left: the cell in row `r` and column `c` is `10 * r + c`.
    pub open spec fn cells(self) -> Set<int> {
        Set::new(
            |cell: int|
                0 <= cell < 50 && has_ball(self.piece, cell / 10 - self.row(),
                    cell % 10 - self.col()),
        )
    }
}

/// Whether the piece can be put on a board on which the cells `taken` hold a ball: it lies
/// on the grid and on free cells only.
pub open spec fn can_place(taken: Set<int>, piece: PlacedPiece) -> bool {
    piece.on_grid() && taken.disjoint(piece.cells())
}

/// Whether `cell` is the first cell from `lower_bound` on that holds no ball.
pub open spec fn is_first_empty(taken: Set<int>, lower_bound: int, cell: int) -> bool {
    &&& lower_bound <= cell < 50
    &&& !taken.contains(cell)
    &&& forall|j: int| lower_bound <= j < cell ==> taken.contains(j)
}

/// Whether every cell from `lower_bound` on holds a ball.
pub open spec fn none_empty(taken: Set<int>, lower_bound: int) -> bool {
    forall|j: int| lower_bound <= j < 50 ==> taken.contains(j)
}

/// Whether a cell index counts as filled when pockets are looked for: one past the last
/// cell, or a cell that holds a ball. An index before the first cell counts as neither
/// filled nor free.
pub open spec fn filled(taken: Set<int>, i: int) -> bool {
    i >= 50 || (0 <= i && taken.contains(i))
}

/// Whether `i` is a cell that holds no ball.
pub open spec fn vacant(taken: Set<int>, i: int) -> bool {
    0 <= i < 50 && !taken.contains(i)
}

/// The cells that hold a ball once the pieces of the list lie on the board.
pub open spec fn covered(pieces: Seq<PlacedPiece>) -> Set<int> {
    Set::new(|cell: int| exists|i: int| 0 <= i < pieces.len()
        && #[trigger] pieces[i].cells().contains(cell))
}

/// Whether the pieces of the list can lie on the board together: each on the grid, no two
/// on a common cell.
pub open spec fn lie_together(pieces: Seq<PlacedPiece>) -> bool {
    &&& forall|i: int| 0 <= i < pieces.len() ==> (#[trigger] pieces[i]).on_grid()
    &&& forall|i: int, j: int|
        0 <= i < j < pieces.len() ==> (#[trigger] pieces[i]).cells().disjoint(
            (#[trigger] pieces[j]).cells(),
        )
}

/// Whether the pieces fill a board of which the cells `taken` hold a ball: they lie
/// together on the free cells and cover each of them.
pub open spec fn fills(taken: Set<int>, pieces: Seq<PlacedPiece>) -> bool {
    &&& lie_together(pieces)
    &&& covered(pieces).disjoint(taken)
    &&& forall|cell: int| 0 <= cell < 50 ==> taken.contains(cell) || covered(pieces).contains(cell)
}

/// Represents a board on which you can place pieces.
pub trait Board: Sized + Copy + Default {
    /// The cells that hold a ball.
    spec fn taken(&self) -> Set<int>;

    /// Where this kind of board gives up: whether, with the cells `taken` holding a ball and
    /// `index` the first cell to fill, it calls the position lost without trying a piece.
    spec fn hopeless(taken: Set<int>, index: int) -> bool;

    /// Whether the board holds the pieces of the list, laid on an empty board one after the
    /// other, and nothing else. This speaks of all that the kind of board keeps: of the
    /// cells that hold a ball, and of the colours on them where it keeps those.
    spec fn holds(&self, pieces: Seq<PlacedPiece>) -> bool;

    /// Only cells of the grid hold a ball.
    proof fn lemma_taken_on_grid(&self)
        ensures
            forall|cell: int| self.taken().contains(cell) ==> 0 <= cell < 50,
    ;

    /// The board gives up on lost positions only: where it gives up with `index` the first
    /// empty cell, no pieces fill the board.
    proof fn lemma_gives_up_rightly(taken: Set<int>, index: int, pieces: Seq<PlacedPiece>)
        requires
            Self::hopeless(taken, index),
            is_first_empty(taken, 0, index),
        ensures
            !fills(taken, pieces),
    ;

    /// Whether the piece lies on the grid and on free cells only. The board stays as it is.
    fn can_place_piece(&self, piece: PlacedPiece) -> (ok: bool)
        ensures
            ok == can_place(self.taken(), piece),
    ;

    /// The board with the piece on it. The piece must be one that can be placed.
    fn with_piece(self, piece: PlacedPiece) -> (next: Self)
        requires
            can_place(self.taken(), piece),
        ensures
            next.taken() == self.taken().union(piece.cells()),
            forall|pieces: Seq<PlacedPiece>| #[trigger]
                self.holds(pieces) ==> next.holds(pieces.push(piece)),
    ;

    /// Try to place a piece with its anchor on the first empty cell, and return whether it
    /// succeeded. If it fails the board is left as it is.
    fn place_piece_top_left(&mut self, piece: Piece) -> (placed: bool)
        ensures
            match at_top_left(old(self).taken(), piece) {
                Some(p) => {
                    &&& placed
                    &&& final(self).taken() == old(self).taken().union(p.cells())
                    &&& forall|pieces: Seq<PlacedPiece>| #[trigger]
                        old(self).holds(pieces) ==> final(self).holds(pieces.push(p))
                },
                None => !placed && *final(self) == *old(self),
            },
    {
        if let Some(index) = self.first_empty_cell(0) {
            let placed_piece = PlacedPiece { top_left: index, piece };
            proof {
                lemma_first_empty(self.taken(), index as int);
            }
            if self.can_place_piece(placed_piece) {
                *self = self.with_piece(placed_piece);
                true
            } else {
                false
            }
        } else {
            false
        }
    }

    /// Find the first cell that hasn't been covered by a piece yet.
    /// `lower_bound` is the first cell that might be empty, indexed from the top left.
    fn first_empty_cell(&self, lower_bound: u8) -> (found: Option<u8>)
        ensures
            match found {
                Some(cell) => is_first_empty(self.taken(), lower_bound as int, cell as int),
                None => none_empty(self.taken(), lower_bound as int),
            },
            found is None <==> none_empty(self.taken(), lower_bound as int),
            lower_bound < 50 && !self.taken().contains(lower_bound as int) ==> found == Some(
                lower_bound,
            ),
    ;

    /// Check if a given cell is empty. No cell outside the grid is.
    fn is_cell_empty(&self, index: u8) -> (empty: bool)
        ensures
            empty == (index < 50 && !self.taken().contains(index as int)),
    ;

    /// Check for common failure patterns, with `index` the first empty cell. Where the
    /// answer is `true`, no pieces fill the board.
    fn check_common_failures(&self, index: u8) -> (dead: bool)
        ensures
            dead == Self::hopeless(self.taken(), index as int),
            dead && is_first_empty(self.taken(), 0, index as int) ==> forall|
                pieces: Seq<PlacedPiece>,
            | !#[trigger] fills(self.taken(), pieces),
    ;

    /// Create an empty board.
    fn empty() -> (board: Self)
        ensures
            board.taken() == Set::<int>::empty(),
            board.holds(Seq::empty()),
    ;

    /// The board on which each piece of the list was placed in turn on the first empty
    /// cell, if each could be.
    fn from_piece_list(pieces: &[Piece]) -> (built: Option<Self>)
        ensures
            match all_at_top_left(pieces@) {
                Some(placed) => built matches Some(board) && board.taken() == covered(placed)
                    && board.holds(placed),
                None => built is None,
            },
    {
        let mut board = Self::empty();
        let mut i: usize = 0;
        let ghost mut placed: Seq<PlacedPiece> = Seq::empty();
        proof {
            assert(pieces@.take(0) =~= Seq::<Piece>::empty());
            assert(covered(placed) =~= Set::<int>::empty());
        }
        while i < pieces.len()
            invariant
                i <= pieces@.len(),
                all_at_top_left(pieces@.take(i as int)) == Some(placed),
                board.taken() == covered(placed),
                board.holds(placed),
            decreases pieces@.len() - i,
        {
            let ghost before = board.taken();
            proof {
                assert(pieces@.take(i + 1).drop_last() =~= pieces@.take(i as int));
                if at_top_left(before, pieces@[i as int]) is None {
                    lemma_all_at_top_left_stays_none(pieces@, i + 1);
                }
            }
            if !board.place_piece_top_left(pieces[i]) {
                return None;
            }
            proof {
                let p = at_top_left(before, pieces@[i as int]).unwrap();
                lemma_covered_push(placed, p);
                placed = placed.push(p);
            }
            i += 1;
        }
        proof {
            assert(pieces@.take(i as int) =~= pieces@);
        }
        Some(board)
    }

    /// The board with the pieces of the list on it, if they can lie on the board together.
    fn from_placed_piece_list(pieces: &[PlacedPiece]) -> (built: Option<Self>)
        ensures
            built is Some <==> lie_together(pieces@),
            built matches Some(board) ==> board.taken() == covered(pieces@) && board.holds(
                pieces@,
            ),
    {
        let mut board = Self::empty();
        let mut i: usize = 0;
        proof {
            assert(covered(pieces@.take(0)) =~= Set::<int>::empty());
            assert(pieces@.take(0) =~= Seq::<PlacedPiece>::empty());
        }
        while i < pieces.len()
            invariant
                i <= pieces@.len(),
                lie_together(pieces@.take(i as int)),
                board.taken() == covered(pieces@.take(i as int)),
                board.holds(pieces@.take(i as int)),
            decreases pieces@.len() - i,
        {
            proof {
                lemma_lie_together_push(pieces@.take(i as int), pieces@[i as int]);
                lemma_covered_push(pieces@.take(i as int), pieces@[i as int]);
                assert(pieces@.take(i as int).push(pieces@[i as int]) =~= pieces@.take(i + 1));
            }
            if !board.can_place_piece(pieces[i]) {
                proof {
                    lemma_lie_together_take(pieces@, i + 1);
                }
                return None;
            }
            board = board.with_piece(pieces[i]);
            i += 1;
        }
        proof {
            assert(pieces@.take(i as int) =~= pieces@);
        }
        Some(board)
    }
}

/// The placement of `piece` with its anchor on the first empty cell of the board, if there
/// is an empty cell and the piece can be placed there.
pub open spec fn at_top_left(taken: Set<int>, piece: Piece) -> Option<PlacedPiece> {
    if exists|cell: int| is_first_empty(taken, 0, cell) {
        let cell = choose|cell: int| is_first_empty(taken, 0, cell);
        let placed = PlacedPiece { piece, top_left: cell as u8 };
        if can_place(taken, placed) {
            Some(placed)
        } else {
            None
        }
    } else {
        None
    }
}

/// The placements of the pieces of the list, each in turn on the first cell that those
/// before it left empty, if each can be placed there.
pub open spec fn all_at_top_left(pieces: Seq<Piece>) -> Option<Seq<PlacedPiece>>
    decreases pieces.len(),
{
    if pieces.len() == 0 {
        Some(Seq::empty())
    } else {
        match all_at_top_left(pieces.drop_last()) {
            Some(placed) => match at_top_left(covered(placed), pieces.last()) {
                Some(p) => Some(placed.push(p)),
                None => None,
            },
            None => None,
        }
    }
}

/// The placement data of a piece.
pub fn get_placement_info(piece: Piece) -> (info: DisplayBoardPlacementInfo)
    ensures
        info.describes(piece),
{
    match piece.color {
        Color::Yellow => placement_table::yellow(piece.face, piece.orientation),
        Color::Orange => placement_table::orange(piece.face, piece.orientation),
        Color::Red => placement_table::red(piece.face, piece.orientation),
        Color::Pink => placement_table::pink(piece.face, piece.orientation),
        Color::LightGreen => placement_table::light_green(piece.face, piece.orientation),
        Color::Green => placement_table::green(piece.face, piece.orientation),
        Color::LightBlue => placement_table::light_blue(piece.face, piece.orientation),
        Color::Blue => placement_table::blue(piece.face, piece.orientation),
        Color::DeepBlue => placement_table::deep_blue(piece.face, piece.orientation),
        Color::Purple => placement_table::purple(piece.face, piece.orientation),
    }
}

/// Whether the piece, with its anchor where `piece` says, stays on the grid.
pub fn is_valid_piece_placement(piece: PlacedPiece, info: &DisplayBoardPlacementInfo) -> (valid:
    bool)
    requires
        info.describes(piece.piece),
    ensures
        valid == piece.on_grid(),
{
    proof {
        lemma_extent(piece.piece, *info);
        lemma_bounding_box(piece, *info);
    }
    let (top_left_row, top_left_col) = piece.top_left_coords();
    top_left_row + info.height < 5 && top_left_col + info.width_right < 10 && top_left_col
        >= info.width_left
}

/// A piece on the grid covers the cell of its anchor, and no cell before it.
pub proof fn lemma_anchor_covered(piece: PlacedPiece)
    requires
        piece.on_grid(),
    ensures
        piece.cells().contains(piece.top_left as int),
        forall|cell: int| piece.cells().contains(cell) ==> piece.top_left <= cell < 50,
{
    lemma_anchor_ball(piece.piece);
    assert forall|cell: int| piece.cells().contains(cell) implies piece.top_left <= cell by {
        lemma_ball_extent(piece.piece, cell / 10 - piece.row(), cell % 10 - piece.col());
    }
}

/// Placing a piece that can be placed changes the cells under the piece and no others:
/// these were free and now hold a ball, and every other cell is as it was.
pub proof fn lemma_with_piece_changes_its_cells<B: Board>(board: B, piece: PlacedPiece, next: B)
    requires
        can_place(board.taken(), piece),
        next.taken() == board.taken().union(piece.cells()),
    ensures
        forall|cell: int|
            piece.cells().contains(cell) ==> !board.taken().contains(cell) && next.taken().contains(
                cell,
            ),
        forall|cell: int|
            !piece.cells().contains(cell) ==> (next.taken().contains(cell)
                <==> board.taken().contains(cell)),
{
}

/// Among pieces that fill the board, one has its anchor on the first empty cell, and it
/// can be placed on the board as it is.
pub proof fn lemma_piece_on_first_empty(
    taken: Set<int>,
    pieces: Seq<PlacedPiece>,
    index: int,
) -> (i: int)
    requires
        fills(taken, pieces),
        is_first_empty(taken, 0, index),
    ensures
        0 <= i < pieces.len(),
        pieces[i].top_left == index,
        can_place(taken, pieces[i]),
{
    assert(covered(pieces).contains(index));
    let i = choose|i: int| 0 <= i < pieces.len() && #[trigger] pieces[i].cells().contains(index);
    let piece = pieces[i];
    assert(piece.on_grid());
    lemma_anchor_covered(piece);
    assert(covered(pieces).contains(piece.top_left as int));
    assert forall|cell: int| !(taken.contains(cell) && piece.cells().contains(cell)) by {
        if piece.cells().contains(cell) {
            assert(covered(pieces).contains(cell));
        }
    }
    i
}

/// A board has one first empty cell at most.
pub proof fn lemma_first_empty(taken: Set<int>, cell: int)
    requires
        is_first_empty(taken, 0, cell),
    ensures
        cell == choose|cell: int| is_first_empty(taken, 0, cell),
{
    let other = choose|cell: int| is_first_empty(taken, 0, cell);
    assert(is_first_empty(taken, 0, other));
    assert(!(other < cell) && !(cell < other));
}

/// Once a piece of the list could not be placed, no longer list can be.
pub proof fn lemma_all_at_top_left_stays_none(pieces: Seq<Piece>, n: int)
    requires
        0 <= n <= pieces.len(),
        all_at_top_left(pieces.take(n)) is None,
    ensures
        all_at_top_left(pieces) is None,
    decreases pieces.len() - n,
{
    if n < pieces.len() {
        assert(pieces.take(n + 1).drop_last() =~= pieces.take(n));
        lemma_all_at_top_left_stays_none(pieces, n + 1);
    } else {
        assert(pieces.take(n) =~= pieces);
    }
}

/// One piece more covers its cells more.
pub proof fn lemma_covered_push(pieces: Seq<PlacedPiece>, piece: PlacedPiece)
    ensures
        covered(pieces.push(piece)) == covered(pieces).union(piece.cells()),
{
    let more = pieces.push(piece);
    assert forall|cell: int| covered(more).contains(cell) <==> covered(pieces).contains(cell)
        || piece.cells().contains(cell) by {
        if covered(more).contains(cell) {
            let i = choose|i: int| 0 <= i < more.len() && #[trigger] more[i].cells().contains(cell);
            if i < pieces.len() {
                assert(pieces[i].cells().contains(cell));
            }
        }
        if covered(pieces).contains(cell) {
            let i = choose|i: int| 0 <= i < pieces.len()
                && #[trigger] pieces[i].cells().contains(cell);
            assert(more[i].cells().contains(cell));
        }
        if piece.cells().contains(cell) {
            assert(more[pieces.len() as int].cells().contains(cell));
        }
    }
    assert(covered(more) =~= covered(pieces).union(piece.cells()));
}

/// One piece more can lie with the others exactly if it can be placed on the board that
/// they cover.
pub proof fn lemma_lie_together_push(pieces: Seq<PlacedPiece>, piece: PlacedPiece)
    requires
        lie_together(pieces),
    ensures
        lie_together(pieces.push(piece)) <==> can_place(covered(pieces), piece),
{
    let more = pieces.push(piece);
    let last = pieces.len() as int;
    if lie_together(more) {
        assert(more[last].on_grid());
        assert forall|cell: int| !(covered(pieces).contains(cell)
            && piece.cells().contains(cell)) by {
            if covered(pieces).contains(cell) {
                let i = choose|i: int| 0 <= i < pieces.len()
                    && #[trigger] pieces[i].cells().contains(cell);
                assert(more[i].cells().disjoint(more[last].cells()));
            }
        }
    }
    if can_place(covered(pieces), piece) {
        assert forall|i: int| 0 <= i < more.len() implies (#[trigger] more[i]).on_grid() by {
            if i < last {
                assert(pieces[i].on_grid());
            }
        }
        assert forall|i: int, j: int| 0 <= i < j < more.len()
            implies (#[trigger] more[i]).cells().disjoint(
            (#[trigger] more[j]).cells(),
        ) by {
            if j < last {
                assert(pieces[i].cells().disjoint(pieces[j].cells()));
            } else {
                assert forall|cell: int| !(more[i].cells().contains(cell)
                    && more[j].cells().contains(cell)) by {
                    if pieces[i].cells().contains(cell) {
                        assert(covered(pieces).contains(cell));
                    }
                }
            }
        }
    }
}

/// Pieces that lie together still do when the last of them are taken away.
pub proof fn lemma_lie_together_take(pieces: Seq<PlacedPiece>, n: int)
    requires
        0 <= n <= pieces.len(),
    ensures
        lie_together(pieces) ==> lie_together(pieces.take(n)),
{
    let fewer = pieces.take(n);
    if lie_together(pieces) {
        assert forall|i: int| 0 <= i < fewer.len() implies (#[trigger] fewer[i]).on_grid() by {
            assert(pieces[i].on_grid());
        }
        assert forall|i: int, j: int| 0 <= i < j < fewer.len()
            implies (#[trigger] fewer[i]).cells().disjoint(
            (#[trigger] fewer[j]).cells(),
        ) by {
            assert(pieces[i].cells().disjoint(pieces[j].cells()));
        }
    }
}

} // verus!
