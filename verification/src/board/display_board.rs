//! The board as fifty cells with the colours of the pieces, for showing and for checking.
use vstd::prelude::*;
use crate::board::{
    can_place, fills, get_placement_info, is_first_empty, is_valid_piece_placement,
    lemma_piece_on_first_empty, vacant, Board,
};
use crate::board::display_board_placement_info::lemma_piece_cells;
use crate::pieces::{Color, PlacedPiece};
use crate::shapes::{has_ball, lemma_balls_near_anchor};

verus! {

/// Model the board cell by cell, each with the colour of the piece that lies on it.
#[derive(Debug, PartialEq, Eq, Copy, Clone)]
pub struct DisplayBoard {
    /// What lies on each cell, row by row from the top left.
    cells: [Option<Color>; 50],
}

impl View for DisplayBoard {
    type V = Seq<Option<Color>>;

    /// The fifty cells row by row, each empty or with the colour of the piece on it.
    closed spec fn view(&self) -> Seq<Option<Color>> {
        self.cells@
    }
}

/// Fifty cells without a ball.
fn no_balls() -> (r: [Option<Color>; 50])
    ensures
        forall|i: int| 0 <= i < 50 ==> r@[i] is None,
{
    proof {
        vstd::array::axiom_spec_array_fill_for_copy_type::<Option<Color>, 50>(None);
    }
    [None; 50]
}

impl DisplayBoard {
    /// What lies on a cell: nothing, or a ball of a piece of some colour.
    pub fn cell_at(&self, index: u8) -> (cell: &Option<Color>)
        requires
            index < 50,
        ensures
            *cell == self@[index as int],
    {
        &self.cells[index as usize]
    }

    /// The cell, to put something on it or take it off.
    fn mut_cell_at(&mut self, index: u8) -> (cell: &mut Option<Color>)
        requires
            index < 50,
        ensures
            *cell == old(self)@[index as int],
            final(self)@ == old(self)@.update(index as int, *final(cell)),
    {
        &mut self.cells[index as usize]
    }

    /// The board with the piece on it, if the piece can be placed.
    pub fn maybe_with_piece(&self, piece: PlacedPiece) -> (next: Option<Self>)
        ensures
            next is Some <==> can_place(self.taken(), piece),
            next matches Some(board) ==> board@ == self.colored(piece),
    {
        if self.can_place_piece(piece) {
            Some(self.with_piece(piece))
        } else {
            None
        }
    }

    /// The cells of a board on which the pieces of the list were laid one after the other:
    /// each with the colour of the piece that was laid on it last, if one was.
    pub open spec fn painted(pieces: Seq<PlacedPiece>) -> Seq<Option<Color>>
        decreases pieces.len(),
    {
        Seq::new(
            50,
            |cell: int|
                if pieces.len() == 0 {
                    None
                } else if pieces.last().cells().contains(cell) {
                    Some(pieces.last().piece.color)
                } else {
                    Self::painted(pieces.drop_last())[cell]
                },
        )
    }

    /// The cells after the piece was laid on the board: its colour on the cells it covers.
    pub open spec fn colored(self, piece: PlacedPiece) -> Seq<Option<Color>> {
        Seq::new(
            50,
            |cell: int|
                if piece.cells().contains(cell) {
                    Some(piece.piece.color)
                } else {
                    self@[cell]
                },
        )
    }
}

impl Board for DisplayBoard {
    open spec fn taken(&self) -> Set<int> {
        Set::new(|cell: int| 0 <= cell < 50 && self@[cell] is Some)
    }

    /// A cell board gives up where the first empty cell `index` has nothing free after it
    /// nor below it, or one free cell after it that has nothing free after it nor below it.
    open spec fn hopeless(taken: Set<int>, index: int) -> bool {
        &&& 0 <= index < 50
        &&& !vacant(taken, index + 10)
        &&& {
            ||| index % 10 == 9
            ||| !vacant(taken, index + 1)
            ||| (!vacant(taken, index + 11) && !vacant(taken, index + 2))
        }
    }

    /// A cell board keeps the colour of the piece on each cell.
    open spec fn holds(&self, pieces: Seq<PlacedPiece>) -> bool {
        self@ == Self::painted(pieces)
    }

    proof fn lemma_taken_on_grid(&self) {
    }

    proof fn lemma_gives_up_rightly(taken: Set<int>, index: int, pieces: Seq<PlacedPiece>) {
        if fills(taken, pieces) {
            let i = lemma_piece_on_first_empty(taken, pieces, index);
            lemma_hopeless_cell(taken, index, pieces[i]);
        }
    }

    fn can_place_piece(&self, piece: PlacedPiece) -> (ok: bool) {
        let info = get_placement_info(piece.piece);
        if !is_valid_piece_placement(piece, &info) {
            return false;
        }
        proof {
            lemma_piece_cells(piece, info);
        }
        let mut i: usize = 0;
        while i < info.num_balls as usize
            invariant
                i <= info.num_balls <= 6,
                info.describes(piece.piece),
                piece.on_grid(),
                forall|k: int| 0 <= k < 6
                    ==> piece.cells().contains(piece.top_left + #[trigger] info.balls@[k]),
                forall|cell: int| piece.cells().contains(cell) ==> piece.top_left <= cell < 50,
                forall|k: int| 0 <= k < i
                    ==> self@[piece.top_left + #[trigger] info.balls@[k]] is None,
            decreases info.num_balls - i,
        {
            let shift = info.balls[i];
            assert(piece.cells().contains(piece.top_left + info.balls@[i as int]));
            if self.cell_at(piece.top_left + shift).is_some() {
                return false;
            }
            i += 1;
        }
        true
    }

    fn with_piece(self, piece: PlacedPiece) -> (next: Self)
        ensures
            next@ == self.colored(piece),
    {
        let info = get_placement_info(piece.piece);
        proof {
            lemma_piece_cells(piece, info);
        }
        let mut next = self;
        let mut i: usize = 0;
        while i < info.num_balls as usize
            invariant
                i <= info.num_balls <= 6,
                next@.len() == 50,
                forall|k: int| 0 <= k < 6
                    ==> piece.cells().contains(piece.top_left + #[trigger] info.balls@[k]),
                forall|cell: int| piece.cells().contains(cell) ==> piece.top_left <= cell < 50,
                forall|cell: int|
                    0 <= cell < 50 ==> next@[cell] == if exists|k: int|
                        0 <= k < i && cell == piece.top_left + #[trigger] info.balls@[k] {
                        Some(piece.piece.color)
                    } else {
                        self@[cell]
                    },
            decreases info.num_balls - i,
        {
            let shift = info.balls[i];
            assert(piece.cells().contains(piece.top_left + info.balls@[i as int]));
            *next.mut_cell_at(piece.top_left + shift) = Some(piece.piece.color);
            i += 1;
        }
        assert(next@ =~= self.colored(piece));
        assert(next.taken() =~= self.taken().union(piece.cells()));
        assert forall|pieces: Seq<PlacedPiece>| #[trigger] self.holds(pieces) implies next.holds(
            pieces.push(piece),
        ) by {
            assert(pieces.push(piece).drop_last() =~= pieces);
            assert(next@ =~= Self::painted(pieces.push(piece)));
        }
        next
    }

    fn is_cell_empty(&self, index: u8) -> (empty: bool) {
        if index >= 50 {
            false
        } else {
            self.cells[index as usize].is_none()
        }
    }

    fn check_common_failures(&self, index: u8) -> (dead: bool) {
        proof {
            let taken = self.taken();
            assert forall|pieces: Seq<PlacedPiece>|
                Self::hopeless(taken, index as int) && is_first_empty(
                    taken,
                    0,
                    index as int,
                ) implies !#[trigger] fills(taken, pieces) by {
                Self::lemma_gives_up_rightly(taken, index as int, pieces);
            }
        }
        if index >= 50 {
            return false;
        }
        if !self.is_cell_empty(index + 10) {
            if index % 10 == 9 || !self.is_cell_empty(index + 1) {
                return true;
            }
            if !self.is_cell_empty(index + 11) && !self.is_cell_empty(index + 2) {
                return true;
            }
        }
        false
    }

    fn empty() -> (board: Self) {
        let board = DisplayBoard { cells: no_balls() };
        assert(board.taken() =~= Set::<int>::empty());
        assert(board@ =~= Self::painted(Seq::empty()));
        board
    }

    fn first_empty_cell(&self, lower_bound: u8) -> (found: Option<u8>) {
        let mut first_empty_cell_index = lower_bound;
        while first_empty_cell_index < 50 && self.cells[first_empty_cell_index as usize].is_some()
            invariant
                lower_bound <= first_empty_cell_index,
                forall|j: int| lower_bound <= j < first_empty_cell_index
                    ==> self.taken().contains(j),
            decreases 50 - first_empty_cell_index,
        {
            first_empty_cell_index += 1;
        }
        if first_empty_cell_index >= 50 {
            None
        } else {
            Some(first_empty_cell_index)
        }
    }
}

/// Where a cell board gives up, no piece can be placed on the first empty cell.
pub proof fn lemma_hopeless_cell(taken: Set<int>, index: int, piece: PlacedPiece)
    requires
        DisplayBoard::hopeless(taken, index),
        piece.top_left == index,
    ensures
        !can_place(taken, piece),
{
    if piece.on_grid() {
        let p = piece.piece;
        lemma_balls_near_anchor(p);
        assert(piece.row() == index / 10 && piece.col() == index % 10);
        if has_ball(p, 1, 0) {
            assert(piece.cells().contains(index + 10));
        } else {
            assert(has_ball(p, 0, 1));
            assert(piece.cells().contains(index + 1));
            if has_ball(p, 0, 2) {
                assert(piece.cells().contains(index + 2));
            } else {
                assert(has_ball(p, 1, 1));
                assert(piece.cells().contains(index + 11));
            }
        }
    }
}

impl Default for DisplayBoard {
    fn default() -> (board: Self)
        ensures
            board.taken() == Set::<int>::empty(),
            board.holds(Seq::empty()),
    {
        Self::empty()
    }
}

} // verus!
