//! The search that fills the board: the set of colours left, the quota of faces, the
//! counter of placements tried, and the solver.
use vstd::prelude::*;
use crate::board::{can_place, covered, Board};
use crate::pieces::{Color, Face, Orientation, Piece, PlacedPiece};
use crate::solver::filling::{
    is_solution, is_ten_piece_solution, lemma_solution, within_quota_so_far,
};
use crate::solver::finding::{lemma_solves_what_can_be_solved, solvable};
use crate::solver::search::{
    lemma_order, lemma_search_passes, lemma_search_skips, lemma_search_tries, search, search_steps,
    search_steps_with, tried, within_quota,
};
use crate::solver::seed::{
    lemma_num_colors, lemma_num_colors_remove, lemma_seed_grows, lemma_seed_starts, num_colors,
    solution, solution_steps, valid_seed,
};

pub mod filling;
pub mod finding;
pub mod first;
pub mod search;
pub mod seed;
pub mod tally;

verus! {

/// The colours in the order in which the search tries them.
pub const COLOR_LIST: [Color; 10] = [
    Color::Yellow,
    Color::Orange,
    Color::Red,
    Color::Pink,
    Color::LightGreen,
    Color::Green,
    Color::LightBlue,
    Color::Blue,
    Color::DeepBlue,
    Color::Purple,
];

/// The faces in the order in which the search tries them.
pub const FACE_LIST: [Face; 2] = [Face::A, Face::B];

/// The orientations in the order in which the search tries them.
pub const ORIENTATION_LIST: [Orientation; 4] = [
    Orientation::Up,
    Orientation::Right,
    Orientation::Down,
    Orientation::Left,
];

/// Counts the placements that a search tries.
pub trait IterationCounter: Sized {
    /// Whether the counter can count `n` more placements.
    spec fn can_count(self, n: nat) -> bool;

    /// The counter after `n` more placements were counted.
    spec fn after(self, n: nat) -> Self;

    /// What the counter shows.
    spec fn shown(self) -> u64;

    /// Counting nothing changes nothing.
    proof fn lemma_after_none(self)
        ensures
            self.after(0) == self,
    ;

    /// Counting in two steps is counting the sum: a counter that can count the sum can
    /// count the one and then the other.
    proof fn lemma_after(self, m: nat, n: nat)
        requires
            self.can_count(m + n),
        ensures
            self.can_count(m),
            self.after(m).can_count(n),
            self.after(m).after(n) == self.after(m + n),
    ;

    /// Counts one placement. The counter must be one that can count it.
    fn increment(&mut self)
        requires
            old(self).can_count(1),
        ensures
            *final(self) == old(self).after(1),
    ;

    /// What the counter shows.
    fn get(&self) -> (n: u64)
        ensures
            n == self.shown(),
    ;
}

/// The counter that counts nothing and always shows zero.
pub struct NoOpIterationCounter {}

impl IterationCounter for NoOpIterationCounter {
    open spec fn can_count(self, n: nat) -> bool {
        true
    }

    open spec fn after(self, n: nat) -> Self {
        self
    }

    open spec fn shown(self) -> u64 {
        0
    }

    proof fn lemma_after_none(self) {
    }

    proof fn lemma_after(self, m: nat, n: nat) {
    }

    #[inline]
    fn increment(&mut self) {
    }

    #[inline]
    fn get(&self) -> (n: u64) {
        0
    }
}

/// How many placements the counter counts at most: a search that tries more has run
/// away.
pub const MAX_ITERATIONS: u64 = 5000000;

/// The counter that counts each placement, up to `MAX_ITERATIONS` of them.
pub struct SimpleIterationCounter(pub u64);

impl IterationCounter for SimpleIterationCounter {
    open spec fn can_count(self, n: nat) -> bool {
        self.0 + n <= MAX_ITERATIONS
    }

    open spec fn after(self, n: nat) -> Self {
        SimpleIterationCounter((self.0 + n) as u64)
    }

    open spec fn shown(self) -> u64 {
        self.0
    }

    proof fn lemma_after_none(self) {
    }

    proof fn lemma_after(self, m: nat, n: nat) {
    }

    #[inline]
    fn increment(&mut self) {
        self.0 += 1;
    }

    #[inline]
    fn get(&self) -> (n: u64) {
        self.0
    }
}

/// Every bit of the full word is set, and clearing bit `i` of a word clears that bit only.
proof fn lemma_color_bit(word: u16, i: u16, j: u16)
    by (bit_vector)
    requires
        i < 16,
        j < 16,
    ensures
        0xffffu16 & (1u16 << j) != 0,
        (word & !(1u16 << i)) & (1u16 << j) != 0 <==> i != j && word & (1u16 << j) != 0,
{
}

/// A set of colors, starting full, and getting progressively empty.
#[derive(Copy, Clone)]
pub struct ColorSet(pub u16);

impl View for ColorSet {
    type V = Set<Color>;

    /// The colours of the set: one bit for each, at the colour's place in the fixed order.
    open spec fn view(&self) -> Set<Color> {
        Set::new(|c: Color| self.0 & (1u16 << (c.index() as u16)) != 0)
    }
}

impl ColorSet {
    /// The set of all colours.
    pub fn full() -> (set: Self)
        ensures
            set.0 == 0xffff,
            forall|c: Color| set@.contains(c),
    {
        let set = ColorSet(!0);
        proof {
            assert(!0u16 == 0xffff) by (bit_vector);
            assert forall|c: Color| set@.contains(c) by {
                lemma_color_bit(0, 0, c.index() as u16);
            }
        }
        set
    }

    /// Takes the colour out of the set and says whether it was there.
    pub fn remove(&mut self, c: Color) -> (res: bool)
        ensures
            res == old(self)@.contains(c),
            final(self)@ == old(self)@.remove(c),
            final(self).0 == old(self).0 & !(1u16 << (c.index() as u16)),
    {
        let res = self.contains(c);
        let ghost before = self.0;
        self.0 &= !(1u16 << c.to_index());
        proof {
            assert forall|d: Color| self@.contains(d) <==> (d != c && old(self)@.contains(d)) by {
                lemma_color_bit(before, c.index() as u16, d.index() as u16);
            }
            assert(self@ =~= old(self)@.remove(c));
        }
        res
    }

    /// Whether the set holds the colour.
    pub fn contains(&self, c: Color) -> (res: bool)
        ensures
            res == self@.contains(c),
    {
        (self.0 & 1u16 << c.to_index()) != 0
    }

    /// The set without the colour.
    pub fn without_color(self, c: Color) -> (set: Self)
        ensures
            set@ == self@.remove(c),
            set.0 == self.0 & !(1u16 << (c.index() as u16)),
    {
        let mut set = self;
        set.remove(c);
        set
    }
}

/// How many pieces of each face lie on the board. A full board holds six pieces with face
/// A up and four with face B up.
#[derive(Copy, Clone)]
pub struct TenPieceFacePolicy {
    /// How many pieces lie with face A up.
    pub num_face_a: u8,
    /// How many pieces lie with face B up.
    pub num_face_b: u8,
}

impl TenPieceFacePolicy {
    /// Whether one more piece with face `f` up is within the quota.
    pub open spec fn allows(self, f: Face) -> bool {
        within_quota(f, self.num_face_a as int, self.num_face_b as int)
    }

    /// The counts after one more piece with face `f` up.
    pub open spec fn plus(self, f: Face) -> TenPieceFacePolicy {
        match f {
            Face::A => TenPieceFacePolicy { num_face_a: (self.num_face_a + 1) as u8, ..self },
            Face::B => TenPieceFacePolicy { num_face_b: (self.num_face_b + 1) as u8, ..self },
        }
    }

    /// How many of the pieces have face A up.
    pub open spec fn count_face_a(pieces: Seq<PlacedPiece>) -> nat
        decreases pieces.len(),
    {
        if pieces.len() == 0 {
            0
        } else {
            Self::count_face_a(pieces.drop_last()) + if pieces.last().piece.face == Face::A {
                1nat
            } else {
                0nat
            }
        }
    }

    /// Whether one more piece with face `f` up is within the quota.
    #[inline]
    pub fn can_add_face(&self, f: Face) -> (ok: bool)
        ensures
            ok == self.allows(f),
    {
        match f {
            Face::A => {
                if self.num_face_a >= 6 {
                    return false;
                }
            },
            Face::B => {
                if self.num_face_b >= 4 {
                    return false;
                }
            },
        };
        true
    }

    /// The counts after one more piece with face `f` up.
    #[inline]
    pub fn with_face(self, f: Face) -> (next: Self)
        requires
            f == Face::A ==> self.num_face_a < 255,
            f == Face::B ==> self.num_face_b < 255,
        ensures
            next == self.plus(f),
    {
        match f {
            Face::A => TenPieceFacePolicy { num_face_a: self.num_face_a + 1, ..self },
            Face::B => TenPieceFacePolicy { num_face_b: self.num_face_b + 1, ..self },
        }
    }

    /// The counts for the pieces of a list.
    pub fn from_placed_pieces(pieces: &[PlacedPiece]) -> (counts: Self)
        requires
            pieces@.len() <= 255,
        ensures
            counts.num_face_a == Self::count_face_a(pieces@),
            counts.num_face_a + counts.num_face_b == pieces@.len(),
    {
        let mut num_face_a: u8 = 0;
        let mut i: usize = 0;
        while i < pieces.len()
            invariant
                i <= pieces@.len() <= 255,
                num_face_a <= i,
                num_face_a == Self::count_face_a(pieces@.take(i as int)),
            decreases pieces@.len() - i,
        {
            proof {
                assert(pieces@.take(i + 1).drop_last() =~= pieces@.take(i as int));
            }
            if pieces[i].piece.face == Face::A {
                num_face_a += 1;
            }
            i += 1;
        }
        proof {
            assert(pieces@.take(i as int) =~= pieces@);
        }
        let num_face_b = pieces.len() as u8 - num_face_a;
        TenPieceFacePolicy { num_face_a, num_face_b }
    }
}

/// A counter that can count all the placements of a search can count those that are still
/// to come, once some are counted.
proof fn lemma_counts_on<C: IterationCounter>(start: C, all: nat, done: nat, more: nat)
    requires
        start.can_count(all),
        done + more <= all,
    ensures
        start.can_count(done + more),
        start.after(done).can_count(more),
        start.after(done).after(more) == start.after(done + more),
{
    start.lemma_after(done + more, (all - done - more) as nat);
    start.lemma_after(done, more);
}

/// The pieces that a result holds, as a sequence.
pub open spec fn listed(found: Option<Vec<PlacedPiece>>) -> Option<Seq<PlacedPiece>> {
    match found {
        Some(pieces) => Some(pieces@),
        None => None,
    }
}

/// Fills the board from the first empty cell at or after `empty_index_lower_bound` on, with
/// pieces of the colours left, within the quota. Returns the pieces that it added, those
/// placed last first, or nothing if it found none; and counts the placements that it tried.
pub fn solve_rec<B: Board, C: IterationCounter>(
    board: B,
    colors_left: ColorSet,
    empty_index_lower_bound: u8,
    face_policy: TenPieceFacePolicy,
    counter: &mut C,
) -> (found: Option<Vec<PlacedPiece>>)
    requires
        old(counter).can_count(
            search_steps::<B>(
                board.taken(),
                colors_left@,
                empty_index_lower_bound as int,
                face_policy.num_face_a as int,
                face_policy.num_face_b as int,
            ),
        ),
    ensures
        listed(found) == search::<B>(
            board.taken(),
            colors_left@,
            empty_index_lower_bound as int,
            face_policy.num_face_a as int,
            face_policy.num_face_b as int,
        ),
        *final(counter) == old(counter).after(
            search_steps::<B>(
                board.taken(),
                colors_left@,
                empty_index_lower_bound as int,
                face_policy.num_face_a as int,
                face_policy.num_face_b as int,
            ),
        ),
    decreases 50 - empty_index_lower_bound,
{
    let ghost taken = board.taken();
    let ghost colors = colors_left@;
    let ghost face_a = face_policy.num_face_a as int;
    let ghost face_b = face_policy.num_face_b as int;
    let ghost lower = empty_index_lower_bound as int;
    let ghost start = *counter;
    let ghost all = search_steps::<B>(taken, colors, lower, face_a, face_b);
    proof {
        start.lemma_after_none();
    }
    let index = board.first_empty_cell(empty_index_lower_bound);
    if index.is_none() {
        proof {
            if empty_index_lower_bound < 50 {
                lemma_search_skips::<B>(taken, colors, lower, face_a, face_b, 50);
            }
        }
        return Some(Vec::with_capacity(10));
    }
    let index = index.unwrap();
    proof {
        lemma_search_skips::<B>(taken, colors, lower, face_a, face_b, index as int);
    }
    if board.check_common_failures(index) {
        return None;
    }
    let mut piece = PlacedPiece { piece: Piece::new(), top_left: index };
    let ghost mut done: nat = 0;
    let mut ci: usize = 0;
    while ci < 10
        invariant
            ci <= 10,
            lower == empty_index_lower_bound <= index < 50,
            taken == board.taken(),
            colors == colors_left@,
            face_a == face_policy.num_face_a,
            face_b == face_policy.num_face_b,
            piece.top_left == index,
            start == *old(counter),
            all == search_steps::<B>(taken, colors, lower, face_a, face_b),
            start.can_count(all),
            *counter == start.after(done),
            tried::<B>(taken, colors, lower, index as int, face_a, face_b, 8 * ci, done),
        decreases 10 - ci,
    {
        let c = COLOR_LIST[ci];
        if !colors_left.contains(c) {
            proof {
                lemma_search_passes::<B>(taken, colors, index as int, face_a, face_b, 8 * ci, 8);
            }
        } else {
            let next_colors = colors_left.without_color(c);
            piece.piece.color = c;
            let mut fi: usize = 0;
            while fi < 2
                invariant
                    ci < 10,
                    fi <= 2,
                    lower == empty_index_lower_bound <= index < 50,
                    taken == board.taken(),
                    colors == colors_left@,
                    colors.contains(c),
                    c == COLOR_LIST@[ci as int],
                    next_colors@ == colors.remove(c),
                    face_a == face_policy.num_face_a,
                    face_b == face_policy.num_face_b,
                    piece.top_left == index,
                    piece.piece.color == c,
                    start == *old(counter),
                    all == search_steps::<B>(taken, colors, lower, face_a, face_b),
                    start.can_count(all),
                    *counter == start.after(done),
                    tried::<B>(
                        taken,
                        colors,
                        lower,
                        index as int,
                        face_a,
                        face_b,
                        8 * ci + 4 * fi,
                        done,
                    ),
                decreases 2 - fi,
            {
                let face = FACE_LIST[fi];
                if !face_policy.can_add_face(face) {
                    proof {
                        lemma_search_passes::<B>(
                            taken,
                            colors,
                            index as int,
                            face_a,
                            face_b,
                            8 * ci + 4 * fi,
                            4,
                        );
                    }
                } else {
                    piece.piece.face = face;
                    let mut oi: usize = 0;
                    while oi < 4
                        invariant
                            ci < 10,
                            fi < 2,
                            oi <= 4,
                            lower == empty_index_lower_bound <= index < 50,
                            taken == board.taken(),
                            colors == colors_left@,
                            colors.contains(c),
                            c == COLOR_LIST@[ci as int],
                            face == FACE_LIST@[fi as int],
                            face_policy.allows(face),
                            next_colors@ == colors.remove(c),
                            face_a == face_policy.num_face_a,
                            face_b == face_policy.num_face_b,
                            piece.top_left == index,
                            piece.piece.color == c,
                            piece.piece.face == face,
                            start == *old(counter),
                            all == search_steps::<B>(taken, colors, lower, face_a, face_b),
                            start.can_count(all),
                            *counter == start.after(done),
                            tried::<B>(
                                taken,
                                colors,
                                lower,
                                index as int,
                                face_a,
                                face_b,
                                8 * ci + 4 * fi + oi,
                                done,
                            ),
                        decreases 4 - oi,
                    {
                        let ghost k = 8 * ci + 4 * fi + oi;
                        piece.piece.orientation = ORIENTATION_LIST[oi];
                        proof {
                            lemma_order(ci as int, fi as int, oi as int);
                            lemma_search_tries::<B>(
                                taken,
                                colors,
                                lower,
                                index as int,
                                face_a,
                                face_b,
                                k,
                                done,
                            );
                        }
                        proof {
                            lemma_counts_on(start, all, done, 1);
                        }
                        counter.increment();
                        proof {
                            done = done + 1;
                            if can_place(taken, piece) {
                                lemma_counts_on(
                                    start,
                                    all,
                                    done,
                                    search_steps_with::<B>(taken, colors, face_a, face_b, piece),
                                );
                            }
                        }
                        if board.can_place_piece(piece) {
                            let rest = solve_rec(
                                board.with_piece(piece),
                                next_colors,
                                index + 1,
                                face_policy.with_face(face),
                                counter,
                            );
                            proof {
                                let n = search_steps_with::<B>(taken, colors, face_a, face_b,
                                    piece);
                                done = done + n;
                            }
                            if let Some(mut pieces) = rest {
                                pieces.push(piece);
                                return Some(pieces);
                            }
                        }
                        oi += 1;
                    }
                }
                fi += 1;
            }
        }
        ci += 1;
    }
    None
}

/// Whether the pieces can be laid on the board before a search.
pub fn is_valid_seed<B: Board>(pieces: &[PlacedPiece]) -> (valid: bool)
    ensures
        valid == valid_seed(pieces@),
{
    let mut colors_left = ColorSet::full();
    let mut board = B::empty();
    let mut i: usize = 0;
    proof {
        lemma_seed_starts(pieces@);
        assert(colors_left@ =~= seed::colors_left(pieces@.take(0)));
    }
    while i < pieces.len()
        invariant
            i <= pieces@.len(),
            valid_seed(pieces@.take(i as int)),
            board.taken() == covered(pieces@.take(i as int)),
            colors_left@ == seed::colors_left(pieces@.take(i as int)),
        ensures
            i == pieces@.len(),
        decreases pieces@.len() - i,
    {
        let p = pieces[i];
        proof {
            lemma_seed_grows(pieces@, i as int);
        }
        if !colors_left.remove(p.piece.color) {
            return false;
        }
        if !board.can_place_piece(p) {
            return false;
        }
        board = board.with_piece(p);
        i += 1;
    }
    proof {
        assert(pieces@.take(i as int) =~= pieces@);
    }
    true
}

/// The board with the seed on it, and the colours that the seed leaves.
fn lay_seed<B: Board>(pieces: &[PlacedPiece]) -> (laid: (B, ColorSet))
    requires
        valid_seed(pieces@),
    ensures
        laid.0.taken() == covered(pieces@),
        laid.1@ == seed::colors_left(pieces@),
        pieces@.len() + num_colors(laid.1@) == 10,
{
    let mut colors_left = ColorSet::full();
    let mut board = B::empty();
    let mut i: usize = 0;
    proof {
        lemma_seed_starts(pieces@);
        assert(colors_left@ =~= seed::colors_left(pieces@.take(0)));
        lemma_num_colors(colors_left@);
    }
    while i < pieces.len()
        invariant
            i <= pieces@.len(),
            valid_seed(pieces@),
            board.taken() == covered(pieces@.take(i as int)),
            colors_left@ == seed::colors_left(pieces@.take(i as int)),
            i + num_colors(colors_left@) == 10,
        decreases pieces@.len() - i,
    {
        let p = pieces[i];
        proof {
            lemma_seed_grows(pieces@, i as int);
            lemma_num_colors_remove(colors_left@, p.piece.color);
        }
        colors_left.remove(p.piece.color);
        board = board.with_piece(p);
        i += 1;
    }
    proof {
        assert(pieces@.take(i as int) =~= pieces@);
    }
    (board, colors_left)
}

/// Lays the seed on an empty board and fills the board from there. Returns the pieces
/// added, those placed last first, followed by the seed.
pub fn solve_impl<B: Board, C: IterationCounter>(pieces: &[PlacedPiece], counter: &mut C) -> (found:
    Option<Vec<PlacedPiece>>)
    requires
        valid_seed(pieces@),
        old(counter).can_count(solution_steps::<B>(pieces@)),
    ensures
        listed(found) == solution::<B>(pieces@),
        *final(counter) == old(counter).after(solution_steps::<B>(pieces@)),
{
    let (board, colors_left) = lay_seed::<B>(pieces);
    let face_policy = TenPieceFacePolicy::from_placed_pieces(pieces);
    if let Some(mut pieces_solution) = solve_rec(board, colors_left, 0, face_policy, counter) {
        let ghost added = pieces_solution@;
        let mut j: usize = 0;
        while j < pieces.len()
            invariant
                j <= pieces@.len(),
                pieces_solution@ == added + pieces@.take(j as int),
            decreases pieces@.len() - j,
        {
            pieces_solution.push(pieces[j]);
            proof {
                assert(added + pieces@.take(j + 1) =~= (added + pieces@.take(j as int)).push(
                    pieces@[j as int],
                ));
            }
            j += 1;
        }
        proof {
            assert(pieces@.take(j as int) =~= pieces@);
        }
        Some(pieces_solution)
    } else {
        None
    }
}

/// Fills the board on which the pieces `pieces` lie with the pieces of the colours that
/// are left.
pub fn solve<B: Board>(pieces: &[PlacedPiece]) -> (found: Option<Vec<PlacedPiece>>)
    requires
        valid_seed(pieces@),
    ensures
        listed(found) == solution::<B>(pieces@),
        found matches Some(all) ==> {
            &&& is_solution(all@)
            &&& all@.len() >= pieces@.len()
            &&& all@.skip(all@.len() - pieces@.len()) == pieces@
            &&& within_quota_so_far(pieces@) ==> is_ten_piece_solution(all@)
        },
        within_quota_so_far(pieces@) ==> (found is Some <==> solvable(pieces@)),
{
    proof {
        lemma_solution::<B>(pieces@);
        if within_quota_so_far(pieces@) {
            lemma_solves_what_can_be_solved::<B>(pieces@);
        }
    }
    let mut counter = NoOpIterationCounter {};
    solve_impl::<B, NoOpIterationCounter>(pieces, &mut counter)
}

/// Solves as `solve` does, and says how many placements it tried. This is for searches
/// that try no more than `MAX_ITERATIONS` placements: one that tries more has run away.
pub fn solve_with_counter<B: Board>(pieces: &[PlacedPiece]) -> (found: (
    Option<Vec<PlacedPiece>>,
    u64,
))
    requires
        valid_seed(pieces@),
        solution_steps::<B>(pieces@) <= MAX_ITERATIONS,
    ensures
        listed(found.0) == solution::<B>(pieces@),
        found.0 matches Some(all) ==> {
            &&& is_solution(all@)
            &&& all@.len() >= pieces@.len()
            &&& all@.skip(all@.len() - pieces@.len()) == pieces@
            &&& within_quota_so_far(pieces@) ==> is_ten_piece_solution(all@)
        },
        within_quota_so_far(pieces@) ==> (found.0 is Some <==> solvable(pieces@)),
        found.1 == solution_steps::<B>(pieces@),
{
    proof {
        lemma_solution::<B>(pieces@);
        if within_quota_so_far(pieces@) {
            lemma_solves_what_can_be_solved::<B>(pieces@);
        }
    }
    let mut counter = SimpleIterationCounter(0);
    let b = solve_impl::<B, SimpleIterationCounter>(pieces, &mut counter);
    (b, counter.get())
}

} // verus!
