//! The board as one word of bits, for fast search.
use vstd::prelude::*;
use crate::board::{
    covered, filled, fills, get_placement_info, is_first_empty, is_valid_piece_placement,
    lemma_covered_push, none_empty, vacant, Board,
};
use crate::board::display_board_placement_info::{lemma_piece_cells, mask_of};
use crate::board::pockets::lemma_pocket_is_lost;
use crate::pieces::PlacedPiece;

verus! {

/// Whether bit `i` of the word is set.
pub open spec fn bit(word: u64, i: int) -> bool {
    0 <= i < 64 && (word >> (i as u64)) & 1 == 1
}

/// Model the board as a bitfield of occupied cells.
#[derive(Debug, PartialEq, Eq, Copy, Clone)]
pub struct BinaryBoard {
    /// Bitfield of occupied cells. Each bit corresponds to a specific cell, starting from the
    /// top left and going row by row. The bits after the board are always set.
    cells: u64,
}

impl BinaryBoard {
    /// The fourteen bits after the board are set, so that no index from 50 on is ever
    /// taken for an empty cell.
    #[verifier::type_invariant]
    spec fn bits_after_board_set(self) -> bool {
        self.cells >> 50 == 0x3fff
    }
}

/// Shifting two words joined is joining them shifted.
proof fn lemma_shift_or(x: u64, y: u64, a: u64)
    by (bit_vector)
    requires
        a < 64,
    ensures
        (x | y) << a == (x << a) | (y << a),
{
}

/// Bit `b` shifted by `a` is bit `a + b`.
proof fn lemma_shift_one(a: u64, b: u64)
    by (bit_vector)
    requires
        a + b < 64,
    ensures
        (1u64 << b) << a == 1u64 << (a + b),
{
}

/// A word has no bit in common with two words joined exactly if it has none in common
/// with either.
proof fn lemma_and_or(c: u64, x: u64, y: u64)
    by (bit_vector)
    ensures
        c & (x | y) == 0 <==> c & x == 0 && c & y == 0,
{
}

/// Masking a word with bit `k` alone tests its bit `k`.
proof fn lemma_and_one(c: u64, k: u64)
    by (bit_vector)
    requires
        k < 64,
    ensures
        c & (1u64 << k) == 0 <==> (c >> k) & 1 != 1,
{
}

/// A bit of two words joined is set exactly if it is set in one of them.
proof fn lemma_bit_or(x: u64, y: u64, k: u64)
    by (bit_vector)
    requires
        k < 64,
    ensures
        ((x | y) >> k) & 1 == 1 <==> (x >> k) & 1 == 1 || (y >> k) & 1 == 1,
{
}

/// The word with bit `j` alone has no other bit set.
proof fn lemma_bit_one(j: u64, k: u64)
    by (bit_vector)
    requires
        j < 64,
        k < 64,
    ensures
        ((1u64 << j) >> k) & 1 == 1 <==> k == j,
{
}

/// The bits of a piece, shifted to its anchor `a`: one word for each ball, with the bit of
/// the ball's cell set.
proof fn lemma_mask_shifted(balls: Seq<u8>, a: u64)
    requires
        balls.len() == 6,
        forall|i: int| 0 <= i < 6 ==> a + #[trigger] balls[i] < 64,
    ensures
        mask_of(balls) << a == (1u64 << ((a + balls[0]) as u64)) | (1u64 << ((a + balls[1]) as u64))
            | (1u64 << ((a + balls[2]) as u64)) | (1u64 << ((a + balls[3]) as u64)) | (1u64 << ((a
            + balls[4]) as u64)) | (1u64 << ((a + balls[5]) as u64)),
{
    let o0 = 1u64 << balls[0];
    let o1 = 1u64 << balls[1];
    let o2 = 1u64 << balls[2];
    let o3 = 1u64 << balls[3];
    let o4 = 1u64 << balls[4];
    let o5 = 1u64 << balls[5];
    lemma_shift_or(o0 | o1 | o2 | o3 | o4, o5, a);
    lemma_shift_or(o0 | o1 | o2 | o3, o4, a);
    lemma_shift_or(o0 | o1 | o2, o3, a);
    lemma_shift_or(o0 | o1, o2, a);
    lemma_shift_or(o0, o1, a);
    lemma_shift_one(a, balls[0] as u64);
    lemma_shift_one(a, balls[1] as u64);
    lemma_shift_one(a, balls[2] as u64);
    lemma_shift_one(a, balls[3] as u64);
    lemma_shift_one(a, balls[4] as u64);
    lemma_shift_one(a, balls[5] as u64);
}

/// A word has no bit in common with the shifted bits of a piece exactly if its bit at each
/// ball's cell is clear.
proof fn lemma_mask_test(c: u64, balls: Seq<u8>, a: u64)
    requires
        balls.len() == 6,
        forall|i: int| 0 <= i < 6 ==> a + #[trigger] balls[i] < 64,
    ensures
        c & (mask_of(balls) << a) == 0 <==> forall|i: int|
            0 <= i < 6 ==> !bit(c, a + #[trigger] balls[i]),
{
    lemma_mask_shifted(balls, a);
    let s0 = 1u64 << ((a + balls[0]) as u64);
    let s1 = 1u64 << ((a + balls[1]) as u64);
    let s2 = 1u64 << ((a + balls[2]) as u64);
    let s3 = 1u64 << ((a + balls[3]) as u64);
    let s4 = 1u64 << ((a + balls[4]) as u64);
    let s5 = 1u64 << ((a + balls[5]) as u64);
    lemma_and_or(c, s0 | s1 | s2 | s3 | s4, s5);
    lemma_and_or(c, s0 | s1 | s2 | s3, s4);
    lemma_and_or(c, s0 | s1 | s2, s3);
    lemma_and_or(c, s0 | s1, s2);
    lemma_and_or(c, s0, s1);
    lemma_and_one(c, (a + balls[0]) as u64);
    lemma_and_one(c, (a + balls[1]) as u64);
    lemma_and_one(c, (a + balls[2]) as u64);
    lemma_and_one(c, (a + balls[3]) as u64);
    lemma_and_one(c, (a + balls[4]) as u64);
    lemma_and_one(c, (a + balls[5]) as u64);
}

/// Bit `k` of a word joined with the shifted bits of a piece is set exactly if it was set
/// in the word or `k` is the cell of a ball.
proof fn lemma_mask_join(c: u64, balls: Seq<u8>, a: u64, k: int)
    requires
        balls.len() == 6,
        forall|i: int| 0 <= i < 6 ==> a + #[trigger] balls[i] < 64,
        0 <= k < 64,
    ensures
        bit(c | (mask_of(balls) << a), k) <==> bit(c, k) || exists|i: int|
            0 <= i < 6 && k == a + #[trigger] balls[i],
{
    lemma_mask_shifted(balls, a);
    let s0 = 1u64 << ((a + balls[0]) as u64);
    let s1 = 1u64 << ((a + balls[1]) as u64);
    let s2 = 1u64 << ((a + balls[2]) as u64);
    let s3 = 1u64 << ((a + balls[3]) as u64);
    let s4 = 1u64 << ((a + balls[4]) as u64);
    let s5 = 1u64 << ((a + balls[5]) as u64);
    let k = k as u64;
    lemma_bit_or(c, s0 | s1 | s2 | s3 | s4 | s5, k);
    lemma_bit_or(s0 | s1 | s2 | s3 | s4, s5, k);
    lemma_bit_or(s0 | s1 | s2 | s3, s4, k);
    lemma_bit_or(s0 | s1 | s2, s3, k);
    lemma_bit_or(s0 | s1, s2, k);
    lemma_bit_or(s0, s1, k);
    lemma_bit_one((a + balls[0]) as u64, k);
    lemma_bit_one((a + balls[1]) as u64, k);
    lemma_bit_one((a + balls[2]) as u64, k);
    lemma_bit_one((a + balls[3]) as u64, k);
    lemma_bit_one((a + balls[4]) as u64, k);
    lemma_bit_one((a + balls[5]) as u64, k);
    if bit(c | (mask_of(balls) << a), k as int) && !bit(c, k as int) {
        let i: int = if k == a + balls[0] {
            0
        } else if k == a + balls[1] {
            1
        } else if k == a + balls[2] {
            2
        } else if k == a + balls[3] {
            3
        } else if k == a + balls[4] {
            4
        } else {
            5
        };
        assert(k == a + balls[i]);
    }
}

/// Joining bits to a word leaves the bits after the board set.
proof fn lemma_join_keeps_high_bits(c: u64, x: u64)
    by (bit_vector)
    requires
        c >> 50 == 0x3fff,
    ensures
        (c | x) >> 50 == 0x3fff,
{
}

/// Each bit after the board is set.
proof fn lemma_high_bits(c: u64, k: u64)
    by (bit_vector)
    requires
        c >> 50 == 0x3fff,
        50 <= k < 64,
    ensures
        (c >> k) & 1 == 1,
{
}

/// The word of the empty board: the bits after the board are set, and no other.
proof fn lemma_empty_word(k: u64)
    by (bit_vector)
    requires
        k < 64,
    ensures
        ((!0u64) << 50) >> 50 == 0x3fff,
        k < 50 ==> (((!0u64) << 50) >> k) & 1 != 1,
{
}

/// For each value of a byte, the index of its first bit that is not set, or 8 if all are.
pub const FIRST_UNSET_BIT: [u8; 256] = [
    0, 1, 0, 2, 0, 1, 0, 3, 0, 1, 0, 2, 0, 1, 0, 4, 0, 1, 0, 2, 0, 1, 0, 3, 0, 1, 0, 2, 0, 1, 0, 5,
    0, 1, 0, 2, 0, 1, 0, 3, 0, 1, 0, 2, 0, 1, 0, 4, 0, 1, 0, 2, 0, 1, 0, 3, 0, 1, 0, 2, 0, 1, 0, 6,
    0, 1, 0, 2, 0, 1, 0, 3, 0, 1, 0, 2, 0, 1, 0, 4, 0, 1, 0, 2, 0, 1, 0, 3, 0, 1, 0, 2, 0, 1, 0, 5,
    0, 1, 0, 2, 0, 1, 0, 3, 0, 1, 0, 2, 0, 1, 0, 4, 0, 1, 0, 2, 0, 1, 0, 3, 0, 1, 0, 2, 0, 1, 0, 7,
    0, 1, 0, 2, 0, 1, 0, 3, 0, 1, 0, 2, 0, 1, 0, 4, 0, 1, 0, 2, 0, 1, 0, 3, 0, 1, 0, 2, 0, 1, 0, 5,
    0, 1, 0, 2, 0, 1, 0, 3, 0, 1, 0, 2, 0, 1, 0, 4, 0, 1, 0, 2, 0, 1, 0, 3, 0, 1, 0, 2, 0, 1, 0, 6,
    0, 1, 0, 2, 0, 1, 0, 3, 0, 1, 0, 2, 0, 1, 0, 4, 0, 1, 0, 2, 0, 1, 0, 3, 0, 1, 0, 2, 0, 1, 0, 5,
    0, 1, 0, 2, 0, 1, 0, 3, 0, 1, 0, 2, 0, 1, 0, 4, 0, 1, 0, 2, 0, 1, 0, 3, 0, 1, 0, 2, 0, 1, 0, 8,
];

/// How many bits of a byte are set before its first bit that is not.
pub open spec fn low_ones(byte: u8) -> u8 {
    if byte % 2 == 0 {
        0
    } else if byte % 4 == 1 {
        1
    } else if byte % 8 == 3 {
        2
    } else if byte % 16 == 7 {
        3
    } else if byte % 32 == 15 {
        4
    } else if byte % 64 == 31 {
        5
    } else if byte % 128 == 63 {
        6
    } else if byte == 127 {
        7
    } else {
        8
    }
}

/// The table holds, for each byte, the index of its first bit that is not set.
pub proof fn lemma_first_unset_bit_table(byte: u8)
    ensures
        FIRST_UNSET_BIT@[byte as int] == low_ones(byte),
{
}

/// The bits of a byte before its first bit that is not set are set, and that one is not.
proof fn lemma_low_ones(byte: u8, j: u8)
    by (bit_vector)
    requires
        j < 8,
    ensures
        low_ones(byte) <= 8,
        j < low_ones(byte) ==> (byte >> j) & 1 == 1,
        j == low_ones(byte) ==> (byte >> j) & 1 != 1,
{
}

/// Bit `j` of byte `i` of a word, after the `m` lowest bits of the byte were set.
proof fn lemma_byte_of_word(c: u64, i: u64, m: u8, j: u8)
    by (bit_vector)
    requires
        i < 8,
        m < 8,
        j < 8,
    ensures
        1u8 << m >= 1,
        ((((c >> (8 * i)) as u8) | (((1u8 << m) - 1) as u8)) >> j) & 1 == 1 <==> j < m || (c >> (8
            * i + j as u64)) & 1 == 1,
{
}

/// A free cell `h` with a filled index after it and a filled index below it. Every pocket
/// ends in such a cell.
pub open spec fn pocket_end(taken: Set<int>, h: int) -> bool {
    vacant(taken, h) && filled(taken, h + 1) && filled(taken, h + 10)
}

/// One free cell between four filled ones.
/// ```text
///  #
/// #.#
///  #
/// ```
pub open spec fn single_hole(taken: Set<int>, h: int) -> bool {
    pocket_end(taken, h) && filled(taken, h - 10) && filled(taken, h - 1)
}

/// Two free cells side by side, `h - 1` and `h`, with one more filled index above `h` and
/// below `h - 1`.
pub open spec fn pocket_end_of_two(taken: Set<int>, h: int) -> bool {
    pocket_end(taken, h) && filled(taken, h - 10) && vacant(taken, h - 1) && filled(taken, h + 9)
}

/// Two free cells side by side, walled in.
/// ```text
///  ##
/// #..#
///  ##
/// ```
pub open spec fn double_hole(taken: Set<int>, h: int) -> bool {
    pocket_end_of_two(taken, h) && filled(taken, h - 2) && filled(taken, h - 11)
}

/// Two free cells one above the other, walled in.
/// ```text
///  #
/// #.#
/// #.#
///  #
/// ```
pub open spec fn double_hole_vertical(taken: Set<int>, h: int) -> bool {
    &&& pocket_end(taken, h)
    &&& filled(taken, h - 1)
    &&& vacant(taken, h - 10)
    &&& filled(taken, h - 9)
    &&& filled(taken, h - 11)
    &&& filled(taken, h - 20)
}

/// Three free cells in a row, walled in, with one more filled index below the wall to
/// their left.
/// ```text
///   ###
///  #...#
///  ####
/// ```
pub open spec fn triple_hole(taken: Set<int>, h: int) -> bool {
    &&& pocket_end_of_two(taken, h)
    &&& vacant(taken, h - 2)
    &&& filled(taken, h - 11)
    &&& filled(taken, h + 7)
    &&& filled(taken, h + 8)
    &&& filled(taken, h - 12)
    &&& filled(taken, h - 3)
}

/// Three free cells, two side by side and one above the first of them, walled in, with
/// one more filled index two to the left of the lower pair.
/// ```text
///    #
///   #.#
/// ##..#
///   ##
/// ```
pub open spec fn triple_hole_l(taken: Set<int>, h: int) -> bool {
    &&& pocket_end_of_two(taken, h)
    &&& filled(taken, h - 2)
    &&& vacant(taken, h - 11)
    &&& filled(taken, h - 21)
    &&& filled(taken, h - 12)
    &&& filled(taken, h - 3)
}

/// Three free cells, two side by side and one above the second of them, walled in.
/// ```text
///   #
///  #.#
/// #..#
///  ##
/// ```
pub open spec fn triple_hole_l2(taken: Set<int>, h: int) -> bool {
    &&& pocket_end(taken, h)
    &&& filled(taken, h + 9)
    &&& vacant(taken, h - 1)
    &&& filled(taken, h - 2)
    &&& filled(taken, h - 9)
    &&& vacant(taken, h - 10)
    &&& filled(taken, h - 11)
    &&& filled(taken, h - 20)
}

/// Three free cells, two side by side and one below the second of them, walled in.
/// ```text
///  ##
/// #..#
///  #.#
///   #
/// ```
pub open spec fn triple_hole_l3(taken: Set<int>, h: int) -> bool {
    &&& pocket_end(taken, h)
    &&& filled(taken, h - 1)
    &&& filled(taken, h - 9)
    &&& vacant(taken, h - 10)
    &&& vacant(taken, h - 11)
    &&& filled(taken, h - 12)
    &&& filled(taken, h - 20)
    &&& filled(taken, h - 21)
}

/// Three free cells, two side by side and one below the first of them, walled in.
/// ```text
///  ##
/// #..#
/// #.#
///  #
/// ```
pub open spec fn triple_hole_l4(taken: Set<int>, h: int) -> bool {
    &&& pocket_end(taken, h)
    &&& filled(taken, h - 1)
    &&& filled(taken, h - 8)
    &&& vacant(taken, h - 9)
    &&& vacant(taken, h - 10)
    &&& filled(taken, h - 11)
    &&& filled(taken, h - 19)
    &&& filled(taken, h - 20)
}

/// Whether one of the pockets that the board looks for ends in cell `h`.
pub open spec fn pocket(taken: Set<int>, h: int) -> bool {
    ||| single_hole(taken, h)
    ||| double_hole(taken, h)
    ||| double_hole_vertical(taken, h)
    ||| triple_hole(taken, h)
    ||| triple_hole_l(taken, h)
    ||| triple_hole_l2(taken, h)
    ||| triple_hole_l3(taken, h)
    ||| triple_hole_l4(taken, h)
}

/// Whether bit `p - back` of the word is set, where there is such a bit.
pub open spec fn set_back(n: u64, p: u64, back: u64) -> bool {
    p >= back && (n >> ((p - back) as u64)) & 1 == 1
}

/// Whether bit `p - back` of the word is clear, where there is such a bit.
pub open spec fn clear_back(n: u64, p: u64, back: u64) -> bool {
    p >= back && (n >> ((p - back) as u64)) & 1 != 1
}

/// A bit for each free cell with the bit after it and the bit below it set, ten bits above
/// the cell.
pub open spec fn base_word(n: u64) -> u64 {
    n & (n << 9) & (!n << 10)
}

/// A bit for each pair of free cells side by side, with the bits below them and above the
/// second set.
pub open spec fn base_double_word(n: u64) -> u64 {
    base_word(n) & (n << 20) & (!n << 11) & (n << 1)
}

/// A bit for each single hole.
pub open spec fn single_word(n: u64) -> u64 {
    base_word(n) & (n << 20) & (n << 11)
}

/// A bit for each double hole.
pub open spec fn double_word(n: u64) -> u64 {
    base_double_word(n) & (n << 12) & (n << 21)
}

/// A bit for each double hole of cells one above the other.
pub open spec fn double_vertical_word(n: u64) -> u64 {
    base_word(n) & (n << 11) & (!n << 20) & (n << 19) & (n << 21) & (n << 30)
}

/// A bit for each triple hole.
pub open spec fn triple_word(n: u64) -> u64 {
    base_double_word(n) & (!n << 12) & (n << 21) & (n << 3) & (n << 2) & (n << 22) & (n << 13)
}

/// A bit for each triple hole of the first bent kind.
pub open spec fn triple_l_word(n: u64) -> u64 {
    base_double_word(n) & (n << 12) & (!n << 21) & (n << 31) & (n << 22) & (n << 13)
}

/// A bit for each triple hole of the second bent kind.
pub open spec fn triple_l2_word(n: u64) -> u64 {
    base_word(n) & (n << 1) & (!n << 11) & (n << 12) & (n << 19) & (!n << 20) & (n << 21) & (n
        << 30)
}

/// A bit for each triple hole of the third bent kind.
pub open spec fn triple_l3_word(n: u64) -> u64 {
    base_word(n) & (n << 11) & (n << 19) & (!n << 20) & (!n << 21) & (n << 22) & (n << 30) & (n
        << 31)
}

/// A bit for each triple hole of the fourth bent kind.
pub open spec fn triple_l4_word(n: u64) -> u64 {
    base_word(n) & (n << 11) & (n << 18) & (!n << 19) & (!n << 20) & (n << 21) & (n << 29) & (n
        << 30)
}

/// The word with a bit for each pocket, ten bits above the cell in which the pocket ends.
pub open spec fn pocket_word(n: u64) -> u64 {
    single_word(n) | double_word(n) | double_vertical_word(n) | triple_word(n) | triple_l_word(n)
        | triple_l2_word(n) | triple_l3_word(n) | triple_l4_word(n)
}

/// What the bits of the pocket word say of the bits of the board's word.
proof fn lemma_pocket_word(n: u64, p: u64)
    by (bit_vector)
    requires
        p < 64,
    ensures
        (pocket_word(n) >> p) & 1 == 1 <==> {
            let base = set_back(n, p, 0) && set_back(n, p, 9) && clear_back(n, p, 10);
            let base_double = base && set_back(n, p, 20) && clear_back(n, p, 11) && set_back(
                n,
                p,
                1,
            );
            ||| base && set_back(n, p, 20) && set_back(n, p, 11)
            ||| base_double && set_back(n, p, 12) && set_back(n, p, 21)
            ||| base && set_back(n, p, 11) && clear_back(n, p, 20) && set_back(n, p, 19)
                && set_back(n, p, 21) && set_back(n, p, 30)
            ||| base_double && clear_back(n, p, 12) && set_back(n, p, 21) && set_back(n, p, 3)
                && set_back(n, p, 2) && set_back(n, p, 22) && set_back(n, p, 13)
            ||| base_double && set_back(n, p, 12) && clear_back(n, p, 21) && set_back(n, p, 31)
                && set_back(n, p, 22) && set_back(n, p, 13)
            ||| base && set_back(n, p, 1) && clear_back(n, p, 11) && set_back(n, p, 12)
                && set_back(n, p, 19) && clear_back(n, p, 20) && set_back(n, p, 21) && set_back(
                n,
                p,
                30,
            )
            ||| base && set_back(n, p, 11) && set_back(n, p, 19) && clear_back(n, p, 20)
                && clear_back(n, p, 21) && set_back(n, p, 22) && set_back(n, p, 30) && set_back(
                n,
                p,
                31,
            )
            ||| base && set_back(n, p, 11) && set_back(n, p, 18) && clear_back(n, p, 19)
                && clear_back(n, p, 20) && set_back(n, p, 21) && set_back(n, p, 29) && set_back(
                n,
                p,
                30,
            )
        },
{
}

/// A word with a bit set at or above a shift is not zero after the shift.
proof fn lemma_shifted_nonzero(x: u64, from: u64, p: u64)
    by (bit_vector)
    requires
        from <= p < 64,
        (x >> p) & 1 == 1,
    ensures
        x >> from != 0,
{
}

/// A word that is not zero after a shift, with its lowest bit then clear, is not zero
/// after one shift more.
proof fn lemma_shifted_further(x: u64, from: u64)
    by (bit_vector)
    requires
        from < 64,
        x >> from != 0,
        (x >> from) & 1 != 1,
    ensures
        from < 63,
        x >> ((from + 1) as u64) != 0,
{
}

/// A word that is not zero after a shift to the right has a bit set at or above the
/// shift.
proof fn lemma_some_bit(x: u64, from: u64) -> (p: u64)
    requires
        from < 64,
        x >> from != 0,
    ensures
        from <= p < 64,
        bit(x, p as int),
    decreases 64 - from,
{
    if (x >> from) & 1 == 1 {
        from
    } else {
        lemma_shifted_further(x, from);
        lemma_some_bit(x, (from + 1) as u64)
    }
}

/// The pocket word has bit `h + 10` set exactly if a pocket ends in cell `h`.
proof fn lemma_pocket_bit(n: u64, taken: Set<int>, h: int)
    requires
        forall|q: int| 0 <= q < 64 ==> (bit(n, q) <==> filled(taken, q)),
        -10 <= h < 54,
    ensures
        bit(pocket_word(n), h + 10) <==> pocket(taken, h),
{
    let p = (h + 10) as u64;
    lemma_pocket_word(n, p);
    assert forall|back: u64| back <= 31 implies (set_back(n, p, back) <==> filled(
        taken,
        p - back,
    )) && (clear_back(n, p, back) <==> vacant(taken, p - back)) by {
        if p >= back {
            assert(bit(n, p - back) <==> filled(taken, p - back));
        }
    }
}

impl BinaryBoard {
    /// Find the first bit left unset in the bitfield, from bit `lower_bound` on; 50 if
    /// there is none. This uses a lookup table to get the first unset bit in a byte
    /// efficiently.
    pub fn get_first_unset_bit(&self, lower_bound: u8) -> (first: u8)
        ensures
            first <= 50,
            first < 50 ==> is_first_empty(self.taken(), lower_bound as int, first as int),
            first == 50 ==> none_empty(self.taken(), lower_bound as int),
    {
        proof {
            use_type_invariant(self);
        }
        let cells = self.cells;
        if lower_bound >= 50 {
            return 50;
        }
        if cells & (1u64 << lower_bound) == 0 {
            proof {
                lemma_and_one(cells, lower_bound as u64);
            }
            return lower_bound;
        }
        let mut byte_index: u8 = lower_bound / 8;
        let mut set_below: u8 = lower_bound % 8;
        while byte_index < 8
            invariant
                lower_bound < 50,
                byte_index <= 8,
                set_below < 8,
                cells == self.cells,
                cells >> 50 == 0x3fff,
                8 * byte_index + set_below >= lower_bound,
                byte_index < 8 ==> 8 * byte_index + set_below <= 64,
                forall|j: int| lower_bound <= j < 8 * byte_index + set_below ==> bit(cells, j),
            decreases 8 - byte_index,
        {
            proof {
                lemma_byte_of_word(cells, byte_index as u64, set_below, 0);
            }
            let low: u8 = (1u8 << set_below) - 1;
            let byte: u8 = #[verifier::truncate] ((cells >> (8 * byte_index as u64)) as u8) | low;
            let first_unset_bit = FIRST_UNSET_BIT[byte as usize];
            proof {
                lemma_first_unset_bit_table(byte);
                assert forall|j: u8| j < 8 implies (bit(cells, 8 * byte_index + j) <==> (byte >> j)
                    & 1 == 1 && j >= set_below) || (j < set_below) by {
                    lemma_byte_of_word(cells, byte_index as u64, set_below, j);
                }
                assert forall|j: u8| j < 8 implies (j < first_unset_bit ==> (byte >> j) & 1 == 1)
                    && (j == first_unset_bit ==> (byte >> j) & 1 != 1) by {
                    lemma_low_ones(byte, j);
                }
                lemma_low_ones(byte, 0);
            }
            if first_unset_bit < 8 {
                proof {
                    let found = 8 * byte_index + first_unset_bit;
                    lemma_byte_of_word(cells, byte_index as u64, set_below, first_unset_bit);
                    assert(!bit(cells, found));
                    if found >= 50 {
                        lemma_high_bits(cells, found as u64);
                    }
                    assert forall|j: int| lower_bound <= j < found implies bit(cells, j) by {
                        if j >= 8 * byte_index + set_below {
                            let k = (j - 8 * byte_index) as u8;
                            lemma_byte_of_word(cells, byte_index as u64, set_below, k);
                        }
                    }
                }
                return byte_index * 8 + first_unset_bit;
            }
            proof {
                assert forall|j: int| lower_bound <= j < 8 * (byte_index + 1) implies bit(
                    cells,
                    j,
                ) by {
                    if j >= 8 * byte_index + set_below {
                        let k = (j - 8 * byte_index) as u8;
                        lemma_byte_of_word(cells, byte_index as u64, set_below, k);
                    }
                }
            }
            set_below = 0;
            byte_index += 1;
        }
        50
    }
}

impl Board for BinaryBoard {
    closed spec fn taken(&self) -> Set<int> {
        Set::new(|cell: int| 0 <= cell < 50 && bit(self.cells, cell))
    }

    /// A bit board gives up where it finds one of its pockets ending at or after `index`.
    open spec fn hopeless(taken: Set<int>, index: int) -> bool {
        exists|h: int| index <= h < 50 && #[trigger] pocket(taken, h)
    }

    /// A bit board keeps nothing but which cells hold a ball.
    open spec fn holds(&self, pieces: Seq<PlacedPiece>) -> bool {
        self.taken() == covered(pieces)
    }

    proof fn lemma_taken_on_grid(&self) {
    }

    proof fn lemma_gives_up_rightly(taken: Set<int>, index: int, pieces: Seq<PlacedPiece>) {
        let h = choose|h: int| index <= h < 50 && #[trigger] pocket(taken, h);
        lemma_pocket_is_lost(taken, pieces, h);
    }

    fn can_place_piece(&self, piece: PlacedPiece) -> (ok: bool) {
        let info = get_placement_info(piece.piece);
        if !is_valid_piece_placement(piece, &info) {
            return false;
        }
        proof {
            use_type_invariant(self);
            lemma_piece_cells(piece, info);
            lemma_mask_test(self.cells, info.balls@, piece.top_left as u64);
        }
        let binary_piece = info.as_binary << piece.top_left;
        self.cells & binary_piece == 0
    }

    fn with_piece(self, piece: PlacedPiece) -> (next: Self) {
        let info = get_placement_info(piece.piece);
        proof {
            use_type_invariant(self);
            lemma_piece_cells(piece, info);
            lemma_join_keeps_high_bits(self.cells, info.as_binary << piece.top_left);
        }
        let binary_piece = info.as_binary << piece.top_left;
        let next = BinaryBoard { cells: self.cells | binary_piece };
        proof {
            assert forall|cell: int| 0 <= cell < 50 implies (bit(next.cells, cell) <==> bit(
                self.cells,
                cell,
            ) || piece.cells().contains(cell)) by {
                lemma_mask_join(self.cells, info.balls@, piece.top_left as u64, cell);
            }
            assert(next.taken() =~= self.taken().union(piece.cells()));
            assert forall|pieces: Seq<PlacedPiece>| #[trigger] self.holds(pieces)
                implies next.holds(
                pieces.push(piece),
            ) by {
                lemma_covered_push(pieces, piece);
            }
        }
        next
    }

    fn empty() -> (board: Self) {
        proof {
            lemma_empty_word(0);
        }
        let board = BinaryBoard {
            // Set the cells after the board to full.
            cells: (!0u64) << 50,
        };
        proof {
            assert forall|cell: int| 0 <= cell < 50 implies !bit(board.cells, cell) by {
                lemma_empty_word(cell as u64);
            }
            assert(board.taken() =~= Set::<int>::empty());
            assert(covered(Seq::<PlacedPiece>::empty()) =~= Set::<int>::empty());
        }
        board
    }

    fn is_cell_empty(&self, index: u8) -> (empty: bool) {
        if index >= 64 {
            return false;
        }
        proof {
            use_type_invariant(self);
            lemma_and_one(self.cells, index as u64);
            if index >= 50 {
                lemma_high_bits(self.cells, index as u64);
            }
        }
        self.cells & (1u64 << index) == 0
    }

    fn check_common_failures(&self, index: u8) -> (dead: bool) {
        if index >= 50 {
            return false;
        }
        let n = self.cells;
        // A free cell with the bit after it and the bit below it set.
        let base_pattern = n & (n << 9) & (!n << 10);
        let single_hole = base_pattern & (n << 20) & (n << 11);
        // Two free cells side by side, with the bits below them and above the second set.
        let base_double_pattern = base_pattern & (n << 20) & (!n << 11) & (n << 1);
        let double_hole = base_double_pattern & (n << 12) & (n << 21);
        let double_hole_vertical = base_pattern & (n << 11) & (!n << 20) & (n << 19) & (n << 21)
            & (n << 30);
        // The cell below the first of three free cells in a row and the index before it.
        let triple_hole = base_double_pattern & (!n << 12) & (n << 21) & (n << 3) & (n << 2) & (n
            << 22) & (n << 13);
        let triple_hole_l = base_double_pattern & (n << 12) & (!n << 21) & (n << 31) & (n << 22)
            & (n << 13);
        let triple_hole_l2 = base_pattern & (n << 1) & (!n << 11) & (n << 12) & (n << 19) & (!n
            << 20) & (n << 21) & (n << 30);
        let triple_hole_l3 = base_pattern & (n << 11) & (n << 19) & (!n << 20) & (!n << 21) & (n
            << 22) & (n << 30) & (n << 31);
        let triple_hole_l4 = base_pattern & (n << 11) & (n << 18) & (!n << 19) & (!n << 20) & (n
            << 21) & (n << 29) & (n << 30);
        let pockets = single_hole | double_hole | double_hole_vertical | triple_hole
            | triple_hole_l | triple_hole_l2 | triple_hole_l3 | triple_hole_l4;
        let dead = (pockets >> (index + 10)) != 0;
        proof {
            use_type_invariant(self);
            let taken = self.taken();
            assert(pockets == pocket_word(n));
            assert forall|q: int| 0 <= q < 64 implies (bit(n, q) <==> filled(taken, q)) by {
                if q >= 50 {
                    lemma_high_bits(n, q as u64);
                }
            }
            if dead {
                let p = lemma_some_bit(pockets, (index + 10) as u64);
                lemma_pocket_bit(n, taken, p - 10);
                assert(pocket(taken, p - 10));
            }
            if Self::hopeless(taken, index as int) {
                let h = choose|h: int| index <= h < 50 && #[trigger] pocket(taken, h);
                lemma_pocket_bit(n, taken, h);
                lemma_shifted_nonzero(pockets, (index + 10) as u64, (h + 10) as u64);
                assert forall|pieces: Seq<PlacedPiece>| !#[trigger] fills(taken, pieces) by {
                    lemma_pocket_is_lost(taken, pieces, h);
                }
            }
        }
        dead
    }

    fn first_empty_cell(&self, lower_bound: u8) -> (found: Option<u8>) {
        let first_unset_bit = self.get_first_unset_bit(lower_bound);
        if first_unset_bit >= 50 {
            None
        } else {
            Some(first_unset_bit)
        }
    }
}

impl Default for BinaryBoard {
    fn default() -> (board: Self)
        ensures
            board.taken() == Set::<int>::empty(),
            board.holds(Seq::empty()),
    {
        Self::empty()
    }
}

} // verus!
