//! The placement data of the eighty variants, each proved against the shape of its piece.
use vstd::prelude::*;
use crate::board::display_board_placement_info::{
    bits_of, mask_of, offset_col, offset_row, DisplayBoardPlacementInfo,
};
use crate::pieces::{Color, Face, Orientation, Piece};
use crate::shapes::{has_ball, lemma_anchor};

verus! {

/// Whether slot `k` of the list is in order: a ball of the piece that comes after the ball
/// before it, or zero past the end of the list.
spec fn slot_in_order(info: DisplayBoardPlacementInfo, piece: Piece, k: int) -> bool {
    let b = info.balls@[k];
    if k < info.num_balls {
        &&& has_ball(piece, offset_row(b as int), offset_col(b as int))
        &&& k > 0 ==> info.balls@[k - 1] < b
    } else {
        b == 0
    }
}

/// Whether `offset` stands in one of the slots in use.
spec fn in_slots(info: DisplayBoardPlacementInfo, offset: int) -> bool {
    ||| info.balls@[0] == offset
    ||| info.balls@[1] == offset
    ||| info.balls@[2] == offset
    ||| info.balls@[3] == offset
    ||| (4 < info.num_balls && info.balls@[4] == offset)
    ||| (5 < info.num_balls && info.balls@[5] == offset)
}

/// Whether the ball in one of the slots in use lies in column `dc` from the anchor.
spec fn reaches_column(info: DisplayBoardPlacementInfo, dc: int) -> bool {
    ||| offset_col(info.balls@[0] as int) == dc
    ||| offset_col(info.balls@[1] as int) == dc
    ||| offset_col(info.balls@[2] as int) == dc
    ||| offset_col(info.balls@[3] as int) == dc
    ||| (4 < info.num_balls && offset_col(info.balls@[4] as int) == dc)
    ||| (5 < info.num_balls && offset_col(info.balls@[5] as int) == dc)
}

/// Whether the ball in one of the slots in use lies in row `dr` from the anchor.
spec fn reaches_row(info: DisplayBoardPlacementInfo, dr: int) -> bool {
    ||| offset_row(info.balls@[0] as int) == dr
    ||| offset_row(info.balls@[1] as int) == dr
    ||| offset_row(info.balls@[2] as int) == dr
    ||| offset_row(info.balls@[3] as int) == dr
    ||| (4 < info.num_balls && offset_row(info.balls@[4] as int) == dr)
    ||| (5 < info.num_balls && offset_row(info.balls@[5] as int) == dr)
}

/// Placement data that is right slot by slot describes the piece.
proof fn lemma_describes(info: DisplayBoardPlacementInfo, piece: Piece)
    requires
        4 <= info.num_balls <= 6,
        slot_in_order(info, piece, 0),
        slot_in_order(info, piece, 1),
        slot_in_order(info, piece, 2),
        slot_in_order(info, piece, 3),
        slot_in_order(info, piece, 4),
        slot_in_order(info, piece, 5),
        forall|dr: int, dc: int| #[trigger]
            has_ball(piece, dr, dc) ==> {
                &&& in_slots(info, 10 * dr + dc)
                &&& 0 <= dr <= info.height
                &&& -info.width_left <= dc <= info.width_right
            },
        reaches_column(info, -info.width_left),
        reaches_column(info, info.width_right as int),
        reaches_row(info, info.height as int),
        info.as_binary == mask_of(info.balls@),
    ensures
        info.describes(piece),
{
    assert forall|dr: int, dc: int| #[trigger] has_ball(piece, dr, dc) implies info.lists(
        10 * dr + dc,
    ) by {
        let x = 10 * dr + dc;
        assert(in_slots(info, x));
        let i: int = if info.balls@[0] == x {
            0
        } else if info.balls@[1] == x {
            1
        } else if info.balls@[2] == x {
            2
        } else if info.balls@[3] == x {
            3
        } else if info.balls@[4] == x {
            4
        } else {
            5
        };
        assert(0 <= i < info.num_balls && info.balls@[i] == x);
        reveal(DisplayBoardPlacementInfo::lists);
    }
    assert forall|k: int| 0 <= k < info.num_balls implies has_ball(
        piece,
        offset_row(#[trigger] info.balls@[k] as int),
        offset_col(info.balls@[k] as int),
    ) by {
        assert(slot_in_order(info, piece, k));
    }
}

/// The placement data of the yellow piece, for each face and orientation.
pub(super) fn yellow(face: Face, orientation: Orientation) -> (info: DisplayBoardPlacementInfo)
    ensures
        info.describes(Piece { orientation, face, color: Color::Yellow }),
{
    let ghost piece = Piece { orientation, face, color: Color::Yellow };
    proof {
        assert({
            &&& bits_of(0, 1, 10, 20, 30, 0) == 0x40100403
            &&& bits_of(0, 1, 2, 3, 13, 0) == 0x200f
            &&& bits_of(0, 10, 20, 29, 30, 0) == 0x60100401
            &&& bits_of(0, 10, 11, 12, 13, 0) == 0x3c01
            &&& bits_of(0, 1, 10, 11, 20, 30) == 0x40100c03
            &&& bits_of(0, 1, 2, 3, 12, 13) == 0x300f
            &&& bits_of(0, 10, 19, 20, 29, 30) == 0x60180401
            &&& bits_of(0, 1, 10, 11, 12, 13) == 0x3c03
        }) by (bit_vector);
        lemma_anchor(piece);
        reveal(has_ball);
    }
    match (face, orientation) {
        (Face::A, Orientation::Up) => {
            let info = DisplayBoardPlacementInfo {
                width_right: 1,
                width_left: 0,
                height: 3,
                num_balls: 5,
                balls: [0, 1, 10, 20, 30, 0],
                as_binary: 0x40100403,
            };
            proof {
                lemma_describes(info, piece);
            }
            info
        },
        (Face::A, Orientation::Right) => {
            let info = DisplayBoardPlacementInfo {
                width_right: 3,
                width_left: 0,
                height: 1,
                num_balls: 5,
                balls: [0, 1, 2, 3, 13, 0],
                as_binary: 0x200f,
            };
            proof {
                lemma_describes(info, piece);
            }
            info
        },
        (Face::A, Orientation::Down) => {
            let info = DisplayBoardPlacementInfo {
                width_right: 0,
                width_left: 1,
                height: 3,
                num_balls: 5,
                balls: [0, 10, 20, 29, 30, 0],
                as_binary: 0x60100401,
            };
            proof {
                lemma_describes(info, piece);
            }
            info
        },
        (Face::A, Orientation::Left) => {
            let info = DisplayBoardPlacementInfo {
                width_right: 3,
                width_left: 0,
                height: 1,
                num_balls: 5,
                balls: [0, 10, 11, 12, 13, 0],
                as_binary: 0x3c01,
            };
            proof {
                lemma_describes(info, piece);
            }
            info
        },
        (Face::B, Orientation::Up) => {
            let info = DisplayBoardPlacementInfo {
                width_right: 1,
                width_left: 0,
                height: 3,
                num_balls: 6,
                balls: [0, 1, 10, 11, 20, 30],
                as_binary: 0x40100c03,
            };
            proof {
                lemma_describes(info, piece);
            }
            info
        },
        (Face::B, Orientation::Right) => {
            let info = DisplayBoardPlacementInfo {
                width_right: 3,
                width_left: 0,
                height: 1,
                num_balls: 6,
                balls: [0, 1, 2, 3, 12, 13],
                as_binary: 0x300f,
            };
            proof {
                lemma_describes(info, piece);
            }
            info
        },
        (Face::B, Orientation::Down) => {
            let info = DisplayBoardPlacementInfo {
                width_right: 0,
                width_left: 1,
                height: 3,
                num_balls: 6,
                balls: [0, 10, 19, 20, 29, 30],
                as_binary: 0x60180401,
            };
            proof {
                lemma_describes(info, piece);
            }
            info
        },
        (Face::B, Orientation::Left) => {
            let info = DisplayBoardPlacementInfo {
                width_right: 3,
                width_left: 0,
                height: 1,
                num_balls: 6,
                balls: [0, 1, 10, 11, 12, 13],
                as_binary: 0x3c03,
            };
            proof {
                lemma_describes(info, piece);
            }
            info
        },
    }
}

/// The placement data of the orange piece, for each face and orientation.
pub(super) fn orange(face: Face, orientation: Orientation) -> (info: DisplayBoardPlacementInfo)
    ensures
        info.describes(Piece { orientation, face, color: Color::Orange }),
{
    let ghost piece = Piece { orientation, face, color: Color::Orange };
    proof {
        assert({
            &&& bits_of(0, 10, 20, 21, 30, 0) == 0x40300401
            &&& bits_of(0, 1, 2, 3, 11, 0) == 0x80f
            &&& bits_of(0, 9, 10, 20, 30, 0) == 0x40100601
            &&& bits_of(0, 8, 9, 10, 11, 0) == 0xf01
            &&& bits_of(0, 10, 11, 20, 30, 31) == 0xc0100c01
            &&& bits_of(0, 1, 2, 3, 10, 12) == 0x140f
            &&& bits_of(0, 1, 11, 20, 21, 31) == 0x80300803
            &&& bits_of(0, 2, 9, 10, 11, 12) == 0x1e05
        }) by (bit_vector);
        lemma_anchor(piece);
        reveal(has_ball);
    }
    match (face, orientation) {
        (Face::A, Orientation::Up) => {
            let info = DisplayBoardPlacementInfo {
                width_right: 1,
                width_left: 0,
                height: 3,
                num_balls: 5,
                balls: [0, 10, 20, 21, 30, 0],
                as_binary: 0x40300401,
            };
            proof {
                lemma_describes(info, piece);
            }
            info
        },
        (Face::A, Orientation::Right) => {
            let info = DisplayBoardPlacementInfo {
                width_right: 3,
                width_left: 0,
                height: 1,
                num_balls: 5,
                balls: [0, 1, 2, 3, 11, 0],
                as_binary: 0x80f,
            };
            proof {
                lemma_describes(info, piece);
            }
            info
        },
        (Face::A, Orientation::Down) => {
            let info = DisplayBoardPlacementInfo {
                width_right: 0,
                width_left: 1,
                height: 3,
                num_balls: 5,
                balls: [0, 9, 10, 20, 30, 0],
                as_binary: 0x40100601,
            };
            proof {
                lemma_describes(info, piece);
            }
            info
        },
        (Face::A, Orientation::Left) => {
            let info = DisplayBoardPlacementInfo {
                width_right: 1,
                width_left: 2,
                height: 1,
                num_balls: 5,
                balls: [0, 8, 9, 10, 11, 0],
                as_binary: 0xf01,
            };
            proof {
                lemma_describes(info, piece);
            }
            info
        },
        (Face::B, Orientation::Up) => {
            let info = DisplayBoardPlacementInfo {
                width_right: 1,
                width_left: 0,
                height: 3,
                num_balls: 6,
                balls: [0, 10, 11, 20, 30, 31],
                as_binary: 0xc0100c01,
            };
            proof {
                lemma_describes(info, piece);
            }
            info
        },
        (Face::B, Orientation::Right) => {
            let info = DisplayBoardPlacementInfo {
                width_right: 3,
                width_left: 0,
                height: 1,
                num_balls: 6,
                balls: [0, 1, 2, 3, 10, 12],
                as_binary: 0x140f,
            };
            proof {
                lemma_describes(info, piece);
            }
            info
        },
        (Face::B, Orientation::Down) => {
            let info = DisplayBoardPlacementInfo {
                width_right: 1,
                width_left: 0,
                height: 3,
                num_balls: 6,
                balls: [0, 1, 11, 20, 21, 31],
                as_binary: 0x80300803,
            };
            proof {
                lemma_describes(info, piece);
            }
            info
        },
        (Face::B, Orientation::Left) => {
            let info = DisplayBoardPlacementInfo {
                width_right: 2,
                width_left: 1,
                height: 1,
                num_balls: 6,
                balls: [0, 2, 9, 10, 11, 12],
                as_binary: 0x1e05,
            };
            proof {
                lemma_describes(info, piece);
            }
            info
        },
    }
}

/// The placement data of the red piece, for each face and orientation.
pub(super) fn red(face: Face, orientation: Orientation) -> (info: DisplayBoardPlacementInfo)
    ensures
        info.describes(Piece { orientation, face, color: Color::Red }),
{
    let ghost piece = Piece { orientation, face, color: Color::Red };
    proof {
        assert({
            &&& bits_of(0, 10, 20, 30, 31, 0) == 0xc0100401
            &&& bits_of(0, 1, 2, 3, 10, 0) == 0x40f
            &&& bits_of(0, 1, 11, 21, 31, 0) == 0x80200803
            &&& bits_of(0, 7, 8, 9, 10, 0) == 0x781
            &&& bits_of(0, 1, 10, 20, 30, 31) == 0xc0100403
            &&& bits_of(0, 1, 2, 3, 10, 13) == 0x240f
            &&& bits_of(0, 1, 11, 21, 30, 31) == 0xc0200803
            &&& bits_of(0, 3, 10, 11, 12, 13) == 0x3c09
        }) by (bit_vector);
        lemma_anchor(piece);
        reveal(has_ball);
    }
    match (face, orientation) {
        (Face::A, Orientation::Up) => {
            let info = DisplayBoardPlacementInfo {
                width_right: 1,
                width_left: 0,
                height: 3,
                num_balls: 5,
                balls: [0, 10, 20, 30, 31, 0],
                as_binary: 0xc0100401,
            };
            proof {
                lemma_describes(info, piece);
            }
            info
        },
        (Face::A, Orientation::Right) => {
            let info = DisplayBoardPlacementInfo {
                width_right: 3,
                width_left: 0,
                height: 1,
                num_balls: 5,
                balls: [0, 1, 2, 3, 10, 0],
                as_binary: 0x40f,
            };
            proof {
                lemma_describes(info, piece);
            }
            info
        },
        (Face::A, Orientation::Down) => {
            let info = DisplayBoardPlacementInfo {
                width_right: 1,
                width_left: 0,
                height: 3,
                num_balls: 5,
                balls: [0, 1, 11, 21, 31, 0],
                as_binary: 0x80200803,
            };
            proof {
                lemma_describes(info, piece);
            }
            info
        },
        (Face::A, Orientation::Left) => {
            let info = DisplayBoardPlacementInfo {
                width_right: 0,
                width_left: 3,
                height: 1,
                num_balls: 5,
                balls: [0, 7, 8, 9, 10, 0],
                as_binary: 0x781,
            };
            proof {
                lemma_describes(info, piece);
            }
            info
        },
        (Face::B, Orientation::Up) => {
            let info = DisplayBoardPlacementInfo {
                width_right: 1,
                width_left: 0,
                height: 3,
                num_balls: 6,
                balls: [0, 1, 10, 20, 30, 31],
                as_binary: 0xc0100403,
            };
            proof {
                lemma_describes(info, piece);
            }
            info
        },
        (Face::B, Orientation::Right) => {
            let info = DisplayBoardPlacementInfo {
                width_right: 3,
                width_left: 0,
                height: 1,
                num_balls: 6,
                balls: [0, 1, 2, 3, 10, 13],
                as_binary: 0x240f,
            };
            proof {
                lemma_describes(info, piece);
            }
            info
        },
        (Face::B, Orientation::Down) => {
            let info = DisplayBoardPlacementInfo {
                width_right: 1,
                width_left: 0,
                height: 3,
                num_balls: 6,
                balls: [0, 1, 11, 21, 30, 31],
                as_binary: 0xc0200803,
            };
            proof {
                lemma_describes(info, piece);
            }
            info
        },
        (Face::B, Orientation::Left) => {
            let info = DisplayBoardPlacementInfo {
                width_right: 3,
                width_left: 0,
                height: 1,
                num_balls: 6,
                balls: [0, 3, 10, 11, 12, 13],
                as_binary: 0x3c09,
            };
            proof {
                lemma_describes(info, piece);
            }
            info
        },
    }
}

/// The placement data of the pink piece, for each face and orientation.
pub(super) fn pink(face: Face, orientation: Orientation) -> (info: DisplayBoardPlacementInfo)
    ensures
        info.describes(Piece { orientation, face, color: Color::Pink }),
{
    let ghost piece = Piece { orientation, face, color: Color::Pink };
    proof {
        assert({
            &&& bits_of(0, 10, 11, 20, 30, 0) == 0x40100c01
            &&& bits_of(0, 1, 2, 3, 12, 0) == 0x100f
            &&& bits_of(0, 10, 19, 20, 30, 0) == 0x40180401
            &&& bits_of(0, 9, 10, 11, 12, 0) == 0x1e01
            &&& bits_of(0, 10, 20, 21, 30, 31) == 0xc0300401
            &&& bits_of(0, 1, 2, 3, 10, 11) == 0xc0f
            &&& bits_of(0, 1, 10, 11, 21, 31) == 0x80200c03
            &&& bits_of(0, 1, 8, 9, 10, 11) == 0xf03
        }) by (bit_vector);
        lemma_anchor(piece);
        reveal(has_ball);
    }
    match (face, orientation) {
        (Face::A, Orientation::Up) => {
            let info = DisplayBoardPlacementInfo {
                width_right: 1,
                width_left: 0,
                height: 3,
                num_balls: 5,
                balls: [0, 10, 11, 20, 30, 0],
                as_binary: 0x40100c01,
            };
            proof {
                lemma_describes(info, piece);
            }
            info
        },
        (Face::A, Orientation::Right) => {
            let info = DisplayBoardPlacementInfo {
                width_right: 3,
                width_left: 0,
                height: 1,
                num_balls: 5,
                balls: [0, 1, 2, 3, 12, 0],
                as_binary: 0x100f,
            };
            proof {
                lemma_describes(info, piece);
            }
            info
        },
        (Face::A, Orientation::Down) => {
            let info = DisplayBoardPlacementInfo {
                width_right: 0,
                width_left: 1,
                height: 3,
                num_balls: 5,
                balls: [0, 10, 19, 20, 30, 0],
                as_binary: 0x40180401,
            };
            proof {
                lemma_describes(info, piece);
            }
            info
        },
        (Face::A, Orientation::Left) => {
            let info = DisplayBoardPlacementInfo {
                width_right: 2,
                width_left: 1,
                height: 1,
                num_balls: 5,
                balls: [0, 9, 10, 11, 12, 0],
                as_binary: 0x1e01,
            };
            proof {
                lemma_describes(info, piece);
            }
            info
        },
        (Face::B, Orientation::Up) => {
            let info = DisplayBoardPlacementInfo {
                width_right: 1,
                width_left: 0,
                height: 3,
                num_balls: 6,
                balls: [0, 10, 20, 21, 30, 31],
                as_binary: 0xc0300401,
            };
            proof {
                lemma_describes(info, piece);
            }
            info
        },
        (Face::B, Orientation::Right) => {
            let info = DisplayBoardPlacementInfo {
                width_right: 3,
                width_left: 0,
                height: 1,
                num_balls: 6,
                balls: [0, 1, 2, 3, 10, 11],
                as_binary: 0xc0f,
            };
            proof {
                lemma_describes(info, piece);
            }
            info
        },
        (Face::B, Orientation::Down) => {
            let info = DisplayBoardPlacementInfo {
                width_right: 1,
                width_left: 0,
                height: 3,
                num_balls: 6,
                balls: [0, 1, 10, 11, 21, 31],
                as_binary: 0x80200c03,
            };
            proof {
                lemma_describes(info, piece);
            }
            info
        },
        (Face::B, Orientation::Left) => {
            let info = DisplayBoardPlacementInfo {
                width_right: 1,
                width_left: 2,
                height: 1,
                num_balls: 6,
                balls: [0, 1, 8, 9, 10, 11],
                as_binary: 0xf03,
            };
            proof {
                lemma_describes(info, piece);
            }
            info
        },
    }
}

/// The placement data of the light green piece, for each face and orientation.
pub(super) fn light_green(face: Face, orientation: Orientation) -> (info: DisplayBoardPlacementInfo)
    ensures
        info.describes(Piece { orientation, face, color: Color::LightGreen }),
{
    let ghost piece = Piece { orientation, face, color: Color::LightGreen };
    proof {
        assert({
            &&& bits_of(0, 10, 20, 21, 0, 0) == 0x300401
            &&& bits_of(0, 1, 2, 10, 0, 0) == 0x407
            &&& bits_of(0, 1, 11, 21, 0, 0) == 0x200803
            &&& bits_of(0, 8, 9, 10, 0, 0) == 0x701
            &&& bits_of(0, 1, 10, 20, 21, 0) == 0x300403
            &&& bits_of(0, 1, 2, 10, 12, 0) == 0x1407
            &&& bits_of(0, 1, 11, 20, 21, 0) == 0x300803
            &&& bits_of(0, 2, 10, 11, 12, 0) == 0x1c05
        }) by (bit_vector);
        lemma_anchor(piece);
        reveal(has_ball);
    }
    match (face, orientation) {
        (Face::A, Orientation::Up) => {
            let info = DisplayBoardPlacementInfo {
                width_right: 1,
                width_left: 0,
                height: 2,
                num_balls: 4,
                balls: [0, 10, 20, 21, 0, 0],
                as_binary: 0x300401,
            };
            proof {
                lemma_describes(info, piece);
            }
            info
        },
        (Face::A, Orientation::Right) => {
            let info = DisplayBoardPlacementInfo {
                width_right: 2,
                width_left: 0,
                height: 1,
                num_balls: 4,
                balls: [0, 1, 2, 10, 0, 0],
                as_binary: 0x407,
            };
            proof {
                lemma_describes(info, piece);
            }
            info
        },
        (Face::A, Orientation::Down) => {
            let info = DisplayBoardPlacementInfo {
                width_right: 1,
                width_left: 0,
                height: 2,
                num_balls: 4,
                balls: [0, 1, 11, 21, 0, 0],
                as_binary: 0x200803,
            };
            proof {
                lemma_describes(info, piece);
            }
            info
        },
        (Face::A, Orientation::Left) => {
            let info = DisplayBoardPlacementInfo {
                width_right: 0,
                width_left: 2,
                height: 1,
                num_balls: 4,
                balls: [0, 8, 9, 10, 0, 0],
                as_binary: 0x701,
            };
            proof {
                lemma_describes(info, piece);
            }
            info
        },
        (Face::B, Orientation::Up) => {
            let info = DisplayBoardPlacementInfo {
                width_right: 1,
                width_left: 0,
                height: 2,
                num_balls: 5,
                balls: [0, 1, 10, 20, 21, 0],
                as_binary: 0x300403,
            };
            proof {
                lemma_describes(info, piece);
            }
            info
        },
        (Face::B, Orientation::Right) => {
            let info = DisplayBoardPlacementInfo {
                width_right: 2,
                width_left: 0,
                height: 1,
                num_balls: 5,
                balls: [0, 1, 2, 10, 12, 0],
                as_binary: 0x1407,
            };
            proof {
                lemma_describes(info, piece);
            }
            info
        },
        (Face::B, Orientation::Down) => {
            let info = DisplayBoardPlacementInfo {
                width_right: 1,
                width_left: 0,
                height: 2,
                num_balls: 5,
                balls: [0, 1, 11, 20, 21, 0],
                as_binary: 0x300803,
            };
            proof {
                lemma_describes(info, piece);
            }
            info
        },
        (Face::B, Orientation::Left) => {
            let info = DisplayBoardPlacementInfo {
                width_right: 2,
                width_left: 0,
                height: 1,
                num_balls: 5,
                balls: [0, 2, 10, 11, 12, 0],
                as_binary: 0x1c05,
            };
            proof {
                lemma_describes(info, piece);
            }
            info
        },
    }
}

/// The placement data of the green piece, for each face and orientation.
pub(super) fn green(face: Face, orientation: Orientation) -> (info: DisplayBoardPlacementInfo)
    ensures
        info.describes(Piece { orientation, face, color: Color::Green }),
{
    let ghost piece = Piece { orientation, face, color: Color::Green };
    proof {
        assert({
            &&& bits_of(0, 10, 11, 20, 0, 0) == 0x100c01
            &&& bits_of(0, 1, 2, 11, 0, 0) == 0x807
            &&& bits_of(0, 9, 10, 20, 0, 0) == 0x100601
            &&& bits_of(0, 9, 10, 11, 0, 0) == 0xe01
            &&& bits_of(0, 10, 11, 20, 21, 0) == 0x300c01
            &&& bits_of(0, 1, 2, 10, 11, 0) == 0xc07
            &&& bits_of(0, 1, 10, 11, 21, 0) == 0x200c03
            &&& bits_of(0, 1, 9, 10, 11, 0) == 0xe03
        }) by (bit_vector);
        lemma_anchor(piece);
        reveal(has_ball);
    }
    match (face, orientation) {
        (Face::A, Orientation::Up) => {
            let info = DisplayBoardPlacementInfo {
                width_right: 1,
                width_left: 0,
                height: 2,
                num_balls: 4,
                balls: [0, 10, 11, 20, 0, 0],
                as_binary: 0x100c01,
            };
            proof {
                lemma_describes(info, piece);
            }
            info
        },
        (Face::A, Orientation::Right) => {
            let info = DisplayBoardPlacementInfo {
                width_right: 2,
                width_left: 0,
                height: 1,
                num_balls: 4,
                balls: [0, 1, 2, 11, 0, 0],
                as_binary: 0x807,
            };
            proof {
                lemma_describes(info, piece);
            }
            info
        },
        (Face::A, Orientation::Down) => {
            let info = DisplayBoardPlacementInfo {
                width_right: 0,
                width_left: 1,
                height: 2,
                num_balls: 4,
                balls: [0, 9, 10, 20, 0, 0],
                as_binary: 0x100601,
            };
            proof {
                lemma_describes(info, piece);
            }
            info
        },
        (Face::A, Orientation::Left) => {
            let info = DisplayBoardPlacementInfo {
                width_right: 1,
                width_left: 1,
                height: 1,
                num_balls: 4,
                balls: [0, 9, 10, 11, 0, 0],
                as_binary: 0xe01,
            };
            proof {
                lemma_describes(info, piece);
            }
            info
        },
        (Face::B, Orientation::Up) => {
            let info = DisplayBoardPlacementInfo {
                width_right: 1,
                width_left: 0,
                height: 2,
                num_balls: 5,
                balls: [0, 10, 11, 20, 21, 0],
                as_binary: 0x300c01,
            };
            proof {
                lemma_describes(info, piece);
            }
            info
        },
        (Face::B, Orientation::Right) => {
            let info = DisplayBoardPlacementInfo {
                width_right: 2,
                width_left: 0,
                height: 1,
                num_balls: 5,
                balls: [0, 1, 2, 10, 11, 0],
                as_binary: 0xc07,
            };
            proof {
                lemma_describes(info, piece);
            }
            info
        },
        (Face::B, Orientation::Down) => {
            let info = DisplayBoardPlacementInfo {
                width_right: 1,
                width_left: 0,
                height: 2,
                num_balls: 5,
                balls: [0, 1, 10, 11, 21, 0],
                as_binary: 0x200c03,
            };
            proof {
                lemma_describes(info, piece);
            }
            info
        },
        (Face::B, Orientation::Left) => {
            let info = DisplayBoardPlacementInfo {
                width_right: 1,
                width_left: 1,
                height: 1,
                num_balls: 5,
                balls: [0, 1, 9, 10, 11, 0],
                as_binary: 0xe03,
            };
            proof {
                lemma_describes(info, piece);
            }
            info
        },
    }
}

/// The placement data of the light blue piece, for each face and orientation.
pub(super) fn light_blue(face: Face, orientation: Orientation) -> (info: DisplayBoardPlacementInfo)
    ensures
        info.describes(Piece { orientation, face, color: Color::LightBlue }),
{
    let ghost piece = Piece { orientation, face, color: Color::LightBlue };
    proof {
        assert({
            &&& bits_of(0, 10, 20, 21, 30, 0) == 0x40300401
            &&& bits_of(0, 1, 2, 3, 11, 0) == 0x80f
            &&& bits_of(0, 9, 10, 20, 30, 0) == 0x40100601
            &&& bits_of(0, 8, 9, 10, 11, 0) == 0xf01
            &&& bits_of(0, 10, 11, 20, 21, 30) == 0x40300c01
            &&& bits_of(0, 1, 2, 3, 11, 12) == 0x180f
            &&& bits_of(0, 9, 10, 19, 20, 30) == 0x40180601
            &&& bits_of(0, 1, 9, 10, 11, 12) == 0x1e03
        }) by (bit_vector);
        lemma_anchor(piece);
        reveal(has_ball);
    }
    match (face, orientation) {
        (Face::A, Orientation::Up) => {
            let info = DisplayBoardPlacementInfo {
                width_right: 1,
                width_left: 0,
                height: 3,
                num_balls: 5,
                balls: [0, 10, 20, 21, 30, 0],
                as_binary: 0x40300401,
            };
            proof {
                lemma_describes(info, piece);
            }
            info
        },
        (Face::A, Orientation::Right) => {
            let info = DisplayBoardPlacementInfo {
                width_right: 3,
                width_left: 0,
                height: 1,
                num_balls: 5,
                balls: [0, 1, 2, 3, 11, 0],
                as_binary: 0x80f,
            };
            proof {
                lemma_describes(info, piece);
            }
            info
        },
        (Face::A, Orientation::Down) => {
            let info = DisplayBoardPlacementInfo {
                width_right: 0,
                width_left: 1,
                height: 3,
                num_balls: 5,
                balls: [0, 9, 10, 20, 30, 0],
                as_binary: 0x40100601,
            };
            proof {
                lemma_describes(info, piece);
            }
            info
        },
        (Face::A, Orientation::Left) => {
            let info = DisplayBoardPlacementInfo {
                width_right: 1,
                width_left: 2,
                height: 1,
                num_balls: 5,
                balls: [0, 8, 9, 10, 11, 0],
                as_binary: 0xf01,
            };
            proof {
                lemma_describes(info, piece);
            }
            info
        },
        (Face::B, Orientation::Up) => {
            let info = DisplayBoardPlacementInfo {
                width_right: 1,
                width_left: 0,
                height: 3,
                num_balls: 6,
                balls: [0, 10, 11, 20, 21, 30],
                as_binary: 0x40300c01,
            };
            proof {
                lemma_describes(info, piece);
            }
            info
        },
        (Face::B, Orientation::Right) => {
            let info = DisplayBoardPlacementInfo {
                width_right: 3,
                width_left: 0,
                height: 1,
                num_balls: 6,
                balls: [0, 1, 2, 3, 11, 12],
                as_binary: 0x180f,
            };
            proof {
                lemma_describes(info, piece);
            }
            info
        },
        (Face::B, Orientation::Down) => {
            let info = DisplayBoardPlacementInfo {
                width_right: 0,
                width_left: 1,
                height: 3,
                num_balls: 6,
                balls: [0, 9, 10, 19, 20, 30],
                as_binary: 0x40180601,
            };
            proof {
                lemma_describes(info, piece);
            }
            info
        },
        (Face::B, Orientation::Left) => {
            let info = DisplayBoardPlacementInfo {
                width_right: 2,
                width_left: 1,
                height: 1,
                num_balls: 6,
                balls: [0, 1, 9, 10, 11, 12],
                as_binary: 0x1e03,
            };
            proof {
                lemma_describes(info, piece);
            }
            info
        },
    }
}

/// The placement data of the blue piece, for each face and orientation.
pub(super) fn blue(face: Face, orientation: Orientation) -> (info: DisplayBoardPlacementInfo)
    ensures
        info.describes(Piece { orientation, face, color: Color::Blue }),
{
    let ghost piece = Piece { orientation, face, color: Color::Blue };
    proof {
        assert({
            &&& bits_of(0, 10, 20, 30, 31, 0) == 0xc0100401
            &&& bits_of(0, 1, 2, 3, 10, 0) == 0x40f
            &&& bits_of(0, 1, 11, 21, 31, 0) == 0x80200803
            &&& bits_of(0, 7, 8, 9, 10, 0) == 0x781
            &&& bits_of(0, 1, 10, 20, 21, 30) == 0x40300403
            &&& bits_of(0, 1, 2, 3, 11, 13) == 0x280f
            &&& bits_of(0, 9, 10, 20, 29, 30) == 0x60100601
            &&& bits_of(0, 2, 10, 11, 12, 13) == 0x3c05
        }) by (bit_vector);
        lemma_anchor(piece);
        reveal(has_ball);
    }
    match (face, orientation) {
        (Face::A, Orientation::Up) => {
            let info = DisplayBoardPlacementInfo {
                width_right: 1,
                width_left: 0,
                height: 3,
                num_balls: 5,
                balls: [0, 10, 20, 30, 31, 0],
                as_binary: 0xc0100401,
            };
            proof {
                lemma_describes(info, piece);
            }
            info
        },
        (Face::A, Orientation::Right) => {
            let info = DisplayBoardPlacementInfo {
                width_right: 3,
                width_left: 0,
                height: 1,
                num_balls: 5,
                balls: [0, 1, 2, 3, 10, 0],
                as_binary: 0x40f,
            };
            proof {
                lemma_describes(info, piece);
            }
            info
        },
        (Face::A, Orientation::Down) => {
            let info = DisplayBoardPlacementInfo {
                width_right: 1,
                width_left: 0,
                height: 3,
                num_balls: 5,
                balls: [0, 1, 11, 21, 31, 0],
                as_binary: 0x80200803,
            };
            proof {
                lemma_describes(info, piece);
            }
            info
        },
        (Face::A, Orientation::Left) => {
            let info = DisplayBoardPlacementInfo {
                width_right: 0,
                width_left: 3,
                height: 1,
                num_balls: 5,
                balls: [0, 7, 8, 9, 10, 0],
                as_binary: 0x781,
            };
            proof {
                lemma_describes(info, piece);
            }
            info
        },
        (Face::B, Orientation::Up) => {
            let info = DisplayBoardPlacementInfo {
                width_right: 1,
                width_left: 0,
                height: 3,
                num_balls: 6,
                balls: [0, 1, 10, 20, 21, 30],
                as_binary: 0x40300403,
            };
            proof {
                lemma_describes(info, piece);
            }
            info
        },
        (Face::B, Orientation::Right) => {
            let info = DisplayBoardPlacementInfo {
                width_right: 3,
                width_left: 0,
                height: 1,
                num_balls: 6,
                balls: [0, 1, 2, 3, 11, 13],
                as_binary: 0x280f,
            };
            proof {
                lemma_describes(info, piece);
            }
            info
        },
        (Face::B, Orientation::Down) => {
            let info = DisplayBoardPlacementInfo {
                width_right: 0,
                width_left: 1,
                height: 3,
                num_balls: 6,
                balls: [0, 9, 10, 20, 29, 30],
                as_binary: 0x60100601,
            };
            proof {
                lemma_describes(info, piece);
            }
            info
        },
        (Face::B, Orientation::Left) => {
            let info = DisplayBoardPlacementInfo {
                width_right: 3,
                width_left: 0,
                height: 1,
                num_balls: 6,
                balls: [0, 2, 10, 11, 12, 13],
                as_binary: 0x3c05,
            };
            proof {
                lemma_describes(info, piece);
            }
            info
        },
    }
}

/// The placement data of the deep blue piece, for each face and orientation.
pub(super) fn deep_blue(face: Face, orientation: Orientation) -> (info: DisplayBoardPlacementInfo)
    ensures
        info.describes(Piece { orientation, face, color: Color::DeepBlue }),
{
    let ghost piece = Piece { orientation, face, color: Color::DeepBlue };
    proof {
        assert({
            &&& bits_of(0, 10, 11, 20, 0, 0) == 0x100c01
            &&& bits_of(0, 1, 2, 11, 0, 0) == 0x807
            &&& bits_of(0, 9, 10, 20, 0, 0) == 0x100601
            &&& bits_of(0, 9, 10, 11, 0, 0) == 0xe01
            &&& bits_of(0, 1, 10, 20, 21, 0) == 0x300403
            &&& bits_of(0, 1, 2, 10, 12, 0) == 0x1407
            &&& bits_of(0, 1, 11, 20, 21, 0) == 0x300803
            &&& bits_of(0, 2, 10, 11, 12, 0) == 0x1c05
        }) by (bit_vector);
        lemma_anchor(piece);
        reveal(has_ball);
    }
    match (face, orientation) {
        (Face::A, Orientation::Up) => {
            let info = DisplayBoardPlacementInfo {
                width_right: 1,
                width_left: 0,
                height: 2,
                num_balls: 4,
                balls: [0, 10, 11, 20, 0, 0],
                as_binary: 0x100c01,
            };
            proof {
                lemma_describes(info, piece);
            }
            info
        },
        (Face::A, Orientation::Right) => {
            let info = DisplayBoardPlacementInfo {
                width_right: 2,
                width_left: 0,
                height: 1,
                num_balls: 4,
                balls: [0, 1, 2, 11, 0, 0],
                as_binary: 0x807,
            };
            proof {
                lemma_describes(info, piece);
            }
            info
        },
        (Face::A, Orientation::Down) => {
            let info = DisplayBoardPlacementInfo {
                width_right: 0,
                width_left: 1,
                height: 2,
                num_balls: 4,
                balls: [0, 9, 10, 20, 0, 0],
                as_binary: 0x100601,
            };
            proof {
                lemma_describes(info, piece);
            }
            info
        },
        (Face::A, Orientation::Left) => {
            let info = DisplayBoardPlacementInfo {
                width_right: 1,
                width_left: 1,
                height: 1,
                num_balls: 4,
                balls: [0, 9, 10, 11, 0, 0],
                as_binary: 0xe01,
            };
            proof {
                lemma_describes(info, piece);
            }
            info
        },
        (Face::B, Orientation::Up) => {
            let info = DisplayBoardPlacementInfo {
                width_right: 1,
                width_left: 0,
                height: 2,
                num_balls: 5,
                balls: [0, 1, 10, 20, 21, 0],
                as_binary: 0x300403,
            };
            proof {
                lemma_describes(info, piece);
            }
            info
        },
        (Face::B, Orientation::Right) => {
            let info = DisplayBoardPlacementInfo {
                width_right: 2,
                width_left: 0,
                height: 1,
                num_balls: 5,
                balls: [0, 1, 2, 10, 12, 0],
                as_binary: 0x1407,
            };
            proof {
                lemma_describes(info, piece);
            }
            info
        },
        (Face::B, Orientation::Down) => {
            let info = DisplayBoardPlacementInfo {
                width_right: 1,
                width_left: 0,
                height: 2,
                num_balls: 5,
                balls: [0, 1, 11, 20, 21, 0],
                as_binary: 0x300803,
            };
            proof {
                lemma_describes(info, piece);
            }
            info
        },
        (Face::B, Orientation::Left) => {
            let info = DisplayBoardPlacementInfo {
                width_right: 2,
                width_left: 0,
                height: 1,
                num_balls: 5,
                balls: [0, 2, 10, 11, 12, 0],
                as_binary: 0x1c05,
            };
            proof {
                lemma_describes(info, piece);
            }
            info
        },
    }
}

/// The placement data of the purple piece, for each face and orientation.
pub(super) fn purple(face: Face, orientation: Orientation) -> (info: DisplayBoardPlacementInfo)
    ensures
        info.describes(Piece { orientation, face, color: Color::Purple }),
{
    let ghost piece = Piece { orientation, face, color: Color::Purple };
    proof {
        assert({
            &&& bits_of(0, 1, 10, 20, 0, 0) == 0x100403
            &&& bits_of(0, 1, 2, 12, 0, 0) == 0x1007
            &&& bits_of(0, 10, 19, 20, 0, 0) == 0x180401
            &&& bits_of(0, 10, 11, 12, 0, 0) == 0x1c01
            &&& bits_of(0, 1, 10, 11, 20, 0) == 0x100c03
            &&& bits_of(0, 1, 2, 11, 12, 0) == 0x1807
            &&& bits_of(0, 9, 10, 19, 20, 0) == 0x180601
            &&& bits_of(0, 1, 10, 11, 12, 0) == 0x1c03
        }) by (bit_vector);
        lemma_anchor(piece);
        reveal(has_ball);
    }
    match (face, orientation) {
        (Face::A, Orientation::Up) => {
            let info = DisplayBoardPlacementInfo {
                width_right: 1,
                width_left: 0,
                height: 2,
                num_balls: 4,
                balls: [0, 1, 10, 20, 0, 0],
                as_binary: 0x100403,
            };
            proof {
                lemma_describes(info, piece);
            }
            info
        },
        (Face::A, Orientation::Right) => {
            let info = DisplayBoardPlacementInfo {
                width_right: 2,
                width_left: 0,
                height: 1,
                num_balls: 4,
                balls: [0, 1, 2, 12, 0, 0],
                as_binary: 0x1007,
            };
            proof {
                lemma_describes(info, piece);
            }
            info
        },
        (Face::A, Orientation::Down) => {
            let info = DisplayBoardPlacementInfo {
                width_right: 0,
                width_left: 1,
                height: 2,
                num_balls: 4,
                balls: [0, 10, 19, 20, 0, 0],
                as_binary: 0x180401,
            };
            proof {
                lemma_describes(info, piece);
            }
            info
        },
        (Face::A, Orientation::Left) => {
            let info = DisplayBoardPlacementInfo {
                width_right: 2,
                width_left: 0,
                height: 1,
                num_balls: 4,
                balls: [0, 10, 11, 12, 0, 0],
                as_binary: 0x1c01,
            };
            proof {
                lemma_describes(info, piece);
            }
            info
        },
        (Face::B, Orientation::Up) => {
            let info = DisplayBoardPlacementInfo {
                width_right: 1,
                width_left: 0,
                height: 2,
                num_balls: 5,
                balls: [0, 1, 10, 11, 20, 0],
                as_binary: 0x100c03,
            };
            proof {
                lemma_describes(info, piece);
            }
            info
        },
        (Face::B, Orientation::Right) => {
            let info = DisplayBoardPlacementInfo {
                width_right: 2,
                width_left: 0,
                height: 1,
                num_balls: 5,
                balls: [0, 1, 2, 11, 12, 0],
                as_binary: 0x1807,
            };
            proof {
                lemma_describes(info, piece);
            }
            info
        },
        (Face::B, Orientation::Down) => {
            let info = DisplayBoardPlacementInfo {
                width_right: 0,
                width_left: 1,
                height: 2,
                num_balls: 5,
                balls: [0, 9, 10, 19, 20, 0],
                as_binary: 0x180601,
            };
            proof {
                lemma_describes(info, piece);
            }
            info
        },
        (Face::B, Orientation::Left) => {
            let info = DisplayBoardPlacementInfo {
                width_right: 2,
                width_left: 0,
                height: 1,
                num_balls: 5,
                balls: [0, 1, 10, 11, 12, 0],
                as_binary: 0x1c03,
            };
            proof {
                lemma_describes(info, piece);
            }
            info
        },
    }
}

} // verus!
