//! The pieces: ten colours, two faces, four orientations; and a piece on the board.
use vstd::prelude::*;

verus! {

/// Which physical piece.
#[derive(Debug, Copy, Clone, PartialEq, Eq, Structural, Hash)]
pub enum Color {
    Yellow,
    Orange,
    Red,
    Pink,
    LightGreen,
    Green,
    LightBlue,
    Blue,
    DeepBlue,
    Purple,
}

/// Which face of a piece lies up.
#[derive(Debug, Copy, Clone, PartialEq, Eq, Structural)]
pub enum Face {
    /// The face with fewer balls.
    A,
    /// The face with one ball more.
    B,
}

/// Which way the piece is facing.
/// Up has the main line vertical, and the extra ball(s) to the right.
/// The rest are successive quarter turns to the right.
#[derive(Debug, Copy, Clone, PartialEq, Eq, Structural)]
pub enum Orientation {
    Up,
    Right,
    Down,
    Left,
}

impl Color {
    /// The position of the colour in the fixed order of the ten colours.
    pub open spec fn index(self) -> int {
        match self {
            Color::Yellow => 0,
            Color::Orange => 1,
            Color::Red => 2,
            Color::Pink => 3,
            Color::LightGreen => 4,
            Color::Green => 5,
            Color::LightBlue => 6,
            Color::Blue => 7,
            Color::DeepBlue => 8,
            Color::Purple => 9,
        }
    }

    /// The colour at a position of the fixed order; positions past the last give the last colour.
    pub open spec fn at(i: int) -> Color {
        if i <= 0 {
            Color::Yellow
        } else if i == 1 {
            Color::Orange
        } else if i == 2 {
            Color::Red
        } else if i == 3 {
            Color::Pink
        } else if i == 4 {
            Color::LightGreen
        } else if i == 5 {
            Color::Green
        } else if i == 6 {
            Color::LightBlue
        } else if i == 7 {
            Color::Blue
        } else if i == 8 {
            Color::DeepBlue
        } else {
            Color::Purple
        }
    }

    /// The position of the colour in the fixed order.
    pub fn to_index(self) -> (i: u8)
        ensures
            i == self.index(),
            i < 10,
    {
        match self {
            Color::Yellow => 0,
            Color::Orange => 1,
            Color::Red => 2,
            Color::Pink => 3,
            Color::LightGreen => 4,
            Color::Green => 5,
            Color::LightBlue => 6,
            Color::Blue => 7,
            Color::DeepBlue => 8,
            Color::Purple => 9,
        }
    }

    /// The colour at a position of the fixed order.
    pub fn from_index(i: u8) -> (c: Color)
        requires
            i < 10,
        ensures
            c == Color::at(i as int),
            c.index() == i,
    {
        match i {
            0 => Color::Yellow,
            1 => Color::Orange,
            2 => Color::Red,
            3 => Color::Pink,
            4 => Color::LightGreen,
            5 => Color::Green,
            6 => Color::LightBlue,
            7 => Color::Blue,
            8 => Color::DeepBlue,
            _ => Color::Purple,
        }
    }
}

impl Face {
    /// Zero for face A, one for face B.
    pub open spec fn index(self) -> int {
        match self {
            Face::A => 0,
            Face::B => 1,
        }
    }

    /// Face A for zero, face B for one.
    pub open spec fn at(i: int) -> Face {
        if i <= 0 {
            Face::A
        } else {
            Face::B
        }
    }
}

impl Orientation {
    /// The number of quarter turns to the right that lead from `Up` to this orientation.
    pub open spec fn index(self) -> int {
        match self {
            Orientation::Up => 0,
            Orientation::Right => 1,
            Orientation::Down => 2,
            Orientation::Left => 3,
        }
    }

    /// The orientation that a number of quarter turns to the right leads to from `Up`.
    pub open spec fn at(i: int) -> Orientation {
        if i <= 0 {
            Orientation::Up
        } else if i == 1 {
            Orientation::Right
        } else if i == 2 {
            Orientation::Down
        } else {
            Orientation::Left
        }
    }

    /// The orientation one quarter turn further to the right.
    pub open spec fn turned(self) -> Orientation {
        match self {
            Orientation::Up => Orientation::Right,
            Orientation::Right => Orientation::Down,
            Orientation::Down => Orientation::Left,
            Orientation::Left => Orientation::Up,
        }
    }
}

/// One of the eighty variants: a colour, a face and an orientation.
#[derive(Debug, Copy, Clone, PartialEq, Eq, Structural)]
pub struct Piece {
    /// Which way the piece is turned.
    pub orientation: Orientation,
    /// Which face lies up.
    pub face: Face,
    /// Which of the ten pieces it is.
    pub color: Color,
}

impl Piece {
    /// The identifier of the variant: two bits of orientation, above them one bit of face,
    /// above that four bits of colour.
    pub open spec fn id(self) -> int {
        self.orientation.index() + 4 * self.face.index() + 8 * self.color.index()
    }

    /// The variant with the given identifier.
    pub open spec fn with_id(id: int) -> Piece {
        Piece {
            orientation: Orientation::at(id % 4),
            face: Face::at((id / 4) % 2),
            color: Color::at(id / 8),
        }
    }

    /// The same face of the same piece, one quarter turn further to the right.
    pub open spec fn turned(self) -> Piece {
        Piece { orientation: self.orientation.turned(), ..self }
    }

    /// The yellow piece, face A, upright: the variant whose identifier is zero.
    pub fn new() -> (p: Piece)
        ensures
            p == (Piece { orientation: Orientation::Up, face: Face::A, color: Color::Yellow }),
            p.id() == 0,
    {
        Piece { orientation: Orientation::Up, face: Face::A, color: Color::Yellow }
    }

    /// Which of the ten pieces it is.
    pub fn color(&self) -> (c: Color)
        ensures
            c == self.color,
    {
        self.color
    }

    /// Which face lies up.
    pub fn face(&self) -> (f: Face)
        ensures
            f == self.face,
    {
        self.face
    }

    /// Which way the piece is turned.
    pub fn orientation(&self) -> (o: Orientation)
        ensures
            o == self.orientation,
    {
        self.orientation
    }

    /// Makes it the piece of another colour.
    pub fn set_color(&mut self, color: Color)
        ensures
            *final(self) == (Piece { color, ..*old(self) }),
    {
        self.color = color;
    }

    /// Turns another face up.
    pub fn set_face(&mut self, face: Face)
        ensures
            *final(self) == (Piece { face, ..*old(self) }),
    {
        self.face = face;
    }

    /// Turns the piece another way.
    pub fn set_orientation(&mut self, orientation: Orientation)
        ensures
            *final(self) == (Piece { orientation, ..*old(self) }),
    {
        self.orientation = orientation;
    }

    /// The same face and orientation of another colour.
    pub fn with_color(self, color: Color) -> (p: Piece)
        ensures
            p == (Piece { color, ..self }),
    {
        Piece { color, ..self }
    }

    /// The same colour and orientation with another face up.
    pub fn with_face(self, face: Face) -> (p: Piece)
        ensures
            p == (Piece { face, ..self }),
    {
        Piece { face, ..self }
    }

    /// The same face of the same colour, turned another way.
    pub fn with_orientation(self, orientation: Orientation) -> (p: Piece)
        ensures
            p == (Piece { orientation, ..self }),
    {
        Piece { orientation, ..self }
    }

    /// The identifier as one byte, below 80.
    pub fn as_byte(&self) -> (b: u8)
        ensures
            b == self.id(),
            b < 80,
    {
        let o: u8 = match self.orientation {
            Orientation::Up => 0,
            Orientation::Right => 1,
            Orientation::Down => 2,
            Orientation::Left => 3,
        };
        let f: u8 = match self.face {
            Face::A => 0,
            Face::B => 4,
        };
        o + f + 8 * self.color.to_index()
    }

    /// The variant that a byte identifies, if it identifies one.
    pub fn from_byte(b: u8) -> (p: Option<Piece>)
        ensures
            p == (if b < 80 { Some(Piece::with_id(b as int)) } else { None }),
            p matches Some(q) ==> q.id() == b,
    {
        if b >= 80 {
            return None;
        }
        let orientation = match b % 4 {
            0 => Orientation::Up,
            1 => Orientation::Right,
            2 => Orientation::Down,
            _ => Orientation::Left,
        };
        let face = if (b / 4) % 2 == 0 { Face::A } else { Face::B };
        Some(Piece { orientation, face, color: Color::from_index(b / 8) })
    }
}

/// Packing a variant into its identifier loses nothing: the eighty variants and the
/// numbers below 80 correspond one to one.
pub proof fn lemma_piece_id_round_trip(p: Piece, id: int)
    ensures
        0 <= p.id() < 80,
        Piece::with_id(p.id()) == p,
        0 <= id < 80 ==> Piece::with_id(id).id() == id,
{
}

/// A piece resting on the board.
#[derive(Debug, Copy, Clone, PartialEq, Eq, Structural)]
pub struct PlacedPiece {
    /// Which piece, in which orientation.
    pub piece: Piece,
    /// The cell of the piece's first ball in reading order, from 0 to 49.
    pub top_left: u8,
}

impl PlacedPiece {
    /// The row of the anchor cell.
    pub open spec fn row(self) -> int {
        self.top_left as int / 10
    }

    /// The column of the anchor cell.
    pub open spec fn col(self) -> int {
        self.top_left as int % 10
    }

    /// Row and column of the anchor cell.
    pub fn top_left_coords(&self) -> (rc: (u8, u8))
        ensures
            rc.0 == self.row(),
            rc.1 == self.col(),
    {
        (self.top_left / 10, self.top_left % 10)
    }
}

} // verus!
