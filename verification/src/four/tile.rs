//! Tile model of the 14-tile family: a closed, densely numbered enumeration
//! of 34 tile kinds (3 dragons and 4 winds, then three suits of 9 ranks
//! each), with the suit/rank predicates the engines build on and the
//! single-byte persistence code `b'A' + index`.

use vstd::prelude::*;

verus! {

/// Number of distinct tile kinds in this family.
pub const TILEVARIANT: usize = 34;

/// A tile is either an honor or belongs to one of three suits.
#[derive(Clone, Copy, PartialEq, Eq, Structural, Debug, Hash)]
pub enum TileColor {
    Honor,
    Bamboo,
    Character,
    Dot,
}

/// The 34 tile kinds, in declaration order: three dragons, four winds, then
/// the Bamboo, Character and Dot suits with ranks 1 to 9.
#[derive(Clone, Copy, PartialEq, Eq, Structural, Debug, Hash)]
pub enum Tile {
    Red,
    Green,
    White,
    East,
    South,
    West,
    North,
    B1,
    B2,
    B3,
    B4,
    B5,
    B6,
    B7,
    B8,
    B9,
    C1,
    C2,
    C3,
    C4,
    C5,
    C6,
    C7,
    C8,
    C9,
    D1,
    D2,
    D3,
    D4,
    D5,
    D6,
    D7,
    D8,
    D9,
}

impl Tile {
    /// Position in the declaration order; the total order on tiles, and the
    /// persistence code minus `b'A'`.
    pub open spec fn index_spec(self) -> int {
        match self {
            Tile::Red => 0,
            Tile::Green => 1,
            Tile::White => 2,
            Tile::East => 3,
            Tile::South => 4,
            Tile::West => 5,
            Tile::North => 6,
            Tile::B1 => 7,
            Tile::B2 => 8,
            Tile::B3 => 9,
            Tile::B4 => 10,
            Tile::B5 => 11,
            Tile::B6 => 12,
            Tile::B7 => 13,
            Tile::B8 => 14,
            Tile::B9 => 15,
            Tile::C1 => 16,
            Tile::C2 => 17,
            Tile::C3 => 18,
            Tile::C4 => 19,
            Tile::C5 => 20,
            Tile::C6 => 21,
            Tile::C7 => 22,
            Tile::C8 => 23,
            Tile::C9 => 24,
            Tile::D1 => 25,
            Tile::D2 => 26,
            Tile::D3 => 27,
            Tile::D4 => 28,
            Tile::D5 => 29,
            Tile::D6 => 30,
            Tile::D7 => 31,
            Tile::D8 => 32,
            Tile::D9 => 33,
        }
    }

    pub open spec fn color_spec(self) -> TileColor {
        if self.index_spec() < 7 {
            TileColor::Honor
        } else if self.index_spec() < 16 {
            TileColor::Bamboo
        } else if self.index_spec() < 25 {
            TileColor::Character
        } else {
            TileColor::Dot
        }
    }

    /// Rank within the suit, 1-based; honors are numbered by declaration order.
    pub open spec fn number_spec(self) -> int {
        if self.index_spec() < 7 {
            self.index_spec() + 1
        } else {
            (self.index_spec() - 7) % 9 + 1
        }
    }

    pub open spec fn is_honor_spec(self) -> bool {
        self.index_spec() < 7
    }

    pub open spec fn is_dragon_spec(self) -> bool {
        self.index_spec() < 3
    }

    pub open spec fn is_wind_spec(self) -> bool {
        3 <= self.index_spec() < 7
    }

    pub open spec fn is_terminal_spec(self) -> bool {
        !self.is_honor_spec() && (self.number_spec() == 1 || self.number_spec() == 9)
    }

    pub open spec fn is_simple_spec(self) -> bool {
        !(self.is_honor_spec() || self.is_terminal_spec())
    }

    pub open spec fn is_same_color_spec(self, t: Tile) -> bool {
        self.color_spec() == t.color_spec()
    }

    /// `t` is the next rank up in the same suit; never true of an honor or a
    /// top rank, so a run never wraps past the last rank of a suit.
    pub open spec fn is_ascending_spec(self, t: Tile) -> bool {
        !self.is_honor_spec() && self.number_spec() != 9 && t.index_spec() == self.index_spec() + 1
    }

    pub open spec fn is_descending_spec(self, t: Tile) -> bool {
        !self.is_honor_spec() && self.number_spec() != 1 && t.index_spec() == self.index_spec() - 1
    }

    pub open spec fn is_neighbor_spec(self, t: Tile) -> bool {
        self.is_ascending_spec(t) || self.is_descending_spec(t)
    }

    /// Position in the declaration order, as a machine integer.
    pub fn to_index(&self) -> (r: usize)
        ensures
            r == self.index_spec(),
    {
        match self {
            Tile::Red => 0,
            Tile::Green => 1,
            Tile::White => 2,
            Tile::East => 3,
            Tile::South => 4,
            Tile::West => 5,
            Tile::North => 6,
            Tile::B1 => 7,
            Tile::B2 => 8,
            Tile::B3 => 9,
            Tile::B4 => 10,
            Tile::B5 => 11,
            Tile::B6 => 12,
            Tile::B7 => 13,
            Tile::B8 => 14,
            Tile::B9 => 15,
            Tile::C1 => 16,
            Tile::C2 => 17,
            Tile::C3 => 18,
            Tile::C4 => 19,
            Tile::C5 => 20,
            Tile::C6 => 21,
            Tile::C7 => 22,
            Tile::C8 => 23,
            Tile::C9 => 24,
            Tile::D1 => 25,
            Tile::D2 => 26,
            Tile::D3 => 27,
            Tile::D4 => 28,
            Tile::D5 => 29,
            Tile::D6 => 30,
            Tile::D7 => 31,
            Tile::D8 => 32,
            Tile::D9 => 33,
        }
    }

    pub fn is_same_color(&self, t: Tile) -> (r: bool)
        ensures
            r == self.is_same_color_spec(t),
    {
        self.color() == t.color()
    }

    pub fn color(&self) -> (r: TileColor)
        ensures
            r == self.color_spec(),
    {
        let i = self.to_index();
        if i < 7 {
            TileColor::Honor
        } else if i < 16 {
            TileColor::Bamboo
        } else if i < 25 {
            TileColor::Character
        } else {
            TileColor::Dot
        }
    }

    pub fn number(&self) -> (r: usize)
        ensures
            r == self.number_spec(),
    {
        let i = self.to_index();
        if i < 7 {
            i + 1
        } else {
            (i - 7) % 9 + 1
        }
    }

    pub fn is_neighbor(&self, t: Tile) -> (r: bool)
        ensures
            r == self.is_neighbor_spec(t),
    {
        self.is_ascending(t) || self.is_descending(t)
    }

    pub fn is_ascending(&self, t: Tile) -> (r: bool)
        ensures
            r == self.is_ascending_spec(t),
    {
        if self.is_honor() || self.number() == 9 {
            false
        } else {
            t.to_index() == self.to_index() + 1
        }
    }

    pub fn is_descending(&self, t: Tile) -> (r: bool)
        ensures
            r == self.is_descending_spec(t),
    {
        if self.is_honor() || self.number() == 1 {
            false
        } else {
            t.to_index() + 1 == self.to_index()
        }
    }

    pub fn is_simple(&self) -> (r: bool)
        ensures
            r == self.is_simple_spec(),
    {
        !(self.is_honor() || self.is_terminal())
    }

    pub fn is_terminal(&self) -> (r: bool)
        ensures
            r == self.is_terminal_spec(),
    {
        if self.is_honor() {
            false
        } else {
            let n = self.number();
            n == 1 || n == 9
        }
    }

    pub fn is_honor(&self) -> (r: bool)
        ensures
            r == self.is_honor_spec(),
    {
        self.is_wind() || self.is_dragon()
    }

    pub fn is_wind(&self) -> (r: bool)
        ensures
            r == self.is_wind_spec(),
    {
        let i = self.to_index();
        3 <= i && i < 7
    }

    pub fn is_dragon(&self) -> (r: bool)
        ensures
            r == self.is_dragon_spec(),
    {
        self.to_index() < 3
    }
}

/// The tile whose declaration-order position is `i`.
pub open spec fn tile_of_index_spec(i: int) -> Tile {
    if i == 0 {
        Tile::Red
    } else 
if i == 1 {
        Tile::Green
    } else 
if i == 2 {
        Tile::White
    } else 
if i == 3 {
        Tile::East
    } else 
if i == 4 {
        Tile::South
    } else 
if i == 5 {
        Tile::West
    } else 
if i == 6 {
        Tile::North
    } else 
if i == 7 {
        Tile::B1
    } else 
if i == 8 {
        Tile::B2
    } else 
if i == 9 {
        Tile::B3
    } else 
if i == 10 {
        Tile::B4
    } else 
if i == 11 {
        Tile::B5
    } else 
if i == 12 {
        Tile::B6
    } else 
if i == 13 {
        Tile::B7
    } else 
if i == 14 {
        Tile::B8
    } else 
if i == 15 {
        Tile::B9
    } else 
if i == 16 {
        Tile::C1
    } else 
if i == 17 {
        Tile::C2
    } else 
if i == 18 {
        Tile::C3
    } else 
if i == 19 {
        Tile::C4
    } else 
if i == 20 {
        Tile::C5
    } else 
if i == 21 {
        Tile::C6
    } else 
if i == 22 {
        Tile::C7
    } else 
if i == 23 {
        Tile::C8
    } else 
if i == 24 {
        Tile::C9
    } else 
if i == 25 {
        Tile::D1
    } else 
if i == 26 {
        Tile::D2
    } else 
if i == 27 {
        Tile::D3
    } else 
if i == 28 {
        Tile::D4
    } else 
if i == 29 {
        Tile::D5
    } else 
if i == 30 {
        Tile::D6
    } else 
if i == 31 {
        Tile::D7
    } else 
if i == 32 {
        Tile::D8
    } else {
        Tile::D9
    }
}

/// What a persisted byte decodes to: the tile at position `b - b'A'`, or
/// nothing when the byte lies outside the tile alphabet.
pub open spec fn tile_from_byte_spec(b: u8) -> Option<Tile> {
    if 65 <= b && b < 65 + 34 {
        Some(tile_of_index_spec(b - 65))
    } else {
        None
    }
}

impl Tile {
    /// Decodes one byte of the persistence format.  A byte outside the
    /// alphabet `b'A' ..= b'A' + 33` is a decode failure.
    pub fn from_byte(b: u8) -> (r: Option<Tile>)
        ensures
            r == tile_from_byte_spec(b),
    {
        if 65 <= b && b < 99 {
            Some(Self::from_index((b - 65) as usize))
        } else {
            None
        }
    }

    /// The tile at a declaration-order position.
    pub fn from_index(i: usize) -> (r: Tile)
        requires
            i < TILEVARIANT,
        ensures
            r == tile_of_index_spec(i as int),
    {
                if i == 0 {
            Tile::Red
        } else 
if i == 1 {
            Tile::Green
        } else 
if i == 2 {
            Tile::White
        } else 
if i == 3 {
            Tile::East
        } else 
if i == 4 {
            Tile::South
        } else 
if i == 5 {
            Tile::West
        } else 
if i == 6 {
            Tile::North
        } else 
if i == 7 {
            Tile::B1
        } else 
if i == 8 {
            Tile::B2
        } else 
if i == 9 {
            Tile::B3
        } else 
if i == 10 {
            Tile::B4
        } else 
if i == 11 {
            Tile::B5
        } else 
if i == 12 {
            Tile::B6
        } else 
if i == 13 {
            Tile::B7
        } else 
if i == 14 {
            Tile::B8
        } else 
if i == 15 {
            Tile::B9
        } else 
if i == 16 {
            Tile::C1
        } else 
if i == 17 {
            Tile::C2
        } else 
if i == 18 {
            Tile::C3
        } else 
if i == 19 {
            Tile::C4
        } else 
if i == 20 {
            Tile::C5
        } else 
if i == 21 {
            Tile::C6
        } else 
if i == 22 {
            Tile::C7
        } else 
if i == 23 {
            Tile::C8
        } else 
if i == 24 {
            Tile::C9
        } else 
if i == 25 {
            Tile::D1
        } else 
if i == 26 {
            Tile::D2
        } else 
if i == 27 {
            Tile::D3
        } else 
if i == 28 {
            Tile::D4
        } else 
if i == 29 {
            Tile::D5
        } else 
if i == 30 {
            Tile::D6
        } else 
if i == 31 {
            Tile::D7
        } else 
if i == 32 {
            Tile::D8
        } else {
            Tile::D9
        }
    }

    /// The persistence code of this tile.
    pub fn to_char(&self) -> (r: char)
        ensures
            r as int == self.index_spec() + 65,
    {
        (self.to_index() as u8 + 65) as char
    }
}

/// Every tile sits at a position inside the declaration order.
pub proof fn lemma_tile_index_range(t: Tile)
    ensures
        0 <= t.index_spec() < 34,
{
}

/// `tile_of_index_spec` inverts `index_spec`, so the position determines the
/// tile.
pub proof fn lemma_tile_of_index_inverse(t: Tile)
    ensures
        tile_of_index_spec(t.index_spec()) == t,
{
}

pub proof fn lemma_tile_index_injective(a: Tile, b: Tile)
    requires
        a.index_spec() == b.index_spec(),
    ensures
        a == b,
{
    lemma_tile_of_index_inverse(a);
    lemma_tile_of_index_inverse(b);
}

} // verus!
