//! Tile model of the 11-tile family: a closed, densely numbered enumeration
//! of 23 tile kinds (5 honors, then three suits of 6 ranks each), with the
//! suit/rank predicates the engines build on and the single-byte persistence
//! code `b'A' + index`.

use vstd::prelude::*;

verus! {

/// Number of distinct tile kinds in this family.
pub const TILEVARIANT: usize = 23;

/// A tile is either an honor or belongs to one of three suits.
#[derive(Clone, Copy, PartialEq, Eq, Structural, Debug, Hash)]
pub enum TileColor {
    Honor,
    Bamboo,
    Character,
    Dot,
}

/// The 23 tile kinds, in declaration order: two dragons, three winds,
/// then the Bamboo, Character and Dot suits with ranks 1 to 6.
#[derive(Clone, Copy, PartialEq, Eq, Structural, Debug, Hash)]
pub enum Tile {
    Sun,
    Moon,
    Red,
    Green,
    White,
    B1,
    B2,
    B3,
    B4,
    B5,
    B6,
    C1,
    C2,
    C3,
    C4,
    C5,
    C6,
    D1,
    D2,
    D3,
    D4,
    D5,
    D6,
}

impl Tile {
    /// Position in the declaration order; the total order on tiles, and the
    /// persistence code minus `b'A'`.
    pub open spec fn index_spec(self) -> int {
        match self {
            Tile::Sun => 0,
            Tile::Moon => 1,
            Tile::Red => 2,
            Tile::Green => 3,
            Tile::White => 4,
            Tile::B1 => 5,
            Tile::B2 => 6,
            Tile::B3 => 7,
            Tile::B4 => 8,
            Tile::B5 => 9,
            Tile::B6 => 10,
            Tile::C1 => 11,
            Tile::C2 => 12,
            Tile::C3 => 13,
            Tile::C4 => 14,
            Tile::C5 => 15,
            Tile::C6 => 16,
            Tile::D1 => 17,
            Tile::D2 => 18,
            Tile::D3 => 19,
            Tile::D4 => 20,
            Tile::D5 => 21,
            Tile::D6 => 22,
        }
    }

    pub open spec fn color_spec(self) -> TileColor {
        if self.index_spec() < 5 {
            TileColor::Honor
        } else if self.index_spec() < 11 {
            TileColor::Bamboo
        } else if self.index_spec() < 17 {
            TileColor::Character
        } else {
            TileColor::Dot
        }
    }

    /// Rank within the suit, 1-based; honors are numbered by declaration order.
    pub open spec fn number_spec(self) -> int {
        if self.index_spec() < 5 {
            self.index_spec() + 1
        } else {
            (self.index_spec() - 5) % 6 + 1
        }
    }

    pub open spec fn is_honor_spec(self) -> bool {
        self.index_spec() < 5
    }

    pub open spec fn is_dragon_spec(self) -> bool {
        self.index_spec() < 2
    }

    pub open spec fn is_wind_spec(self) -> bool {
        2 <= self.index_spec() < 5
    }

    pub open spec fn is_terminal_spec(self) -> bool {
        !self.is_honor_spec() && (self.number_spec() == 1 || self.number_spec() == 6)
    }

    pub open spec fn is_simple_spec(self) -> bool {
        !(self.is_honor_spec() || self.is_terminal_spec())
    }

    pub open spec fn is_same_color_spec(self, t: Tile) -> bool {
        self.color_spec() == t.color_spec()
    }

    /// `t` is the next rank up in the same suit; never true of an honor or a
    /// top rank, so a run never wraps past the last rank of a suit.
    pub open spec fn is_ascending_spec(self, t: Tile) -> bool {
        !self.is_honor_spec() && self.number_spec() != 6 && t.index_spec() == self.index_spec() + 1
    }

    pub open spec fn is_descending_spec(self, t: Tile) -> bool {
        !self.is_honor_spec() && self.number_spec() != 1 && t.index_spec() == self.index_spec() - 1
    }

    pub open spec fn is_neighbor_spec(self, t: Tile) -> bool {
        self.is_ascending_spec(t) || self.is_descending_spec(t)
    }

    /// Position in the declaration order, as a machine integer.
    pub fn to_index(&self) -> (r: usize)
        ensures
            r == self.index_spec(),
    {
        match self {
            Tile::Sun => 0,
            Tile::Moon => 1,
            Tile::Red => 2,
            Tile::Green => 3,
            Tile::White => 4,
            Tile::B1 => 5,
            Tile::B2 => 6,
            Tile::B3 => 7,
            Tile::B4 => 8,
            Tile::B5 => 9,
            Tile::B6 => 10,
            Tile::C1 => 11,
            Tile::C2 => 12,
            Tile::C3 => 13,
            Tile::C4 => 14,
            Tile::C5 => 15,
            Tile::C6 => 16,
            Tile::D1 => 17,
            Tile::D2 => 18,
            Tile::D3 => 19,
            Tile::D4 => 20,
            Tile::D5 => 21,
            Tile::D6 => 22,
        }
    }

    pub fn is_same_color(&self, t: Tile) -> (r: bool)
        ensures
            r == self.is_same_color_spec(t),
    {
        self.color() == t.color()
    }

    pub fn color(&self) -> (r: TileColor)
        ensures
            r == self.color_spec(),
    {
        let i = self.to_index();
        if i < 5 {
            TileColor::Honor
        } else if i < 11 {
            TileColor::Bamboo
        } else if i < 17 {
            TileColor::Character
        } else {
            TileColor::Dot
        }
    }

    pub fn number(&self) -> (r: usize)
        ensures
            r == self.number_spec(),
    {
        let i = self.to_index();
        if i < 5 {
            i + 1
        } else {
            (i - 5) % 6 + 1
        }
    }

    pub fn is_neighbor(&self, t: Tile) -> (r: bool)
        ensures
            r == self.is_neighbor_spec(t),
    {
        self.is_ascending(t) || self.is_descending(t)
    }

    pub fn is_ascending(&self, t: Tile) -> (r: bool)
        ensures
            r == self.is_ascending_spec(t),
    {
        if self.is_honor() || self.number() == 6 {
            false
        } else {
            t.to_index() == self.to_index() + 1
        }
    }

    pub fn is_descending(&self, t: Tile) -> (r: bool)
        ensures
            r == self.is_descending_spec(t),
    {
        if self.is_honor() || self.number() == 1 {
            false
        } else {
            t.to_index() + 1 == self.to_index()
        }
    }

    pub fn is_simple(&self) -> (r: bool)
        ensures
            r == self.is_simple_spec(),
    {
        !(self.is_honor() || self.is_terminal())
    }

    pub fn is_terminal(&self) -> (r: bool)
        ensures
            r == self.is_terminal_spec(),
    {
        if self.is_honor() {
            false
        } else {
            let n = self.number();
            n == 1 || n == 6
        }
    }

    pub fn is_honor(&self) -> (r: bool)
        ensures
            r == self.is_honor_spec(),
    {
        self.is_wind() || self.is_dragon()
    }

    pub fn is_wind(&self) -> (r: bool)
        ensures
            r == self.is_wind_spec(),
    {
        let i = self.to_index();
        2 <= i && i < 5
    }

    pub fn is_dragon(&self) -> (r: bool)
        ensures
            r == self.is_dragon_spec(),
    {
        self.to_index() < 2
    }
}

/// The tile whose declaration-order position is `i`.
pub open spec fn tile_of_index_spec(i: int) -> Tile {
    if i == 0 {
        Tile::Sun
    } else if i == 1 {
        Tile::Moon
    } else if i == 2 {
        Tile::Red
    } else if i == 3 {
        Tile::Green
    } else if i == 4 {
        Tile::White
    } else if i == 5 {
        Tile::B1
    } else if i == 6 {
        Tile::B2
    } else if i == 7 {
        Tile::B3
    } else if i == 8 {
        Tile::B4
    } else if i == 9 {
        Tile::B5
    } else if i == 10 {
        Tile::B6
    } else if i == 11 {
        Tile::C1
    } else if i == 12 {
        Tile::C2
    } else if i == 13 {
        Tile::C3
    } else if i == 14 {
        Tile::C4
    } else if i == 15 {
        Tile::C5
    } else if i == 16 {
        Tile::C6
    } else if i == 17 {
        Tile::D1
    } else if i == 18 {
        Tile::D2
    } else if i == 19 {
        Tile::D3
    } else if i == 20 {
        Tile::D4
    } else if i == 21 {
        Tile::D5
    } else {
        Tile::D6
    }
}

/// What a persisted byte decodes to: the tile at position `b - b'A'`, or
/// nothing when the byte lies outside the tile alphabet.
pub open spec fn tile_from_byte_spec(b: u8) -> Option<Tile> {
    if 65 <= b && b < 65 + 23 {
        Some(tile_of_index_spec(b - 65))
    } else {
        None
    }
}

impl Tile {
    /// Decodes one byte of the persistence format.  A byte outside the
    /// alphabet `b'A' ..= b'A' + 22` is a decode failure.
    pub fn from_byte(b: u8) -> (r: Option<Tile>)
        ensures
            r == tile_from_byte_spec(b),
    {
        if 65 <= b && b < 88 {
            Some(Self::from_index((b - 65) as usize))
        } else {
            None
        }
    }

    /// The tile at a declaration-order position.
    pub fn from_index(i: usize) -> (r: Tile)
        requires
            i < TILEVARIANT,
        ensures
            r == tile_of_index_spec(i as int),
    {
        if i == 0 {
            Tile::Sun
        } else if i == 1 {
            Tile::Moon
        } else if i == 2 {
            Tile::Red
        } else if i == 3 {
            Tile::Green
        } else if i == 4 {
            Tile::White
        } else if i == 5 {
            Tile::B1
        } else if i == 6 {
            Tile::B2
        } else if i == 7 {
            Tile::B3
        } else if i == 8 {
            Tile::B4
        } else if i == 9 {
            Tile::B5
        } else if i == 10 {
            Tile::B6
        } else if i == 11 {
            Tile::C1
        } else if i == 12 {
            Tile::C2
        } else if i == 13 {
            Tile::C3
        } else if i == 14 {
            Tile::C4
        } else if i == 15 {
            Tile::C5
        } else if i == 16 {
            Tile::C6
        } else if i == 17 {
            Tile::D1
        } else if i == 18 {
            Tile::D2
        } else if i == 19 {
            Tile::D3
        } else if i == 20 {
            Tile::D4
        } else if i == 21 {
            Tile::D5
        } else {
            Tile::D6
        }
    }

    /// The persistence code of this tile.
    pub fn to_char(&self) -> (r: char)
        ensures
            r as int == self.index_spec() + 65,
    {
        (self.to_index() as u8 + 65) as char
    }
}

/// Every tile sits at a position inside the declaration order.
pub proof fn lemma_tile_index_range(t: Tile)
    ensures
        0 <= t.index_spec() < 23,
{
}

/// `tile_of_index_spec` inverts `index_spec`, so the position determines the
/// tile.
pub proof fn lemma_tile_of_index_inverse(t: Tile)
    ensures
        tile_of_index_spec(t.index_spec()) == t,
{
}

pub proof fn lemma_tile_index_injective(a: Tile, b: Tile)
    requires
        a.index_spec() == b.index_spec(),
    ensures
        a == b,
{
    lemma_tile_of_index_inverse(a);
    lemma_tile_of_index_inverse(b);
}

} // verus!
