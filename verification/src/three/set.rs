//! Scoring-group model of the 11-tile family: melds (chow, pung or kong,
//! each revealed or concealed), the two-tile eye pair, the immutable
//! decomposed hand [`HandSet`], and the validating [`SetBuilder`] that is the
//! only way to obtain one.

use vstd::prelude::*;

use crate::three::tile::Tile;

verus! {

/// Tiles in a hand of this family.
pub const HAINUM: usize = 11;

/// Melds in a decomposed hand of this family.
pub const SETNUM: usize = 3;

/// Shape and provenance of a meld: chow, pung or kong, each either revealed
/// (claimed from another player) or concealed.
#[derive(Clone, Copy, PartialEq, Eq, Structural, Debug, Hash)]
pub enum MeldKind {
    RevealedChow,
    ConcealedChow,
    RevealedPung,
    ConcealedPung,
    RevealedKong,
    ConcealedKong,
}

impl MeldKind {
    /// Position in the declaration order; the tie-break key of the canonical
    /// meld order.
    pub open spec fn kind_index_spec(self) -> int {
        match self {
            MeldKind::RevealedChow => 0,
            MeldKind::ConcealedChow => 1,
            MeldKind::RevealedPung => 2,
            MeldKind::ConcealedPung => 3,
            MeldKind::RevealedKong => 4,
            MeldKind::ConcealedKong => 5,
        }
    }

    pub open spec fn is_chow_spec(self) -> bool {
        self == MeldKind::RevealedChow || self == MeldKind::ConcealedChow
    }

    pub open spec fn is_pung_spec(self) -> bool {
        !self.is_chow_spec()
    }

    pub open spec fn is_kong_spec(self) -> bool {
        self == MeldKind::RevealedKong || self == MeldKind::ConcealedKong
    }

    pub open spec fn is_revealed_spec(self) -> bool {
        self == MeldKind::RevealedChow || self == MeldKind::RevealedPung || self
            == MeldKind::RevealedKong
    }

    pub open spec fn is_concealed_spec(self) -> bool {
        !self.is_revealed_spec()
    }

    pub fn is_chow(&self) -> (r: bool)
        ensures
            r == self.is_chow_spec(),
    {
        match self {
            MeldKind::RevealedChow | MeldKind::ConcealedChow => true,
            _ => false,
        }
    }

    /// Kongs count as pungs: a pung predicate on the kind tags only
    /// distinguishes runs from repeats.
    pub fn is_pung(&self) -> (r: bool)
        ensures
            r == self.is_pung_spec(),
    {
        !self.is_chow()
    }

    pub fn is_kong(&self) -> (r: bool)
        ensures
            r == self.is_kong_spec(),
    {
        match self {
            MeldKind::RevealedKong | MeldKind::ConcealedKong => true,
            _ => false,
        }
    }

    pub fn is_revealed(&self) -> (r: bool)
        ensures
            r == self.is_revealed_spec(),
    {
        match self {
            MeldKind::RevealedChow | MeldKind::RevealedPung | MeldKind::RevealedKong => true,
            _ => false,
        }
    }

    pub fn is_concealed(&self) -> (r: bool)
        ensures
            r == self.is_concealed_spec(),
    {
        !self.is_revealed()
    }
}

/// A scoring group.  For a chow, `head` is the lowest of three consecutive
/// ranks in one suit; for a pung or kong, the repeated tile.
#[derive(Clone, Copy, PartialEq, Eq, Structural, Debug, Hash)]
pub struct Meld {
    pub head: Tile,
    pub kind: MeldKind,
}

/// Canonical order on melds: by head tile, then by kind.
pub open spec fn meld_le(a: Meld, b: Meld) -> bool {
    a.head.index_spec() < b.head.index_spec() || (a.head.index_spec() == b.head.index_spec()
        && a.kind.kind_index_spec() <= b.kind.kind_index_spec())
}

/// A well-formed chow head leaves room for the two ranks above it.
pub open spec fn meld_wf(m: Meld) -> bool {
    m.kind.is_chow_spec() ==> !m.head.is_honor_spec() && m.head.number_spec() <= 4
}

impl Meld {
    pub fn new(head: Tile, kind: MeldKind) -> (r: Self)
        ensures
            r == (Meld { head, kind }),
    {
        Self { head, kind }
    }

    pub fn kind(&self) -> (r: MeldKind)
        ensures
            r == self.kind,
    {
        self.kind
    }

    pub fn head(&self) -> (r: Tile)
        ensures
            r == self.head,
    {
        self.head
    }
}

/// The two-tile eye of a decomposed hand.
#[derive(Clone, Copy, PartialEq, Eq, Structural, Debug, Hash)]
pub struct Pair {
    pub head: Tile,
    pub concealed: bool,
}

impl Pair {
    pub fn new(head: Tile, concealed: bool) -> (r: Self)
        ensures
            r == (Pair { head, concealed }),
    {
        Self { head, concealed }
    }

    pub fn is_concealed(&self) -> (r: bool)
        ensures
            r == self.concealed,
    {
        self.concealed
    }

    pub fn head(&self) -> (r: Tile)
        ensures
            r == self.head,
    {
        self.head
    }
}

/// Why a builder step was refused.
#[derive(Clone, Copy, PartialEq, Eq, Structural, Debug)]
pub enum BuildError {
    /// `add_meld` on a builder that already holds every meld.
    MeldsFull,
    /// `build` before every meld was added.
    MeldsMissing,
    /// `build` before a pair was assigned.
    PairMissing,
}

/// Staged accumulator for a [`HandSet`]: assign the pair, add exactly
/// [`SETNUM`] melds, then `build`.
#[derive(Debug)]
pub struct SetBuilder {
    pub pair: Option<Pair>,
    pub melds: Vec<Meld>,
}

impl Clone for SetBuilder {
    fn clone(&self) -> (r: Self)
        ensures
            r.pair == self.pair,
            r.melds@ == self.melds@,
    {
        let melds = self.melds.clone();
        proof {
            assert(melds@ =~= self.melds@);
        }
        Self { pair: self.pair, melds }
    }
}

impl Clone for HandSet {
    fn clone(&self) -> (r: Self)
        ensures
            r.pair == self.pair,
            r.melds@ == self.melds@,
    {
        let melds = self.melds.clone();
        proof {
            assert(melds@ =~= self.melds@);
        }
        Self { pair: self.pair, melds }
    }
}

impl SetBuilder {
    pub fn new() -> (r: Self)
        ensures
            r.pair is None,
            r.melds@ == Seq::<Meld>::empty(),
    {
        let melds: Vec<Meld> = Vec::new();
        Self { pair: None, melds }
    }

    pub fn add_pair(self, p: Pair) -> (r: Self)
        ensures
            r.pair == Some(p),
            r.melds@ == self.melds@,
    {
        Self { pair: Some(p), ..self }
    }

    /// Adding a meld fails exactly when the builder already holds
    /// [`SETNUM`] of them.
    pub fn add_meld(self, m: Meld) -> (r: Result<Self, BuildError>)
        ensures
            self.melds@.len() < SETNUM ==> (r matches Ok(b) && b.pair == self.pair && b.melds@
                == self.melds@.push(m)),
            self.melds@.len() >= SETNUM ==> r == Err::<Self, BuildError>(BuildError::MeldsFull),
    {
        if self.melds.len() >= SETNUM {
            Err(BuildError::MeldsFull)
        } else {
            let mut melds = self.melds;
            melds.push(m);
            Ok(Self { pair: self.pair, melds })
        }
    }

    /// Building succeeds exactly when the pair is assigned and every meld is
    /// present; no partial [`HandSet`] ever escapes.
    pub fn build(self) -> (r: Result<HandSet, BuildError>)
        ensures
            self.melds@.len() != SETNUM ==> r == Err::<HandSet, BuildError>(BuildError::MeldsMissing),
            self.melds@.len() == SETNUM && self.pair is None ==> r == Err::<HandSet, BuildError>(
                BuildError::PairMissing,
            ),
            self.melds@.len() == SETNUM && self.pair is Some ==> (r matches Ok(s) && s.pair
                == self.pair.unwrap() && s.melds@ == self.melds@ && s.wf()),
    {
        if self.melds.len() != SETNUM {
            Err(BuildError::MeldsMissing)
        } else {
            match self.pair {
                None => Err(BuildError::PairMissing),
                Some(pair) => Ok(HandSet { pair, melds: self.melds }),
            }
        }
    }
}

/// A decomposed hand: the eye pair plus exactly [`SETNUM`] melds.
#[derive(Debug)]
pub struct HandSet {
    pub pair: Pair,
    pub melds: Vec<Meld>,
}

impl HandSet {
    /// The structural invariant every built [`HandSet`] satisfies.
    pub open spec fn wf(self) -> bool {
        self.melds@.len() == SETNUM
    }

    pub fn pair(&self) -> (r: Pair)
        ensures
            r == self.pair,
    {
        self.pair
    }

    pub fn melds(&self) -> (r: &Vec<Meld>)
        ensures
            r@ == self.melds@,
    {
        &self.melds
    }
}

} // verus!
