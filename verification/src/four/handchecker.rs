//! Classification engine of the 14-tile family: [`HandList`], the
//! fixed-width bitset over the category catalogue with its capped score, and
//! [`HandChecker`], the decomposed hand plus its ambient seat wind, whose
//! `hands` method runs the ordered rule pipeline.

use vstd::prelude::*;
use vstd::multiset::Multiset;
use vstd::pervasive::VecAdditionalExecFns;

use crate::four::hand::{Hand, HANDMAXSCORE, HANDVARIANT, weight_of_index_spec};
use crate::four::set::{HandSet, Meld, MeldKind, Pair, SETNUM, meld_le};
use crate::four::tile::{Tile, TileColor};

verus! {

/// The all-clear bitset: no category holds.
pub open spec fn handlist_empty_spec() -> Seq<bool> {
    Seq::new(HANDVARIANT as nat, |i: int| false)
}

/// Sum of the weights of the categories set among the first `n` bits.
pub open spec fn sum_weights(l: Seq<bool>, n: int) -> int
    decreases n,
{
    if n <= 0 {
        0
    } else {
        sum_weights(l, n - 1) + if l[n - 1] {
            weight_of_index_spec(n - 1)
        } else {
            0
        }
    }
}

/// The score of a bitset: the weights of its set bits summed, clamped to
/// [`HANDMAXSCORE`].
pub open spec fn handlist_score_spec(l: Seq<bool>) -> int {
    if sum_weights(l, HANDVARIANT as int) > HANDMAXSCORE {
        HANDMAXSCORE as int
    } else {
        sum_weights(l, HANDVARIANT as int)
    }
}

/// Partial weight sums stay within `HANDMAXSCORE` per bit.
pub proof fn lemma_sum_weights_bound(l: Seq<bool>, n: int)
    requires
        0 <= n,
    ensures
        0 <= sum_weights(l, n),
        sum_weights(l, n) <= HANDMAXSCORE * n,
    decreases n,
{
    if n > 0 {
        lemma_sum_weights_bound(l, n - 1);
        crate::four::hand::lemma_weight_bounded(n - 1);
    }
}

/// One bit per scoring category: the record of which categories a decomposed
/// hand satisfies.
#[derive(Clone, PartialEq, Eq, Hash, Debug)]
pub struct HandList(pub Vec<bool>);

impl View for HandList {
    type V = Seq<bool>;

    open spec fn view(&self) -> Seq<bool> {
        self.0@
    }
}

impl HandList {
    /// The structural invariant: exactly one bit per category.
    pub open spec fn wf(self) -> bool {
        self.0@.len() == HANDVARIANT
    }

    /// The all-clear bitset.
    pub fn new() -> (r: HandList)
        ensures
            r.wf(),
            r@ == handlist_empty_spec(),
    {
        let v: Vec<bool> = vec![false; HANDVARIANT];
        let r = HandList(v);
        proof {
            assert(r@ =~= handlist_empty_spec());
        }
        r
    }

    /// Whether the bit of the category at position `i` is set.
    pub fn get(&self, i: usize) -> (r: bool)
        requires
            self.wf(),
            i < HANDVARIANT,
        ensures
            r == self@[i as int],
    {
        self.0[i]
    }

    /// Sets or clears the bit of the category at position `i`.
    pub fn set(&mut self, i: usize, b: bool) -> (r: ())
        requires
            old(self).wf(),
            i < HANDVARIANT,
        ensures
            final(self).wf(),
            final(self)@ == old(self)@.update(i as int, b),
    {
        self.0.set(i, b);
    }

    /// Whether any category holds.
    pub fn any(&self) -> (r: bool)
        requires
            self.wf(),
        ensures
            r == exists|i: int| 0 <= i < HANDVARIANT && self@[i],
    {
        let mut i: usize = 0;
        while i < HANDVARIANT
            invariant
                self.wf(),
                i <= HANDVARIANT,
                forall|j: int| 0 <= j < i ==> !self@[j],
            decreases HANDVARIANT - i,
        {
            if self.0[i] {
                proof {
                    assert(0 <= i < HANDVARIANT && self@[i as int]);
                }
                return true;
            }
            i = i + 1;
        }
        false
    }

    /// The capped score: each set bit contributes its category's fixed
    /// weight, and the sum is clamped to [`HANDMAXSCORE`].
    pub fn score(&self) -> (r: u16)
        requires
            self.wf(),
        ensures
            r == handlist_score_spec(self@),
            r <= HANDMAXSCORE,
    {
        let mut s: u16 = 0;
        let mut i: usize = 0;
        while i < HANDVARIANT
            invariant
                self.wf(),
                i <= HANDVARIANT,
                s == sum_weights(self@, i as int),
                s <= HANDMAXSCORE * i,
            decreases HANDVARIANT - i,
        {
            if self.0[i] {
                let h = Hand::from_index(i).unwrap();
                proof {
                    crate::four::hand::lemma_weight_bounded(i as int);
                }
                s = s + h.score();
            }
            i = i + 1;
        }
        if s > HANDMAXSCORE {
            HANDMAXSCORE
        } else {
            s
        }
    }
}

} // verus!

verus! {

// ------------------------------------------------------------------
// The decomposed hand under classification
// ------------------------------------------------------------------

/// A decomposed hand together with the ambient seat wind that wind-pung
/// scoring reads; the input of the rule pipeline.
#[derive(Debug)]
pub struct HandChecker {
    pub pair: Pair,
    pub melds: Vec<Meld>,
    pub wind: Tile,
}

impl Clone for HandChecker {
    fn clone(&self) -> (r: Self)
        ensures
            r.pair == self.pair,
            r.melds@ == self.melds@,
            r.wind == self.wind,
    {
        let melds = self.melds.clone();
        proof {
            assert(melds@ =~= self.melds@);
        }
        Self { pair: self.pair, melds, wind: self.wind }
    }
}

impl HandSet {
    /// Attaches the ambient seat wind, making the hand classifiable.
    pub fn to_handchecker(&self, wind: Tile) -> (r: HandChecker)
        ensures
            r.pair == self.pair,
            r.melds@ == self.melds@,
            r.wind == wind,
    {
        let melds = self.melds.clone();
        proof {
            assert(melds@ =~= self.melds@);
        }
        HandChecker { pair: self.pair, melds, wind }
    }
}

impl PartialEq for HandChecker {
    fn eq(&self, o: &HandChecker) -> (r: bool) {
        if !(self.pair == o.pair && self.wind == o.wind && self.melds.len() == o.melds.len()) {
            false
        } else {
            let mut i: usize = 0;
            let mut same = true;
            while i < self.melds.len()
                invariant
                    i <= self.melds@.len(),
                    self.melds@.len() == o.melds@.len(),
                    same == (forall|j: int| 0 <= j < i ==> self.melds@[j] == o.melds@[j]),
                decreases self.melds@.len() - i,
            {
                if !(self.melds[i] == o.melds[i]) {
                    same = false;
                }
                i = i + 1;
            }
            proof {
                if same {
                    assert(self.melds@ =~= o.melds@);
                }
            }
            same
        }
    }
}

impl vstd::std_specs::cmp::PartialEqSpecImpl for HandChecker {
    open spec fn obeys_eq_spec() -> bool {
        true
    }

    open spec fn eq_spec(&self, o: &HandChecker) -> bool {
        self.pair == o.pair && self.wind == o.wind && self.melds@ == o.melds@
    }
}

impl HandChecker {
    /// The structural invariant: exactly [`SETNUM`] melds.
    pub open spec fn wf(self) -> bool {
        self.melds@.len() == SETNUM
    }

    pub fn pair(&self) -> (r: Pair)
        ensures
            r == self.pair,
    {
        self.pair
    }

    pub fn melds(&self) -> (r: &Vec<Meld>)
        ensures
            r@ == self.melds@,
    {
        &self.melds
    }

    pub fn wind(&self) -> (r: Tile)
        ensures
            r == self.wind,
    {
        self.wind
    }
}


// ------------------------------------------------------------------
// Canonical meld order
// ------------------------------------------------------------------

/// Whether a meld sequence is in the canonical order.
pub open spec fn melds_sorted(s: Seq<Meld>) -> bool {
    forall|i: int, j: int| 0 <= i <= j < s.len() ==> meld_le(s[i], s[j])
}

/// The canonical arrangement of four melds, by repeated compare-and-swap:
/// three bubble passes.
pub open spec fn sort4_melds(s: Seq<Meld>) -> Seq<Meld> {
    let (a1, b1) = if meld_le(s[0], s[1]) {
        (s[0], s[1])
    } else {
        (s[1], s[0])
    };
    let (b2, c2) = if meld_le(b1, s[2]) {
        (b1, s[2])
    } else {
        (s[2], b1)
    };
    let (c3, d3) = if meld_le(c2, s[3]) {
        (c2, s[3])
    } else {
        (s[3], c2)
    };
    let (a2, b3) = if meld_le(a1, b2) {
        (a1, b2)
    } else {
        (b2, a1)
    };
    let (b4, c4) = if meld_le(b3, c3) {
        (b3, c3)
    } else {
        (c3, b3)
    };
    let (a3, b5) = if meld_le(a2, b4) {
        (a2, b4)
    } else {
        (b4, a2)
    };
    seq![a3, b5, c4, d3]
}

/// Swapping the first two entries of a four-element sequence keeps its
/// multiset.
#[verifier::rlimit(60)]
proof fn lemma_ms4_swap01(a: Meld, b: Meld, c: Meld, d: Meld)
    ensures
        seq![b, a, c, d].to_multiset() == seq![a, b, c, d].to_multiset(),
{
    broadcast use vstd::seq_lib::group_to_multiset_ensures;
    broadcast use vstd::multiset::group_multiset_axioms;

    assert(seq![b, a, c, d] =~= Seq::<Meld>::empty().push(b).push(a).push(c).push(d));
    assert(seq![a, b, c, d] =~= Seq::<Meld>::empty().push(a).push(b).push(c).push(d));
    assert(seq![b, a, c, d].to_multiset() =~= Multiset::<Meld>::empty().insert(b).insert(a).insert(
        c,
    ).insert(d));
    assert(seq![a, b, c, d].to_multiset() =~= Multiset::<Meld>::empty().insert(a).insert(b).insert(
        c,
    ).insert(d));
    assert(Multiset::<Meld>::empty().insert(b).insert(a).insert(c).insert(d)
        =~= Multiset::<Meld>::empty().insert(a).insert(b).insert(c).insert(d));
}

/// Swapping the middle two entries keeps the multiset.
#[verifier::rlimit(60)]
proof fn lemma_ms4_swap12(a: Meld, b: Meld, c: Meld, d: Meld)
    ensures
        seq![a, c, b, d].to_multiset() == seq![a, b, c, d].to_multiset(),
{
    broadcast use vstd::seq_lib::group_to_multiset_ensures;
    broadcast use vstd::multiset::group_multiset_axioms;

    assert(seq![a, c, b, d] =~= Seq::<Meld>::empty().push(a).push(c).push(b).push(d));
    assert(seq![a, b, c, d] =~= Seq::<Meld>::empty().push(a).push(b).push(c).push(d));
    assert(seq![a, c, b, d].to_multiset() =~= Multiset::<Meld>::empty().insert(a).insert(c).insert(
        b,
    ).insert(d));
    assert(seq![a, b, c, d].to_multiset() =~= Multiset::<Meld>::empty().insert(a).insert(b).insert(
        c,
    ).insert(d));
    assert(Multiset::<Meld>::empty().insert(a).insert(c).insert(b).insert(d)
        =~= Multiset::<Meld>::empty().insert(a).insert(b).insert(c).insert(d));
}

/// Swapping the last two entries keeps the multiset.
#[verifier::rlimit(60)]
proof fn lemma_ms4_swap23(a: Meld, b: Meld, c: Meld, d: Meld)
    ensures
        seq![a, b, d, c].to_multiset() == seq![a, b, c, d].to_multiset(),
{
    broadcast use vstd::seq_lib::group_to_multiset_ensures;
    broadcast use vstd::multiset::group_multiset_axioms;

    assert(seq![a, b, d, c] =~= Seq::<Meld>::empty().push(a).push(b).push(d).push(c));
    assert(seq![a, b, c, d] =~= Seq::<Meld>::empty().push(a).push(b).push(c).push(d));
    assert(seq![a, b, d, c].to_multiset() =~= Multiset::<Meld>::empty().insert(a).insert(b).insert(
        d,
    ).insert(c));
    assert(seq![a, b, c, d].to_multiset() =~= Multiset::<Meld>::empty().insert(a).insert(b).insert(
        c,
    ).insert(d));
    assert(Multiset::<Meld>::empty().insert(a).insert(b).insert(d).insert(c)
        =~= Multiset::<Meld>::empty().insert(a).insert(b).insert(c).insert(d));
}

/// The canonical arrangement is sorted and keeps the meld multiset.
#[verifier::rlimit(100)]
pub proof fn lemma_sort4_melds_ensures(s: Seq<Meld>)
    requires
        s.len() == 4,
    ensures
        melds_sorted(sort4_melds(s)),
        sort4_melds(s).to_multiset() == s.to_multiset(),
        sort4_melds(s).len() == 4,
{
    let a = s[0];
    let b = s[1];
    let c = s[2];
    let d = s[3];
    let (a1, b1) = if meld_le(a, b) {
        (a, b)
    } else {
        (b, a)
    };
    let (b2, c2) = if meld_le(b1, c) {
        (b1, c)
    } else {
        (c, b1)
    };
    let (c3, d3) = if meld_le(c2, d) {
        (c2, d)
    } else {
        (d, c2)
    };
    let (a2, b3) = if meld_le(a1, b2) {
        (a1, b2)
    } else {
        (b2, a1)
    };
    let (b4, c4) = if meld_le(b3, c3) {
        (b3, c3)
    } else {
        (c3, b3)
    };
    let (a3, b5) = if meld_le(a2, b4) {
        (a2, b4)
    } else {
        (b4, a2)
    };
    assert(s =~= seq![a, b, c, d]);
    lemma_ms4_swap01(a, b, c, d);
    assert(seq![a1, b1, c, d].to_multiset() == seq![a, b, c, d].to_multiset());
    lemma_ms4_swap12(a1, b1, c, d);
    assert(seq![a1, b2, c2, d].to_multiset() == seq![a1, b1, c, d].to_multiset());
    lemma_ms4_swap23(a1, b2, c2, d);
    assert(seq![a1, b2, c3, d3].to_multiset() == seq![a1, b2, c2, d].to_multiset());
    lemma_ms4_swap01(a1, b2, c3, d3);
    assert(seq![a2, b3, c3, d3].to_multiset() == seq![a1, b2, c3, d3].to_multiset());
    lemma_ms4_swap12(a2, b3, c3, d3);
    assert(seq![a2, b4, c4, d3].to_multiset() == seq![a2, b3, c3, d3].to_multiset());
    lemma_ms4_swap01(a2, b4, c4, d3);
    assert(seq![a3, b5, c4, d3].to_multiset() == seq![a2, b4, c4, d3].to_multiset());
    assert(sort4_melds(s) =~= seq![a3, b5, c4, d3]);
}

impl HandChecker {
    /// Rewrites the melds into the canonical order, so that structural
    /// equality of checkers is equality of canonicalized decompositions.
    pub fn sort(&mut self)
        requires
            old(self).wf(),
        ensures
            final(self).wf(),
            final(self).pair == old(self).pair,
            final(self).wind == old(self).wind,
            final(self).melds@ == sort4_melds(old(self).melds@),
            melds_sorted(final(self).melds@),
            final(self).melds@.to_multiset() == old(self).melds@.to_multiset(),
    {
        proof {
            lemma_sort4_melds_ensures(old(self).melds@);
        }
        let m0 = self.melds[0];
        let m1 = self.melds[1];
        let m2 = self.melds[2];
        let m3 = self.melds[3];
        let (a1, b1) = if meld_le_exec(&m0, &m1) {
            (m0, m1)
        } else {
            (m1, m0)
        };
        let (b2, c2) = if meld_le_exec(&b1, &m2) {
            (b1, m2)
        } else {
            (m2, b1)
        };
        let (c3, d3) = if meld_le_exec(&c2, &m3) {
            (c2, m3)
        } else {
            (m3, c2)
        };
        let (a2, b3) = if meld_le_exec(&a1, &b2) {
            (a1, b2)
        } else {
            (b2, a1)
        };
        let (b4, c4) = if meld_le_exec(&b3, &c3) {
            (b3, c3)
        } else {
            (c3, b3)
        };
        let (a3, b5) = if meld_le_exec(&a2, &b4) {
            (a2, b4)
        } else {
            (b4, a2)
        };
        let mut melds: Vec<Meld> = Vec::new();
        melds.push(a3);
        melds.push(b5);
        melds.push(c4);
        melds.push(d3);
        proof {
            assert(melds@ =~= sort4_melds(old(self).melds@));
        }
        self.melds = melds;
    }
}

/// The canonical order, decided executably.
pub fn meld_le_exec(a: &Meld, b: &Meld) -> (r: bool)
    ensures
        r == meld_le(*a, *b),
{
    let ai = a.head.to_index();
    let bi = b.head.to_index();
    if ai < bi {
        true
    } else if ai == bi {
        kind_index_exec(a.kind) <= kind_index_exec(b.kind)
    } else {
        false
    }
}

/// Declaration-order position of a meld kind, as a machine integer.
pub fn kind_index_exec(k: MeldKind) -> (r: usize)
    ensures
        r == k.kind_index_spec(),
{
    match k {
        MeldKind::RevealedChow => 0,
        MeldKind::RevealedPung => 1,
        MeldKind::RevealedKong => 2,
        MeldKind::ConcealedChow => 3,
        MeldKind::ConcealedPung => 4,
        MeldKind::ConcealedKong => 5,
    }
}

} // verus!

verus! {

// ------------------------------------------------------------------
// Rule pipeline: what each group states of a hand
// ------------------------------------------------------------------

pub open spec fn b2i(b: bool) -> int {
    if b {
        1
    } else {
        0
    }
}

/// Every meld is a chow.
pub open spec fn melds_all_chows(c: HandChecker) -> bool {
    c.melds@[0].kind.is_chow_spec() && c.melds@[1].kind.is_chow_spec()
        && c.melds@[2].kind.is_chow_spec() && c.melds@[3].kind.is_chow_spec()
}

/// Every meld is a pung (kongs included).
pub open spec fn melds_all_pungs(c: HandChecker) -> bool {
    c.melds@[0].kind.is_pung_spec() && c.melds@[1].kind.is_pung_spec()
        && c.melds@[2].kind.is_pung_spec() && c.melds@[3].kind.is_pung_spec()
}

/// Some meld is headed by the given tile.
pub open spec fn has_meld_head(c: HandChecker, t: Tile) -> bool {
    c.melds@[0].head == t || c.melds@[1].head == t || c.melds@[2].head == t || c.melds@[3].head == t
}

/// How many melds are headed by a wind tile.
pub open spec fn wind_meld_count(c: HandChecker) -> int {
    b2i(c.melds@[0].head.is_wind_spec()) + b2i(c.melds@[1].head.is_wind_spec()) + b2i(
        c.melds@[2].head.is_wind_spec(),
    ) + b2i(c.melds@[3].head.is_wind_spec())
}

/// How many melds are headed by a dragon tile.
pub open spec fn dragon_meld_count(c: HandChecker) -> int {
    b2i(c.melds@[0].head.is_dragon_spec()) + b2i(c.melds@[1].head.is_dragon_spec()) + b2i(
        c.melds@[2].head.is_dragon_spec(),
    ) + b2i(c.melds@[3].head.is_dragon_spec())
}

/// Shape group, run first: all chows, or else all pungs.
pub open spec fn all_chow_pung_spec(c: HandChecker, l: Seq<bool>) -> Seq<bool> {
    if melds_all_chows(c) {
        l.update(Hand::AllChows.index_spec(), true)
    } else if melds_all_pungs(c) {
        l.update(Hand::AllPungs.index_spec(), true)
    } else {
        l
    }
}

/// Scored-tile group: one bit per distinguished tile heading a meld — the
/// three dragons individually, and the ambient seat wind.
pub open spec fn score_pungs_spec(c: HandChecker, l: Seq<bool>) -> Seq<bool> {
    let l1 = if has_meld_head(c, Tile::Red) {
        l.update(Hand::RedPung.index_spec(), true)
    } else {
        l
    };
    let l2 = if has_meld_head(c, Tile::Green) {
        l1.update(Hand::GreenPung.index_spec(), true)
    } else {
        l1
    };
    let l3 = if has_meld_head(c, Tile::White) {
        l2.update(Hand::WhitePung.index_spec(), true)
    } else {
        l2
    };
    if has_meld_head(c, c.wind) {
        l3.update(Hand::WindPung.index_spec(), true)
    } else {
        l3
    }
}

/// Honors-count group: all four melds wind-headed, or three with a wind
/// pair, take the top wind categories; independently, three dragon-headed
/// melds, or two with a dragon pair, take the dragon categories.
pub open spec fn honors_spec(c: HandChecker, l: Seq<bool>) -> Seq<bool> {
    let l1 = if wind_meld_count(c) == 4 {
        l.update(Hand::BigFourWinds.index_spec(), true)
    } else if wind_meld_count(c) == 3 && c.pair.head.is_wind_spec() {
        l.update(Hand::LittleFourWinds.index_spec(), true)
    } else {
        l
    };
    if dragon_meld_count(c) == 3 {
        l1.update(Hand::BigThreeDragons.index_spec(), true)
    } else if dragon_meld_count(c) == 2 && c.pair.head.is_dragon_spec() {
        l1.update(Hand::LittleThreeDragons.index_spec(), true)
    } else {
        l1
    }
}

/// A chow starting at this tile covers a terminal rank: its three
/// consecutive ranks reach the bottom or the top of the suit.
pub open spec fn chow_touches_end(t: Tile) -> bool {
    !t.is_honor_spec() && (t.number_spec() == 1 || t.number_spec() == 7)
}

/// The meld stays within the simple ranks: judged by its covered ranks for a
/// chow, by its head for a pung.
pub open spec fn meld_simple(m: Meld) -> bool {
    if m.kind.is_chow_spec() {
        !chow_touches_end(m.head)
    } else {
        m.head.is_simple_spec()
    }
}

/// The meld is anchored at a terminal rank: a chow covering one, or a pung
/// of one.
pub open spec fn meld_terminal_anchored(m: Meld) -> bool {
    if m.kind.is_chow_spec() {
        chow_touches_end(m.head)
    } else {
        m.head.is_terminal_spec()
    }
}

/// The meld is anchored at a terminal or honor tile.
pub open spec fn meld_outside_anchored(m: Meld) -> bool {
    if m.kind.is_chow_spec() {
        chow_touches_end(m.head)
    } else {
        !m.head.is_simple_spec()
    }
}

pub open spec fn melds_all_simple(c: HandChecker) -> bool {
    meld_simple(c.melds@[0]) && meld_simple(c.melds@[1]) && meld_simple(c.melds@[2]) && meld_simple(
        c.melds@[3],
    )
}

pub open spec fn melds_all_heads_terminal(c: HandChecker) -> bool {
    c.melds@[0].head.is_terminal_spec() && c.melds@[1].head.is_terminal_spec()
        && c.melds@[2].head.is_terminal_spec() && c.melds@[3].head.is_terminal_spec()
}

pub open spec fn melds_all_heads_not_simple(c: HandChecker) -> bool {
    !c.melds@[0].head.is_simple_spec() && !c.melds@[1].head.is_simple_spec()
        && !c.melds@[2].head.is_simple_spec() && !c.melds@[3].head.is_simple_spec()
}

pub open spec fn melds_all_terminal_anchored(c: HandChecker) -> bool {
    meld_terminal_anchored(c.melds@[0]) && meld_terminal_anchored(c.melds@[1])
        && meld_terminal_anchored(c.melds@[2]) && meld_terminal_anchored(c.melds@[3])
}

pub open spec fn melds_all_outside_anchored(c: HandChecker) -> bool {
    meld_outside_anchored(c.melds@[0]) && meld_outside_anchored(c.melds@[1])
        && meld_outside_anchored(c.melds@[2]) && meld_outside_anchored(c.melds@[3])
}

/// The melds at positions `i < j < k` are same-suit chows whose heads climb
/// by three ranks each: a pure straight covering ranks one to nine.
pub open spec fn pure_straight_at(c: HandChecker, i: int, j: int, k: int) -> bool {
    let a = c.melds@[i];
    let b = c.melds@[j];
    let d = c.melds@[k];
    a.kind.is_chow_spec() && b.kind.is_chow_spec() && d.kind.is_chow_spec()
        && a.head.is_same_color_spec(b.head) && b.head.is_same_color_spec(d.head)
        && !a.head.is_honor_spec() && b.head.number_spec() == a.head.number_spec() + 3
        && d.head.number_spec() == b.head.number_spec() + 3
}

/// Some three melds form a pure straight, over the fixed three-subset
/// enumeration.
pub open spec fn has_pure_straight(c: HandChecker) -> bool {
    pure_straight_at(c, 0, 1, 2) || pure_straight_at(c, 0, 1, 3) || pure_straight_at(c, 0, 2, 3)
        || pure_straight_at(c, 1, 2, 3)
}

/// Straight/terminal group: the pure straight supersedes; then all simples;
/// then, split on whether the shape group saw all pungs, the four mutually
/// exclusive terminal/honor-boundary categories, first match winning.
pub open spec fn straight_simple_terminal_spec(c: HandChecker, l: Seq<bool>) -> Seq<bool> {
    if has_pure_straight(c) {
        l.update(Hand::PureStraight.index_spec(), true)
    } else if c.pair.head.is_simple_spec() && melds_all_simple(c) {
        l.update(Hand::AllSimples.index_spec(), true)
    } else if l[Hand::AllPungs.index_spec()] {
        if c.pair.head.is_terminal_spec() && melds_all_heads_terminal(c) {
            l.update(Hand::AllTerminals.index_spec(), true)
        } else if !c.pair.head.is_simple_spec() && melds_all_heads_not_simple(c) {
            l.update(Hand::AllTerminalsAndHonors.index_spec(), true)
        } else {
            l
        }
    } else {
        if c.pair.head.is_terminal_spec() && melds_all_terminal_anchored(c) {
            l.update(Hand::TerminalsInAllSets.index_spec(), true)
        } else if !c.pair.head.is_simple_spec() && melds_all_outside_anchored(c) {
            l.update(Hand::OutsideHands.index_spec(), true)
        } else {
            l
        }
    }
}

pub open spec fn melds_all_heads_honor(c: HandChecker) -> bool {
    c.melds@[0].head.is_honor_spec() && c.melds@[1].head.is_honor_spec()
        && c.melds@[2].head.is_honor_spec() && c.melds@[3].head.is_honor_spec()
}

pub open spec fn melds_all_same_color_as(c: HandChecker, t: Tile) -> bool {
    c.melds@[0].head.is_same_color_spec(t) && c.melds@[1].head.is_same_color_spec(t)
        && c.melds@[2].head.is_same_color_spec(t) && c.melds@[3].head.is_same_color_spec(t)
}

pub open spec fn melds_all_color_or_honor(c: HandChecker, t: Tile) -> bool {
    (c.melds@[0].head.is_same_color_spec(t) || c.melds@[0].head.is_honor_spec()) && (
    c.melds@[1].head.is_same_color_spec(t) || c.melds@[1].head.is_honor_spec()) && (
    c.melds@[2].head.is_same_color_spec(t) || c.melds@[2].head.is_honor_spec()) && (
    c.melds@[3].head.is_same_color_spec(t) || c.melds@[3].head.is_honor_spec())
}

/// The representative suit tile of a hand whose pair is an honor: the first
/// meld head that is not an honor.
pub open spec fn rep_color_tile(c: HandChecker) -> Tile {
    if !c.melds@[0].head.is_honor_spec() {
        c.melds@[0].head
    } else if !c.melds@[1].head.is_honor_spec() {
        c.melds@[1].head
    } else if !c.melds@[2].head.is_honor_spec() {
        c.melds@[2].head
    } else {
        c.melds@[3].head
    }
}

/// The melds at positions `i < j < k` are same-rank chows spanning the
/// three suits, in the canonical Bamboo, Character, Dot positions.
pub open spec fn mixed_triple_chow_at(c: HandChecker, i: int, j: int, k: int) -> bool {
    let a = c.melds@[i];
    let b = c.melds@[j];
    let d = c.melds@[k];
    a.kind.is_chow_spec() && b.kind.is_chow_spec() && d.kind.is_chow_spec() && a.head.color_spec()
        == TileColor::Bamboo && b.head.color_spec() == TileColor::Character && d.head.color_spec()
        == TileColor::Dot && a.head.number_spec() == b.head.number_spec() && b.head.number_spec()
        == d.head.number_spec()
}

pub open spec fn has_mixed_triple_chow(c: HandChecker) -> bool {
    mixed_triple_chow_at(c, 0, 1, 2) || mixed_triple_chow_at(c, 0, 1, 3) || mixed_triple_chow_at(
        c,
        0,
        2,
        3,
    ) || mixed_triple_chow_at(c, 1, 2, 3)
}

/// The melds at positions `i < j < k` are same-rank pungs spanning the
/// three suits.
pub open spec fn triple_pung_at(c: HandChecker, i: int, j: int, k: int) -> bool {
    let a = c.melds@[i];
    let b = c.melds@[j];
    let d = c.melds@[k];
    a.kind.is_pung_spec() && b.kind.is_pung_spec() && d.kind.is_pung_spec() && a.head.color_spec()
        == TileColor::Bamboo && b.head.color_spec() == TileColor::Character && d.head.color_spec()
        == TileColor::Dot && a.head.number_spec() == b.head.number_spec() && b.head.number_spec()
        == d.head.number_spec()
}

pub open spec fn has_triple_pung(c: HandChecker) -> bool {
    triple_pung_at(c, 0, 1, 2) || triple_pung_at(c, 0, 1, 3) || triple_pung_at(c, 0, 2, 3)
        || triple_pung_at(c, 1, 2, 3)
}

/// Color group: all honors supersedes everything, then full flush; a mixed
/// hand is tried for half flush against the representative suit, and for the
/// three-suit triples over every three-subset.
pub open spec fn pure_mix_spec(c: HandChecker, l: Seq<bool>) -> Seq<bool> {
    if c.pair.head.is_honor_spec() && melds_all_heads_honor(c) {
        l.update(Hand::AllHonors.index_spec(), true)
    } else if melds_all_same_color_as(c, c.pair.head) {
        l.update(Hand::FullFlush.index_spec(), true)
    } else {
        if c.pair.head.is_honor_spec() {
            let l1 = if melds_all_color_or_honor(c, rep_color_tile(c)) {
                l.update(Hand::HalfFlush.index_spec(), true)
            } else {
                l
            };
            if has_mixed_triple_chow(c) {
                l1.update(Hand::MixedTripleChow.index_spec(), true)
            } else if has_triple_pung(c) {
                l1.update(Hand::TriplePung.index_spec(), true)
            } else {
                l1
            }
        } else {
            if melds_all_color_or_honor(c, c.pair.head) {
                l.update(Hand::HalfFlush.index_spec(), true)
            } else if has_mixed_triple_chow(c) {
                l.update(Hand::MixedTripleChow.index_spec(), true)
            } else if has_triple_pung(c) {
                l.update(Hand::TriplePung.index_spec(), true)
            } else {
                l
            }
        }
    }
}

pub open spec fn melds_all_concealed(c: HandChecker) -> bool {
    c.melds@[0].kind.is_concealed_spec() && c.melds@[1].kind.is_concealed_spec()
        && c.melds@[2].kind.is_concealed_spec() && c.melds@[3].kind.is_concealed_spec()
}

/// Both melds are concealed pungs.
pub open spec fn two_concealed_pungs(a: Meld, b: Meld) -> bool {
    a.kind.is_pung_spec() && b.kind.is_pung_spec() && a.kind.is_concealed_spec()
        && b.kind.is_concealed_spec()
}

/// The melds at positions `i < j < k` are all concealed pungs.
pub open spec fn three_concealed_pungs_at(c: HandChecker, i: int, j: int, k: int) -> bool {
    two_concealed_pungs(c.melds@[i], c.melds@[j]) && two_concealed_pungs(c.melds@[j], c.melds@[k])
}

pub open spec fn has_three_concealed_pungs(c: HandChecker) -> bool {
    three_concealed_pungs_at(c, 0, 1, 2) || three_concealed_pungs_at(c, 0, 1, 3)
        || three_concealed_pungs_at(c, 0, 2, 3) || three_concealed_pungs_at(c, 1, 2, 3)
}

pub open spec fn has_two_concealed_pungs(c: HandChecker) -> bool {
    two_concealed_pungs(c.melds@[0], c.melds@[1]) || two_concealed_pungs(
        c.melds@[0],
        c.melds@[2],
    ) || two_concealed_pungs(c.melds@[0], c.melds@[3]) || two_concealed_pungs(
        c.melds@[1],
        c.melds@[2],
    ) || two_concealed_pungs(c.melds@[1], c.melds@[3]) || two_concealed_pungs(
        c.melds@[2],
        c.melds@[3],
    )
}

/// Concealed-pung group: the full-arity category when the shape group saw
/// all pungs and every meld is concealed; else the three-subset category,
/// tried before the two-subset one.
pub open spec fn conceal_pungs_spec(c: HandChecker, l: Seq<bool>) -> Seq<bool> {
    if l[Hand::AllPungs.index_spec()] && melds_all_concealed(c) {
        l.update(Hand::FourConcealedPungs.index_spec(), true)
    } else if has_three_concealed_pungs(c) {
        l.update(Hand::ThreeConcealedPungs.index_spec(), true)
    } else if has_two_concealed_pungs(c) {
        l.update(Hand::TwoConcealedPungs.index_spec(), true)
    } else {
        l
    }
}

/// Both melds are chows with the same head.
pub open spec fn same_chow(a: Meld, b: Meld) -> bool {
    a.kind.is_chow_spec() && b.kind.is_chow_spec() && a.head == b.head
}

/// Two disjoint pairs of matching chows among the four melds.
pub open spec fn has_two_double_chows(c: HandChecker) -> bool {
    (same_chow(c.melds@[0], c.melds@[1]) && same_chow(c.melds@[2], c.melds@[3])) || (same_chow(
        c.melds@[0],
        c.melds@[2],
    ) && same_chow(c.melds@[1], c.melds@[3])) || (same_chow(c.melds@[0], c.melds@[3]) && same_chow(
        c.melds@[1],
        c.melds@[2],
    ))
}

/// The melds at positions `i < j < k` are chows sharing one head.
pub open spec fn same_chow3_at(c: HandChecker, i: int, j: int, k: int) -> bool {
    same_chow(c.melds@[i], c.melds@[j]) && same_chow(c.melds@[j], c.melds@[k])
}

pub open spec fn has_same_chow3(c: HandChecker) -> bool {
    same_chow3_at(c, 0, 1, 2) || same_chow3_at(c, 0, 1, 3) || same_chow3_at(c, 0, 2, 3)
        || same_chow3_at(c, 1, 2, 3)
}

pub open spec fn has_same_chow2(c: HandChecker) -> bool {
    same_chow(c.melds@[0], c.melds@[1]) || same_chow(c.melds@[0], c.melds@[2]) || same_chow(
        c.melds@[0],
        c.melds@[3],
    ) || same_chow(c.melds@[1], c.melds@[2]) || same_chow(c.melds@[1], c.melds@[3]) || same_chow(
        c.melds@[2],
        c.melds@[3],
    )
}

/// Same-chow group: all four chows sharing one head, or two disjoint
/// matching pairs, when the shape group saw all chows; else three-subsets
/// before two-subsets.
pub open spec fn same_chows_spec(c: HandChecker, l: Seq<bool>) -> Seq<bool> {
    if l[Hand::AllChows.index_spec()] && c.melds@[0].head == c.melds@[1].head && c.melds@[1].head
        == c.melds@[2].head && c.melds@[2].head == c.melds@[3].head {
        l.update(Hand::QuadrupleChow.index_spec(), true)
    } else if l[Hand::AllChows.index_spec()] && has_two_double_chows(c) {
        l.update(Hand::TwicePureDoubleChow.index_spec(), true)
    } else if has_same_chow3(c) {
        l.update(Hand::PureTripleChow.index_spec(), true)
    } else if has_same_chow2(c) {
        l.update(Hand::PureDoubleChow.index_spec(), true)
    } else {
        l
    }
}

/// Both melds are pungs whose heads are adjacent ranks of one suit.
pub open spec fn shifted_pungs2(a: Meld, b: Meld) -> bool {
    a.kind.is_pung_spec() && b.kind.is_pung_spec() && (a.head.is_ascending_spec(b.head)
        || b.head.is_ascending_spec(a.head))
}

pub open spec fn has_shifted_pungs2(c: HandChecker) -> bool {
    shifted_pungs2(c.melds@[0], c.melds@[1]) || shifted_pungs2(c.melds@[0], c.melds@[2])
        || shifted_pungs2(c.melds@[0], c.melds@[3]) || shifted_pungs2(c.melds@[1], c.melds@[2])
        || shifted_pungs2(c.melds@[1], c.melds@[3]) || shifted_pungs2(c.melds@[2], c.melds@[3])
}

/// The four meld heads rearranged into ascending declaration order.
pub open spec fn heads_sorted4(c: HandChecker) -> (Tile, Tile, Tile, Tile) {
    let a = c.melds@[0].head;
    let b = c.melds@[1].head;
    let d = c.melds@[2].head;
    let e = c.melds@[3].head;
    let (a1, b1) = if a.index_spec() <= b.index_spec() {
        (a, b)
    } else {
        (b, a)
    };
    let (b2, d2) = if b1.index_spec() <= d.index_spec() {
        (b1, d)
    } else {
        (d, b1)
    };
    let (d3, e3) = if d2.index_spec() <= e.index_spec() {
        (d2, e)
    } else {
        (e, d2)
    };
    let (a4, b4) = if a1.index_spec() <= b2.index_spec() {
        (a1, b2)
    } else {
        (b2, a1)
    };
    let (b5, d5) = if b4.index_spec() <= d3.index_spec() {
        (b4, d3)
    } else {
        (d3, b4)
    };
    let (a6, b6) = if a4.index_spec() <= b5.index_spec() {
        (a4, b5)
    } else {
        (b5, a4)
    };
    (a6, b6, d5, e3)
}

/// The sorted meld heads are four consecutive ranks of one suit.
pub open spec fn four_shifted_heads(c: HandChecker) -> bool {
    let (a, b, d, e) = heads_sorted4(c);
    a.is_ascending_spec(b) && b.is_ascending_spec(d) && d.is_ascending_spec(e)
}

/// Shifted-pung group: four consecutive same-suit pungs when the shape
/// group saw all pungs, else the two-subset category.
pub open spec fn shift_pungs_spec(c: HandChecker, l: Seq<bool>) -> Seq<bool> {
    if l[Hand::AllPungs.index_spec()] && c.melds@[0].head.is_same_color_spec(c.melds@[1].head)
        && c.melds@[1].head.is_same_color_spec(c.melds@[2].head)
        && c.melds@[2].head.is_same_color_spec(c.melds@[3].head)
        && !c.melds@[0].head.is_honor_spec() && four_shifted_heads(c) {
        l.update(Hand::FourPureShiftedPungs.index_spec(), true)
    } else if has_shifted_pungs2(c) {
        l.update(Hand::PureShiftedPungs.index_spec(), true)
    } else {
        l
    }
}

/// The exclusivity override: an all-honors hand keeps that bit alone.
pub open spec fn apply_exclusive_override(l: Seq<bool>) -> Seq<bool> {
    if l[Hand::AllHonors.index_spec()] {
        handlist_empty_spec().update(Hand::AllHonors.index_spec(), true)
    } else {
        l
    }
}

/// The fallback: a hand matching no named category gets the reserved
/// no-point bit.
pub open spec fn apply_no_point(l: Seq<bool>) -> Seq<bool> {
    if forall|i: int| 0 <= i < HANDVARIANT ==> !l[i] {
        l.update(Hand::NoPoint.index_spec(), true)
    } else {
        l
    }
}

/// The eight rule groups in their fixed order, before the override and the
/// fallback.
#[verifier::opaque]
pub open spec fn pipeline_spec(c: HandChecker) -> Seq<bool> {
    shift_pungs_spec(
        c,
        same_chows_spec(
            c,
            conceal_pungs_spec(
                c,
                pure_mix_spec(
                    c,
                    straight_simple_terminal_spec(
                        c,
                        honors_spec(c, score_pungs_spec(c, all_chow_pung_spec(c, handlist_empty_spec()))),
                    ),
                ),
            ),
        ),
    )
}

/// The whole pipeline: the eight rule groups in their fixed order, then the
/// exclusivity override and the no-point fallback.
pub open spec fn hands_spec(c: HandChecker) -> Seq<bool> {
    apply_no_point(apply_exclusive_override(pipeline_spec(c)))
}

} // verus!

verus! {

// ------------------------------------------------------------------
// Rule pipeline: execution
// ------------------------------------------------------------------

/// Whether a chow starting at this tile covers a terminal rank.
fn chow_touches_end_exec(t: &Tile) -> (r: bool)
    ensures
        r == chow_touches_end(*t),
{
    if t.is_honor() {
        false
    } else {
        let n = t.number();
        n == 1 || n == 7
    }
}

fn meld_simple_exec(m: &Meld) -> (r: bool)
    ensures
        r == meld_simple(*m),
{
    if m.kind.is_chow() {
        !chow_touches_end_exec(&m.head)
    } else {
        m.head.is_simple()
    }
}

fn meld_terminal_anchored_exec(m: &Meld) -> (r: bool)
    ensures
        r == meld_terminal_anchored(*m),
{
    if m.kind.is_chow() {
        chow_touches_end_exec(&m.head)
    } else {
        m.head.is_terminal()
    }
}

fn meld_outside_anchored_exec(m: &Meld) -> (r: bool)
    ensures
        r == meld_outside_anchored(*m),
{
    if m.kind.is_chow() {
        chow_touches_end_exec(&m.head)
    } else {
        !m.head.is_simple()
    }
}

fn two_concealed_pungs_exec(a: &Meld, b: &Meld) -> (r: bool)
    ensures
        r == two_concealed_pungs(*a, *b),
{
    a.kind.is_pung() && b.kind.is_pung() && a.kind.is_concealed() && b.kind.is_concealed()
}

fn same_chow_exec(a: &Meld, b: &Meld) -> (r: bool)
    ensures
        r == same_chow(*a, *b),
{
    a.kind.is_chow() && b.kind.is_chow() && a.head == b.head
}

fn shifted_pungs2_exec(a: &Meld, b: &Meld) -> (r: bool)
    ensures
        r == shifted_pungs2(*a, *b),
{
    a.kind.is_pung() && b.kind.is_pung() && (a.head.is_ascending(b.head) || b.head.is_ascending(
        a.head,
    ))
}

impl HandChecker {
    fn all_chow_pung(&self, checker: &mut HandList)
        requires
            self.wf(),
            old(checker).wf(),
        ensures
            final(checker).wf(),
            final(checker)@ == all_chow_pung_spec(*self, old(checker)@),
    {
        if self.melds[0].kind.is_chow() && self.melds[1].kind.is_chow()
            && self.melds[2].kind.is_chow() && self.melds[3].kind.is_chow() {
            checker.set(Hand::AllChows.to_index(), true);
            return ;
        }
        if self.melds[0].kind.is_pung() && self.melds[1].kind.is_pung()
            && self.melds[2].kind.is_pung() && self.melds[3].kind.is_pung() {
            checker.set(Hand::AllPungs.to_index(), true);
        }
    }

    fn has_head(&self, t: Tile) -> (r: bool)
        requires
            self.wf(),
        ensures
            r == has_meld_head(*self, t),
    {
        self.melds[0].head == t || self.melds[1].head == t || self.melds[2].head == t
            || self.melds[3].head == t
    }

    fn score_pungs(&self, checker: &mut HandList)
        requires
            self.wf(),
            old(checker).wf(),
        ensures
            final(checker).wf(),
            final(checker)@ == score_pungs_spec(*self, old(checker)@),
    {
        if self.has_head(Tile::Red) {
            checker.set(Hand::RedPung.to_index(), true);
        }
        if self.has_head(Tile::Green) {
            checker.set(Hand::GreenPung.to_index(), true);
        }
        if self.has_head(Tile::White) {
            checker.set(Hand::WhitePung.to_index(), true);
        }
        if self.has_head(self.wind) {
            checker.set(Hand::WindPung.to_index(), true);
        }
    }

    #[verifier::rlimit(100)]
fn honors(&self, checker: &mut HandList)
        requires
            self.wf(),
            old(checker).wf(),
        ensures
            final(checker).wf(),
            final(checker)@ == honors_spec(*self, old(checker)@),
    {
        let mut winds: usize = 0;
        if self.melds[0].head.is_wind() {
            winds = winds + 1;
        }
        if self.melds[1].head.is_wind() {
            winds = winds + 1;
        }
        if self.melds[2].head.is_wind() {
            winds = winds + 1;
        }
        if self.melds[3].head.is_wind() {
            winds = winds + 1;
        }
        if winds == 4 {
            checker.set(Hand::BigFourWinds.to_index(), true);
        } else if winds == 3 && self.pair.head.is_wind() {
            checker.set(Hand::LittleFourWinds.to_index(), true);
        }
        let mut dragons: usize = 0;
        if self.melds[0].head.is_dragon() {
            dragons = dragons + 1;
        }
        if self.melds[1].head.is_dragon() {
            dragons = dragons + 1;
        }
        if self.melds[2].head.is_dragon() {
            dragons = dragons + 1;
        }
        if self.melds[3].head.is_dragon() {
            dragons = dragons + 1;
        }
        if dragons == 3 {
            checker.set(Hand::BigThreeDragons.to_index(), true);
        } else if dragons == 2 && self.pair.head.is_dragon() {
            checker.set(Hand::LittleThreeDragons.to_index(), true);
        }
    }

    fn pure_straight_at_exec(&self, i: usize, j: usize, k: usize) -> (r: bool)
        requires
            self.wf(),
            i < j && j < k && k < 4,
        ensures
            r == pure_straight_at(*self, i as int, j as int, k as int),
    {
        let a = self.melds[i];
        let b = self.melds[j];
        let d = self.melds[k];
        a.kind.is_chow() && b.kind.is_chow() && d.kind.is_chow() && a.head.is_same_color(b.head)
            && b.head.is_same_color(d.head) && !a.head.is_honor() && b.head.number() == a.head.number()
            + 3 && d.head.number() == b.head.number() + 3
    }

    fn straight_simple_terminal(&self, checker: &mut HandList)
        requires
            self.wf(),
            old(checker).wf(),
        ensures
            final(checker).wf(),
            final(checker)@ == straight_simple_terminal_spec(*self, old(checker)@),
    {
        if self.pure_straight_at_exec(0, 1, 2) || self.pure_straight_at_exec(0, 1, 3)
            || self.pure_straight_at_exec(0, 2, 3) || self.pure_straight_at_exec(1, 2, 3) {
            checker.set(Hand::PureStraight.to_index(), true);
            return ;
        }
        let pair_simple = self.pair.head.is_simple();
        if pair_simple && meld_simple_exec(&self.melds[0]) && meld_simple_exec(&self.melds[1])
            && meld_simple_exec(&self.melds[2]) && meld_simple_exec(&self.melds[3]) {
            checker.set(Hand::AllSimples.to_index(), true);
            return ;
        }
        if checker.get(Hand::AllPungs.to_index()) {
            if self.pair.head.is_terminal() && self.melds[0].head.is_terminal()
                && self.melds[1].head.is_terminal() && self.melds[2].head.is_terminal()
                && self.melds[3].head.is_terminal() {
                checker.set(Hand::AllTerminals.to_index(), true);
                return ;
            }
            if !self.pair.head.is_simple() && !self.melds[0].head.is_simple()
                && !self.melds[1].head.is_simple() && !self.melds[2].head.is_simple()
                && !self.melds[3].head.is_simple() {
                checker.set(Hand::AllTerminalsAndHonors.to_index(), true);
            }
        } else {
            if self.pair.head.is_terminal() && meld_terminal_anchored_exec(&self.melds[0])
                && meld_terminal_anchored_exec(&self.melds[1]) && meld_terminal_anchored_exec(
                &self.melds[2],
            ) && meld_terminal_anchored_exec(&self.melds[3]) {
                checker.set(Hand::TerminalsInAllSets.to_index(), true);
                return ;
            }
            if !self.pair.head.is_simple() && meld_outside_anchored_exec(&self.melds[0])
                && meld_outside_anchored_exec(&self.melds[1]) && meld_outside_anchored_exec(
                &self.melds[2],
            ) && meld_outside_anchored_exec(&self.melds[3]) {
                checker.set(Hand::OutsideHands.to_index(), true);
            }
        }
    }

    fn mixed_triple_chow_at_exec(&self, i: usize, j: usize, k: usize) -> (r: bool)
        requires
            self.wf(),
            i < j && j < k && k < 4,
        ensures
            r == mixed_triple_chow_at(*self, i as int, j as int, k as int),
    {
        let a = self.melds[i];
        let b = self.melds[j];
        let d = self.melds[k];
        a.kind.is_chow() && b.kind.is_chow() && d.kind.is_chow() && a.head.color()
            == TileColor::Bamboo && b.head.color() == TileColor::Character && d.head.color()
            == TileColor::Dot && a.head.number() == b.head.number() && b.head.number()
            == d.head.number()
    }

    fn triple_pung_at_exec(&self, i: usize, j: usize, k: usize) -> (r: bool)
        requires
            self.wf(),
            i < j && j < k && k < 4,
        ensures
            r == triple_pung_at(*self, i as int, j as int, k as int),
    {
        let a = self.melds[i];
        let b = self.melds[j];
        let d = self.melds[k];
        a.kind.is_pung() && b.kind.is_pung() && d.kind.is_pung() && a.head.color()
            == TileColor::Bamboo && b.head.color() == TileColor::Character && d.head.color()
            == TileColor::Dot && a.head.number() == b.head.number() && b.head.number()
            == d.head.number()
    }

    fn pure_mix(&self, checker: &mut HandList)
        requires
            self.wf(),
            old(checker).wf(),
        ensures
            final(checker).wf(),
            final(checker)@ == pure_mix_spec(*self, old(checker)@),
    {
        let pair_honor = self.pair.head.is_honor();
        if pair_honor && self.melds[0].head.is_honor() && self.melds[1].head.is_honor()
            && self.melds[2].head.is_honor() && self.melds[3].head.is_honor() {
            checker.set(Hand::AllHonors.to_index(), true);
            return ;
        }
        if self.melds[0].head.is_same_color(self.pair.head) && self.melds[1].head.is_same_color(
            self.pair.head,
        ) && self.melds[2].head.is_same_color(self.pair.head) && self.melds[3].head.is_same_color(
            self.pair.head,
        ) {
            checker.set(Hand::FullFlush.to_index(), true);
            return ;
        }
        if pair_honor {
            let color_tile = if !self.melds[0].head.is_honor() {
                self.melds[0].head
            } else if !self.melds[1].head.is_honor() {
                self.melds[1].head
            } else if !self.melds[2].head.is_honor() {
                self.melds[2].head
            } else {
                self.melds[3].head
            };
            if (self.melds[0].head.is_same_color(color_tile) || self.melds[0].head.is_honor()) && (
            self.melds[1].head.is_same_color(color_tile) || self.melds[1].head.is_honor()) && (
            self.melds[2].head.is_same_color(color_tile) || self.melds[2].head.is_honor()) && (
            self.melds[3].head.is_same_color(color_tile) || self.melds[3].head.is_honor()) {
                checker.set(Hand::HalfFlush.to_index(), true);
            }
        } else {
            if (self.melds[0].head.is_same_color(self.pair.head) || self.melds[0].head.is_honor())
                && (self.melds[1].head.is_same_color(self.pair.head)
                || self.melds[1].head.is_honor()) && (self.melds[2].head.is_same_color(
                self.pair.head,
            ) || self.melds[2].head.is_honor()) && (self.melds[3].head.is_same_color(self.pair.head)
                || self.melds[3].head.is_honor()) {
                checker.set(Hand::HalfFlush.to_index(), true);
                return ;
            }
        }
        if self.mixed_triple_chow_at_exec(0, 1, 2) || self.mixed_triple_chow_at_exec(0, 1, 3)
            || self.mixed_triple_chow_at_exec(0, 2, 3) || self.mixed_triple_chow_at_exec(1, 2, 3) {
            checker.set(Hand::MixedTripleChow.to_index(), true);
            return ;
        }
        if self.triple_pung_at_exec(0, 1, 2) || self.triple_pung_at_exec(0, 1, 3)
            || self.triple_pung_at_exec(0, 2, 3) || self.triple_pung_at_exec(1, 2, 3) {
            checker.set(Hand::TriplePung.to_index(), true);
        }
    }

    fn conceal_pungs(&self, checker: &mut HandList)
        requires
            self.wf(),
            old(checker).wf(),
        ensures
            final(checker).wf(),
            final(checker)@ == conceal_pungs_spec(*self, old(checker)@),
    {
        if checker.get(Hand::AllPungs.to_index()) && self.melds[0].kind.is_concealed()
            && self.melds[1].kind.is_concealed() && self.melds[2].kind.is_concealed()
            && self.melds[3].kind.is_concealed() {
            checker.set(Hand::FourConcealedPungs.to_index(), true);
            return ;
        }
        let t012 = two_concealed_pungs_exec(&self.melds[0], &self.melds[1])
            && two_concealed_pungs_exec(&self.melds[1], &self.melds[2]);
        let t013 = two_concealed_pungs_exec(&self.melds[0], &self.melds[1])
            && two_concealed_pungs_exec(&self.melds[1], &self.melds[3]);
        let t023 = two_concealed_pungs_exec(&self.melds[0], &self.melds[2])
            && two_concealed_pungs_exec(&self.melds[2], &self.melds[3]);
        let t123 = two_concealed_pungs_exec(&self.melds[1], &self.melds[2])
            && two_concealed_pungs_exec(&self.melds[2], &self.melds[3]);
        if t012 || t013 || t023 || t123 {
            checker.set(Hand::ThreeConcealedPungs.to_index(), true);
            return ;
        }
        if two_concealed_pungs_exec(&self.melds[0], &self.melds[1]) || two_concealed_pungs_exec(
            &self.melds[0],
            &self.melds[2],
        ) || two_concealed_pungs_exec(&self.melds[0], &self.melds[3]) || two_concealed_pungs_exec(
            &self.melds[1],
            &self.melds[2],
        ) || two_concealed_pungs_exec(&self.melds[1], &self.melds[3]) || two_concealed_pungs_exec(
            &self.melds[2],
            &self.melds[3],
        ) {
            checker.set(Hand::TwoConcealedPungs.to_index(), true);
        }
    }

    fn same_chows(&self, checker: &mut HandList)
        requires
            self.wf(),
            old(checker).wf(),
        ensures
            final(checker).wf(),
            final(checker)@ == same_chows_spec(*self, old(checker)@),
    {
        if checker.get(Hand::AllChows.to_index()) && self.melds[0].head == self.melds[1].head
            && self.melds[1].head == self.melds[2].head && self.melds[2].head
            == self.melds[3].head {
            checker.set(Hand::QuadrupleChow.to_index(), true);
            return ;
        }
        if checker.get(Hand::AllChows.to_index()) && ((same_chow_exec(
            &self.melds[0],
            &self.melds[1],
        ) && same_chow_exec(&self.melds[2], &self.melds[3])) || (same_chow_exec(
            &self.melds[0],
            &self.melds[2],
        ) && same_chow_exec(&self.melds[1], &self.melds[3])) || (same_chow_exec(
            &self.melds[0],
            &self.melds[3],
        ) && same_chow_exec(&self.melds[1], &self.melds[2]))) {
            checker.set(Hand::TwicePureDoubleChow.to_index(), true);
            return ;
        }
        let s012 = same_chow_exec(&self.melds[0], &self.melds[1]) && same_chow_exec(
            &self.melds[1],
            &self.melds[2],
        );
        let s013 = same_chow_exec(&self.melds[0], &self.melds[1]) && same_chow_exec(
            &self.melds[1],
            &self.melds[3],
        );
        let s023 = same_chow_exec(&self.melds[0], &self.melds[2]) && same_chow_exec(
            &self.melds[2],
            &self.melds[3],
        );
        let s123 = same_chow_exec(&self.melds[1], &self.melds[2]) && same_chow_exec(
            &self.melds[2],
            &self.melds[3],
        );
        if s012 || s013 || s023 || s123 {
            checker.set(Hand::PureTripleChow.to_index(), true);
            return ;
        }
        if same_chow_exec(&self.melds[0], &self.melds[1]) || same_chow_exec(
            &self.melds[0],
            &self.melds[2],
        ) || same_chow_exec(&self.melds[0], &self.melds[3]) || same_chow_exec(
            &self.melds[1],
            &self.melds[2],
        ) || same_chow_exec(&self.melds[1], &self.melds[3]) || same_chow_exec(
            &self.melds[2],
            &self.melds[3],
        ) {
            checker.set(Hand::PureDoubleChow.to_index(), true);
        }
    }

    fn shift_pungs(&self, checker: &mut HandList)
        requires
            self.wf(),
            old(checker).wf(),
        ensures
            final(checker).wf(),
            final(checker)@ == shift_pungs_spec(*self, old(checker)@),
    {
        if checker.get(Hand::AllPungs.to_index()) && self.melds[0].head.is_same_color(
            self.melds[1].head,
        ) && self.melds[1].head.is_same_color(self.melds[2].head)
            && self.melds[2].head.is_same_color(self.melds[3].head)
            && !self.melds[0].head.is_honor() {
            let a = self.melds[0].head;
            let b = self.melds[1].head;
            let d = self.melds[2].head;
            let e = self.melds[3].head;
            let (a1, b1) = if a.to_index() <= b.to_index() {
                (a, b)
            } else {
                (b, a)
            };
            let (b2, d2) = if b1.to_index() <= d.to_index() {
                (b1, d)
            } else {
                (d, b1)
            };
            let (d3, e3) = if d2.to_index() <= e.to_index() {
                (d2, e)
            } else {
                (e, d2)
            };
            let (a4, b4) = if a1.to_index() <= b2.to_index() {
                (a1, b2)
            } else {
                (b2, a1)
            };
            let (b5, d5) = if b4.to_index() <= d3.to_index() {
                (b4, d3)
            } else {
                (d3, b4)
            };
            let (a6, b6) = if a4.to_index() <= b5.to_index() {
                (a4, b5)
            } else {
                (b5, a4)
            };
            if a6.is_ascending(b6) && b6.is_ascending(d5) && d5.is_ascending(e3) {
                checker.set(Hand::FourPureShiftedPungs.to_index(), true);
                return ;
            }
        }
        if shifted_pungs2_exec(&self.melds[0], &self.melds[1]) || shifted_pungs2_exec(
            &self.melds[0],
            &self.melds[2],
        ) || shifted_pungs2_exec(&self.melds[0], &self.melds[3]) || shifted_pungs2_exec(
            &self.melds[1],
            &self.melds[2],
        ) || shifted_pungs2_exec(&self.melds[1], &self.melds[3]) || shifted_pungs2_exec(
            &self.melds[2],
            &self.melds[3],
        ) {
            checker.set(Hand::PureShiftedPungs.to_index(), true);
        }
    }

    /// Classification: runs the ordered rule pipeline over this hand and
    /// returns the bitset of satisfied categories.  The result is never
    /// all-clear: a hand matching no named category carries the reserved
    /// no-point bit.
    pub fn hands(&self) -> (r: HandList)
        requires
            self.wf(),
        ensures
            r.wf(),
            r@ == hands_spec(*self),
            exists|i: int| 0 <= i < HANDVARIANT && r@[i],
    {
        let mut checker = HandList::new();
        self.all_chow_pung(&mut checker);
        self.score_pungs(&mut checker);
        self.honors(&mut checker);
        self.straight_simple_terminal(&mut checker);
        self.pure_mix(&mut checker);
        self.conceal_pungs(&mut checker);
        self.same_chows(&mut checker);
        self.shift_pungs(&mut checker);
        if checker.get(Hand::AllHonors.to_index()) {
            let mut cleared = HandList::new();
            cleared.set(Hand::AllHonors.to_index(), true);
            checker = cleared;
        }
        proof {
            reveal(pipeline_spec);
        }
        if !checker.any() {
            checker.set(Hand::NoPoint.to_index(), true);
        }
        proof {
            if checker@[Hand::NoPoint.index_spec()] {
                assert(0 <= Hand::NoPoint.index_spec() < HANDVARIANT && checker@[Hand::NoPoint.index_spec()]);
            }
        }
        checker
    }
}

// ------------------------------------------------------------------
// Laws of the classification
// ------------------------------------------------------------------

/// No rule group touches the reserved no-point bit: only the final fallback
/// can set it.
#[verifier::rlimit(100)]
proof fn lemma_pipeline_no_point_clear(c: HandChecker)
    ensures
        !pipeline_spec(c)[Hand::NoPoint.index_spec()],
        pipeline_spec(c).len() == HANDVARIANT,
{
    reveal(pipeline_spec);
    let l0 = handlist_empty_spec();
    let l1 = all_chow_pung_spec(c, l0);
    let l2 = score_pungs_spec(c, l1);
    let l3 = honors_spec(c, l2);
    let l4 = straight_simple_terminal_spec(c, l3);
    let l5 = pure_mix_spec(c, l4);
    let l6 = conceal_pungs_spec(c, l5);
    let l7 = same_chows_spec(c, l6);
    let l8 = shift_pungs_spec(c, l7);
    assert(!l0[Hand::NoPoint.index_spec()]);
    assert(!l1[Hand::NoPoint.index_spec()]);
    assert(!l2[Hand::NoPoint.index_spec()]);
    assert(!l3[Hand::NoPoint.index_spec()]);
    assert(!l4[Hand::NoPoint.index_spec()]);
    assert(!l5[Hand::NoPoint.index_spec()]);
    assert(!l6[Hand::NoPoint.index_spec()]);
    assert(!l7[Hand::NoPoint.index_spec()]);
    assert(!l8[Hand::NoPoint.index_spec()]);
    assert(l8.len() == HANDVARIANT);
}

/// Classification totality: some bit is always set, and when the no-point
/// bit is set it is the only one — the fallback fires exactly on hands that
/// matched no named category.
#[verifier::rlimit(100)]
pub proof fn lemma_classify_total(c: HandChecker)
    ensures
        exists|i: int| 0 <= i < HANDVARIANT && hands_spec(c)[i],
        hands_spec(c)[Hand::NoPoint.index_spec()] ==> forall|i: int|
            0 <= i < HANDVARIANT && i != Hand::NoPoint.index_spec() ==> !hands_spec(c)[i],
{
    let l8 = pipeline_spec(c);
    let o = apply_exclusive_override(l8);
    let r = hands_spec(c);
    lemma_pipeline_no_point_clear(c);
    assert(!o[Hand::NoPoint.index_spec()]);
    if forall|i: int| 0 <= i < HANDVARIANT ==> !o[i] {
        assert(r == o.update(Hand::NoPoint.index_spec(), true));
        assert(0 <= Hand::NoPoint.index_spec() < HANDVARIANT && r[Hand::NoPoint.index_spec()]);
    } else {
        let w = choose|i: int| 0 <= i < HANDVARIANT && o[i];
        assert(r == o);
        assert(0 <= w < HANDVARIANT && r[w]);
    }
}

/// Exclusivity override: a hand classified all-honors carries no other bit.
#[verifier::rlimit(100)]
pub proof fn lemma_all_honors_exclusive(c: HandChecker)
    requires
        hands_spec(c)[Hand::AllHonors.index_spec()],
    ensures
        forall|i: int|
            0 <= i < HANDVARIANT && i != Hand::AllHonors.index_spec() ==> !hands_spec(c)[i],
{
    let l8 = pipeline_spec(c);
    let o = apply_exclusive_override(l8);
    let r = hands_spec(c);
    lemma_pipeline_no_point_clear(c);
    if l8[Hand::AllHonors.index_spec()] {
        assert(o == handlist_empty_spec().update(Hand::AllHonors.index_spec(), true));
        assert(o[Hand::AllHonors.index_spec()]);
        assert(r == o);
        assert(forall|i: int|
            0 <= i < HANDVARIANT && i != Hand::AllHonors.index_spec() ==> !r[i]);
    } else {
        assert(!o[Hand::AllHonors.index_spec()]);
        assert(!r[Hand::AllHonors.index_spec()]);
    }
}

} // verus!
