//! Reveal alternatives of a concealed decomposition, and the per-hand
//! occurrence weighting that accounts for them.  The full expansion of a
//! decomposition into every revealed/concealed combination is a downstream
//! pass outside this core; the per-meld pieces it is built from live here.

use vstd::prelude::*;

use crate::three::handchecker::HandChecker;
use crate::three::set::{Meld, MeldKind, Pair};

verus! {

/// The other meld shares no tile with a prospective kong of `m`: its head is
/// neither `m`'s head nor one of the two positions a chow from `m`'s head
/// would cover.
pub open spec fn no_dup_spec(m: Meld, o: Meld) -> bool {
    o.head != m.head && o.head.index_spec() != m.head.index_spec() + 1 && o.head.index_spec()
        != m.head.index_spec() + 2
}

pub fn no_dup(m: Meld, o: Meld) -> (r: bool)
    ensures
        r == no_dup_spec(m, o),
{
    let mi = m.head.to_index();
    let oi = o.head.to_index();
    proof {
        if o.head == m.head {
            assert(oi == mi);
        }
        if oi == mi {
            crate::three::tile::lemma_tile_index_injective(o.head, m.head);
        }
    }
    oi != mi && oi != mi + 1 && oi != mi + 2
}

/// A concealed pung may be promoted to a kong only when neither other meld
/// draws on the fourth copy of its tile.
pub open spec fn can_kong_spec(m: Meld, o1: Meld, o2: Meld) -> bool {
    let c1 = if o1.kind == MeldKind::ConcealedChow {
        no_dup_spec(m, o1)
    } else {
        true
    };
    let c2 = if o2.kind == MeldKind::ConcealedChow {
        no_dup_spec(m, o2)
    } else {
        true
    };
    c1 && c2
}

/// Whether the concealed pung `m` can also appear as a kong beside the two
/// other melds of the hand.  The melds come from the decomposition engine,
/// which only emits concealed chows and concealed pungs.
pub fn can_kong(m: Meld, o1: Meld, o2: Meld) -> (r: bool)
    requires
        o1.kind == MeldKind::ConcealedChow || o1.kind == MeldKind::ConcealedPung,
        o2.kind == MeldKind::ConcealedChow || o2.kind == MeldKind::ConcealedPung,
    ensures
        r == can_kong_spec(m, o1, o2),
{
    match (o1.kind(), o2.kind()) {
        (MeldKind::ConcealedChow, MeldKind::ConcealedChow) => no_dup(m, o1) && no_dup(m, o2),
        (MeldKind::ConcealedChow, MeldKind::ConcealedPung) => no_dup(m, o1),
        (MeldKind::ConcealedPung, MeldKind::ConcealedChow) => no_dup(m, o2),
        _ => true,
    }
}

/// The reveal alternatives of one decomposed meld: a concealed chow may be
/// revealed; a concealed pung may be revealed, and promoted to either kong
/// when the fourth copy is free.
pub open spec fn add_reveal_spec(m: Meld, o1: Meld, o2: Meld) -> Seq<Meld> {
    if m.kind == MeldKind::ConcealedChow {
        seq![m, Meld { head: m.head, kind: MeldKind::RevealedChow }]
    } else {
        if can_kong_spec(m, o1, o2) {
            seq![
                m,
                Meld { head: m.head, kind: MeldKind::RevealedPung },
                Meld { head: m.head, kind: MeldKind::ConcealedKong },
                Meld { head: m.head, kind: MeldKind::RevealedKong },
            ]
        } else {
            seq![m, Meld { head: m.head, kind: MeldKind::RevealedPung }]
        }
    }
}

/// The reveal alternatives of `m` beside the two other melds of its hand.
pub fn add_reveal(m: Meld, o1: Meld, o2: Meld) -> (r: Vec<Meld>)
    requires
        m.kind == MeldKind::ConcealedChow || m.kind == MeldKind::ConcealedPung,
        o1.kind == MeldKind::ConcealedChow || o1.kind == MeldKind::ConcealedPung,
        o2.kind == MeldKind::ConcealedChow || o2.kind == MeldKind::ConcealedPung,
    ensures
        r@ == add_reveal_spec(m, o1, o2),
{
    let mut r: Vec<Meld> = Vec::new();
    if m.kind().is_chow() {
        r.push(m);
        r.push(Meld::new(m.head(), MeldKind::RevealedChow));
        proof {
            assert(r@ =~= add_reveal_spec(m, o1, o2));
        }
    } else if can_kong(m, o1, o2) {
        r.push(m);
        r.push(Meld::new(m.head(), MeldKind::RevealedPung));
        r.push(Meld::new(m.head(), MeldKind::ConcealedKong));
        r.push(Meld::new(m.head(), MeldKind::RevealedKong));
        proof {
            assert(r@ =~= add_reveal_spec(m, o1, o2));
        }
    } else {
        r.push(m);
        r.push(Meld::new(m.head(), MeldKind::RevealedPung));
        proof {
            assert(r@ =~= add_reveal_spec(m, o1, o2));
        }
    }
    r
}

/// How many concealed-draw arrangements a pair stands for.
pub open spec fn pair_occurrence_spec(p: Pair) -> int {
    if p.concealed {
        31
    } else {
        1
    }
}

/// How many draw arrangements one meld stands for, by its kind.
pub open spec fn meld_occurrence_spec(k: MeldKind) -> int {
    match k {
        MeldKind::ConcealedChow => 16,
        MeldKind::RevealedChow => 16,
        MeldKind::ConcealedPung => 7,
        MeldKind::RevealedPung => 21,
        MeldKind::ConcealedKong => 1,
        MeldKind::RevealedKong => 3,
    }
}

fn meld_occurrence(k: MeldKind) -> (r: u64)
    ensures
        r == meld_occurrence_spec(k),
        1 <= r <= 21,
{
    match k {
        MeldKind::ConcealedChow => 16,
        MeldKind::RevealedChow => 16,
        MeldKind::ConcealedPung => 7,
        MeldKind::RevealedPung => 21,
        MeldKind::ConcealedKong => 1,
        MeldKind::RevealedKong => 3,
    }
}

/// The occurrence count of a concrete revealed/concealed hand: the record's
/// combinatorial weight times the per-pair and per-meld arrangement factors.
pub open spec fn occurance_spec(c: HandChecker, comb: int) -> int {
    comb * pair_occurrence_spec(c.pair) * meld_occurrence_spec(c.melds@[0].kind)
        * meld_occurrence_spec(c.melds@[1].kind) * meld_occurrence_spec(c.melds@[2].kind)
}

/// The occurrence count of a hand, weighted by the record's combinatorial
/// weight.  The product must fit the machine word.
pub fn occurance(s: &HandChecker, comb: u64) -> (r: u64)
    requires
        s.wf(),
        occurance_spec(*s, comb as int) <= u64::MAX,
    ensures
        r == occurance_spec(*s, comb as int),
{
    let p: u64 = if s.pair.is_concealed() {
        31
    } else {
        1
    };
    let f0 = meld_occurrence(s.melds[0].kind);
    let f1 = meld_occurrence(s.melds[1].kind);
    let f2 = meld_occurrence(s.melds[2].kind);
    proof {
        let c = comb as int;
        let pp = p as int;
        let a = f0 as int;
        let b = f1 as int;
        let d = f2 as int;
        assert(c * pp <= c * pp * a * b * d && c * pp * a <= c * pp * a * b * d && c * pp * a * b
            <= c * pp * a * b * d && 0 <= c * pp && 0 <= c * pp * a && 0 <= c * pp * a * b) by (nonlinear_arith)
            requires
                0 <= c,
                1 <= pp,
                1 <= a,
                1 <= b,
                1 <= d,
        ;
    }
    comb * p * f0 * f1 * f2
}

} // verus!
