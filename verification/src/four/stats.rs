//! Aggregation interface of the 14-tile family: folds a stream of
//! (classification, weight) pairs into per-category statistics.  The fold is
//! a plain per-bit sum, so merging any distribution of records over workers
//! gives the same totals.

use vstd::prelude::*;
use vstd::pervasive::VecAdditionalExecFns;

use crate::four::hand::HANDVARIANT;
use crate::four::handchecker::{handlist_score_spec, HandList};

verus! {

/// Running totals of one scoring category: how many decompositions set its
/// bit, their summed occurrence weight, and the summed weighted score.
#[derive(Clone, Copy, PartialEq, Eq, Structural, Debug)]
pub struct CategoryStats {
    pub patterns: u64,
    pub occurrences: u64,
    pub total_score: u64,
}

/// One accumulator slot per scoring category, all zero.
pub fn new_stats() -> (r: Vec<CategoryStats>)
    ensures
        r@.len() == HANDVARIANT,
        forall|i: int|
            0 <= i < HANDVARIANT ==> #[trigger] r@[i] == (CategoryStats {
                patterns: 0,
                occurrences: 0,
                total_score: 0,
            }),
{
    let zero = CategoryStats { patterns: 0, occurrences: 0, total_score: 0 };
    let r: Vec<CategoryStats> = vec![zero; HANDVARIANT];
    proof {
        assert forall|i: int| 0 <= i < HANDVARIANT implies #[trigger] r@[i] == zero by {}
    }
    r
}

/// What one (classification, weight) record adds to the accumulator: each
/// category whose bit is set gains one pattern, the record's weight, and the
/// weight times the hand's capped score.
pub open spec fn fold_spec(v: Seq<CategoryStats>, l: Seq<bool>, w: int) -> Seq<CategoryStats> {
    Seq::new(
        v.len(),
        |i: int|
            if 0 <= i < l.len() && l[i] {
                CategoryStats {
                    patterns: (v[i].patterns + 1) as u64,
                    occurrences: (v[i].occurrences + w) as u64,
                    total_score: (v[i].total_score + w * handlist_score_spec(l)) as u64,
                }
            } else {
                v[i]
            },
    )
}

/// Folds one classified decomposition with its occurrence weight into the
/// per-category totals.  The totals must stay within the machine word.
pub fn fold_record(stats: &mut Vec<CategoryStats>, list: &HandList, weight: u64)
    requires
        old(stats)@.len() == HANDVARIANT,
        list.wf(),
        weight * handlist_score_spec(list@) <= u64::MAX,
        forall|i: int|
            0 <= i < HANDVARIANT && list@[i] ==> (#[trigger] old(stats)@[i]).patterns + 1
                <= u64::MAX && old(stats)@[i].occurrences + weight <= u64::MAX
                && old(stats)@[i].total_score + weight * handlist_score_spec(list@) <= u64::MAX,
    ensures
        final(stats)@ == fold_spec(old(stats)@, list@, weight as int),
{
    let score = list.score() as u64;
    proof {
        assert(weight * score <= u64::MAX);
        vstd::arithmetic::mul::lemma_mul_is_commutative(weight as int, score as int);
        vstd::arithmetic::mul::lemma_mul_nonnegative(weight as int, score as int);
    }
    let weighted: u64 = weight * score;
    let ghost orig = stats@;
    let mut i: usize = 0;
    while i < HANDVARIANT
        invariant
            i <= HANDVARIANT,
            stats@.len() == HANDVARIANT,
            orig.len() == HANDVARIANT,
            list.wf(),
            weighted == weight * handlist_score_spec(list@),
            forall|t: int|
                0 <= t < HANDVARIANT && list@[t] ==> (#[trigger] orig[t]).patterns + 1
                    <= u64::MAX && orig[t].occurrences + weight <= u64::MAX
                    && orig[t].total_score + weight * handlist_score_spec(list@) <= u64::MAX,
            forall|t: int|
                0 <= t < i ==> #[trigger] stats@[t] == fold_spec(orig, list@, weight as int)[t],
            forall|t: int| i <= t < HANDVARIANT ==> #[trigger] stats@[t] == orig[t],
        decreases HANDVARIANT - i,
    {
        if list.get(i) {
            let cur = stats[i];
            stats.set(
                i,
                CategoryStats {
                    patterns: cur.patterns + 1,
                    occurrences: cur.occurrences + weight,
                    total_score: cur.total_score + weighted,
                },
            );
            proof {
                assert(stats@[i as int] == fold_spec(orig, list@, weight as int)[i as int]);
            }
        } else {
            proof {
                assert(stats@[i as int] == fold_spec(orig, list@, weight as int)[i as int]);
            }
        }
        i = i + 1;
    }
    proof {
        assert(stats@ =~= fold_spec(orig, list@, weight as int));
    }
}

} // verus!
