//! Decomposition engine of the 14-tile family: from a record of raw tile
//! bytes to the deduplicated set of all valid (pair, melds) assignments,
//! together with the combinatorial occurrence weight of the record.
//!
//! The search sorts the record, branches over the admissible pair positions,
//! then extracts one meld per stage from the shrinking sorted suffix: the
//! leading triple as a pung when its tiles are equal, and the first ascending
//! run drawn from a fixed whitelist of index triples as a chow.  Taking only
//! the first chow per stage is the duplicate-avoidance pruning; distinct
//! branch orders that rediscover one partition are merged by the final
//! canonicalizing deduplication.

use vstd::prelude::*;
use vstd::multiset::Multiset;
use vstd::pervasive::VecAdditionalExecFns;
use vstd::relations::{sorted_by, total_ordering};
use vstd::seq_lib::lemma_sorted_unique;

use crate::four::handchecker::{HandChecker, melds_sorted, sort4_melds};
use crate::four::set::{HandSet, Meld, MeldKind, Pair, SetBuilder, HAINUM, SETNUM};
use crate::four::tile::{Tile, TILEVARIANT, tile_from_byte_spec, tile_of_index_spec, lemma_tile_index_injective};

verus! {

// ------------------------------------------------------------------
// Tile order and sorting
// ------------------------------------------------------------------

/// The total order on tiles, by declaration-order position.
pub open spec fn tile_le(a: Tile, b: Tile) -> bool {
    a.index_spec() <= b.index_spec()
}

/// The tile order as a relation value, for the vstd sorting vocabulary.
pub open spec fn tile_le_fn() -> spec_fn(Tile, Tile) -> bool {
    |a: Tile, b: Tile| tile_le(a, b)
}

pub proof fn lemma_tile_le_total()
    ensures
        total_ordering(tile_le_fn()),
{
    assert forall|a: Tile, b: Tile| #[trigger] tile_le(a, b) && tile_le(b, a) implies a == b by {
        lemma_tile_index_injective(a, b);
    }
}

/// Sorted ascending in the tile order.
pub open spec fn tiles_sorted(s: Seq<Tile>) -> bool {
    forall|p: int, q: int| 0 <= p <= q < s.len() ==> tile_le(s[p], s[q])
}

/// Sorted ascending up to position `n`.
spec fn tiles_sorted_upto(s: Seq<Tile>, n: int) -> bool {
    forall|p: int, q: int| 0 <= p <= q < n && q < s.len() ==> tile_le(s[p], s[q])
}

fn tile_le_exec(a: &Tile, b: &Tile) -> (r: bool)
    ensures
        r == tile_le(*a, *b),
{
    a.to_index() <= b.to_index()
}

/// Sorts the tiles ascending: the canonical arrangement of the hand that the
/// staged search requires.
pub fn sort_tiles(v: &mut Vec<Tile>)
    ensures
        final(v)@ == old(v)@.sort_by(tile_le_fn()),
        tiles_sorted(final(v)@),
        final(v)@.to_multiset() == old(v)@.to_multiset(),
        final(v)@.len() == old(v)@.len(),
{
    let ghost orig = v@;
    proof {
        lemma_tile_le_total();
        orig.lemma_sort_by_ensures(tile_le_fn());
    }
    let mut i: usize = 1;
    while i < v.len()
        invariant
            1 <= i,
            i <= v@.len() || v@.len() <= 1,
            v@.len() == orig.len(),
            v@.to_multiset() == orig.to_multiset(),
            tiles_sorted_upto(v@, i as int),
        decreases v@.len() - i,
    {
        broadcast use vstd::seq_lib::to_multiset_remove, vstd::seq_lib::to_multiset_insert;

        let ghost pre = v@;
        let x = v[i];
        let mut j: usize = 0;
        while j < i && tile_le_exec(&v[j], &x)
            invariant
                j <= i,
                i < v@.len(),
                v@ == pre,
                x == pre[i as int],
                forall|p: int| 0 <= p < j ==> tile_le(v@[p], x),
            decreases i - j,
        {
            j = j + 1;
        }
        let y = v.remove(i);
        v.insert(j, y);
        proof {
            let mid = pre.remove(i as int);
            let post = mid.insert(j as int, x);
            broadcast use vstd::seq_lib::group_to_multiset_ensures;
            broadcast use vstd::multiset::group_multiset_axioms;

            pre.remove_ensures(i as int);
            mid.insert_ensures(j as int, x);
            assert(v@ == post);
            assert(pre.to_multiset().contains(x)) by {
                assert(pre.contains(x));
            }
            assert(post.to_multiset() =~= pre.to_multiset());
            assert forall|p: int, q: int|
                0 <= p <= q < i + 1 && q < post.len() implies tile_le(post[p], post[q]) by {
                if j < i {
                    assert(!tile_le(pre[j as int], x));
                    assert(tile_le(x, pre[j as int]));
                }
                if p < j && q == j {
                    assert(post[p] == pre[p]);
                    assert(tile_le(pre[p], x));
                } else if p == j && q > j {
                    assert(post[q] == pre[q - 1]);
                    assert(tile_le(pre[j as int], pre[q - 1]));
                } else if p < j && q > j {
                    assert(post[p] == pre[p]);
                    assert(post[q] == pre[q - 1]);
                } else if p > j && q > j {
                    assert(post[p] == pre[p - 1]);
                    assert(post[q] == pre[q - 1]);
                }
            }
        }
        i = i + 1;
    }
    proof {
        assert(sorted_by(v@, tile_le_fn())) by {
            assert forall|p: int, q: int|
                0 <= p < q < v@.len() implies tile_le_fn()(v@[p], v@[q]) by {
                assert(tile_le(v@[p], v@[q]));
            }
        }
        assert(sorted_by(orig.sort_by(tile_le_fn()), tile_le_fn()));
        lemma_sorted_unique(v@, orig.sort_by(tile_le_fn()), tile_le_fn());
        assert(v@ =~= orig.sort_by(tile_le_fn()));
    }
}

} // verus!

verus! {

// ------------------------------------------------------------------
// Pair candidates
// ------------------------------------------------------------------

/// Start positions, from `i` on, of adjacent-equal windows of length 2.
pub open spec fn pair_locs_from(s: Seq<Tile>, i: int) -> Seq<usize>
    decreases s.len() - i,
{
    if i < 0 || i + 1 >= s.len() {
        Seq::empty()
    } else if s[i] == s[i + 1] {
        seq![i as usize] + pair_locs_from(s, i + 1)
    } else {
        pair_locs_from(s, i + 1)
    }
}

/// Start positions, from `i` on, of equal runs of length 3.
pub open spec fn triple_locs_from(s: Seq<Tile>, i: int) -> Seq<usize>
    decreases s.len() - i,
{
    if i < 0 || i + 2 >= s.len() {
        Seq::empty()
    } else if s[i] == s[i + 1] && s[i + 1] == s[i + 2] {
        seq![i as usize] + triple_locs_from(s, i + 1)
    } else {
        triple_locs_from(s, i + 1)
    }
}

/// What removing an ordered sublist leaves: walking `main`, each element that
/// matches the next pending element of `sub` is dropped, all others kept.
pub open spec fn remove_subset_spec(main: Seq<usize>, sub: Seq<usize>) -> Seq<usize>
    decreases main.len(),
{
    if main.len() == 0 {
        Seq::empty()
    } else if sub.len() > 0 && main[0] == sub[0] {
        remove_subset_spec(main.drop_first(), sub.drop_first())
    } else {
        seq![main[0]] + remove_subset_spec(main.drop_first(), sub)
    }
}

/// Every element kept by `remove_subset_spec` comes from `main`.
pub proof fn lemma_remove_subset_elements(main: Seq<usize>, sub: Seq<usize>)
    ensures
        forall|k: int|
            0 <= k < remove_subset_spec(main, sub).len() ==> main.contains(
                #[trigger] remove_subset_spec(main, sub)[k],
            ),
    decreases main.len(),
{
    if main.len() > 0 {
        if sub.len() > 0 && main[0] == sub[0] {
            lemma_remove_subset_elements(main.drop_first(), sub.drop_first());
            assert forall|k: int|
                0 <= k < remove_subset_spec(main, sub).len() implies main.contains(
                #[trigger] remove_subset_spec(main, sub)[k],
            ) by {
                assert(remove_subset_spec(main, sub) == remove_subset_spec(
                    main.drop_first(),
                    sub.drop_first(),
                ));
                assert(main.drop_first().contains(remove_subset_spec(
                    main.drop_first(),
                    sub.drop_first(),
                )[k]));
                let w = choose|w: int|
                    0 <= w < main.drop_first().len() && main.drop_first()[w] == remove_subset_spec(
                        main,
                        sub,
                    )[k];
                assert(main[w + 1] == remove_subset_spec(main, sub)[k]);
            }
        } else {
            lemma_remove_subset_elements(main.drop_first(), sub);
            assert forall|k: int|
                0 <= k < remove_subset_spec(main, sub).len() implies main.contains(
                #[trigger] remove_subset_spec(main, sub)[k],
            ) by {
                if k == 0 {
                    assert(main[0] == remove_subset_spec(main, sub)[0]);
                } else {
                    assert(remove_subset_spec(main, sub)[k] == remove_subset_spec(
                        main.drop_first(),
                        sub,
                    )[k - 1]);
                    assert(main.drop_first().contains(remove_subset_spec(main, sub)[k]));
                    let w = choose|w: int|
                        0 <= w < main.drop_first().len() && main.drop_first()[w]
                            == remove_subset_spec(main, sub)[k];
                    assert(main[w + 1] == remove_subset_spec(main, sub)[k]);
                }
            }
        }
    }
}

/// Every pair location marks an adjacent equal window inside the sequence.
pub proof fn lemma_pair_locs_elements(s: Seq<Tile>, i: int)
    requires
        s.len() <= usize::MAX,
    ensures
        forall|k: int|
            0 <= k < pair_locs_from(s, i).len() ==> i <= #[trigger] pair_locs_from(s, i)[k]
                && pair_locs_from(s, i)[k] + 1 < s.len() && s[pair_locs_from(s, i)[k] as int]
                == s[pair_locs_from(s, i)[k] as int + 1],
    decreases s.len() - i,
{
    if i < 0 || i + 1 >= s.len() {
    } else {
        lemma_pair_locs_elements(s, i + 1);
        assert forall|k: int|
            0 <= k < pair_locs_from(s, i).len() implies i <= #[trigger] pair_locs_from(s, i)[k]
            && pair_locs_from(s, i)[k] + 1 < s.len() && s[pair_locs_from(s, i)[k] as int]
            == s[pair_locs_from(s, i)[k] as int + 1] by {
            if s[i] == s[i + 1] {
                assert(pair_locs_from(s, i) == seq![i as usize] + pair_locs_from(s, i + 1));
                if k == 0 {
                    assert(pair_locs_from(s, i)[0] == i as usize);
                } else {
                    assert(pair_locs_from(s, i)[k] == pair_locs_from(s, i + 1)[k - 1]);
                    let p = pair_locs_from(s, i + 1)[k - 1];
                    assert(i + 1 <= p && p + 1 < s.len() && s[p as int] == s[p as int + 1]);
                }
            } else {
                assert(pair_locs_from(s, i) == pair_locs_from(s, i + 1));
                let p = pair_locs_from(s, i + 1)[k];
                assert(i + 1 <= p && p + 1 < s.len() && s[p as int] == s[p as int + 1]);
            }
        }
    }
}

/// Removes the ordered sublist `subset` from `main`, one occurrence per
/// pending element; the pair-candidate scan uses it to drop the pair
/// positions that really start a pung run.
pub fn remove_subset(main: &Vec<usize>, subset: &Vec<usize>) -> (r: Vec<usize>)
    ensures
        r@ == remove_subset_spec(main@, subset@),
{
    let mut r: Vec<usize> = Vec::new();
    let mut i: usize = 0;
    let mut j: usize = 0;
    proof {
        assert(main@.skip(0) =~= main@);
        assert(subset@.skip(0) =~= subset@);
        assert(r@ + remove_subset_spec(main@, subset@) =~= remove_subset_spec(main@, subset@));
    }
    while i < main.len()
        invariant
            i <= main@.len(),
            j <= subset@.len(),
            remove_subset_spec(main@, subset@) == r@ + remove_subset_spec(
                main@.skip(i as int),
                subset@.skip(j as int),
            ),
        decreases main@.len() - i,
    {
        proof {
            assert(main@.skip(i as int).drop_first() =~= main@.skip(i as int + 1));
            assert(main@.skip(i as int)[0] == main@[i as int]);
            if j < subset@.len() {
                assert(subset@.skip(j as int).drop_first() =~= subset@.skip(j as int + 1));
                assert(subset@.skip(j as int)[0] == subset@[j as int]);
            } else {
                assert(subset@.skip(j as int) =~= Seq::<usize>::empty());
            }
        }
        if j < subset.len() && main[i] == subset[j] {
            i = i + 1;
            j = j + 1;
        } else {
            let ghost pre = r@;
            r.push(main[i]);
            proof {
                assert(r@ =~= pre + seq![main@[i as int]]);
                assert(pre + (seq![main@[i as int]] + remove_subset_spec(
                    main@.skip(i as int + 1),
                    subset@.skip(j as int),
                )) =~= (pre + seq![main@[i as int]]) + remove_subset_spec(
                    main@.skip(i as int + 1),
                    subset@.skip(j as int),
                ));
            }
            i = i + 1;
        }
    }
    proof {
        assert(main@.skip(i as int) =~= Seq::<usize>::empty());
        assert(r@ + Seq::<usize>::empty() =~= r@);
    }
    r
}

// ------------------------------------------------------------------
// Removing consumed positions
// ------------------------------------------------------------------

/// The sequence without the two adjacent positions `i`, `i + 1`.
pub open spec fn remove2_spec(s: Seq<Tile>, i: int) -> Seq<Tile> {
    s.subrange(0, i) + s.subrange(i + 2, s.len() as int)
}

/// The sequence without positions `i < j < k`.
pub open spec fn remove3_spec(s: Seq<Tile>, i: int, j: int, k: int) -> Seq<Tile> {
    s.subrange(0, i) + s.subrange(i + 1, j) + s.subrange(j + 1, k) + s.subrange(
        k + 1,
        s.len() as int,
    )
}

/// Copies the sequence, skipping the two adjacent positions `i`, `i + 1`.
fn remove2(set: &Vec<Tile>, i: usize) -> (r: Vec<Tile>)
    requires
        i + 1 < set@.len(),
    ensures
        r@ == remove2_spec(set@, i as int),
{
    let n = set.len();
    let mut r: Vec<Tile> = Vec::new();
    let mut p: usize = 0;
    while p < i
        invariant
            p <= i,
            i + 1 < set@.len(),
            set@.len() == n,
            r@ == set@.subrange(0, p as int),
        decreases i - p,
    {
        let ghost pre = r@;
        r.push(set[p]);
        proof {
            assert(r@ =~= set@.subrange(0, p as int + 1));
        }
        p = p + 1;
    }
    let mut q: usize = i + 2;
    while q < set.len()
        invariant
            i + 2 <= q <= set@.len(),
            r@ == set@.subrange(0, i as int) + set@.subrange(i as int + 2, q as int),
        decreases set@.len() - q,
    {
        r.push(set[q]);
        proof {
            assert(r@ =~= set@.subrange(0, i as int) + set@.subrange(i as int + 2, q as int + 1));
        }
        q = q + 1;
    }
    r
}

/// Copies the sequence, skipping positions `i < j < k`.
fn remove3(set: &Vec<Tile>, i: usize, j: usize, k: usize) -> (r: Vec<Tile>)
    requires
        i < j < k < set@.len(),
    ensures
        r@ == remove3_spec(set@, i as int, j as int, k as int),
{
    let n = set.len();
    let mut r: Vec<Tile> = Vec::new();
    let mut p: usize = 0;
    while p < i
        invariant
            p <= i,
            i < j < k < set@.len(),
            set@.len() == n,
            r@ == set@.subrange(0, p as int),
        decreases i - p,
    {
        r.push(set[p]);
        proof {
            assert(r@ =~= set@.subrange(0, p as int + 1));
        }
        p = p + 1;
    }
    let mut q: usize = i + 1;
    while q < j
        invariant
            i + 1 <= q <= j,
            i < j < k < set@.len(),
            r@ == set@.subrange(0, i as int) + set@.subrange(i as int + 1, q as int),
        decreases j - q,
    {
        r.push(set[q]);
        proof {
            assert(r@ =~= set@.subrange(0, i as int) + set@.subrange(i as int + 1, q as int + 1));
        }
        q = q + 1;
    }
    let mut w: usize = j + 1;
    while w < k
        invariant
            j + 1 <= w <= k,
            i < j < k < set@.len(),
            r@ == set@.subrange(0, i as int) + set@.subrange(i as int + 1, j as int)
                + set@.subrange(j as int + 1, w as int),
        decreases k - w,
    {
        r.push(set[w]);
        proof {
            assert(r@ =~= set@.subrange(0, i as int) + set@.subrange(i as int + 1, j as int)
                + set@.subrange(j as int + 1, w as int + 1));
        }
        w = w + 1;
    }
    let mut z: usize = k + 1;
    while z < set.len()
        invariant
            k + 1 <= z <= set@.len(),
            i < j < k < set@.len(),
            r@ == set@.subrange(0, i as int) + set@.subrange(i as int + 1, j as int)
                + set@.subrange(j as int + 1, k as int) + set@.subrange(k as int + 1, z as int),
        decreases set@.len() - z,
    {
        r.push(set[z]);
        proof {
            assert(r@ =~= set@.subrange(0, i as int) + set@.subrange(i as int + 1, j as int)
                + set@.subrange(j as int + 1, k as int) + set@.subrange(k as int + 1, z as int + 1));
        }
        z = z + 1;
    }
    r
}

/// Removing two adjacent positions takes exactly those two tiles out of the
/// multiset.
pub proof fn lemma_remove2_multiset(s: Seq<Tile>, i: int)
    requires
        0 <= i,
        i + 1 < s.len(),
    ensures
        remove2_spec(s, i).to_multiset().insert(s[i]).insert(s[i + 1]) == s.to_multiset(),
        remove2_spec(s, i).len() == s.len() - 2,
{
    broadcast use vstd::seq_lib::group_to_multiset_ensures;
    broadcast use vstd::multiset::group_multiset_axioms;

    let r = remove2_spec(s, i);
    assert(s.remove(i).remove(i) =~= r);
    s.to_multiset_ensures();
    s.remove(i).to_multiset_ensures();
    assert(s.remove(i).to_multiset() == s.to_multiset().remove(s[i]));
    assert(s.remove(i)[i] == s[i + 1]);
    assert(r.to_multiset() == s.to_multiset().remove(s[i]).remove(s[i + 1]));
    assert(s.to_multiset().contains(s[i])) by {
        assert(s.contains(s[i]));
    }
    assert(s.remove(i).to_multiset().contains(s[i + 1])) by {
        assert(s.remove(i).contains(s[i + 1]));
    }
    assert(r.to_multiset().insert(s[i + 1]) =~= s.to_multiset().remove(s[i]));
    assert(r.to_multiset().insert(s[i + 1]).insert(s[i]) =~= s.to_multiset());
    assert(r.to_multiset().insert(s[i]).insert(s[i + 1]) =~= r.to_multiset().insert(
        s[i + 1],
    ).insert(s[i]));
}

/// Removing three positions takes exactly those three tiles out of the
/// multiset.
pub proof fn lemma_remove3_multiset(s: Seq<Tile>, i: int, j: int, k: int)
    requires
        0 <= i < j < k < s.len(),
    ensures
        remove3_spec(s, i, j, k).to_multiset().insert(s[i]).insert(s[j]).insert(s[k])
            == s.to_multiset(),
        remove3_spec(s, i, j, k).len() == s.len() - 3,
    decreases s.len(),
{
    broadcast use vstd::seq_lib::group_to_multiset_ensures;
    broadcast use vstd::multiset::group_multiset_axioms;

    let r = remove3_spec(s, i, j, k);
    assert(s.remove(k).remove(j).remove(i) =~= r);
    s.to_multiset_ensures();
    s.remove(k).to_multiset_ensures();
    s.remove(k).remove(j).to_multiset_ensures();
    assert(s.remove(k)[j] == s[j]);
    assert(s.remove(k).remove(j)[i] == s[i]);
    assert(r.to_multiset() == s.to_multiset().remove(s[k]).remove(s[j]).remove(s[i]));
    assert(s.to_multiset().contains(s[k])) by {
        assert(s.contains(s[k]));
    }
    assert(s.remove(k).to_multiset().contains(s[j])) by {
        assert(s.remove(k).contains(s[j]));
    }
    assert(s.remove(k).remove(j).to_multiset().contains(s[i])) by {
        assert(s.remove(k).remove(j).contains(s[i]));
    }
    assert(r.to_multiset().insert(s[i]) =~= s.to_multiset().remove(s[k]).remove(s[j]));
    assert(r.to_multiset().insert(s[i]).insert(s[j]) =~= s.to_multiset().remove(s[k]));
    assert(r.to_multiset().insert(s[i]).insert(s[j]).insert(s[k]) =~= s.to_multiset());
}

} // verus!

verus! {

// ------------------------------------------------------------------
// Meld shapes
// ------------------------------------------------------------------

/// Positions `i < j < k` hold three consecutive ranks of one suit.
pub open spec fn chow_at(s: Seq<Tile>, i: int, j: int, k: int) -> bool {
    s[i].is_ascending_spec(s[j]) && s[j].is_ascending_spec(s[k])
}

/// Three tiles forming an ascending run of consecutive ranks in one suit.
pub fn is_chow(meld: &Vec<Tile>) -> (r: bool)
    ensures
        r == (meld@.len() == 3 && chow_at(meld@, 0, 1, 2)),
{
    if meld.len() == 3 {
        meld[0].is_ascending(meld[1]) && meld[1].is_ascending(meld[2])
    } else {
        false
    }
}

/// Three identical tiles.
pub fn is_pung(meld: &Vec<Tile>) -> (r: bool)
    ensures
        r == (meld@.len() == 3 && meld@[0] == meld@[1] && meld@[1] == meld@[2]),
{
    if meld.len() == 3 {
        meld[0] == meld[1] && meld[1] == meld[2]
    } else {
        false
    }
}

fn chow_at_exec(set: &Vec<Tile>, i: usize, j: usize, k: usize) -> (r: bool)
    requires
        i < j < k < set@.len(),
    ensures
        r == chow_at(set@, i as int, j as int, k as int),
{
    set[i].is_ascending(set[j]) && set[j].is_ascending(set[k])
}

// ------------------------------------------------------------------
// Branch mirrors
// ------------------------------------------------------------------

/// A live branch of the search: the builder state (assigned pair and melds so
/// far) plus the remaining sorted tiles.
pub open spec fn branches_match(
    r: Seq<(SetBuilder, Vec<Tile>)>,
    v: Seq<(Option<Pair>, Seq<Meld>, Seq<Tile>)>,
) -> bool {
    r.len() == v.len() && forall|i: int|
        0 <= i < r.len() ==> (#[trigger] r[i]).0.pair == v[i].0 && r[i].0.melds@ == v[i].1
            && r[i].1@ == v[i].2
}

/// Positions of the admissible pair candidates: adjacent-equal windows that
/// do not start a length-3 equal run.
pub open spec fn pair_candidates(s: Seq<Tile>) -> Seq<usize> {
    remove_subset_spec(pair_locs_from(s, 0), triple_locs_from(s, 0))
}

/// The pair stage: one branch per admissible candidate, the two pair tiles
/// removed from the remains.
pub open spec fn get_pairs_spec(s: Seq<Tile>) -> Seq<(Option<Pair>, Seq<Meld>, Seq<Tile>)> {
    Seq::new(
        pair_candidates(s).len(),
        |k: int|
            (
                Some(Pair { head: s[pair_candidates(s)[k] as int], concealed: true }),
                Seq::<Meld>::empty(),
                remove2_spec(s, pair_candidates(s)[k] as int),
            ),
    )
}

/// First valid chow among the whitelist of index triples for a 12-tile
/// suffix: the index patterns an ascending run can occupy in a sorted
/// sub-array with up to four copies per kind, lexicographically-first first.
pub open spec fn chow_pick12(s: Seq<Tile>) -> Option<(int, int, int)> {
    if chow_at(s, 0, 1, 2) {
        Some((0int, 1int, 2int))
    } else if chow_at(s, 0, 1, 3) {
        Some((0int, 1int, 3int))
    } else if chow_at(s, 0, 1, 4) {
        Some((0int, 1int, 4int))
    } else if chow_at(s, 0, 1, 5) {
        Some((0int, 1int, 5int))
    } else if chow_at(s, 0, 2, 4) {
        Some((0int, 2int, 4int))
    } else if chow_at(s, 0, 2, 5) {
        Some((0int, 2int, 5int))
    } else if chow_at(s, 0, 2, 6) {
        Some((0int, 2int, 6int))
    } else if chow_at(s, 0, 3, 6) {
        Some((0int, 3int, 6int))
    } else if chow_at(s, 0, 3, 7) {
        Some((0int, 3int, 7int))
    } else if chow_at(s, 0, 4, 8) {
        Some((0int, 4int, 8int))
    } else {
        None
    }
}

/// First valid chow among the whitelist of index triples for a 9-tile
/// suffix.
pub open spec fn chow_pick9(s: Seq<Tile>) -> Option<(int, int, int)> {
    if chow_at(s, 0, 1, 2) {
        Some((0int, 1int, 2int))
    } else if chow_at(s, 0, 1, 3) {
        Some((0int, 1int, 3int))
    } else if chow_at(s, 0, 1, 4) {
        Some((0int, 1int, 4int))
    } else if chow_at(s, 0, 2, 4) {
        Some((0int, 2int, 4int))
    } else if chow_at(s, 0, 2, 5) {
        Some((0int, 2int, 5int))
    } else if chow_at(s, 0, 3, 6) {
        Some((0int, 3int, 6int))
    } else {
        None
    }
}

/// First valid chow among the whitelist of index triples for a 6-tile
/// suffix.
pub open spec fn chow_pick6(s: Seq<Tile>) -> Option<(int, int, int)> {
    if chow_at(s, 0, 1, 2) {
        Some((0int, 1int, 2int))
    } else if chow_at(s, 0, 1, 3) {
        Some((0int, 1int, 3int))
    } else if chow_at(s, 0, 2, 4) {
        Some((0int, 2int, 4int))
    } else {
        None
    }
}

/// One meld-extraction stage: a concealed-pung branch when the leading
/// triple is equal, and a concealed-chow branch at the first whitelisted
/// ascending run; zero, one or two branches result.
pub open spec fn meld_branches(
    pair: Option<Pair>,
    ms: Seq<Meld>,
    s: Seq<Tile>,
    pick: Option<(int, int, int)>,
) -> Seq<(Option<Pair>, Seq<Meld>, Seq<Tile>)> {
    let pung_part: Seq<(Option<Pair>, Seq<Meld>, Seq<Tile>)> = if s.len() >= 3 && s[0] == s[1]
        && s[1] == s[2] {
        seq![
            (
                pair,
                ms.push(Meld { head: s[0], kind: MeldKind::ConcealedPung }),
                s.subrange(3, s.len() as int),
            ),
        ]
    } else {
        Seq::empty()
    };
    let chow_part: Seq<(Option<Pair>, Seq<Meld>, Seq<Tile>)> = match pick {
        Some((i, j, k)) => seq![
            (
                pair,
                ms.push(Meld { head: s[i], kind: MeldKind::ConcealedChow }),
                remove3_spec(s, i, j, k),
            ),
        ],
        None => Seq::empty(),
    };
    pung_part + chow_part
}

pub open spec fn get_first_melds_spec(pair: Option<Pair>, ms: Seq<Meld>, s: Seq<Tile>) -> Seq<
    (Option<Pair>, Seq<Meld>, Seq<Tile>),
> {
    meld_branches(pair, ms, s, chow_pick12(s))
}

pub open spec fn get_second_melds_spec(pair: Option<Pair>, ms: Seq<Meld>, s: Seq<Tile>) -> Seq<
    (Option<Pair>, Seq<Meld>, Seq<Tile>),
> {
    meld_branches(pair, ms, s, chow_pick9(s))
}

pub open spec fn get_third_melds_spec(pair: Option<Pair>, ms: Seq<Meld>, s: Seq<Tile>) -> Seq<
    (Option<Pair>, Seq<Meld>, Seq<Tile>),
> {
    meld_branches(pair, ms, s, chow_pick6(s))
}

/// The terminal stage on exactly three tiles: a chow or a pung finalizes the
/// branch into a classifiable hand with the fixed ambient wind; anything
/// else is a dead end.
pub open spec fn get_last_melds_spec(pair: Option<Pair>, ms: Seq<Meld>, s: Seq<Tile>) -> Option<
    (Pair, Seq<Meld>, Tile),
> {
    let chow = chow_at(s, 0, 1, 2);
    let pung = s[0] == s[1] && s[1] == s[2];
    if chow || pung {
        let m = if chow {
            Meld { head: s[0], kind: MeldKind::ConcealedChow }
        } else {
            Meld { head: s[0], kind: MeldKind::ConcealedPung }
        };
        if ms.len() == 3 && pair is Some {
            Some((pair.unwrap(), ms.push(m), Tile::East))
        } else {
            None
        }
    } else {
        None
    }
}

} // verus!

verus! {

// ------------------------------------------------------------------
// Stage execution
// ------------------------------------------------------------------

/// The pair stage: scans the sorted hand for adjacent-equal windows, drops
/// those that start a length-3 run, and spawns one branch per surviving
/// candidate with the two pair tiles removed.
pub fn get_pairs(set: &Vec<Tile>) -> (r: Vec<(SetBuilder, Vec<Tile>)>)
    requires
        set@.len() == HAINUM,
    ensures
        branches_match(r@, get_pairs_spec(set@)),
{
    let n = set.len();
    let mut pair_loc: Vec<usize> = Vec::new();
    let mut i: usize = 0;
    proof {
        assert(pair_loc@ + pair_locs_from(set@, 0) =~= pair_locs_from(set@, 0));
    }
    while i + 1 < n
        invariant
            i <= set@.len(),
            set@.len() == n,
            n == HAINUM,
            pair_locs_from(set@, 0) == pair_loc@ + pair_locs_from(set@, i as int),
        decreases set@.len() - i,
    {
        if set[i] == set[i + 1] {
            let ghost pre = pair_loc@;
            pair_loc.push(i);
            proof {
                assert(pair_locs_from(set@, i as int) == seq![i as usize] + pair_locs_from(
                    set@,
                    i as int + 1,
                ));
                assert(pre + (seq![i as usize] + pair_locs_from(set@, i as int + 1)) =~= (pre
                    + seq![i as usize]) + pair_locs_from(set@, i as int + 1));
                assert(pair_loc@ =~= pre + seq![i as usize]);
            }
        }
        i = i + 1;
    }
    proof {
        assert(pair_locs_from(set@, i as int) =~= Seq::<usize>::empty());
        assert(pair_loc@ + Seq::<usize>::empty() =~= pair_loc@);
        assert(pair_loc@ == pair_locs_from(set@, 0));
    }
    let mut dup_loc: Vec<usize> = Vec::new();
    let mut d: usize = 0;
    proof {
        assert(dup_loc@ + triple_locs_from(set@, 0) =~= triple_locs_from(set@, 0));
    }
    while d + 2 < n
        invariant
            d <= set@.len(),
            set@.len() == n,
            n == HAINUM,
            triple_locs_from(set@, 0) == dup_loc@ + triple_locs_from(set@, d as int),
        decreases set@.len() - d,
    {
        if set[d] == set[d + 1] && set[d + 1] == set[d + 2] {
            let ghost pre = dup_loc@;
            dup_loc.push(d);
            proof {
                assert(triple_locs_from(set@, d as int) == seq![d as usize] + triple_locs_from(
                    set@,
                    d as int + 1,
                ));
                assert(pre + (seq![d as usize] + triple_locs_from(set@, d as int + 1)) =~= (pre
                    + seq![d as usize]) + triple_locs_from(set@, d as int + 1));
                assert(dup_loc@ =~= pre + seq![d as usize]);
            }
        }
        d = d + 1;
    }
    proof {
        assert(triple_locs_from(set@, d as int) =~= Seq::<usize>::empty());
        assert(dup_loc@ + Seq::<usize>::empty() =~= dup_loc@);
        assert(dup_loc@ == triple_locs_from(set@, 0));
    }
    let pair_indexes = remove_subset(&pair_loc, &dup_loc);
    proof {
        assert(pair_indexes@ == pair_candidates(set@));
        lemma_remove_subset_elements(pair_loc@, dup_loc@);
        lemma_pair_locs_elements(set@, 0);
    }
    let mut result: Vec<(SetBuilder, Vec<Tile>)> = Vec::new();
    let mut k: usize = 0;
    while k < pair_indexes.len()
        invariant
            k <= pair_indexes@.len(),
            set@.len() == HAINUM,
            pair_indexes@ == pair_candidates(set@),
            forall|t: int|
                0 <= t < pair_indexes@.len() ==> pair_locs_from(set@, 0).contains(
                    #[trigger] pair_indexes@[t],
                ),
            forall|t: int|
                0 <= t < pair_locs_from(set@, 0).len() ==> 0 <= #[trigger] pair_locs_from(
                    set@,
                    0,
                )[t] && pair_locs_from(set@, 0)[t] + 1 < set@.len() && set@[pair_locs_from(
                    set@,
                    0,
                )[t] as int] == set@[pair_locs_from(set@, 0)[t] as int + 1],
            result@.len() == k,
            forall|t: int|
                0 <= t < k ==> (#[trigger] result@[t]).0.pair == get_pairs_spec(set@)[t].0
                    && result@[t].0.melds@ == get_pairs_spec(set@)[t].1 && result@[t].1@
                    == get_pairs_spec(set@)[t].2,
        decreases pair_indexes@.len() - k,
    {
        let pi = pair_indexes[k];
        proof {
            assert(pair_locs_from(set@, 0).contains(pair_indexes@[k as int]));
            let w = choose|w: int|
                0 <= w < pair_locs_from(set@, 0).len() && pair_locs_from(set@, 0)[w]
                    == pair_indexes@[k as int];
            assert(pi + 1 < set@.len() && set@[pi as int] == set@[pi as int + 1]);
        }
        let sb = SetBuilder::new().add_pair(Pair::new(set[pi], true));
        let remains = remove2(set, pi);
        result.push((sb, remains));
        proof {
            assert(result@[k as int].0.pair == get_pairs_spec(set@)[k as int].0);
            assert(result@[k as int].0.melds@ =~= get_pairs_spec(set@)[k as int].1);
            assert(result@[k as int].1@ == get_pairs_spec(set@)[k as int].2);
        }
        k = k + 1;
    }
    result
}

/// The first meld stage, on the 12-tile suffix left by the pair stage.
pub fn get_first_melds(set: &Vec<Tile>, sb: &SetBuilder) -> (r: Vec<(SetBuilder, Vec<Tile>)>)
    requires
        set@.len() == 12,
        sb.melds@.len() < SETNUM,
    ensures
        branches_match(r@, get_first_melds_spec(sb.pair, sb.melds@, set@)),
{
    let mut result: Vec<(SetBuilder, Vec<Tile>)> = Vec::new();
    if set[0] == set[1] && set[1] == set[2] {
        let new_meld = Meld::new(set[0], MeldKind::ConcealedPung);
        let new_sb = sb.clone().add_meld(new_meld).unwrap();
        let remains = remove3(set, 0, 1, 2);
        proof {
            assert(remains@ =~= set@.subrange(3, set@.len() as int));
        }
        result.push((new_sb, remains));
    }
    let pick: Option<(usize, usize, usize)> = if chow_at_exec(set, 0, 1, 2) {
        Some((0, 1, 2))
    } else if chow_at_exec(set, 0, 1, 3) {
        Some((0, 1, 3))
    } else if chow_at_exec(set, 0, 1, 4) {
        Some((0, 1, 4))
    } else if chow_at_exec(set, 0, 1, 5) {
        Some((0, 1, 5))
    } else if chow_at_exec(set, 0, 2, 4) {
        Some((0, 2, 4))
    } else if chow_at_exec(set, 0, 2, 5) {
        Some((0, 2, 5))
    } else if chow_at_exec(set, 0, 2, 6) {
        Some((0, 2, 6))
    } else if chow_at_exec(set, 0, 3, 6) {
        Some((0, 3, 6))
    } else if chow_at_exec(set, 0, 3, 7) {
        Some((0, 3, 7))
    } else if chow_at_exec(set, 0, 4, 8) {
        Some((0, 4, 8))
    } else {
        None
    };
    match pick {
        Some((ci, cj, ck)) => {
            let new_meld = Meld::new(set[ci], MeldKind::ConcealedChow);
            let new_sb = sb.clone().add_meld(new_meld).unwrap();
            let remains = remove3(set, ci, cj, ck);
            result.push((new_sb, remains));
        },
        None => {},
    }
    result
}

/// The second meld stage, on the remaining 9-tile suffix.
pub fn get_second_melds(set: &Vec<Tile>, sb: &SetBuilder) -> (r: Vec<(SetBuilder, Vec<Tile>)>)
    requires
        set@.len() == 9,
        sb.melds@.len() < SETNUM,
    ensures
        branches_match(r@, get_second_melds_spec(sb.pair, sb.melds@, set@)),
{
    let mut result: Vec<(SetBuilder, Vec<Tile>)> = Vec::new();
    if set[0] == set[1] && set[1] == set[2] {
        let new_meld = Meld::new(set[0], MeldKind::ConcealedPung);
        let new_sb = sb.clone().add_meld(new_meld).unwrap();
        let remains = remove3(set, 0, 1, 2);
        proof {
            assert(remains@ =~= set@.subrange(3, set@.len() as int));
        }
        result.push((new_sb, remains));
    }
    let pick: Option<(usize, usize, usize)> = if chow_at_exec(set, 0, 1, 2) {
        Some((0, 1, 2))
    } else if chow_at_exec(set, 0, 1, 3) {
        Some((0, 1, 3))
    } else if chow_at_exec(set, 0, 1, 4) {
        Some((0, 1, 4))
    } else if chow_at_exec(set, 0, 2, 4) {
        Some((0, 2, 4))
    } else if chow_at_exec(set, 0, 2, 5) {
        Some((0, 2, 5))
    } else if chow_at_exec(set, 0, 3, 6) {
        Some((0, 3, 6))
    } else {
        None
    };
    match pick {
        Some((ci, cj, ck)) => {
            let new_meld = Meld::new(set[ci], MeldKind::ConcealedChow);
            let new_sb = sb.clone().add_meld(new_meld).unwrap();
            let remains = remove3(set, ci, cj, ck);
            result.push((new_sb, remains));
        },
        None => {},
    }
    result
}

/// The third meld stage, on the remaining 6-tile suffix.
pub fn get_third_melds(set: &Vec<Tile>, sb: &SetBuilder) -> (r: Vec<(SetBuilder, Vec<Tile>)>)
    requires
        set@.len() == 6,
        sb.melds@.len() < SETNUM,
    ensures
        branches_match(r@, get_third_melds_spec(sb.pair, sb.melds@, set@)),
{
    let mut result: Vec<(SetBuilder, Vec<Tile>)> = Vec::new();
    if set[0] == set[1] && set[1] == set[2] {
        let new_meld = Meld::new(set[0], MeldKind::ConcealedPung);
        let new_sb = sb.clone().add_meld(new_meld).unwrap();
        let remains = remove3(set, 0, 1, 2);
        proof {
            assert(remains@ =~= set@.subrange(3, set@.len() as int));
        }
        result.push((new_sb, remains));
    }
    let pick: Option<(usize, usize, usize)> = if chow_at_exec(set, 0, 1, 2) {
        Some((0, 1, 2))
    } else if chow_at_exec(set, 0, 1, 3) {
        Some((0, 1, 3))
    } else if chow_at_exec(set, 0, 2, 4) {
        Some((0, 2, 4))
    } else {
        None
    };
    match pick {
        Some((ci, cj, ck)) => {
            let new_meld = Meld::new(set[ci], MeldKind::ConcealedChow);
            let new_sb = sb.clone().add_meld(new_meld).unwrap();
            let remains = remove3(set, ci, cj, ck);
            result.push((new_sb, remains));
        },
        None => {},
    }
    result
}

/// The terminal stage: tries the remaining three tiles as a chow, then as a
/// pung, and finalizes the builder into a classifiable hand with the fixed
/// ambient seat wind; a branch whose last triple is neither shape is
/// discarded.
pub fn get_last_melds(set: &Vec<Tile>, sb: SetBuilder) -> (r: Option<HandChecker>)
    requires
        set@.len() == 3,
    ensures
        match get_last_melds_spec(sb.pair, sb.melds@, set@) {
            Some(v) => r matches Some(c) && c.pair == v.0 && c.melds@ == v.1 && c.wind == v.2,
            None => r is None,
        },
{
    let chow = is_chow(set);
    let pung = is_pung(set);
    if chow || pung {
        let new_meld = if chow {
            Meld::new(set[0], MeldKind::ConcealedChow)
        } else {
            Meld::new(set[0], MeldKind::ConcealedPung)
        };
        match sb.add_meld(new_meld) {
            Err(_) => None,
            Ok(b) => match b.build() {
                Err(_) => None,
                Ok(s2) => Some(s2.to_handchecker(Tile::East)),
            },
        }
    } else {
        None
    }
}

} // verus!

verus! {

// ------------------------------------------------------------------
// Whole-search mirror
// ------------------------------------------------------------------

/// Every byte of the record lies inside the tile alphabet.
pub open spec fn raw_all_valid(raw: Seq<u8>) -> bool {
    forall|i: int| 0 <= i < raw.len() ==> tile_from_byte_spec(#[trigger] raw[i]) is Some
}

/// The tiles a valid record decodes to, in record order.
pub open spec fn decode_seq(raw: Seq<u8>) -> Seq<Tile> {
    Seq::new(raw.len(), |i: int| tile_from_byte_spec(raw[i]).unwrap())
}

/// The first meld stage applied to every live branch, in branch order.
pub open spec fn first_stage_all(bs: Seq<(Option<Pair>, Seq<Meld>, Seq<Tile>)>) -> Seq<
    (Option<Pair>, Seq<Meld>, Seq<Tile>),
>
    decreases bs.len(),
{
    if bs.len() == 0 {
        Seq::empty()
    } else {
        get_first_melds_spec(bs[0].0, bs[0].1, bs[0].2) + first_stage_all(bs.drop_first())
    }
}

/// The second meld stage applied to every live branch, in branch order.
pub open spec fn second_stage_all(bs: Seq<(Option<Pair>, Seq<Meld>, Seq<Tile>)>) -> Seq<
    (Option<Pair>, Seq<Meld>, Seq<Tile>),
>
    decreases bs.len(),
{
    if bs.len() == 0 {
        Seq::empty()
    } else {
        get_second_melds_spec(bs[0].0, bs[0].1, bs[0].2) + second_stage_all(bs.drop_first())
    }
}

/// The third meld stage applied to every live branch, in branch order.
pub open spec fn third_stage_all(bs: Seq<(Option<Pair>, Seq<Meld>, Seq<Tile>)>) -> Seq<
    (Option<Pair>, Seq<Meld>, Seq<Tile>),
>
    decreases bs.len(),
{
    if bs.len() == 0 {
        Seq::empty()
    } else {
        get_third_melds_spec(bs[0].0, bs[0].1, bs[0].2) + third_stage_all(bs.drop_first())
    }
}

/// The terminal stage applied to every live branch: finalized hands with
/// canonically ordered melds, dead ends dropped.
pub open spec fn last_stage_all(bs: Seq<(Option<Pair>, Seq<Meld>, Seq<Tile>)>) -> Seq<
    (Pair, Seq<Meld>, Tile),
>
    decreases bs.len(),
{
    if bs.len() == 0 {
        Seq::empty()
    } else {
        match get_last_melds_spec(bs[0].0, bs[0].1, bs[0].2) {
            Some(v) => seq![(v.0, sort4_melds(v.1), v.2)] + last_stage_all(bs.drop_first()),
            None => last_stage_all(bs.drop_first()),
        }
    }
}

/// First-occurrence deduplication: each finalized hand is kept once.
pub open spec fn dedup_from(
    s: Seq<(Pair, Seq<Meld>, Tile)>,
    acc: Seq<(Pair, Seq<Meld>, Tile)>,
) -> Seq<(Pair, Seq<Meld>, Tile)>
    decreases s.len(),
{
    if s.len() == 0 {
        acc
    } else if acc.contains(s[0]) {
        dedup_from(s.drop_first(), acc)
    } else {
        dedup_from(s.drop_first(), acc.push(s[0]))
    }
}

/// Everything `allsets` returns for a valid record, in order: sort, branch
/// over pairs, extract melds stage by stage, finalize, deduplicate.
/// Everything the search finds for a sorted hand, deduplicated.
pub open spec fn decompose_spec(tiles: Seq<Tile>) -> Seq<(Pair, Seq<Meld>, Tile)> {
    dedup_from(
        last_stage_all(third_stage_all(second_stage_all(first_stage_all(get_pairs_spec(tiles))))),
        Seq::empty(),
    )
}

pub open spec fn allsets_spec(raw: Seq<u8>) -> Seq<(Pair, Seq<Meld>, Tile)> {
    decompose_spec(decode_seq(raw).sort_by(tile_le_fn()))
}

/// The finalized hands correspond to the returned checkers, field by field.
pub open spec fn checkers_match(cs: Seq<HandChecker>, vs: Seq<(Pair, Seq<Meld>, Tile)>) -> bool {
    cs.len() == vs.len() && forall|i: int|
        0 <= i < cs.len() ==> (#[trigger] cs[i]).pair == vs[i].0 && cs[i].melds@ == vs[i].1
            && cs[i].wind == vs[i].2
}

// ------------------------------------------------------------------
// Flattening a decomposition back to tiles
// ------------------------------------------------------------------

/// The tile multiset a meld stands for: three consecutive ranks for a chow,
/// three copies of the head for a pung, four for a kong.
pub open spec fn meld_tiles(m: Meld) -> Multiset<Tile> {
    if m.kind.is_chow_spec() {
        Multiset::empty().insert(m.head).insert(tile_of_index_spec(m.head.index_spec() + 1)).insert(
            tile_of_index_spec(m.head.index_spec() + 2),
        )
    } else if m.kind.is_kong_spec() {
        Multiset::empty().insert(m.head).insert(m.head).insert(m.head).insert(m.head)
    } else {
        Multiset::empty().insert(m.head).insert(m.head).insert(m.head)
    }
}

/// The tiles of a meld sequence, flattened.
pub open spec fn melds_tiles(ms: Seq<Meld>) -> Multiset<Tile>
    decreases ms.len(),
{
    if ms.len() == 0 {
        Multiset::empty()
    } else {
        melds_tiles(ms.drop_last()).add(meld_tiles(ms.last()))
    }
}

/// The tiles a live branch accounts for: the pair (when assigned), the melds
/// extracted so far, and the remains.
pub open spec fn branch_tiles(b: (Option<Pair>, Seq<Meld>, Seq<Tile>)) -> Multiset<Tile> {
    let pair_part: Multiset<Tile> = match b.0 {
        Some(p) => Multiset::empty().insert(p.head).insert(p.head),
        None => Multiset::empty(),
    };
    pair_part.add(melds_tiles(b.1)).add(b.2.to_multiset())
}

/// The tiles of a finalized hand, flattened: the round-trip image of the
/// record it was decomposed from.
pub open spec fn final_tiles(v: (Pair, Seq<Meld>, Tile)) -> Multiset<Tile> {
    Multiset::empty().insert(v.0.head).insert(v.0.head).add(melds_tiles(v.1))
}

/// Removing one meld takes exactly its tiles out of the flattening.
proof fn lemma_melds_tiles_remove(s: Seq<Meld>, i: int)
    requires
        0 <= i < s.len(),
    ensures
        melds_tiles(s) == melds_tiles(s.remove(i)).add(meld_tiles(s[i])),
    decreases s.len(),
{
    broadcast use vstd::multiset::group_multiset_axioms;

    if i == s.len() - 1 {
        assert(s.remove(i) =~= s.drop_last());
    } else {
        assert(s.remove(i).drop_last() =~= s.drop_last().remove(i));
        assert(s.remove(i).last() == s.last());
        lemma_melds_tiles_remove(s.drop_last(), i);
        assert(melds_tiles(s.remove(i)) == melds_tiles(s.drop_last().remove(i)).add(
            meld_tiles(s.last()),
        ));
        assert(melds_tiles(s.drop_last().remove(i)).add(meld_tiles(s.last())).add(
            meld_tiles(s[i]),
        ) =~= melds_tiles(s.drop_last().remove(i)).add(meld_tiles(s[i])).add(
            meld_tiles(s.last()),
        ));
    }
}

/// Flattening melds reads only their multiset: any rearrangement flattens to
/// the same tiles.
proof fn lemma_melds_tiles_permutation(a: Seq<Meld>, b: Seq<Meld>)
    requires
        a.to_multiset() == b.to_multiset(),
    ensures
        melds_tiles(a) == melds_tiles(b),
    decreases a.len(),
{
    broadcast use vstd::seq_lib::group_to_multiset_ensures;
    broadcast use vstd::multiset::group_multiset_axioms;

    a.to_multiset_ensures();
    b.to_multiset_ensures();
    if a.len() == 0 {
        assert(b.to_multiset().len() == 0);
        assert(b.len() == 0);
        assert(a =~= b);
    } else {
        let x = a.last();
        assert(a.to_multiset().contains(x)) by {
            assert(a.contains(x));
        }
        assert(b.contains(x));
        let i = choose|i: int| 0 <= i < b.len() && b[i] == x;
        assert(a.drop_last() =~= a.remove(a.len() - 1));
        assert(a.drop_last().to_multiset() == a.to_multiset().remove(x));
        assert(b.remove(i).to_multiset() == b.to_multiset().remove(x));
        lemma_melds_tiles_permutation(a.drop_last(), b.remove(i));
        lemma_melds_tiles_remove(b, i);
    }
}

/// Flattening melds commutes with the canonical reordering.
proof fn lemma_melds_tiles_sort4(ms: Seq<Meld>)
    requires
        ms.len() == 4,
    ensures
        melds_tiles(sort4_melds(ms)) == melds_tiles(ms),
{
    crate::four::handchecker::lemma_sort4_melds_ensures(ms);
    lemma_melds_tiles_permutation(sort4_melds(ms), ms);
}

/// Appending a meld moves its tiles from the remains to the melds.
proof fn lemma_melds_tiles_push(ms: Seq<Meld>, m: Meld)
    ensures
        melds_tiles(ms.push(m)) == melds_tiles(ms).add(meld_tiles(m)),
{
    assert(ms.push(m).drop_last() =~= ms);
    assert(ms.push(m).last() == m);
}

} // verus!

verus! {

// ------------------------------------------------------------------
// Soundness of the stages: every branch accounts for the whole hand
// ------------------------------------------------------------------

/// The tiles of a three-tile suffix, element by element.
proof fn lemma_seq3_multiset(s: Seq<Tile>)
    requires
        s.len() == 3,
    ensures
        s.to_multiset() == Multiset::empty().insert(s[0]).insert(s[1]).insert(s[2]),
{
    broadcast use vstd::seq_lib::group_to_multiset_ensures;
    broadcast use vstd::multiset::group_multiset_axioms;

    assert(s =~= Seq::<Tile>::empty().push(s[0]).push(s[1]).push(s[2]));
    assert(Seq::<Tile>::empty().to_multiset() =~= Multiset::<Tile>::empty());
    assert(s.to_multiset() =~= Multiset::empty().insert(s[0]).insert(s[1]).insert(s[2]));
}

/// Every pair branch holds exactly the tiles of the sorted hand.
proof fn lemma_get_pairs_props(s: Seq<Tile>)
    requires
        s.len() == HAINUM,
    ensures
        forall|k: int|
            0 <= k < get_pairs_spec(s).len() ==> (#[trigger] get_pairs_spec(s)[k]).0 is Some
                && get_pairs_spec(s)[k].1.len() == 0 && get_pairs_spec(s)[k].2.len() == 12
                && branch_tiles(get_pairs_spec(s)[k]) == s.to_multiset(),
{
    broadcast use vstd::multiset::group_multiset_axioms;

    lemma_remove_subset_elements(pair_locs_from(s, 0), triple_locs_from(s, 0));
    lemma_pair_locs_elements(s, 0);
    assert forall|k: int|
        0 <= k < get_pairs_spec(s).len() implies (#[trigger] get_pairs_spec(s)[k]).0 is Some
        && get_pairs_spec(s)[k].1.len() == 0 && get_pairs_spec(s)[k].2.len() == 12 && branch_tiles(
        get_pairs_spec(s)[k],
    ) == s.to_multiset() by {
        let cands = pair_candidates(s);
        assert(pair_locs_from(s, 0).contains(cands[k]));
        let w = choose|w: int| 0 <= w < pair_locs_from(s, 0).len() && pair_locs_from(s, 0)[w] == cands[k];
        let pi = cands[k] as int;
        assert(pi + 1 < s.len() && s[pi] == s[pi + 1]);
        lemma_remove2_multiset(s, pi);
        let b = get_pairs_spec(s)[k];
        assert(b.2 == remove2_spec(s, pi));
        assert(melds_tiles(b.1) == Multiset::<Tile>::empty());
        assert(branch_tiles(b) =~= s.to_multiset());
    }
}

/// The whitelisted chow pick of a 12-tile suffix is a valid in-bounds run.
proof fn lemma_chow_pick12_props(s: Seq<Tile>)
    requires
        s.len() == 12,
        chow_pick12(s) is Some,
    ensures
        0 <= chow_pick12(s).unwrap().0 < chow_pick12(s).unwrap().1 < chow_pick12(s).unwrap().2
            < 12,
        chow_at(
            s,
            chow_pick12(s).unwrap().0,
            chow_pick12(s).unwrap().1,
            chow_pick12(s).unwrap().2,
        ),
{
}

/// The whitelisted chow pick of a 9-tile suffix is a valid in-bounds run.
proof fn lemma_chow_pick9_props(s: Seq<Tile>)
    requires
        s.len() == 9,
        chow_pick9(s) is Some,
    ensures
        0 <= chow_pick9(s).unwrap().0 < chow_pick9(s).unwrap().1 < chow_pick9(s).unwrap().2 < 9,
        chow_at(s, chow_pick9(s).unwrap().0, chow_pick9(s).unwrap().1, chow_pick9(s).unwrap().2),
{
}

/// The whitelisted chow pick of a 6-tile suffix is a valid in-bounds run.
proof fn lemma_chow_pick6_props(s: Seq<Tile>)
    requires
        s.len() == 6,
        chow_pick6(s) is Some,
    ensures
        0 <= chow_pick6(s).unwrap().0 < chow_pick6(s).unwrap().1 < chow_pick6(s).unwrap().2 < 6,
        chow_at(s, chow_pick6(s).unwrap().0, chow_pick6(s).unwrap().1, chow_pick6(s).unwrap().2),
{
}

/// One meld stage keeps the branch's tile account intact: the extracted
/// meld's tiles move from the remains into the melds.
proof fn lemma_meld_branches_props(
    pair: Option<Pair>,
    ms: Seq<Meld>,
    s: Seq<Tile>,
    pick: Option<(int, int, int)>,
)
    requires
        s.len() >= 3,
        pick is Some ==> 0 <= pick.unwrap().0 < pick.unwrap().1 < pick.unwrap().2 < s.len()
            && chow_at(s, pick.unwrap().0, pick.unwrap().1, pick.unwrap().2),
    ensures
        forall|k: int|
            0 <= k < meld_branches(pair, ms, s, pick).len() ==> (#[trigger] meld_branches(
                pair,
                ms,
                s,
                pick,
            )[k]).0 == pair && meld_branches(pair, ms, s, pick)[k].1.len() == ms.len() + 1
                && meld_branches(pair, ms, s, pick)[k].2.len() == s.len() - 3 && branch_tiles(
                meld_branches(pair, ms, s, pick)[k],
            ) == branch_tiles((pair, ms, s)),
{
    broadcast use vstd::multiset::group_multiset_axioms;

    let out = meld_branches(pair, ms, s, pick);
    assert forall|k: int|
        0 <= k < out.len() implies (#[trigger] out[k]).0 == pair && out[k].1.len() == ms.len() + 1
        && out[k].2.len() == s.len() - 3 && branch_tiles(out[k]) == branch_tiles(
        (pair, ms, s),
    ) by {
        let b = out[k];
        if s[0] == s[1] && s[1] == s[2] && k == 0 {
            let m = Meld { head: s[0], kind: MeldKind::ConcealedPung };
            assert(b == (pair, ms.push(m), s.subrange(3, s.len() as int)));
            lemma_melds_tiles_push(ms, m);
            lemma_remove3_multiset(s, 0, 1, 2);
            assert(remove3_spec(s, 0, 1, 2) =~= s.subrange(3, s.len() as int));
            assert(meld_tiles(m) == Multiset::empty().insert(s[0]).insert(s[0]).insert(s[0]));
            assert(branch_tiles(b) =~= branch_tiles((pair, ms, s)));
        } else {
            let (ci, cj, ck) = pick.unwrap();
            let m = Meld { head: s[ci], kind: MeldKind::ConcealedChow };
            assert(b == (pair, ms.push(m), remove3_spec(s, ci, cj, ck)));
            lemma_melds_tiles_push(ms, m);
            lemma_remove3_multiset(s, ci, cj, ck);
            assert(s[ci].is_ascending_spec(s[cj]) && s[cj].is_ascending_spec(s[ck]));
            crate::four::tile::lemma_tile_of_index_inverse(s[cj]);
            crate::four::tile::lemma_tile_of_index_inverse(s[ck]);
            assert(tile_of_index_spec(s[ci].index_spec() + 1) == s[cj]);
            assert(tile_of_index_spec(s[ci].index_spec() + 2) == s[ck]);
            assert(meld_tiles(m) == Multiset::empty().insert(s[ci]).insert(
                tile_of_index_spec(s[ci].index_spec() + 1),
            ).insert(tile_of_index_spec(s[ci].index_spec() + 2)));
            assert(branch_tiles(b) =~= branch_tiles((pair, ms, s)));
        }
    }
}

/// The first meld stage lifted to every live branch.
proof fn lemma_first_stage_all_props(bs: Seq<(Option<Pair>, Seq<Meld>, Seq<Tile>)>, m: Multiset<
    Tile,
>)
    requires
        forall|t: int|
            0 <= t < bs.len() ==> (#[trigger] bs[t]).0 is Some && bs[t].1.len() == 0
                && bs[t].2.len() == 12 && branch_tiles(bs[t]) == m,
    ensures
        forall|k: int|
            0 <= k < first_stage_all(bs).len() ==> (#[trigger] first_stage_all(bs)[k]).0 is Some
                && first_stage_all(bs)[k].1.len() == 1 && first_stage_all(bs)[k].2.len() == 9
                && branch_tiles(first_stage_all(bs)[k]) == m,
    decreases bs.len(),
{
    if bs.len() > 0 {
        let b0 = bs[0];
        let head = get_first_melds_spec(b0.0, b0.1, b0.2);
        if chow_pick12(b0.2) is Some {
            lemma_chow_pick12_props(b0.2);
        }
        lemma_meld_branches_props(b0.0, b0.1, b0.2, chow_pick12(b0.2));
        assert(forall|t: int|
            0 <= t < bs.drop_first().len() ==> bs.drop_first()[t] == bs[t + 1]);
        lemma_first_stage_all_props(bs.drop_first(), m);
        assert forall|k: int|
            0 <= k < first_stage_all(bs).len() implies (#[trigger] first_stage_all(
            bs,
        )[k]).0 is Some && first_stage_all(bs)[k].1.len() == 1 && first_stage_all(bs)[k].2.len()
            == 9 && branch_tiles(first_stage_all(bs)[k]) == m by {
            if k < head.len() {
                assert(first_stage_all(bs)[k] == head[k]);
            } else {
                assert(first_stage_all(bs)[k] == first_stage_all(bs.drop_first())[k - head.len()]);
            }
        }
    }
}

/// The second meld stage lifted to every live branch.
proof fn lemma_second_stage_all_props(bs: Seq<(Option<Pair>, Seq<Meld>, Seq<Tile>)>, m: Multiset<
    Tile,
>)
    requires
        forall|t: int|
            0 <= t < bs.len() ==> (#[trigger] bs[t]).0 is Some && bs[t].1.len() == 1
                && bs[t].2.len() == 9 && branch_tiles(bs[t]) == m,
    ensures
        forall|k: int|
            0 <= k < second_stage_all(bs).len() ==> (#[trigger] second_stage_all(bs)[k]).0 is Some
                && second_stage_all(bs)[k].1.len() == 2 && second_stage_all(bs)[k].2.len() == 6
                && branch_tiles(second_stage_all(bs)[k]) == m,
    decreases bs.len(),
{
    if bs.len() > 0 {
        let b0 = bs[0];
        let head = get_second_melds_spec(b0.0, b0.1, b0.2);
        if chow_pick9(b0.2) is Some {
            lemma_chow_pick9_props(b0.2);
        }
        lemma_meld_branches_props(b0.0, b0.1, b0.2, chow_pick9(b0.2));
        assert(forall|t: int|
            0 <= t < bs.drop_first().len() ==> bs.drop_first()[t] == bs[t + 1]);
        lemma_second_stage_all_props(bs.drop_first(), m);
        assert forall|k: int|
            0 <= k < second_stage_all(bs).len() implies (#[trigger] second_stage_all(
            bs,
        )[k]).0 is Some && second_stage_all(bs)[k].1.len() == 2 && second_stage_all(bs)[k].2.len()
            == 6 && branch_tiles(second_stage_all(bs)[k]) == m by {
            if k < head.len() {
                assert(second_stage_all(bs)[k] == head[k]);
            } else {
                assert(second_stage_all(bs)[k] == second_stage_all(bs.drop_first())[k
                    - head.len()]);
            }
        }
    }
}

/// The third meld stage lifted to every live branch.
proof fn lemma_third_stage_all_props(bs: Seq<(Option<Pair>, Seq<Meld>, Seq<Tile>)>, m: Multiset<
    Tile,
>)
    requires
        forall|t: int|
            0 <= t < bs.len() ==> (#[trigger] bs[t]).0 is Some && bs[t].1.len() == 2
                && bs[t].2.len() == 6 && branch_tiles(bs[t]) == m,
    ensures
        forall|k: int|
            0 <= k < third_stage_all(bs).len() ==> (#[trigger] third_stage_all(bs)[k]).0 is Some
                && third_stage_all(bs)[k].1.len() == 3 && third_stage_all(bs)[k].2.len() == 3
                && branch_tiles(third_stage_all(bs)[k]) == m,
    decreases bs.len(),
{
    if bs.len() > 0 {
        let b0 = bs[0];
        let head = get_third_melds_spec(b0.0, b0.1, b0.2);
        if chow_pick6(b0.2) is Some {
            lemma_chow_pick6_props(b0.2);
        }
        lemma_meld_branches_props(b0.0, b0.1, b0.2, chow_pick6(b0.2));
        assert(forall|t: int|
            0 <= t < bs.drop_first().len() ==> bs.drop_first()[t] == bs[t + 1]);
        lemma_third_stage_all_props(bs.drop_first(), m);
        assert forall|k: int|
            0 <= k < third_stage_all(bs).len() implies (#[trigger] third_stage_all(
            bs,
        )[k]).0 is Some && third_stage_all(bs)[k].1.len() == 3 && third_stage_all(bs)[k].2.len()
            == 3 && branch_tiles(third_stage_all(bs)[k]) == m by {
            if k < head.len() {
                assert(third_stage_all(bs)[k] == head[k]);
            } else {
                assert(third_stage_all(bs)[k] == third_stage_all(bs.drop_first())[k - head.len()]);
            }
        }
    }
}

/// The terminal stage lifted to every live branch: each finalized hand is
/// well-formed, canonically ordered, carries the fixed wind, and flattens
/// back to the whole hand.
proof fn lemma_last_stage_all_props(bs: Seq<(Option<Pair>, Seq<Meld>, Seq<Tile>)>, m: Multiset<
    Tile,
>)
    requires
        forall|t: int|
            0 <= t < bs.len() ==> (#[trigger] bs[t]).0 is Some && bs[t].1.len() == 3
                && bs[t].2.len() == 3 && branch_tiles(bs[t]) == m,
    ensures
        forall|k: int|
            0 <= k < last_stage_all(bs).len() ==> (#[trigger] last_stage_all(bs)[k]).1.len() == 4
                && melds_sorted(last_stage_all(bs)[k].1) && last_stage_all(bs)[k].2 == Tile::East
                && final_tiles(last_stage_all(bs)[k]) == m,
    decreases bs.len(),
{
    broadcast use vstd::multiset::group_multiset_axioms;

    if bs.len() > 0 {
        let b0 = bs[0];
        assert(forall|t: int|
            0 <= t < bs.drop_first().len() ==> bs.drop_first()[t] == bs[t + 1]);
        lemma_last_stage_all_props(bs.drop_first(), m);
        match get_last_melds_spec(b0.0, b0.1, b0.2) {
            Some(v) => {
                let s = b0.2;
                let chow = chow_at(s, 0, 1, 2);
                let meld = if chow {
                    Meld { head: s[0], kind: MeldKind::ConcealedChow }
                } else {
                    Meld { head: s[0], kind: MeldKind::ConcealedPung }
                };
                assert(v == (b0.0.unwrap(), b0.1.push(meld), Tile::East));
                lemma_melds_tiles_push(b0.1, meld);
                lemma_seq3_multiset(s);
                if chow {
                    crate::four::tile::lemma_tile_of_index_inverse(s[1]);
                    crate::four::tile::lemma_tile_of_index_inverse(s[2]);
                    assert(meld_tiles(meld) == Multiset::empty().insert(s[0]).insert(
                        s[1],
                    ).insert(s[2]));
                } else {
                    assert(meld_tiles(meld) == Multiset::empty().insert(s[0]).insert(
                        s[0],
                    ).insert(s[0]));
                }
                let fin = (v.0, sort4_melds(v.1), v.2);
                crate::four::handchecker::lemma_sort4_melds_ensures(v.1);
                lemma_melds_tiles_sort4(v.1);
                assert(final_tiles(fin) =~= m);
                assert forall|k: int|
                    0 <= k < last_stage_all(bs).len() implies (#[trigger] last_stage_all(
                    bs,
                )[k]).1.len() == 4 && melds_sorted(last_stage_all(bs)[k].1) && last_stage_all(
                    bs,
                )[k].2 == Tile::East && final_tiles(last_stage_all(bs)[k]) == m by {
                    if k == 0 {
                        assert(last_stage_all(bs)[0] == fin);
                    } else {
                        assert(last_stage_all(bs)[k] == last_stage_all(bs.drop_first())[k - 1]);
                    }
                }
            },
            None => {
                assert(last_stage_all(bs) == last_stage_all(bs.drop_first()));
            },
        }
    }
}

/// Deduplication returns pairwise distinct hands drawn from its input.
proof fn lemma_dedup_from_props(s: Seq<(Pair, Seq<Meld>, Tile)>, acc: Seq<(Pair, Seq<Meld>, Tile)>)
    requires
        forall|i: int, j: int| 0 <= i < j < acc.len() ==> acc[i] != acc[j],
    ensures
        forall|i: int, j: int|
            0 <= i < j < dedup_from(s, acc).len() ==> dedup_from(s, acc)[i] != dedup_from(
                s,
                acc,
            )[j],
        forall|k: int|
            0 <= k < dedup_from(s, acc).len() ==> s.contains(#[trigger] dedup_from(s, acc)[k])
                || acc.contains(dedup_from(s, acc)[k]),
    decreases s.len(),
{
    if s.len() > 0 {
        if acc.contains(s[0]) {
            lemma_dedup_from_props(s.drop_first(), acc);
            assert(dedup_from(s, acc) == dedup_from(s.drop_first(), acc));
            assert forall|k: int|
                0 <= k < dedup_from(s, acc).len() implies s.contains(
                #[trigger] dedup_from(s, acc)[k],
            ) || acc.contains(dedup_from(s, acc)[k]) by {
                assert(dedup_from(s, acc) == dedup_from(s.drop_first(), acc));
                assert(s.drop_first().contains(dedup_from(s.drop_first(), acc)[k]) || acc.contains(
                    dedup_from(s.drop_first(), acc)[k],
                ));
                if s.drop_first().contains(dedup_from(s, acc)[k]) {
                    let w = choose|w: int|
                        0 <= w < s.drop_first().len() && s.drop_first()[w] == dedup_from(s, acc)[k];
                    assert(s[w + 1] == dedup_from(s, acc)[k]);
                }
            }
        } else {
            assert forall|i: int, j: int|
                0 <= i < j < acc.push(s[0]).len() implies acc.push(s[0])[i] != acc.push(
                s[0],
            )[j] by {
                if j < acc.len() {
                } else {
                    assert(acc.push(s[0])[j] == s[0]);
                    assert(!acc.contains(s[0]));
                }
            }
            lemma_dedup_from_props(s.drop_first(), acc.push(s[0]));
            assert(dedup_from(s, acc) == dedup_from(s.drop_first(), acc.push(s[0])));
            assert forall|k: int|
                0 <= k < dedup_from(s, acc).len() implies s.contains(
                #[trigger] dedup_from(s, acc)[k],
            ) || acc.contains(dedup_from(s, acc)[k]) by {
                assert(dedup_from(s, acc) == dedup_from(s.drop_first(), acc.push(s[0])));
                assert(s.drop_first().contains(dedup_from(s.drop_first(), acc.push(s[0]))[k])
                    || acc.push(s[0]).contains(dedup_from(s.drop_first(), acc.push(s[0]))[k]));
                if s.drop_first().contains(dedup_from(s, acc)[k]) {
                    let w = choose|w: int|
                        0 <= w < s.drop_first().len() && s.drop_first()[w] == dedup_from(s, acc)[k];
                    assert(s[w + 1] == dedup_from(s, acc)[k]);
                } else if acc.push(s[0]).contains(dedup_from(s, acc)[k]) {
                    let w = choose|w: int|
                        0 <= w < acc.push(s[0]).len() && acc.push(s[0])[w] == dedup_from(s, acc)[k];
                    if w < acc.len() {
                        assert(acc[w] == dedup_from(s, acc)[k]);
                    } else {
                        assert(s[0] == dedup_from(s, acc)[k]);
                    }
                }
            }
        }
    }
}

// ------------------------------------------------------------------
// Laws of the decomposition
// ------------------------------------------------------------------

/// Decomposition soundness: every hand the search returns for a valid
/// record flattens back to exactly the record's tile multiset, is
/// well-formed, canonically ordered, and carries the fixed seat wind; and no
/// hand appears twice.
pub proof fn lemma_allsets_props(raw: Seq<u8>)
    requires
        raw.len() == HAINUM,
        raw_all_valid(raw),
    ensures
        forall|k: int|
            0 <= k < allsets_spec(raw).len() ==> (#[trigger] allsets_spec(raw)[k]).1.len() == 4
                && melds_sorted(allsets_spec(raw)[k].1) && allsets_spec(raw)[k].2 == Tile::East
                && final_tiles(allsets_spec(raw)[k]) == decode_seq(raw).to_multiset(),
        forall|i: int, j: int|
            0 <= i < j < allsets_spec(raw).len() ==> allsets_spec(raw)[i] != allsets_spec(raw)[j],
{
    broadcast use vstd::seq_lib::group_to_multiset_ensures;

    let tiles = decode_seq(raw);
    let sorted = tiles.sort_by(tile_le_fn());
    lemma_tile_le_total();
    tiles.lemma_sort_by_ensures(tile_le_fn());
    tiles.to_multiset_ensures();
    sorted.to_multiset_ensures();
    assert(sorted.len() == tiles.len());
    assert(sorted.len() == HAINUM);
    let m = sorted.to_multiset();
    assert(m == tiles.to_multiset());
    lemma_get_pairs_props(sorted);
    lemma_first_stage_all_props(get_pairs_spec(sorted), m);
    lemma_second_stage_all_props(first_stage_all(get_pairs_spec(sorted)), m);
    lemma_third_stage_all_props(second_stage_all(first_stage_all(get_pairs_spec(sorted))), m);
    lemma_last_stage_all_props(
        third_stage_all(second_stage_all(first_stage_all(get_pairs_spec(sorted)))),
        m,
    );
    let finals = last_stage_all(
        third_stage_all(second_stage_all(first_stage_all(get_pairs_spec(sorted)))),
    );
    lemma_dedup_from_props(finals, Seq::empty());
    assert forall|k: int|
        0 <= k < allsets_spec(raw).len() implies (#[trigger] allsets_spec(raw)[k]).1.len() == 4
        && melds_sorted(allsets_spec(raw)[k].1) && allsets_spec(raw)[k].2 == Tile::East
        && final_tiles(allsets_spec(raw)[k]) == decode_seq(raw).to_multiset() by {
        assert(finals.contains(allsets_spec(raw)[k]) || Seq::<(Pair, Seq<Meld>, Tile)>::empty().contains(
            allsets_spec(raw)[k],
        ));
        let w = choose|w: int| 0 <= w < finals.len() && finals[w] == allsets_spec(raw)[k];
        assert(final_tiles(finals[w]) == m);
    }
}

/// Decoding is index-wise, so records with equal byte multisets decode to
/// equal tile multisets.
proof fn lemma_decode_multiset(a: Seq<u8>, b: Seq<u8>)
    requires
        raw_all_valid(a),
        raw_all_valid(b),
        a.to_multiset() == b.to_multiset(),
    ensures
        decode_seq(a).to_multiset() == decode_seq(b).to_multiset(),
    decreases a.len(),
{
    broadcast use vstd::seq_lib::group_to_multiset_ensures;
    broadcast use vstd::multiset::group_multiset_axioms;

    a.to_multiset_ensures();
    b.to_multiset_ensures();
    if a.len() == 0 {
        assert(b.to_multiset().len() == 0);
        assert(b.len() == 0);
        assert(decode_seq(a) =~= Seq::<Tile>::empty());
        assert(decode_seq(b) =~= Seq::<Tile>::empty());
    } else {
        assert(a.to_multiset().contains(a[0])) by {
            assert(a.contains(a[0]));
        }
        assert(b.to_multiset().contains(a[0]));
        assert(b.contains(a[0]));
        let i = choose|i: int| 0 <= i < b.len() && b[i] == a[0];
        let a1 = a.drop_first();
        let b1 = b.remove(i);
        assert(a1 =~= a.remove(0));
        assert(a1.to_multiset() == a.to_multiset().remove(a[0]));
        assert(b1.to_multiset() == b.to_multiset().remove(a[0]));
        assert(raw_all_valid(a1)) by {
            assert(forall|t: int| 0 <= t < a1.len() ==> a1[t] == a[t + 1]);
        }
        assert(raw_all_valid(b1)) by {
            b.remove_ensures(i);
            assert(forall|t: int| 0 <= t < b1.len() ==> b1[t] == b[t] || b1[t] == b[t + 1]);
        }
        lemma_decode_multiset(a1, b1);
        assert(decode_seq(a1) =~= decode_seq(a).remove(0));
        assert(decode_seq(b1) =~= decode_seq(b).remove(i)) by {
            b.remove_ensures(i);
            decode_seq(b).remove_ensures(i);
        }
        assert(decode_seq(a).remove(0).to_multiset() == decode_seq(a).to_multiset().remove(
            decode_seq(a)[0],
        ));
        assert(decode_seq(b).remove(i).to_multiset() == decode_seq(b).to_multiset().remove(
            decode_seq(b)[i],
        ));
        assert(decode_seq(a)[0] == decode_seq(b)[i]);
        assert(decode_seq(a).to_multiset().contains(decode_seq(a)[0])) by {
            assert(decode_seq(a).contains(decode_seq(a)[0]));
        }
        assert(decode_seq(b).to_multiset().contains(decode_seq(b)[i])) by {
            assert(decode_seq(b).contains(decode_seq(b)[i]));
        }
        assert(decode_seq(a).to_multiset() =~= decode_seq(a).to_multiset().remove(
            decode_seq(a)[0],
        ).insert(decode_seq(a)[0]));
        assert(decode_seq(b).to_multiset() =~= decode_seq(b).to_multiset().remove(
            decode_seq(b)[i],
        ).insert(decode_seq(b)[i]));
    }
}

/// Decomposition determinism: two records holding the same tiles in any
/// order decompose to the same sequence of canonicalized hands.
pub proof fn lemma_allsets_deterministic(a: Seq<u8>, b: Seq<u8>)
    requires
        a.len() == HAINUM,
        b.len() == HAINUM,
        raw_all_valid(a),
        raw_all_valid(b),
        a.to_multiset() == b.to_multiset(),
    ensures
        allsets_spec(a) == allsets_spec(b),
{
    lemma_decode_multiset(a, b);
    let ta = decode_seq(a);
    let tb = decode_seq(b);
    lemma_tile_le_total();
    ta.lemma_sort_by_ensures(tile_le_fn());
    tb.lemma_sort_by_ensures(tile_le_fn());
    lemma_sorted_unique(ta.sort_by(tile_le_fn()), tb.sort_by(tile_le_fn()), tile_le_fn());
    assert(ta.sort_by(tile_le_fn()) == tb.sort_by(tile_le_fn()));
}

} // verus!

verus! {

/// The tiles a classifiable hand flattens back to.
pub open spec fn handchecker_tiles(c: HandChecker) -> Multiset<Tile> {
    Multiset::empty().insert(c.pair.head).insert(c.pair.head).add(melds_tiles(c.melds@))
}

proof fn lemma_branches_match_concat(
    r1: Seq<(SetBuilder, Vec<Tile>)>,
    v1: Seq<(Option<Pair>, Seq<Meld>, Seq<Tile>)>,
    r2: Seq<(SetBuilder, Vec<Tile>)>,
    v2: Seq<(Option<Pair>, Seq<Meld>, Seq<Tile>)>,
)
    requires
        branches_match(r1, v1),
        branches_match(r2, v2),
    ensures
        branches_match(r1 + r2, v1 + v2),
{
    assert forall|i: int|
        0 <= i < (r1 + r2).len() implies ((#[trigger] (r1 + r2)[i]).0.pair == (v1 + v2)[i].0 && (r1
        + r2)[i].0.melds@ == (v1 + v2)[i].1 && (r1 + r2)[i].1@ == (v1 + v2)[i].2) by {
        if i < r1.len() {
            assert((r1 + r2)[i] == r1[i]);
            assert((v1 + v2)[i] == v1[i]);
        } else {
            assert((r1 + r2)[i] == r2[i - r1.len()]);
            assert((v1 + v2)[i] == v2[i - r1.len()]);
        }
    }
}

/// Decomposition: sorts the record's tiles, enumerates every valid
/// (pair, melds) assignment through the staged search, canonicalizes each
/// hand's meld order and removes duplicates.  A record with a byte outside
/// the tile alphabet is refused; a record with no decomposition yields the
/// empty list.
pub fn allsets(raw: &Vec<u8>) -> (r: Option<Vec<HandChecker>>)
    requires
        raw@.len() == HAINUM,
    ensures
        r is Some <==> raw_all_valid(raw@),
        r matches Some(v) ==> checkers_match(v@, allsets_spec(raw@)),
        r matches Some(v) ==> forall|i: int|
            0 <= i < v@.len() ==> (#[trigger] v@[i]).wf() && melds_sorted(v@[i].melds@)
                && v@[i].wind == Tile::East && handchecker_tiles(v@[i]) == decode_seq(
                raw@,
            ).to_multiset(),
        r matches Some(v) ==> forall|i: int, j: int|
            0 <= i < j < v@.len() ==> !((#[trigger] v@[i]).pair == (#[trigger] v@[j]).pair
                && v@[i].melds@ == v@[j].melds@ && v@[i].wind == v@[j].wind),
{
    let mut tiles: Vec<Tile> = Vec::new();
    let mut i: usize = 0;
    while i < raw.len()
        invariant
            i <= raw@.len(),
            raw@.len() == HAINUM,
            tiles@.len() == i,
            forall|t: int| 0 <= t < i ==> tile_from_byte_spec(#[trigger] raw@[t]) is Some,
            forall|t: int|
                0 <= t < i ==> tiles@[t] == tile_from_byte_spec(#[trigger] raw@[t]).unwrap(),
        decreases raw@.len() - i,
    {
        match Tile::from_byte(raw[i]) {
            None => {
                proof {
                    assert(tile_from_byte_spec(raw@[i as int]) is None);
                }
                return None;
            },
            Some(t) => {
                tiles.push(t);
            },
        }
        i = i + 1;
    }
    proof {
        assert(raw_all_valid(raw@));
        assert(tiles@ =~= decode_seq(raw@));
    }
    sort_tiles(&mut tiles);
    let ghost sorted = decode_seq(raw@).sort_by(tile_le_fn());
    let ghost m = sorted.to_multiset();
    proof {
        lemma_tile_le_total();
        decode_seq(raw@).lemma_sort_by_ensures(tile_le_fn());
        decode_seq(raw@).to_multiset_ensures();
        sorted.to_multiset_ensures();
        assert(sorted.len() == HAINUM);
        lemma_get_pairs_props(sorted);
        lemma_first_stage_all_props(get_pairs_spec(sorted), m);
        lemma_second_stage_all_props(first_stage_all(get_pairs_spec(sorted)), m);
        lemma_third_stage_all_props(second_stage_all(first_stage_all(get_pairs_spec(sorted))), m);
        lemma_last_stage_all_props(
            third_stage_all(second_stage_all(first_stage_all(get_pairs_spec(sorted)))),
            m,
        );
    }
    let branches1 = get_pairs(&tiles);
    let ghost spec1 = get_pairs_spec(sorted);

    let mut branches2: Vec<(SetBuilder, Vec<Tile>)> = Vec::new();
    let ghost mut done2: Seq<(Option<Pair>, Seq<Meld>, Seq<Tile>)> = Seq::empty();
    let mut k: usize = 0;
    proof {
        assert(spec1.skip(0) =~= spec1);
        assert(done2 + first_stage_all(spec1.skip(0)) =~= first_stage_all(spec1));
    }
    while k < branches1.len()
        invariant
            k <= branches1@.len(),
            branches_match(branches1@, spec1),
            spec1 == get_pairs_spec(sorted),
            forall|t: int|
                0 <= t < spec1.len() ==> (#[trigger] spec1[t]).0 is Some && spec1[t].1.len() == 0
                    && spec1[t].2.len() == 12,
            branches_match(branches2@, done2),
            first_stage_all(spec1) == done2 + first_stage_all(spec1.skip(k as int)),
        decreases branches1@.len() - k,
    {
        proof {
            assert(spec1.skip(k as int)[0] == spec1[k as int]);
            assert(spec1.skip(k as int).drop_first() =~= spec1.skip(k as int + 1));
        }
        let b = &branches1[k];
        let mut step = get_first_melds(&b.1, &b.0);
        let ghost stepspec = get_first_melds_spec(
            spec1[k as int].0,
            spec1[k as int].1,
            spec1[k as int].2,
        );
        proof {
            assert(branches_match(step@, stepspec));
            lemma_branches_match_concat(branches2@, done2, step@, stepspec);
        }
        branches2.append(&mut step);
        proof {
            done2 = done2 + stepspec;
            assert(first_stage_all(spec1.skip(k as int)) == stepspec + first_stage_all(
                spec1.skip(k as int + 1),
            ));
            assert((done2 + first_stage_all(spec1.skip(k as int + 1))) =~= first_stage_all(spec1));
        }
        k = k + 1;
    }
    proof {
        assert(spec1.skip(branches1@.len() as int) =~= Seq::<
            (Option<Pair>, Seq<Meld>, Seq<Tile>),
        >::empty());
        assert(done2 + Seq::<(Option<Pair>, Seq<Meld>, Seq<Tile>)>::empty() =~= done2);
        assert(done2 == first_stage_all(spec1));
    }
    let ghost spec2 = first_stage_all(spec1);

    let mut branches3: Vec<(SetBuilder, Vec<Tile>)> = Vec::new();
    let ghost mut done3: Seq<(Option<Pair>, Seq<Meld>, Seq<Tile>)> = Seq::empty();
    let mut k2: usize = 0;
    proof {
        assert(spec2.skip(0) =~= spec2);
        assert(done3 + second_stage_all(spec2.skip(0)) =~= second_stage_all(spec2));
    }
    while k2 < branches2.len()
        invariant
            k2 <= branches2@.len(),
            branches_match(branches2@, spec2),
            spec2 == first_stage_all(spec1),
            spec1 == get_pairs_spec(sorted),
            forall|t: int|
                0 <= t < spec2.len() ==> (#[trigger] spec2[t]).0 is Some && spec2[t].1.len() == 1
                    && spec2[t].2.len() == 9,
            branches_match(branches3@, done3),
            second_stage_all(spec2) == done3 + second_stage_all(spec2.skip(k2 as int)),
        decreases branches2@.len() - k2,
    {
        proof {
            assert(spec2.skip(k2 as int)[0] == spec2[k2 as int]);
            assert(spec2.skip(k2 as int).drop_first() =~= spec2.skip(k2 as int + 1));
        }
        let b = &branches2[k2];
        let mut step = get_second_melds(&b.1, &b.0);
        let ghost stepspec = get_second_melds_spec(
            spec2[k2 as int].0,
            spec2[k2 as int].1,
            spec2[k2 as int].2,
        );
        proof {
            assert(branches_match(step@, stepspec));
            lemma_branches_match_concat(branches3@, done3, step@, stepspec);
        }
        branches3.append(&mut step);
        proof {
            done3 = done3 + stepspec;
            assert(second_stage_all(spec2.skip(k2 as int)) == stepspec + second_stage_all(
                spec2.skip(k2 as int + 1),
            ));
            assert((done3 + second_stage_all(spec2.skip(k2 as int + 1))) =~= second_stage_all(
                spec2,
            ));
        }
        k2 = k2 + 1;
    }
    proof {
        assert(spec2.skip(branches2@.len() as int) =~= Seq::<
            (Option<Pair>, Seq<Meld>, Seq<Tile>),
        >::empty());
        assert(done3 + Seq::<(Option<Pair>, Seq<Meld>, Seq<Tile>)>::empty() =~= done3);
        assert(done3 == second_stage_all(spec2));
    }
    let ghost spec3 = second_stage_all(spec2);

    let mut branches4: Vec<(SetBuilder, Vec<Tile>)> = Vec::new();
    let ghost mut done3b: Seq<(Option<Pair>, Seq<Meld>, Seq<Tile>)> = Seq::empty();
    let mut k2b: usize = 0;
    proof {
        assert(spec3.skip(0) =~= spec3);
        assert(done3b + third_stage_all(spec3.skip(0)) =~= third_stage_all(spec3));
    }
    while k2b < branches3.len()
        invariant
            k2b <= branches3@.len(),
            branches_match(branches3@, spec3),
            spec3 == second_stage_all(spec2),
            spec2 == first_stage_all(spec1),
            spec1 == get_pairs_spec(sorted),
            forall|t: int|
                0 <= t < spec3.len() ==> (#[trigger] spec3[t]).0 is Some && spec3[t].1.len() == 2
                    && spec3[t].2.len() == 6,
            branches_match(branches4@, done3b),
            third_stage_all(spec3) == done3b + third_stage_all(spec3.skip(k2b as int)),
        decreases branches3@.len() - k2b,
    {
        proof {
            assert(spec3.skip(k2b as int)[0] == spec3[k2b as int]);
            assert(spec3.skip(k2b as int).drop_first() =~= spec3.skip(k2b as int + 1));
        }
        let b = &branches3[k2b];
        let mut step = get_third_melds(&b.1, &b.0);
        let ghost stepspec = get_third_melds_spec(
            spec3[k2b as int].0,
            spec3[k2b as int].1,
            spec3[k2b as int].2,
        );
        proof {
            assert(branches_match(step@, stepspec));
            lemma_branches_match_concat(branches4@, done3b, step@, stepspec);
        }
        branches4.append(&mut step);
        proof {
            done3b = done3b + stepspec;
            assert(third_stage_all(spec3.skip(k2b as int)) == stepspec + third_stage_all(
                spec3.skip(k2b as int + 1),
            ));
            assert((done3b + third_stage_all(spec3.skip(k2b as int + 1))) =~= third_stage_all(
                spec3,
            ));
        }
        k2b = k2b + 1;
    }
    proof {
        assert(spec3.skip(branches3@.len() as int) =~= Seq::<
            (Option<Pair>, Seq<Meld>, Seq<Tile>),
        >::empty());
        assert(done3b + Seq::<(Option<Pair>, Seq<Meld>, Seq<Tile>)>::empty() =~= done3b);
        assert(done3b == third_stage_all(spec3));
    }
    let ghost spec4 = third_stage_all(spec3);

    let mut finals: Vec<HandChecker> = Vec::new();
    let ghost mut done4: Seq<(Pair, Seq<Meld>, Tile)> = Seq::empty();
    let mut k3: usize = 0;
    proof {
        assert(spec4.skip(0) =~= spec4);
        assert(done4 + last_stage_all(spec4.skip(0)) =~= last_stage_all(spec4));
    }
    while k3 < branches4.len()
        invariant
            k3 <= branches4@.len(),
            branches_match(branches4@, spec4),
            spec4 == third_stage_all(spec3),
            spec3 == second_stage_all(spec2),
            spec2 == first_stage_all(spec1),
            spec1 == get_pairs_spec(sorted),
            forall|t: int|
                0 <= t < spec4.len() ==> (#[trigger] spec4[t]).0 is Some && spec4[t].1.len() == 3
                    && spec4[t].2.len() == 3,
            checkers_match(finals@, done4),
            last_stage_all(spec4) == done4 + last_stage_all(spec4.skip(k3 as int)),
        decreases branches4@.len() - k3,
    {
        proof {
            assert(spec4.skip(k3 as int)[0] == spec4[k3 as int]);
            assert(spec4.skip(k3 as int).drop_first() =~= spec4.skip(k3 as int + 1));
        }
        let b = &branches4[k3];
        let sb = b.0.clone();
        let got = get_last_melds(&b.1, sb);
        match got {
            Some(mut c) => {
                let ghost v = get_last_melds_spec(
                    spec4[k3 as int].0,
                    spec4[k3 as int].1,
                    spec4[k3 as int].2,
                ).unwrap();
                c.sort();
                let ghost pre = finals@;
                finals.push(c);
                proof {
                    done4 = done4 + seq![(v.0, sort4_melds(v.1), v.2)];
                    assert(checkers_match(finals@, done4));
                    assert(last_stage_all(spec4.skip(k3 as int)) == seq![
                        (v.0, sort4_melds(v.1), v.2),
                    ] + last_stage_all(spec4.skip(k3 as int + 1)));
                    assert((done4 + last_stage_all(spec4.skip(k3 as int + 1))) =~= last_stage_all(
                        spec4,
                    ));
                }
            },
            None => {
                proof {
                    assert(last_stage_all(spec4.skip(k3 as int)) == last_stage_all(
                        spec4.skip(k3 as int + 1),
                    ));
                }
            },
        }
        k3 = k3 + 1;
    }
    proof {
        assert(spec4.skip(branches4@.len() as int) =~= Seq::<
            (Option<Pair>, Seq<Meld>, Seq<Tile>),
        >::empty());
        assert(done4 + Seq::<(Pair, Seq<Meld>, Tile)>::empty() =~= done4);
        assert(done4 == last_stage_all(spec4));
    }
    let ghost allfinals = last_stage_all(spec4);

    let mut result: Vec<HandChecker> = Vec::new();
    let ghost mut acc: Seq<(Pair, Seq<Meld>, Tile)> = Seq::empty();
    let mut k4: usize = 0;
    proof {
        assert(allfinals.skip(0) =~= allfinals);
    }
    while k4 < finals.len()
        invariant
            k4 <= finals@.len(),
            checkers_match(finals@, allfinals),
            checkers_match(result@, acc),
            dedup_from(allfinals, Seq::empty()) == dedup_from(allfinals.skip(k4 as int), acc),
        decreases finals@.len() - k4,
    {
        proof {
            assert(allfinals.skip(k4 as int)[0] == allfinals[k4 as int]);
            assert(allfinals.skip(k4 as int).drop_first() =~= allfinals.skip(k4 as int + 1));
        }
        let c = &finals[k4];
        let mut seen = false;
        let mut t: usize = 0;
        while t < result.len()
            invariant
                t <= result@.len(),
                checkers_match(result@, acc),
                checkers_match(finals@, allfinals),
                k4 < finals@.len(),
                c == &finals@[k4 as int],
                seen ==> acc.contains(allfinals[k4 as int]),
                !seen ==> forall|w: int| 0 <= w < t ==> acc[w] != allfinals[k4 as int],
            decreases result@.len() - t,
        {
            if result[t] == *c {
                proof {
                    assert(acc[t as int] == allfinals[k4 as int]);
                }
                seen = true;
            }
            t = t + 1;
        }
        if !seen {
            let ghost pre = acc;
            result.push(c.clone());
            proof {
                assert(!pre.contains(allfinals[k4 as int])) by {
                    if pre.contains(allfinals[k4 as int]) {
                        let w = choose|w: int|
                            0 <= w < pre.len() && pre[w] == allfinals[k4 as int];
                        assert(pre[w] != allfinals[k4 as int]);
                    }
                }
                acc = pre.push(allfinals[k4 as int]);
                assert(checkers_match(result@, acc));
                assert(dedup_from(allfinals.skip(k4 as int), pre) == dedup_from(
                    allfinals.skip(k4 as int + 1),
                    acc,
                ));
            }
        } else {
            proof {
                assert(dedup_from(allfinals.skip(k4 as int), acc) == dedup_from(
                    allfinals.skip(k4 as int + 1),
                    acc,
                ));
            }
        }
        k4 = k4 + 1;
    }
    proof {
        assert(allfinals.skip(finals@.len() as int) =~= Seq::<(Pair, Seq<Meld>, Tile)>::empty());
        assert(dedup_from(Seq::<(Pair, Seq<Meld>, Tile)>::empty(), acc) == acc);
        assert(acc == dedup_from(allfinals, Seq::empty()));
        assert(acc == allsets_spec(raw@));
        lemma_allsets_props(raw@);
        assert forall|i: int, j: int|
            0 <= i < j < result@.len() implies !((#[trigger] result@[i]).pair
            == (#[trigger] result@[j]).pair && result@[i].melds@ == result@[j].melds@
            && result@[i].wind == result@[j].wind) by {
            if result@[i].pair == result@[j].pair && result@[i].melds@ == result@[j].melds@
                && result@[i].wind == result@[j].wind {
                assert(acc[i] == acc[j]);
            }
        }
    }
    Some(result)
}

} // verus!

verus! {

// ------------------------------------------------------------------
// Occurrence weight
// ------------------------------------------------------------------

/// How many times a tile occurs in the hand.
pub open spec fn count_tile(s: Seq<Tile>, t: Tile) -> int
    decreases s.len(),
{
    if s.len() == 0 {
        0
    } else {
        count_tile(s.drop_last(), t) + if s.last() == t {
            1int
        } else {
            0int
        }
    }
}

/// How many ways a kind with this count can be drawn from the four physical
/// copies: the binomial coefficient over four.
pub open spec fn comb_factor(c: int) -> int {
    if c == 0 || c == 4 {
        1
    } else if c == 1 || c == 3 {
        4
    } else if c == 2 {
        6
    } else {
        0
    }
}

/// The occurrence weight over the first `n` tile kinds: the product of the
/// per-kind draw counts.
pub open spec fn comb_spec(s: Seq<Tile>, n: int) -> int
    decreases n,
{
    if n <= 0 {
        1
    } else {
        comb_spec(s, n - 1) * comb_factor(count_tile(s, tile_of_index_spec(n - 1)))
    }
}

pub proof fn lemma_count_tile_bounds(s: Seq<Tile>, t: Tile)
    ensures
        0 <= count_tile(s, t) <= s.len(),
    decreases s.len(),
{
    if s.len() > 0 {
        lemma_count_tile_bounds(s.drop_last(), t);
    }
}

/// Six to the `n`th: the coarse per-kind bound on the weight product.
pub open spec fn pow6(n: int) -> int
    decreases n,
{
    if n <= 0 {
        1
    } else {
        6 * pow6(n - 1)
    }
}

proof fn lemma_pow6_pos(n: int)
    ensures
        1 <= pow6(n),
    decreases n,
{
    if n > 0 {
        lemma_pow6_pos(n - 1);
    }
}

/// Total of the per-kind counts over the first `n` kinds.
pub open spec fn sum_counts(s: Seq<Tile>, n: int) -> int
    decreases n,
{
    if n <= 0 {
        0
    } else {
        sum_counts(s, n - 1) + count_tile(s, tile_of_index_spec(n - 1))
    }
}

proof fn lemma_sum_counts_empty(n: int)
    ensures
        sum_counts(Seq::<Tile>::empty(), n) == 0,
    decreases n,
{
    if n > 0 {
        lemma_sum_counts_empty(n - 1);
    }
}

/// Dropping the last tile lowers the count total by one once its kind is in
/// range.
proof fn lemma_sum_counts_drop(s: Seq<Tile>, n: int)
    requires
        s.len() > 0,
        n <= TILEVARIANT,
    ensures
        sum_counts(s, n) == sum_counts(s.drop_last(), n) + if s.last().index_spec() < n {
            1int
        } else {
            0int
        },
    decreases n,
{
    crate::four::tile::lemma_tile_index_range(s.last());
    if n > 0 {
        lemma_sum_counts_drop(s, n - 1);
        crate::four::tile::lemma_tile_of_index_inverse(s.last());
        if tile_of_index_spec(n - 1) == s.last() {
            assert(tile_of_index_spec(n - 1).index_spec() == n - 1) by {
                crate::four::tile::lemma_tile_of_index_inverse(s.last());
            }
            assert(s.last().index_spec() == n - 1);
            assert(count_tile(s, tile_of_index_spec(n - 1)) == count_tile(
                s.drop_last(),
                tile_of_index_spec(n - 1),
            ) + 1);
        } else {
            assert(count_tile(s, tile_of_index_spec(n - 1)) == count_tile(
                s.drop_last(),
                tile_of_index_spec(n - 1),
            ));
        }
    }
}

/// The counts over every kind total the hand size.
proof fn lemma_sum_counts_total(s: Seq<Tile>)
    ensures
        sum_counts(s, TILEVARIANT as int) == s.len(),
    decreases s.len(),
{
    if s.len() == 0 {
        lemma_sum_counts_empty(TILEVARIANT as int);
        assert(s =~= Seq::<Tile>::empty());
    } else {
        lemma_sum_counts_total(s.drop_last());
        lemma_sum_counts_drop(s, TILEVARIANT as int);
        crate::four::tile::lemma_tile_index_range(s.last());
    }
}

proof fn lemma_count_tile_nonneg_all(s: Seq<Tile>, n: int)
    requires
        0 <= n,
    ensures
        0 <= sum_counts(s, n),
        forall|a: int, b: int| 0 <= a <= b <= n ==> sum_counts(s, a) <= sum_counts(s, b),
    decreases n,
{
    if n > 0 {
        lemma_count_tile_nonneg_all(s, n - 1);
        lemma_count_tile_bounds(s, tile_of_index_spec(n - 1));
        assert forall|a: int, b: int| 0 <= a <= b <= n implies sum_counts(s, a) <= sum_counts(
            s,
            b,
        ) by {
            if b == n && a < n {
                assert(sum_counts(s, a) <= sum_counts(s, n - 1));
            }
        }
    }
}

/// Six to a sum is the product of the powers.
proof fn lemma_pow6_add(a: int, b: int)
    requires
        0 <= a,
        0 <= b,
    ensures
        pow6(a + b) == pow6(a) * pow6(b),
    decreases b,
{
    if b == 0 {
        assert(pow6(a) * 1 == pow6(a)) by (nonlinear_arith);
    } else {
        lemma_pow6_add(a, b - 1);
        assert(pow6(a + b) == 6 * pow6(a + b - 1));
        assert(6 * (pow6(a) * pow6(b - 1)) == pow6(a) * (6 * pow6(b - 1))) by (nonlinear_arith);
    }
}

/// The weight product over the first `n` kinds stays under six to the total
/// of their counts, so the whole weight fits comfortably in a machine word.
proof fn lemma_comb_spec_bounds(s: Seq<Tile>, n: int)
    requires
        0 <= n,
        forall|t: Tile| 0 <= #[trigger] count_tile(s, t) <= 4,
    ensures
        1 <= comb_spec(s, n) <= pow6(sum_counts(s, n)),
    decreases n,
{
    if n > 0 {
        lemma_comb_spec_bounds(s, n - 1);
        lemma_count_tile_nonneg_all(s, n);
        lemma_pow6_pos(sum_counts(s, n - 1));
        let cnt = count_tile(s, tile_of_index_spec(n - 1));
        let c = comb_spec(s, n - 1);
        let f = comb_factor(cnt);
        assert(1 <= f && f <= pow6(cnt)) by {
            assert(pow6(0) == 1);
            assert(pow6(1) == 6);
            assert(pow6(2) == 36);
            assert(pow6(3) == 216);
            assert(pow6(4) == 1296);
        }
        assert(sum_counts(s, 0) == 0);
        assert(0 <= sum_counts(s, n - 1));
        lemma_pow6_add(sum_counts(s, n - 1), cnt);
        assert(1 <= c * f && c * f <= pow6(sum_counts(s, n - 1)) * pow6(cnt)) by (nonlinear_arith)
            requires
                1 <= c,
                c <= pow6(sum_counts(s, n - 1)),
                1 <= f,
                f <= pow6(cnt),
                1 <= pow6(cnt),
                1 <= pow6(sum_counts(s, n - 1)),
        ;
    }
}

proof fn lemma_pow6_14()
    ensures
        pow6(14) == 78364164096,
{
    assert(pow6(0) == 1);
    assert(pow6(1) == 6);
    assert(pow6(2) == 36);
    assert(pow6(3) == 216);
    assert(pow6(4) == 1296);
    assert(pow6(5) == 7776);
    assert(pow6(6) == 46656);
    assert(pow6(7) == 279936);
    assert(pow6(8) == 1679616);
    assert(pow6(9) == 10077696);
    assert(pow6(10) == 60466176);
    assert(pow6(11) == 362797056);
    assert(pow6(12) == 2176782336);
    assert(pow6(13) == 13060694016);
    assert(pow6(14) == 78364164096);
}

/// The combinatorial occurrence weight of a record: over every tile kind,
/// the number of ways to draw that many copies from the four physical ones,
/// multiplied out.  The caller guarantees deck validity: no kind occurs more
/// than four times.
pub fn comb(raw: &Vec<u8>) -> (r: u64)
    requires
        raw@.len() == HAINUM,
        raw_all_valid(raw@),
        forall|t: Tile| #[trigger] count_tile(decode_seq(raw@), t) <= 4,
    ensures
        r == comb_spec(decode_seq(raw@), TILEVARIANT as int),
{
    let ghost dec = decode_seq(raw@);
    proof {
        assert forall|t: Tile| 0 <= #[trigger] count_tile(dec, t) <= 4 by {
            lemma_count_tile_bounds(dec, t);
        }
    }
    let mut counts: Vec<u64> = vec![0u64; TILEVARIANT];
    proof {
        assert(dec.take(0) =~= Seq::<Tile>::empty());
    }
    let mut i: usize = 0;
    while i < raw.len()
        invariant
            i <= raw@.len(),
            raw@.len() == HAINUM,
            raw_all_valid(raw@),
            dec == decode_seq(raw@),
            counts@.len() == TILEVARIANT,
            forall|ti: int|
                0 <= ti < TILEVARIANT ==> #[trigger] counts@[ti] == count_tile(
                    dec.take(i as int),
                    tile_of_index_spec(ti),
                ),
            forall|ti: int| 0 <= ti < TILEVARIANT ==> #[trigger] counts@[ti] <= i,
        decreases raw@.len() - i,
    {
        let t = Tile::from_byte(raw[i]).unwrap();
        let idx = t.to_index();
        proof {
            crate::four::tile::lemma_tile_of_index_inverse(t);
            assert(dec.take(i as int + 1).drop_last() =~= dec.take(i as int));
            assert(dec.take(i as int + 1).last() == dec[i as int]);
            assert(dec[i as int] == t);
            assert forall|ti: int|
                0 <= ti < TILEVARIANT && ti != idx implies tile_of_index_spec(ti) != t by {
                crate::four::tile::lemma_tile_of_index_inverse(t);
                if tile_of_index_spec(ti) == t {
                    crate::four::tile::lemma_tile_index_range(t);
                    assert(tile_of_index_spec(ti).index_spec() == ti) by {
                        assert(0 <= ti < 23);
                    }
                }
            }
        }
        let c = counts[idx];
        counts.set(idx, c + 1);
        i = i + 1;
    }
    proof {
        assert(dec.take(HAINUM as int) =~= dec);
    }
    let mut prod: u64 = 1;
    let mut n: usize = 0;
    proof {
        lemma_pow6_14();
        lemma_pow6_pos(14);
        lemma_sum_counts_total(dec);
    }
    while n < TILEVARIANT
        invariant
            n <= TILEVARIANT,
            counts@.len() == TILEVARIANT,
            dec.len() == HAINUM,
            sum_counts(dec, TILEVARIANT as int) == dec.len(),
            forall|t: Tile| 0 <= #[trigger] count_tile(dec, t) <= 4,
            forall|ti: int|
                0 <= ti < TILEVARIANT ==> #[trigger] counts@[ti] == count_tile(
                    dec,
                    tile_of_index_spec(ti),
                ),
            prod == comb_spec(dec, n as int),
            pow6(14) == 78364164096,
        decreases TILEVARIANT - n,
    {
        let c = counts[n];
        proof {
            assert(counts@[n as int] == count_tile(dec, tile_of_index_spec(n as int)));
            assert(0 <= c <= 4);
        }
        let f: u64 = if c == 0 || c == 4 {
            1
        } else if c == 1 || c == 3 {
            4
        } else {
            6
        };
        proof {
            assert(f == comb_factor(count_tile(dec, tile_of_index_spec(n as int))));
            lemma_comb_spec_bounds(dec, n as int);
            lemma_comb_spec_bounds(dec, n as int + 1);
            lemma_count_tile_nonneg_all(dec, TILEVARIANT as int);
            assert(sum_counts(dec, 0) == 0);
            assert(0 <= sum_counts(dec, n as int + 1));
            assert(sum_counts(dec, n as int + 1) <= sum_counts(dec, TILEVARIANT as int));
            assert(pow6(sum_counts(dec, n as int + 1)) <= pow6(14)) by {
                lemma_pow6_mono(sum_counts(dec, n as int + 1), 14);
            }
            assert(prod * f == comb_spec(dec, n as int + 1));
        }
        prod = prod * f;
        n = n + 1;
    }
    prod
}

proof fn lemma_pow6_mono(a: int, b: int)
    requires
        0 <= a <= b,
    ensures
        pow6(a) <= pow6(b),
    decreases b,
{
    if a < b {
        lemma_pow6_mono(a, b - 1);
        lemma_pow6_pos(b - 1);
    }
}

} // verus!

verus! {

// ------------------------------------------------------------------
// Completeness on the all-pungs family
// ------------------------------------------------------------------

/// Every run start in `triple_locs_from(s, i)` lies at or after `i`.
proof fn lemma_triple_locs_lower(s: Seq<Tile>, i: int)
    requires
        s.len() <= usize::MAX,
    ensures
        forall|k: int|
            0 <= k < triple_locs_from(s, i).len() ==> i <= #[trigger] triple_locs_from(s, i)[k],
    decreases s.len() - i,
{
    if i < 0 || i + 2 >= s.len() {
    } else {
        lemma_triple_locs_lower(s, i + 1);
        assert forall|k: int|
            0 <= k < triple_locs_from(s, i).len() implies i <= #[trigger] triple_locs_from(
            s,
            i,
        )[k] by {
            if s[i] == s[i + 1] && s[i + 1] == s[i + 2] {
                if k > 0 {
                    assert(triple_locs_from(s, i)[k] == triple_locs_from(s, i + 1)[k - 1]);
                }
            } else {
                assert(triple_locs_from(s, i)[k] == triple_locs_from(s, i + 1)[k]);
            }
        }
    }
}

/// Deduplication keeps its accumulator as a prefix.
proof fn lemma_dedup_from_prefix(s: Seq<(Pair, Seq<Meld>, Tile)>, acc: Seq<(Pair, Seq<Meld>, Tile)>)
    ensures
        dedup_from(s, acc).len() >= acc.len(),
        forall|i: int| 0 <= i < acc.len() ==> #[trigger] dedup_from(s, acc)[i] == acc[i],
    decreases s.len(),
{
    if s.len() > 0 {
        if acc.contains(s[0]) {
            lemma_dedup_from_prefix(s.drop_first(), acc);
        } else {
            lemma_dedup_from_prefix(s.drop_first(), acc.push(s[0]));
        }
    }
}

/// Decomposition completeness on the all-pungs family: a sorted hand built
/// as one pair below four distinct pungs is decomposed, and its canonical
/// (pair, pungs) assignment is the first one returned.
pub proof fn lemma_all_pungs_complete(s: Seq<Tile>)
    requires
        s.len() == HAINUM,
        tiles_sorted(s),
        s[0] == s[1],
        s[2] == s[3] && s[3] == s[4],
        s[5] == s[6] && s[6] == s[7],
        s[8] == s[9] && s[9] == s[10],
        s[11] == s[12] && s[12] == s[13],
        s[1] != s[2],
        s[4] != s[5],
        s[7] != s[8],
        s[10] != s[11],
    ensures
        decompose_spec(s).len() >= 1,
        decompose_spec(s)[0] == (
            Pair { head: s[0], concealed: true },
            seq![
                Meld { head: s[2], kind: MeldKind::ConcealedPung },
                Meld { head: s[5], kind: MeldKind::ConcealedPung },
                Meld { head: s[8], kind: MeldKind::ConcealedPung },
                Meld { head: s[11], kind: MeldKind::ConcealedPung },
            ],
            Tile::East,
        ),
{
    // The first admissible pair candidate is position 0.
    let pl = pair_locs_from(s, 0);
    let tl = triple_locs_from(s, 0);
    assert(pl == seq![0usize] + pair_locs_from(s, 1));
    assert(pl[0] == 0usize);
    assert(tl == triple_locs_from(s, 1));
    lemma_triple_locs_lower(s, 1);
    let cands = pair_candidates(s);
    assert(cands == remove_subset_spec(pl, tl));
    if tl.len() > 0 {
        assert(tl[0] != 0usize);
        assert(cands == seq![pl[0]] + remove_subset_spec(pl.drop_first(), tl));
    } else {
        assert(cands == seq![pl[0]] + remove_subset_spec(pl.drop_first(), tl));
    }
    assert(cands[0] == 0usize);
    assert(cands.len() >= 1);

    // The first branch of the pair stage assigns the pair and leaves the
    // twelve pung tiles.
    let bs1 = get_pairs_spec(s);
    assert(bs1.len() == cands.len());
    let r1 = s.subrange(2, 14);
    assert(bs1[0] == (
        Some(Pair { head: s[0], concealed: true }),
        Seq::<Meld>::empty(),
        remove2_spec(s, 0),
    ));
    assert(remove2_spec(s, 0) =~= r1);

    // Stage one: the leading triple is a pung, so the pung branch stands
    // first.
    let m1 = Meld { head: s[2], kind: MeldKind::ConcealedPung };
    let h1 = get_first_melds_spec(bs1[0].0, bs1[0].1, bs1[0].2);
    assert(r1[0] == r1[1] && r1[1] == r1[2]);
    assert(h1[0] == (bs1[0].0, Seq::<Meld>::empty().push(m1), r1.subrange(3, 12)));
    assert(h1.len() >= 1);
    let bs2 = first_stage_all(bs1);
    assert(bs2 == h1 + first_stage_all(bs1.drop_first()));
    assert(bs2[0] == h1[0]);
    let r2 = s.subrange(5, 14);
    assert(r1.subrange(3, 12) =~= r2);

    // Stage two: again the leading triple is a pung.
    let m2 = Meld { head: s[5], kind: MeldKind::ConcealedPung };
    let h2 = get_second_melds_spec(bs2[0].0, bs2[0].1, bs2[0].2);
    assert(r2[0] == r2[1] && r2[1] == r2[2]);
    assert(h2[0] == (
        bs2[0].0,
        Seq::<Meld>::empty().push(m1).push(m2),
        r2.subrange(3, 9),
    ));
    assert(h2.len() >= 1);
    let bs3 = second_stage_all(bs2);
    assert(bs3 == h2 + second_stage_all(bs2.drop_first()));
    assert(bs3[0] == h2[0]);
    let r3 = s.subrange(8, 14);
    assert(r2.subrange(3, 9) =~= r3);

    // Stage three: again the leading triple is a pung.
    let m3 = Meld { head: s[8], kind: MeldKind::ConcealedPung };
    let h3 = get_third_melds_spec(bs3[0].0, bs3[0].1, bs3[0].2);
    assert(r3[0] == r3[1] && r3[1] == r3[2]);
    assert(h3[0] == (
        bs3[0].0,
        Seq::<Meld>::empty().push(m1).push(m2).push(m3),
        r3.subrange(3, 6),
    ));
    assert(h3.len() >= 1);
    let bs4 = third_stage_all(bs3);
    assert(bs4 == h3 + third_stage_all(bs3.drop_first()));
    assert(bs4[0] == h3[0]);
    let r4 = s.subrange(11, 14);
    assert(r3.subrange(3, 6) =~= r4);

    // The terminal triple is a pung, never a chow, so the branch finalizes.
    let m4 = Meld { head: s[11], kind: MeldKind::ConcealedPung };
    assert(!chow_at(r4, 0, 1, 2));
    let v = get_last_melds_spec(bs4[0].0, bs4[0].1, bs4[0].2);
    let ms = Seq::<Meld>::empty().push(m1).push(m2).push(m3).push(m4);
    assert(v == Some((Pair { head: s[0], concealed: true }, ms, Tile::East)));
    let finals = last_stage_all(bs4);
    assert(finals == seq![
        (Pair { head: s[0], concealed: true }, sort4_melds(ms), Tile::East),
    ] + last_stage_all(bs4.drop_first()));

    // The pung heads ascend strictly, so the canonical order is the found
    // order.
    assert(s[2].index_spec() < s[5].index_spec()) by {
        assert(tile_le(s[2], s[5]));
        if s[2].index_spec() == s[5].index_spec() {
            lemma_tile_index_injective(s[2], s[5]);
            assert(s[4] == s[5]);
        }
    }
    assert(s[5].index_spec() < s[8].index_spec()) by {
        assert(tile_le(s[5], s[8]));
        if s[5].index_spec() == s[8].index_spec() {
            lemma_tile_index_injective(s[5], s[8]);
            assert(s[7] == s[8]);
        }
    }
    assert(s[8].index_spec() < s[11].index_spec()) by {
        assert(tile_le(s[8], s[11]));
        if s[8].index_spec() == s[11].index_spec() {
            lemma_tile_index_injective(s[8], s[11]);
            assert(s[10] == s[11]);
        }
    }
    assert(sort4_melds(ms) =~= ms);
    assert(ms =~= seq![
        Meld { head: s[2], kind: MeldKind::ConcealedPung },
        Meld { head: s[5], kind: MeldKind::ConcealedPung },
        Meld { head: s[8], kind: MeldKind::ConcealedPung },
        Meld { head: s[11], kind: MeldKind::ConcealedPung },
    ]);

    // Deduplication keeps the first finding first.
    assert(!Seq::<(Pair, Seq<Meld>, Tile)>::empty().contains(finals[0]));
    assert(decompose_spec(s) == dedup_from(
        finals.drop_first(),
        Seq::<(Pair, Seq<Meld>, Tile)>::empty().push(finals[0]),
    ));
    lemma_dedup_from_prefix(
        finals.drop_first(),
        Seq::<(Pair, Seq<Meld>, Tile)>::empty().push(finals[0]),
    );
    assert(decompose_spec(s)[0] == finals[0]);
}

} // verus!

verus! {

/// Any chow the search draws is well-formed: an ascending run's head is a
/// suit tile with room for the two ranks above it.
pub proof fn lemma_chow_at_meld_wf(s: Seq<Tile>, i: int, j: int, k: int)
    requires
        0 <= i < j < k < s.len(),
        chow_at(s, i, j, k),
    ensures
        crate::four::set::meld_wf(Meld { head: s[i], kind: MeldKind::ConcealedChow }),
{
    let a = s[i];
    let b = s[j];
    assert(b.index_spec() == a.index_spec() + 1);
    assert(!a.is_honor_spec() && a.number_spec() != 9);
    assert(!b.is_honor_spec() && b.number_spec() != 9);
    assert(a.number_spec() <= 7) by {
        assert(7 <= a.index_spec() < 34);
        assert(a.number_spec() == (a.index_spec() - 7) % 9 + 1);
        if a.number_spec() == 8 {
            assert((a.index_spec() - 7) % 9 == 7);
            assert((b.index_spec() - 7) % 9 == 8);
            assert(b.number_spec() == 9);
        }
    }
}

} // verus!
