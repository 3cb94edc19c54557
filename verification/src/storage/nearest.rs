//! Nearest-neighbour selection over distances that the metric has already
//! computed.
//!
//! A distance is written as the bit pattern of a non-negative
//! single-precision number. Such patterns, read as unsigned integers, are
//! ordered as the numbers are.

use crate::seqs::first_n;
use vstd::prelude::*;

verus! {

/// The ranking with one more row: the row stands behind every row that is
/// at most as far as it is.
pub open spec fn insert_ranked(distances: Seq<u32>, ranked: Seq<int>, i: int) -> Seq<int>
    decreases ranked.len(),
{
    if ranked.len() == 0 {
        seq![i]
    } else if distances[ranked.last()] <= distances[i] {
        ranked.push(i)
    } else {
        insert_ranked(distances, ranked.drop_last(), i).push(ranked.last())
    }
}

/// Whether a distance lies within the bounds, both included.
pub open spec fn within(distance: u32, lower: u32, upper: u32) -> bool {
    lower <= distance <= upper
}

/// The positions of the first `upto` rows that lie within the bounds, by
/// ascending distance; rows equally far keep their storage order.
pub open spec fn ranking(distances: Seq<u32>, lower: u32, upper: u32, upto: int) -> Seq<int>
    decreases upto,
{
    if upto <= 0 {
        Seq::empty()
    } else {
        let before = ranking(distances, lower, upper, upto - 1);
        if within(distances[upto - 1], lower, upper) {
            insert_ranked(distances, before, upto - 1)
        } else {
            before
        }
    }
}

/// The positions of the up to `limit` nearest rows within the bounds, the
/// nearest first.
pub open spec fn nearest(distances: Seq<u32>, lower: u32, upper: u32, limit: nat) -> Seq<int> {
    first_n(ranking(distances, lower, upper, distances.len() as int), limit)
}

/// Inserting a row puts it at the place behind which every row is farther.
pub proof fn lemma_insert_ranked_at(distances: Seq<u32>, ranked: Seq<int>, i: int, pos: int)
    requires
        0 <= pos <= ranked.len(),
        forall|k: int| pos <= k < ranked.len() ==> distances[#[trigger] ranked[k]] > distances[i],
        pos > 0 ==> distances[ranked[pos - 1]] <= distances[i],
    ensures
        insert_ranked(distances, ranked, i) == ranked.insert(pos, i),
    decreases ranked.len(),
{
    if ranked.len() == 0 {
        assert(ranked.insert(pos, i) =~= seq![i]);
    } else if pos == ranked.len() {
        assert(ranked.insert(pos, i) =~= ranked.push(i));
    } else {
        assert(distances[ranked[ranked.len() - 1]] > distances[i]);
        let shorter = ranked.drop_last();
        assert forall|k: int| pos <= k < shorter.len() implies distances[#[trigger] shorter[k]]
            > distances[i] by {
            assert(shorter[k] == ranked[k]);
        }
        lemma_insert_ranked_at(distances, shorter, i, pos);
        assert(shorter.insert(pos, i).push(ranked.last()) =~= ranked.insert(pos, i));
    }
}

/// Inserting a row keeps the rows that were ranked and adds this one.
pub proof fn lemma_insert_ranked_members(distances: Seq<u32>, ranked: Seq<int>, i: int)
    ensures
        insert_ranked(distances, ranked, i).len() == ranked.len() + 1,
        forall|x: int|
            #![trigger insert_ranked(distances, ranked, i).contains(x)]
            #![trigger ranked.contains(x)]
            insert_ranked(distances, ranked, i).contains(x) <==> (ranked.contains(x) || x == i),
        insert_ranked(distances, ranked, i).contains(i),
    decreases ranked.len(),
{
    let after = insert_ranked(distances, ranked, i);
    if ranked.len() == 0 {
        assert(after[0] == i);
        assert forall|x: int| after.contains(x) <==> (ranked.contains(x) || x == i) by {
            if x == i {
                assert(after[0] == x);
            }
        }
    } else if distances[ranked.last()] <= distances[i] {
        assert(after[ranked.len() as int] == i);
        assert forall|x: int| after.contains(x) <==> (ranked.contains(x) || x == i) by {
            if ranked.contains(x) {
                let k = choose|k: int| 0 <= k < ranked.len() && ranked[k] == x;
                assert(after[k] == x);
            }
            if x == i {
                assert(after[ranked.len() as int] == x);
            }
        }
    } else {
        let shorter = ranked.drop_last();
        lemma_insert_ranked_members(distances, shorter, i);
        let inner = insert_ranked(distances, shorter, i);
        assert(inner.contains(i));
        {
            let k = choose|k: int| 0 <= k < inner.len() && inner[k] == i;
            assert(after[k] == i);
        }
        assert forall|x: int| after.contains(x) <==> (ranked.contains(x) || x == i) by {
            if after.contains(x) {
                let k = choose|k: int| 0 <= k < after.len() && after[k] == x;
                if k < inner.len() {
                    assert(inner[k] == x);
                    assert(inner.contains(x));
                    if shorter.contains(x) {
                        let m = choose|m: int| 0 <= m < shorter.len() && shorter[m] == x;
                        assert(ranked[m] == x);
                    }
                } else {
                    assert(ranked[ranked.len() - 1] == x);
                }
            }
            if ranked.contains(x) {
                let m = choose|m: int| 0 <= m < ranked.len() && ranked[m] == x;
                if m < shorter.len() {
                    assert(shorter[m] == x);
                    assert(shorter.contains(x));
                    assert(inner.contains(x));
                    let k = choose|k: int| 0 <= k < inner.len() && inner[k] == x;
                    assert(after[k] == x);
                } else {
                    assert(after[after.len() - 1] == x);
                }
            }
            if x == i {
                let k = choose|k: int| 0 <= k < inner.len() && inner[k] == x;
                assert(after[k] == x);
            }
        }
    }
}

/// Whether the ranked rows stand by ascending distance.
pub open spec fn ascending(distances: Seq<u32>, ranked: Seq<int>) -> bool {
    forall|a: int, b: int|
        0 <= a <= b < ranked.len() ==> distances[#[trigger] ranked[a]] <= distances[#[trigger] ranked[b]]
}

/// Inserting a row into an ascending ranking leaves it ascending.
pub proof fn lemma_insert_ranked_ascending(distances: Seq<u32>, ranked: Seq<int>, i: int)
    requires
        ascending(distances, ranked),
    ensures
        ascending(distances, insert_ranked(distances, ranked, i)),
    decreases ranked.len(),
{
    let after = insert_ranked(distances, ranked, i);
    if ranked.len() == 0 {
    } else if distances[ranked.last()] <= distances[i] {
        assert forall|a: int, b: int| 0 <= a <= b < after.len() implies distances[#[trigger] after[a]]
            <= distances[#[trigger] after[b]] by {
            if b < ranked.len() {
                assert(after[a] == ranked[a] && after[b] == ranked[b]);
            } else if a < ranked.len() {
                assert(after[a] == ranked[a]);
                assert(distances[ranked[a]] <= distances[ranked[ranked.len() - 1]]);
            }
        }
    } else {
        let shorter = ranked.drop_last();
        assert(ascending(distances, shorter)) by {
            assert forall|a: int, b: int| 0 <= a <= b < shorter.len() implies distances[#[trigger] shorter[a]]
                <= distances[#[trigger] shorter[b]] by {
                assert(shorter[a] == ranked[a] && shorter[b] == ranked[b]);
            }
        }
        lemma_insert_ranked_ascending(distances, shorter, i);
        lemma_insert_ranked_members(distances, shorter, i);
        let inner = insert_ranked(distances, shorter, i);
        assert forall|a: int, b: int| 0 <= a <= b < after.len() implies distances[#[trigger] after[a]]
            <= distances[#[trigger] after[b]] by {
            if b < inner.len() {
                assert(after[a] == inner[a] && after[b] == inner[b]);
            } else if a < inner.len() {
                assert(after[a] == inner[a]);
                assert(inner.contains(inner[a]));
                if inner[a] != i {
                    assert(shorter.contains(inner[a]));
                    let m = choose|m: int| 0 <= m < shorter.len() && shorter[m] == inner[a];
                    assert(ranked[m] == inner[a]);
                    assert(distances[ranked[m]] <= distances[ranked[ranked.len() - 1]]);
                }
            }
        }
    }
}

/// What the ranking holds: exactly the rows within the bounds, by
/// ascending distance.
pub proof fn lemma_ranking(distances: Seq<u32>, lower: u32, upper: u32, upto: int)
    requires
        0 <= upto <= distances.len(),
    ensures
        ascending(distances, ranking(distances, lower, upper, upto)),
        ranking(distances, lower, upper, upto).len() <= upto,
        forall|x: int|
            #![trigger ranking(distances, lower, upper, upto).contains(x)]
            #![trigger distances[x]]
            ranking(distances, lower, upper, upto).contains(x) <==> (0 <= x < upto && within(
                distances[x],
                lower,
                upper,
            )),
    decreases upto,
{
    if upto > 0 {
        lemma_ranking(distances, lower, upper, upto - 1);
        let before = ranking(distances, lower, upper, upto - 1);
        let now = ranking(distances, lower, upper, upto);
        if within(distances[upto - 1], lower, upper) {
            lemma_insert_ranked_ascending(distances, before, upto - 1);
            lemma_insert_ranked_members(distances, before, upto - 1);
        }
        assert forall|x: int| now.contains(x) <==> (0 <= x < upto && within(distances[x], lower, upper)) by {
            if within(distances[upto - 1], lower, upper) {
                assert(now.contains(x) <==> (before.contains(x) || x == upto - 1));
            }
            assert(before.contains(x) <==> (0 <= x < upto - 1 && within(distances[x], lower, upper)));
        }
    }
}

/// No row outside the bounds is among the nearest, every row among them
/// lies within the bounds, they stand by ascending distance, and a row
/// within the bounds that is left out is at least as far as each of them.
pub proof fn lemma_nearest(distances: Seq<u32>, lower: u32, upper: u32, limit: nat)
    ensures
        nearest(distances, lower, upper, limit).len() <= limit,
        ascending(distances, nearest(distances, lower, upper, limit)),
        forall|k: int|
            0 <= k < nearest(distances, lower, upper, limit).len() ==> {
                let x = #[trigger] nearest(distances, lower, upper, limit)[k];
                0 <= x < distances.len() && within(distances[x], lower, upper)
            },
        forall|x: int|
            0 <= x < distances.len() && !within(distances[x], lower, upper) ==> !nearest(
                distances,
                lower,
                upper,
                limit,
            ).contains(x),
        forall|x: int, k: int|
            0 <= x < distances.len() && within(distances[x], lower, upper) && !nearest(
                distances,
                lower,
                upper,
                limit,
            ).contains(x) && 0 <= k < nearest(distances, lower, upper, limit).len() ==> distances[#[trigger] nearest(
                distances,
                lower,
                upper,
                limit,
            )[k]] <= #[trigger] distances[x],
{
    let all = ranking(distances, lower, upper, distances.len() as int);
    let near = nearest(distances, lower, upper, limit);
    lemma_ranking(distances, lower, upper, distances.len() as int);
    assert forall|k: int| 0 <= k < near.len() implies {
        let x = #[trigger] near[k];
        0 <= x < distances.len() && within(distances[x], lower, upper)
    } by {
        assert(near[k] == all[k]);
        assert(all.contains(all[k]));
    }
    assert forall|a: int, b: int| 0 <= a <= b < near.len() implies distances[#[trigger] near[a]]
        <= distances[#[trigger] near[b]] by {
        assert(near[a] == all[a] && near[b] == all[b]);
    }
    assert forall|x: int|
        0 <= x < distances.len() && !within(distances[x], lower, upper) implies !near.contains(x) by {
        if near.contains(x) {
            let k = choose|k: int| 0 <= k < near.len() && near[k] == x;
            assert(all[k] == x);
            assert(all.contains(x));
        }
    }
    assert forall|x: int, k: int|
        0 <= x < distances.len() && within(distances[x], lower, upper) && !near.contains(x) && 0 <= k
            < near.len() implies distances[#[trigger] near[k]] <= #[trigger] distances[x] by {
        assert(all.contains(x));
        let m = choose|m: int| 0 <= m < all.len() && all[m] == x;
        if m < near.len() {
            assert(near[m] == x);
            assert(near.contains(x));
        }
        assert(near[k] == all[k]);
        assert(distances[all[k]] <= distances[all[m]]);
    }
}

/// The positions as mathematical integers.
pub open spec fn positions(order: Seq<usize>) -> Seq<int> {
    order.map_values(|i: usize| i as int)
}

/// Ranks the rows within the bounds by ascending distance and returns the
/// positions of the up to `limit` nearest.
pub fn select_nearest(distances: &Vec<u32>, lower: u32, upper: u32, limit: usize) -> (order: Vec<usize>)
    ensures
        positions(order@) == nearest(distances@, lower, upper, limit as nat),
        forall|k: int| 0 <= k < order@.len() ==> (#[trigger] order@[k]) < distances@.len(),
{
    let mut order: Vec<usize> = Vec::new();
    let mut i: usize = 0;
    assert(positions(order@) =~= ranking(distances@, lower, upper, 0));
    while i < distances.len()
        invariant
            i <= distances.len(),
            positions(order@) == ranking(distances@, lower, upper, i as int),
            forall|k: int| 0 <= k < order@.len() ==> (#[trigger] order@[k]) < i,
        decreases distances.len() - i,
    {
        if lower <= distances[i] && distances[i] <= upper {
            let mut pos: usize = order.len();
            while pos > 0 && distances[order[pos - 1]] > distances[i]
                invariant
                    pos <= order.len(),
                    i < distances.len(),
                    forall|k: int| 0 <= k < order@.len() ==> (#[trigger] order@[k]) < i,
                    forall|k: int|
                        pos <= k < order@.len() ==> distances@[#[trigger] positions(order@)[k]]
                            > distances@[i as int],
                decreases pos,
            {
                pos = pos - 1;
            }
            proof {
                lemma_insert_ranked_at(distances@, positions(order@), i as int, pos as int);
            }
            let ghost before = order@;
            order.insert(pos, i);
            assert(positions(order@) =~= positions(before).insert(pos as int, i as int));
        }
        i = i + 1;
    }
    if limit < order.len() {
        let ghost whole = order@;
        order.truncate(limit);
        assert(positions(order@) =~= positions(whole).take(limit as int));
    }
    order
}

/// The pattern under which a distance is ranked: the pattern itself, and
/// zero for one that has its sign set, which a metric gives where rounding
/// takes a distance of nothing a little below zero.
pub open spec fn distance_key_of(bits: u32) -> u32 {
    if bits >= 0x8000_0000u32 {
        0
    } else {
        bits
    }
}

/// The patterns under which the distances are ranked.
pub open spec fn distance_keys_of(raw: Seq<u32>) -> Seq<u32> {
    raw.map_values(|bits: u32| distance_key_of(bits))
}

/// Returns the pattern under which a distance is ranked.
pub fn distance_key(bits: u32) -> (key: u32)
    ensures
        key == distance_key_of(bits),
{
    if bits >= 0x8000_0000u32 {
        0
    } else {
        bits
    }
}

/// The upper bound that is handed to an engine which may leave its own
/// upper bound out: the next pattern above it, so that a row at exactly
/// the bound comes back either way.
pub open spec fn widened_upper_of(upper: u32) -> u32 {
    if upper < u32::MAX {
        (upper + 1) as u32
    } else {
        upper
    }
}

/// Returns the upper bound that is handed to the engine.
pub fn widened_upper(upper: u32) -> (widened: u32)
    ensures
        widened == widened_upper_of(upper),
{
    if upper < u32::MAX {
        upper + 1
    } else {
        upper
    }
}

/// Picks from the rows that an engine gave back, by the distances that it
/// reported for them: the positions of the up to `limit` nearest rows
/// within the bounds, the nearest first.
pub fn pick_nearest(reported: &Vec<u32>, lower: u32, upper: u32, limit: usize) -> (order: Vec<usize>)
    ensures
        positions(order@) == nearest(distance_keys_of(reported@), lower, upper, limit as nat),
        forall|k: int| 0 <= k < order@.len() ==> (#[trigger] order@[k]) < reported@.len(),
{
    let mut keys: Vec<u32> = Vec::new();
    let mut i: usize = 0;
    while i < reported.len()
        invariant
            i <= reported.len(),
            keys@ == distance_keys_of(reported@).take(i as int),
        decreases reported.len() - i,
    {
        keys.push(distance_key(reported[i]));
        i = i + 1;
        assert(keys@ =~= distance_keys_of(reported@).take(i as int));
    }
    assert(distance_keys_of(reported@).take(i as int) =~= distance_keys_of(reported@));
    select_nearest(&keys, lower, upper, limit)
}

} // verus!
