//! A stable descending sort of indices by integer key.
//!
//! The analytics pipeline orders rows twice — closed statistics by their
//! price range, and an item's closed sub-series by time — always
//! descending and always stably, so that one table has exactly one
//! ordering.  Both orders come from here: a permutation of row indices,
//! sorted by the rows' integer keys, ties kept in row order.

use vstd::prelude::*;

verus! {

/// Index `j` placed into `order` (indices already sorted by `keys`
/// descending): after every index whose key is at least `keys[j]`, before
/// the first whose key is smaller.
pub open spec fn insert_index_desc(keys: Seq<int>, order: Seq<int>, j: int) -> Seq<int>
    decreases order.len(),
{
    if order.len() == 0 {
        seq![j]
    } else if keys[order[0]] >= keys[j] {
        seq![order[0]] + insert_index_desc(keys, order.drop_first(), j)
    } else {
        seq![j] + order
    }
}

/// The indices `0..n` sorted by their keys, descending, stably: an index
/// with the same key as an earlier one stays after it.
pub open spec fn sorted_indices_desc(keys: Seq<int>, n: int) -> Seq<int>
    decreases n,
{
    if n <= 0 {
        Seq::empty()
    } else {
        insert_index_desc(keys, sorted_indices_desc(keys, n - 1), n - 1)
    }
}

/// A run of values picked out of `s` by a run of indices.
pub open spec fn apply_order<T>(s: Seq<T>, order: Seq<int>) -> Seq<T> {
    Seq::new(order.len() as nat, |i: int| s[order[i]])
}

/// The integer view of a run of indices.
pub open spec fn idx_seq(r: Seq<usize>) -> Seq<int> {
    Seq::new(r.len(), |i: int| r[i] as int)
}

/// The integer view of a run of keys.
pub open spec fn key_seq(r: Seq<i64>) -> Seq<int> {
    Seq::new(r.len(), |i: int| r[i] as int)
}

/// Inserting an index keeps every index in bounds and adds one entry.
proof fn lemma_insert_index_bounds(keys: Seq<int>, order: Seq<int>, j: int, n: int)
    requires
        0 <= j < n,
        forall|k: int| 0 <= k < order.len() ==> 0 <= #[trigger] order[k] < n,
    ensures
        insert_index_desc(keys, order, j).len() == order.len() + 1,
        forall|k: int|
            0 <= k < order.len() + 1 ==> 0 <= #[trigger] insert_index_desc(keys, order, j)[k] < n,
    decreases order.len(),
{
    if order.len() > 0 && keys[order[0]] >= keys[j] {
        lemma_insert_index_bounds(keys, order.drop_first(), j, n);
    }
}

/// The sorted index run has one entry per index, each in bounds.
pub proof fn lemma_sorted_indices_bounds(keys: Seq<int>, n: int)
    requires
        n >= 0,
    ensures
        sorted_indices_desc(keys, n).len() == n,
        forall|k: int|
            0 <= k < n ==> 0 <= #[trigger] sorted_indices_desc(keys, n)[k] < n,
    decreases n,
{
    if n > 0 {
        lemma_sorted_indices_bounds(keys, n - 1);
        if n - 1 > 0 {
        }
        lemma_insert_index_bounds(keys, sorted_indices_desc(keys, n - 1), n - 1, n);
        assert forall|k: int|
            0 <= k < sorted_indices_desc(keys, n - 1).len() implies 0 <= #[trigger] sorted_indices_desc(
            keys,
            n - 1,
        )[k] < n by {}
    }
}

/// Inserting an index keeps the run sorted by key, descending.
proof fn lemma_insert_index_sorted(keys: Seq<int>, order: Seq<int>, j: int)
    requires
        forall|a: int, b: int|
            0 <= a < b < order.len() ==> keys[#[trigger] order[a]] >= keys[#[trigger] order[b]],
    ensures
        forall|a: int, b: int|
            0 <= a < b < insert_index_desc(keys, order, j).len() ==> keys[#[trigger] insert_index_desc(
                keys,
                order,
                j,
            )[a]] >= keys[#[trigger] insert_index_desc(keys, order, j)[b]],
    decreases order.len(),
{
    let out = insert_index_desc(keys, order, j);
    if order.len() == 0 {
    } else if keys[order[0]] >= keys[j] {
        assert forall|a: int, b: int|
            0 <= a < b < order.drop_first().len() implies keys[#[trigger] order.drop_first()[a]]
            >= keys[#[trigger] order.drop_first()[b]] by {
            assert(order.drop_first()[a] == order[a + 1]);
            assert(order.drop_first()[b] == order[b + 1]);
        }
        lemma_insert_index_sorted(keys, order.drop_first(), j);
        let inner = insert_index_desc(keys, order.drop_first(), j);
        assert forall|b: int| 0 < b < out.len() implies keys[out[0]] >= keys[#[trigger] out[b]] by {
            assert(out[b] == inner[b - 1]);
            if inner[b - 1] == j {
            } else {
                let ghost df = order.drop_first();
                assert(exists|k: int| 0 <= k < df.len() && #[trigger] df[k] == inner[b - 1]
                    || inner[b - 1] == j) by {
                    lemma_insert_membership(keys, df, j, inner[b - 1], b - 1);
                }
            }
        }
    } else {
    }
}

/// Every entry of an insertion's result is the new index or one of the
/// old ones.
proof fn lemma_insert_membership(keys: Seq<int>, order: Seq<int>, j: int, v: int, at: int)
    requires
        0 <= at < insert_index_desc(keys, order, j).len(),
        insert_index_desc(keys, order, j)[at] == v,
    ensures
        v == j || exists|k: int| 0 <= k < order.len() && #[trigger] order[k] == v,
    decreases order.len(),
{
    if order.len() == 0 {
    } else if keys[order[0]] >= keys[j] {
        if at == 0 {
        } else {
            lemma_insert_membership(keys, order.drop_first(), j, v, at - 1);
            if v != j {
                let k = choose|k: int|
                    0 <= k < order.drop_first().len() && #[trigger] order.drop_first()[k] == v;
                assert(order[k + 1] == v);
            }
        }
    } else {
        if at == 0 {
        } else {
            assert(order[at - 1] == v);
        }
    }
}

/// The sorted index run is sorted by key, descending.
pub proof fn lemma_sorted_indices_sorted(keys: Seq<int>, n: int)
    ensures
        forall|a: int, b: int|
            0 <= a < b < sorted_indices_desc(keys, n).len() ==> keys[#[trigger] sorted_indices_desc(
                keys,
                n,
            )[a]] >= keys[#[trigger] sorted_indices_desc(keys, n)[b]],
    decreases n,
{
    if n > 0 {
        lemma_sorted_indices_sorted(keys, n - 1);
        lemma_insert_index_sorted(keys, sorted_indices_desc(keys, n - 1), n - 1);
    }
}

/// Inserting a fresh index keeps the run free of repeats.
proof fn lemma_insert_index_distinct(keys: Seq<int>, order: Seq<int>, j: int)
    requires
        forall|a: int, b: int| 0 <= a < b < order.len() ==> order[a] != order[b],
        forall|k: int| 0 <= k < order.len() ==> #[trigger] order[k] != j,
    ensures
        forall|a: int, b: int|
            0 <= a < b < insert_index_desc(keys, order, j).len() ==> insert_index_desc(
                keys,
                order,
                j,
            )[a] != insert_index_desc(keys, order, j)[b],
    decreases order.len(),
{
    let out = insert_index_desc(keys, order, j);
    if order.len() == 0 {
    } else if keys[order[0]] >= keys[j] {
        let df = order.drop_first();
        assert forall|a: int, b: int| 0 <= a < b < df.len() implies df[a] != df[b] by {
            assert(df[a] == order[a + 1]);
            assert(df[b] == order[b + 1]);
        }
        assert forall|k: int| 0 <= k < df.len() implies #[trigger] df[k] != j by {
            assert(df[k] == order[k + 1]);
        }
        lemma_insert_index_distinct(keys, df, j);
        let inner = insert_index_desc(keys, df, j);
        assert forall|a: int, b: int| 0 <= a < b < out.len() implies out[a] != out[b] by {
            if a == 0 {
                assert(out[b] == inner[b - 1]);
                lemma_insert_membership(keys, df, j, inner[b - 1], b - 1);
                if inner[b - 1] != j {
                    let k = choose|k: int| 0 <= k < df.len() && #[trigger] df[k] == inner[b - 1];
                    assert(order[k + 1] == inner[b - 1]);
                }
            } else {
                assert(out[a] == inner[a - 1]);
                assert(out[b] == inner[b - 1]);
            }
        }
    } else {
    }
}

/// The sorted index run repeats no index.
pub proof fn lemma_sorted_indices_distinct(keys: Seq<int>, n: int)
    ensures
        forall|a: int, b: int|
            0 <= a < b < sorted_indices_desc(keys, n).len() ==> sorted_indices_desc(keys, n)[a]
                != sorted_indices_desc(keys, n)[b],
    decreases n,
{
    if n > 0 {
        lemma_sorted_indices_distinct(keys, n - 1);
        if n - 1 >= 0 {
            lemma_sorted_indices_bounds(keys, n - 1);
        }
        lemma_insert_index_distinct(keys, sorted_indices_desc(keys, n - 1), n - 1);
    }
}

/// An insertion at the first position whose key is smaller equals the
/// specification's insertion.
proof fn lemma_insert_index_at(keys: Seq<int>, order: Seq<int>, j: int, p: int)
    requires
        0 <= p <= order.len(),
        forall|k: int| 0 <= k < p ==> keys[#[trigger] order[k]] >= keys[j],
        p < order.len() ==> keys[order[p]] < keys[j],
    ensures
        insert_index_desc(keys, order, j) == order.subrange(0, p) + seq![j] + order.subrange(
            p,
            order.len() as int,
        ),
    decreases order.len(),
{
    if order.len() == 0 {
        assert(insert_index_desc(keys, order, j) =~= order.subrange(0, p) + seq![j]
            + order.subrange(p, order.len() as int));
    } else if p == 0 {
        assert(keys[order[0]] < keys[j]);
        assert(insert_index_desc(keys, order, j) =~= order.subrange(0, 0) + seq![j]
            + order.subrange(0, order.len() as int));
    } else {
        assert(keys[order[0]] >= keys[j]);
        let df = order.drop_first();
        assert forall|k: int| 0 <= k < p - 1 implies keys[#[trigger] df[k]] >= keys[j] by {
            assert(df[k] == order[k + 1]);
        }
        if p - 1 < df.len() {
            assert(df[p - 1] == order[p]);
        }
        lemma_insert_index_at(keys, df, j, p - 1);
        assert(insert_index_desc(keys, order, j) =~= order.subrange(0, p) + seq![j]
            + order.subrange(p, order.len() as int)) by {
            assert(insert_index_desc(keys, order, j) == seq![order[0]] + (df.subrange(0, p - 1)
                + seq![j] + df.subrange(p - 1, df.len() as int)));
            assert forall|k: int| 0 <= k < df.len() implies #[trigger] df[k] == order[k + 1] by {}
        }
    }
}

/// Sorts the indices of `keys` by key, descending; equal keys keep their
/// original order.
pub fn sort_indices_by_key_desc(keys: &Vec<i64>) -> (r: Vec<usize>)
    ensures
        idx_seq(r@) == sorted_indices_desc(key_seq(keys@), keys@.len() as int),
        r@.len() == keys@.len(),
        forall|k: int| 0 <= k < r@.len() ==> (#[trigger] r@[k]) < keys@.len(),
{
    let ghost gkeys = key_seq(keys@);
    let mut order: Vec<usize> = Vec::new();
    let mut j: usize = 0;
    while j < keys.len()
        invariant
            j <= keys@.len(),
            gkeys == key_seq(keys@),
            gkeys.len() == keys@.len(),
            idx_seq(order@) == sorted_indices_desc(gkeys, j as int),
            order@.len() == j,
            forall|k: int| 0 <= k < order@.len() ==> (#[trigger] order@[k]) < keys@.len(),
        decreases keys@.len() - j,
    {
        proof {
            lemma_sorted_indices_bounds(gkeys, j as int);
        }
        let key_j = keys[j];
        let mut p: usize = 0;
        while p < order.len() && keys[order[p]] >= key_j
            invariant
                p <= order@.len(),
                j < keys@.len(),
                gkeys == key_seq(keys@),
                gkeys.len() == keys@.len(),
                key_j == keys@[j as int],
                forall|k: int| 0 <= k < order@.len() ==> (#[trigger] order@[k]) < keys@.len(),
                forall|k: int| 0 <= k < p ==> gkeys[idx_seq(order@)[k]] >= gkeys[j as int],
            decreases order@.len() - p,
        {
            p = p + 1;
        }
        proof {
            if p < order@.len() {
                assert(gkeys[idx_seq(order@)[p as int]] < gkeys[j as int]);
            }
            lemma_insert_index_at(gkeys, idx_seq(order@), j as int, p as int);
        }
        let ghost pre = order@;
        order.insert(p, j);
        proof {
            assert(idx_seq(order@) =~= idx_seq(pre).subrange(0, p as int) + seq![j as int]
                + idx_seq(pre).subrange(p as int, pre.len() as int));
        }
        j = j + 1;
    }
    order
}

} // verus!
