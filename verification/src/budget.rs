//! The budget optimizer: a capital-constrained selection of buy orders.
//!
//! Given candidate buy orders, each with a platinum cost and an expected
//! profit, and a total-capital cap, the optimizer keeps the subset of
//! greatest total profit whose total cost stays within the cap — the
//! classic 0/1 knapsack dynamic program.  The contract of [`knapsack`]
//! pins the selection's cost under the cap and its value above every
//! other feasible selection's.

use vstd::prelude::*;

use crate::types::BuyCandidate;
use crate::PRICE_LIMIT;

verus! {

/// Most candidates one optimizer run accepts; keeps every value sum the
/// dynamic program forms inside `i64`.
pub const MAX_CANDIDATES: usize = 1_000_000;

/// A candidate the optimizer can account for: cost and value within the
/// engine's price bounds.
pub open spec fn candidate_ok(c: BuyCandidate) -> bool {
    &&& 0 <= c.cost <= PRICE_LIMIT
    &&& -(PRICE_LIMIT as int + 1) <= c.value <= PRICE_LIMIT
}

/// Total cost of the candidates at indices `lo..hi` that `sel` marks.
pub open spec fn range_cost(items: Seq<BuyCandidate>, sel: Seq<bool>, lo: int, hi: int) -> int
    decreases hi - lo,
{
    if hi <= lo {
        0
    } else {
        (if sel[hi - 1] {
            items[hi - 1].cost as int
        } else {
            0
        }) + range_cost(items, sel, lo, hi - 1)
    }
}

/// Total value of the candidates at indices `lo..hi` that `sel` marks.
pub open spec fn range_value(items: Seq<BuyCandidate>, sel: Seq<bool>, lo: int, hi: int) -> int
    decreases hi - lo,
{
    if hi <= lo {
        0
    } else {
        (if sel[hi - 1] {
            items[hi - 1].value as int
        } else {
            0
        }) + range_value(items, sel, lo, hi - 1)
    }
}

/// Total cost of a whole selection.
pub open spec fn sel_cost(items: Seq<BuyCandidate>, sel: Seq<bool>) -> int {
    range_cost(items, sel, 0, items.len() as int)
}

/// Total value of a whole selection.
pub open spec fn sel_value(items: Seq<BuyCandidate>, sel: Seq<bool>) -> int {
    range_value(items, sel, 0, items.len() as int)
}

/// The candidates at indices `lo..hi` that `sel` marks, highest index
/// first — the order the optimizer's backward walk emits.
pub open spec fn rev_picked(items: Seq<BuyCandidate>, sel: Seq<bool>, lo: int, hi: int) -> Seq<
    BuyCandidate,
>
    decreases hi - lo,
{
    if hi <= lo {
        Seq::empty()
    } else {
        (if sel[hi - 1] {
            seq![items[hi - 1]]
        } else {
            Seq::empty()
        }) + rev_picked(items, sel, lo, hi - 1)
    }
}

/// The candidates at indices `lo..hi` that `sel` does not mark, highest
/// index first.
pub open spec fn rev_dropped(items: Seq<BuyCandidate>, sel: Seq<bool>, lo: int, hi: int) -> Seq<
    BuyCandidate,
>
    decreases hi - lo,
{
    if hi <= lo {
        Seq::empty()
    } else {
        (if sel[hi - 1] {
            Seq::empty()
        } else {
            seq![items[hi - 1]]
        }) + rev_dropped(items, sel, lo, hi - 1)
    }
}

/// The greatest total value of any selection from the first `i`
/// candidates whose total cost is at most `w` — the knapsack recurrence.
pub open spec fn best_value(items: Seq<BuyCandidate>, i: int, w: int) -> int
    decreases i,
{
    if i <= 0 {
        0
    } else {
        let skip = best_value(items, i - 1, w);
        let c = items[i - 1].cost as int;
        let v = items[i - 1].value as int;
        if c <= w && skip < best_value(items, i - 1, w - c) + v {
            best_value(items, i - 1, w - c) + v
        } else {
            skip
        }
    }
}

/// Sum of the costs of a run of candidates.
pub open spec fn seq_cost(s: Seq<BuyCandidate>) -> int
    decreases s.len(),
{
    if s.len() == 0 {
        0
    } else {
        s.last().cost + seq_cost(s.drop_last())
    }
}

/// Sum of the values of a run of candidates.
pub open spec fn seq_value(s: Seq<BuyCandidate>) -> int
    decreases s.len(),
{
    if s.len() == 0 {
        0
    } else {
        s.last().value + seq_value(s.drop_last())
    }
}

/// A marked range of nonnegative costs never sums below zero.
proof fn lemma_range_cost_nonneg(items: Seq<BuyCandidate>, sel: Seq<bool>, lo: int, hi: int)
    requires
        0 <= lo,
        hi <= items.len(),
        forall|j: int| 0 <= j < items.len() ==> candidate_ok(#[trigger] items[j]),
    ensures
        range_cost(items, sel, lo, hi) >= 0,
    decreases hi - lo,
{
    if hi > lo {
        lemma_range_cost_nonneg(items, sel, lo, hi - 1);
    }
}

/// Marked-range sums read only the marks inside the range.
proof fn lemma_range_frame(
    items: Seq<BuyCandidate>,
    sel1: Seq<bool>,
    sel2: Seq<bool>,
    lo: int,
    hi: int,
)
    requires
        forall|j: int| lo <= j < hi ==> sel1[j] == sel2[j],
    ensures
        range_cost(items, sel1, lo, hi) == range_cost(items, sel2, lo, hi),
        range_value(items, sel1, lo, hi) == range_value(items, sel2, lo, hi),
        rev_picked(items, sel1, lo, hi) == rev_picked(items, sel2, lo, hi),
        rev_dropped(items, sel1, lo, hi) == rev_dropped(items, sel2, lo, hi),
    decreases hi - lo,
{
    if hi > lo {
        lemma_range_frame(items, sel1, sel2, lo, hi - 1);
    }
}

/// Peels the lowest index off a marked range, instead of the highest one
/// the definitions peel.
proof fn lemma_range_peel_bottom(items: Seq<BuyCandidate>, sel: Seq<bool>, lo: int, hi: int)
    requires
        lo < hi,
    ensures
        range_cost(items, sel, lo, hi) == range_cost(items, sel, lo + 1, hi) + (if sel[lo] {
            items[lo].cost as int
        } else {
            0
        }),
        range_value(items, sel, lo, hi) == range_value(items, sel, lo + 1, hi) + (if sel[lo] {
            items[lo].value as int
        } else {
            0
        }),
        rev_picked(items, sel, lo, hi) == rev_picked(items, sel, lo + 1, hi) + (if sel[lo] {
            seq![items[lo]]
        } else {
            Seq::empty()
        }),
        rev_dropped(items, sel, lo, hi) == rev_dropped(items, sel, lo + 1, hi) + (if sel[lo] {
            Seq::empty()
        } else {
            seq![items[lo]]
        }),
    decreases hi - lo,
{
    let a_pick = if sel[lo] {
        seq![items[lo]]
    } else {
        Seq::<BuyCandidate>::empty()
    };
    let a_drop = if sel[lo] {
        Seq::<BuyCandidate>::empty()
    } else {
        seq![items[lo]]
    };
    if lo + 1 == hi {
        assert(range_cost(items, sel, lo, lo) == 0);
        assert(range_cost(items, sel, lo + 1, hi) == 0);
        assert(range_value(items, sel, lo, lo) == 0);
        assert(range_value(items, sel, lo + 1, hi) == 0);
        assert(rev_picked(items, sel, lo, lo) == Seq::<BuyCandidate>::empty());
        assert(rev_picked(items, sel, lo + 1, hi) == Seq::<BuyCandidate>::empty());
        assert(rev_picked(items, sel, lo, hi) == a_pick + Seq::<BuyCandidate>::empty());
        assert(a_pick + Seq::<BuyCandidate>::empty() =~= Seq::<BuyCandidate>::empty() + a_pick);
        assert(rev_dropped(items, sel, lo, lo) == Seq::<BuyCandidate>::empty());
        assert(rev_dropped(items, sel, lo + 1, hi) == Seq::<BuyCandidate>::empty());
        assert(rev_dropped(items, sel, lo, hi) == a_drop + Seq::<BuyCandidate>::empty());
        assert(a_drop + Seq::<BuyCandidate>::empty() =~= Seq::<BuyCandidate>::empty() + a_drop);
    } else {
        lemma_range_peel_bottom(items, sel, lo, hi - 1);
        let c_hi = if sel[hi - 1] {
            items[hi - 1].cost as int
        } else {
            0
        };
        let v_hi = if sel[hi - 1] {
            items[hi - 1].value as int
        } else {
            0
        };
        assert(range_cost(items, sel, lo, hi) == c_hi + range_cost(items, sel, lo, hi - 1));
        assert(range_cost(items, sel, lo + 1, hi) == c_hi + range_cost(items, sel, lo + 1, hi - 1));
        assert(range_value(items, sel, lo, hi) == v_hi + range_value(items, sel, lo, hi - 1));
        assert(range_value(items, sel, lo + 1, hi) == v_hi + range_value(
            items,
            sel,
            lo + 1,
            hi - 1,
        ));
        let b_pick = if sel[hi - 1] {
            seq![items[hi - 1]]
        } else {
            Seq::<BuyCandidate>::empty()
        };
        let b_drop = if sel[hi - 1] {
            Seq::<BuyCandidate>::empty()
        } else {
            seq![items[hi - 1]]
        };
        assert(rev_picked(items, sel, lo, hi) == b_pick + rev_picked(items, sel, lo, hi - 1));
        assert(rev_picked(items, sel, lo + 1, hi) == b_pick + rev_picked(
            items,
            sel,
            lo + 1,
            hi - 1,
        ));
        assert(b_pick + (rev_picked(items, sel, lo + 1, hi - 1) + a_pick) =~= (b_pick + rev_picked(
            items,
            sel,
            lo + 1,
            hi - 1,
        )) + a_pick);
        assert(rev_dropped(items, sel, lo, hi) == b_drop + rev_dropped(items, sel, lo, hi - 1));
        assert(rev_dropped(items, sel, lo + 1, hi) == b_drop + rev_dropped(
            items,
            sel,
            lo + 1,
            hi - 1,
        ));
        assert(b_drop + (rev_dropped(items, sel, lo + 1, hi - 1) + a_drop) =~= (b_drop
            + rev_dropped(items, sel, lo + 1, hi - 1)) + a_drop);
    }
}

/// The recurrence's value never drops below zero nor above the number of
/// candidates times the price bound.
proof fn lemma_best_value_bounds(items: Seq<BuyCandidate>, i: int, w: int)
    requires
        i <= items.len(),
        forall|j: int| 0 <= j < items.len() ==> candidate_ok(#[trigger] items[j]),
    ensures
        0 <= best_value(items, i, w),
        best_value(items, i, w) <= (if i >= 0 {
            i
        } else {
            0
        }) * (PRICE_LIMIT as int),
    decreases i,
{
    if i > 0 {
        lemma_best_value_bounds(items, i - 1, w);
        lemma_best_value_bounds(items, i - 1, w - (items[i - 1].cost as int));
        assert((i - 1) * (PRICE_LIMIT as int) + (PRICE_LIMIT as int) == i * (PRICE_LIMIT as int))
            by (nonlinear_arith);
    }
}

/// No feasible selection of the first `i` candidates is worth more than
/// the recurrence's value: the optimality half of the knapsack law.
pub proof fn lemma_sel_le_best(items: Seq<BuyCandidate>, sel: Seq<bool>, i: int, w: int)
    requires
        0 <= i <= items.len(),
        sel.len() == items.len(),
        forall|j: int| 0 <= j < items.len() ==> candidate_ok(#[trigger] items[j]),
        range_cost(items, sel, 0, i) <= w,
    ensures
        range_value(items, sel, 0, i) <= best_value(items, i, w),
    decreases i,
{
    if i > 0 {
        let c = items[i - 1].cost as int;
        let v = items[i - 1].value as int;
        lemma_range_cost_nonneg(items, sel, 0, i - 1);
        if sel[i - 1] {
            lemma_sel_le_best(items, sel, i - 1, w - c);
        } else {
            lemma_sel_le_best(items, sel, i - 1, w);
        }
    }
}

/// Summing a marked range over the picked run itself gives the range sums.
proof fn lemma_picked_sums(items: Seq<BuyCandidate>, sel: Seq<bool>, lo: int, hi: int)
    requires
        0 <= lo <= hi,
    ensures
        seq_cost(rev_picked(items, sel, lo, hi)) == range_cost(items, sel, lo, hi),
        seq_value(rev_picked(items, sel, lo, hi)) == range_value(items, sel, lo, hi),
    decreases hi - lo,
{
    if lo < hi {
        lemma_picked_sums(items, sel, lo + 1, hi);
        lemma_range_peel_bottom(items, sel, lo, hi);
        let rest = rev_picked(items, sel, lo + 1, hi);
        if sel[lo] {
            let whole = rest + seq![items[lo]];
            assert(whole.last() == items[lo]);
            assert(whole.drop_last() =~= rest);
        } else {
            assert(rest + Seq::<BuyCandidate>::empty() =~= rest);
        }
    }
}

/// Chooses, from candidate buy orders and a total-capital cap, the subset
/// of greatest total expected profit whose total platinum cost stays
/// within the cap.  Returns the best total value, the candidates kept
/// (highest index first) and the candidates let go, a partition of the
/// input.
pub fn knapsack(items: &Vec<BuyCandidate>, max_weight: i64) -> (r: (
    i64,
    Vec<BuyCandidate>,
    Vec<BuyCandidate>,
))
    requires
        forall|j: int| 0 <= j < items@.len() ==> candidate_ok(#[trigger] items@[j]),
        items@.len() <= MAX_CANDIDATES,
        0 <= max_weight <= PRICE_LIMIT,
    ensures
        r.0 as int == best_value(items@, items@.len() as int, max_weight as int),
        seq_cost(r.1@) <= max_weight,
        seq_value(r.1@) == r.0 as int,
        forall|s: Seq<bool>|
            s.len() == items@.len() && sel_cost(items@, s) <= max_weight ==> sel_value(items@, s)
                <= r.0 as int,
        exists|s: Seq<bool>|
            {
                &&& s.len() == items@.len()
                &&& sel_cost(items@, s) <= max_weight
                &&& sel_value(items@, s) == r.0 as int
                &&& r.1@ == rev_picked(items@, s, 0, items@.len() as int)
                &&& r.2@ == rev_dropped(items@, s, 0, items@.len() as int)
            },
{
    let n = items.len();
    let cap = max_weight as usize;
    let mut dp: Vec<Vec<i64>> = Vec::new();
    let mut row0: Vec<i64> = Vec::new();
    let mut w0: usize = 0;
    while w0 <= cap
        invariant
            w0 <= cap + 1,
            row0@.len() == w0,
            cap as int == max_weight as int,
            max_weight <= PRICE_LIMIT,
            forall|k: int| 0 <= k < w0 ==> row0@[k] == 0,
        decreases cap + 1 - w0,
    {
        row0.push(0);
        w0 = w0 + 1;
    }
    dp.push(row0);
    let mut i: usize = 1;
    while i <= n
        invariant
            1 <= i <= n + 1,
            n == items@.len(),
            n <= MAX_CANDIDATES,
            cap as int == max_weight as int,
            0 <= max_weight <= PRICE_LIMIT,
            forall|j: int| 0 <= j < items@.len() ==> candidate_ok(#[trigger] items@[j]),
            dp@.len() == i,
            forall|q: int| 0 <= q < i ==> #[trigger] dp@[q]@.len() == cap + 1,
            forall|q: int, k: int|
                0 <= q < i && 0 <= k <= cap ==> #[trigger] dp@[q]@[k] == best_value(items@, q, k),
        decreases n + 1 - i,
    {
        let c = items[i - 1].cost;
        let v = items[i - 1].value;
        let mut row: Vec<i64> = Vec::new();
        let mut w: usize = 0;
        while w <= cap
            invariant
                w <= cap + 1,
                1 <= i <= n,
                n == items@.len(),
                n <= MAX_CANDIDATES,
                cap as int == max_weight as int,
                0 <= max_weight <= PRICE_LIMIT,
                c == items@[i - 1].cost,
                v == items@[i - 1].value,
                forall|j: int| 0 <= j < items@.len() ==> candidate_ok(#[trigger] items@[j]),
                dp@.len() == i,
                forall|q: int| 0 <= q < i ==> #[trigger] dp@[q]@.len() == cap + 1,
                forall|q: int, k: int|
                    0 <= q < i && 0 <= k <= cap ==> #[trigger] dp@[q]@[k] == best_value(
                        items@,
                        q,
                        k,
                    ),
                row@.len() == w,
                forall|k: int| 0 <= k < w ==> #[trigger] row@[k] == best_value(items@, i as int, k),
            decreases cap + 1 - w,
        {
            let skip = dp[i - 1][w];
            proof {
                lemma_best_value_bounds(items@, i - 1, w as int);
                assert((i - 1) * (PRICE_LIMIT as int) <= (MAX_CANDIDATES as int) * (
                PRICE_LIMIT as int)) by (nonlinear_arith)
                    requires
                        0 <= i - 1 <= MAX_CANDIDATES,
                ;
            }
            let val: i64;
            if c as usize <= w {
                proof {
                    lemma_best_value_bounds(items@, i - 1, w - c);
                }
                let take = dp[i - 1][w - c as usize] + v;
                val = if take > skip {
                    take
                } else {
                    skip
                };
            } else {
                val = skip;
            }
            proof {
                assert(val == best_value(items@, i as int, w as int));
            }
            row.push(val);
            w = w + 1;
        }
        dp.push(row);
        i = i + 1;
    }
    let best = dp[n][cap];
    let mut selected: Vec<BuyCandidate> = Vec::new();
    let mut unselected: Vec<BuyCandidate> = Vec::new();
    let mut w: usize = cap;
    let ghost mut sel: Seq<bool> = Seq::new(n as nat, |j: int| false);
    let mut k: usize = n;
    proof {
        assert(rev_picked(items@, sel, n as int, n as int) =~= selected@);
        assert(rev_dropped(items@, sel, n as int, n as int) =~= unselected@);
    }
    while k > 0
        invariant
            k <= n,
            n == items@.len(),
            n <= MAX_CANDIDATES,
            cap as int == max_weight as int,
            0 <= max_weight <= PRICE_LIMIT,
            forall|j: int| 0 <= j < items@.len() ==> candidate_ok(#[trigger] items@[j]),
            dp@.len() == n + 1,
            forall|q: int| 0 <= q < n + 1 ==> #[trigger] dp@[q]@.len() == cap + 1,
            forall|q: int, kk: int|
                0 <= q < n + 1 && 0 <= kk <= cap ==> #[trigger] dp@[q]@[kk] == best_value(
                    items@,
                    q,
                    kk,
                ),
            best == dp@[n as int]@[cap as int],
            sel.len() == n,
            w <= cap,
            w as int == max_weight - range_cost(items@, sel, k as int, n as int),
            best_value(items@, k as int, w as int) + range_value(items@, sel, k as int, n as int)
                == best_value(items@, n as int, max_weight as int),
            selected@ == rev_picked(items@, sel, k as int, n as int),
            unselected@ == rev_dropped(items@, sel, k as int, n as int),
        decreases k,
    {
        k = k - 1;
        let ghost old_sel = sel;
        let skip = dp[k][w];
        let cur = dp[k + 1][w];
        let c = items[k].cost;
        if cur != skip {
            proof {
                assert(c <= w as int && best_value(items@, k + 1, w as int) == best_value(
                    items@,
                    k as int,
                    w as int - c,
                ) + items@[k as int].value);
                sel = sel.update(k as int, true);
                lemma_range_frame(items@, old_sel, sel, k + 1, n as int);
                lemma_range_peel_bottom(items@, sel, k as int, n as int);
            }
            selected.push(items[k].duplicate());
            w = w - c as usize;
        } else {
            proof {
                assert(best_value(items@, k + 1, w as int) == best_value(
                    items@,
                    k as int,
                    w as int,
                ));
                sel = sel.update(k as int, false);
                lemma_range_frame(items@, old_sel, sel, k + 1, n as int);
                lemma_range_peel_bottom(items@, sel, k as int, n as int);
            }
            unselected.push(items[k].duplicate());
        }
    }
    proof {
        lemma_picked_sums(items@, sel, 0, n as int);
        assert(best as int == best_value(items@, n as int, max_weight as int));
        assert(sel_cost(items@, sel) == max_weight - w as int);
        assert(sel_value(items@, sel) == best as int);
        assert forall|s: Seq<bool>|
            s.len() == items@.len() && sel_cost(items@, s) <= max_weight implies sel_value(
            items@,
            s,
        ) <= best as int by {
            lemma_sel_le_best(items@, s, items@.len() as int, max_weight as int);
        };
        assert({
            &&& sel.len() == items@.len()
            &&& sel_cost(items@, sel) <= max_weight
            &&& sel_value(items@, sel) == best as int
            &&& selected@ == rev_picked(items@, sel, 0, items@.len() as int)
            &&& unselected@ == rev_dropped(items@, sel, 0, items@.len() as int)
        });
    }
    (best, selected, unselected)
}

} // verus!
