//! Overlap analytics: from raw historical price observations to the
//! per-item composite rows the engine trades on.
//!
//! The pipeline groups observations by (item, order type) and averages
//! each group, filters the closed-market rows by liquidity, orders them
//! by price range, computes each item's trailing weekly price shift,
//! applies the whitelist policy, and joins the sell-side and buy-side
//! means back on to compute the overlap.  Every step is a function of
//! the observation table and the settings alone, so one table has
//! exactly one result.

use vstd::prelude::*;

use crate::types::{observation_ok, string_eq, AveragedStat, PriceObservation};
use crate::PRICE_LIMIT;

verus! {

/// Most observations one analysis accepts; keeps every group sum inside
/// `i64`.
pub const MAX_OBSERVATIONS: usize = 1_000_000;

/// The observation belongs to the (item, order type) group.
pub open spec fn same_key(o: PriceObservation, name: Seq<char>, ot: Seq<char>) -> bool {
    o.name@ == name && o.order_type@ == ot
}

/// Running totals of one (item, order type) group.
pub struct GroupSums {
    pub count: int,
    pub volume: int,
    pub min_price: int,
    pub max_price: int,
    pub range: int,
    pub median: int,
    pub avg_price: int,
    pub mod_rank: int,
}

/// Sums of the numeric columns over a group's observations.
pub open spec fn group_sums(t: Seq<PriceObservation>, name: Seq<char>, ot: Seq<char>) -> GroupSums
    decreases t.len(),
{
    if t.len() == 0 {
        GroupSums {
            count: 0,
            volume: 0,
            min_price: 0,
            max_price: 0,
            range: 0,
            median: 0,
            avg_price: 0,
            mod_rank: 0,
        }
    } else {
        let g = group_sums(t.drop_last(), name, ot);
        if same_key(t.last(), name, ot) {
            GroupSums {
                count: g.count + 1,
                volume: g.volume + t.last().volume,
                min_price: g.min_price + t.last().min_price,
                max_price: g.max_price + t.last().max_price,
                range: g.range + t.last().range,
                median: g.median + t.last().median,
                avg_price: g.avg_price + t.last().avg_price,
                mod_rank: g.mod_rank + t.last().mod_rank,
            }
        } else {
            g
        }
    }
}

/// The item id of a group's first observation.
pub open spec fn group_item_id(t: Seq<PriceObservation>, name: Seq<char>, ot: Seq<char>) -> Seq<
    char,
>
    decreases t.len(),
{
    if t.len() == 0 {
        Seq::empty()
    } else if group_sums(t.drop_last(), name, ot).count > 0 {
        group_item_id(t.drop_last(), name, ot)
    } else if same_key(t.last(), name, ot) {
        t.last().item_id@
    } else {
        group_item_id(t.drop_last(), name, ot)
    }
}

/// The mathematical value of one averaged group: each numeric column's
/// mean, and the first observation's item id.
pub struct StatModel {
    pub name: Seq<char>,
    pub order_type: Seq<char>,
    pub volume: int,
    pub min_price: int,
    pub max_price: int,
    pub range: int,
    pub median: int,
    pub avg_price: int,
    pub mod_rank: int,
    pub item_id: Seq<char>,
}

/// The averaged statistic of one group, as a function of the table.
pub open spec fn stat_model(t: Seq<PriceObservation>, name: Seq<char>, ot: Seq<char>) -> StatModel {
    let g = group_sums(t, name, ot);
    StatModel {
        name: name,
        order_type: ot,
        volume: g.volume / g.count,
        min_price: g.min_price / g.count,
        max_price: g.max_price / g.count,
        range: g.range / g.count,
        median: g.median / g.count,
        avg_price: g.avg_price / g.count,
        mod_rank: g.mod_rank / g.count,
        item_id: group_item_id(t, name, ot),
    }
}

/// The executable statistic carries exactly the model's values.
pub open spec fn stat_matches(s: AveragedStat, m: StatModel) -> bool {
    &&& s.name@ == m.name
    &&& s.order_type@ == m.order_type
    &&& s.volume as int == m.volume
    &&& s.min_price as int == m.min_price
    &&& s.max_price as int == m.max_price
    &&& s.range as int == m.range
    &&& s.median as int == m.median
    &&& s.avg_price as int == m.avg_price
    &&& s.mod_rank as int == m.mod_rank
    &&& s.item_id@ == m.item_id
}

/// An averaged statistic within the engine's price bounds.
pub open spec fn stat_ok(s: AveragedStat) -> bool {
    &&& 0 <= s.volume <= PRICE_LIMIT
    &&& 0 <= s.min_price <= PRICE_LIMIT
    &&& 0 <= s.max_price <= PRICE_LIMIT
    &&& 0 <= s.range <= PRICE_LIMIT
    &&& 0 <= s.median <= PRICE_LIMIT
    &&& 0 <= s.avg_price <= PRICE_LIMIT
    &&& 0 <= s.mod_rank <= PRICE_LIMIT
}

/// The distinct (item, order type) keys of a table, in order of first
/// occurrence.
pub open spec fn group_keys(t: Seq<PriceObservation>) -> Seq<(Seq<char>, Seq<char>)>
    decreases t.len(),
{
    if t.len() == 0 {
        Seq::empty()
    } else {
        let ks = group_keys(t.drop_last());
        let k = (t.last().name@, t.last().order_type@);
        if ks.contains(k) {
            ks
        } else {
            ks.push(k)
        }
    }
}

/// Group sums of a well-formed table stay within the count times the
/// price bound.
proof fn lemma_group_sums_bounds(t: Seq<PriceObservation>, name: Seq<char>, ot: Seq<char>)
    requires
        forall|j: int| 0 <= j < t.len() ==> observation_ok(#[trigger] t[j]),
    ensures
        0 <= group_sums(t, name, ot).count <= t.len(),
        0 <= group_sums(t, name, ot).volume <= group_sums(t, name, ot).count * (PRICE_LIMIT as int),
        0 <= group_sums(t, name, ot).min_price <= group_sums(t, name, ot).count * (
        PRICE_LIMIT as int),
        0 <= group_sums(t, name, ot).max_price <= group_sums(t, name, ot).count * (
        PRICE_LIMIT as int),
        0 <= group_sums(t, name, ot).range <= group_sums(t, name, ot).count * (PRICE_LIMIT as int),
        0 <= group_sums(t, name, ot).median <= group_sums(t, name, ot).count * (PRICE_LIMIT as int),
        0 <= group_sums(t, name, ot).avg_price <= group_sums(t, name, ot).count * (
        PRICE_LIMIT as int),
        0 <= group_sums(t, name, ot).mod_rank <= group_sums(t, name, ot).count * (
        PRICE_LIMIT as int),
    decreases t.len(),
{
    if t.len() > 0 {
        lemma_group_sums_bounds(t.drop_last(), name, ot);
        let c = group_sums(t.drop_last(), name, ot).count;
        assert((c + 1) * (PRICE_LIMIT as int) == c * (PRICE_LIMIT as int) + (PRICE_LIMIT as int))
            by (nonlinear_arith);
    }
}

/// A group mean lies between zero and the price bound.
proof fn lemma_mean_bounds(sum: int, count: int)
    requires
        count > 0,
        0 <= sum <= count * (PRICE_LIMIT as int),
    ensures
        0 <= sum / count <= PRICE_LIMIT as int,
{
    vstd::arithmetic::div_mod::lemma_div_pos_is_pos(sum, count);
    vstd::arithmetic::div_mod::lemma_div_is_ordered(sum, count * (PRICE_LIMIT as int), count);
    assert(count * (PRICE_LIMIT as int) == (PRICE_LIMIT as int) * count) by (nonlinear_arith);
    vstd::arithmetic::div_mod::lemma_div_multiples_vanish(PRICE_LIMIT as int, count);
}

/// A group's count never drops below zero.
proof fn lemma_count_nonneg(t: Seq<PriceObservation>, name: Seq<char>, ot: Seq<char>)
    ensures
        group_sums(t, name, ot).count >= 0,
    decreases t.len(),
{
    if t.len() > 0 {
        lemma_count_nonneg(t.drop_last(), name, ot);
    }
}

/// An observation with the key puts the whole table's group count above
/// zero.
proof fn lemma_count_positive(t: Seq<PriceObservation>, name: Seq<char>, ot: Seq<char>, j: int)
    requires
        0 <= j < t.len(),
        same_key(t[j], name, ot),
    ensures
        group_sums(t, name, ot).count > 0,
    decreases t.len(),
{
    lemma_count_nonneg(t.drop_last(), name, ot);
    if j < t.len() - 1 {
        lemma_count_positive(t.drop_last(), name, ot, j);
    }
}

/// Computes one (item, order type) group's averaged statistic over the
/// whole table: the mean of every numeric column and the first matching
/// observation's item id.  `None` when no observation has the key.
pub fn try_stat_for_key(
    table: &Vec<PriceObservation>,
    name: &String,
    order_type: &str,
) -> (r: Option<AveragedStat>)
    requires
        forall|j: int| 0 <= j < table@.len() ==> observation_ok(#[trigger] table@[j]),
        table@.len() <= MAX_OBSERVATIONS,
    ensures
        (r is None) == (group_sums(table@, name@, order_type@).count == 0),
        r matches Some(s) ==> (stat_matches(s, stat_model(table@, name@, order_type@)) && stat_ok(
            s,
        )),
{
    let mut count: i64 = 0;
    let mut volume: i64 = 0;
    let mut min_price: i64 = 0;
    let mut max_price: i64 = 0;
    let mut range: i64 = 0;
    let mut median: i64 = 0;
    let mut avg_price: i64 = 0;
    let mut mod_rank: i64 = 0;
    let mut first_id = String::new();
    let mut j: usize = 0;
    while j < table.len()
        invariant
            j <= table@.len(),
            table@.len() <= MAX_OBSERVATIONS,
            forall|k: int| 0 <= k < table@.len() ==> observation_ok(#[trigger] table@[k]),
            count as int == group_sums(table@.subrange(0, j as int), name@, order_type@).count,
            volume as int == group_sums(table@.subrange(0, j as int), name@, order_type@).volume,
            min_price as int == group_sums(
                table@.subrange(0, j as int),
                name@,
                order_type@,
            ).min_price,
            max_price as int == group_sums(
                table@.subrange(0, j as int),
                name@,
                order_type@,
            ).max_price,
            range as int == group_sums(table@.subrange(0, j as int), name@, order_type@).range,
            median as int == group_sums(table@.subrange(0, j as int), name@, order_type@).median,
            avg_price as int == group_sums(
                table@.subrange(0, j as int),
                name@,
                order_type@,
            ).avg_price,
            mod_rank as int == group_sums(
                table@.subrange(0, j as int),
                name@,
                order_type@,
            ).mod_rank,
            count > 0 ==> first_id@ == group_item_id(
                table@.subrange(0, j as int),
                name@,
                order_type@,
            ),
        decreases table@.len() - j,
    {
        let ghost prefix = table@.subrange(0, j as int);
        proof {
            lemma_group_sums_bounds(prefix, name@, order_type@);
            assert(group_sums(prefix, name@, order_type@).count * (PRICE_LIMIT as int)
                <= MAX_OBSERVATIONS * (PRICE_LIMIT as int)) by (nonlinear_arith)
                requires
                    0 <= group_sums(prefix, name@, order_type@).count <= MAX_OBSERVATIONS as int,
            ;
        }
        let o = &table[j];
        if string_eq(&o.name, name) && crate::types::str_eq(o.order_type.as_str(), order_type) {
            if count == 0 {
                first_id = o.item_id.clone();
            }
            volume = volume + o.volume;
            min_price = min_price + o.min_price;
            max_price = max_price + o.max_price;
            range = range + o.range;
            median = median + o.median;
            avg_price = avg_price + o.avg_price;
            mod_rank = mod_rank + o.mod_rank;
            count = count + 1;
        }
        j = j + 1;
        proof {
            assert(table@.subrange(0, j as int).drop_last() =~= prefix);
            assert(table@.subrange(0, j as int).last() == table@[j - 1]);
        }
    }
    proof {
        assert(table@.subrange(0, table@.len() as int) =~= table@);
    }
    if count == 0 {
        return None;
    }
    proof {
        lemma_group_sums_bounds(table@, name@, order_type@);
        lemma_mean_bounds(volume as int, count as int);
        lemma_mean_bounds(min_price as int, count as int);
        lemma_mean_bounds(max_price as int, count as int);
        lemma_mean_bounds(range as int, count as int);
        lemma_mean_bounds(median as int, count as int);
        lemma_mean_bounds(avg_price as int, count as int);
        lemma_mean_bounds(mod_rank as int, count as int);
    }
    Some(
        AveragedStat {
            name: name.clone(),
            order_type: order_type.to_owned(),
            volume: volume / count,
            min_price: min_price / count,
            max_price: max_price / count,
            range: range / count,
            median: median / count,
            avg_price: avg_price / count,
            mod_rank: mod_rank / count,
            item_id: first_id,
        },
    )
}

/// The statistics' keys are exactly the listed keys, in order.
pub open spec fn stats_match_keys(
    stats: Seq<AveragedStat>,
    keys: Seq<(Seq<char>, Seq<char>)>,
) -> bool {
    &&& stats.len() == keys.len()
    &&& forall|i: int|
        0 <= i < stats.len() ==> (#[trigger] stats[i]).name@ == keys[i].0 && stats[i].order_type@
            == keys[i].1
}

/// Whether the statistics already carry the key.
fn contains_stat_key(stats: &Vec<AveragedStat>, name: &String, order_type: &String) -> (r: bool)
    ensures
        r == exists|i: int|
            0 <= i < stats@.len() && (#[trigger] stats@[i]).name@ == name@
                && stats@[i].order_type@ == order_type@,
{
    let mut i: usize = 0;
    while i < stats.len()
        invariant
            i <= stats@.len(),
            forall|k: int|
                0 <= k < i ==> !((#[trigger] stats@[k]).name@ == name@ && stats@[k].order_type@
                    == order_type@),
        decreases stats@.len() - i,
    {
        if string_eq(&stats[i].name, name) && string_eq(&stats[i].order_type, order_type) {
            return true;
        }
        i = i + 1;
    }
    false
}

/// Reduces the raw observation table to one averaged statistic per
/// (item, order type) group, in order of each group's first appearance.
pub fn aggregate_history(table: &Vec<PriceObservation>) -> (r: Vec<AveragedStat>)
    requires
        forall|j: int| 0 <= j < table@.len() ==> observation_ok(#[trigger] table@[j]),
        table@.len() <= MAX_OBSERVATIONS,
    ensures
        stats_match_keys(r@, group_keys(table@)),
        forall|i: int|
            0 <= i < r@.len() ==> stat_matches(
                #[trigger] r@[i],
                stat_model(table@, group_keys(table@)[i].0, group_keys(table@)[i].1),
            ) && stat_ok(r@[i]),
{
    let mut out: Vec<AveragedStat> = Vec::new();
    let mut j: usize = 0;
    while j < table.len()
        invariant
            j <= table@.len(),
            table@.len() <= MAX_OBSERVATIONS,
            forall|k: int| 0 <= k < table@.len() ==> observation_ok(#[trigger] table@[k]),
            stats_match_keys(out@, group_keys(table@.subrange(0, j as int))),
            forall|i: int|
                0 <= i < out@.len() ==> stat_matches(
                    #[trigger] out@[i],
                    stat_model(
                        table@,
                        group_keys(table@.subrange(0, j as int))[i].0,
                        group_keys(table@.subrange(0, j as int))[i].1,
                    ),
                ) && stat_ok(out@[i]),
        decreases table@.len() - j,
    {
        let ghost prefix = table@.subrange(0, j as int);
        let ghost ks = group_keys(prefix);
        let o = &table[j];
        let already = contains_stat_key(&out, &o.name, &o.order_type);
        proof {
            let k = (o.name@, o.order_type@);
            if already {
                let i = choose|i: int|
                    0 <= i < out@.len() && (#[trigger] out@[i]).name@ == o.name@
                        && out@[i].order_type@ == o.order_type@;
                assert(ks[i] == k);
                assert(ks.contains(k));
            } else if ks.contains(k) {
                let i = choose|i: int| 0 <= i < ks.len() && #[trigger] ks[i] == k;
                assert((#[trigger] out@[i]).name@ == o.name@ && out@[i].order_type@
                    == o.order_type@);
                assert(false);
            }
            assert(already == ks.contains((o.name@, o.order_type@)));
        }
        if !already {
            proof {
                lemma_count_positive(table@, o.name@, o.order_type@, j as int);
            }
            let stat = try_stat_for_key(table, &o.name, o.order_type.as_str());
            match stat {
                Some(s) => {
                    out.push(s);
                },
                None => {
                    proof {
                        assert(false);
                    }
                },
            }
        }
        j = j + 1;
        proof {
            assert(table@.subrange(0, j as int).drop_last() =~= prefix);
            assert(table@.subrange(0, j as int).last() == table@[j - 1]);
        }
    }
    proof {
        assert(table@.subrange(0, table@.len() as int) =~= table@);
    }
    out
}

/// An item's closed-market observations, in table order.
pub open spec fn closed_rows(t: Seq<PriceObservation>, name: Seq<char>) -> Seq<PriceObservation>
    decreases t.len(),
{
    if t.len() == 0 {
        Seq::empty()
    } else {
        let rest = closed_rows(t.drop_last(), name);
        if t.last().order_type@ == "closed"@ && t.last().name@ == name {
            rest.push(t.last())
        } else {
            rest
        }
    }
}

/// The times of a run of observations.
pub open spec fn datetimes_of(s: Seq<PriceObservation>) -> Seq<int> {
    Seq::new(s.len(), |i: int| s[i].datetime as int)
}

/// The trailing weekly price shift of one item: the difference between
/// the most recent and the seventh most recent closed daily medians,
/// taken over the item's closed sub-series sorted by time descending;
/// zero when fewer than seven closed records exist.
pub open spec fn week_shift(t: Seq<PriceObservation>, name: Seq<char>) -> int {
    let rows = closed_rows(t, name);
    let ord = crate::orderings::sorted_indices_desc(datetimes_of(rows), rows.len() as int);
    if rows.len() >= 7 {
        rows[ord[0]].median - rows[ord[6]].median
    } else {
        0
    }
}

/// Computes one item's trailing weekly price shift from the raw table.
pub fn week_price_shift(table: &Vec<PriceObservation>, name: &String) -> (r: i64)
    requires
        forall|j: int| 0 <= j < table@.len() ==> observation_ok(#[trigger] table@[j]),
    ensures
        r as int == week_shift(table@, name@),
        -(PRICE_LIMIT as int) <= r as int <= PRICE_LIMIT as int,
{
    let mut rows: Vec<PriceObservation> = Vec::new();
    let mut j: usize = 0;
    while j < table.len()
        invariant
            j <= table@.len(),
            forall|k: int| 0 <= k < table@.len() ==> observation_ok(#[trigger] table@[k]),
            rows@ == closed_rows(table@.subrange(0, j as int), name@),
            forall|k: int| 0 <= k < rows@.len() ==> observation_ok(#[trigger] rows@[k]),
        decreases table@.len() - j,
    {
        let ghost prefix = table@.subrange(0, j as int);
        let o = &table[j];
        if crate::types::str_eq(o.order_type.as_str(), "closed") && string_eq(&o.name, name) {
            rows.push(o.duplicate());
        }
        j = j + 1;
        proof {
            assert(table@.subrange(0, j as int).drop_last() =~= prefix);
            assert(table@.subrange(0, j as int).last() == table@[j - 1]);
        }
    }
    proof {
        assert(table@.subrange(0, table@.len() as int) =~= table@);
    }
    if rows.len() < 7 {
        return 0;
    }
    let mut keys: Vec<i64> = Vec::new();
    let mut i: usize = 0;
    while i < rows.len()
        invariant
            i <= rows@.len(),
            keys@.len() == i,
            forall|k: int| 0 <= k < i ==> #[trigger] keys@[k] == rows@[k].datetime,
        decreases rows@.len() - i,
    {
        keys.push(rows[i].datetime);
        i = i + 1;
    }
    proof {
        assert(crate::orderings::key_seq(keys@) =~= datetimes_of(rows@));
    }
    let ord = crate::orderings::sort_indices_by_key_desc(&keys);
    proof {
        assert(crate::orderings::idx_seq(ord@)[0] == ord@[0] as int);
        assert(crate::orderings::idx_seq(ord@)[6] == ord@[6] as int);
    }
    let a = rows[ord[0]].median;
    let b = rows[ord[6]].median;
    a - b
}

/// Every group's averaged statistic, in order of first appearance.
pub open spec fn all_stat_models(t: Seq<PriceObservation>) -> Seq<StatModel> {
    Seq::new(
        group_keys(t).len(),
        |i: int| stat_model(t, group_keys(t)[i].0, group_keys(t)[i].1),
    )
}

/// The executable statistics carry exactly the models' values.
pub open spec fn stats_match_models(ss: Seq<AveragedStat>, ms: Seq<StatModel>) -> bool {
    &&& ss.len() == ms.len()
    &&& forall|i: int| 0 <= i < ss.len() ==> stat_matches(#[trigger] ss[i], ms[i])
}

/// A closed-market group passes the liquidity filter: enough volume and
/// price range, or the item is owned.
pub open spec fn model_qualifies(m: StatModel, vt: int, rt: int, inv: Seq<String>) -> bool {
    m.order_type == "closed"@ && ((m.volume > vt && m.range > rt) || crate::types::name_listed(
        m.name,
        inv,
    ))
}

/// The groups that pass the liquidity filter, in order.
pub open spec fn filter_qualifying(
    ms: Seq<StatModel>,
    vt: int,
    rt: int,
    inv: Seq<String>,
) -> Seq<StatModel>
    decreases ms.len(),
{
    if ms.len() == 0 {
        Seq::empty()
    } else {
        let rest = filter_qualifying(ms.drop_last(), vt, rt, inv);
        if model_qualifies(ms.last(), vt, rt, inv) {
            rest.push(ms.last())
        } else {
            rest
        }
    }
}

/// The price ranges of a run of models.
pub open spec fn ranges_of(ms: Seq<StatModel>) -> Seq<int> {
    Seq::new(ms.len(), |i: int| ms[i].range)
}

/// The qualifying groups ordered by price range, descending, stably.
pub open spec fn sort_models_by_range(ms: Seq<StatModel>) -> Seq<StatModel> {
    crate::orderings::apply_order(
        ms,
        crate::orderings::sorted_indices_desc(ranges_of(ms), ms.len() as int),
    )
}

/// A row survives the whitelist policy: under strict whitelisting only
/// whitelisted items stay; otherwise a row stays when its average price
/// is under the cap and its price shift at or above the threshold, or
/// the item is owned or whitelisted.
pub open spec fn model_kept(
    m: StatModel,
    t: Seq<PriceObservation>,
    cap: int,
    pst: int,
    strict: bool,
    wl: Seq<String>,
    inv: Seq<String>,
) -> bool {
    if strict {
        crate::types::name_listed(m.name, wl)
    } else {
        (m.avg_price < cap && week_shift(t, m.name) >= pst) || crate::types::name_listed(
            m.name,
            inv,
        ) || crate::types::name_listed(m.name, wl)
    }
}

/// The rows that survive the whitelist policy, in order.
pub open spec fn filter_whitelist(
    ms: Seq<StatModel>,
    t: Seq<PriceObservation>,
    cap: int,
    pst: int,
    strict: bool,
    wl: Seq<String>,
    inv: Seq<String>,
) -> Seq<StatModel>
    decreases ms.len(),
{
    if ms.len() == 0 {
        Seq::empty()
    } else {
        let rest = filter_whitelist(ms.drop_last(), t, cap, pst, strict, wl, inv);
        if model_kept(ms.last(), t, cap, pst, strict, wl, inv) {
            rest.push(ms.last())
        } else {
            rest
        }
    }
}

/// The table has observations for the group.
pub open spec fn has_group(t: Seq<PriceObservation>, name: Seq<char>, ot: Seq<char>) -> bool {
    group_sums(t, name, ot).count > 0
}

/// The item has both a sell-side and a buy-side averaged statistic to
/// join onto.
pub open spec fn joinable(t: Seq<PriceObservation>, name: Seq<char>) -> bool {
    has_group(t, name, "sell"@) && has_group(t, name, "buy"@)
}

/// The mathematical value of one composite analytics row.
pub struct RowModel {
    pub name: Seq<char>,
    pub item_id: Seq<char>,
    pub mod_rank: int,
    pub min_sell: int,
    pub max_buy: int,
    pub overlap: int,
    pub closed_vol: int,
    pub closed_min: int,
    pub closed_max: int,
    pub closed_avg: int,
    pub closed_median: int,
    pub price_shift: int,
}

/// One item's composite row: the closed-market means, the sell-side
/// minimum and buy-side maximum joined on, their overlap, and the weekly
/// price shift.
pub open spec fn row_model(t: Seq<PriceObservation>, m: StatModel) -> RowModel {
    let sell = stat_model(t, m.name, "sell"@);
    let buy = stat_model(t, m.name, "buy"@);
    RowModel {
        name: m.name,
        item_id: m.item_id,
        mod_rank: m.mod_rank,
        min_sell: sell.min_price,
        max_buy: buy.max_price,
        overlap: buy.max_price - sell.min_price,
        closed_vol: m.volume,
        closed_min: m.min_price,
        closed_max: m.max_price,
        closed_avg: m.avg_price,
        closed_median: m.median,
        price_shift: week_shift(t, m.name),
    }
}

/// The composite rows of the joinable surviving items, in order.
pub open spec fn join_rows(ms: Seq<StatModel>, t: Seq<PriceObservation>) -> Seq<RowModel>
    decreases ms.len(),
{
    if ms.len() == 0 {
        Seq::empty()
    } else {
        let rest = join_rows(ms.drop_last(), t);
        if joinable(t, ms.last().name) {
            rest.push(row_model(t, ms.last()))
        } else {
            rest
        }
    }
}

/// The whole analyzer, as a function of the observation table and the
/// settings: group and average, filter by liquidity, order by range,
/// apply the whitelist policy, join the sell and buy means on.
pub open spec fn overlap_row_models(
    t: Seq<PriceObservation>,
    vt: int,
    rt: int,
    cap: int,
    pst: int,
    strict: bool,
    wl: Seq<String>,
    inv: Seq<String>,
) -> Seq<RowModel> {
    join_rows(
        filter_whitelist(
            sort_models_by_range(filter_qualifying(all_stat_models(t), vt, rt, inv)),
            t,
            cap,
            pst,
            strict,
            wl,
            inv,
        ),
        t,
    )
}

/// The executable row carries exactly the model's values.
pub open spec fn row_matches(r: crate::types::OverlapRow, m: RowModel) -> bool {
    &&& r.name@ == m.name
    &&& r.item_id@ == m.item_id
    &&& r.mod_rank as int == m.mod_rank
    &&& r.min_sell as int == m.min_sell
    &&& r.max_buy as int == m.max_buy
    &&& r.overlap as int == m.overlap
    &&& r.closed_vol as int == m.closed_vol
    &&& r.closed_min as int == m.closed_min
    &&& r.closed_max as int == m.closed_max
    &&& r.closed_avg as int == m.closed_avg
    &&& r.closed_median as int == m.closed_median
    &&& r.price_shift as int == m.price_shift
}

/// The executable rows carry exactly the models' values.
pub open spec fn rows_match(rs: Seq<crate::types::OverlapRow>, ms: Seq<RowModel>) -> bool {
    &&& rs.len() == ms.len()
    &&& forall|i: int| 0 <= i < rs.len() ==> row_matches(#[trigger] rs[i], ms[i])
}

/// Runs the overlap analyzer: reduces the raw observation table to one
/// composite row per qualifying item, ordered by closed-market price
/// range, descending.  The result is a function of the table, the
/// settings and the owned-item names alone.
pub fn analyze_overlap(
    table: &Vec<PriceObservation>,
    settings: &crate::types::EngineSettings,
    inventory_names: &Vec<String>,
) -> (r: Vec<crate::types::OverlapRow>)
    requires
        forall|j: int| 0 <= j < table@.len() ==> observation_ok(#[trigger] table@[j]),
        table@.len() <= MAX_OBSERVATIONS,
        crate::types::settings_ok(*settings),
    ensures
        rows_match(
            r@,
            overlap_row_models(
                table@,
                settings.volume_threshold as int,
                settings.range_threshold as int,
                settings.avg_price_cap as int,
                settings.price_shift_threshold as int,
                settings.strict_whitelist,
                settings.whitelist@,
                inventory_names@,
            ),
        ),
        forall|i: int| 0 <= i < r@.len() ==> crate::types::row_ok(#[trigger] r@[i]),
        forall|i: int, j: int|
            0 <= i < j < r@.len() ==> (#[trigger] r@[i]).name@ != (#[trigger] r@[j]).name@,
{
    let ghost vt = settings.volume_threshold as int;
    let ghost rt = settings.range_threshold as int;
    let ghost cap = settings.avg_price_cap as int;
    let ghost pst = settings.price_shift_threshold as int;
    let ghost strict = settings.strict_whitelist;
    let ghost wl = settings.whitelist@;
    let ghost inv = inventory_names@;
    let stats = aggregate_history(table);
    let ghost models = all_stat_models(table@);
    proof {
        assert(stats_match_models(stats@, models));
    }
    // Liquidity filter over the closed-market groups.
    let mut qual: Vec<AveragedStat> = Vec::new();
    let mut i: usize = 0;
    while i < stats.len()
        invariant
            i <= stats@.len(),
            stats_match_models(stats@, models),
            forall|k: int| 0 <= k < stats@.len() ==> stat_ok(#[trigger] stats@[k]),
            stats_match_models(qual@, filter_qualifying(models.subrange(0, i as int), vt, rt, inv)),
            forall|k: int| 0 <= k < qual@.len() ==> stat_ok(#[trigger] qual@[k]),
            vt == settings.volume_threshold as int,
            rt == settings.range_threshold as int,
            inv == inventory_names@,
        decreases stats@.len() - i,
    {
        let ghost mprefix = models.subrange(0, i as int);
        let s = &stats[i];
        let keep = crate::types::str_eq(s.order_type.as_str(), "closed") && ((s.volume
            > settings.volume_threshold && s.range > settings.range_threshold)
            || crate::types::list_contains(inventory_names, &s.name));
        proof {
            assert(keep == model_qualifies(models[i as int], vt, rt, inv));
        }
        if keep {
            qual.push(s.duplicate());
        }
        i = i + 1;
        proof {
            assert(models.subrange(0, i as int).drop_last() =~= mprefix);
            assert(models.subrange(0, i as int).last() == models[i - 1]);
        }
    }
    proof {
        assert(models.subrange(0, models.len() as int) =~= models);
    }
    let ghost qmodels = filter_qualifying(models, vt, rt, inv);
    // Order by closed-market price range, descending.
    let mut keys: Vec<i64> = Vec::new();
    let mut i: usize = 0;
    while i < qual.len()
        invariant
            i <= qual@.len(),
            keys@.len() == i,
            forall|k: int| 0 <= k < i ==> #[trigger] keys@[k] == qual@[k].range,
        decreases qual@.len() - i,
    {
        keys.push(qual[i].range);
        i = i + 1;
    }
    proof {
        assert(crate::orderings::key_seq(keys@) =~= ranges_of(qmodels));
    }
    let order = crate::orderings::sort_indices_by_key_desc(&keys);
    let ghost sorted_models = sort_models_by_range(qmodels);
    let mut sorted: Vec<AveragedStat> = Vec::new();
    let mut i: usize = 0;
    while i < order.len()
        invariant
            i <= order@.len(),
            stats_match_models(qual@, qmodels),
            forall|k: int| 0 <= k < qual@.len() ==> stat_ok(#[trigger] qual@[k]),
            crate::orderings::idx_seq(order@) == crate::orderings::sorted_indices_desc(
                ranges_of(qmodels),
                qmodels.len() as int,
            ),
            order@.len() == qual@.len(),
            forall|k: int| 0 <= k < order@.len() ==> (#[trigger] order@[k]) < qual@.len(),
            sorted_models == crate::orderings::apply_order(
                qmodels,
                crate::orderings::idx_seq(order@),
            ),
            sorted@.len() == i,
            forall|k: int| 0 <= k < i ==> #[trigger] sorted@[k] == qual@[order@[k] as int],
            forall|k: int| 0 <= k < i ==> stat_ok(#[trigger] sorted@[k]),
        decreases order@.len() - i,
    {
        let idx = order[i];
        sorted.push(qual[idx].duplicate());
        i = i + 1;
    }
    proof {
        assert(stats_match_models(sorted@, sorted_models)) by {
            assert(sorted@.len() == sorted_models.len());
            assert forall|k: int| 0 <= k < sorted@.len() implies stat_matches(
                #[trigger] sorted@[k],
                sorted_models[k],
            ) by {
                assert(sorted@[k] == qual@[order@[k] as int]);
                assert(sorted_models[k] == qmodels[crate::orderings::idx_seq(order@)[k]]);
            }
        }
    }
    // Whitelist policy.
    let mut kept: Vec<AveragedStat> = Vec::new();
    let mut i: usize = 0;
    while i < sorted.len()
        invariant
            i <= sorted@.len(),
            stats_match_models(sorted@, sorted_models),
            forall|k: int| 0 <= k < sorted@.len() ==> stat_ok(#[trigger] sorted@[k]),
            forall|k: int| 0 <= k < table@.len() ==> observation_ok(#[trigger] table@[k]),
            stats_match_models(
                kept@,
                filter_whitelist(
                    sorted_models.subrange(0, i as int),
                    table@,
                    cap,
                    pst,
                    strict,
                    wl,
                    inv,
                ),
            ),
            forall|k: int| 0 <= k < kept@.len() ==> stat_ok(#[trigger] kept@[k]),
            cap == settings.avg_price_cap as int,
            pst == settings.price_shift_threshold as int,
            strict == settings.strict_whitelist,
            wl == settings.whitelist@,
            inv == inventory_names@,
        decreases sorted@.len() - i,
    {
        let ghost mprefix = sorted_models.subrange(0, i as int);
        let s = &sorted[i];
        let keep: bool;
        if settings.strict_whitelist {
            keep = crate::types::list_contains(&settings.whitelist, &s.name);
        } else {
            let shift = week_price_shift(table, &s.name);
            keep = (s.avg_price < settings.avg_price_cap && shift
                >= settings.price_shift_threshold) || crate::types::list_contains(
                inventory_names,
                &s.name,
            ) || crate::types::list_contains(&settings.whitelist, &s.name);
        }
        proof {
            assert(keep == model_kept(sorted_models[i as int], table@, cap, pst, strict, wl, inv));
        }
        if keep {
            kept.push(s.duplicate());
        }
        i = i + 1;
        proof {
            assert(sorted_models.subrange(0, i as int).drop_last() =~= mprefix);
            assert(sorted_models.subrange(0, i as int).last() == sorted_models[i - 1]);
        }
    }
    proof {
        assert(sorted_models.subrange(0, sorted_models.len() as int) =~= sorted_models);
    }
    let ghost kept_models = filter_whitelist(sorted_models, table@, cap, pst, strict, wl, inv);
    // Join the sell-side and buy-side means back on.
    let mut out: Vec<crate::types::OverlapRow> = Vec::new();
    let mut i: usize = 0;
    while i < kept.len()
        invariant
            i <= kept@.len(),
            stats_match_models(kept@, kept_models),
            forall|k: int| 0 <= k < kept@.len() ==> stat_ok(#[trigger] kept@[k]),
            forall|k: int| 0 <= k < table@.len() ==> observation_ok(#[trigger] table@[k]),
            table@.len() <= MAX_OBSERVATIONS,
            rows_match(out@, join_rows(kept_models.subrange(0, i as int), table@)),
            forall|k: int| 0 <= k < out@.len() ==> crate::types::row_ok(#[trigger] out@[k]),
        decreases kept@.len() - i,
    {
        let ghost mprefix = kept_models.subrange(0, i as int);
        let s = &kept[i];
        proof {
            assert(stat_matches(kept@[i as int], kept_models[i as int]));
        }
        let sell = try_stat_for_key(table, &s.name, "sell");
        let buy = try_stat_for_key(table, &s.name, "buy");
        match (sell, buy) {
            (Some(sl), Some(by)) => {
                proof {
                    lemma_count_nonneg(table@, kept_models[i as int].name, "sell"@);
                    lemma_count_nonneg(table@, kept_models[i as int].name, "buy"@);
                    assert(joinable(table@, kept_models[i as int].name));
                }
                let shift = week_price_shift(table, &s.name);
                let row = crate::types::OverlapRow {
                    name: s.name.clone(),
                    item_id: s.item_id.clone(),
                    mod_rank: s.mod_rank,
                    min_sell: sl.min_price,
                    max_buy: by.max_price,
                    overlap: by.max_price - sl.min_price,
                    closed_vol: s.volume,
                    closed_min: s.min_price,
                    closed_max: s.max_price,
                    closed_avg: s.avg_price,
                    closed_median: s.median,
                    price_shift: shift,
                };
                proof {
                    assert(row_matches(row, row_model(table@, kept_models[i as int])));
                }
                out.push(row);
            },
            _ => {
                proof {
                    assert(!joinable(table@, kept_models[i as int].name));
                }
            },
        }
        i = i + 1;
        proof {
            assert(kept_models.subrange(0, i as int).drop_last() =~= mprefix);
            assert(kept_models.subrange(0, i as int).last() == kept_models[i - 1]);
        }
    }
    proof {
        assert(kept_models.subrange(0, kept_models.len() as int) =~= kept_models);
        lemma_row_names_unique(table@, vt, rt, cap, pst, strict, wl, inv);
        let ms = overlap_row_models(table@, vt, rt, cap, pst, strict, wl, inv);
        assert forall|i: int, j: int| 0 <= i < j < out@.len() implies (#[trigger] out@[i]).name@
            != (#[trigger] out@[j]).name@ by {
            assert(row_matches(out@[i], ms[i]));
            assert(row_matches(out@[j], ms[j]));
        }
    }
    out
}


/// Two analytics rows that carry the same values, field for field.
pub open spec fn rows_equal(a: crate::types::OverlapRow, b: crate::types::OverlapRow) -> bool {
    &&& a.name@ == b.name@
    &&& a.item_id@ == b.item_id@
    &&& a.mod_rank == b.mod_rank
    &&& a.min_sell == b.min_sell
    &&& a.max_buy == b.max_buy
    &&& a.overlap == b.overlap
    &&& a.closed_vol == b.closed_vol
    &&& a.closed_min == b.closed_min
    &&& a.closed_max == b.closed_max
    &&& a.closed_avg == b.closed_avg
    &&& a.closed_median == b.closed_median
    &&& a.price_shift == b.price_shift
}

/// Re-running the analyzer on an unchanged observation table yields an
/// identical row set: any two results of the same table and settings
/// agree row for row, field for field.
pub proof fn lemma_analyzer_deterministic(
    r1: Seq<crate::types::OverlapRow>,
    r2: Seq<crate::types::OverlapRow>,
    t: Seq<PriceObservation>,
    vt: int,
    rt: int,
    cap: int,
    pst: int,
    strict: bool,
    wl: Seq<String>,
    inv: Seq<String>,
)
    requires
        rows_match(r1, overlap_row_models(t, vt, rt, cap, pst, strict, wl, inv)),
        rows_match(r2, overlap_row_models(t, vt, rt, cap, pst, strict, wl, inv)),
    ensures
        r1.len() == r2.len(),
        forall|i: int| 0 <= i < r1.len() ==> rows_equal(#[trigger] r1[i], r2[i]),
{
    let ms = overlap_row_models(t, vt, rt, cap, pst, strict, wl, inv);
    assert forall|i: int| 0 <= i < r1.len() implies rows_equal(#[trigger] r1[i], r2[i]) by {
        assert(row_matches(r1[i], ms[i]));
        assert(row_matches(r2[i], ms[i]));
    }
}

/// No two entries of the run share a name.
pub open spec fn model_names_distinct(ms: Seq<StatModel>) -> bool {
    forall|i: int, j: int|
        0 <= i < j < ms.len() ==> (#[trigger] ms[i]).name != (#[trigger] ms[j]).name
}

/// No two rows of the run share a name.
pub open spec fn row_names_distinct(ms: Seq<RowModel>) -> bool {
    forall|i: int, j: int|
        0 <= i < j < ms.len() ==> (#[trigger] ms[i]).name != (#[trigger] ms[j]).name
}

/// A table's group keys never repeat.
proof fn lemma_group_keys_distinct(t: Seq<PriceObservation>)
    ensures
        forall|i: int, j: int|
            0 <= i < j < group_keys(t).len() ==> group_keys(t)[i] != group_keys(t)[j],
    decreases t.len(),
{
    if t.len() > 0 {
        lemma_group_keys_distinct(t.drop_last());
        let ks = group_keys(t.drop_last());
        let k = (t.last().name@, t.last().order_type@);
        if !ks.contains(k) {
            assert forall|i: int, j: int|
                0 <= i < j < group_keys(t).len() implies group_keys(t)[i] != group_keys(t)[j] by {
                if j == ks.len() {
                    assert(group_keys(t)[i] == ks[i]);
                    assert(!ks.contains(k));
                    assert(ks[i] != k);
                }
            }
        }
    }
}

/// Among the averaged statistics, no two closed-market entries share a
/// name.
proof fn lemma_closed_names_distinct(t: Seq<PriceObservation>)
    ensures
        forall|i: int, j: int|
            0 <= i < j < all_stat_models(t).len() && (#[trigger] all_stat_models(
                t,
            )[i]).order_type == "closed"@ && (#[trigger] all_stat_models(t)[j]).order_type
                == "closed"@ ==> all_stat_models(t)[i].name != all_stat_models(t)[j].name,
{
    lemma_group_keys_distinct(t);
    let ms = all_stat_models(t);
    let ks = group_keys(t);
    assert forall|i: int, j: int|
        0 <= i < j < ms.len() && (#[trigger] ms[i]).order_type == "closed"@ && (#[trigger] ms[j]).order_type
            == "closed"@ implies ms[i].name != ms[j].name by {
        if ms[i].name == ms[j].name {
            assert(ks[i] == ks[j]);
        }
    }
}

/// Every entry the liquidity filter keeps stands in the input.
proof fn lemma_filter_qualifying_membership(ms: Seq<StatModel>, vt: int, rt: int, inv: Seq<String>)
    ensures
        forall|k: int|
            0 <= k < filter_qualifying(ms, vt, rt, inv).len() ==> exists|idx: int|
                0 <= idx < ms.len() && #[trigger] ms[idx] == #[trigger] filter_qualifying(
                    ms,
                    vt,
                    rt,
                    inv,
                )[k],
    decreases ms.len(),
{
    if ms.len() > 0 {
        lemma_filter_qualifying_membership(ms.drop_last(), vt, rt, inv);
        let out = filter_qualifying(ms, vt, rt, inv);
        let rest = filter_qualifying(ms.drop_last(), vt, rt, inv);
        assert forall|k: int| 0 <= k < out.len() implies exists|idx: int|
            0 <= idx < ms.len() && #[trigger] ms[idx] == (#[trigger] out[k]) by {
            if k < rest.len() {
                let idx = choose|idx: int|
                    0 <= idx < ms.drop_last().len() && #[trigger] ms.drop_last()[idx] == rest[k];
                assert(ms[idx] == out[k]);
            } else {
                assert(ms[ms.len() - 1] == out[k]);
            }
        }
    }
}

/// The liquidity filter keeps only closed-market entries, each name once.
proof fn lemma_filter_qualifying_distinct(ms: Seq<StatModel>, vt: int, rt: int, inv: Seq<String>)
    requires
        forall|i: int, j: int|
            0 <= i < j < ms.len() && (#[trigger] ms[i]).order_type == "closed"@ && (#[trigger] ms[j]).order_type
                == "closed"@ ==> ms[i].name != ms[j].name,
    ensures
        model_names_distinct(filter_qualifying(ms, vt, rt, inv)),
        forall|k: int|
            0 <= k < filter_qualifying(ms, vt, rt, inv).len() ==> (#[trigger] filter_qualifying(
                ms,
                vt,
                rt,
                inv,
            )[k]).order_type == "closed"@,
    decreases ms.len(),
{
    if ms.len() > 0 {
        let df = ms.drop_last();
        assert forall|i: int, j: int|
            0 <= i < j < df.len() && (#[trigger] df[i]).order_type == "closed"@ && (#[trigger] df[j]).order_type
                == "closed"@ implies df[i].name != df[j].name by {
            assert(df[i] == ms[i] && df[j] == ms[j]);
        }
        lemma_filter_qualifying_distinct(df, vt, rt, inv);
        let out = filter_qualifying(ms, vt, rt, inv);
        let rest = filter_qualifying(df, vt, rt, inv);
        if model_qualifies(ms.last(), vt, rt, inv) {
            lemma_filter_qualifying_membership(df, vt, rt, inv);
            assert forall|i: int, j: int|
                0 <= i < j < out.len() implies (#[trigger] out[i]).name != (#[trigger] out[j]).name by {
                if j == rest.len() {
                    let idx = choose|idx: int| 0 <= idx < df.len() && #[trigger] df[idx] == rest[i];
                    assert(ms[idx] == rest[i]);
                    assert(ms[idx].order_type == "closed"@);
                    assert(ms[ms.len() - 1].order_type == "closed"@);
                    assert(ms[idx].name != ms[ms.len() - 1].name);
                }
            }
        }
    }
}

/// Ordering by range keeps each name appearing once.
proof fn lemma_sort_preserves_distinct(ms: Seq<StatModel>)
    requires
        model_names_distinct(ms),
    ensures
        model_names_distinct(sort_models_by_range(ms)),
{
    let keys = ranges_of(ms);
    let n = ms.len() as int;
    crate::orderings::lemma_sorted_indices_bounds(keys, n);
    crate::orderings::lemma_sorted_indices_distinct(keys, n);
    let ord = crate::orderings::sorted_indices_desc(keys, n);
    let out = sort_models_by_range(ms);
    assert forall|i: int, j: int|
        0 <= i < j < out.len() implies (#[trigger] out[i]).name != (#[trigger] out[j]).name by {
        assert(out[i] == ms[ord[i]]);
        assert(out[j] == ms[ord[j]]);
        assert(ord[i] != ord[j]);
        if ord[i] < ord[j] {
            assert(ms[ord[i]].name != ms[ord[j]].name);
        } else {
            assert(ms[ord[j]].name != ms[ord[i]].name);
        }
    }
}

/// Every row the whitelist policy keeps stands in the input.
proof fn lemma_filter_whitelist_membership(
    ms: Seq<StatModel>,
    t: Seq<PriceObservation>,
    cap: int,
    pst: int,
    strict: bool,
    wl: Seq<String>,
    inv: Seq<String>,
)
    ensures
        forall|k: int|
            0 <= k < filter_whitelist(ms, t, cap, pst, strict, wl, inv).len() ==> exists|idx: int|
                0 <= idx < ms.len() && #[trigger] ms[idx] == #[trigger] filter_whitelist(
                    ms,
                    t,
                    cap,
                    pst,
                    strict,
                    wl,
                    inv,
                )[k],
    decreases ms.len(),
{
    if ms.len() > 0 {
        lemma_filter_whitelist_membership(ms.drop_last(), t, cap, pst, strict, wl, inv);
        let out = filter_whitelist(ms, t, cap, pst, strict, wl, inv);
        let rest = filter_whitelist(ms.drop_last(), t, cap, pst, strict, wl, inv);
        assert forall|k: int| 0 <= k < out.len() implies exists|idx: int|
            0 <= idx < ms.len() && #[trigger] ms[idx] == (#[trigger] out[k]) by {
            if k < rest.len() {
                let idx = choose|idx: int|
                    0 <= idx < ms.drop_last().len() && #[trigger] ms.drop_last()[idx] == rest[k];
                assert(ms[idx] == out[k]);
            } else {
                assert(ms[ms.len() - 1] == out[k]);
            }
        }
    }
}

/// The whitelist policy keeps each name appearing once.
proof fn lemma_filter_whitelist_distinct(
    ms: Seq<StatModel>,
    t: Seq<PriceObservation>,
    cap: int,
    pst: int,
    strict: bool,
    wl: Seq<String>,
    inv: Seq<String>,
)
    requires
        model_names_distinct(ms),
    ensures
        model_names_distinct(filter_whitelist(ms, t, cap, pst, strict, wl, inv)),
    decreases ms.len(),
{
    if ms.len() > 0 {
        let df = ms.drop_last();
        assert forall|i: int, j: int|
            0 <= i < j < df.len() implies (#[trigger] df[i]).name != (#[trigger] df[j]).name by {
            assert(df[i] == ms[i] && df[j] == ms[j]);
        }
        lemma_filter_whitelist_distinct(df, t, cap, pst, strict, wl, inv);
        let out = filter_whitelist(ms, t, cap, pst, strict, wl, inv);
        let rest = filter_whitelist(df, t, cap, pst, strict, wl, inv);
        if model_kept(ms.last(), t, cap, pst, strict, wl, inv) {
            lemma_filter_whitelist_membership(df, t, cap, pst, strict, wl, inv);
            assert forall|i: int, j: int|
                0 <= i < j < out.len() implies (#[trigger] out[i]).name != (#[trigger] out[j]).name by {
                if j == rest.len() {
                    let idx = choose|idx: int| 0 <= idx < df.len() && #[trigger] df[idx] == rest[i];
                    assert(ms[idx] == rest[i]);
                    assert(ms[idx].name != ms[ms.len() - 1].name);
                }
            }
        }
    }
}

/// Every joined row comes from a surviving item, keeping its name.
proof fn lemma_join_rows_membership(ms: Seq<StatModel>, t: Seq<PriceObservation>)
    ensures
        forall|k: int|
            0 <= k < join_rows(ms, t).len() ==> exists|idx: int|
                0 <= idx < ms.len() && (#[trigger] ms[idx]).name == (#[trigger] join_rows(
                    ms,
                    t,
                )[k]).name,
    decreases ms.len(),
{
    if ms.len() > 0 {
        lemma_join_rows_membership(ms.drop_last(), t);
        let out = join_rows(ms, t);
        let rest = join_rows(ms.drop_last(), t);
        assert forall|k: int| 0 <= k < out.len() implies exists|idx: int|
            0 <= idx < ms.len() && (#[trigger] ms[idx]).name == (#[trigger] out[k]).name by {
            if k < rest.len() {
                let idx = choose|idx: int|
                    0 <= idx < ms.drop_last().len() && (#[trigger] ms.drop_last()[idx]).name
                        == rest[k].name;
                assert(ms[idx].name == out[k].name);
            } else {
                assert(ms[ms.len() - 1].name == out[k].name);
            }
        }
    }
}

/// The join keeps each name appearing once.
proof fn lemma_join_rows_distinct(ms: Seq<StatModel>, t: Seq<PriceObservation>)
    requires
        model_names_distinct(ms),
    ensures
        row_names_distinct(join_rows(ms, t)),
    decreases ms.len(),
{
    if ms.len() > 0 {
        let df = ms.drop_last();
        assert forall|i: int, j: int|
            0 <= i < j < df.len() implies (#[trigger] df[i]).name != (#[trigger] df[j]).name by {
            assert(df[i] == ms[i] && df[j] == ms[j]);
        }
        lemma_join_rows_distinct(df, t);
        let out = join_rows(ms, t);
        let rest = join_rows(df, t);
        if joinable(t, ms.last().name) {
            lemma_join_rows_membership(df, t);
            assert forall|i: int, j: int|
                0 <= i < j < out.len() implies (#[trigger] out[i]).name != (#[trigger] out[j]).name by {
                if j == rest.len() {
                    let idx = choose|idx: int|
                        0 <= idx < df.len() && (#[trigger] df[idx]).name == rest[i].name;
                    assert(ms[idx].name != ms[ms.len() - 1].name);
                }
            }
        }
    }
}

/// No two rows of one analysis share an item name.
pub proof fn lemma_row_names_unique(
    t: Seq<PriceObservation>,
    vt: int,
    rt: int,
    cap: int,
    pst: int,
    strict: bool,
    wl: Seq<String>,
    inv: Seq<String>,
)
    ensures
        row_names_distinct(overlap_row_models(t, vt, rt, cap, pst, strict, wl, inv)),
{
    lemma_closed_names_distinct(t);
    lemma_filter_qualifying_distinct(all_stat_models(t), vt, rt, inv);
    let qs = filter_qualifying(all_stat_models(t), vt, rt, inv);
    lemma_sort_preserves_distinct(qs);
    let sorted = sort_models_by_range(qs);
    lemma_filter_whitelist_distinct(sorted, t, cap, pst, strict, wl, inv);
    let kept = filter_whitelist(sorted, t, cap, pst, strict, wl, inv);
    lemma_join_rows_distinct(kept, t);
}

/// The price shift of an item with fewer than seven closed records is
/// zero.
pub proof fn lemma_price_shift_few_records(t: Seq<PriceObservation>, name: Seq<char>)
    requires
        closed_rows(t, name).len() < 7,
    ensures
        week_shift(t, name) == 0,
{
}

} // verus!
