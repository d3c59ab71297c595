//! One full pass of the engine over the work set.
//!
//! A pass runs the analytics over the observation table, builds the work
//! set, and decides each item's buy- and sell-side actions against the
//! item's live book.  The pass reads a snapshot of the world — the
//! table, the settings, the inventory, the operator's open orders and
//! the fetched per-item books — and returns the planned actions;
//! performing them is the caller's business.

use vstd::prelude::*;

use crate::engine::{
    buy_decision_ok, decide_buy, decide_sell, find_own_order, own_state_ok, sell_decision_ok,
    summarize_book, summary_matches, BookSummary, BuyDecision, SellOutcome,
};
use crate::types::{
    inventory_ok, live_order_ok, name_listed, own_order_ok, row_ok, settings_ok, string_eq,
    BuyCandidate, EngineSettings, InventoryRecord, OrderByItem, OverlapRow, OwnOrderSnapshot,
    PriceObservation,
};
use crate::PRICE_LIMIT;

verus! {

/// One item's fetched market state: its identity and the live order
/// book, as the marketplace returned them.
pub struct ItemMarket {
    pub item_name: String,
    pub item_id: String,
    pub mod_rank: Option<i64>,
    pub live_orders: Vec<OrderByItem>,
}

/// The planned actions for one work-set item: the buy-side decision
/// where the item carries analytics, and the sell-side decision.
pub struct ItemPlan {
    pub item_name: String,
    pub buy: Option<BuyDecision>,
    pub sell: Option<SellOutcome>,
}

/// Index of the first analytics row for the name; negative when none.
pub open spec fn row_index_for(rows: Seq<OverlapRow>, name: Seq<char>) -> int
    decreases rows.len(),
{
    if rows.len() == 0 {
        -1
    } else if rows[0].name@ == name {
        0
    } else {
        let r = row_index_for(rows.drop_first(), name);
        if r < 0 {
            -1
        } else {
            r + 1
        }
    }
}

/// Index of the first fetched market for the name; negative when none.
pub open spec fn market_index_for(markets: Seq<ItemMarket>, name: Seq<char>) -> int
    decreases markets.len(),
{
    if markets.len() == 0 {
        -1
    } else if markets[0].item_name@ == name {
        0
    } else {
        let r = market_index_for(markets.drop_first(), name);
        if r < 0 {
            -1
        } else {
            r + 1
        }
    }
}

/// Index of the first inventory record for the name; negative when none.
pub open spec fn inv_index_for(inv: Seq<InventoryRecord>, name: Seq<char>) -> int
    decreases inv.len(),
{
    if inv.len() == 0 {
        -1
    } else if inv[0].item_url@ == name {
        0
    } else {
        let r = inv_index_for(inv.drop_first(), name);
        if r < 0 {
            -1
        } else {
            r + 1
        }
    }
}

/// The scanned-for index is the first match, or every entry misses.
proof fn lemma_row_index_scan(rows: Seq<OverlapRow>, name: Seq<char>, j: int)
    requires
        0 <= j <= rows.len(),
        forall|k: int| 0 <= k < j ==> (#[trigger] rows[k]).name@ != name,
        j < rows.len() ==> rows[j].name@ == name,
    ensures
        j < rows.len() ==> row_index_for(rows, name) == j,
        j == rows.len() ==> row_index_for(rows, name) < 0,
    decreases rows.len(),
{
    if rows.len() > 0 && j > 0 {
        let df = rows.drop_first();
        assert forall|k: int| 0 <= k < j - 1 implies (#[trigger] df[k]).name@ != name by {
            assert(df[k] == rows[k + 1]);
        }
        if j - 1 < df.len() {
            assert(df[j - 1] == rows[j]);
        }
        lemma_row_index_scan(df, name, j - 1);
    }
}

/// The scanned-for index is the first match, or every entry misses.
proof fn lemma_market_index_scan(markets: Seq<ItemMarket>, name: Seq<char>, j: int)
    requires
        0 <= j <= markets.len(),
        forall|k: int| 0 <= k < j ==> (#[trigger] markets[k]).item_name@ != name,
        j < markets.len() ==> markets[j].item_name@ == name,
    ensures
        j < markets.len() ==> market_index_for(markets, name) == j,
        j == markets.len() ==> market_index_for(markets, name) < 0,
    decreases markets.len(),
{
    if markets.len() > 0 && j > 0 {
        let df = markets.drop_first();
        assert forall|k: int| 0 <= k < j - 1 implies (#[trigger] df[k]).item_name@ != name by {
            assert(df[k] == markets[k + 1]);
        }
        if j - 1 < df.len() {
            assert(df[j - 1] == markets[j]);
        }
        lemma_market_index_scan(df, name, j - 1);
    }
}

/// The scanned-for index is the first match, or every entry misses.
proof fn lemma_inv_index_scan(inv: Seq<InventoryRecord>, name: Seq<char>, j: int)
    requires
        0 <= j <= inv.len(),
        forall|k: int| 0 <= k < j ==> (#[trigger] inv[k]).item_url@ != name,
        j < inv.len() ==> inv[j].item_url@ == name,
    ensures
        j < inv.len() ==> inv_index_for(inv, name) == j,
        j == inv.len() ==> inv_index_for(inv, name) < 0,
    decreases inv.len(),
{
    if inv.len() > 0 && j > 0 {
        let df = inv.drop_first();
        assert forall|k: int| 0 <= k < j - 1 implies (#[trigger] df[k]).item_url@ != name by {
            assert(df[k] == inv[k + 1]);
        }
        if j - 1 < df.len() {
            assert(df[j - 1] == inv[j]);
        }
        lemma_inv_index_scan(df, name, j - 1);
    }
}

/// Finds the first analytics row for an item.
pub fn find_row(rows: &Vec<OverlapRow>, name: &String) -> (r: Option<usize>)
    ensures
        r is None ==> row_index_for(rows@, name@) < 0,
        r matches Some(i) ==> i as int == row_index_for(rows@, name@) && i < rows@.len()
            && rows@[i as int].name@ == name@,
{
    let mut j: usize = 0;
    while j < rows.len()
        invariant
            j <= rows@.len(),
            forall|k: int| 0 <= k < j ==> (#[trigger] rows@[k]).name@ != name@,
        decreases rows@.len() - j,
    {
        if string_eq(&rows[j].name, name) {
            proof {
                lemma_row_index_scan(rows@, name@, j as int);
            }
            return Some(j);
        }
        j = j + 1;
    }
    proof {
        lemma_row_index_scan(rows@, name@, rows@.len() as int);
    }
    None
}

/// Finds the first fetched market for an item.
pub fn find_market(markets: &Vec<ItemMarket>, name: &String) -> (r: Option<usize>)
    ensures
        r is None ==> market_index_for(markets@, name@) < 0,
        r matches Some(i) ==> i as int == market_index_for(markets@, name@) && i < markets@.len()
            && markets@[i as int].item_name@ == name@,
{
    let mut j: usize = 0;
    while j < markets.len()
        invariant
            j <= markets@.len(),
            forall|k: int| 0 <= k < j ==> (#[trigger] markets@[k]).item_name@ != name@,
        decreases markets@.len() - j,
    {
        if string_eq(&markets[j].item_name, name) {
            proof {
                lemma_market_index_scan(markets@, name@, j as int);
            }
            return Some(j);
        }
        j = j + 1;
    }
    proof {
        lemma_market_index_scan(markets@, name@, markets@.len() as int);
    }
    None
}

/// The looked-up inventory record is the first one for the named item,
/// or absent when no record is.
pub open spec fn inv_state_ok(
    r: Option<InventoryRecord>,
    inv: Seq<InventoryRecord>,
    name: Seq<char>,
) -> bool {
    let i = inv_index_for(inv, name);
    &&& i < 0 ==> r is None
    &&& i >= 0 ==> (r matches Some(rec) && rec.item_url@ == inv[i].item_url@ && rec.owned
        == inv[i].owned && rec.price == inv[i].price)
}

/// A found inventory index is in bounds and names the item.
pub proof fn lemma_inv_index_bounds(inv: Seq<InventoryRecord>, name: Seq<char>)
    ensures
        inv_index_for(inv, name) < inv.len(),
        inv_index_for(inv, name) >= 0 ==> inv[inv_index_for(inv, name)].item_url@ == name,
    decreases inv.len(),
{
    if inv.len() > 0 && inv[0].item_url@ != name {
        lemma_inv_index_bounds(inv.drop_first(), name);
        let r = inv_index_for(inv.drop_first(), name);
        if r >= 0 {
            assert(inv.drop_first()[r] == inv[r + 1]);
        }
    }
}

/// Finds the owned-inventory record for an item.
pub fn find_inventory(inv: &Vec<InventoryRecord>, name: &String) -> (r: Option<InventoryRecord>)
    ensures
        inv_state_ok(r, inv@, name@),
{
    let mut j: usize = 0;
    while j < inv.len()
        invariant
            j <= inv@.len(),
            forall|k: int| 0 <= k < j ==> (#[trigger] inv@[k]).item_url@ != name@,
        decreases inv@.len() - j,
    {
        if string_eq(&inv[j].item_url, name) {
            proof {
                lemma_inv_index_scan(inv@, name@, j as int);
            }
            return Some(
                InventoryRecord {
                    item_url: inv[j].item_url.clone(),
                    owned: inv[j].owned,
                    price: inv[j].price,
                },
            );
        }
        j = j + 1;
    }
    proof {
        lemma_inv_index_scan(inv@, name@, inv@.len() as int);
    }
    None
}

/// The budget candidates of the operator's open buy orders: each order
/// whose item carries an analytics row, costed at its platinum price and
/// valued at the row's closed average minus that price.
pub open spec fn spec_candidates(
    own: Seq<OwnOrderSnapshot>,
    rows: Seq<OverlapRow>,
) -> Seq<BuyCandidate>
    decreases own.len(),
{
    if own.len() == 0 {
        Seq::empty()
    } else {
        let rest = spec_candidates(own.drop_last(), rows);
        let o = own.last();
        let ri = row_index_for(rows, o.url_name@);
        if ri >= 0 {
            rest.push(
                BuyCandidate {
                    cost: o.platinum,
                    value: (rows[ri].closed_avg - o.platinum) as i64,
                    item_name: o.url_name,
                    order_id: o.id,
                },
            )
        } else {
            rest
        }
    }
}

/// Builds the budget candidates from the operator's open buy orders and
/// the cycle's analytics rows.
pub fn prepare_buy_candidates(
    own: &Vec<OwnOrderSnapshot>,
    rows: &Vec<OverlapRow>,
) -> (r: Vec<BuyCandidate>)
    requires
        forall|k: int| 0 <= k < own@.len() ==> own_order_ok(#[trigger] own@[k]),
        forall|k: int| 0 <= k < rows@.len() ==> row_ok(#[trigger] rows@[k]),
    ensures
        r@ == spec_candidates(own@, rows@),
        r@.len() <= own@.len(),
        forall|k: int| 0 <= k < r@.len() ==> crate::budget::candidate_ok(#[trigger] r@[k]),
{
    let mut out: Vec<BuyCandidate> = Vec::new();
    let mut j: usize = 0;
    while j < own.len()
        invariant
            j <= own@.len(),
            forall|k: int| 0 <= k < own@.len() ==> own_order_ok(#[trigger] own@[k]),
            forall|k: int| 0 <= k < rows@.len() ==> row_ok(#[trigger] rows@[k]),
            out@ == spec_candidates(own@.subrange(0, j as int), rows@),
            out@.len() <= j,
            forall|k: int| 0 <= k < out@.len() ==> crate::budget::candidate_ok(#[trigger] out@[k]),
        decreases own@.len() - j,
    {
        let ghost prefix = own@.subrange(0, j as int);
        let o = &own[j];
        let found = find_row(rows, &o.url_name);
        match found {
            Some(ri) => {
                out.push(
                    BuyCandidate {
                        cost: o.platinum,
                        value: rows[ri].closed_avg - o.platinum,
                        item_name: o.url_name.clone(),
                        order_id: o.id.clone(),
                    },
                );
            },
            None => {},
        }
        j = j + 1;
        proof {
            assert(own@.subrange(0, j as int).drop_last() =~= prefix);
            assert(own@.subrange(0, j as int).last() == own@[j - 1]);
        }
    }
    proof {
        assert(own@.subrange(0, own@.len() as int) =~= own@);
    }
    out
}

/// Appends the candidate for an order just placed, valued at the
/// closed-market average minus its price.
pub fn with_new_order(
    current: &mut Vec<BuyCandidate>,
    order_id: &String,
    item_name: &String,
    platinum: i64,
    closed_avg: i64,
) -> (r: ())
    requires
        0 <= platinum <= PRICE_LIMIT,
        0 <= closed_avg <= PRICE_LIMIT,
    ensures
        final(current)@.len() == old(current)@.len() + 1,
        final(current)@.subrange(0, old(current)@.len() as int) == old(current)@,
        final(current)@.last().cost == platinum,
        final(current)@.last().value == closed_avg - platinum,
        final(current)@.last().item_name@ == item_name@,
        final(current)@.last().order_id@ == order_id@,
{
    current.push(
        BuyCandidate {
            cost: platinum,
            value: closed_avg - platinum,
            item_name: item_name.clone(),
            order_id: order_id.clone(),
        },
    );
    proof {
        assert(current@.subrange(0, old(current)@.len() as int) =~= old(current)@);
    }
}

/// The owned count read by the buy side: the first inventory record's,
/// or zero when the item is not owned.
pub open spec fn owned_of(inv: Seq<InventoryRecord>, name: Seq<char>) -> int {
    let i = inv_index_for(inv, name);
    if i < 0 {
        0
    } else {
        inv[i].owned as int
    }
}

/// What a correct per-item plan is.  An item without a fetched market or
/// with an empty book is left alone; otherwise the sell side always
/// decides, and the buy side decides where the item carries an analytics
/// row — each against the book summarized from the live orders and the
/// looked-up own-listing, inventory and exposure state.
pub open spec fn item_plan_ok(
    p: ItemPlan,
    name: Seq<char>,
    markets: Seq<ItemMarket>,
    rows: Seq<OverlapRow>,
    candidates: Seq<BuyCandidate>,
    own_buys: Seq<OwnOrderSnapshot>,
    own_sells: Seq<OwnOrderSnapshot>,
    inventory: Seq<InventoryRecord>,
    settings: EngineSettings,
    own_name: Seq<char>,
) -> bool {
    let mi = market_index_for(markets, name);
    &&& p.item_name@ == name
    &&& (mi < 0 || markets[mi].live_orders@.len() == 0) ==> (p.buy is None && p.sell is None)
    &&& (mi >= 0 && markets[mi].live_orders@.len() > 0) ==> exists|book: BookSummary|
        {
            &&& #[trigger] summary_matches(book, markets[mi].live_orders@, own_name)
            &&& {
                let ri = row_index_for(rows, name);
                &&& ri < 0 ==> p.buy is None
                &&& ri >= 0 ==> exists|ob: Option<crate::types::OwnOrderState>|
                    {
                        &&& #[trigger] own_state_ok(ob, own_buys, name)
                        &&& p.buy matches Some(bd) && buy_decision_ok(
                            bd,
                            name,
                            settings,
                            ob,
                            book,
                            rows[ri].closed_avg as int,
                            owned_of(inventory, name),
                            candidates,
                        )
                    }
            }
            &&& exists|os: Option<crate::types::OwnOrderState>, io: Option<InventoryRecord>|
                {
                    &&& #[trigger] own_state_ok(os, own_sells, name)
                    &&& #[trigger] inv_state_ok(io, inventory, name)
                    &&& p.sell matches Some(so) && sell_decision_ok(
                        so,
                        name,
                        settings.blacklist@,
                        io,
                        os,
                        book,
                    )
                }
        }
}

/// Decides one work-set item's buy- and sell-side actions from the
/// cycle's analytics rows, budget candidates, own orders, inventory and
/// the item's fetched live book.
pub fn plan_item(
    item_name: &String,
    markets: &Vec<ItemMarket>,
    rows: &Vec<OverlapRow>,
    candidates: &Vec<BuyCandidate>,
    own_buys: &Vec<OwnOrderSnapshot>,
    own_sells: &Vec<OwnOrderSnapshot>,
    inventory: &Vec<InventoryRecord>,
    settings: &EngineSettings,
    own_name: &String,
) -> (r: ItemPlan)
    requires
        settings_ok(*settings),
        forall|j: int, k: int|
            0 <= j < markets@.len() && 0 <= k < (#[trigger] markets@[j]).live_orders@.len()
                ==> live_order_ok(#[trigger] markets@[j].live_orders@[k]),
        forall|k: int| 0 <= k < rows@.len() ==> row_ok(#[trigger] rows@[k]),
        forall|k: int|
            0 <= k < candidates@.len() ==> crate::budget::candidate_ok(#[trigger] candidates@[k]),
        candidates@.len() < crate::budget::MAX_CANDIDATES,
        forall|k: int| 0 <= k < inventory@.len() ==> inventory_ok(#[trigger] inventory@[k]),
    ensures
        item_plan_ok(
            r,
            item_name@,
            markets@,
            rows@,
            candidates@,
            own_buys@,
            own_sells@,
            inventory@,
            *settings,
            own_name@,
        ),
{
    let mkt = find_market(markets, item_name);
    let mi = match mkt {
        Some(mi) => mi,
        None => {
            return ItemPlan { item_name: item_name.clone(), buy: None, sell: None };
        },
    };
    if markets[mi].live_orders.len() == 0 {
        return ItemPlan { item_name: item_name.clone(), buy: None, sell: None };
    }
    let book = summarize_book(&markets[mi].live_orders, own_name);
    let inv = find_inventory(inventory, item_name);
    proof {
        lemma_inv_index_bounds(inventory@, item_name@);
    }
    let owned = match &inv {
        Some(rec) => rec.owned,
        None => 0,
    };
    let row = find_row(rows, item_name);
    let buy = match row {
        Some(ri) => {
            let ob = find_own_order(own_buys, item_name);
            let bd = decide_buy(
                item_name,
                settings,
                &ob,
                &book,
                rows[ri].closed_avg,
                owned,
                candidates,
            );
            proof {
                assert(own_state_ok(ob, own_buys@, item_name@));
            }
            Some(bd)
        },
        None => None,
    };
    let os = find_own_order(own_sells, item_name);
    let so = decide_sell(item_name, &settings.blacklist, &inv, &os, &book);
    let r = ItemPlan { item_name: item_name.clone(), buy, sell: Some(so) };
    proof {
        assert(summary_matches(book, markets@[mi as int].live_orders@, own_name@));
        assert(own_state_ok(os, own_sells@, item_name@));
        assert(inv_state_ok(inv, inventory@, item_name@));
    }
    r
}

/// Everything one pass reads: the observation table, the settings, the
/// owned inventory, the operator's open orders on both sides, the
/// operator's trading name, and the fetched per-item live books.
pub struct PassInput {
    pub observations: Vec<PriceObservation>,
    pub settings: EngineSettings,
    pub inventory: Vec<InventoryRecord>,
    pub own_buy_orders: Vec<OwnOrderSnapshot>,
    pub own_sell_orders: Vec<OwnOrderSnapshot>,
    pub own_name: String,
    pub markets: Vec<ItemMarket>,
}

/// A pass input the engine can account for.
pub open spec fn pass_input_ok(input: PassInput) -> bool {
    &&& forall|j: int|
        0 <= j < input.observations@.len() ==> crate::types::observation_ok(
            #[trigger] input.observations@[j],
        )
    &&& input.observations@.len() <= crate::analytics::MAX_OBSERVATIONS
    &&& settings_ok(input.settings)
    &&& forall|j: int| 0 <= j < input.inventory@.len() ==> inventory_ok(#[trigger] input.inventory@[j])
    &&& forall|j: int|
        0 <= j < input.own_buy_orders@.len() ==> own_order_ok(#[trigger] input.own_buy_orders@[j])
    &&& input.own_buy_orders@.len() < crate::budget::MAX_CANDIDATES
    &&& forall|j: int, k: int|
        0 <= j < input.markets@.len() && 0 <= k < (#[trigger] input.markets@[j]).live_orders@.len()
            ==> live_order_ok(#[trigger] input.markets@[j].live_orders@[k])
}

/// The names of the owned inventory, in record order.
pub open spec fn inventory_names_of(inv: Seq<InventoryRecord>) -> Seq<String> {
    Seq::new(inv.len(), |i: int| inv[i].item_url)
}

/// Collects the owned-inventory names, in record order.
pub fn collect_inventory_names(inv: &Vec<InventoryRecord>) -> (r: Vec<String>)
    ensures
        r@ == inventory_names_of(inv@),
{
    let mut out: Vec<String> = Vec::new();
    let mut j: usize = 0;
    while j < inv.len()
        invariant
            j <= inv@.len(),
            out@.len() == j,
            forall|k: int| 0 <= k < j ==> #[trigger] out@[k] == inv@[k].item_url,
        decreases inv@.len() - j,
    {
        out.push(inv[j].item_url.clone());
        j = j + 1;
    }
    proof {
        assert(out@ =~= inventory_names_of(inv@));
    }
    out
}

/// A plan leaves a blacklisted item alone: the buy side does nothing,
/// and the sell side never creates or reprices a listing.
pub open spec fn plan_avoids_blacklisted(p: ItemPlan, blacklist: Seq<String>) -> bool {
    name_listed(p.item_name@, blacklist) ==> {
        &&& (p.buy matches Some(b) ==> b is Nothing)
        &&& (p.sell matches Some(s) ==> (!(s.action is Place) && !(s.action is Reprice)))
    }
}

/// A blacklisted item never receives a create or update call: a correct
/// per-item plan decides nothing on the buy side and never creates or
/// reprices a listing on the sell side.
pub proof fn lemma_blacklisted_item_untouched(
    p: ItemPlan,
    name: Seq<char>,
    markets: Seq<ItemMarket>,
    rows: Seq<OverlapRow>,
    candidates: Seq<BuyCandidate>,
    own_buys: Seq<OwnOrderSnapshot>,
    own_sells: Seq<OwnOrderSnapshot>,
    inventory: Seq<InventoryRecord>,
    settings: EngineSettings,
    own_name: Seq<char>,
)
    requires
        item_plan_ok(
            p,
            name,
            markets,
            rows,
            candidates,
            own_buys,
            own_sells,
            inventory,
            settings,
            own_name,
        ),
    ensures
        plan_avoids_blacklisted(p, settings.blacklist@),
{
    if name_listed(name, settings.blacklist@) {
        let mi = market_index_for(markets, name);
        if mi >= 0 && markets[mi].live_orders@.len() > 0 {
            let book = choose|book: BookSummary|
                {
                    &&& #[trigger] summary_matches(book, markets[mi].live_orders@, own_name)
                    &&& {
                        let ri = row_index_for(rows, name);
                        &&& ri < 0 ==> p.buy is None
                        &&& ri >= 0 ==> exists|ob: Option<crate::types::OwnOrderState>|
                            {
                                &&& #[trigger] own_state_ok(ob, own_buys, name)
                                &&& p.buy matches Some(bd) && buy_decision_ok(
                                    bd,
                                    name,
                                    settings,
                                    ob,
                                    book,
                                    rows[row_index_for(rows, name)].closed_avg as int,
                                    owned_of(inventory, name),
                                    candidates,
                                )
                            }
                    }
                    &&& exists|
                        os: Option<crate::types::OwnOrderState>,
                        io: Option<InventoryRecord>,
                    |
                        {
                            &&& #[trigger] own_state_ok(os, own_sells, name)
                            &&& #[trigger] inv_state_ok(io, inventory, name)
                            &&& p.sell matches Some(so) && sell_decision_ok(
                                so,
                                name,
                                settings.blacklist@,
                                io,
                                os,
                                book,
                            )
                        }
                };
        }
    }
}

/// Runs one full pass: analytics, work-set selection, and a per-item
/// plan for every work-set item, in work-set order.
pub fn plan_pass(input: &PassInput) -> (r: Vec<ItemPlan>)
    requires
        pass_input_ok(*input),
    ensures
        forall|i: int|
            0 <= i < r@.len() ==> plan_avoids_blacklisted(
                #[trigger] r@[i],
                input.settings.blacklist@,
            ),
        exists|rows: Seq<OverlapRow>|
            {
                let ws = crate::selector::work_set(
                    rows,
                    inventory_names_of(input.inventory@),
                    input.settings.whitelist@,
                );
                &&& #[trigger] crate::analytics::rows_match(
                    rows,
                    crate::analytics::overlap_row_models(
                        input.observations@,
                        input.settings.volume_threshold as int,
                        input.settings.range_threshold as int,
                        input.settings.avg_price_cap as int,
                        input.settings.price_shift_threshold as int,
                        input.settings.strict_whitelist,
                        input.settings.whitelist@,
                        inventory_names_of(input.inventory@),
                    ),
                )
                &&& r@.len() == ws.len()
                &&& forall|i: int|
                    0 <= i < r@.len() ==> item_plan_ok(
                        #[trigger] r@[i],
                        ws[i],
                        input.markets@,
                        rows,
                        spec_candidates(input.own_buy_orders@, rows),
                        input.own_buy_orders@,
                        input.own_sell_orders@,
                        input.inventory@,
                        input.settings,
                        input.own_name@,
                    )
            },
{
    let inv_names = collect_inventory_names(&input.inventory);
    let rows = crate::analytics::analyze_overlap(&input.observations, &input.settings, &inv_names);
    let work = crate::selector::select_work_items(&rows, &inv_names, &input.settings.whitelist);
    let candidates = prepare_buy_candidates(&input.own_buy_orders, &rows);
    let ghost ws = crate::selector::work_set(
        rows@,
        inventory_names_of(input.inventory@),
        input.settings.whitelist@,
    );
    let mut out: Vec<ItemPlan> = Vec::new();
    let mut i: usize = 0;
    while i < work.len()
        invariant
            i <= work@.len(),
            pass_input_ok(*input),
            forall|k: int| 0 <= k < rows@.len() ==> row_ok(#[trigger] rows@[k]),
            forall|k: int|
                0 <= k < candidates@.len() ==> crate::budget::candidate_ok(
                    #[trigger] candidates@[k],
                ),
            candidates@ == spec_candidates(input.own_buy_orders@, rows@),
            candidates@.len() < crate::budget::MAX_CANDIDATES,
            crate::selector::names_match(work@, ws),
            out@.len() == i,
            forall|k: int|
                0 <= k < i ==> item_plan_ok(
                    #[trigger] out@[k],
                    ws[k],
                    input.markets@,
                    rows@,
                    candidates@,
                    input.own_buy_orders@,
                    input.own_sell_orders@,
                    input.inventory@,
                    input.settings,
                    input.own_name@,
                ),
            forall|k: int|
                0 <= k < i ==> plan_avoids_blacklisted(
                    #[trigger] out@[k],
                    input.settings.blacklist@,
                ),
        decreases work@.len() - i,
    {
        let plan = plan_item(
            &work[i],
            &input.markets,
            &rows,
            &candidates,
            &input.own_buy_orders,
            &input.own_sell_orders,
            &input.inventory,
            &input.settings,
            &input.own_name,
        );
        proof {
            lemma_blacklisted_item_untouched(
                plan,
                work@[i as int]@,
                input.markets@,
                rows@,
                candidates@,
                input.own_buy_orders@,
                input.own_sell_orders@,
                input.inventory@,
                input.settings,
                input.own_name@,
            );
        }
        out.push(plan);
        i = i + 1;
    }
    out
}

} // verus!
