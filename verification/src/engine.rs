//! The order decision engine: per-item buy and sell policy.
//!
//! Each decision function maps a snapshot of one item's market — the
//! operator's own listing, the live order book, closed-market statistics
//! and owned inventory — to a single order action.  Executing the action
//! (the marketplace HTTP calls) is the caller's business.

use vstd::prelude::*;

use crate::types::{
    string_eq, BuyCandidate, InventoryRecord, OrderByItem, OwnOrderSnapshot, OwnOrderState,
};
use crate::PRICE_LIMIT;

verus! {

/// What the decision engine sees of one item's live order book: how many
/// competing traders stand on each side and the prices at the book's
/// edges.
#[derive(Clone, Debug)]
pub struct BookSummary {
    /// Competing buy orders (other traders' bids).
    pub buyers: usize,
    /// Competing sell orders (other traders' asks).
    pub sellers: usize,
    /// Highest competing bid; 0 when there are no buyers.
    pub top_bid: i64,
    /// Lowest competing ask; 0 when there are no sellers.
    pub lowest_ask: i64,
    /// Highest competing ask; 0 when there are no sellers.
    pub highest_ask: i64,
    /// Book spread: `lowest_ask - top_bid`, with the 0 stand-ins.
    pub spread: i64,
}

/// A competing bid: another trader's visible buy order.
pub open spec fn competing_buy(o: OrderByItem, me: Seq<char>) -> bool {
    o.user.ingame_name@ != me && o.order_type@ == "buy"@
}

/// A competing ask: another trader's visible sell order.
pub open spec fn competing_sell(o: OrderByItem, me: Seq<char>) -> bool {
    o.user.ingame_name@ != me && o.order_type@ == "sell"@
}

/// Number of competing bids in a book.
pub open spec fn buy_count(s: Seq<OrderByItem>, me: Seq<char>) -> int
    decreases s.len(),
{
    if s.len() == 0 {
        0
    } else {
        buy_count(s.drop_last(), me) + (if competing_buy(s.last(), me) {
            1int
        } else {
            0int
        })
    }
}

/// Number of competing asks in a book.
pub open spec fn sell_count(s: Seq<OrderByItem>, me: Seq<char>) -> int
    decreases s.len(),
{
    if s.len() == 0 {
        0
    } else {
        sell_count(s.drop_last(), me) + (if competing_sell(s.last(), me) {
            1int
        } else {
            0int
        })
    }
}

/// The extremes of a summary agree with the book it came from.
pub open spec fn summary_matches(r: BookSummary, orders: Seq<OrderByItem>, me: Seq<char>) -> bool {
    &&& r.buyers as int == buy_count(orders, me)
    &&& r.sellers as int == sell_count(orders, me)
    &&& (r.buyers == 0 ==> r.top_bid == 0)
    &&& (r.buyers > 0 ==> exists|j: int|
        0 <= j < orders.len() && competing_buy(#[trigger] orders[j], me) && orders[j].platinum
            == r.top_bid)
    &&& (forall|j: int|
        0 <= j < orders.len() && competing_buy(#[trigger] orders[j], me) ==> orders[j].platinum
            <= r.top_bid)
    &&& (r.sellers == 0 ==> r.lowest_ask == 0 && r.highest_ask == 0)
    &&& (r.sellers > 0 ==> exists|j: int|
        0 <= j < orders.len() && competing_sell(#[trigger] orders[j], me) && orders[j].platinum
            == r.lowest_ask)
    &&& (r.sellers > 0 ==> exists|j: int|
        0 <= j < orders.len() && competing_sell(#[trigger] orders[j], me) && orders[j].platinum
            == r.highest_ask)
    &&& (forall|j: int|
        0 <= j < orders.len() && competing_sell(#[trigger] orders[j], me) ==> r.lowest_ask
            <= orders[j].platinum <= r.highest_ask)
    &&& r.spread == r.lowest_ask - r.top_bid
}

/// Reduces an item's live order book to the shape the decision engine
/// reads: competing-trader counts per side and the bid/ask edge prices.
pub fn summarize_book(orders: &Vec<OrderByItem>, own_name: &String) -> (r: BookSummary)
    requires
        forall|j: int|
            0 <= j < orders@.len() ==> crate::types::live_order_ok(#[trigger] orders@[j]),
    ensures
        summary_matches(r, orders@, own_name@),
        0 <= r.top_bid <= PRICE_LIMIT,
        0 <= r.lowest_ask <= PRICE_LIMIT,
        0 <= r.highest_ask <= PRICE_LIMIT,
{
    proof {
        reveal_strlit("buy");
        reveal_strlit("sell");
        assert("buy"@.len() == 3 && "sell"@.len() == 4);
    }
    let mut buyers: usize = 0;
    let mut sellers: usize = 0;
    let mut top_bid: i64 = 0;
    let mut lowest_ask: i64 = 0;
    let mut highest_ask: i64 = 0;
    let mut j: usize = 0;
    while j < orders.len()
        invariant
            j <= orders@.len(),
            forall|k: int|
                0 <= k < orders@.len() ==> crate::types::live_order_ok(#[trigger] orders@[k]),
            buyers as int == buy_count(orders@.subrange(0, j as int), own_name@),
            sellers as int == sell_count(orders@.subrange(0, j as int), own_name@),
            buyers <= j,
            sellers <= j,
            0 <= top_bid <= PRICE_LIMIT,
            0 <= lowest_ask <= PRICE_LIMIT,
            0 <= highest_ask <= PRICE_LIMIT,
            lowest_ask <= highest_ask,
            (buyers == 0 ==> top_bid == 0),
            (buyers > 0 ==> exists|k: int|
                0 <= k < j && competing_buy(#[trigger] orders@[k], own_name@) && orders@[k].platinum
                    == top_bid),
            (forall|k: int|
                0 <= k < j && competing_buy(#[trigger] orders@[k], own_name@)
                    ==> orders@[k].platinum <= top_bid),
            (sellers == 0 ==> lowest_ask == 0 && highest_ask == 0),
            (sellers == 0 ==> forall|k: int|
                0 <= k < j ==> !competing_sell(#[trigger] orders@[k], own_name@)),
            (buyers == 0 ==> forall|k: int|
                0 <= k < j ==> !competing_buy(#[trigger] orders@[k], own_name@)),
            (sellers > 0 ==> exists|k: int|
                0 <= k < j && competing_sell(#[trigger] orders@[k], own_name@)
                    && orders@[k].platinum == lowest_ask),
            (sellers > 0 ==> exists|k: int|
                0 <= k < j && competing_sell(#[trigger] orders@[k], own_name@)
                    && orders@[k].platinum == highest_ask),
            (forall|k: int|
                0 <= k < j && competing_sell(#[trigger] orders@[k], own_name@) ==> lowest_ask
                    <= orders@[k].platinum <= highest_ask),
        decreases orders@.len() - j,
    {
        proof {
            reveal_strlit("buy");
            reveal_strlit("sell");
            assert("buy"@.len() == 3 && "sell"@.len() == 4);
        }
        let ghost prefix = orders@.subrange(0, j as int);
        let o = &orders[j];
        let is_other = !string_eq(&o.user.ingame_name, own_name);
        if is_other && str_is(&o.order_type, "buy") {
            if buyers == 0 || o.platinum > top_bid {
                top_bid = o.platinum;
            }
            buyers = buyers + 1;
        } else if is_other && str_is(&o.order_type, "sell") {
            if sellers == 0 {
                lowest_ask = o.platinum;
                highest_ask = o.platinum;
            } else {
                if o.platinum < lowest_ask {
                    lowest_ask = o.platinum;
                }
                if o.platinum > highest_ask {
                    highest_ask = o.platinum;
                }
            }
            sellers = sellers + 1;
        }
        j = j + 1;
        proof {
            assert(orders@.subrange(0, j as int).drop_last() =~= prefix);
            assert(orders@.subrange(0, j as int).last() == orders@[j - 1]);
        }
    }
    proof {
        assert(orders@.subrange(0, orders@.len() as int) =~= orders@);
    }
    let spread = lowest_ask - top_bid;
    BookSummary { buyers, sellers, top_bid, lowest_ask, highest_ask, spread }
}

/// Whether a string holds exactly the given contents.
fn str_is(s: &String, lit: &str) -> (r: bool)
    ensures
        r == (s@ == lit@),
{
    crate::types::str_eq(s.as_str(), lit)
}

/// No own-order row before index `j` is for the named item.
pub open spec fn no_own_order_before(
    orders: Seq<OwnOrderSnapshot>,
    name: Seq<char>,
    j: int,
) -> bool {
    forall|k: int| 0 <= k < j ==> (#[trigger] orders[k]).url_name@ != name
}

/// The looked-up listing is the first row for the named item, or absent
/// when no row is.
pub open spec fn own_state_ok(
    r: Option<OwnOrderState>,
    orders: Seq<OwnOrderSnapshot>,
    name: Seq<char>,
) -> bool {
    &&& r is None ==> no_own_order_before(orders, name, orders.len() as int)
    &&& r matches Some(st) ==> exists|j: int|
        {
            &&& 0 <= j < orders.len()
            &&& (#[trigger] orders[j]).url_name@ == name
            &&& no_own_order_before(orders, name, j)
            &&& st.id@ == orders[j].id@
            &&& st.platinum == orders[j].platinum
            &&& st.visible == orders[j].visible
        }
}

/// Looks up the operator's current listing for an item among the
/// operator's open orders of one side.  Returns the first matching row's
/// id, price and visibility, or `None` when no listing is up.
pub fn find_own_order(orders: &Vec<OwnOrderSnapshot>, item_name: &String) -> (r: Option<
    OwnOrderState,
>)
    ensures
        own_state_ok(r, orders@, item_name@),
{
    let mut j: usize = 0;
    while j < orders.len()
        invariant
            j <= orders@.len(),
            no_own_order_before(orders@, item_name@, j as int),
        decreases orders@.len() - j,
    {
        if string_eq(&orders[j].url_name, item_name) {
            return Some(
                OwnOrderState {
                    id: orders[j].id.clone(),
                    platinum: orders[j].platinum,
                    visible: orders[j].visible,
                },
            );
        }
        j = j + 1;
    }
    None
}

/// What the sell side decides for one item.
#[derive(Debug)]
pub enum SellAction {
    /// Leave the item alone.
    Nothing,
    /// The position was liquidated outside the engine: cancel the stale
    /// listing and clear the tracked inventory price.
    CancelStale { order_id: String },
    /// Create a new sell listing and persist its price onto the
    /// inventory record.
    Place { price: i64, quantity: i64 },
    /// Update the existing listing to a new price and persist that price
    /// onto the inventory record.
    Reprice { order_id: String, price: i64, quantity: i64, visible: bool },
}

/// A sell decision: the order action, and whether to alert the operator
/// that a competitor has undercut the position.
#[derive(Debug)]
pub struct SellOutcome {
    pub action: SellAction,
    pub undercut_alert: bool,
}

/// What a correct sell decision is, for every combination of blacklist,
/// inventory state, own listing and live book.  The blacklist bars only
/// the create and update calls: a blacklisted item is never listed nor
/// repriced, while a stale listing of it is still cancelled and the
/// undercut alert still raised, as for any other item.
pub open spec fn sell_decision_ok(
    r: SellOutcome,
    name: Seq<char>,
    blacklist: Seq<String>,
    inventory: Option<InventoryRecord>,
    own: Option<OwnOrderState>,
    book: BookSummary,
) -> bool {
    let listed = crate::types::name_listed(name, blacklist);
    &&& (inventory is None && own is None) ==> (r.action is Nothing && !r.undercut_alert)
    &&& inventory is None ==> (own matches Some(o) ==> (r.action
        matches SellAction::CancelStale { order_id } && order_id@ == o.id@ && !r.undercut_alert))
    &&& inventory matches Some(inv) ==> {
        &&& book.sellers == 0 ==> {
            &&& !r.undercut_alert
            &&& listed ==> r.action is Nothing
            &&& !listed ==> {
                &&& own matches Some(o) ==> (r.action matches SellAction::Reprice {
                    order_id,
                    price,
                    quantity,
                    visible,
                } && order_id@ == o.id@ && price == inv.price + 30 && quantity == inv.owned
                    && visible == o.visible)
                &&& own is None ==> (r.action matches SellAction::Place { price, quantity }
                    && price == inv.price + 30 && quantity == inv.owned)
            }
        }
        &&& book.sellers > 0 ==> {
            let target: int = if inv.price + 10 >= book.lowest_ask {
                inv.price + 10int
            } else {
                book.lowest_ask as int
            };
            &&& r.undercut_alert == (book.lowest_ask - inv.price <= -10)
            &&& listed ==> r.action is Nothing
            &&& !listed ==> {
                &&& own matches Some(o) ==> (o.platinum != target ==> (r.action
                    matches SellAction::Reprice { order_id, price, quantity, visible } && order_id@
                    == o.id@ && price == target && quantity == inv.owned && visible == o.visible))
                &&& own matches Some(o) ==> (o.platinum == target ==> r.action is Nothing)
                &&& own is None ==> (r.action matches SellAction::Place { price, quantity } && price
                    == target && quantity == inv.owned)
            }
        }
    }
}

/// Decides the sell-side action for one item from the blacklist, the
/// owned inventory record, the operator's current sell listing and the
/// live book.
///
/// With no competing seller the item is listed at the stored price plus
/// a conservative premium of 30; with competition the target is the
/// lowest competing ask, floored at the stored price plus 10.  A
/// competitor more than 10 under the stored price raises the undercut
/// alert, which by itself changes no order.  A blacklisted item is never
/// listed nor repriced; its stale listing is still cancelled and the
/// alert still raised.
pub fn decide_sell(
    item_name: &String,
    blacklist: &Vec<String>,
    inventory: &Option<InventoryRecord>,
    own: &Option<OwnOrderState>,
    book: &BookSummary,
) -> (r: SellOutcome)
    requires
        inventory matches Some(inv) ==> crate::types::inventory_ok(*inv),
        0 <= book.lowest_ask <= PRICE_LIMIT,
    ensures
        sell_decision_ok(r, item_name@, blacklist@, *inventory, *own, *book),
{
    let listed = crate::types::list_contains(blacklist, item_name);
    match inventory {
        None => {
            match own {
                None => SellOutcome { action: SellAction::Nothing, undercut_alert: false },
                Some(o) => SellOutcome {
                    action: SellAction::CancelStale { order_id: o.id.clone() },
                    undercut_alert: false,
                },
            }
        },
        Some(inv) => {
            let avg_price = inv.price;
            let quantity = inv.owned;
            if book.sellers == 0 {
                if listed {
                    return SellOutcome { action: SellAction::Nothing, undercut_alert: false };
                }
                let post_price = avg_price + 30;
                match own {
                    Some(o) => SellOutcome {
                        action: SellAction::Reprice {
                            order_id: o.id.clone(),
                            price: post_price,
                            quantity,
                            visible: o.visible,
                        },
                        undercut_alert: false,
                    },
                    None => SellOutcome {
                        action: SellAction::Place { price: post_price, quantity },
                        undercut_alert: false,
                    },
                }
            } else {
                let competitor = book.lowest_ask;
                let undercut_alert = competitor - avg_price <= -10;
                if listed {
                    return SellOutcome { action: SellAction::Nothing, undercut_alert };
                }
                let target = if avg_price + 10 >= competitor {
                    avg_price + 10
                } else {
                    competitor
                };
                match own {
                    Some(o) => {
                        if o.platinum != target {
                            SellOutcome {
                                action: SellAction::Reprice {
                                    order_id: o.id.clone(),
                                    price: target,
                                    quantity,
                                    visible: o.visible,
                                },
                                undercut_alert,
                            }
                        } else {
                            SellOutcome { action: SellAction::Nothing, undercut_alert }
                        }
                    },
                    None => SellOutcome {
                        action: SellAction::Place { price: target, quantity },
                        undercut_alert,
                    },
                }
            }
        },
    }
}

/// What the buy side decides for one item.
#[derive(Debug)]
pub enum BuyDecision {
    /// Leave the item alone.
    Nothing,
    /// Create a new visible buy listing, quantity 1, at the price.
    Place { price: i64 },
    /// Update the existing listing to the price, quantity 1, keeping its
    /// visibility.
    Reprice { order_id: String, price: i64, visible: bool },
    /// Cancel the existing listing and place nothing.
    Withdraw { order_id: String },
    /// Cancel every listed order (capital reassigned), then create a new
    /// visible buy listing, quantity 1, at the price.
    Rebalance { cancel: Vec<BuyCandidate>, price: i64 },
}

/// Some candidate in the run is for the named item.
pub open spec fn cand_name_in(s: Seq<BuyCandidate>, name: Seq<char>) -> bool {
    exists|j: int| 0 <= j < s.len() && (#[trigger] s[j]).item_name@ == name
}

/// Whether any candidate in the list is for the named item.
pub fn contains_candidate_name(list: &Vec<BuyCandidate>, name: &String) -> (r: bool)
    ensures
        r == cand_name_in(list@, name@),
{
    let mut j: usize = 0;
    while j < list.len()
        invariant
            j <= list@.len(),
            forall|k: int| 0 <= k < j ==> (#[trigger] list@[k]).item_name@ != name@,
        decreases list@.len() - j,
    {
        if string_eq(&list[j].item_name, name) {
            return true;
        }
        j = j + 1;
    }
    false
}

/// The seed price posted when a market has sellers but no buyer: well
/// under the cheapest competition, floored at one unit.
pub open spec fn seed_price(highest_ask: int) -> int {
    let raw = seed_price_raw(highest_ask);
    if raw < 1 {
        1
    } else {
        raw
    }
}

/// The seed price before its floor of one unit; the average-price cap is
/// checked against this value.
pub open spec fn seed_price_raw(highest_ask: int) -> int {
    if highest_ask - 40 >= highest_ask / 3 - 1 {
        highest_ask - 40
    } else {
        highest_ask / 3 - 1
    }
}

/// Decides the buy-side action for one item from the operator's current
/// listing, the live book, the closed-market average, the owned count
/// and the operator's other open buy orders.
///
/// A blacklisted item, a market with no seller, and a priced-over-cap
/// target are always left alone.  With no buyer but a closed average
/// above 25 the engine seeds the market.  With buyers, the target is the
/// top competing bid: an overexposed position is withdrawn, a favorable
/// signal is listed or repriced — a new listing only if the budget
/// optimizer keeps it, cancelling the orders the optimizer lets go —
/// and an unfavorable one is withdrawn.
/// What a correct buy decision is, for every combination of blacklist,
/// book shape, closed-market average, exposure and open orders.
pub open spec fn buy_decision_ok(
    r: BuyDecision,
    name: Seq<char>,
    settings: crate::types::EngineSettings,
    own: Option<OwnOrderState>,
    book: BookSummary,
    closed_avg_i: int,
    owned_i: int,
    current_orders: Seq<BuyCandidate>,
) -> bool {
    &&& crate::types::name_listed(name, settings.blacklist@) ==> r is Nothing
    &&& !crate::types::name_listed(name, settings.blacklist@) ==> {
        &&& book.sellers == 0 ==> r is Nothing
        &&& (book.sellers > 0 && book.buyers == 0 && closed_avg_i <= 25) ==> r is Nothing
        &&& (book.sellers > 0 && book.buyers == 0 && closed_avg_i > 25) ==> {
                let raw = seed_price_raw(book.highest_ask as int);
                let post = seed_price(book.highest_ask as int);
                &&& raw > settings.avg_price_cap ==> r is Nothing
                &&& raw <= settings.avg_price_cap ==> {
                    &&& own matches Some(o) ==> (r matches BuyDecision::Reprice {
                        order_id,
                        price,
                        visible,
                    } && order_id@ == o.id@ && price == post && visible == o.visible)
                    &&& own is None ==> (r matches BuyDecision::Place { price } && price == post)
                }
            }
            &&& (book.sellers > 0 && book.buyers > 0) ==> {
                let target = book.top_bid as int;
                let metric = closed_avg_i - target;
                &&& target > settings.avg_price_cap ==> r is Nothing
                &&& target <= settings.avg_price_cap ==> {
                    &&& (owned_i > 1 && metric < 25 * owned_i) ==> {
                        &&& own matches Some(o) ==> (r matches BuyDecision::Withdraw { order_id }
                            && order_id@ == o.id@)
                        &&& own is None ==> r is Nothing
                    }
                    &&& !(owned_i > 1 && metric < 25 * owned_i) ==> {
                        let good = (metric >= 30 && book.spread >= 15) || book.spread >= 21;
                        &&& good ==> {
                            &&& own matches Some(o) ==> (o.platinum != target ==> (r
                                matches BuyDecision::Reprice { order_id, price, visible }
                                && order_id@ == o.id@ && price == target && visible == o.visible))
                            &&& own matches Some(o) ==> (o.platinum == target ==> r is Nothing)
                            &&& own is None ==> budget_outcome(
                                r,
                                name,
                                current_orders,
                                target,
                                metric - 1,
                                settings.max_total_price_cap as int,
                            )
                        }
                        &&& !good ==> {
                            &&& own matches Some(o) ==> (r matches BuyDecision::Withdraw {
                                order_id,
                            } && order_id@ == o.id@)
                            &&& own is None ==> r is Nothing
                        }
                    }
                }
            }
        }
}

pub fn decide_buy(
    item_name: &String,
    settings: &crate::types::EngineSettings,
    own: &Option<OwnOrderState>,
    book: &BookSummary,
    closed_avg: i64,
    owned: i64,
    current_orders: &Vec<BuyCandidate>,
) -> (r: BuyDecision)
    requires
        crate::types::settings_ok(*settings),
        0 <= book.top_bid <= PRICE_LIMIT,
        0 <= book.highest_ask <= PRICE_LIMIT,
        0 <= closed_avg <= PRICE_LIMIT,
        0 <= owned <= PRICE_LIMIT,
        forall|j: int|
            0 <= j < current_orders@.len() ==> crate::budget::candidate_ok(
                #[trigger] current_orders@[j],
            ),
        current_orders@.len() < crate::budget::MAX_CANDIDATES,
    ensures
        buy_decision_ok(
            r,
            item_name@,
            *settings,
            *own,
            *book,
            closed_avg as int,
            owned as int,
            current_orders@,
        ),
{
    if crate::types::list_contains(&settings.blacklist, item_name) {
        return BuyDecision::Nothing;
    }
    if book.sellers == 0 {
        return BuyDecision::Nothing;
    }
    if book.buyers == 0 {
        if closed_avg > 25 {
            let a = book.highest_ask;
            let third = a / 3 - 1;
            let mut post_price: i64 = if a - 40 >= third {
                a - 40
            } else {
                third
            };
            if post_price > settings.avg_price_cap {
                return BuyDecision::Nothing;
            }
            if post_price < 1 {
                post_price = 1;
            }
            match own {
                Some(o) => BuyDecision::Reprice {
                    order_id: o.id.clone(),
                    price: post_price,
                    visible: o.visible,
                },
                None => BuyDecision::Place { price: post_price },
            }
        } else {
            BuyDecision::Nothing
        }
    } else {
        let target = book.top_bid;
        let metric = closed_avg - target;
        if target > settings.avg_price_cap {
            return BuyDecision::Nothing;
        }
        if owned > 1 && metric < 25 * owned {
            match own {
                Some(o) => BuyDecision::Withdraw { order_id: o.id.clone() },
                None => BuyDecision::Nothing,
            }
        } else if (metric >= 30 && book.spread >= 15) || book.spread >= 21 {
            match own {
                Some(o) => {
                    if o.platinum != target {
                        BuyDecision::Reprice {
                            order_id: o.id.clone(),
                            price: target,
                            visible: o.visible,
                        }
                    } else {
                        BuyDecision::Nothing
                    }
                },
                None => {
                    let mut list: Vec<BuyCandidate> = Vec::new();
                    let mut k: usize = 0;
                    while k < current_orders.len()
                        invariant
                            k <= current_orders@.len(),
                            list@.len() == k,
                            forall|i: int| 0 <= i < k ==> list@[i] == current_orders@[i],
                        decreases current_orders@.len() - k,
                    {
                        list.push(current_orders[k].duplicate());
                        k = k + 1;
                    }
                    proof {
                        assert(list@ =~= current_orders@);
                    }
                    list.push(
                        BuyCandidate {
                            cost: target,
                            value: metric - 1,
                            item_name: item_name.clone(),
                            order_id: String::new(),
                        },
                    );
                    let ghost nc = list@.last();
                    let ghost ext = current_orders@.push(nc);
                    proof {
                        assert(list@ =~= ext);
                    }
                    let result = crate::budget::knapsack(&list, settings.max_total_price_cap);
                    let selected = result.1;
                    let unselected = result.2;
                    let mine = contains_candidate_name(&selected, item_name);
                    proof {
                        let s = choose|s: Seq<bool>|
                            {
                                &&& s.len() == list@.len()
                                &&& crate::budget::sel_cost(list@, s)
                                    <= settings.max_total_price_cap
                                &&& crate::budget::sel_value(list@, s) == result.0 as int
                                &&& selected@ == crate::budget::rev_picked(
                                    list@,
                                    s,
                                    0,
                                    list@.len() as int,
                                )
                                &&& unselected@ == crate::budget::rev_dropped(
                                    list@,
                                    s,
                                    0,
                                    list@.len() as int,
                                )
                            };
                        assert(budget_witness(
                            s,
                            nc,
                            if mine {
                                BuyDecision::Rebalance { cancel: unselected, price: target }
                            } else {
                                BuyDecision::Nothing
                            },
                            item_name@,
                            current_orders@,
                            target as int,
                            metric - 1,
                            settings.max_total_price_cap as int,
                        ));
                    }
                    if mine {
                        BuyDecision::Rebalance { cancel: unselected, price: target }
                    } else {
                        BuyDecision::Nothing
                    }
                },
            }
        } else {
            match own {
                Some(o) => BuyDecision::Withdraw { order_id: o.id.clone() },
                None => BuyDecision::Nothing,
            }
        }
    }
}

/// One selection witnesses a budget outcome: it extends the current
/// orders with the new candidate, fits the capital cap, is worth no less
/// than any other fitting selection, and the decision follows whether it
/// kept the new candidate.
pub open spec fn budget_witness(
    s: Seq<bool>,
    nc: BuyCandidate,
    r: BuyDecision,
    name: Seq<char>,
    current: Seq<BuyCandidate>,
    target: int,
    profit: int,
    cap: int,
) -> bool {
    let ext = current.push(nc);
    let n = ext.len() as int;
    &&& nc.cost == target
    &&& nc.value == profit
    &&& nc.item_name@ == name
    &&& nc.order_id@ == Seq::<char>::empty()
    &&& s.len() == ext.len()
    &&& crate::budget::sel_cost(ext, s) <= cap
    &&& forall|s2: Seq<bool>|
        s2.len() == ext.len() && crate::budget::sel_cost(ext, s2) <= cap
            ==> crate::budget::sel_value(ext, s2) <= crate::budget::sel_value(ext, s)
    &&& cand_name_in(crate::budget::rev_picked(ext, s, 0, n), name) ==> (r
        matches BuyDecision::Rebalance { cancel, price } && cancel@ == crate::budget::rev_dropped(
        ext,
        s,
        0,
        n,
    ) && price == target)
    &&& !cand_name_in(crate::budget::rev_picked(ext, s, 0, n), name) ==> r is Nothing
}

/// What a new-listing decision must satisfy when the budget optimizer
/// arbitrates: some optimal, cap-fitting selection over the operator's
/// current orders plus the new candidate decides it.
pub open spec fn budget_outcome(
    r: BuyDecision,
    name: Seq<char>,
    current: Seq<BuyCandidate>,
    target: int,
    profit: int,
    cap: int,
) -> bool {
    exists|s: Seq<bool>, nc: BuyCandidate| budget_witness(s, nc, r, name, current, target, profit, cap)
}

} // verus!
