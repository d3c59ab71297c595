//! The scheduler: error classification, the background loop's state
//! machine, and the startup order sweep.
//!
//! The loop runs one full pass per cycle while its running flag is set.
//! Every error is classified: only a critical one stops the loop; any
//! other is reported and the next cycle proceeds.  Starting the loop
//! first plans a sweep that cancels every own order not on the
//! blacklist, so each session begins from a clean slate.

use vstd::prelude::*;

use crate::records::{Order, Ordres};
use crate::types::{name_listed, EngineSettings};

verus! {

/// The closed set of failure kinds the engine distinguishes.
#[derive(Clone, Copy, PartialEq, Eq, Structural, Debug)]
pub enum ErrorKind {
    /// Missing or unexpected analytics data; the current item or pass is
    /// skipped.
    Data,
    /// A marketplace call failed; retried on the next cycle.
    Network,
    /// A shared-state snapshot could not be acquired.
    Lock,
    /// The log file could not be read; the poll is skipped.
    Io,
}

/// One classified failure: its kind, whether it violates the engine's
/// own-state assumptions, and where it arose.
#[derive(Clone, Debug)]
pub struct EngineError {
    pub kind: ErrorKind,
    pub critical: bool,
    pub context: String,
}

/// An error stops the loop when marked critical or when a shared-state
/// snapshot failed.
pub open spec fn error_critical(e: EngineError) -> bool {
    e.critical || e.kind is Lock
}

impl EngineError {
    /// Whether this error must stop the scheduler loop.
    pub fn is_critical(&self) -> (r: bool)
        ensures
            r == error_critical(*self),
    {
        self.critical || matches!(self.kind, ErrorKind::Lock)
    }
}

/// Where the background loop stands.
#[derive(Clone, Copy, PartialEq, Eq, Structural, Debug)]
pub enum LoopPhase {
    Stopped,
    Starting,
    Running,
}

/// The scheduler loop's state: its phase and the cooperative running
/// flag both background tasks poll at iteration boundaries.
#[derive(Clone, Copy, PartialEq, Eq, Structural, Debug)]
pub struct SchedulerState {
    pub phase: LoopPhase,
    pub flag: bool,
}

impl SchedulerState {
    /// A scheduler at rest.
    pub fn new() -> (r: Self)
        ensures
            r.phase is Stopped,
            !r.flag,
    {
        SchedulerState { phase: LoopPhase::Stopped, flag: false }
    }

    /// Requests the loop to start.  Legal from any state: the flag is
    /// raised and the loop enters its startup sweep.
    pub fn start_loop(&mut self)
        ensures
            final(self).phase is Starting,
            final(self).flag,
    {
        self.flag = true;
        self.phase = LoopPhase::Starting;
    }

    /// Requests the loop to stop.  The flag drops; the loop observes it
    /// at the next iteration boundary.
    pub fn stop_loop(&mut self)
        ensures
            !final(self).flag,
            final(self).phase == old(self).phase,
    {
        self.flag = false;
    }

    /// Whether the loop is (or is about to be) running.
    pub fn is_running(&self) -> (r: bool)
        ensures
            r == self.flag,
    {
        self.flag
    }

    /// Digests the startup sweep's outcome: a critical failure stops the
    /// loop before its first cycle; anything else enters the cycle.
    pub fn on_sweep_result(&mut self, outcome: &Option<EngineError>)
        requires
            old(self).phase is Starting,
        ensures
            (outcome matches Some(e) && error_critical(*e)) ==> (final(self).phase is Stopped
                && !final(self).flag),
            (outcome matches Some(e) && !error_critical(*e)) ==> (final(self).phase is Running
                && final(self).flag == old(self).flag),
            outcome is None ==> (final(self).phase is Running && final(self).flag == old(
                self,
            ).flag),
    {
        match outcome {
            Some(e) => {
                if e.is_critical() {
                    self.flag = false;
                    self.phase = LoopPhase::Stopped;
                } else {
                    self.phase = LoopPhase::Running;
                }
            },
            None => {
                self.phase = LoopPhase::Running;
            },
        }
    }

    /// Digests one cycle's outcome at the iteration boundary: a critical
    /// error or a stop request ends the loop; any other error is only
    /// reported and the loop continues.  Returns whether another cycle
    /// follows.
    pub fn on_pass_result(&mut self, outcome: &Option<EngineError>) -> (cont: bool)
        requires
            old(self).phase is Running,
        ensures
            (outcome matches Some(e) && error_critical(*e)) ==> (!cont && final(self).phase
                is Stopped && !final(self).flag),
            !(outcome matches Some(e) && error_critical(*e)) ==> {
                &&& cont == old(self).flag
                &&& final(self).flag == old(self).flag
                &&& (old(self).flag ==> final(self).phase is Running)
                &&& (!old(self).flag ==> final(self).phase is Stopped)
            },
    {
        let critical = match outcome {
            Some(e) => e.is_critical(),
            None => false,
        };
        if critical {
            self.flag = false;
            self.phase = LoopPhase::Stopped;
            return false;
        }
        if !self.flag {
            self.phase = LoopPhase::Stopped;
            return false;
        }
        true
    }
}

/// The url of the item an order is for; empty when the marketplace sent
/// no item on the order.
pub open spec fn order_url(o: Order) -> Seq<char> {
    match o.item {
        Some(it) => it.url_name@,
        None => Seq::empty(),
    }
}

/// The item urls of the orders not on the blacklist, in order.
pub open spec fn sweep_urls(s: Seq<Order>, blacklist: Seq<String>) -> Seq<Seq<char>>
    decreases s.len(),
{
    if s.len() == 0 {
        Seq::empty()
    } else {
        let rest = sweep_urls(s.drop_last(), blacklist);
        if name_listed(order_url(s.last()), blacklist) {
            rest
        } else {
            rest.push(order_url(s.last()))
        }
    }
}

/// The ids of the orders not on the blacklist, in order.
pub open spec fn sweep_ids(s: Seq<Order>, blacklist: Seq<String>) -> Seq<Seq<char>>
    decreases s.len(),
{
    if s.len() == 0 {
        Seq::empty()
    } else {
        let rest = sweep_ids(s.drop_last(), blacklist);
        if name_listed(order_url(s.last()), blacklist) {
            rest
        } else {
            rest.push(s.last().id@)
        }
    }
}

/// The startup sweep's plan: which inventory price fields to clear and
/// which orders to cancel.
pub struct SweepPlan {
    /// Item urls whose tracked sell price is cleared, one per cancelled
    /// sell order.
    pub clear_prices: Vec<String>,
    /// Order ids to cancel: the sell orders first, then the buy orders.
    pub delete_ids: Vec<String>,
}

/// Plans the startup delete-all-orders sweep: every own order whose item
/// is not blacklisted is cancelled, and each cancelled sell order's
/// tracked inventory price is cleared.  Blacklisted items' orders are
/// left standing.
pub fn plan_order_sweep(orders: &Ordres, blacklist: &Vec<String>) -> (r: SweepPlan)
    ensures
        crate::selector::names_match(r.clear_prices@, sweep_urls(orders.sell_orders@, blacklist@)),
        crate::selector::names_match(
            r.delete_ids@,
            sweep_ids(orders.sell_orders@, blacklist@) + sweep_ids(orders.buy_orders@, blacklist@),
        ),
{
    let mut clear_prices: Vec<String> = Vec::new();
    let mut delete_ids: Vec<String> = Vec::new();
    let mut j: usize = 0;
    while j < orders.sell_orders.len()
        invariant
            j <= orders.sell_orders@.len(),
            crate::selector::names_match(
                clear_prices@,
                sweep_urls(orders.sell_orders@.subrange(0, j as int), blacklist@),
            ),
            crate::selector::names_match(
                delete_ids@,
                sweep_ids(orders.sell_orders@.subrange(0, j as int), blacklist@),
            ),
        decreases orders.sell_orders@.len() - j,
    {
        let ghost prefix = orders.sell_orders@.subrange(0, j as int);
        let o = &orders.sell_orders[j];
        let url = match &o.item {
            Some(it) => it.url_name.clone(),
            None => String::new(),
        };
        if !crate::types::list_contains(blacklist, &url) {
            clear_prices.push(url);
            delete_ids.push(o.id.clone());
        }
        j = j + 1;
        proof {
            assert(orders.sell_orders@.subrange(0, j as int).drop_last() =~= prefix);
            assert(orders.sell_orders@.subrange(0, j as int).last() == orders.sell_orders@[j - 1]);
        }
    }
    proof {
        assert(orders.sell_orders@.subrange(0, orders.sell_orders@.len() as int)
            =~= orders.sell_orders@);
    }
    let ghost sell_ids = sweep_ids(orders.sell_orders@, blacklist@);
    let mut j: usize = 0;
    while j < orders.buy_orders.len()
        invariant
            j <= orders.buy_orders@.len(),
            crate::selector::names_match(
                delete_ids@,
                sell_ids + sweep_ids(orders.buy_orders@.subrange(0, j as int), blacklist@),
            ),
        decreases orders.buy_orders@.len() - j,
    {
        let ghost prefix = orders.buy_orders@.subrange(0, j as int);
        let o = &orders.buy_orders[j];
        let url = match &o.item {
            Some(it) => it.url_name.clone(),
            None => String::new(),
        };
        if !crate::types::list_contains(blacklist, &url) {
            delete_ids.push(o.id.clone());
        }
        j = j + 1;
        proof {
            assert(orders.buy_orders@.subrange(0, j as int).drop_last() =~= prefix);
            assert(orders.buy_orders@.subrange(0, j as int).last() == orders.buy_orders@[j - 1]);
        }
    }
    proof {
        assert(orders.buy_orders@.subrange(0, orders.buy_orders@.len() as int)
            =~= orders.buy_orders@);
    }
    SweepPlan { clear_prices, delete_ids }
}

/// Replaces the current settings with an incoming snapshot, field by
/// field: the analytics thresholds, the capital caps, the item lists,
/// the whitelist mode and the notification configuration.
pub fn apply_settings_update(current: &mut EngineSettings, incoming: &EngineSettings)
    ensures
        final(current).volume_threshold == incoming.volume_threshold,
        final(current).range_threshold == incoming.range_threshold,
        final(current).avg_price_cap == incoming.avg_price_cap,
        final(current).max_total_price_cap == incoming.max_total_price_cap,
        final(current).price_shift_threshold == incoming.price_shift_threshold,
        final(current).blacklist@ == incoming.blacklist@,
        final(current).whitelist@ == incoming.whitelist@,
        final(current).strict_whitelist == incoming.strict_whitelist,
        final(current).webhook@ == incoming.webhook@,
        final(current).ping_on_notif == incoming.ping_on_notif,
{
    current.volume_threshold = incoming.volume_threshold;
    current.range_threshold = incoming.range_threshold;
    current.avg_price_cap = incoming.avg_price_cap;
    current.max_total_price_cap = incoming.max_total_price_cap;
    current.price_shift_threshold = incoming.price_shift_threshold;
    current.blacklist = clone_names(&incoming.blacklist);
    current.whitelist = clone_names(&incoming.whitelist);
    current.strict_whitelist = incoming.strict_whitelist;
    current.webhook = incoming.webhook.clone();
    current.ping_on_notif = incoming.ping_on_notif;
}

/// A copy of a name list.
fn clone_names(list: &Vec<String>) -> (r: Vec<String>)
    ensures
        r@ == list@,
{
    let mut out: Vec<String> = Vec::new();
    let mut j: usize = 0;
    while j < list.len()
        invariant
            j <= list@.len(),
            out@.len() == j,
            forall|k: int| 0 <= k < j ==> #[trigger] out@[k] == list@[k],
        decreases list@.len() - j,
    {
        out.push(list[j].clone());
        j = j + 1;
    }
    proof {
        assert(out@ =~= list@);
    }
    out
}

} // verus!
