//! Core data types shared across the engine.

use vstd::prelude::*;

verus! {

/// Equality of two owned strings, stated over their character sequences.
pub fn string_eq(a: &String, b: &String) -> (r: bool)
    ensures
        r == (a@ == b@),
{
    a.eq(b)
}

/// Equality of two string slices, stated over their character sequences.
pub fn str_eq(a: &str, b: &str) -> (r: bool)
    ensures
        r == (a@ == b@),
{
    let oa = a.to_owned();
    let ob = b.to_owned();
    oa.eq(&ob)
}

/// Strict lexicographic order on character runs, by code point: a
/// proper prefix comes first, otherwise the first differing character
/// decides.
pub open spec fn chars_lt(a: Seq<char>, b: Seq<char>) -> bool
    decreases a.len(),
{
    if b.len() == 0 {
        false
    } else if a.len() == 0 {
        true
    } else if (a[0] as u32) < (b[0] as u32) {
        true
    } else if (a[0] as u32) > (b[0] as u32) {
        false
    } else {
        chars_lt(a.drop_first(), b.drop_first())
    }
}

/// Whether one string sorts strictly before another, by code point.
pub fn str_lt(a: &str, b: &str) -> (r: bool)
    ensures
        r == chars_lt(a@, b@),
{
    let la = a.unicode_len();
    let lb = b.unicode_len();
    proof {
        assert(a@.skip(0) =~= a@);
        assert(b@.skip(0) =~= b@);
    }
    let mut i: usize = 0;
    while i < la && i < lb
        invariant
            la == a@.len(),
            lb == b@.len(),
            i <= la,
            i <= lb,
            chars_lt(a@, b@) == chars_lt(a@.skip(i as int), b@.skip(i as int)),
        decreases la - i,
    {
        let ghost sa = a@.skip(i as int);
        let ghost sb = b@.skip(i as int);
        let ca = a.get_char(i);
        let cb = b.get_char(i);
        proof {
            assert(sa[0] == a@[i as int]);
            assert(sb[0] == b@[i as int]);
            assert(sa.drop_first() =~= a@.skip(i + 1));
            assert(sb.drop_first() =~= b@.skip(i + 1));
        }
        if (ca as u32) < (cb as u32) {
            return true;
        }
        if (ca as u32) > (cb as u32) {
            return false;
        }
        i = i + 1;
    }
    proof {
        assert(a@.skip(i as int).len() == a@.len() - i);
        assert(b@.skip(i as int).len() == b@.len() - i);
    }
    la < lb
}

/// Client languages the log parser can encounter.
#[derive(PartialEq, Eq, Structural, Hash, Debug)]
pub enum WarframeLanguage {
    English,
    French,
    Spanish,
    German,
    Russian,
    Unknown,
}

impl Default for WarframeLanguage {
    fn default() -> (r: Self)
        ensures
            r == WarframeLanguage::English,
    {
        WarframeLanguage::English
    }
}

impl WarframeLanguage {
    /// Maps a two-letter language code to its language; anything else is
    /// `Unknown`.
    pub fn from_str(s: &str) -> (r: Self)
        ensures
            r == WarframeLanguage::English <==> s@ == "en"@,
            r == WarframeLanguage::French <==> s@ == "fr"@,
            r == WarframeLanguage::Spanish <==> s@ == "es"@,
            r == WarframeLanguage::German <==> s@ == "de"@,
            r == WarframeLanguage::Russian <==> s@ == "ru"@,
    {
        proof {
            reveal_strlit("en");
            reveal_strlit("fr");
            reveal_strlit("es");
            reveal_strlit("de");
            reveal_strlit("ru");
            assert("en"@[0] == 'e' && "en"@[1] == 'n');
            assert("fr"@[0] == 'f');
            assert("es"@[0] == 'e' && "es"@[1] == 's');
            assert("de"@[0] == 'd');
            assert("ru"@[0] == 'r');
        }
        if str_eq(s, "en") {
            WarframeLanguage::English
        } else if str_eq(s, "fr") {
            WarframeLanguage::French
        } else if str_eq(s, "es") {
            WarframeLanguage::Spanish
        } else if str_eq(s, "de") {
            WarframeLanguage::German
        } else if str_eq(s, "ru") {
            WarframeLanguage::Russian
        } else {
            WarframeLanguage::Unknown
        }
    }
}

/// A buy order considered by the budget optimizer: its capital cost, the
/// profit expected from it, and the identity of the listing it stands for.
#[derive(Debug)]
pub struct BuyCandidate {
    /// Platinum committed if the order is kept open.
    pub cost: i64,
    /// Expected profit if the order fills.
    pub value: i64,
    /// Market name of the item the order is for.
    pub item_name: String,
    /// Marketplace id of the existing listing; empty for an order not yet
    /// placed.
    pub order_id: String,
}

impl BuyCandidate {
    /// A field-for-field copy.
    pub fn duplicate(&self) -> (r: Self)
        ensures
            r == *self,
    {
        BuyCandidate {
            cost: self.cost,
            value: self.value,
            item_name: self.item_name.clone(),
            order_id: self.order_id.clone(),
        }
    }
}

/// One historical market data point: an item's aggregated statistics for
/// one order type in one time bucket.  Times are bucket ordinals, larger
/// is more recent.
#[derive(Clone, Debug)]
pub struct PriceObservation {
    pub name: String,
    pub order_type: String,
    pub volume: i64,
    pub min_price: i64,
    pub max_price: i64,
    pub range: i64,
    pub median: i64,
    pub avg_price: i64,
    pub mod_rank: i64,
    pub item_id: String,
    pub datetime: i64,
}

impl PriceObservation {
    /// A field-for-field copy.
    pub fn duplicate(&self) -> (r: Self)
        ensures
            r == *self,
    {
        PriceObservation {
            name: self.name.clone(),
            order_type: self.order_type.clone(),
            volume: self.volume,
            min_price: self.min_price,
            max_price: self.max_price,
            range: self.range,
            median: self.median,
            avg_price: self.avg_price,
            mod_rank: self.mod_rank,
            item_id: self.item_id.clone(),
            datetime: self.datetime,
        }
    }
}

/// An observation the analyzer can account for: every numeric field
/// within the engine's price bounds.
pub open spec fn observation_ok(o: PriceObservation) -> bool {
    &&& 0 <= o.volume <= crate::PRICE_LIMIT
    &&& 0 <= o.min_price <= crate::PRICE_LIMIT
    &&& 0 <= o.max_price <= crate::PRICE_LIMIT
    &&& 0 <= o.range <= crate::PRICE_LIMIT
    &&& 0 <= o.median <= crate::PRICE_LIMIT
    &&& 0 <= o.avg_price <= crate::PRICE_LIMIT
    &&& 0 <= o.mod_rank <= crate::PRICE_LIMIT
    &&& 0 <= o.datetime <= crate::PRICE_LIMIT
}

/// The mean of one (item, order type) group's observations over the
/// lookback window.
#[derive(Clone, Debug)]
pub struct AveragedStat {
    pub name: String,
    pub order_type: String,
    pub volume: i64,
    pub min_price: i64,
    pub max_price: i64,
    pub range: i64,
    pub median: i64,
    pub avg_price: i64,
    pub mod_rank: i64,
    pub item_id: String,
}

impl AveragedStat {
    /// A field-for-field copy.
    pub fn duplicate(&self) -> (r: Self)
        ensures
            r == *self,
    {
        AveragedStat {
            name: self.name.clone(),
            order_type: self.order_type.clone(),
            volume: self.volume,
            min_price: self.min_price,
            max_price: self.max_price,
            range: self.range,
            median: self.median,
            avg_price: self.avg_price,
            mod_rank: self.mod_rank,
            item_id: self.item_id.clone(),
        }
    }
}

/// A trader on the marketplace, as the order book reports one.
#[derive(Clone, Debug)]
pub struct User {
    pub reputation: i64,
    pub ingame_name: String,
    pub id: String,
    pub status: String,
}

/// One live order on an item's order book, any trader's.
#[derive(Clone, Debug)]
pub struct OrderByItem {
    pub order_type: String,
    pub quantity: i64,
    pub platinum: i64,
    pub mod_rank: Option<i64>,
    pub user: User,
    pub platform: String,
    pub creation_date: String,
    pub last_update: String,
    pub visible: bool,
    pub id: String,
    pub region: String,
}

/// One of the operator's open orders, reduced to what the decision
/// engine reads.
#[derive(Clone, Debug)]
pub struct OwnOrderSnapshot {
    pub id: String,
    pub url_name: String,
    pub platinum: i64,
    pub visible: bool,
}

/// The operator's current listing for one item, if any.
#[derive(Clone, Debug)]
pub struct OwnOrderState {
    pub id: String,
    pub platinum: i64,
    pub visible: bool,
}

/// One owned item the operator may sell.
#[derive(Clone, Debug)]
pub struct InventoryRecord {
    pub item_url: String,
    pub owned: i64,
    pub price: i64,
}

/// Per-item composite analytics row the overlap analyzer emits.
#[derive(Clone, Debug)]
pub struct OverlapRow {
    pub name: String,
    pub item_id: String,
    pub mod_rank: i64,
    pub min_sell: i64,
    pub max_buy: i64,
    pub overlap: i64,
    pub closed_vol: i64,
    pub closed_min: i64,
    pub closed_max: i64,
    pub closed_avg: i64,
    pub closed_median: i64,
    pub price_shift: i64,
}

/// An analytics row within the engine's price bounds.
pub open spec fn row_ok(r: OverlapRow) -> bool {
    &&& 0 <= r.mod_rank <= crate::PRICE_LIMIT
    &&& 0 <= r.min_sell <= crate::PRICE_LIMIT
    &&& 0 <= r.max_buy <= crate::PRICE_LIMIT
    &&& -(crate::PRICE_LIMIT as int) <= r.overlap <= crate::PRICE_LIMIT
    &&& 0 <= r.closed_vol <= crate::PRICE_LIMIT
    &&& 0 <= r.closed_min <= crate::PRICE_LIMIT
    &&& 0 <= r.closed_max <= crate::PRICE_LIMIT
    &&& 0 <= r.closed_avg <= crate::PRICE_LIMIT
    &&& 0 <= r.closed_median <= crate::PRICE_LIMIT
    &&& -(crate::PRICE_LIMIT as int) <= r.price_shift <= crate::PRICE_LIMIT
}

/// The engine's settings snapshot: thresholds, caps, item lists and
/// notification configuration.
#[derive(Clone, Debug)]
pub struct EngineSettings {
    pub volume_threshold: i64,
    pub range_threshold: i64,
    pub avg_price_cap: i64,
    pub max_total_price_cap: i64,
    pub price_shift_threshold: i64,
    pub blacklist: Vec<String>,
    pub whitelist: Vec<String>,
    pub strict_whitelist: bool,
    pub webhook: String,
    pub ping_on_notif: bool,
}

/// Numeric thresholds within the engine's price bounds.
pub open spec fn settings_ok(s: EngineSettings) -> bool {
    &&& 0 <= s.volume_threshold <= crate::PRICE_LIMIT
    &&& 0 <= s.range_threshold <= crate::PRICE_LIMIT
    &&& 0 <= s.avg_price_cap <= crate::PRICE_LIMIT
    &&& 0 <= s.max_total_price_cap <= crate::PRICE_LIMIT
    &&& -(crate::PRICE_LIMIT as int) <= s.price_shift_threshold <= crate::PRICE_LIMIT
}

/// A live order the engine can account for.
pub open spec fn live_order_ok(o: OrderByItem) -> bool {
    0 <= o.platinum <= crate::PRICE_LIMIT
}

/// An own-order row the engine can account for.
pub open spec fn own_order_ok(o: OwnOrderSnapshot) -> bool {
    0 <= o.platinum <= crate::PRICE_LIMIT
}

/// An inventory record the engine can account for.
pub open spec fn inventory_ok(r: InventoryRecord) -> bool {
    &&& 0 <= r.owned <= crate::PRICE_LIMIT
    &&& 0 <= r.price <= crate::PRICE_LIMIT
}

/// The name is one of the listed names.
pub open spec fn name_listed(name: Seq<char>, list: Seq<String>) -> bool {
    exists|j: int| 0 <= j < list.len() && #[trigger] list[j]@ == name
}

/// Whether a name is on a list, by character contents.
pub fn list_contains(list: &Vec<String>, name: &String) -> (r: bool)
    ensures
        r == name_listed(name@, list@),
{
    let mut j: usize = 0;
    while j < list.len()
        invariant
            j <= list@.len(),
            forall|k: int| 0 <= k < j ==> #[trigger] list@[k]@ != name@,
        decreases list@.len() - j,
    {
        if string_eq(&list[j], name) {
            return true;
        }
        j = j + 1;
    }
    false
}

/// How a recorded trade relates to the operator.
#[derive(Clone, PartialEq, Eq, Structural, Hash, Debug)]
pub enum TradeClassification {
    Sale,
    Purchase,
    Trade,
    Unknown,
}

} // verus!
