//! Marketplace and store records the engine exchanges with its
//! collaborators: items, orders, transactions, riven metadata.
//!
//! Prices, counts and ranks are whole currency units or small integers;
//! times are carried as the marketplace's timestamp strings.

use vstd::prelude::*;

verus! {

/// Riven item metadata from the marketplace catalogue.
#[derive(Clone, Debug)]
pub struct RivenTypeInfo {
    pub thumb: String,
    pub url_name: String,
    pub mastery_level: i64,
    pub group: String,
    pub id: String,
    pub icon: String,
    pub item_name: String,
    pub icon_format: Option<String>,
    pub riven_type: Option<String>,
}

/// Riven attribute metadata from the marketplace catalogue.
#[derive(Clone, Debug)]
pub struct RivenAttributeInfo {
    negative_only: bool,
    effect: String,
    id: String,
    exclusive_to: Option<Vec<String>>,
    group: String,
    units: Option<String>,
    search_only: bool,
    pub url_name: String,
    suffix: Option<String>,
    positive_is_negative: bool,
    prefix: Option<String>,
}

impl RivenAttributeInfo {
    /// The record assembled from the given fields, in argument order.
    pub closed spec fn spec_new(
        negative_only: bool,
        effect: String,
        id: String,
        exclusive_to: Option<Vec<String>>,
        group: String,
        units: Option<String>,
        search_only: bool,
        url_name: String,
        suffix: Option<String>,
        positive_is_negative: bool,
        prefix: Option<String>,
    ) -> RivenAttributeInfo {
        RivenAttributeInfo {
            negative_only,
            effect,
            id,
            exclusive_to,
            group,
            units,
            search_only,
            url_name,
            suffix,
            positive_is_negative,
            prefix,
        }
    }

    /// The attribute's url name.
    pub closed spec fn spec_url_name(self) -> Seq<char> {
        self.url_name@
    }

    /// Assembles a catalogue attribute record.
    pub fn new(
        negative_only: bool,
        effect: String,
        id: String,
        exclusive_to: Option<Vec<String>>,
        group: String,
        units: Option<String>,
        search_only: bool,
        url_name: String,
        suffix: Option<String>,
        positive_is_negative: bool,
        prefix: Option<String>,
    ) -> (r: Self)
        ensures
            r == Self::spec_new(
                negative_only,
                effect,
                id,
                exclusive_to,
                group,
                units,
                search_only,
                url_name,
                suffix,
                positive_is_negative,
                prefix,
            ),
            r.spec_url_name() == url_name@,
    {
        RivenAttributeInfo {
            negative_only,
            effect,
            id,
            exclusive_to,
            group,
            units,
            search_only,
            url_name,
            suffix,
            positive_is_negative,
            prefix,
        }
    }
}

/// One tradable item of the marketplace catalogue.
#[derive(Clone, Debug)]
pub struct Item {
    pub item_name: String,
    pub id: String,
    pub url_name: String,
    pub thumb: String,
    pub wikia_url: Option<String>,
    pub trade_tax: Option<i64>,
    pub mr_requirement: Option<i64>,
    pub set_items: Option<Vec<String>>,
    pub tags: Option<Vec<String>>,
    pub mod_max_rank: Option<i64>,
    pub subtypes: Option<Vec<String>>,
}

/// An item's detail record: its id and the items of its set.
#[derive(Clone, Debug)]
pub struct ItemDetails {
    pub id: String,
    pub items_in_set: Vec<ItemInfo>,
}

/// One set member's id and its mod's highest rank.
#[derive(Clone, Debug)]
pub struct ItemInfo {
    pub id: String,
    pub mod_max_rank: Option<i64>,
}

/// One of the operator's orders, as the marketplace returns it.
#[derive(Clone, Debug)]
pub struct Order {
    pub id: String,
    pub platinum: i64,
    pub visible: bool,
    pub order_type: String,
    pub user: Option<crate::types::User>,
    pub last_update: String,
    pub region: String,
    pub platform: String,
    pub creation_date: String,
    pub subtype: Option<String>,
    pub quantity: i64,
    pub mod_rank: Option<i64>,
    pub item: Option<OrderItem>,
}

/// The item an order is for.
#[derive(Clone, Debug)]
pub struct OrderItem {
    pub id: String,
    pub url_name: String,
    pub icon: String,
    pub icon_format: Option<String>,
    pub thumb: String,
    pub sub_icon: Option<String>,
    pub mod_max_rank: Option<i64>,
    pub subtypes: Option<Vec<String>>,
    pub tags: Vec<String>,
    pub ducats: Option<i64>,
    pub quantity_for_set: Option<i64>,
    pub vaulted: Option<bool>,
    pub en: OrderItemTranslation,
}

/// An order item's translated display name.
#[derive(Clone, Debug)]
pub struct OrderItemTranslation {
    item_name: String,
}

impl OrderItemTranslation {
    /// The wrapped display name.
    pub closed spec fn spec_item_name(self) -> Seq<char> {
        self.item_name@
    }

    /// Wraps a display name.
    pub fn new(item_name: String) -> (r: Self)
        ensures
            r.spec_item_name() == item_name@,
    {
        OrderItemTranslation { item_name }
    }
}

/// The operator's open orders, one list per side.
#[derive(Clone, Debug)]
pub struct Ordres {
    pub sell_orders: Vec<Order>,
    pub buy_orders: Vec<Order>,
}

/// One completed trade the store remembers.
#[derive(Clone, Debug)]
pub struct Transaction {
    pub id: i64,
    pub item_name: String,
    pub item_id: String,
    pub item_url: String,
    pub item_type: String,
    pub item_tags: String,
    pub rank: i64,
    pub price: i64,
    pub datetime: String,
    pub transaction_type: String,
    pub quantity: i64,
}

/// The seller behind an auction.
#[derive(Clone, Debug)]
pub struct AuctionOwner {
    pub ingame_name: String,
    pub last_seen: String,
    pub reputation: i64,
    pub locale: String,
    pub status: String,
    pub id: String,
    pub region: String,
    pub avatar: Option<String>,
}

} // verus!
