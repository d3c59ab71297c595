use market_maker::engine::{BuyDecision, SellAction};
use market_maker::pass::{plan_pass, prepare_buy_candidates, ItemMarket, PassInput};
use market_maker::types::{
    EngineSettings, InventoryRecord, OrderByItem, OverlapRow, OwnOrderSnapshot, PriceObservation,
    User,
};

fn obs(
    name: &str,
    order_type: &str,
    volume: i64,
    min_price: i64,
    max_price: i64,
    range: i64,
    median: i64,
    avg_price: i64,
) -> PriceObservation {
    PriceObservation {
        name: name.to_string(),
        order_type: order_type.to_string(),
        volume,
        min_price,
        max_price,
        range,
        median,
        avg_price,
        mod_rank: 0,
        item_id: format!("id-{}", name),
        datetime: 1,
    }
}

fn live(user: &str, side: &str, platinum: i64) -> OrderByItem {
    OrderByItem {
        order_type: side.to_string(),
        quantity: 1,
        platinum,
        mod_rank: None,
        user: User {
            reputation: 0,
            ingame_name: user.to_string(),
            id: format!("u-{}", user),
            status: "ingame".to_string(),
        },
        platform: "pc".to_string(),
        creation_date: String::new(),
        last_update: String::new(),
        visible: true,
        id: format!("o-{}-{}", user, platinum),
        region: "en".to_string(),
    }
}

fn market(name: &str, orders: Vec<OrderByItem>) -> ItemMarket {
    ItemMarket {
        item_name: name.to_string(),
        item_id: format!("id-{}", name),
        mod_rank: None,
        live_orders: orders,
    }
}

fn settings() -> EngineSettings {
    EngineSettings {
        volume_threshold: 10,
        range_threshold: 10,
        avg_price_cap: 600,
        max_total_price_cap: 1000,
        price_shift_threshold: -1000,
        blacklist: vec![],
        whitelist: vec![],
        strict_whitelist: false,
        webhook: String::new(),
        ping_on_notif: false,
    }
}

fn item_history(name: &str, closed_avg: i64) -> Vec<PriceObservation> {
    vec![
        obs(name, "closed", 20, 10, 30, 20, 15, closed_avg),
        obs(name, "sell", 5, 12, 40, 28, 20, 22),
        obs(name, "buy", 5, 8, 9, 1, 8, 8),
    ]
}

#[test]
fn pass_decides_buy_and_sell_for_analytics_item() {
    let input = PassInput {
        observations: item_history("abc", 100),
        settings: settings(),
        inventory: vec![],
        own_buy_orders: vec![],
        own_sell_orders: vec![],
        own_name: "operator".to_string(),
        markets: vec![market("abc", vec![live("a", "buy", 50), live("c", "sell", 70)])],
    };
    let plans = plan_pass(&input);
    assert_eq!(plans.len(), 1);
    assert_eq!(plans[0].item_name, "abc");
    // metric = 100 - 50 = 50 >= 30 and spread = 20 >= 15, no own order:
    // the budget optimizer keeps the only candidate.
    match plans[0].buy.as_ref().unwrap() {
        BuyDecision::Rebalance { cancel, price } => {
            assert_eq!(*price, 50);
            assert!(cancel.is_empty());
        },
        other => panic!("unexpected buy decision: {:?}", other),
    }
    // Not in inventory and no own sell order: nothing to sell.
    match plans[0].sell.as_ref().unwrap().action {
        SellAction::Nothing => {},
        _ => panic!("expected no sell action"),
    }
}

#[test]
fn pass_skips_item_with_no_live_orders() {
    let input = PassInput {
        observations: item_history("abc", 100),
        settings: settings(),
        inventory: vec![],
        own_buy_orders: vec![],
        own_sell_orders: vec![],
        own_name: "operator".to_string(),
        markets: vec![market("abc", vec![])],
    };
    let plans = plan_pass(&input);
    assert_eq!(plans.len(), 1);
    assert!(plans[0].buy.is_none());
    assert!(plans[0].sell.is_none());
}

#[test]
fn pass_never_trades_a_blacklisted_item() {
    // The blacklisted item is even in the owned inventory, where the
    // sell side would otherwise list it.
    let mut s = settings();
    s.blacklist = vec!["abc".to_string()];
    let input = PassInput {
        observations: item_history("abc", 100),
        settings: s,
        inventory: vec![InventoryRecord {
            item_url: "abc".to_string(),
            owned: 2,
            price: 40,
        }],
        own_buy_orders: vec![],
        own_sell_orders: vec![],
        own_name: "operator".to_string(),
        markets: vec![market("abc", vec![live("a", "buy", 50), live("c", "sell", 70)])],
    };
    let plans = plan_pass(&input);
    assert_eq!(plans.len(), 1);
    match plans[0].buy.as_ref().unwrap() {
        BuyDecision::Nothing => {},
        other => panic!("blacklisted item got a buy action: {:?}", other),
    }
    match plans[0].sell.as_ref().unwrap().action {
        SellAction::Place { .. } | SellAction::Reprice { .. } => {
            panic!("blacklisted item got a sell listing")
        },
        _ => {},
    }
}

#[test]
fn pass_sells_inventory_item_without_analytics() {
    // The item qualifies for no analytics row (not in the table at all),
    // but it is owned: the sell side lists it at cost basis plus 30 when
    // nobody competes.
    let input = PassInput {
        observations: item_history("other", 100),
        settings: settings(),
        inventory: vec![InventoryRecord {
            item_url: "mine".to_string(),
            owned: 2,
            price: 40,
        }],
        own_buy_orders: vec![],
        own_sell_orders: vec![],
        own_name: "operator".to_string(),
        markets: vec![
            market("mine", vec![live("a", "buy", 5)]),
            market("other", vec![live("a", "buy", 50), live("c", "sell", 70)]),
        ],
    };
    let plans = plan_pass(&input);
    let mine = plans.iter().find(|p| p.item_name == "mine").unwrap();
    assert!(mine.buy.is_none());
    match mine.sell.as_ref().unwrap().action {
        SellAction::Place { price, quantity } => {
            assert_eq!(price, 70);
            assert_eq!(quantity, 2);
        },
        _ => panic!("expected a sell listing"),
    }
}

#[test]
fn candidates_value_existing_orders_against_closed_average() {
    let rows = vec![OverlapRow {
        name: "abc".to_string(),
        item_id: "id-abc".to_string(),
        mod_rank: 0,
        min_sell: 12,
        max_buy: 9,
        overlap: -3,
        closed_vol: 20,
        closed_min: 10,
        closed_max: 30,
        closed_avg: 100,
        closed_median: 15,
        price_shift: 0,
    }];
    let own = vec![
        OwnOrderSnapshot {
            id: "x1".to_string(),
            url_name: "abc".to_string(),
            platinum: 60,
            visible: true,
        },
        OwnOrderSnapshot {
            id: "x2".to_string(),
            url_name: "unlisted".to_string(),
            platinum: 10,
            visible: true,
        },
    ];
    let cands = prepare_buy_candidates(&own, &rows);
    assert_eq!(cands.len(), 1);
    assert_eq!(cands[0].cost, 60);
    assert_eq!(cands[0].value, 100 - 60);
    assert_eq!(cands[0].item_name, "abc");
    assert_eq!(cands[0].order_id, "x1");
}

#[test]
fn new_order_joins_the_tracked_candidates() {
    let mut current = vec![];
    market_maker::pass::with_new_order(
        &mut current,
        &"own-9".to_string(),
        &"abc".to_string(),
        60,
        100,
    );
    assert_eq!(current.len(), 1);
    assert_eq!(current[0].cost, 60);
    assert_eq!(current[0].value, 40);
    assert_eq!(current[0].item_name, "abc");
    assert_eq!(current[0].order_id, "own-9");
}
