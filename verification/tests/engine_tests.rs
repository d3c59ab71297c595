use market_maker::engine::{
    decide_buy, decide_sell, find_own_order, summarize_book, BuyDecision, SellAction,
};
use market_maker::types::{
    BuyCandidate, EngineSettings, InventoryRecord, OrderByItem, OwnOrderSnapshot, OwnOrderState,
    User,
};

fn live(user: &str, side: &str, platinum: i64) -> OrderByItem {
    OrderByItem {
        order_type: side.to_string(),
        quantity: 1,
        platinum,
        mod_rank: None,
        user: User {
            reputation: 0,
            ingame_name: user.to_string(),
            id: format!("u-{}", user),
            status: "ingame".to_string(),
        },
        platform: "pc".to_string(),
        creation_date: String::new(),
        last_update: String::new(),
        visible: true,
        id: format!("o-{}-{}", user, platinum),
        region: "en".to_string(),
    }
}

fn settings() -> EngineSettings {
    EngineSettings {
        volume_threshold: 15,
        range_threshold: 10,
        avg_price_cap: 600,
        max_total_price_cap: 1000,
        price_shift_threshold: -1000,
        blacklist: vec![],
        whitelist: vec![],
        strict_whitelist: false,
        webhook: String::new(),
        ping_on_notif: false,
    }
}

fn me() -> String {
    "operator".to_string()
}

fn no_blacklist() -> Vec<String> {
    vec![]
}

#[test]
fn summarize_book_counts_and_edges() {
    let orders = vec![
        live("a", "buy", 10),
        live("b", "buy", 14),
        live("operator", "buy", 99),
        live("c", "sell", 25),
        live("d", "sell", 40),
        live("operator", "sell", 1),
    ];
    let book = summarize_book(&orders, &me());
    assert_eq!(book.buyers, 2);
    assert_eq!(book.sellers, 2);
    assert_eq!(book.top_bid, 14);
    assert_eq!(book.lowest_ask, 25);
    assert_eq!(book.highest_ask, 40);
    assert_eq!(book.spread, 25 - 14);
}

#[test]
fn summarize_book_empty_sides_report_zero() {
    let orders = vec![live("operator", "buy", 99)];
    let book = summarize_book(&orders, &me());
    assert_eq!(book.buyers, 0);
    assert_eq!(book.sellers, 0);
    assert_eq!(book.top_bid, 0);
    assert_eq!(book.lowest_ask, 0);
    assert_eq!(book.highest_ask, 0);
}

#[test]
fn find_own_order_takes_first_match() {
    let orders = vec![
        OwnOrderSnapshot {
            id: "x1".to_string(),
            url_name: "abc".to_string(),
            platinum: 7,
            visible: true,
        },
        OwnOrderSnapshot {
            id: "x2".to_string(),
            url_name: "abc".to_string(),
            platinum: 9,
            visible: false,
        },
    ];
    let st = find_own_order(&orders, &"abc".to_string()).unwrap();
    assert_eq!(st.id, "x1");
    assert_eq!(st.platinum, 7);
    assert!(st.visible);
    assert!(find_own_order(&orders, &"zzz".to_string()).is_none());
}

#[test]
fn zero_sellers_means_no_buy_action() {
    // Buyers exist and the history looks attractive, but nobody sells.
    let orders = vec![live("a", "buy", 10)];
    let book = summarize_book(&orders, &me());
    let own = Some(OwnOrderState { id: "x".to_string(), platinum: 5, visible: true });
    let d = decide_buy(&"abc".to_string(), &settings(), &own, &book, 500, 3, &vec![]);
    assert!(matches!(d, BuyDecision::Nothing));
}

#[test]
fn zero_buyers_seeds_under_the_asks() {
    // closedAvg 100, highest seller price 200: seed at max(160, 65) = 160.
    let orders = vec![live("c", "sell", 120), live("d", "sell", 200)];
    let book = summarize_book(&orders, &me());
    let d = decide_buy(&"abc".to_string(), &settings(), &None, &book, 100, 0, &vec![]);
    match d {
        BuyDecision::Place { price } => assert_eq!(price, 160),
        _ => panic!("expected a new listing"),
    }
}

#[test]
fn zero_buyers_seed_over_cap_is_skipped() {
    let orders = vec![live("c", "sell", 120), live("d", "sell", 200)];
    let book = summarize_book(&orders, &me());
    let mut s = settings();
    s.avg_price_cap = 150;
    let d = decide_buy(&"abc".to_string(), &s, &None, &book, 100, 0, &vec![]);
    assert!(matches!(d, BuyDecision::Nothing));
}

#[test]
fn zero_buyers_low_average_is_skipped() {
    let orders = vec![live("c", "sell", 120)];
    let book = summarize_book(&orders, &me());
    let d = decide_buy(&"abc".to_string(), &settings(), &None, &book, 25, 0, &vec![]);
    assert!(matches!(d, BuyDecision::Nothing));
}

#[test]
fn overexposed_position_is_withdrawn() {
    // owned 3, metric = closedAvg - top bid = 50 < 25 * 3: withdraw.
    let orders = vec![live("a", "buy", 50), live("c", "sell", 70)];
    let book = summarize_book(&orders, &me());
    let own = Some(OwnOrderState { id: "mine".to_string(), platinum: 48, visible: true });
    let d = decide_buy(&"abc".to_string(), &settings(), &own, &book, 100, 3, &vec![]);
    match d {
        BuyDecision::Withdraw { order_id } => assert_eq!(order_id, "mine"),
        _ => panic!("expected a withdrawal"),
    }
}

#[test]
fn overexposed_without_listing_does_nothing() {
    let orders = vec![live("a", "buy", 50), live("c", "sell", 70)];
    let book = summarize_book(&orders, &me());
    let d = decide_buy(&"abc".to_string(), &settings(), &None, &book, 100, 3, &vec![]);
    assert!(matches!(d, BuyDecision::Nothing));
}

#[test]
fn good_signal_reprices_stale_listing_to_top_bid() {
    // metric = 100 - 50 = 50 >= 30, spread = 70 - 50 = 20 >= 15.
    let orders = vec![live("a", "buy", 50), live("c", "sell", 70)];
    let book = summarize_book(&orders, &me());
    let own = Some(OwnOrderState { id: "mine".to_string(), platinum: 48, visible: false });
    let d = decide_buy(&"abc".to_string(), &settings(), &own, &book, 100, 1, &vec![]);
    match d {
        BuyDecision::Reprice { order_id, price, visible } => {
            assert_eq!(order_id, "mine");
            assert_eq!(price, 50);
            assert!(!visible);
        },
        _ => panic!("expected a reprice"),
    }
}

#[test]
fn good_signal_at_target_price_is_left_alone() {
    let orders = vec![live("a", "buy", 50), live("c", "sell", 70)];
    let book = summarize_book(&orders, &me());
    let own = Some(OwnOrderState { id: "mine".to_string(), platinum: 50, visible: true });
    let d = decide_buy(&"abc".to_string(), &settings(), &own, &book, 100, 1, &vec![]);
    assert!(matches!(d, BuyDecision::Nothing));
}

#[test]
fn weak_signal_cancels_listing() {
    // metric = 60 - 50 = 10 < 30 and spread = 5 < 21.
    let orders = vec![live("a", "buy", 50), live("c", "sell", 55)];
    let book = summarize_book(&orders, &me());
    let own = Some(OwnOrderState { id: "mine".to_string(), platinum: 48, visible: true });
    let d = decide_buy(&"abc".to_string(), &settings(), &own, &book, 60, 1, &vec![]);
    match d {
        BuyDecision::Withdraw { order_id } => assert_eq!(order_id, "mine"),
        _ => panic!("expected a withdrawal"),
    }
}

#[test]
fn target_over_cap_is_skipped() {
    let orders = vec![live("a", "buy", 650), live("c", "sell", 700)];
    let book = summarize_book(&orders, &me());
    let d = decide_buy(&"abc".to_string(), &settings(), &None, &book, 900, 0, &vec![]);
    assert!(matches!(d, BuyDecision::Nothing));
}

#[test]
fn blacklisted_item_gets_no_buy_action() {
    let orders = vec![live("a", "buy", 50), live("c", "sell", 70)];
    let book = summarize_book(&orders, &me());
    let mut s = settings();
    s.blacklist = vec!["abc".to_string()];
    let d = decide_buy(&"abc".to_string(), &s, &None, &book, 100, 0, &vec![]);
    assert!(matches!(d, BuyDecision::Nothing));
}

#[test]
fn new_listing_goes_through_budget_optimizer() {
    // metric = 100 - 50 = 50, profit 49; the existing order is worth far
    // less, and both cannot fit under the cap: the old one is cancelled.
    let orders = vec![live("a", "buy", 50), live("c", "sell", 70)];
    let book = summarize_book(&orders, &me());
    let mut s = settings();
    s.max_total_price_cap = 60;
    let current = vec![BuyCandidate {
        cost: 40,
        value: 2,
        item_name: "other".to_string(),
        order_id: "old-1".to_string(),
    }];
    let d = decide_buy(&"abc".to_string(), &s, &None, &book, 100, 1, &current);
    match d {
        BuyDecision::Rebalance { cancel, price } => {
            assert_eq!(price, 50);
            assert_eq!(cancel.len(), 1);
            assert_eq!(cancel[0].order_id, "old-1");
        },
        _ => panic!("expected a rebalance"),
    }
}

#[test]
fn less_optimal_new_listing_is_skipped() {
    // spread = 71 - 50 = 21: a good signal, but the new candidate's
    // profit (metric 2 - 1 = 1) loses to the existing order under the cap.
    let orders = vec![live("a", "buy", 50), live("c", "sell", 71)];
    let book = summarize_book(&orders, &me());
    let mut s = settings();
    s.max_total_price_cap = 50;
    let current = vec![BuyCandidate {
        cost: 50,
        value: 30,
        item_name: "other".to_string(),
        order_id: "old-1".to_string(),
    }];
    let d = decide_buy(&"abc".to_string(), &s, &None, &book, 52, 1, &current);
    assert!(matches!(d, BuyDecision::Nothing));
}

#[test]
fn sell_without_inventory_or_listing_does_nothing() {
    let orders = vec![live("c", "sell", 30)];
    let book = summarize_book(&orders, &me());
    let out = decide_sell(&"abc".to_string(), &no_blacklist(), &None, &None, &book);
    assert!(matches!(out.action, SellAction::Nothing));
    assert!(!out.undercut_alert);
}

#[test]
fn liquidated_position_cancels_stale_listing() {
    let orders = vec![live("c", "sell", 30)];
    let book = summarize_book(&orders, &me());
    let own = Some(OwnOrderState { id: "stale".to_string(), platinum: 33, visible: true });
    let out = decide_sell(&"abc".to_string(), &no_blacklist(), &None, &own, &book);
    match out.action {
        SellAction::CancelStale { order_id } => assert_eq!(order_id, "stale"),
        _ => panic!("expected a stale-order cancel"),
    }
}

#[test]
fn no_competing_sellers_lists_at_premium() {
    // avgPrice 40, no competing seller: new listing at 70 for the owned
    // quantity.
    let orders = vec![live("a", "buy", 10)];
    let book = summarize_book(&orders, &me());
    let inv = Some(InventoryRecord { item_url: "abc".to_string(), owned: 2, price: 40 });
    let out = decide_sell(&"abc".to_string(), &no_blacklist(), &inv, &None, &book);
    match out.action {
        SellAction::Place { price, quantity } => {
            assert_eq!(price, 70);
            assert_eq!(quantity, 2);
        },
        _ => panic!("expected a new listing"),
    }
    assert!(!out.undercut_alert);
}

#[test]
fn competitor_floor_is_cost_basis_plus_ten() {
    // Competitor asks 30, stored price 40: never go under 50.
    let orders = vec![live("c", "sell", 30)];
    let book = summarize_book(&orders, &me());
    let inv = Some(InventoryRecord { item_url: "abc".to_string(), owned: 1, price: 40 });
    let out = decide_sell(&"abc".to_string(), &no_blacklist(), &inv, &None, &book);
    match out.action {
        SellAction::Place { price, quantity } => {
            assert_eq!(price, 50);
            assert_eq!(quantity, 1);
        },
        _ => panic!("expected a new listing"),
    }
    // 30 - 40 = -10 <= -10: the market undercut the position.
    assert!(out.undercut_alert);
}

#[test]
fn matching_competitor_reprices_listing() {
    let orders = vec![live("c", "sell", 60)];
    let book = summarize_book(&orders, &me());
    let inv = Some(InventoryRecord { item_url: "abc".to_string(), owned: 3, price: 40 });
    let own = Some(OwnOrderState { id: "mine".to_string(), platinum: 65, visible: true });
    let out = decide_sell(&"abc".to_string(), &no_blacklist(), &inv, &own, &book);
    match out.action {
        SellAction::Reprice { order_id, price, quantity, visible } => {
            assert_eq!(order_id, "mine");
            assert_eq!(price, 60);
            assert_eq!(quantity, 3);
            assert!(visible);
        },
        _ => panic!("expected a reprice"),
    }
    assert!(!out.undercut_alert);
}

#[test]
fn listing_already_at_target_is_left_alone() {
    let orders = vec![live("c", "sell", 60)];
    let book = summarize_book(&orders, &me());
    let inv = Some(InventoryRecord { item_url: "abc".to_string(), owned: 3, price: 40 });
    let own = Some(OwnOrderState { id: "mine".to_string(), platinum: 60, visible: true });
    let out = decide_sell(&"abc".to_string(), &no_blacklist(), &inv, &own, &book);
    assert!(matches!(out.action, SellAction::Nothing));
}

#[test]
fn blacklisted_item_gets_no_sell_listing() {
    // The item is owned and the market invites a listing, but the item
    // is blacklisted: no listing is created.
    let orders = vec![live("c", "sell", 60)];
    let book = summarize_book(&orders, &me());
    let inv = Some(InventoryRecord { item_url: "abc".to_string(), owned: 3, price: 40 });
    let blacklist = vec!["abc".to_string()];
    let out = decide_sell(&"abc".to_string(), &blacklist, &inv, &None, &book);
    assert!(matches!(out.action, SellAction::Nothing));
    assert!(!out.undercut_alert);
}

#[test]
fn blacklisted_item_still_raises_undercut_alert() {
    // Competitor at 25 against a cost basis of 40 undercuts the position
    // by 15.  The blacklist bars only order calls: the alert still
    // fires, while no listing is created or repriced.
    let orders = vec![live("c", "sell", 25)];
    let book = summarize_book(&orders, &me());
    let inv = Some(InventoryRecord { item_url: "abc".to_string(), owned: 3, price: 40 });
    let own = Some(OwnOrderState { id: "mine".to_string(), platinum: 60, visible: true });
    let blacklist = vec!["abc".to_string()];
    let out = decide_sell(&"abc".to_string(), &blacklist, &inv, &own, &book);
    assert!(matches!(out.action, SellAction::Nothing));
    assert!(out.undercut_alert);
}

#[test]
fn blacklisted_stale_listing_is_still_cancelled() {
    // The position was liquidated outside the engine; cancelling the
    // stale listing is a delete, which the blacklist does not bar.
    let orders = vec![live("c", "sell", 30)];
    let book = summarize_book(&orders, &me());
    let own = Some(OwnOrderState { id: "stale".to_string(), platinum: 33, visible: true });
    let blacklist = vec!["abc".to_string()];
    let out = decide_sell(&"abc".to_string(), &blacklist, &None, &own, &book);
    match out.action {
        SellAction::CancelStale { order_id } => assert_eq!(order_id, "stale"),
        _ => panic!("expected a stale-order cancel"),
    }
    assert!(!out.undercut_alert);
}
