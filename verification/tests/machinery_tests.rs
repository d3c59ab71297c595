use market_maker::records::{Order, OrderItem, OrderItemTranslation, Ordres};
use market_maker::scheduler::{
    apply_settings_update, plan_order_sweep, EngineError, ErrorKind, LoopPhase, SchedulerState,
};
use market_maker::types::{EngineSettings, OverlapRow, WarframeLanguage};
use market_maker::watcher::{LogTailState, PollAction};

#[test]
fn language_codes_map_to_languages() {
    assert_eq!(WarframeLanguage::from_str("en"), WarframeLanguage::English);
    assert_eq!(WarframeLanguage::from_str("fr"), WarframeLanguage::French);
    assert_eq!(WarframeLanguage::from_str("es"), WarframeLanguage::Spanish);
    assert_eq!(WarframeLanguage::from_str("de"), WarframeLanguage::German);
    assert_eq!(WarframeLanguage::from_str("ru"), WarframeLanguage::Russian);
    assert_eq!(WarframeLanguage::from_str("jp"), WarframeLanguage::Unknown);
    assert_eq!(WarframeLanguage::default(), WarframeLanguage::English);
}

#[test]
fn watcher_cold_start_records_without_replaying() {
    let mut w = LogTailState::new();
    assert!(w.is_cold());
    let action = w.begin_poll(500);
    assert!(matches!(action, PollAction::Record));
    assert_eq!(w.last_file_size, 500);
    assert_eq!(w.last_line_index, 0);
    w.mark_warm();
    assert!(!w.is_cold());
}

#[test]
fn watcher_reads_only_appended_bytes() {
    let mut w = LogTailState::new();
    w.begin_poll(100);
    w.mark_warm();
    let action = w.begin_poll(150);
    match action {
        PollAction::Read { from } => assert_eq!(from, 100),
        _ => panic!("expected a read"),
    }
    let lines = vec!["one".to_string(), "two".to_string()];
    let numbered = w.assign_indices(&lines);
    assert_eq!(numbered.len(), 2);
    assert_eq!(numbered[0], (1, "one".to_string()));
    assert_eq!(numbered[1], (2, "two".to_string()));
    w.finish_poll(150);
    assert_eq!(w.last_file_size, 150);
    assert_eq!(w.last_line_index, 2);
}

#[test]
fn watcher_resets_on_shrunken_file() {
    let mut w = LogTailState::new();
    w.begin_poll(300);
    w.mark_warm();
    let lines = vec!["a".to_string()];
    w.assign_indices(&lines);
    w.finish_poll(300);
    // The file shrank between polls: both counters reset, reading
    // restarts from the beginning, and nothing panics.
    let action = w.begin_poll(120);
    match action {
        PollAction::Read { from } => assert_eq!(from, 0),
        _ => panic!("expected a read"),
    }
    assert_eq!(w.last_file_size, 0);
    assert_eq!(w.last_line_index, 0);
}

fn err(kind: ErrorKind, critical: bool) -> EngineError {
    EngineError { kind, critical, context: "pass".to_string() }
}

#[test]
fn scheduler_runs_until_stopped() {
    let mut s = SchedulerState::new();
    assert!(!s.is_running());
    s.start_loop();
    assert!(s.is_running());
    assert_eq!(s.phase, LoopPhase::Starting);
    s.on_sweep_result(&None);
    assert_eq!(s.phase, LoopPhase::Running);
    assert!(s.on_pass_result(&None));
    assert!(s.on_pass_result(&Some(err(ErrorKind::Network, false))));
    s.stop_loop();
    assert!(!s.on_pass_result(&None));
    assert_eq!(s.phase, LoopPhase::Stopped);
}

#[test]
fn critical_error_stops_the_loop() {
    let mut s = SchedulerState::new();
    s.start_loop();
    s.on_sweep_result(&None);
    assert!(!s.on_pass_result(&Some(err(ErrorKind::Network, true))));
    assert_eq!(s.phase, LoopPhase::Stopped);
    assert!(!s.is_running());
}

#[test]
fn lock_error_is_always_critical() {
    assert!(err(ErrorKind::Lock, false).is_critical());
    assert!(!err(ErrorKind::Io, false).is_critical());
    assert!(err(ErrorKind::Data, true).is_critical());
}

#[test]
fn critical_sweep_failure_stops_before_first_cycle() {
    let mut s = SchedulerState::new();
    s.start_loop();
    s.on_sweep_result(&Some(err(ErrorKind::Lock, false)));
    assert_eq!(s.phase, LoopPhase::Stopped);
    assert!(!s.is_running());
}

#[test]
fn noncritical_sweep_failure_enters_the_cycle() {
    let mut s = SchedulerState::new();
    s.start_loop();
    s.on_sweep_result(&Some(err(ErrorKind::Network, false)));
    assert_eq!(s.phase, LoopPhase::Running);
    assert!(s.is_running());
}

fn order(id: &str, url: &str) -> Order {
    Order {
        id: id.to_string(),
        platinum: 10,
        visible: true,
        order_type: "sell".to_string(),
        user: None,
        last_update: String::new(),
        region: "en".to_string(),
        platform: "pc".to_string(),
        creation_date: String::new(),
        subtype: None,
        quantity: 1,
        mod_rank: None,
        item: Some(OrderItem {
            id: format!("item-{}", url),
            url_name: url.to_string(),
            icon: String::new(),
            icon_format: None,
            thumb: String::new(),
            sub_icon: None,
            mod_max_rank: None,
            subtypes: None,
            tags: vec![],
            ducats: None,
            quantity_for_set: None,
            vaulted: None,
            en: OrderItemTranslation::new("Item".to_string()),
        }),
    }
}

#[test]
fn sweep_cancels_everything_but_blacklisted() {
    let orders = Ordres {
        sell_orders: vec![order("s1", "abc"), order("s2", "kept")],
        buy_orders: vec![order("b1", "def"), order("b2", "kept")],
    };
    let plan = plan_order_sweep(&orders, &vec!["kept".to_string()]);
    assert_eq!(plan.clear_prices, vec!["abc".to_string()]);
    assert_eq!(plan.delete_ids, vec!["s1".to_string(), "b1".to_string()]);
}

#[test]
fn sweep_on_empty_blacklist_cancels_all() {
    let orders = Ordres {
        sell_orders: vec![order("s1", "abc")],
        buy_orders: vec![order("b1", "def")],
    };
    let plan = plan_order_sweep(&orders, &vec![]);
    assert_eq!(plan.delete_ids, vec!["s1".to_string(), "b1".to_string()]);
    assert_eq!(plan.clear_prices, vec!["abc".to_string()]);
}

fn row(name: &str) -> OverlapRow {
    OverlapRow {
        name: name.to_string(),
        item_id: String::new(),
        mod_rank: 0,
        min_sell: 0,
        max_buy: 0,
        overlap: 0,
        closed_vol: 0,
        closed_min: 0,
        closed_max: 0,
        closed_avg: 0,
        closed_median: 0,
        price_shift: 0,
    }
}

#[test]
fn work_set_unions_and_deduplicates() {
    let rows = vec![row("a"), row("b")];
    let inv = vec!["b".to_string(), "c".to_string(), String::new()];
    let wl = vec!["a".to_string(), "d".to_string()];
    let work = market_maker::selector::select_work_items(&rows, &inv, &wl);
    assert_eq!(work, vec!["a".to_string(), "b".to_string(), "c".to_string(), "d".to_string()]);
}

#[test]
fn work_set_drops_empty_name() {
    let rows: Vec<OverlapRow> = vec![];
    let inv = vec![String::new()];
    let wl: Vec<String> = vec![];
    let work = market_maker::selector::select_work_items(&rows, &inv, &wl);
    assert!(work.is_empty());
}

#[test]
fn settings_update_replaces_every_field() {
    let mut current = EngineSettings {
        volume_threshold: 1,
        range_threshold: 2,
        avg_price_cap: 3,
        max_total_price_cap: 4,
        price_shift_threshold: 5,
        blacklist: vec![],
        whitelist: vec![],
        strict_whitelist: false,
        webhook: String::new(),
        ping_on_notif: false,
    };
    let incoming = EngineSettings {
        volume_threshold: 10,
        range_threshold: 20,
        avg_price_cap: 30,
        max_total_price_cap: 40,
        price_shift_threshold: -50,
        blacklist: vec!["x".to_string()],
        whitelist: vec!["y".to_string()],
        strict_whitelist: true,
        webhook: "hook-endpoint".to_string(),
        ping_on_notif: true,
    };
    apply_settings_update(&mut current, &incoming);
    assert_eq!(current.volume_threshold, 10);
    assert_eq!(current.range_threshold, 20);
    assert_eq!(current.avg_price_cap, 30);
    assert_eq!(current.max_total_price_cap, 40);
    assert_eq!(current.price_shift_threshold, -50);
    assert_eq!(current.blacklist, vec!["x".to_string()]);
    assert_eq!(current.whitelist, vec!["y".to_string()]);
    assert!(current.strict_whitelist);
    assert_eq!(current.webhook, "hook-endpoint");
    assert!(current.ping_on_notif);
}

#[test]
fn work_set_is_sorted_by_name() {
    let rows = vec![row("zeta"), row("alpha")];
    let inv = vec!["midway".to_string()];
    let wl = vec!["beta".to_string()];
    let work = market_maker::selector::select_work_items(&rows, &inv, &wl);
    assert_eq!(
        work,
        vec!["alpha".to_string(), "beta".to_string(), "midway".to_string(), "zeta".to_string()]
    );
}
