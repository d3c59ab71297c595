use market_maker::analytics::{aggregate_history, analyze_overlap, try_stat_for_key, week_price_shift};
use market_maker::types::{EngineSettings, PriceObservation};

fn obs(
    name: &str,
    order_type: &str,
    volume: i64,
    min_price: i64,
    max_price: i64,
    range: i64,
    median: i64,
    avg_price: i64,
    datetime: i64,
) -> PriceObservation {
    PriceObservation {
        name: name.to_string(),
        order_type: order_type.to_string(),
        volume,
        min_price,
        max_price,
        range,
        median,
        avg_price,
        mod_rank: 0,
        item_id: "id0".to_string(),
        datetime,
    }
}

fn settings(volume_threshold: i64, range_threshold: i64) -> EngineSettings {
    EngineSettings {
        volume_threshold,
        range_threshold,
        avg_price_cap: 1000,
        max_total_price_cap: 1000,
        price_shift_threshold: -1000,
        blacklist: vec![],
        whitelist: vec![],
        strict_whitelist: false,
        webhook: String::new(),
        ping_on_notif: false,
    }
}

#[test]
fn group_mean_is_floored_integer_mean() {
    let table = vec![
        obs("abc", "closed", 10, 1, 9, 8, 5, 4, 1),
        obs("abc", "closed", 15, 2, 10, 8, 6, 7, 2),
    ];
    let stat = try_stat_for_key(&table, &"abc".to_string(), "closed").unwrap();
    assert_eq!(stat.volume, 12); // (10 + 15) / 2, floored
    assert_eq!(stat.min_price, 1); // (1 + 2) / 2, floored
    assert_eq!(stat.avg_price, 5); // (4 + 7) / 2, floored
    assert_eq!(stat.item_id, "id0"); // first observation's id
}

#[test]
fn missing_group_yields_none() {
    let table = vec![obs("abc", "closed", 10, 1, 9, 8, 5, 4, 1)];
    assert!(try_stat_for_key(&table, &"abc".to_string(), "sell").is_none());
    assert!(try_stat_for_key(&table, &"zzz".to_string(), "closed").is_none());
}

#[test]
fn aggregate_keeps_first_appearance_order() {
    let table = vec![
        obs("b", "closed", 1, 1, 1, 1, 1, 1, 1),
        obs("a", "closed", 2, 2, 2, 2, 2, 2, 1),
        obs("b", "closed", 3, 3, 3, 3, 3, 3, 2),
        obs("b", "sell", 4, 4, 4, 4, 4, 4, 1),
    ];
    let stats = aggregate_history(&table);
    assert_eq!(stats.len(), 3);
    assert_eq!(stats[0].name, "b");
    assert_eq!(stats[0].order_type, "closed");
    assert_eq!(stats[0].volume, 2); // (1 + 3) / 2
    assert_eq!(stats[1].name, "a");
    assert_eq!(stats[2].order_type, "sell");
}

#[test]
fn price_shift_zero_under_seven_records() {
    let mut table = Vec::new();
    for day in 0..6 {
        table.push(obs("abc", "closed", 1, 1, 1, 1, 50 + day, 1, day));
    }
    assert_eq!(week_price_shift(&table, &"abc".to_string()), 0);
}

#[test]
fn price_shift_is_most_recent_minus_seventh() {
    let mut table = Vec::new();
    // Eight closed days; medians rise with time.  The most recent median
    // is 107 (day 7); the seventh most recent is 101 (day 1).
    for day in 0..8 {
        table.push(obs("abc", "closed", 1, 1, 1, 1, 100 + day, 1, day));
    }
    // Other order types and items do not take part.
    table.push(obs("abc", "sell", 1, 1, 1, 1, 999, 1, 9));
    table.push(obs("zzz", "closed", 1, 1, 1, 1, 999, 1, 9));
    assert_eq!(week_price_shift(&table, &"abc".to_string()), 107 - 101);
}

#[test]
fn price_shift_negative_when_price_falls() {
    let mut table = Vec::new();
    for day in 0..7 {
        table.push(obs("abc", "closed", 1, 1, 1, 1, 100 - day, 1, day));
    }
    // Most recent (day 6) median 94; seventh most recent (day 0) median 100.
    assert_eq!(week_price_shift(&table, &"abc".to_string()), 94 - 100);
}

fn sample_table() -> Vec<PriceObservation> {
    vec![
        obs("abc", "closed", 20, 10, 30, 20, 15, 18, 1),
        obs("abc", "sell", 5, 12, 40, 28, 20, 22, 1),
        obs("abc", "buy", 5, 8, 9, 1, 8, 8, 1),
    ]
}

#[test]
fn overlap_row_joins_sell_and_buy_means() {
    let rows = analyze_overlap(&sample_table(), &settings(10, 10), &vec![]);
    assert_eq!(rows.len(), 1);
    let r = &rows[0];
    assert_eq!(r.name, "abc");
    assert_eq!(r.min_sell, 12); // sell-side min_price mean
    assert_eq!(r.max_buy, 9); // buy-side max_price mean
    assert_eq!(r.overlap, 9 - 12);
    assert_eq!(r.closed_vol, 20);
    assert_eq!(r.closed_min, 10);
    assert_eq!(r.closed_max, 30);
    assert_eq!(r.closed_avg, 18);
    assert_eq!(r.closed_median, 15);
    assert_eq!(r.price_shift, 0); // fewer than seven closed records
    assert_eq!(r.item_id, "id0");
}

#[test]
fn overlap_drops_rows_under_thresholds() {
    // volume 20 is not strictly above 20, so the item fails the filter.
    let rows = analyze_overlap(&sample_table(), &settings(20, 10), &vec![]);
    assert_eq!(rows.len(), 0);
}

#[test]
fn overlap_keeps_inventory_item_despite_thresholds() {
    let rows = analyze_overlap(&sample_table(), &settings(1000, 1000), &vec!["abc".to_string()]);
    assert_eq!(rows.len(), 1);
    assert_eq!(rows[0].name, "abc");
}

#[test]
fn overlap_requires_both_sides_to_join() {
    // No buy-side observations: the item cannot be joined.
    let table = vec![
        obs("abc", "closed", 20, 10, 30, 20, 15, 18, 1),
        obs("abc", "sell", 5, 12, 40, 28, 20, 22, 1),
    ];
    let rows = analyze_overlap(&table, &settings(10, 10), &vec![]);
    assert_eq!(rows.len(), 0);
}

#[test]
fn strict_whitelist_keeps_only_whitelisted() {
    let mut s = settings(10, 10);
    s.strict_whitelist = true;
    s.whitelist = vec!["other".to_string()];
    let rows = analyze_overlap(&sample_table(), &s, &vec![]);
    assert_eq!(rows.len(), 0);
    s.whitelist = vec!["abc".to_string()];
    let rows = analyze_overlap(&sample_table(), &s, &vec![]);
    assert_eq!(rows.len(), 1);
}

#[test]
fn overlap_rows_sorted_by_range_descending() {
    let mut table = sample_table();
    table.push(obs("wide", "closed", 20, 10, 60, 50, 15, 18, 1));
    table.push(obs("wide", "sell", 5, 12, 40, 28, 20, 22, 1));
    table.push(obs("wide", "buy", 5, 8, 9, 1, 8, 8, 1));
    let rows = analyze_overlap(&table, &settings(10, 10), &vec![]);
    assert_eq!(rows.len(), 2);
    assert_eq!(rows[0].name, "wide"); // range 50 before range 20
    assert_eq!(rows[1].name, "abc");
}

#[test]
fn rerunning_analyzer_is_bit_identical() {
    let table = sample_table();
    let s = settings(10, 10);
    let inv = vec!["abc".to_string()];
    let first = analyze_overlap(&table, &s, &inv);
    let second = analyze_overlap(&table, &s, &inv);
    assert_eq!(first.len(), second.len());
    for (a, b) in first.iter().zip(second.iter()) {
        assert_eq!(a.name, b.name);
        assert_eq!(a.item_id, b.item_id);
        assert_eq!(a.mod_rank, b.mod_rank);
        assert_eq!(a.min_sell, b.min_sell);
        assert_eq!(a.max_buy, b.max_buy);
        assert_eq!(a.overlap, b.overlap);
        assert_eq!(a.closed_vol, b.closed_vol);
        assert_eq!(a.closed_min, b.closed_min);
        assert_eq!(a.closed_max, b.closed_max);
        assert_eq!(a.closed_avg, b.closed_avg);
        assert_eq!(a.closed_median, b.closed_median);
        assert_eq!(a.price_shift, b.price_shift);
    }
}
