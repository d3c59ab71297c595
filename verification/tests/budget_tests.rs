use market_maker::types::BuyCandidate;

fn cand(cost: i64, value: i64, name: &str, id: &str) -> BuyCandidate {
    BuyCandidate { cost, value, item_name: name.to_string(), order_id: id.to_string() }
}

#[test]
fn knapsack_picks_best_pair_under_cap() {
    let items = vec![cand(6, 10, "a", "1"), cand(5, 8, "b", "2"), cand(5, 7, "c", "3")];
    let (best, selected, unselected) = market_maker::budget::knapsack(&items, 10);
    assert_eq!(best, 15);
    let names: Vec<&str> = selected.iter().map(|c| c.item_name.as_str()).collect();
    assert_eq!(names, vec!["c", "b"]);
    let dropped: Vec<&str> = unselected.iter().map(|c| c.item_name.as_str()).collect();
    assert_eq!(dropped, vec!["a"]);
    let total_cost: i64 = selected.iter().map(|c| c.cost).sum();
    assert!(total_cost <= 10);
}

#[test]
fn knapsack_empty_candidates() {
    let items: Vec<BuyCandidate> = vec![];
    let (best, selected, unselected) = market_maker::budget::knapsack(&items, 100);
    assert_eq!(best, 0);
    assert!(selected.is_empty());
    assert!(unselected.is_empty());
}

#[test]
fn knapsack_zero_cap_selects_only_free_items() {
    let items = vec![cand(3, 5, "a", "1"), cand(0, 2, "b", "2")];
    let (best, selected, _) = market_maker::budget::knapsack(&items, 0);
    assert_eq!(best, 2);
    assert_eq!(selected.len(), 1);
    assert_eq!(selected[0].item_name, "b");
}

#[test]
fn knapsack_single_item_too_heavy() {
    let items = vec![cand(50, 100, "a", "1")];
    let (best, selected, unselected) = market_maker::budget::knapsack(&items, 49);
    assert_eq!(best, 0);
    assert!(selected.is_empty());
    assert_eq!(unselected.len(), 1);
}

#[test]
fn knapsack_negative_value_never_helps() {
    let items = vec![cand(1, -5, "a", "1"), cand(2, 3, "b", "2")];
    let (best, selected, _) = market_maker::budget::knapsack(&items, 10);
    assert_eq!(best, 3);
    assert_eq!(selected.len(), 1);
    assert_eq!(selected[0].item_name, "b");
}

#[test]
fn knapsack_total_cost_within_every_cap() {
    let items = vec![
        cand(4, 9, "a", "1"),
        cand(3, 6, "b", "2"),
        cand(2, 4, "c", "3"),
        cand(7, 13, "d", "4"),
    ];
    for cap in 0..20 {
        let (best, selected, unselected) = market_maker::budget::knapsack(&items, cap);
        let cost: i64 = selected.iter().map(|c| c.cost).sum();
        let value: i64 = selected.iter().map(|c| c.value).sum();
        assert!(cost <= cap);
        assert_eq!(value, best);
        assert_eq!(selected.len() + unselected.len(), items.len());
    }
}
