use steamgiftsbot::account::URL;
use steamgiftsbot::account::entry::Entry;
use steamgiftsbot::engine::{
    EngineState, EngineStep, SortStrategy, apply_outcomes, default_filter_time, filter_by_time,
    parse_filter_time, prepare_giveaways, sort_giveaways,
};
use steamgiftsbot::ConfigError;

fn record(name: &str, price: u32, copies: u32, entries: u32, ends_in_secs: u64) -> Entry {
    Entry {
        name: String::from(name),
        href: URL::href("/giveaway/AbCdE/fixture-game"),
        price,
        copies,
        entries,
        ends_in_secs,
    }
}

fn prices(v: &[Entry]) -> Vec<u32> {
    v.iter().map(|e| e.price).collect()
}

#[test]
fn price_strategy_orders_most_expensive_first() {
    let mut v = vec![
        record("a", 10, 1, 1, 0),
        record("b", 50, 1, 1, 0),
        record("c", 5, 1, 1, 0),
    ];
    sort_giveaways(&mut v, &SortStrategy::Price, false);
    assert_eq!(prices(&v), vec![50, 10, 5]);
}

#[test]
fn price_strategy_reversed_orders_cheapest_first() {
    let mut v = vec![
        record("a", 10, 1, 1, 0),
        record("b", 50, 1, 1, 0),
        record("c", 5, 1, 1, 0),
    ];
    sort_giveaways(&mut v, &SortStrategy::Price, true);
    assert_eq!(prices(&v), vec![5, 10, 50]);
}

#[test]
fn chance_strategy_ranks_higher_chance_first() {
    let mut v = vec![
        record("low", 1, 1, 5, 0),   // chance 0.2
        record("high", 2, 3, 10, 0), // chance 0.3
    ];
    sort_giveaways(&mut v, &SortStrategy::Chance, false);
    assert_eq!(v[0].name, "high");
    assert_eq!(v[1].name, "low");
}

#[test]
fn zero_entries_sorts_as_lowest_priority() {
    let mut v = vec![
        record("degenerate", 1, 2, 0, 0),
        record("low", 1, 1, 5, 0),
        record("high", 2, 3, 10, 0),
    ];
    sort_giveaways(&mut v, &SortStrategy::Chance, false);
    assert_eq!(v[0].name, "high");
    assert_eq!(v[1].name, "low");
    assert_eq!(v[2].name, "degenerate");
}

#[test]
fn time_ceiling_drops_late_records_and_keeps_order() {
    let v = vec![
        record("soon", 1, 1, 1, 100),
        record("late", 2, 1, 1, 5000),
        record("also_soon", 3, 1, 1, 3600),
    ];
    let kept = filter_by_time(v, 3600);
    assert_eq!(prices(&kept), vec![1, 3]);
}

#[test]
fn prepare_rejects_empty_candidate_set() {
    let none = prepare_giveaways(Vec::new(), None, &SortStrategy::Price, false);
    assert!(none.is_none());
}

#[test]
fn prepare_filters_then_orders() {
    let v = vec![
        record("cheap_soon", 10, 1, 1, 100),
        record("pricey_soon", 50, 1, 1, 200),
        record("late", 99, 1, 1, 9999),
    ];
    let out = prepare_giveaways(v, Some(3600), &SortStrategy::Price, false).unwrap();
    assert_eq!(prices(&out), vec![50, 10]);
}

#[test]
fn budget_gating() {
    // budget 100 over ordered candidates [150, 80, 30]: the first is skipped,
    // the second attempted (server then says 40), the third still affordable.
    let g = vec![
        record("a", 150, 1, 1, 0),
        record("b", 80, 1, 1, 0),
        record("c", 30, 1, 1, 0),
    ];
    let outcomes = vec![None, Some(40u32), Some(10u32)];
    let (attempts, funds) = apply_outcomes(&g, 100, &outcomes);
    assert_eq!(attempts, vec![1, 2]);
    assert_eq!(funds, 10);
}

#[test]
fn budget_is_never_decremented_locally() {
    // a successful submission replaces the balance with the server's value,
    // not with balance minus price
    let g = vec![record("a", 30, 1, 1, 0)];
    let outcomes = vec![Some(95u32)];
    let (attempts, funds) = apply_outcomes(&g, 100, &outcomes);
    assert_eq!(attempts, vec![0]);
    assert_eq!(funds, 95);
}

#[test]
fn failed_submission_keeps_budget_and_run() {
    let g = vec![record("a", 30, 1, 1, 0), record("b", 40, 1, 1, 0)];
    let outcomes = vec![None, Some(55u32)];
    let (attempts, funds) = apply_outcomes(&g, 100, &outcomes);
    assert_eq!(attempts, vec![0, 1]);
    assert_eq!(funds, 55);
}

#[test]
fn engine_steps_skip_and_finish() {
    let g = vec![record("a", 150, 1, 1, 0), record("b", 80, 1, 1, 0)];
    let mut st = EngineState::new(100);
    assert_eq!(st.next_step(&g), EngineStep::Skip { index: 0 });
    assert_eq!(st.funds, 100);
    assert_eq!(st.next_step(&g), EngineStep::Attempt { index: 1 });
    st.apply_failure();
    assert_eq!(st.funds, 100);
    assert_eq!(st.next_step(&g), EngineStep::Finished);
}

#[test]
fn default_filter_time_is_one_hour() {
    assert_eq!(default_filter_time(), Some(String::from("1h")));
    assert_eq!(parse_filter_time("1h"), Ok(3600));
}

#[test]
fn bad_filter_time_is_a_config_error() {
    assert_eq!(parse_filter_time("soon"), Err(ConfigError::BadDuration));
}

#[test]
fn wordy_filter_times_parse() {
    assert_eq!(parse_filter_time("10 hours 30 minutes"), Ok(37800));
    assert_eq!(parse_filter_time("2 hours 30 minutes 5 seconds"), Ok(9005));
    assert_eq!(parse_filter_time("17 hours 3 minutes"), Ok(61380));
}

#[test]
fn digit_heavy_filter_time_is_a_config_error() {
    assert_eq!(
        parse_filter_time("123456789012s"),
        Err(ConfigError::BadDuration)
    );
}

#[test]
fn by_chance_is_the_default_strategy() {
    assert_eq!(SortStrategy::by_chance(), SortStrategy::Chance);
}
