use api_manager::pool::{ProviderInfo, ProviderPoolState, Strategy};

fn info(key: &str, model: &str, rate_limit: u32, support: bool, balance: Option<u64>) -> ProviderInfo {
    ProviderInfo {
        base_url: format!("https://example.test/{}/v1/chat/completions", key),
        api_key: key.to_string(),
        max_connections: rate_limit,
        min_connections: 1,
        acquire_timeout_ms: 3000,
        idle_timeout_ms: 60000,
        load_balance_strategy: "RoundRobin".to_string(),
        retry_attempts: 3,
        balance,
        last_balance_check: None,
        min_balance_threshold: 10000,
        support_balance_check: support,
        model_name: model.to_string(),
        model_type: "ChatCompletion".to_string(),
        model_version: "v3".to_string(),
    }
}

#[test]
fn round_robin_progression() {
    // Three keys serving model M; five sequential dispatches rotate A, B, C, A, B.
    let mut pool = ProviderPoolState::new(vec![
        info("A", "M", 10, false, None),
        info("B", "M", 10, false, None),
        info("C", "M", 10, false, None),
    ]);
    let mut picked = Vec::new();
    for _ in 0..5 {
        let got = pool.acquire("M", &Strategy::RoundRobin).expect("a provider");
        picked.push(got.api_key.clone());
        pool.update_usage(&got.api_key, 10, 1);
        pool.release_permit(&got.api_key);
    }
    assert_eq!(picked, vec!["A", "B", "C", "A", "B"]);
}

#[test]
fn least_tokens_selection() {
    // A at 100, B at 50, C at 200 tokens: least-tokens picks B, and still
    // picks B after charging it 40 more.
    let mut pool = ProviderPoolState::new(vec![
        info("A", "M", 10, false, None),
        info("B", "M", 10, false, None),
        info("C", "M", 10, false, None),
    ]);
    pool.update_usage("A", 100, 1);
    pool.update_usage("B", 50, 1);
    pool.update_usage("C", 200, 1);
    let got = pool.acquire("M", &Strategy::LeastTokens).expect("a provider");
    assert_eq!(got.api_key, "B");
    pool.update_usage("B", 40, 2);
    pool.release_permit("B");
    assert_eq!(pool.usage_at(1).total_tokens, 90);
    let again = pool.acquire("M", &Strategy::LeastTokens).expect("a provider");
    assert_eq!(again.api_key, "B");
}

#[test]
fn least_connections_selection() {
    let mut pool = ProviderPoolState::new(vec![
        info("A", "M", 10, false, None),
        info("B", "M", 10, false, None),
    ]);
    pool.update_usage("A", 1, 1);
    pool.update_usage("A", 1, 2);
    pool.update_usage("B", 1000, 3);
    let got = pool.select_provider("M", &Strategy::LeastConnections).expect("an index");
    assert_eq!(pool.provider_at(got).api_key, "B");
}

#[test]
fn least_tie_breaks_to_earliest() {
    let pool = ProviderPoolState::new(vec![
        info("A", "M", 10, false, None),
        info("B", "M", 10, false, None),
    ]);
    let got = pool.select_provider("M", &Strategy::LeastTokens).expect("an index");
    assert_eq!(got, 0);
}

#[test]
fn permit_exhaustion_caps_in_flight() {
    // One key with a rate limit of one: the first dispatch takes the only
    // permit, the second finds none under any strategy.
    let mut pool = ProviderPoolState::new(vec![info("A", "M", 1, false, None)]);
    let first = pool.acquire("M", &Strategy::RoundRobin);
    assert!(first.is_some());
    assert_eq!(pool.in_flight_at(0), 1);
    for strategy in [Strategy::RoundRobin, Strategy::LeastConnections, Strategy::LeastTokens] {
        assert!(pool.acquire("M", &strategy).is_none());
    }
    assert_eq!(pool.in_flight_at(0), 1);
    pool.release_permit("A");
    assert_eq!(pool.in_flight_at(0), 0);
    assert!(pool.acquire("M", &Strategy::RoundRobin).is_some());
}

#[test]
fn selection_filters_by_model_and_balance() {
    let pool = ProviderPoolState::new(vec![
        info("A", "M", 10, true, Some(5000)),   // below its 1.0 threshold
        info("B", "other", 10, false, None),    // other model
        info("C", "M", 10, true, Some(20000)),  // funded
    ]);
    let got = pool.select_provider("M", &Strategy::RoundRobin).expect("an index");
    assert_eq!(pool.provider_at(got).api_key, "C");
    assert!(pool.select_provider("missing", &Strategy::RoundRobin).is_none());
}

#[test]
fn unknown_strategy_takes_first_available() {
    let pool = ProviderPoolState::new(vec![
        info("A", "M", 10, false, None),
        info("B", "M", 10, false, None),
    ]);
    let got = pool.select_provider("M", &Strategy::FirstAvailable).expect("an index");
    assert_eq!(got, 0);
}

#[test]
fn invalid_balance_is_unavailable() {
    let pool = ProviderPoolState::new(vec![info("A", "M", 10, true, None)]);
    assert!(pool.select_provider("M", &Strategy::RoundRobin).is_none());
}

#[test]
fn update_usage_totals_add_up() {
    // Two updates tally like one update with the sum.
    let mut once = ProviderPoolState::new(vec![info("A", "M", 10, false, None)]);
    let mut twice = ProviderPoolState::new(vec![info("A", "M", 10, false, None)]);
    twice.update_usage("A", 30, 1);
    twice.update_usage("A", 12, 2);
    once.update_usage("A", 42, 2);
    assert_eq!(twice.usage_at(0).total_tokens, once.usage_at(0).total_tokens);
    assert_eq!(twice.usage_at(0).total_tokens, 42);
    assert_eq!(twice.usage_at(0).request_count, 2);
    assert_eq!(twice.usage_at(0).last_used, Some(2));
}

#[test]
fn update_usage_unknown_key_changes_nothing() {
    let mut pool = ProviderPoolState::new(vec![info("A", "M", 10, false, None)]);
    pool.update_usage("missing", 30, 1);
    assert_eq!(pool.usage_at(0).total_tokens, 0);
    assert_eq!(pool.usage_at(0).request_count, 0);
}

#[test]
fn remove_provider_is_idempotent() {
    let mut pool = ProviderPoolState::new(vec![
        info("A", "M", 10, false, None),
        info("B", "M", 10, false, None),
    ]);
    pool.remove_provider("A");
    assert_eq!(pool.provider_count(), 1);
    assert_eq!(pool.provider_at(0).api_key, "B");
    pool.remove_provider("A");
    assert_eq!(pool.provider_count(), 1);
}

#[test]
fn permits_never_exceed_rate_limit() {
    let mut pool = ProviderPoolState::new(vec![info("A", "M", 3, false, None)]);
    let mut granted = 0;
    for _ in 0..10 {
        if pool.try_acquire_permit("A") {
            granted += 1;
        }
        assert!(pool.in_flight_at(0) <= 3);
    }
    assert_eq!(granted, 3);
    assert!(!pool.try_acquire_permit("missing"));
}
