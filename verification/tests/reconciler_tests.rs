use api_manager::pool::Strategy;
use api_manager::provider::{ApiProvider, ProviderStatus, ProviderType};
use api_manager::reconciler::{parse_user_info_balance, run_cycle, user_info_url, ProbeOutcome};
use api_manager::store::ProviderTable;

fn row(key: &str, support: bool, balance: Option<u64>) -> ApiProvider {
    ApiProvider {
        id: format!("id-{}", key),
        name: format!("name-{}", key),
        provider_type: ProviderType::DeepSeek,
        is_official: false,
        base_url: "https://api.example.test/v1/chat/completions".to_string(),
        api_key: key.to_string(),
        status: ProviderStatus::Active,
        rate_limit: 10,
        balance,
        last_balance_check: None,
        min_balance_threshold: 10000,
        support_balance_check: support,
        model_name: "M".to_string(),
        model_type: "ChatCompletion".to_string(),
        model_version: "v3".to_string(),
        created_at: 1,
        updated_at: 1,
    }
}

#[test]
fn user_info_url_from_versioned_base() {
    let url = user_info_url("https://api.example.test/v1/chat/completions");
    assert_eq!(url, "https://api.example.test/v1/user/info");
}

#[test]
fn user_info_url_siliconflow_is_fixed() {
    let url = user_info_url("https://api.siliconflow.cn/v1/chat/completions");
    assert_eq!(url, "https://api.siliconflow.cn/v1/user/info");
}

#[test]
fn user_info_url_without_version_segment() {
    let url = user_info_url("https://api.example.test");
    assert_eq!(url, "https://api.example.test/v1/user/info");
}

#[test]
fn parse_user_info_reads_decimal_balance() {
    let body = "{\"code\":0,\"message\":\"ok\",\"status\":true,\"data\":{\"id\":\"1\",\"name\":\"n\",\"balance\":\"2.5\",\"status\":\"normal\",\"totalBalance\":\"2.5\"}}";
    assert_eq!(parse_user_info_balance(body), Some(25000));
}

#[test]
fn parse_user_info_rejects_bad_shapes() {
    assert_eq!(parse_user_info_balance("not json"), None);
    assert_eq!(parse_user_info_balance("{\"data\":{}}"), None);
    assert_eq!(parse_user_info_balance("{\"data\":{\"balance\":7}}"), None);
    assert_eq!(parse_user_info_balance("{\"data\":{\"balance\":\"1e3\"}}"), None);
}

#[test]
fn reconciler_eviction_empties_pool() {
    // X reports a balance of "0.0000", Y gets a 401: after one cycle both
    // rows are gone, the rebuilt pool is empty, and dispatch finds nothing.
    let mut table = ProviderTable::new();
    table.upsert(row("X", true, Some(50000)));
    table.upsert(row("Y", true, Some(50000)));

    let x_body = "{\"code\":0,\"message\":\"ok\",\"status\":true,\"data\":{\"id\":\"1\",\"name\":\"x\",\"balance\":\"0.0000\",\"status\":\"normal\",\"totalBalance\":\"0\"}}";
    let x_outcome = match parse_user_info_balance(x_body) {
        Some(b) => ProbeOutcome::Balance(b),
        None => ProbeOutcome::Malformed,
    };
    assert_eq!(x_outcome, ProbeOutcome::Balance(0));
    let checks = vec![
        ("X".to_string(), x_outcome),
        ("Y".to_string(), ProbeOutcome::Unauthorized),
    ];

    let (mut pool, (zero_deleted, invalid_deleted)) = run_cycle(&mut table, &checks, 99);
    assert_eq!(table.row_count(), 0);
    assert_eq!(zero_deleted, 1);
    assert_eq!(invalid_deleted, 1);
    assert_eq!(pool.provider_count(), 0);
    assert!(pool.acquire("M", &Strategy::RoundRobin).is_none());
}

#[test]
fn reconciler_cycle_is_idempotent() {
    let mut table = ProviderTable::new();
    table.upsert(row("A", true, Some(1)));
    table.upsert(row("B", true, Some(2)));
    table.upsert(row("C", false, None));
    let checks = vec![
        ("A".to_string(), ProbeOutcome::Balance(70000)),
        ("B".to_string(), ProbeOutcome::Transport),
    ];
    run_cycle(&mut table, &checks, 5);
    let after_once: Vec<_> = (0..table.row_count()).map(|i| table.row_at(i)).collect();
    run_cycle(&mut table, &checks, 5);
    let after_twice: Vec<_> = (0..table.row_count()).map(|i| table.row_at(i)).collect();
    assert_eq!(after_once.len(), after_twice.len());
    for (a, b) in after_once.iter().zip(after_twice.iter()) {
        assert_eq!(a.api_key, b.api_key);
        assert_eq!(a.balance, b.balance);
        assert_eq!(a.last_balance_check, b.last_balance_check);
        assert_eq!(a.updated_at, b.updated_at);
    }
}

#[test]
fn failures_leave_rows_untouched() {
    let mut table = ProviderTable::new();
    table.upsert(row("A", true, Some(30000)));
    let checks = vec![("A".to_string(), ProbeOutcome::HttpFailure(500))];
    run_cycle(&mut table, &checks, 7);
    assert_eq!(table.row_count(), 1);
    let kept = table.row_at(0);
    assert_eq!(kept.balance, Some(30000));
    assert_eq!(kept.last_balance_check, None);
}

#[test]
fn balance_updates_are_written_with_stamp() {
    let mut table = ProviderTable::new();
    table.upsert(row("A", true, Some(30000)));
    let checks = vec![("A".to_string(), ProbeOutcome::Balance(12345))];
    run_cycle(&mut table, &checks, 7);
    let kept = table.row_at(0);
    assert_eq!(kept.balance, Some(12345));
    assert_eq!(kept.last_balance_check, Some(7));
    assert_eq!(kept.updated_at, 7);
}

#[test]
fn pool_matches_store_after_rebuild() {
    // Every pooled provider corresponds to an active stored row.
    let mut table = ProviderTable::new();
    table.upsert(row("A", false, None));
    let mut inactive = row("B", false, None);
    inactive.status = ProviderStatus::Inactive;
    table.upsert(inactive);
    let pool = table.build_pool();
    assert_eq!(pool.provider_count(), 1);
    let pooled = pool.provider_at(0);
    assert_eq!(pooled.api_key, "A");
    assert_eq!(pooled.max_connections, 10);
    let stored = table.row_at(0);
    assert_eq!(stored.api_key, pooled.api_key);
    assert_eq!(stored.status, ProviderStatus::Active);
}
