use api_manager::pricing::PricingTable;
use api_manager::provider::{ApiProvider, ProviderStatus, ProviderType};
use api_manager::store::ProviderTable;
use api_manager::usage::{ApiCallStatus, ApiUsage};

fn row(key: &str, support: bool, balance: Option<u64>) -> ApiProvider {
    ApiProvider {
        id: format!("id-{}", key),
        name: format!("name-{}", key),
        provider_type: ProviderType::OpenAI,
        is_official: true,
        base_url: "https://api.openai.com/v1/chat/completions".to_string(),
        api_key: key.to_string(),
        status: ProviderStatus::Active,
        rate_limit: 5,
        balance,
        last_balance_check: None,
        min_balance_threshold: 10000,
        support_balance_check: support,
        model_name: "M".to_string(),
        model_type: "ChatCompletion".to_string(),
        model_version: "v3".to_string(),
        created_at: 1,
        updated_at: 1,
    }
}

#[test]
fn upsert_appends_new_keys() {
    let mut table = ProviderTable::new();
    assert!(!table.upsert(row("a", true, Some(1))));
    assert!(!table.upsert(row("b", true, Some(2))));
    assert_eq!(table.row_count(), 2);
}

#[test]
fn upsert_replaces_but_keeps_identity() {
    let mut table = ProviderTable::new();
    table.upsert(row("a", true, Some(1)));
    let before = table.row_at(0);
    let mut replacement = row("a", false, Some(2));
    replacement.id = "other-id".to_string();
    replacement.created_at = 77;
    replacement.model_name = "M2".to_string();
    assert!(table.upsert(replacement));
    assert_eq!(table.row_count(), 1);
    let after = table.row_at(0);
    assert_eq!(after.id, before.id);
    assert_eq!(after.created_at, before.created_at);
    assert_eq!(after.balance, Some(2));
    assert_eq!(after.model_name, "M2");
    assert!(!after.support_balance_check);
}

#[test]
fn eviction_removes_exhausted_and_invalid() {
    // After the batch pass no balance-checked row is at zero or invalid.
    let mut table = ProviderTable::new();
    table.upsert(row("zero", true, Some(0)));
    table.upsert(row("null", true, None));
    table.upsert(row("funded", true, Some(50000)));
    table.upsert(row("unchecked-zero", false, Some(0)));
    table.upsert(row("unchecked-null", false, None));
    let (zero_deleted, invalid_deleted) = table.delete_exhausted();
    assert_eq!(zero_deleted, 1);
    assert_eq!(invalid_deleted, 1);
    assert_eq!(table.row_count(), 3);
    for i in 0..table.row_count() {
        let r = table.row_at(i);
        assert!(!(r.support_balance_check && (r.balance == Some(0) || r.balance.is_none())));
    }
}

#[test]
fn balance_write_hits_only_its_key() {
    let mut table = ProviderTable::new();
    table.upsert(row("a", true, Some(1)));
    table.upsert(row("b", true, Some(2)));
    table.update_balance("a", Some(999), 5);
    assert_eq!(table.row_at(0).balance, Some(999));
    assert_eq!(table.row_at(0).last_balance_check, Some(5));
    assert_eq!(table.row_at(1).balance, Some(2));
    table.update_balance("missing", Some(1), 5);
    assert_eq!(table.row_count(), 2);
}

#[test]
fn build_pool_takes_active_rows_only() {
    let mut table = ProviderTable::new();
    table.upsert(row("a", true, Some(50000)));
    let mut off = row("b", true, Some(50000));
    off.status = ProviderStatus::Maintenance;
    table.upsert(off);
    let pool = table.build_pool();
    assert_eq!(pool.provider_count(), 1);
    let pooled = pool.provider_at(0);
    assert_eq!(pooled.api_key, "a");
    assert_eq!(pooled.max_connections, 5);
    assert_eq!(pooled.balance, Some(50000));
    assert_eq!(pooled.load_balance_strategy, "RoundRobin");
    assert_eq!(pooled.retry_attempts, 3);
}

#[test]
fn usage_row_totals_tokens() {
    let usage = ApiUsage::new(
        "key".to_string(),
        "M".to_string(),
        10,
        20,
        ApiCallStatus::Success,
        Some("127.0.0.1".to_string()),
        None,
    );
    assert_eq!(usage.total_tokens, 30);
    assert_eq!(usage.status, "Success");
    assert_eq!(usage.id.chars().count(), 36);
    assert_eq!(usage.client_ip.as_deref(), Some("127.0.0.1"));
    assert_eq!(ApiCallStatus::PartialSuccess.as_str(), "PartialSuccess");
    assert_eq!(ApiCallStatus::default(), ApiCallStatus::Success);
}

#[test]
fn pricing_history_keeps_old_rows() {
    let mut prices = PricingTable::new();
    prices.update_price("OpenAI", "M", 15000, 600000, "USD", Some(10));
    prices.update_price("OpenAI", "M", 20000, 700000, "USD", Some(20));
    prices.update_price("OpenAI", "other", 1, 2, "USD", Some(99));
    assert_eq!(prices.row_count(), 3);
    let current = prices.get_current_price("OpenAI", "M").expect("a price");
    assert_eq!(current.prompt_token_price, 20000);
    assert_eq!(current.effective_date, 20);
    assert!(prices.get_current_price("OpenAI", "missing").is_none());
}

#[test]
fn pricing_current_prefers_latest_insert_on_ties() {
    let mut prices = PricingTable::new();
    prices.update_price("P", "M", 1, 1, "USD", Some(10));
    prices.update_price("P", "M", 2, 2, "USD", Some(10));
    let current = prices.get_current_price("P", "M").expect("a price");
    assert_eq!(current.prompt_token_price, 2);
}

#[test]
fn pricing_cost_is_per_thousand_tokens() {
    let mut prices = PricingTable::new();
    let row = prices.update_price("P", "M", 15000, 600000, "USD", Some(1));
    // 2000 prompt tokens at 1.5/1000 and 500 completion tokens at 60/1000,
    // in ten-thousandths: 30000 + 300000.
    assert_eq!(row.calculate_cost(2000, 500), 330000);
}
