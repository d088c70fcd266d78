use api_manager::admission::{
    admit_provider, default_min_balance_threshold, default_model_type, default_model_version,
    default_rate_limit, default_support_balance_check, evaluate_admission,
    insufficient_balance_message, AddProviderRequest, AdmitDecision,
};
use api_manager::provider::{ProviderStatus, ProviderType};
use api_manager::reconciler::ProbeOutcome;
use api_manager::store::ProviderTable;

fn request(key: &str, threshold: u64, support: bool) -> AddProviderRequest {
    AddProviderRequest {
        api_key: key.to_string(),
        provider_type: "DeepSeek".to_string(),
        model_name: "M".to_string(),
        name: None,
        base_url: None,
        is_official: false,
        rate_limit: default_rate_limit(),
        min_balance_threshold: threshold,
        support_balance_check: support,
        model_type: default_model_type(),
        model_version: default_model_version(),
    }
}

#[test]
fn defaults() {
    assert_eq!(default_rate_limit(), 10);
    assert!(default_support_balance_check());
    assert_eq!(default_model_type(), "ChatCompletion");
    assert_eq!(default_model_version(), "v3");
    assert_eq!(default_min_balance_threshold(), 10000);
}

#[test]
fn default_base_urls() {
    assert_eq!(
        request("k", 0, true).get_default_base_url(),
        "https://api.siliconflow.cn/v1/chat/completions"
    );
    let mut r = request("k", 0, true);
    r.provider_type = "OpenAI".to_string();
    assert_eq!(r.get_default_base_url(), "https://api.openai.com/v1/chat/completions");
    r.provider_type = "Anthropic".to_string();
    assert_eq!(r.get_default_base_url(), "https://api.anthropic.com/v1/messages");
    r.provider_type = "MistralAI".to_string();
    assert_eq!(r.get_default_base_url(), "https://api.mistral.ai/v1/chat/completions");
    r.provider_type = "Unknown".to_string();
    assert_eq!(r.get_default_base_url(), "");
    r.base_url = Some("https://own.example.test/v1/x".to_string());
    assert_eq!(r.get_base_url(), "https://own.example.test/v1/x");
}

#[test]
fn generated_name_joins_type_and_suffix() {
    let r = request("k", 0, true);
    let name = r.get_name();
    assert_eq!(name.chars().count(), "DeepSeek".chars().count() + 9);
    assert!(name.starts_with("DeepSeek-"));
    let mut named = request("k", 0, true);
    named.name = Some("given".to_string());
    assert_eq!(named.get_name(), "given");
}

#[test]
fn admission_rejects_underfunded_key() {
    // A threshold of 5.0 against a reported balance of 2.5: one failed
    // entry with the exact message, and no row written.
    let mut table = ProviderTable::new();
    let req = request("k-under", 50000, true);
    let result = admit_provider(&mut table, &req, &ProbeOutcome::Balance(25000), 9);
    assert_eq!(table.row_count(), 0);
    assert!(result.id.is_none());
    assert_eq!(result.balance, Some(25000));
    assert_eq!(
        result.error.as_deref(),
        Some("\u{4f59}\u{989d}\u{4e0d}\u{8db3}: 2.5000 < 5.0000")
    );
    assert!(result.created_at.is_none());
}

#[test]
fn insufficient_message_renders_four_decimals() {
    assert_eq!(
        insufficient_balance_message(25000, 50000),
        "\u{4f59}\u{989d}\u{4e0d}\u{8db3}: 2.5000 < 5.0000"
    );
    assert_eq!(
        insufficient_balance_message(0, 10000),
        "\u{4f59}\u{989d}\u{4e0d}\u{8db3}: 0.0000 < 1.0000"
    );
}

#[test]
fn admission_accepts_funded_key() {
    let mut table = ProviderTable::new();
    let req = request("k-ok", 10000, true);
    let result = admit_provider(&mut table, &req, &ProbeOutcome::Balance(70000), 9);
    assert!(result.error.is_none());
    assert_eq!(result.balance, Some(70000));
    assert_eq!(result.created_at, Some(9));
    assert_eq!(table.row_count(), 1);
    let row = table.row_at(0);
    assert_eq!(row.api_key, "k-ok");
    assert_eq!(row.balance, Some(70000));
    assert_eq!(row.status, ProviderStatus::Active);
    assert_eq!(row.provider_type, ProviderType::DeepSeek);
    assert_eq!(row.base_url, "https://api.siliconflow.cn/v1/chat/completions");
    assert_eq!(row.created_at, 9);
    assert_eq!(Some(row.id), result.id);
}

#[test]
fn admission_rejects_unverified_key() {
    let mut table = ProviderTable::new();
    let req = request("k-bad", 10000, true);
    let result = admit_provider(&mut table, &req, &ProbeOutcome::Unauthorized, 9);
    assert_eq!(table.row_count(), 0);
    assert!(result.error.is_some());
    assert!(result.balance.is_none());
    let http = admit_provider(&mut table, &req, &ProbeOutcome::HttpFailure(500), 9);
    assert!(http.error.is_some());
    assert_eq!(table.row_count(), 0);
}

#[test]
fn admission_without_balance_check_skips_probe() {
    let mut table = ProviderTable::new();
    let req = request("k-free", 50000, false);
    // the probe outcome is ignored for unchecked keys
    let result = admit_provider(&mut table, &req, &ProbeOutcome::Transport, 9);
    assert!(result.error.is_none());
    assert_eq!(result.balance, Some(0));
    assert_eq!(table.row_count(), 1);
}

#[test]
fn admitting_twice_preserves_identity() {
    // The api_key is the natural key: a second admission keeps the row's
    // id and created_at and rewrites the rest.
    let mut table = ProviderTable::new();
    let req = request("k-same", 10000, true);
    admit_provider(&mut table, &req, &ProbeOutcome::Balance(70000), 9);
    let first = table.row_at(0);
    let mut req2 = request("k-same", 20000, true);
    req2.model_name = "M2".to_string();
    admit_provider(&mut table, &req2, &ProbeOutcome::Balance(90000), 44);
    assert_eq!(table.row_count(), 1);
    let second = table.row_at(0);
    assert_eq!(second.id, first.id);
    assert_eq!(second.created_at, first.created_at);
    assert_eq!(second.balance, Some(90000));
    assert_eq!(second.model_name, "M2");
    assert_eq!(second.updated_at, 44);
}

#[test]
fn evaluate_decision_matches_rule() {
    let req = request("k", 50000, true);
    assert_eq!(
        evaluate_admission(&req, &ProbeOutcome::Balance(50000)),
        AdmitDecision::Accepted { balance: 50000 }
    );
    assert_eq!(
        evaluate_admission(&req, &ProbeOutcome::Balance(49999)),
        AdmitDecision::InsufficientBalance { balance: 49999, threshold: 50000 }
    );
    assert_eq!(
        evaluate_admission(&req, &ProbeOutcome::Unauthorized),
        AdmitDecision::VerificationFailed { outcome: ProbeOutcome::Unauthorized }
    );
    let unchecked = request("k", 50000, false);
    assert_eq!(
        evaluate_admission(&unchecked, &ProbeOutcome::Unauthorized),
        AdmitDecision::Accepted { balance: 0 }
    );
}
