use api_manager::chat::{
    build_api_request, effective_model_name, finalize_stream, latch_usage, next_provider,
    parse_chat_response, retry_decision, scan_chunk, AttemptEvent, Cascade, ChatCompletionRequest,
    Message, RetryAction, Usage,
};
use api_manager::pool::{ProviderInfo, ProviderPoolState, Strategy};
use api_manager::usage::ApiCallStatus;

fn info(key: &str, model: &str, rate_limit: u32) -> ProviderInfo {
    ProviderInfo {
        base_url: format!("https://example.test/{}/v1/chat/completions", key),
        api_key: key.to_string(),
        max_connections: rate_limit,
        min_connections: 1,
        acquire_timeout_ms: 3000,
        idle_timeout_ms: 60000,
        load_balance_strategy: "RoundRobin".to_string(),
        retry_attempts: 3,
        balance: None,
        last_balance_check: None,
        min_balance_threshold: 10000,
        support_balance_check: false,
        model_name: model.to_string(),
        model_type: "ChatCompletion".to_string(),
        model_version: "v3".to_string(),
    }
}

fn request(model: Option<&str>) -> ChatCompletionRequest {
    ChatCompletionRequest {
        model: model.map(|m| m.to_string()),
        messages: vec![Message {
            role: "user".to_string(),
            content: "hello".to_string(),
            refusal: Some("ignored".to_string()),
        }],
        max_tokens: None,
        temperature_milli: None,
        stream: Some(false),
    }
}

#[test]
fn model_name_defaults() {
    assert_eq!(effective_model_name(&request(None)), "DeepSeek-V3");
    assert_eq!(effective_model_name(&request(Some("M"))), "M");
}

#[test]
fn api_request_fills_defaults() {
    let req = request(Some("M"));
    let api = build_api_request(&req, "M", false);
    assert_eq!(api.model, "M");
    assert_eq!(api.max_tokens, Some(1000));
    assert_eq!(api.temperature_milli, 700);
    assert!(!api.stream);
    assert_eq!(api.messages.len(), 1);
    assert_eq!(api.messages[0].role, "user");
    assert_eq!(api.messages[0].content, "hello");
    assert!(api.messages[0].refusal.is_none());
}

#[test]
fn api_request_keeps_given_values() {
    let mut req = request(Some("M"));
    req.max_tokens = Some(42);
    req.temperature_milli = Some(150);
    let api = build_api_request(&req, "M", true);
    assert_eq!(api.max_tokens, Some(42));
    assert_eq!(api.temperature_milli, 150);
    assert!(api.stream);
}

#[test]
fn cascade_yields_three_strategies_in_order() {
    let mut cascade = Cascade::new();
    assert_eq!(cascade.next(), Some(Strategy::RoundRobin));
    assert_eq!(cascade.next(), Some(Strategy::LeastConnections));
    assert_eq!(cascade.next(), Some(Strategy::LeastTokens));
    assert_eq!(cascade.next(), None);
    assert_eq!(cascade.next(), None);
}

#[test]
fn cascade_hands_out_at_most_three_providers() {
    // One saturated key: a dispatched request walks all three strategies
    // and gives up; the cascade never restarts.
    let mut pool = ProviderPoolState::new(vec![info("A", "M", 1)]);
    assert!(pool.try_acquire_permit("A"));
    let mut cascade = Cascade::new();
    assert!(next_provider(&mut pool, &mut cascade, "M").is_none());
    assert!(next_provider(&mut pool, &mut cascade, "M").is_none());
}

#[test]
fn cascade_falls_through_to_next_strategy() {
    let mut pool = ProviderPoolState::new(vec![info("A", "M", 1), info("B", "M", 1)]);
    let mut cascade = Cascade::new();
    let (strategy, first) = next_provider(&mut pool, &mut cascade, "M").expect("a provider");
    assert_eq!(strategy, Strategy::RoundRobin);
    assert_eq!(first.api_key, "A");
    // A's permit is taken and A carries the only tally; the same request's
    // next attempt falls through to least-connections and picks B.
    pool.update_usage("A", 5, 1);
    let (strategy, second) = next_provider(&mut pool, &mut cascade, "M").expect("a provider");
    assert_eq!(strategy, Strategy::LeastConnections);
    assert_eq!(second.api_key, "B");
    assert!(next_provider(&mut pool, &mut cascade, "M").is_none());
}

#[test]
fn retry_rules() {
    let ok = AttemptEvent::Response { status_2xx: true, parse_ok: true };
    let bad_body = AttemptEvent::Response { status_2xx: true, parse_ok: false };
    let bad_status = AttemptEvent::Response { status_2xx: false, parse_ok: false };
    assert_eq!(retry_decision(&ok, 0, 3), RetryAction::Deliver);
    assert_eq!(retry_decision(&bad_body, 0, 3), RetryAction::FailParse);
    assert_eq!(retry_decision(&bad_status, 0, 3), RetryAction::RetryAfterDelay);
    assert_eq!(retry_decision(&bad_status, 1, 3), RetryAction::RetryAfterDelay);
    assert_eq!(retry_decision(&bad_status, 2, 3), RetryAction::FailStatus);
    assert_eq!(retry_decision(&AttemptEvent::Timeout, 0, 3), RetryAction::RetryAfterDelay);
    assert_eq!(retry_decision(&AttemptEvent::Timeout, 2, 3), RetryAction::FailTransport);
    assert_eq!(retry_decision(&AttemptEvent::TransportError, 0, 3), RetryAction::FailTransport);
}

#[test]
fn streaming_usage_capture() {
    // Three chunks, the last carrying the usage object: the latch ends on
    // (10, 20, 30) and the stream accounts as a success.
    let chunks = [
        "data: {\"choices\":[{\"delta\":{\"content\":\"he\"}}]}\n\n",
        "data: {\"choices\":[{\"delta\":{\"content\":\"llo\"}}]}\n\n",
        "data: {\"choices\":[],\"usage\":{\"prompt_tokens\":10,\"completion_tokens\":20,\"total_tokens\":30}}\n\n",
    ];
    let mut latched: Option<Usage> = None;
    let mut count: u64 = 0;
    for chunk in chunks {
        latched = scan_chunk(chunk, latched);
        count += 1;
    }
    let expected = Usage { prompt_tokens: 10, completion_tokens: 20, total_tokens: 30 };
    assert_eq!(latched, Some(expected));
    let (status, usage) = finalize_stream(latched, count);
    assert_eq!(status, ApiCallStatus::Success);
    assert_eq!(usage, expected);
}

#[test]
fn stream_without_usage_is_partial() {
    let latched = scan_chunk("data: {\"choices\":[]}\n\n", None);
    assert_eq!(latched, None);
    let (status, usage) = finalize_stream(latched, 1);
    assert_eq!(status, ApiCallStatus::PartialSuccess);
    assert_eq!(usage.total_tokens, 0);
    let (status, _) = finalize_stream(None, 0);
    assert_eq!(status, ApiCallStatus::Error);
}

#[test]
fn scan_ignores_chunks_without_marker() {
    let prev = Some(Usage { prompt_tokens: 1, completion_tokens: 2, total_tokens: 3 });
    assert_eq!(scan_chunk("data: {\"choices\":[]}\n\n", prev), prev);
    // an incomplete usage object leaves the latch alone
    assert_eq!(scan_chunk("data: {\"usage\":{\"prompt_tokens\":9}}\n\n", prev), prev);
    // an unframed chunk parses too
    let latched = scan_chunk(
        "{\"usage\":{\"prompt_tokens\":4,\"completion_tokens\":5,\"total_tokens\":9}}",
        prev,
    );
    assert_eq!(
        latched,
        Some(Usage { prompt_tokens: 4, completion_tokens: 5, total_tokens: 9 })
    );
}

#[test]
fn latch_requires_all_three_numbers() {
    let prev = Some(Usage { prompt_tokens: 1, completion_tokens: 2, total_tokens: 3 });
    assert_eq!(latch_usage(Some(4), None, Some(9), prev), prev);
    assert_eq!(
        latch_usage(Some(4), Some(5), Some(9), None),
        Some(Usage { prompt_tokens: 4, completion_tokens: 5, total_tokens: 9 })
    );
}

#[test]
fn parse_chat_response_reads_model_and_usage() {
    let body = "{\"id\":\"x\",\"object\":\"chat.completion\",\"created\":1,\"model\":\"M\",\"choices\":[],\"usage\":{\"prompt_tokens\":7,\"completion_tokens\":8,\"total_tokens\":15}}";
    let (model, usage) = parse_chat_response(body).expect("a parsed response");
    assert_eq!(model, "M");
    assert_eq!(usage.total_tokens, 15);
    assert!(parse_chat_response("{\"model\":\"M\"}").is_none());
    assert!(parse_chat_response("nonsense").is_none());
}
