//! Per-request usage accounting rows and their summaries.

use crate::ext;
use vstd::prelude::*;
use vstd::string::*;

verus! {

/// How a finished call attempt ended.
#[derive(Clone, Copy, Debug, PartialEq, Eq, Structural)]
pub enum ApiCallStatus {
    Success,
    PartialSuccess,
    Error,
    RateLimited,
    Timeout,
    InvalidRequest,
}

/// The stored name of a call status.
pub open spec fn status_name(s: ApiCallStatus) -> Seq<char> {
    match s {
        ApiCallStatus::Success => "Success"@,
        ApiCallStatus::PartialSuccess => "PartialSuccess"@,
        ApiCallStatus::Error => "Error"@,
        ApiCallStatus::RateLimited => "RateLimited"@,
        ApiCallStatus::Timeout => "Timeout"@,
        ApiCallStatus::InvalidRequest => "InvalidRequest"@,
    }
}

impl ApiCallStatus {
    /// The name stored on usage rows for this status.
    pub fn as_str(&self) -> (r: &'static str)
        ensures
            r@ == status_name(*self),
    {
        match self {
            ApiCallStatus::Success => "Success",
            ApiCallStatus::PartialSuccess => "PartialSuccess",
            ApiCallStatus::Error => "Error",
            ApiCallStatus::RateLimited => "RateLimited",
            ApiCallStatus::Timeout => "Timeout",
            ApiCallStatus::InvalidRequest => "InvalidRequest",
        }
    }
}

impl Default for ApiCallStatus {
    /// A fresh status is `Success`.
    fn default() -> (r: Self)
        ensures
            r == ApiCallStatus::Success,
    {
        ApiCallStatus::Success
    }
}

/// One appended accounting row: a finished call attempt against a key.
#[derive(Clone, Debug)]
pub struct ApiUsage {
    pub id: String,
    pub provider_api_key: String,
    /// Milliseconds since the Unix epoch, assigned at completion.
    pub request_time: i64,
    pub model: String,
    pub prompt_tokens: u32,
    pub completion_tokens: u32,
    pub total_tokens: u32,
    pub status: String,
    pub client_ip: Option<String>,
    pub request_id: Option<String>,
}

impl ApiUsage {
    /// Builds a usage row with a fresh identifier, stamped now; the total
    /// is the sum of prompt and completion tokens.
    pub fn new(
        provider_api_key: String,
        model: String,
        prompt_tokens: u32,
        completion_tokens: u32,
        status: ApiCallStatus,
        client_ip: Option<String>,
        request_id: Option<String>,
    ) -> (r: ApiUsage)
        requires
            prompt_tokens + completion_tokens <= u32::MAX,
        ensures
            r.provider_api_key == provider_api_key,
            r.model == model,
            r.prompt_tokens == prompt_tokens,
            r.completion_tokens == completion_tokens,
            r.total_tokens == prompt_tokens + completion_tokens,
            r.status@ == status_name(status),
            r.client_ip == client_ip,
            r.request_id == request_id,
            r.id@.len() == 36,
    {
        ApiUsage {
            id: ext::generate_uuid(),
            provider_api_key,
            request_time: ext::now_millis(),
            model,
            prompt_tokens,
            completion_tokens,
            total_tokens: prompt_tokens + completion_tokens,
            status: status.as_str().to_owned(),
            client_ip,
            request_id,
        }
    }
}

/// Aggregated view over many usage rows.
#[derive(Clone, Debug)]
pub struct ApiUsageSummary {
    pub total_requests: i64,
    pub total_prompt_tokens: i64,
    pub total_completion_tokens: i64,
    pub total_tokens: i64,
    pub successful_requests: i64,
    pub failed_requests: i64,
    pub provider_stats: Option<Vec<ProviderStats>>,
    pub model_stats: Option<Vec<ModelStats>>,
}

/// Usage grouped by provider key.
#[derive(Clone, Debug)]
pub struct ProviderStats {
    pub provider_api_key: String,
    pub request_count: i64,
    pub total_tokens: i64,
}

/// Usage grouped by model.
#[derive(Clone, Debug)]
pub struct ModelStats {
    pub model: String,
    pub request_count: i64,
    pub total_prompt_tokens: i64,
    pub total_completion_tokens: i64,
    pub total_tokens: i64,
}

} // verus!
