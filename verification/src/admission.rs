//! The provider registration pipeline.
//!
//! A submitted credential is filled with defaults, verified against its
//! upstream (the HTTP probe happens outside the crate and reports a
//! `ProbeOutcome`), and, when the verification passes, written into the
//! table by `api_key`.  An existing row keeps its `id` and `created_at`;
//! every other field is rewritten.  The caller rebuilds the pool after a
//! successful admission.

use crate::ext;
use crate::fixed::{fixed4_digits, format_fixed4};
use crate::provider::{ApiProvider, ProviderStatus, ProviderType};
use crate::reconciler::ProbeOutcome;
use crate::store::{row_index, spec_upsert, ProviderTable};
use crate::text::str_eq;
use vstd::prelude::*;
use vstd::string::*;

verus! {

/// A credential submitted for admission.  Credit thresholds are held in
/// ten-thousandths of a credit.
#[derive(Debug)]
pub struct AddProviderRequest {
    pub api_key: String,
    pub provider_type: String,
    pub model_name: String,
    pub name: Option<String>,
    pub base_url: Option<String>,
    pub is_official: bool,
    pub rate_limit: u32,
    pub min_balance_threshold: u64,
    pub support_balance_check: bool,
    pub model_type: String,
    pub model_version: String,
}

/// The default cap on concurrent in-flight requests for a new key.
pub fn default_rate_limit() -> (r: u32)
    ensures
        r == 10u32,
{
    10
}

/// New keys have balance checking on unless asked otherwise.
pub fn default_support_balance_check() -> (r: bool)
    ensures
        r == true,
{
    true
}

/// The default model kind for a new key.
pub fn default_model_type() -> (r: String)
    ensures
        r@ == "ChatCompletion"@,
{
    "ChatCompletion".to_owned()
}

/// The default model version for a new key.
pub fn default_model_version() -> (r: String)
    ensures
        r@ == "v3"@,
{
    "v3".to_owned()
}

/// The default minimum balance for a new key: one credit, in
/// ten-thousandths.
pub fn default_min_balance_threshold() -> (r: u64)
    ensures
        r == 10000u64,
{
    10000
}

/// The chat endpoint each provider type answers on; unknown types have
/// no default.
pub open spec fn spec_default_base_url(t: Seq<char>) -> Seq<char> {
    if t == "DeepSeek"@ {
        "https://api.siliconflow.cn/v1/chat/completions"@
    } else if t == "OpenAI"@ {
        "https://api.openai.com/v1/chat/completions"@
    } else if t == "Anthropic"@ {
        "https://api.anthropic.com/v1/messages"@
    } else if t == "MistralAI"@ {
        "https://api.mistral.ai/v1/chat/completions"@
    } else {
        Seq::empty()
    }
}

/// The URL a request's calls will go to: the submitted one, or the
/// provider type's default.
pub open spec fn spec_effective_base_url(r: AddProviderRequest) -> Seq<char> {
    match r.base_url {
        Some(u) => u@,
        None => spec_default_base_url(r.provider_type@),
    }
}

/// The tagged provider type named by a request; an unknown name is
/// carried as a custom type.
pub open spec fn spec_provider_type(s: String) -> ProviderType {
    if s@ == "OpenAI"@ {
        ProviderType::OpenAI
    } else if s@ == "Anthropic"@ {
        ProviderType::Anthropic
    } else if s@ == "DeepSeek"@ {
        ProviderType::DeepSeek
    } else if s@ == "MistralAI"@ {
        ProviderType::MistralAI
    } else {
        ProviderType::Custom(s)
    }
}

/// Parses a provider-type name.
pub fn parse_provider_type(s: &String) -> (r: ProviderType)
    ensures
        r == spec_provider_type(*s),
{
    if str_eq(s.as_str(), "OpenAI") {
        ProviderType::OpenAI
    } else if str_eq(s.as_str(), "Anthropic") {
        ProviderType::Anthropic
    } else if str_eq(s.as_str(), "DeepSeek") {
        ProviderType::DeepSeek
    } else if str_eq(s.as_str(), "MistralAI") {
        ProviderType::MistralAI
    } else {
        ProviderType::Custom(s.clone())
    }
}

impl AddProviderRequest {
    /// The default chat endpoint for this request's provider type.
    pub fn get_default_base_url(&self) -> (r: String)
        ensures
            r@ == spec_default_base_url(self.provider_type@),
    {
        if str_eq(self.provider_type.as_str(), "DeepSeek") {
            "https://api.siliconflow.cn/v1/chat/completions".to_owned()
        } else if str_eq(self.provider_type.as_str(), "OpenAI") {
            "https://api.openai.com/v1/chat/completions".to_owned()
        } else if str_eq(self.provider_type.as_str(), "Anthropic") {
            "https://api.anthropic.com/v1/messages".to_owned()
        } else if str_eq(self.provider_type.as_str(), "MistralAI") {
            "https://api.mistral.ai/v1/chat/completions".to_owned()
        } else {
            String::new()
        }
    }

    /// The URL this request's calls will go to.
    pub fn get_base_url(&self) -> (r: String)
        ensures
            r@ == spec_effective_base_url(*self),
    {
        match &self.base_url {
            Some(u) => u.clone(),
            None => self.get_default_base_url(),
        }
    }

    /// The display name of the admitted key: the submitted one, or the
    /// provider type joined by a hyphen to the last eight characters of a
    /// fresh identifier.
    pub fn get_name(&self) -> (r: String)
        ensures
            match self.name {
                Some(n) => r == n,
                None => exists|suffix: Seq<char>|
                    suffix.len() == 8 && r@ == self.provider_type@ + "-"@ + suffix,
            },
    {
        match &self.name {
            Some(n) => n.clone(),
            None => {
                let uuid = ext::generate_uuid();
                let short = uuid.as_str().substring_char(28, 36);
                let mut out = self.provider_type.clone();
                out.append("-");
                out.append(short);
                proof {
                    assert(out@ == self.provider_type@ + "-"@ + short@);
                }
                out
            },
        }
    }
}

/// What admission decided for one credential.
#[derive(Clone, Copy, Debug, PartialEq, Eq, Structural)]
pub enum AdmitDecision {
    /// The key is admitted carrying this verified balance.
    Accepted { balance: u64 },
    /// The upstream reported less credit than the requested threshold.
    InsufficientBalance { balance: u64, threshold: u64 },
    /// The upstream could not verify the key.
    VerificationFailed { outcome: ProbeOutcome },
}

/// The admission rule: a key without balance checking is admitted with a
/// zero balance and no probe; a checked key needs a reading at or above
/// its threshold, and any probe failure rejects it.
pub open spec fn spec_admit_decision(
    support: bool,
    threshold: u64,
    probe: ProbeOutcome,
) -> AdmitDecision {
    if !support {
        AdmitDecision::Accepted { balance: 0u64 }
    } else {
        match probe {
            ProbeOutcome::Balance(b) => {
                if b < threshold {
                    AdmitDecision::InsufficientBalance { balance: b, threshold }
                } else {
                    AdmitDecision::Accepted { balance: b }
                }
            },
            _ => AdmitDecision::VerificationFailed { outcome: probe },
        }
    }
}

/// Decides whether a credential is admitted, from its request and the
/// probe outcome the caller gathered (ignored when balance checking is
/// off for the key).
pub fn evaluate_admission(request: &AddProviderRequest, probe: &ProbeOutcome) -> (r: AdmitDecision)
    ensures
        r == spec_admit_decision(request.support_balance_check, request.min_balance_threshold, *probe),
{
    if !request.support_balance_check {
        return AdmitDecision::Accepted { balance: 0 };
    }
    match probe {
        ProbeOutcome::Balance(b) => {
            if *b < request.min_balance_threshold {
                AdmitDecision::InsufficientBalance {
                    balance: *b,
                    threshold: request.min_balance_threshold,
                }
            } else {
                AdmitDecision::Accepted { balance: *b }
            }
        },
        _ => AdmitDecision::VerificationFailed { outcome: *probe },
    }
}

/// The rejection message for an under-funded key, with both amounts
/// rendered to four fraction digits.
pub fn insufficient_balance_message(balance: u64, threshold: u64) -> (r: String)
    ensures
        r@ == "\u{4f59}\u{989d}\u{4e0d}\u{8db3}: "@ + fixed4_digits(balance as int) + " < "@
            + fixed4_digits(threshold as int),
{
    let mut out = "\u{4f59}\u{989d}\u{4e0d}\u{8db3}: ".to_owned();
    out.append(format_fixed4(balance).as_str());
    out.append(" < ");
    out.append(format_fixed4(threshold).as_str());
    out
}

/// The row an accepted request is stored as.
pub open spec fn row_from_request(
    row: ApiProvider,
    request: AddProviderRequest,
    id: String,
    name: String,
    balance: u64,
    now: int,
) -> bool {
    &&& row.id == id
    &&& row.name == name
    &&& row.provider_type == spec_provider_type(request.provider_type)
    &&& row.is_official == request.is_official
    &&& row.base_url@ == spec_effective_base_url(request)
    &&& row.api_key == request.api_key
    &&& row.status == ProviderStatus::Active
    &&& row.rate_limit == request.rate_limit
    &&& row.balance == Some(balance)
    &&& row.last_balance_check == Some(now as i64)
    &&& row.min_balance_threshold == request.min_balance_threshold
    &&& row.support_balance_check == request.support_balance_check
    &&& row.model_name == request.model_name
    &&& row.model_type == request.model_type
    &&& row.model_version == request.model_version
    &&& row.created_at == now as i64
    &&& row.updated_at == now as i64
}

/// One admitted or rejected credential in an admission response.
#[derive(Debug)]
pub struct ProviderAddResult {
    pub id: Option<String>,
    pub name: String,
    pub api_key: String,
    /// Verified credit in ten-thousandths, when one was read.
    pub balance: Option<u64>,
    pub error: Option<String>,
    pub created_at: Option<i64>,
}

/// The aggregated outcome of an admission request.
#[derive(Debug)]
pub struct AddProviderResponse {
    pub success: Vec<ProviderAddResult>,
    pub failed: Vec<ProviderAddResult>,
}

/// An error body returned by the admission endpoints.
#[derive(Debug)]
pub struct ErrorResponse {
    pub error: String,
}

/// Admits one credential: decides from the probe outcome and, when the
/// key is accepted, writes it into the table by `api_key` under a fresh
/// identifier, keeping an existing row's `id` and `created_at`.  A
/// rejected credential leaves the table alone and carries its error.
pub fn admit_provider(
    table: &mut ProviderTable,
    request: &AddProviderRequest,
    probe: &ProbeOutcome,
    now: i64,
) -> (r: ProviderAddResult)
    requires
        old(table).wf(),
    ensures
        final(table).wf(),
        r.api_key == request.api_key,
        match spec_admit_decision(
            request.support_balance_check,
            request.min_balance_threshold,
            *probe,
        ) {
            AdmitDecision::Accepted { balance } => {
                &&& exists|row: ApiProvider|
                    final(table).rows_seq() == spec_upsert(old(table).rows_seq(), row)
                        && #[trigger] row_from_request(
                        row,
                        *request,
                        r.id->Some_0,
                        r.name,
                        balance,
                        now as int,
                    )
                &&& r.id is Some
                &&& r.balance == Some(balance)
                &&& r.error is None
                &&& r.created_at == Some(now)
            },
            AdmitDecision::InsufficientBalance { balance, threshold } => {
                &&& final(table).rows_seq() == old(table).rows_seq()
                &&& r.id is None
                &&& r.balance == Some(balance)
                &&& r.error matches Some(e) && e@ == "\u{4f59}\u{989d}\u{4e0d}\u{8db3}: "@
                    + fixed4_digits(balance as int) + " < "@ + fixed4_digits(threshold as int)
                &&& r.created_at is None
            },
            AdmitDecision::VerificationFailed { .. } => {
                &&& final(table).rows_seq() == old(table).rows_seq()
                &&& r.id is None
                &&& r.balance is None
                &&& r.error is Some
                &&& r.created_at is None
            },
        },
{
    let name = request.get_name();
    let decision = evaluate_admission(request, probe);
    match decision {
        AdmitDecision::Accepted { balance } => {
            let id = ext::generate_uuid();
            let row = ApiProvider {
                id: id.clone(),
                name: name.clone(),
                provider_type: parse_provider_type(&request.provider_type),
                is_official: request.is_official,
                base_url: request.get_base_url(),
                api_key: request.api_key.clone(),
                status: ProviderStatus::Active,
                rate_limit: request.rate_limit,
                balance: Some(balance),
                last_balance_check: Some(now),
                min_balance_threshold: request.min_balance_threshold,
                support_balance_check: request.support_balance_check,
                model_name: request.model_name.clone(),
                model_type: request.model_type.clone(),
                model_version: request.model_version.clone(),
                created_at: now,
                updated_at: now,
            };
            let ghost stored = row;
            table.upsert(row);
            let result = ProviderAddResult {
                id: Some(id),
                name,
                api_key: request.api_key.clone(),
                balance: Some(balance),
                error: None,
                created_at: Some(now),
            };
            proof {
                assert(row_from_request(
                    stored,
                    *request,
                    result.id->Some_0,
                    result.name,
                    balance,
                    now as int,
                ));
            }
            result
        },
        AdmitDecision::InsufficientBalance { balance, threshold } => {
            ProviderAddResult {
                id: None,
                name,
                api_key: request.api_key.clone(),
                balance: Some(balance),
                error: Some(insufficient_balance_message(balance, threshold)),
                created_at: None,
            }
        },
        AdmitDecision::VerificationFailed { outcome } => {
            ProviderAddResult {
                id: None,
                name,
                api_key: request.api_key.clone(),
                balance: None,
                error: Some(verification_failed_message(&outcome)),
                created_at: None,
            }
        },
    }
}

/// The rejection message for a key the upstream could not verify.
pub fn verification_failed_message(outcome: &ProbeOutcome) -> (r: String)
    ensures
        match *outcome {
            ProbeOutcome::Unauthorized => r@
                == "API\u{5bc6}\u{94a5}\u{65e0}\u{6548}: HTTP 401 Unauthorized"@,
            _ => r@ == "API\u{5bc6}\u{94a5}\u{9a8c}\u{8bc1}\u{5931}\u{8d25}"@,
        },
{
    match outcome {
        ProbeOutcome::Unauthorized => {
            "API\u{5bc6}\u{94a5}\u{65e0}\u{6548}: HTTP 401 Unauthorized".to_owned()
        },
        _ => "API\u{5bc6}\u{94a5}\u{9a8c}\u{8bc1}\u{5931}\u{8d25}".to_owned(),
    }
}

} // verus!
