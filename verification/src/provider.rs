//! Persisted provider records.
//!
//! A provider is one upstream credential.  Credit amounts are held in
//! ten-thousandths of a credit (see `fixed`); a `balance` of `None` records
//! a credential verified as invalid and awaiting eviction.  Timestamps are
//! milliseconds since the Unix epoch.

use vstd::prelude::*;
use vstd::string::*;

verus! {

/// Kind of upstream service behind a credential.
#[derive(Debug, PartialEq, Eq, Hash)]
pub enum ProviderType {
    OpenAI,
    Anthropic,
    DeepSeek,
    MistralAI,
    Custom(String),
}

/// Lifecycle state of a provider row.
#[derive(Clone, Copy, Debug, PartialEq, Eq, Structural)]
pub enum ProviderStatus {
    Active,
    Inactive,
    Limited,
    Maintenance,
}

impl Clone for ProviderType {
    /// A clone carries exactly the same value.
    fn clone(&self) -> (r: Self)
        ensures
            r == *self,
    {
        match self {
            ProviderType::OpenAI => ProviderType::OpenAI,
            ProviderType::Anthropic => ProviderType::Anthropic,
            ProviderType::DeepSeek => ProviderType::DeepSeek,
            ProviderType::MistralAI => ProviderType::MistralAI,
            ProviderType::Custom(s) => ProviderType::Custom(s.clone()),
        }
    }
}

/// Display name for a provider type.
pub open spec fn standard_provider_name(t: ProviderType) -> Seq<char> {
    match t {
        ProviderType::OpenAI => "OpenAI"@,
        ProviderType::Anthropic => "Anthropic"@,
        ProviderType::DeepSeek => "DeepSeek"@,
        ProviderType::MistralAI => "MistralAI"@,
        ProviderType::Custom(s) => s@,
    }
}

/// A persisted upstream credential with its model binding and credit state.
#[derive(Debug)]
pub struct ApiProvider {
    pub id: String,
    pub name: String,
    pub provider_type: ProviderType,
    pub is_official: bool,
    pub base_url: String,
    pub api_key: String,
    pub status: ProviderStatus,
    pub rate_limit: u32,
    /// Credit in ten-thousandths; `None` marks an invalid credential.
    pub balance: Option<u64>,
    pub last_balance_check: Option<i64>,
    /// Ten-thousandths of a credit under which the key is unavailable.
    pub min_balance_threshold: u64,
    pub support_balance_check: bool,
    pub model_name: String,
    pub model_type: String,
    pub model_version: String,
    pub created_at: i64,
    pub updated_at: i64,
}

impl Clone for ApiProvider {
    /// A clone carries exactly the same values.
    fn clone(&self) -> (r: Self)
        ensures
            r == *self,
    {
        ApiProvider {
            id: self.id.clone(),
            name: self.name.clone(),
            provider_type: self.provider_type.clone(),
            is_official: self.is_official,
            base_url: self.base_url.clone(),
            api_key: self.api_key.clone(),
            status: self.status,
            rate_limit: self.rate_limit,
            balance: self.balance,
            last_balance_check: self.last_balance_check,
            min_balance_threshold: self.min_balance_threshold,
            support_balance_check: self.support_balance_check,
            model_name: self.model_name.clone(),
            model_type: self.model_type.clone(),
            model_version: self.model_version.clone(),
            created_at: self.created_at,
            updated_at: self.updated_at,
        }
    }
}

/// The key has credit to spend: balance checking is off for it, or its
/// balance is known and at least its threshold.
pub open spec fn sufficient_balance(p: ApiProvider) -> bool {
    if p.support_balance_check {
        p.balance matches Some(b) && b >= p.min_balance_threshold
    } else {
        true
    }
}

/// The row may be handed out by the pool: active with credit to spend.
pub open spec fn row_available(p: ApiProvider) -> bool {
    p.status == ProviderStatus::Active && sufficient_balance(p)
}

impl ApiProvider {
    /// Standardised display name of a provider type.
    pub fn get_standard_provider_name(provider_type: &ProviderType) -> (r: String)
        ensures
            r@ == standard_provider_name(*provider_type),
    {
        match provider_type {
            ProviderType::OpenAI => "OpenAI".to_owned(),
            ProviderType::Anthropic => "Anthropic".to_owned(),
            ProviderType::DeepSeek => "DeepSeek".to_owned(),
            ProviderType::MistralAI => "MistralAI".to_owned(),
            ProviderType::Custom(s) => s.clone(),
        }
    }

    /// Whether the row is in the `Active` state.
    pub fn is_active(&self) -> (r: bool)
        ensures
            r == (self.status == ProviderStatus::Active),
    {
        self.status == ProviderStatus::Active
    }

    /// Whether the key has credit to spend.
    pub fn has_sufficient_balance(&self) -> (r: bool)
        ensures
            r == sufficient_balance(*self),
    {
        if !self.support_balance_check {
            return true;
        }
        match self.balance {
            Some(b) => b >= self.min_balance_threshold,
            None => false,
        }
    }

    /// Records a balance reading taken at `now`.
    pub fn update_balance(&mut self, balance: Option<u64>, now: i64)
        ensures
            *final(self) == (ApiProvider {
                balance,
                last_balance_check: Some(now),
                updated_at: now,
                ..*old(self)
            }),
    {
        self.balance = balance;
        self.last_balance_check = Some(now);
        self.updated_at = now;
    }

    /// Moves the row to `status` at `now`.
    pub fn update_status(&mut self, status: ProviderStatus, now: i64)
        ensures
            *final(self) == (ApiProvider { status, updated_at: now, ..*old(self) }),
    {
        self.status = status;
        self.updated_at = now;
    }
}

} // verus!
