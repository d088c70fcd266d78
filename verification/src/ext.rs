//! The crate's trusted boundary: wrappers around the outside crates that
//! the verified code calls.  Each wrapper's contract states only what the
//! wrapped function's source or documentation shows.  The three JSON
//! extractions are deterministic functions of their input text, so each
//! gets a name (`stream_usage_of`, `chat_fields_of`, `balance_text_of`)
//! that the callers' own contracts are stated over.

use vstd::prelude::*;

verus! {

/// Relies on `chrono::Utc::now` and `chrono::DateTime::timestamp_millis`:
/// the current wall-clock time as milliseconds since the Unix epoch.
/// Nothing is promised of the value; callers treat any reading alike.
/// (`Utc::now` panics on a host clock before the epoch — an environmental
/// failure like exhausted memory, not reachable from any input.)
#[verifier::external_body]
pub(crate) fn now_millis() -> i64 {
    chrono::Utc::now().timestamp_millis()
}

/// Relies on `uuid::Uuid::new_v4` and its `Display` form: a fresh random
/// identifier rendered hyphenated, which is 36 characters long.  The value
/// itself is random, so nothing more is promised.
#[verifier::external_body]
pub(crate) fn generate_uuid() -> (r: String)
    ensures
        r@.len() == 36,
{
    uuid::Uuid::new_v4().to_string()
}

/// The usage triple a streamed chunk's JSON carries: the `prompt_tokens`,
/// `completion_tokens` and `total_tokens` members of its `usage` object,
/// when the text parses as JSON and all three are unsigned integers.
pub uninterp spec fn stream_usage_of(s: Seq<char>) -> Option<(u64, u64, u64)>;

/// Relies on `serde_json::from_str::<Value>`, `Value::get` and
/// `Value::as_u64`: reads the complete usage triple out of a JSON
/// document.  The result depends on the characters alone, so it is named
/// `stream_usage_of`.
#[verifier::external_body]
pub(crate) fn extract_stream_usage(s: &str) -> (r: Option<(u64, u64, u64)>)
    ensures
        r == stream_usage_of(s@),
{
    let v: serde_json::Value = serde_json::from_str(s).ok()?;
    let u = v.get("usage")?;
    let p = u.get("prompt_tokens")?.as_u64()?;
    let c = u.get("completion_tokens")?.as_u64()?;
    let t = u.get("total_tokens")?.as_u64()?;
    Some((p, c, t))
}

/// The fields a chat-completion response body carries: its `model` string
/// and the complete usage triple, when the text parses as JSON with those
/// members of those types.
pub uninterp spec fn chat_fields_of(s: Seq<char>) -> Option<(Seq<char>, u64, u64, u64)>;

/// Relies on `serde_json::from_str::<Value>`, `Value::get`, `Value::as_str`
/// and `Value::as_u64`: reads the model name and usage triple out of a
/// chat-completion response body.  The result depends on the characters
/// alone, so it is named `chat_fields_of`.
#[verifier::external_body]
pub(crate) fn extract_chat_fields(s: &str) -> (r: Option<(String, u64, u64, u64)>)
    ensures
        match r {
            Some(f) => chat_fields_of(s@) == Some((f.0@, f.1, f.2, f.3)),
            None => chat_fields_of(s@) is None,
        },
{
    let v: serde_json::Value = serde_json::from_str(s).ok()?;
    let model = v.get("model")?.as_str()?.to_string();
    let u = v.get("usage")?;
    let p = u.get("prompt_tokens")?.as_u64()?;
    let c = u.get("completion_tokens")?.as_u64()?;
    let t = u.get("total_tokens")?.as_u64()?;
    Some((model, p, c, t))
}

/// The credit string a user-info response body carries: its
/// `data.balance` member, when the text parses as JSON and that member is
/// a string.
pub uninterp spec fn balance_text_of(s: Seq<char>) -> Option<Seq<char>>;

/// Relies on `serde_json::from_str::<Value>`, `Value::get` and
/// `Value::as_str`: reads the `data.balance` string out of a user-info
/// response body.  The result depends on the characters alone, so it is
/// named `balance_text_of`.
#[verifier::external_body]
pub(crate) fn extract_balance_text(s: &str) -> (r: Option<String>)
    ensures
        match r {
            Some(t) => balance_text_of(s@) == Some(t@),
            None => balance_text_of(s@) is None,
        },
{
    let v: serde_json::Value = serde_json::from_str(s).ok()?;
    let t = v.get("data")?.get("balance")?.as_str()?;
    Some(t.to_string())
}

} // verus!
