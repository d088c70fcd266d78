//! The chat-completion dispatcher's decision logic.
//!
//! A dispatched request cascades through the fixed strategy order —
//! round-robin, least connections, least tokens — acquiring a provider
//! and a permit from the pool; the upstream HTTP call itself happens
//! outside the crate and reports back an event.  This module holds the
//! request shaping, the cascade state machine, the per-attempt retry
//! rule, the scan that latches usage triples out of streamed chunks, and
//! the accounting decision at stream end.

use crate::ext;
use crate::pool::{spec_select, PoolEntry, ProviderInfo, ProviderPoolState, Strategy};
use crate::text::{contains_seq, contains_str, starts_with_seq, starts_with_str, strip_prefix_all,
    strip_suffix_all, trim_end_matches_str, trim_start_matches_str};
use crate::usage::ApiCallStatus;
use vstd::prelude::*;
use vstd::string::*;

verus! {

/// One chat message.
#[derive(Debug)]
pub struct Message {
    pub role: String,
    pub content: String,
    /// Refusal reason some upstreams attach to replies; never sent.
    pub refusal: Option<String>,
}

impl Clone for Message {
    /// A clone carries exactly the same values.
    fn clone(&self) -> (r: Self)
        ensures
            r == *self,
    {
        Message {
            role: self.role.clone(),
            content: self.content.clone(),
            refusal: match &self.refusal {
                Some(s) => Some(s.clone()),
                None => None,
            },
        }
    }
}

/// A client's chat-completion request.  The sampling temperature is held
/// in thousandths, so `700` stands for 0.7.
#[derive(Clone, Debug)]
pub struct ChatCompletionRequest {
    pub model: Option<String>,
    pub messages: Vec<Message>,
    pub max_tokens: Option<u32>,
    pub temperature_milli: Option<u32>,
    pub stream: Option<bool>,
}

/// The request sent upstream: the client's request with every default
/// filled in.
#[derive(Clone, Debug)]
pub struct ApiRequest {
    pub model: String,
    pub messages: Vec<Message>,
    pub max_tokens: Option<u32>,
    /// Sampling temperature in thousandths.
    pub temperature_milli: u32,
    pub stream: bool,
}

/// A usage triple reported by an upstream.
#[derive(Clone, Copy, Debug, PartialEq, Eq, Structural)]
pub struct Usage {
    pub prompt_tokens: u32,
    pub completion_tokens: u32,
    pub total_tokens: u32,
}

/// An error body returned to the client.
#[derive(Clone, Debug)]
pub struct ErrorResponse {
    pub error: String,
}

/// The model a request asks for; absent one, the fixed default.
pub fn effective_model_name(request: &ChatCompletionRequest) -> (r: String)
    ensures
        match request.model {
            Some(m) => r == m,
            None => r@ == "DeepSeek-V3"@,
        },
{
    match &request.model {
        Some(m) => m.clone(),
        None => "DeepSeek-V3".to_owned(),
    }
}

/// Shapes the upstream request: the resolved model, the messages with
/// refusals dropped, `max_tokens` defaulting to 1000, the temperature
/// defaulting to 0.7, and the stream flag as given.
pub fn build_api_request(request: &ChatCompletionRequest, model_name: &str, stream: bool) -> (r:
    ApiRequest)
    ensures
        r.model@ == model_name@,
        r.messages@.len() == request.messages@.len(),
        forall|i: int|
            0 <= i < r.messages@.len() ==> (#[trigger] r.messages@[i]).role
                == request.messages@[i].role && r.messages@[i].content
                == request.messages@[i].content && r.messages@[i].refusal is None,
        r.max_tokens == match request.max_tokens {
            Some(m) => Some(m),
            None => Some(1000u32),
        },
        r.temperature_milli == match request.temperature_milli {
            Some(t) => t,
            None => 700u32,
        },
        r.stream == stream,
{
    let mut messages: Vec<Message> = Vec::new();
    let n = request.messages.len();
    let mut i: usize = 0;
    while i < n
        invariant
            n == request.messages@.len(),
            messages@.len() == i,
            i <= n,
            forall|k: int|
                0 <= k < i ==> (#[trigger] messages@[k]).role == request.messages@[k].role
                    && messages@[k].content == request.messages@[k].content
                    && messages@[k].refusal is None,
        decreases n - i,
    {
        let m = &request.messages[i];
        messages.push(Message { role: m.role.clone(), content: m.content.clone(), refusal: None });
        i = i + 1;
    }
    let max_tokens = match request.max_tokens {
        Some(m) => Some(m),
        None => Some(1000),
    };
    let temperature_milli = match request.temperature_milli {
        Some(t) => t,
        None => 700,
    };
    ApiRequest {
        model: model_name.to_owned(),
        messages,
        max_tokens,
        temperature_milli,
        stream,
    }
}

/// The fixed strategy order of the cascade.
pub open spec fn strategy_at(stage: int) -> Strategy {
    if stage == 0 {
        Strategy::RoundRobin
    } else if stage == 1 {
        Strategy::LeastConnections
    } else {
        Strategy::LeastTokens
    }
}

/// The cascade of one dispatched request: which strategies are left.
#[derive(Debug)]
pub struct Cascade {
    stage: u8,
}

impl Cascade {
    /// How many strategies the cascade has consumed.
    pub closed spec fn stage(self) -> int {
        self.stage as int
    }

    /// A fresh cascade, with every strategy still to try.
    pub fn new() -> (r: Cascade)
        ensures
            r.stage() == 0,
    {
        Cascade { stage: 0 }
    }

    /// Hands out the next strategy of the fixed order, or `None` when all
    /// three are spent.
    pub fn next(&mut self) -> (r: Option<Strategy>)
        ensures
            old(self).stage() < 3 ==> r == Some(strategy_at(old(self).stage())) && final(
                self).stage() == old(self).stage() + 1,
            old(self).stage() >= 3 ==> r is None && final(self).stage() == old(self).stage(),
    {
        if self.stage == 0 {
            self.stage = 1;
            Some(Strategy::RoundRobin)
        } else if self.stage == 1 {
            self.stage = 2;
            Some(Strategy::LeastConnections)
        } else if self.stage == 2 {
            self.stage = 3;
            Some(Strategy::LeastTokens)
        } else {
            None
        }
    }
}

/// The state a cascade walk goes through: the pool's slots and cursor,
/// the stage reached, and the provider handed out, if any.
pub struct CascadeOutcome {
    pub entries: Seq<PoolEntry>,
    pub cursor: int,
    pub stage: int,
    pub picked: Option<(Strategy, ProviderInfo)>,
}

/// Walks the remaining strategies in order against the pool: each stage
/// selects under its strategy and, when selection and the permit both
/// succeed, hands that provider out; otherwise the walk moves on.  The
/// round-robin stage advances the cursor whenever it selects.
pub open spec fn spec_cascade(
    s: Seq<PoolEntry>,
    cursor: int,
    stage: int,
    model: Seq<char>,
) -> CascadeOutcome
    decreases 3 - stage,
{
    if stage < 0 || stage >= 3 {
        CascadeOutcome { entries: s, cursor, stage, picked: None }
    } else {
        let strat = strategy_at(stage);
        match spec_select(s, cursor, model, strat) {
            None => spec_cascade(s, cursor, stage + 1, model),
            Some(i) => {
                let cursor2 = if strat is RoundRobin {
                    (cursor + 1) % (s.len() as int)
                } else {
                    cursor
                };
                let e = s[i];
                if e.in_flight < e.info.max_connections {
                    CascadeOutcome {
                        entries: s.update(
                            i,
                            PoolEntry { in_flight: (e.in_flight + 1) as u32, ..e },
                        ),
                        cursor: cursor2,
                        stage: stage + 1,
                        picked: Some((strat, e.info)),
                    }
                } else {
                    spec_cascade(s, cursor2, stage + 1, model)
                }
            },
        }
    }
}

/// Runs the cascade until a provider with a permit is found or the
/// strategies run out.  At most one provider is handed out per call, and
/// the cascade never resumes a spent stage.
pub fn next_provider(
    pool: &mut ProviderPoolState,
    cascade: &mut Cascade,
    model_name: &str,
) -> (r: Option<(Strategy, ProviderInfo)>)
    requires
        old(pool).wf(),
        0 <= old(cascade).stage() <= 3,
    ensures
        final(pool).wf(),
        ({
            let o = spec_cascade(
                old(pool).entries_seq(),
                old(pool).cursor(),
                old(cascade).stage(),
                model_name@,
            );
            &&& final(pool).entries_seq() == o.entries
            &&& final(pool).cursor() == o.cursor
            &&& final(cascade).stage() == o.stage
            &&& r == o.picked
        }),
        old(cascade).stage() <= final(cascade).stage() <= 3,
        r is Some ==> final(cascade).stage() > old(cascade).stage(),
{
    loop
        invariant
            pool.wf(),
            0 <= cascade.stage() <= 3,
            old(cascade).stage() <= cascade.stage(),
            cascade.stage() > old(cascade).stage() || (pool.entries_seq() == old(
                pool,
            ).entries_seq() && pool.cursor() == old(pool).cursor()),
            spec_cascade(
                old(pool).entries_seq(),
                old(pool).cursor(),
                old(cascade).stage(),
                model_name@,
            ) == spec_cascade(pool.entries_seq(), pool.cursor(), cascade.stage(), model_name@),
        decreases 3 - cascade.stage(),
    {
        let strat = match cascade.next() {
            Some(st) => st,
            None => {
                return None;
            },
        };
        match pool.acquire(model_name, &strat) {
            Some(info) => {
                return Some((strat, info));
            },
            None => {
            },
        }
    }
}

/// Stages never run backwards and stop at three, so a dispatched request
/// makes at most three upstream attempts: over any run of stages from a
/// fresh cascade, the strict increases — one per handed-out provider —
/// number at most three.
pub proof fn lemma_cascade_attempts_bounded(stages: Seq<int>)
    requires
        stages.len() > 0,
        stages[0] == 0,
        forall|i: int| 0 <= i < stages.len() - 1 ==> #[trigger] stages[i] <= stages[i + 1],
        forall|i: int| 0 <= i < stages.len() ==> #[trigger] stages[i] <= 3,
    ensures
        count_increases(stages) <= 3,
{
    lemma_count_increases_bound(stages);
}

/// How many strict increases a run of stages contains.
pub open spec fn count_increases(stages: Seq<int>) -> int
    decreases stages.len(),
{
    if stages.len() <= 1 {
        0
    } else {
        count_increases(stages.drop_last()) + if stages[stages.len() - 2] < stages.last() {
            1int
        } else {
            0int
        }
    }
}

proof fn lemma_count_increases_bound(stages: Seq<int>)
    requires
        stages.len() > 0,
        forall|i: int| 0 <= i < stages.len() - 1 ==> #[trigger] stages[i] <= stages[i + 1],
    ensures
        count_increases(stages) <= stages.last() - stages[0],
    decreases stages.len(),
{
    if stages.len() > 1 {
        lemma_count_increases_bound(stages.drop_last());
        assert(forall|i: int|
            0 <= i < stages.drop_last().len() - 1 ==> #[trigger] stages.drop_last()[i]
                <= stages.drop_last()[i + 1]);
        assert(stages.drop_last()[0] == stages[0]);
        assert(stages.drop_last().last() == stages[stages.len() - 2]);
    }
}

/// What one upstream attempt reported back.
#[derive(Clone, Copy, Debug, PartialEq, Eq, Structural)]
pub enum AttemptEvent {
    /// A response arrived: whether its status was 2xx, and whether the
    /// body parsed as a chat completion.
    Response { status_2xx: bool, parse_ok: bool },
    /// The transport timed out before a response arrived.
    Timeout,
    /// The transport failed some other way.
    TransportError,
}

/// What the caller does next with an attempt.
#[derive(Clone, Copy, Debug, PartialEq, Eq, Structural)]
pub enum RetryAction {
    /// Hand the parsed response to the client.
    Deliver,
    /// Give up on this provider: the body did not parse.  Never retried.
    FailParse,
    /// Try the same provider again after the fixed one-second delay.
    RetryAfterDelay,
    /// Give up on this provider: non-success statuses are exhausted.
    FailStatus,
    /// Give up on this provider: the transport failed.
    FailTransport,
}

/// The retry rule for one attempt against one provider.
pub open spec fn spec_retry_decision(event: AttemptEvent, attempt: u32, retry_attempts: u32)
    -> RetryAction {
    match event {
        AttemptEvent::Response { status_2xx, parse_ok } => {
            if status_2xx {
                if parse_ok {
                    RetryAction::Deliver
                } else {
                    RetryAction::FailParse
                }
            } else {
                if attempt + 1 < retry_attempts {
                    RetryAction::RetryAfterDelay
                } else {
                    RetryAction::FailStatus
                }
            }
        },
        AttemptEvent::Timeout => {
            if attempt + 1 < retry_attempts {
                RetryAction::RetryAfterDelay
            } else {
                RetryAction::FailTransport
            }
        },
        AttemptEvent::TransportError => RetryAction::FailTransport,
    }
}

/// Decides what to do after one upstream attempt: deliver a parsed 2xx
/// response; never retry a parse failure; retry other statuses and
/// timeouts while attempts remain; give up on other transport failures.
pub fn retry_decision(event: &AttemptEvent, attempt: u32, retry_attempts: u32) -> (r: RetryAction)
    requires
        attempt < u32::MAX,
    ensures
        r == spec_retry_decision(*event, attempt, retry_attempts),
{
    match event {
        AttemptEvent::Response { status_2xx, parse_ok } => {
            if *status_2xx {
                if *parse_ok {
                    RetryAction::Deliver
                } else {
                    RetryAction::FailParse
                }
            } else {
                if attempt + 1 < retry_attempts {
                    RetryAction::RetryAfterDelay
                } else {
                    RetryAction::FailStatus
                }
            }
        },
        AttemptEvent::Timeout => {
            if attempt + 1 < retry_attempts {
                RetryAction::RetryAfterDelay
            } else {
                RetryAction::FailTransport
            }
        },
        AttemptEvent::TransportError => RetryAction::FailTransport,
    }
}

/// Latches a usage triple when the upstream reported all three numbers;
/// otherwise the previous latch stands.  Values beyond 32 bits wrap, as
/// the counters are 32-bit.
pub fn latch_usage(
    prompt: Option<u64>,
    completion: Option<u64>,
    total: Option<u64>,
    prev: Option<Usage>,
) -> (r: Option<Usage>)
    ensures
        match (prompt, completion, total) {
            (Some(p), Some(c), Some(t)) => r == Some(
                Usage {
                    prompt_tokens: p as u32,
                    completion_tokens: c as u32,
                    total_tokens: t as u32,
                },
            ),
            _ => r == prev,
        },
{
    match (prompt, completion, total) {
        (Some(p), Some(c), Some(t)) => Some(
            Usage {
                prompt_tokens: #[verifier::truncate] (p as u32),
                completion_tokens: #[verifier::truncate] (c as u32),
                total_tokens: #[verifier::truncate] (t as u32),
            },
        ),
        _ => prev,
    }
}

/// A streamed chunk with its SSE framing removed: every leading
/// `"data: "` and trailing blank line stripped when the chunk begins with
/// that prefix.
pub open spec fn unframed_chunk(chunk: Seq<char>) -> Seq<char> {
    if starts_with_seq(chunk, "data: "@) {
        strip_suffix_all(strip_prefix_all(chunk, "data: "@), "\n\n"@)
    } else {
        chunk
    }
}

/// The latch a scanned chunk leaves behind: a complete usage triple in
/// the unframed chunk replaces the latch, truncated to the 32-bit
/// counters; anything else keeps the previous latch.
pub open spec fn spec_scan_chunk(chunk: Seq<char>, prev: Option<Usage>) -> Option<Usage> {
    if !contains_seq(chunk, "\"usage\""@) {
        prev
    } else {
        match ext::stream_usage_of(unframed_chunk(chunk)) {
            Some(triple) => Some(
                Usage {
                    prompt_tokens: triple.0 as u32,
                    completion_tokens: triple.1 as u32,
                    total_tokens: triple.2 as u32,
                },
            ),
            None => prev,
        }
    }
}

/// Scans one streamed chunk for a usage report.  A chunk without the
/// usage marker never disturbs the latch; with the marker, the chunk is
/// unframed and a complete `usage` object in it replaces the latch, so
/// the latest reported triple wins.  The latch never returns to empty.
pub fn scan_chunk(chunk: &str, prev: Option<Usage>) -> (r: Option<Usage>)
    ensures
        r == spec_scan_chunk(chunk@, prev),
        r is None ==> prev is None,
{
    if !contains_str(chunk, "\"usage\"") {
        return prev;
    }
    let stripped = if starts_with_str(chunk, "data: ") {
        trim_end_matches_str(trim_start_matches_str(chunk, "data: "), "\n\n")
    } else {
        chunk
    };
    match ext::extract_stream_usage(stripped) {
        Some(triple) => latch_usage(Some(triple.0), Some(triple.1), Some(triple.2), prev),
        None => prev,
    }
}

/// The accounting decision at stream end: a latched triple is a success
/// with those numbers; otherwise any forwarded chunk makes a partial
/// success and an empty stream an error, both with zero tokens.
pub fn finalize_stream(latched: Option<Usage>, chunk_count: u64) -> (r: (ApiCallStatus, Usage))
    ensures
        match latched {
            Some(u) => r == (ApiCallStatus::Success, u),
            None => {
                if chunk_count > 0 {
                    r == (
                        ApiCallStatus::PartialSuccess,
                        Usage { prompt_tokens: 0u32, completion_tokens: 0u32, total_tokens: 0u32 },
                    )
                } else {
                    r == (
                        ApiCallStatus::Error,
                        Usage { prompt_tokens: 0u32, completion_tokens: 0u32, total_tokens: 0u32 },
                    )
                }
            },
        },
{
    match latched {
        Some(u) => (ApiCallStatus::Success, u),
        None => {
            if chunk_count > 0 {
                (
                    ApiCallStatus::PartialSuccess,
                    Usage { prompt_tokens: 0, completion_tokens: 0, total_tokens: 0 },
                )
            } else {
                (
                    ApiCallStatus::Error,
                    Usage { prompt_tokens: 0, completion_tokens: 0, total_tokens: 0 },
                )
            }
        },
    }
}

/// The parse of a non-streaming chat response body: its model name and
/// usage triple, the latter truncated to the 32-bit counters; `None`
/// when the body lacks either.
pub open spec fn spec_parse_chat_response(body: Seq<char>, r: Option<(String, Usage)>) -> bool {
    match ext::chat_fields_of(body) {
        Some(f) => r matches Some(parsed) && parsed.0@ == f.0 && parsed.1 == (Usage {
            prompt_tokens: f.1 as u32,
            completion_tokens: f.2 as u32,
            total_tokens: f.3 as u32,
        }),
        None => r is None,
    }
}

/// Reads the model name and usage triple out of a non-streaming chat
/// response body.  `None` when the body is not JSON or lacks the model
/// or any usage number: such a response is a parse failure, which the
/// dispatcher never retries.
pub fn parse_chat_response(body: &str) -> (r: Option<(String, Usage)>)
    ensures
        spec_parse_chat_response(body@, r),
{
    match ext::extract_chat_fields(body) {
        Some(fields) => {
            match latch_usage(Some(fields.1), Some(fields.2), Some(fields.3), None) {
                Some(u) => Some((fields.0, u)),
                None => None,
            }
        },
        None => None,
    }
}

} // verus!
