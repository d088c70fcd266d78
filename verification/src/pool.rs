//! The in-memory provider pool.
//!
//! The pool holds the providers loaded from the store, a round-robin
//! cursor, per-key usage tallies, and per-key counts of in-flight requests
//! standing in for the concurrency permits.  Selection, permit handling and
//! tallying are all here; callers guard the whole structure with one lock
//! and clone the chosen provider before going to the network.

use crate::text::str_eq;
use vstd::prelude::*;
use vstd::string::*;

verus! {

/// Strategy tags understood by `select_provider`; any tag outside the
/// three named strategies behaves as `FirstAvailable`.
#[derive(Clone, Copy, Debug, PartialEq, Eq, Structural)]
pub enum Strategy {
    RoundRobin,
    LeastConnections,
    LeastTokens,
    FirstAvailable,
}

/// Per-key running tally of use since the pool was last built.
#[derive(Clone, Copy, Debug, PartialEq, Eq, Structural)]
pub struct TokenUsage {
    /// When the key was last charged, milliseconds since the Unix epoch.
    pub last_used: Option<i64>,
    pub total_tokens: u64,
    pub request_count: u64,
}

/// A pooled provider: connection settings, credit state and model binding.
#[derive(Debug)]
pub struct ProviderInfo {
    pub base_url: String,
    pub api_key: String,
    /// The row's rate limit: the cap on concurrent in-flight requests.
    pub max_connections: u32,
    pub min_connections: u32,
    pub acquire_timeout_ms: u32,
    pub idle_timeout_ms: u32,
    pub load_balance_strategy: String,
    pub retry_attempts: u32,
    /// Credit in ten-thousandths; `None` marks an invalid credential.
    pub balance: Option<u64>,
    pub last_balance_check: Option<i64>,
    pub min_balance_threshold: u64,
    pub support_balance_check: bool,
    pub model_name: String,
    pub model_type: String,
    pub model_version: String,
}

impl Clone for ProviderInfo {
    /// A clone carries exactly the same values.
    fn clone(&self) -> (r: Self)
        ensures
            r == *self,
    {
        ProviderInfo {
            base_url: self.base_url.clone(),
            api_key: self.api_key.clone(),
            max_connections: self.max_connections,
            min_connections: self.min_connections,
            acquire_timeout_ms: self.acquire_timeout_ms,
            idle_timeout_ms: self.idle_timeout_ms,
            load_balance_strategy: self.load_balance_strategy.clone(),
            retry_attempts: self.retry_attempts,
            balance: self.balance,
            last_balance_check: self.last_balance_check,
            min_balance_threshold: self.min_balance_threshold,
            support_balance_check: self.support_balance_check,
            model_name: self.model_name.clone(),
            model_type: self.model_type.clone(),
            model_version: self.model_version.clone(),
        }
    }
}

/// The key has credit to spend: balance checking is off for it, or its
/// balance is known and at least its threshold.
pub open spec fn available_info(p: ProviderInfo) -> bool {
    if p.support_balance_check {
        p.balance matches Some(b) && b >= p.min_balance_threshold
    } else {
        true
    }
}

/// One pool slot: the provider, its tally, and its in-flight count.
#[derive(Clone, Debug)]
pub struct PoolEntry {
    pub info: ProviderInfo,
    pub usage: TokenUsage,
    pub in_flight: u32,
}

/// The entry can serve `model`: it has credit and is bound to that model.
pub open spec fn is_candidate(e: PoolEntry, model: Seq<char>) -> bool {
    available_info(e.info) && e.info.model_name@ == model
}

/// Indices of the entries of `s` that can serve `model`, in pool order.
pub open spec fn cand_indices(s: Seq<PoolEntry>, model: Seq<char>) -> Seq<int>
    decreases s.len(),
{
    if s.len() == 0 {
        Seq::empty()
    } else {
        let prefix = cand_indices(s.drop_last(), model);
        if is_candidate(s.last(), model) {
            prefix.push(s.len() - 1)
        } else {
            prefix
        }
    }
}

/// Every index listed is a candidate, the list ascends, and every
/// candidate is listed.
pub proof fn lemma_cand_indices_props(s: Seq<PoolEntry>, model: Seq<char>)
    ensures
        forall|j: int|
            0 <= j < cand_indices(s, model).len() ==> 0 <= #[trigger] cand_indices(s, model)[j]
                < s.len() && is_candidate(s[cand_indices(s, model)[j]], model),
        forall|j: int, k: int|
            0 <= j < k < cand_indices(s, model).len() ==> cand_indices(s, model)[j]
                < cand_indices(s, model)[k],
        forall|i: int|
            0 <= i < s.len() && is_candidate(s[i], model) ==> exists|j: int|
                0 <= j < cand_indices(s, model).len() && #[trigger] cand_indices(s, model)[j] == i,
    decreases s.len(),
{
    if s.len() > 0 {
        lemma_cand_indices_props(s.drop_last(), model);
        let pre = cand_indices(s.drop_last(), model);
        let cs = cand_indices(s, model);
        assert(forall|j: int| 0 <= j < pre.len() ==> pre[j] == cs[j]);
        assert forall|i: int| 0 <= i < s.len() && is_candidate(s[i], model) implies exists|j: int|
            0 <= j < cs.len() && #[trigger] cs[j] == i by {
            if i == s.len() - 1 {
                assert(cs[cs.len() - 1] == i);
            } else {
                assert(s.drop_last()[i] == s[i]);
                let j = choose|j: int| 0 <= j < pre.len() && #[trigger] pre[j] == i;
                assert(cs[j] == i);
            }
        }
    }
}

/// The tally a least-strategy compares: request counts for
/// `LeastConnections`, token totals for `LeastTokens`.
pub open spec fn tally_key(e: PoolEntry, strat: Strategy) -> int {
    match strat {
        Strategy::LeastConnections => e.usage.request_count as int,
        _ => e.usage.total_tokens as int,
    }
}

/// The candidate with the least tally, earliest pool position on ties.
pub open spec fn first_min(s: Seq<PoolEntry>, cs: Seq<int>, strat: Strategy) -> int
    decreases cs.len(),
{
    if cs.len() <= 1 {
        cs[0]
    } else {
        let p = first_min(s, cs.drop_last(), strat);
        if tally_key(s[cs.last()], strat) < tally_key(s[p], strat) {
            cs.last()
        } else {
            p
        }
    }
}

/// The provider `select_provider` picks, as an index into the pool.
pub open spec fn spec_select(
    s: Seq<PoolEntry>,
    cursor: int,
    model: Seq<char>,
    strat: Strategy,
) -> Option<int> {
    let cs = cand_indices(s, model);
    if cs.len() == 0 {
        None
    } else {
        match strat {
            Strategy::RoundRobin => Some(cs[cursor % (cs.len() as int)]),
            Strategy::LeastConnections => Some(first_min(s, cs, strat)),
            Strategy::LeastTokens => Some(first_min(s, cs, strat)),
            Strategy::FirstAvailable => Some(cs[0]),
        }
    }
}

/// The first pool position holding `key`, if any.
pub open spec fn key_index_from(s: Seq<PoolEntry>, key: Seq<char>, i: int) -> Option<int>
    decreases s.len() - i,
{
    if i < 0 || i >= s.len() {
        None
    } else if s[i].info.api_key@ == key {
        Some(i)
    } else {
        key_index_from(s, key, i + 1)
    }
}

/// The pool position holding `key`, if any.
pub open spec fn key_index(s: Seq<PoolEntry>, key: Seq<char>) -> Option<int> {
    key_index_from(s, key, 0)
}

/// Saturating conversion of a non-negative count into a `u64`.
pub open spec fn sat_u64(x: int) -> u64 {
    if x > u64::MAX {
        u64::MAX
    } else {
        x as u64
    }
}

/// The pool after `UpdateUsage(key, tokens)` at time `now`: the key's
/// totals grow saturating, its request count steps, and its last-used
/// stamp is refreshed; an unknown key changes nothing.
pub open spec fn spec_update_usage(
    s: Seq<PoolEntry>,
    key: Seq<char>,
    tokens: int,
    now: int,
) -> Seq<PoolEntry> {
    match key_index(s, key) {
        None => s,
        Some(i) => s.update(
            i,
            PoolEntry {
                usage: TokenUsage {
                    last_used: Some(now as i64),
                    total_tokens: sat_u64(s[i].usage.total_tokens + tokens),
                    request_count: sat_u64(s[i].usage.request_count + 1),
                },
                ..s[i]
            },
        ),
    }
}

/// The in-memory pool state guarded by the caller's lock.
#[derive(Debug)]
pub struct ProviderPoolState {
    entries: Vec<PoolEntry>,
    current_index: usize,
}

impl ProviderPoolState {
    /// The pool's slots.
    pub closed spec fn entries_seq(self) -> Seq<PoolEntry> {
        self.entries@
    }

    /// The round-robin cursor.
    pub closed spec fn cursor(self) -> int {
        self.current_index as int
    }

    /// No key ever holds more in-flight requests than its rate limit.
    pub open spec fn permits_ok(self) -> bool {
        forall|i: int|
            0 <= i < self.entries_seq().len() ==> (#[trigger] self.entries_seq()[i]).in_flight
                <= self.entries_seq()[i].info.max_connections
    }

    /// Each key occupies at most one slot.
    pub open spec fn keys_unique(self) -> bool {
        forall|i: int, j: int|
            0 <= i < j < self.entries_seq().len() ==> (#[trigger] self.entries_seq()[i]).info.api_key@
                != (#[trigger] self.entries_seq()[j]).info.api_key@
    }

    /// Pool well-formedness.
    pub open spec fn wf(self) -> bool {
        self.permits_ok() && self.keys_unique()
    }

    /// Builds a pool over `providers`: cursor at zero, tallies empty,
    /// nothing in flight.
    pub fn new(providers: Vec<ProviderInfo>) -> (r: ProviderPoolState)
        ensures
            r.cursor() == 0,
            r.entries_seq().len() == providers@.len(),
            forall|i: int|
                0 <= i < providers@.len() ==> (#[trigger] r.entries_seq()[i]) == (PoolEntry {
                    info: providers@[i],
                    usage: TokenUsage { last_used: None, total_tokens: 0, request_count: 0 },
                    in_flight: 0,
                }),
            r.permits_ok(),
    {
        let mut entries: Vec<PoolEntry> = Vec::new();
        let n = providers.len();
        let mut i: usize = 0;
        while i < n
            invariant
                n == providers@.len(),
                entries@.len() == i,
                i <= n,
                forall|k: int|
                    0 <= k < i ==> (#[trigger] entries@[k]) == (PoolEntry {
                        info: providers@[k],
                        usage: TokenUsage { last_used: None, total_tokens: 0, request_count: 0 },
                        in_flight: 0,
                    }),
            decreases n - i,
        {
            let info = providers[i].clone();
            entries.push(
                PoolEntry {
                    info,
                    usage: TokenUsage { last_used: None, total_tokens: 0, request_count: 0 },
                    in_flight: 0,
                },
            );
            i = i + 1;
        }
        ProviderPoolState { entries, current_index: 0 }
    }

    /// How many providers the pool holds.
    pub fn provider_count(&self) -> (r: usize)
        ensures
            r == self.entries_seq().len(),
    {
        self.entries.len()
    }

    /// The provider in slot `i`.
    pub fn provider_at(&self, i: usize) -> (r: ProviderInfo)
        requires
            i < self.entries_seq().len(),
        ensures
            r == self.entries_seq()[i as int].info,
    {
        self.entries[i].info.clone()
    }

    /// The tally of slot `i`.
    pub fn usage_at(&self, i: usize) -> (r: TokenUsage)
        requires
            i < self.entries_seq().len(),
        ensures
            r == self.entries_seq()[i as int].usage,
    {
        self.entries[i].usage
    }

    /// The in-flight count of slot `i`.
    pub fn in_flight_at(&self, i: usize) -> (r: u32)
        requires
            i < self.entries_seq().len(),
        ensures
            r == self.entries_seq()[i as int].in_flight,
    {
        self.entries[i].in_flight
    }

    /// Clones of all pooled providers, in pool order.
    pub fn get_providers(&self) -> (r: Vec<ProviderInfo>)
        ensures
            r@.len() == self.entries_seq().len(),
            forall|i: int| 0 <= i < r@.len() ==> r@[i] == self.entries_seq()[i].info,
    {
        let mut out: Vec<ProviderInfo> = Vec::new();
        let n = self.entries.len();
        let mut i: usize = 0;
        while i < n
            invariant
                n == self.entries@.len(),
                out@.len() == i,
                i <= n,
                forall|k: int| 0 <= k < i ==> out@[k] == self.entries@[k].info,
            decreases n - i,
        {
            out.push(self.entries[i].info.clone());
            i = i + 1;
        }
        out
    }

    /// Whether `provider` has credit to spend.
    pub fn is_provider_available(&self, provider: &ProviderInfo) -> (r: bool)
        ensures
            r == available_info(*provider),
    {
        if !provider.support_balance_check {
            return true;
        }
        match provider.balance {
            Some(b) => b >= provider.min_balance_threshold,
            None => false,
        }
    }

    /// Picks a provider for `model_name` under `strategy`, without moving
    /// the cursor.  `None` exactly when no pooled provider with credit is
    /// bound to that model.
    pub fn select_provider(&self, model_name: &str, strategy: &Strategy) -> (r: Option<usize>)
        ensures
            match r {
                Some(i) => spec_select(
                    self.entries_seq(),
                    self.cursor(),
                    model_name@,
                    *strategy,
                ) == Some(i as int) && i < self.entries_seq().len(),
                None => spec_select(self.entries_seq(), self.cursor(), model_name@, *strategy)
                    is None,
            },
    {
        let ghost s = self.entries@;
        let ghost model = model_name@;
        let n = self.entries.len();
        let mut cands: Vec<usize> = Vec::new();
        let mut i: usize = 0;
        while i < n
            invariant
                n == s.len(),
                s == self.entries@,
                model == model_name@,
                i <= n,
                cands@.len() == cand_indices(s.take(i as int), model).len(),
                forall|j: int|
                    0 <= j < cands@.len() ==> cands@[j] as int == cand_indices(
                        s.take(i as int),
                        model,
                    )[j] && cands@[j] < i,
            decreases n - i,
        {
            let e = &self.entries[i];
            let ok = self.is_provider_available(&e.info) && str_eq(
                e.info.model_name.as_str(),
                model_name,
            );
            proof {
                assert(s.take(i as int + 1).drop_last() =~= s.take(i as int));
                assert(s.take(i as int + 1).last() == s[i as int]);
            }
            if ok {
                cands.push(i);
            }
            i = i + 1;
        }
        proof {
            assert(s.take(n as int) =~= s);
        }
        let ghost cs = cand_indices(s, model);
        if cands.len() == 0 {
            return None;
        }
        match strategy {
            Strategy::RoundRobin => {
                let idx = self.current_index % cands.len();
                let pick = cands[idx];
                proof {
                    assert(cs[self.cursor() % (cs.len() as int)] == pick as int);
                }
                Some(pick)
            },
            Strategy::FirstAvailable => Some(cands[0]),
            _ => {
                let strat = *strategy;
                let mut best = cands[0];
                let mut j: usize = 1;
                proof {
                    assert(cs.take(1).drop_last() =~= Seq::<int>::empty());
                    assert(best as int == first_min(s, cs.take(1), strat));
                }
                while j < cands.len()
                    invariant
                        s == self.entries@,
                        model == model_name@,
                        cs == cand_indices(s, model),
                        strat == *strategy,
                        !(strat is RoundRobin),
                        !(strat is FirstAvailable),
                        cands@.len() <= cs.len(),
                        cands@.len() == cs.len(),
                        1 <= j <= cands@.len(),
                        forall|k: int| 0 <= k < cands@.len() ==> cands@[k] as int == cs[k],
                        forall|k: int| 0 <= k < cands@.len() ==> cands@[k] < s.len(),
                        best as int == first_min(s, cs.take(j as int), strat),
                        best < s.len(),
                    decreases cands@.len() - j,
                {
                    let c = cands[j];
                    let better = match strat {
                        Strategy::LeastConnections => self.entries[c].usage.request_count
                            < self.entries[best].usage.request_count,
                        _ => self.entries[c].usage.total_tokens
                            < self.entries[best].usage.total_tokens,
                    };
                    proof {
                        assert(cs.take(j as int + 1).drop_last() =~= cs.take(j as int));
                        assert(cs.take(j as int + 1).last() == cs[j as int]);
                    }
                    if better {
                        best = c;
                    }
                    j = j + 1;
                }
                proof {
                    assert(cs.take(cs.len() as int) =~= cs);
                }
                Some(best)
            },
        }
    }

    /// Advances the round-robin cursor by one over the whole pool.
    pub fn update_index(&mut self)
        requires
            old(self).entries_seq().len() > 0,
        ensures
            final(self).entries_seq() == old(self).entries_seq(),
            final(self).cursor() == (old(self).cursor() + 1) % (old(self).entries_seq().len()
                as int),
    {
        let n = self.entries.len();
        let c = self.current_index % n;
        proof {
            vstd::arithmetic::div_mod::lemma_add_mod_noop(
                old(self).cursor(),
                1int,
                n as int,
            );
            if n > 1 {
                vstd::arithmetic::div_mod::lemma_small_mod(1nat, n as nat);
            }
            if c + 1 == n {
                vstd::arithmetic::div_mod::lemma_mod_self_0(n as int);
            } else {
                vstd::arithmetic::div_mod::lemma_small_mod((c + 1) as nat, n as nat);
            }
        }
        if c + 1 == n {
            self.current_index = 0;
        } else {
            self.current_index = c + 1;
        }
    }

    /// Tries to take one concurrency permit for `key`: succeeds exactly
    /// when the key is pooled and under its rate limit.
    pub fn try_acquire_permit(&mut self, api_key: &str) -> (r: bool)
        requires
            old(self).permits_ok(),
        ensures
            final(self).permits_ok(),
            final(self).cursor() == old(self).cursor(),
            old(self).keys_unique() ==> final(self).keys_unique(),
            match key_index(old(self).entries_seq(), api_key@) {
                None => r == false && final(self).entries_seq() == old(self).entries_seq(),
                Some(i) => {
                    let e = old(self).entries_seq()[i];
                    if e.in_flight < e.info.max_connections {
                        r == true && final(self).entries_seq() == old(self).entries_seq().update(
                            i,
                            PoolEntry { in_flight: (e.in_flight + 1) as u32, ..e },
                        )
                    } else {
                        r == false && final(self).entries_seq() == old(self).entries_seq()
                    }
                },
            },
    {
        let ghost s = old(self).entries@;
        let n = self.entries.len();
        let mut i: usize = 0;
        while i < n
            invariant
                n == s.len(),
                self.entries@ == s,
                self.current_index == old(self).current_index,
                old(self).permits_ok(),
                old(self).entries@ == s,
                i <= n,
                key_index_from(s, api_key@, 0) == key_index_from(s, api_key@, i as int),
                forall|k: int| 0 <= k < i ==> s[k].info.api_key@ != api_key@,
            decreases n - i,
        {
            if str_eq(self.entries[i].info.api_key.as_str(), api_key) {
                if self.entries[i].in_flight < self.entries[i].info.max_connections {
                    let nf = self.entries[i].in_flight + 1;
                    self.entries[i].in_flight = nf;
                    proof {
                        let t = self.entries@;
                        assert(t == s.update(
                            i as int,
                            PoolEntry { in_flight: nf, ..s[i as int] },
                        ));
                        assert forall|k: int|
                            0 <= k < t.len() implies (#[trigger] t[k]).in_flight
                            <= t[k].info.max_connections by {
                            if k != i {
                                assert(t[k] == s[k]);
                            }
                        }
                        if old(self).keys_unique() {
                            assert forall|a: int, b: int|
                                0 <= a < b < t.len() implies (#[trigger] t[a]).info.api_key@ != (
                            #[trigger] t[b]).info.api_key@ by {
                                assert(t[a].info == s[a].info);
                                assert(t[b].info == s[b].info);
                            }
                        }
                    }
                    return true;
                }
                return false;
            }
            i = i + 1;
        }
        false
    }

    /// Returns one concurrency permit for `key`; a key that is gone or
    /// idle is left alone.
    pub fn release_permit(&mut self, api_key: &str)
        requires
            old(self).permits_ok(),
        ensures
            final(self).permits_ok(),
            final(self).cursor() == old(self).cursor(),
            old(self).keys_unique() ==> final(self).keys_unique(),
            match key_index(old(self).entries_seq(), api_key@) {
                None => final(self).entries_seq() == old(self).entries_seq(),
                Some(i) => {
                    let e = old(self).entries_seq()[i];
                    if e.in_flight > 0 {
                        final(self).entries_seq() == old(self).entries_seq().update(
                            i,
                            PoolEntry { in_flight: (e.in_flight - 1) as u32, ..e },
                        )
                    } else {
                        final(self).entries_seq() == old(self).entries_seq()
                    }
                },
            },
    {
        let ghost s = old(self).entries@;
        let n = self.entries.len();
        let mut i: usize = 0;
        while i < n
            invariant
                n == s.len(),
                self.entries@ == s,
                self.current_index == old(self).current_index,
                old(self).permits_ok(),
                old(self).entries@ == s,
                i <= n,
                key_index_from(s, api_key@, 0) == key_index_from(s, api_key@, i as int),
                forall|k: int| 0 <= k < i ==> s[k].info.api_key@ != api_key@,
            decreases n - i,
        {
            if str_eq(self.entries[i].info.api_key.as_str(), api_key) {
                if self.entries[i].in_flight > 0 {
                    let nf = self.entries[i].in_flight - 1;
                    self.entries[i].in_flight = nf;
                    proof {
                        let t = self.entries@;
                        assert forall|k: int|
                            0 <= k < t.len() implies (#[trigger] t[k]).in_flight
                            <= t[k].info.max_connections by {
                            if k != i {
                                assert(t[k] == s[k]);
                            }
                        }
                        if old(self).keys_unique() {
                            assert forall|a: int, b: int|
                                0 <= a < b < t.len() implies (#[trigger] t[a]).info.api_key@ != (
                            #[trigger] t[b]).info.api_key@ by {
                                assert(t[a].info == s[a].info);
                                assert(t[b].info == s[b].info);
                            }
                        }
                    }
                }
                return ;
            }
            i = i + 1;
        }
    }

    /// Charges `tokens` to `key` at time `now`: totals grow saturating,
    /// the request count steps, and the last-used stamp is refreshed.
    pub fn update_usage(&mut self, api_key: &str, tokens: u64, now: i64)
        ensures
            final(self).cursor() == old(self).cursor(),
            final(self).entries_seq() == spec_update_usage(
                old(self).entries_seq(),
                api_key@,
                tokens as int,
                now as int,
            ),
            old(self).permits_ok() ==> final(self).permits_ok(),
            old(self).keys_unique() ==> final(self).keys_unique(),
    {
        let ghost s = old(self).entries@;
        let n = self.entries.len();
        let mut i: usize = 0;
        while i < n
            invariant
                n == s.len(),
                self.entries@ == s,
                self.current_index == old(self).current_index,
                old(self).entries@ == s,
                i <= n,
                key_index_from(s, api_key@, 0) == key_index_from(s, api_key@, i as int),
                forall|k: int| 0 <= k < i ==> s[k].info.api_key@ != api_key@,
            decreases n - i,
        {
            if str_eq(self.entries[i].info.api_key.as_str(), api_key) {
                let total = self.entries[i].usage.total_tokens.saturating_add(tokens);
                let count = self.entries[i].usage.request_count.saturating_add(1);
                self.entries[i].usage = TokenUsage {
                    last_used: Some(now),
                    total_tokens: total,
                    request_count: count,
                };
                proof {
                    let t = self.entries@;
                    assert(t == spec_update_usage(s, api_key@, tokens as int, now as int));
                    if old(self).permits_ok() {
                        assert forall|k: int|
                            0 <= k < t.len() implies (#[trigger] t[k]).in_flight
                            <= t[k].info.max_connections by {
                            if k != i {
                                assert(t[k] == s[k]);
                            } else {
                                assert(t[k].in_flight == s[k].in_flight);
                                assert(t[k].info == s[k].info);
                            }
                        }
                    }
                    if old(self).keys_unique() {
                        assert forall|a: int, b: int|
                            0 <= a < b < t.len() implies (#[trigger] t[a]).info.api_key@ != (
                        #[trigger] t[b]).info.api_key@ by {
                            assert(t[a].info == s[a].info);
                            assert(t[b].info == s[b].info);
                        }
                    }
                }
                return ;
            }
            i = i + 1;
        }
    }

    /// Selects a provider for `model_name` under `strategy`, advances the
    /// round-robin cursor when that strategy was used, and takes one
    /// concurrency permit for the chosen key.  `None` when no provider was
    /// selected or the chosen key is at its rate limit; in the latter case
    /// the cursor has still advanced, as selection did happen.
    pub fn acquire(&mut self, model_name: &str, strategy: &Strategy) -> (r: Option<ProviderInfo>)
        requires
            old(self).wf(),
        ensures
            final(self).wf(),
            match spec_select(
                old(self).entries_seq(),
                old(self).cursor(),
                model_name@,
                *strategy,
            ) {
                None => r is None && final(self).entries_seq() == old(self).entries_seq()
                    && final(self).cursor() == old(self).cursor(),
                Some(i) => {
                    let e = old(self).entries_seq()[i];
                    &&& final(self).cursor() == if *strategy is RoundRobin {
                        (old(self).cursor() + 1) % (old(self).entries_seq().len() as int)
                    } else {
                        old(self).cursor()
                    }
                    &&& if e.in_flight < e.info.max_connections {
                        r == Some(e.info) && final(self).entries_seq() == old(
                            self).entries_seq().update(
                            i,
                            PoolEntry { in_flight: (e.in_flight + 1) as u32, ..e },
                        )
                    } else {
                        r is None && final(self).entries_seq() == old(self).entries_seq()
                    }
                },
            },
    {
        let sel = self.select_provider(model_name, strategy);
        match sel {
            None => None,
            Some(i) => {
                let info = self.entries[i].info.clone();
                if strategy == &Strategy::RoundRobin {
                    self.update_index();
                }
                proof {
                    lemma_key_index_unique(self.entries@, info.api_key@, i as int);
                }
                if self.try_acquire_permit(info.api_key.as_str()) {
                    Some(info)
                } else {
                    None
                }
            },
        }
    }

    /// Removes the provider holding `key` together with its tally and
    /// permits.  Removing an unknown key changes nothing, so removing
    /// twice equals removing once.
    pub fn remove_provider(&mut self, api_key: &str)
        requires
            old(self).keys_unique(),
        ensures
            final(self).keys_unique(),
            old(self).permits_ok() ==> final(self).permits_ok(),
            match key_index(old(self).entries_seq(), api_key@) {
                None => final(self).entries_seq() == old(self).entries_seq(),
                Some(i) => final(self).entries_seq() == old(self).entries_seq().remove(i),
            },
            key_index(final(self).entries_seq(), api_key@) is None,
    {
        let ghost s = old(self).entries@;
        let n = self.entries.len();
        let mut i: usize = 0;
        while i < n
            invariant
                n == s.len(),
                self.entries@ == s,
                self.current_index == old(self).current_index,
                old(self).entries@ == s,
                old(self).keys_unique(),
                i <= n,
                key_index_from(s, api_key@, 0) == key_index_from(s, api_key@, i as int),
                forall|k: int| 0 <= k < i ==> s[k].info.api_key@ != api_key@,
            decreases n - i,
        {
            if str_eq(self.entries[i].info.api_key.as_str(), api_key) {
                self.entries.remove(i);
                proof {
                    lemma_key_index_after_remove(s, api_key@, i as int);
                }
                return ;
            }
            i = i + 1;
        }
        proof {
            lemma_key_index_none(self.entries@, api_key@, 0);
        }
    }
}

proof fn lemma_key_index_none(s: Seq<PoolEntry>, key: Seq<char>, k: int)
    requires
        0 <= k,
        forall|j: int| k <= j < s.len() ==> s[j].info.api_key@ != key,
    ensures
        key_index_from(s, key, k) is None,
    decreases s.len() - k,
{
    if k < s.len() {
        lemma_key_index_none(s, key, k + 1);
    }
}

proof fn lemma_key_index_after_remove(s: Seq<PoolEntry>, key: Seq<char>, i: int)
    requires
        0 <= i < s.len(),
        forall|j: int, k: int|
            0 <= j < k < s.len() ==> (#[trigger] s[j]).info.api_key@ != (#[trigger] s[k]).info.api_key@,
        s[i].info.api_key@ == key,
    ensures
        key_index_from(s.remove(i), key, 0) is None,
        forall|j: int, k: int|
            0 <= j < k < s.remove(i).len() ==> (#[trigger] s.remove(i)[j]).info.api_key@ != (
            #[trigger] s.remove(i)[k]).info.api_key@,
{
    let t = s.remove(i);
    assert forall|j: int| 0 <= j < t.len() implies t[j].info.api_key@ != key by {
        if j < i {
            assert(t[j] == s[j]);
        } else {
            assert(t[j] == s[j + 1]);
        }
    }
    lemma_key_index_none(t, key, 0);
}

proof fn lemma_key_index_some(s: Seq<PoolEntry>, key: Seq<char>, k: int, i: int)
    requires
        0 <= k <= i < s.len(),
        s[i].info.api_key@ == key,
        forall|j: int| k <= j < i ==> s[j].info.api_key@ != key,
    ensures
        key_index_from(s, key, k) == Some(i),
    decreases i - k,
{
    if k < i {
        lemma_key_index_some(s, key, k + 1, i);
    }
}

/// In a pool with unique keys, the slot holding a key is found at that
/// slot's own position.
pub proof fn lemma_key_index_unique(s: Seq<PoolEntry>, key: Seq<char>, i: int)
    requires
        0 <= i < s.len(),
        s[i].info.api_key@ == key,
        forall|a: int, b: int|
            0 <= a < b < s.len() ==> (#[trigger] s[a]).info.api_key@ != (
            #[trigger] s[b]).info.api_key@,
    ensures
        key_index(s, key) == Some(i),
{
    assert forall|j: int| 0 <= j < i implies s[j].info.api_key@ != key by {
        assert(s[j].info.api_key@ != s[i].info.api_key@);
    }
    lemma_key_index_some(s, key, 0, i);
}

proof fn lemma_key_index_in_range(s: Seq<PoolEntry>, key: Seq<char>, k: int)
    requires
        0 <= k,
    ensures
        match key_index_from(s, key, k) {
            Some(i) => k <= i < s.len() && s[i].info.api_key@ == key,
            None => true,
        },
    decreases s.len() - k,
{
    if k < s.len() && s[k].info.api_key@ != key {
        lemma_key_index_in_range(s, key, k + 1);
    }
}

proof fn lemma_key_index_same_keys(s: Seq<PoolEntry>, t: Seq<PoolEntry>, key: Seq<char>, k: int)
    requires
        0 <= k,
        s.len() == t.len(),
        forall|j: int|
            0 <= j < s.len() ==> (#[trigger] s[j]).info.api_key@ == (
            #[trigger] t[j]).info.api_key@,
    ensures
        key_index_from(s, key, k) == key_index_from(t, key, k),
    decreases s.len() - k,
{
    if 0 <= k < s.len() {
        lemma_key_index_same_keys(s, t, key, k + 1);
    }
}

/// Charging a key twice is one charge of the sum: after
/// `UpdateUsage(k, n); UpdateUsage(k, m)` every slot's token total equals
/// its total after the single `UpdateUsage(k, n + m)`.
pub proof fn lemma_update_usage_additive(
    s: Seq<PoolEntry>,
    key: Seq<char>,
    n: int,
    m: int,
    t1: int,
    t2: int,
)
    requires
        n >= 0,
        m >= 0,
    ensures
        spec_update_usage(spec_update_usage(s, key, n, t1), key, m, t2).len() == spec_update_usage(
            s,
            key,
            n + m,
            t2,
        ).len(),
        forall|i: int|
            0 <= i < s.len() ==> (#[trigger] spec_update_usage(
                spec_update_usage(s, key, n, t1),
                key,
                m,
                t2,
            )[i]).usage.total_tokens == spec_update_usage(s, key, n + m, t2)[i].usage.total_tokens,
{
    match key_index(s, key) {
        None => {
        },
        Some(i) => {
            lemma_key_index_in_range(s, key, 0);
            let s1 = spec_update_usage(s, key, n, t1);
            lemma_key_index_same_keys(s, s1, key, 0);
        },
    }
}

/// Taking one permit never lifts a key past its rate limit: the bound of
/// the pool invariant, stated over every slot.
pub proof fn lemma_in_flight_bounded(p: ProviderPoolState)
    requires
        p.permits_ok(),
    ensures
        forall|i: int|
            0 <= i < p.entries_seq().len() ==> (#[trigger] p.entries_seq()[i]).in_flight
                <= p.entries_seq()[i].info.max_connections,
{
}

} // verus!
