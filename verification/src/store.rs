//! The provider table.
//!
//! This is the durable table of upstream credentials, modelled as a vector
//! of rows keyed by `api_key`.  It carries the rules the store must obey:
//! insert-or-replace keeps an existing row's identity, the reconciler's
//! batch eviction removes exactly the exhausted and invalidated keys, and
//! the pool is rebuilt from the active rows.  The database driver outside
//! the crate mirrors these rows; every decision about them is made here.

use crate::pool::{PoolEntry, ProviderInfo, ProviderPoolState, TokenUsage};
use crate::provider::{ApiProvider, ProviderStatus};
use crate::text::str_eq;
use vstd::prelude::*;
use vstd::string::*;

verus! {

/// The first row position holding `key`, if any.
pub open spec fn row_index_from(s: Seq<ApiProvider>, key: Seq<char>, i: int) -> Option<int>
    decreases s.len() - i,
{
    if i < 0 || i >= s.len() {
        None
    } else if s[i].api_key@ == key {
        Some(i)
    } else {
        row_index_from(s, key, i + 1)
    }
}

/// The row position holding `key`, if any.
pub open spec fn row_index(s: Seq<ApiProvider>, key: Seq<char>) -> Option<int> {
    row_index_from(s, key, 0)
}

/// The row survives the reconciler's batch eviction: it either has
/// balance checking off, or a known non-zero balance.
pub open spec fn keep_row(r: ApiProvider) -> bool {
    !(r.support_balance_check && (r.balance == Some(0u64) || r.balance is None))
}

/// The rows that survive batch eviction, in order.
pub open spec fn surviving_rows(s: Seq<ApiProvider>) -> Seq<ApiProvider>
    decreases s.len(),
{
    if s.len() == 0 {
        Seq::empty()
    } else {
        let p = surviving_rows(s.drop_last());
        if keep_row(s.last()) {
            p.push(s.last())
        } else {
            p
        }
    }
}

/// How many rows eviction removes for a zero balance.
pub open spec fn count_zero_balance(s: Seq<ApiProvider>) -> int
    decreases s.len(),
{
    if s.len() == 0 {
        0
    } else {
        count_zero_balance(s.drop_last()) + if s.last().support_balance_check && s.last().balance
            == Some(0u64) {
            1int
        } else {
            0int
        }
    }
}

/// How many rows eviction removes for an invalidated credential.
pub open spec fn count_invalid(s: Seq<ApiProvider>) -> int
    decreases s.len(),
{
    if s.len() == 0 {
        0
    } else {
        count_invalid(s.drop_last()) + if s.last().support_balance_check && s.last().balance
            is None {
            1int
        } else {
            0int
        }
    }
}

/// `info` is the pooled form of row `r`: the row's own fields carried
/// over, and the connection defaults the store hands every pooled
/// provider.
pub open spec fn info_matches_row(info: ProviderInfo, r: ApiProvider) -> bool {
    &&& info.base_url == r.base_url
    &&& info.api_key == r.api_key
    &&& info.max_connections == r.rate_limit
    &&& info.min_connections == 1
    &&& info.acquire_timeout_ms == 3000
    &&& info.idle_timeout_ms == 60000
    &&& info.load_balance_strategy@ == "RoundRobin"@
    &&& info.retry_attempts == 3
    &&& info.balance == r.balance
    &&& info.last_balance_check == r.last_balance_check
    &&& info.min_balance_threshold == r.min_balance_threshold
    &&& info.support_balance_check == r.support_balance_check
    &&& info.model_name == r.model_name
    &&& info.model_type == r.model_type
    &&& info.model_version == r.model_version
}

/// Positions of the active rows, in table order.
pub open spec fn active_idx(s: Seq<ApiProvider>) -> Seq<int>
    decreases s.len(),
{
    if s.len() == 0 {
        Seq::empty()
    } else {
        let p = active_idx(s.drop_last());
        if s.last().status == ProviderStatus::Active {
            p.push(s.len() - 1)
        } else {
            p
        }
    }
}

/// Every listed position is an active row, the list ascends, and every
/// active row is listed.
pub proof fn lemma_active_idx_props(s: Seq<ApiProvider>)
    ensures
        forall|j: int|
            0 <= j < active_idx(s).len() ==> 0 <= #[trigger] active_idx(s)[j] < s.len()
                && s[active_idx(s)[j]].status == ProviderStatus::Active,
        forall|j: int, k: int|
            0 <= j < k < active_idx(s).len() ==> active_idx(s)[j] < active_idx(s)[k],
        forall|i: int|
            0 <= i < s.len() && s[i].status == ProviderStatus::Active ==> exists|j: int|
                0 <= j < active_idx(s).len() && #[trigger] active_idx(s)[j] == i,
    decreases s.len(),
{
    if s.len() > 0 {
        lemma_active_idx_props(s.drop_last());
        let pre = active_idx(s.drop_last());
        let cs = active_idx(s);
        assert(forall|j: int| 0 <= j < pre.len() ==> pre[j] == cs[j]);
        assert forall|i: int|
            0 <= i < s.len() && s[i].status == ProviderStatus::Active implies exists|j: int|
            0 <= j < cs.len() && #[trigger] cs[j] == i by {
            if i == s.len() - 1 {
                assert(cs[cs.len() - 1] == i);
            } else {
                assert(s.drop_last()[i] == s[i]);
                let j = choose|j: int| 0 <= j < pre.len() && #[trigger] pre[j] == i;
                assert(cs[j] == i);
            }
        }
    }
}

/// The table after insert-or-replace of `row` by its `api_key`: a new
/// key appends the row as given; an existing key keeps its row's `id`
/// and `created_at` and takes every other field from `row`.
pub open spec fn spec_upsert(s: Seq<ApiProvider>, row: ApiProvider) -> Seq<ApiProvider> {
    match row_index(s, row.api_key@) {
        None => s.push(row),
        Some(i) => s.update(
            i,
            ApiProvider { id: s[i].id, created_at: s[i].created_at, ..row },
        ),
    }
}

/// The durable provider table.
#[derive(Debug)]
pub struct ProviderTable {
    rows: Vec<ApiProvider>,
}

impl ProviderTable {
    /// The table's rows.
    pub closed spec fn rows_seq(self) -> Seq<ApiProvider> {
        self.rows@
    }

    /// `api_key` is unique across the table.
    pub open spec fn wf(self) -> bool {
        forall|i: int, j: int|
            0 <= i < j < self.rows_seq().len() ==> (#[trigger] self.rows_seq()[i]).api_key@ != (
            #[trigger] self.rows_seq()[j]).api_key@
    }

    /// An empty table.
    pub fn new() -> (r: ProviderTable)
        ensures
            r.rows_seq() == Seq::<ApiProvider>::empty(),
            r.wf(),
    {
        ProviderTable { rows: Vec::new() }
    }

    /// How many rows the table holds.
    pub fn row_count(&self) -> (r: usize)
        ensures
            r == self.rows_seq().len(),
    {
        self.rows.len()
    }

    /// The row in slot `i`.
    pub fn row_at(&self, i: usize) -> (r: ApiProvider)
        requires
            i < self.rows_seq().len(),
        ensures
            r == self.rows_seq()[i as int],
    {
        self.rows[i].clone()
    }

    /// Insert-or-replace by `api_key`: a new key appends `row` as given; an
    /// existing key keeps that row's `id` and `created_at` and takes every
    /// other field from `row`.
    pub fn upsert(&mut self, row: ApiProvider) -> (existed: bool)
        requires
            old(self).wf(),
        ensures
            final(self).wf(),
            final(self).rows_seq() == spec_upsert(old(self).rows_seq(), row),
            existed == (row_index(old(self).rows_seq(), row.api_key@) is Some),
    {
        let ghost s = old(self).rows@;
        let n = self.rows.len();
        let mut i: usize = 0;
        while i < n
            invariant
                n == s.len(),
                self.rows@ == s,
                old(self).rows@ == s,
                old(self).wf(),
                i <= n,
                row_index_from(s, row.api_key@, 0) == row_index_from(s, row.api_key@, i as int),
                forall|k: int| 0 <= k < i ==> s[k].api_key@ != row.api_key@,
            decreases n - i,
        {
            if str_eq(self.rows[i].api_key.as_str(), row.api_key.as_str()) {
                let id = self.rows[i].id.clone();
                let created_at = self.rows[i].created_at;
                self.rows[i] = ApiProvider { id, created_at, ..row };
                proof {
                    let t = self.rows@;
                    assert forall|a: int, b: int|
                        0 <= a < b < t.len() implies (#[trigger] t[a]).api_key@ != (
                    #[trigger] t[b]).api_key@ by {
                        assert(t[a].api_key@ == s[a].api_key@);
                        assert(t[b].api_key@ == s[b].api_key@);
                    }
                }
                return true;
            }
            i = i + 1;
        }
        self.rows.push(row);
        proof {
            let t = self.rows@;
            assert forall|a: int, b: int|
                0 <= a < b < t.len() implies (#[trigger] t[a]).api_key@ != (
            #[trigger] t[b]).api_key@ by {
                if b < t.len() - 1 {
                    assert(t[a] == s[a]);
                    assert(t[b] == s[b]);
                } else {
                    assert(t[a] == s[a]);
                }
            }
        }
        false
    }

    /// Writes a balance reading onto the row holding `key`, stamping the
    /// check time; an unknown key changes nothing.  A reading of `None`
    /// records the credential as invalid.
    pub fn update_balance(&mut self, api_key: &str, balance: Option<u64>, now: i64)
        requires
            old(self).wf(),
        ensures
            final(self).wf(),
            match row_index(old(self).rows_seq(), api_key@) {
                None => final(self).rows_seq() == old(self).rows_seq(),
                Some(i) => final(self).rows_seq() == old(self).rows_seq().update(
                    i,
                    ApiProvider {
                        balance,
                        last_balance_check: Some(now),
                        updated_at: now,
                        ..old(self).rows_seq()[i]
                    },
                ),
            },
    {
        let ghost s = old(self).rows@;
        let n = self.rows.len();
        let mut i: usize = 0;
        while i < n
            invariant
                n == s.len(),
                self.rows@ == s,
                old(self).rows@ == s,
                old(self).wf(),
                i <= n,
                row_index_from(s, api_key@, 0) == row_index_from(s, api_key@, i as int),
                forall|k: int| 0 <= k < i ==> s[k].api_key@ != api_key@,
            decreases n - i,
        {
            if str_eq(self.rows[i].api_key.as_str(), api_key) {
                self.rows[i].balance = balance;
                self.rows[i].last_balance_check = Some(now);
                self.rows[i].updated_at = now;
                proof {
                    let t = self.rows@;
                    assert(t =~= s.update(
                        i as int,
                        ApiProvider {
                            balance,
                            last_balance_check: Some(now),
                            updated_at: now,
                            ..s[i as int]
                        },
                    ));
                    assert forall|a: int, b: int|
                        0 <= a < b < t.len() implies (#[trigger] t[a]).api_key@ != (
                    #[trigger] t[b]).api_key@ by {
                        assert(t[a].api_key@ == s[a].api_key@);
                        assert(t[b].api_key@ == s[b].api_key@);
                    }
                }
                return ;
            }
            i = i + 1;
        }
    }

    /// The reconciler's batch eviction: deletes every row with balance
    /// checking on whose balance is zero or invalid, in one pass, and
    /// reports how many of each kind went.
    pub fn delete_exhausted(&mut self) -> (deleted: (usize, usize))
        requires
            old(self).wf(),
        ensures
            final(self).wf(),
            final(self).rows_seq() == surviving_rows(old(self).rows_seq()),
            deleted.0 == count_zero_balance(old(self).rows_seq()),
            deleted.1 == count_invalid(old(self).rows_seq()),
            forall|k: int|
                0 <= k < final(self).rows_seq().len() ==> keep_row(
                    #[trigger] final(self).rows_seq()[k],
                ),
    {
        let ghost s = old(self).rows@;
        let n = self.rows.len();
        let mut out: Vec<ApiProvider> = Vec::new();
        let mut zero: usize = 0;
        let mut invalid: usize = 0;
        let mut i: usize = 0;
        while i < n
            invariant
                n == s.len(),
                self.rows@ == s,
                i <= n,
                out@ == surviving_rows(s.take(i as int)),
                zero == count_zero_balance(s.take(i as int)),
                invalid == count_invalid(s.take(i as int)),
                zero + invalid <= i,
            decreases n - i,
        {
            let r = self.rows[i].clone();
            proof {
                assert(s.take(i as int + 1).drop_last() =~= s.take(i as int));
                assert(s.take(i as int + 1).last() == s[i as int]);
            }
            let keep = if !r.support_balance_check {
                true
            } else {
                match r.balance {
                    Some(b) => {
                        if b == 0 {
                            zero = zero + 1;
                            false
                        } else {
                            true
                        }
                    },
                    None => {
                        invalid = invalid + 1;
                        false
                    },
                }
            };
            if keep {
                out.push(r);
            }
            i = i + 1;
        }
        proof {
            assert(s.take(n as int) =~= s);
        }
        self.rows = out;
        proof {
            lemma_surviving_rows_props(s);
            lemma_surviving_rows_unique(s);
        }
        (zero, invalid)
    }

    /// The pooled forms of the active rows, in table order.
    pub fn active_provider_infos(&self) -> (r: Vec<ProviderInfo>)
        ensures
            r@.len() == active_idx(self.rows_seq()).len(),
            forall|k: int|
                0 <= k < r@.len() ==> info_matches_row(
                    #[trigger] r@[k],
                    self.rows_seq()[active_idx(self.rows_seq())[k]],
                ),
    {
        let ghost s = self.rows@;
        let n = self.rows.len();
        let mut out: Vec<ProviderInfo> = Vec::new();
        let mut i: usize = 0;
        while i < n
            invariant
                n == s.len(),
                self.rows@ == s,
                i <= n,
                out@.len() == active_idx(s.take(i as int)).len(),
                forall|k: int|
                    0 <= k < out@.len() ==> info_matches_row(
                        #[trigger] out@[k],
                        s.take(i as int)[active_idx(s.take(i as int))[k]],
                    ),
            decreases n - i,
        {
            proof {
                assert(s.take(i as int + 1).drop_last() =~= s.take(i as int));
                assert(s.take(i as int + 1).last() == s[i as int]);
                lemma_active_idx_props(s.take(i as int));
                lemma_active_idx_props(s.take(i as int + 1));
            }
            let r = &self.rows[i];
            if r.status == ProviderStatus::Active {
                let info = ProviderInfo {
                    base_url: r.base_url.clone(),
                    api_key: r.api_key.clone(),
                    max_connections: r.rate_limit,
                    min_connections: 1,
                    acquire_timeout_ms: 3000,
                    idle_timeout_ms: 60000,
                    load_balance_strategy: "RoundRobin".to_owned(),
                    retry_attempts: 3,
                    balance: r.balance,
                    last_balance_check: r.last_balance_check,
                    min_balance_threshold: r.min_balance_threshold,
                    support_balance_check: r.support_balance_check,
                    model_name: r.model_name.clone(),
                    model_type: r.model_type.clone(),
                    model_version: r.model_version.clone(),
                };
                out.push(info);
            }
            i = i + 1;
        }
        proof {
            assert(s.take(n as int) =~= s);
        }
        out
    }

    /// Builds a fresh pool over the active rows: tallies and permits
    /// reset, cursor at zero.  Every pooled provider is the image of the
    /// active row in its position; a well-formed table yields a
    /// well-formed pool.
    pub fn build_pool(&self) -> (r: ProviderPoolState)
        ensures
            r.cursor() == 0,
            r.entries_seq().len() == active_idx(self.rows_seq()).len(),
            forall|k: int|
                0 <= k < r.entries_seq().len() ==> info_matches_row(
                    (#[trigger] r.entries_seq()[k]).info,
                    self.rows_seq()[active_idx(self.rows_seq())[k]],
                ) && r.entries_seq()[k].usage == (TokenUsage {
                    last_used: None,
                    total_tokens: 0,
                    request_count: 0,
                }) && r.entries_seq()[k].in_flight == 0,
            self.wf() ==> r.wf(),
    {
        let infos = self.active_provider_infos();
        let pool = ProviderPoolState::new(infos);
        proof {
            lemma_active_idx_props(self.rows@);
            if self.wf() {
                assert forall|a: int, b: int|
                    0 <= a < b < pool.entries_seq().len() implies (
                #[trigger] pool.entries_seq()[a]).info.api_key@ != (
                #[trigger] pool.entries_seq()[b]).info.api_key@ by {
                    let ia = active_idx(self.rows@)[a];
                    let ib = active_idx(self.rows@)[b];
                    assert(ia < ib);
                    assert(self.rows@[ia].api_key@ != self.rows@[ib].api_key@);
                }
            }
        }
        pool
    }
}

pub proof fn lemma_row_index_in_range(s: Seq<ApiProvider>, key: Seq<char>, k: int)
    requires
        0 <= k,
    ensures
        match row_index_from(s, key, k) {
            Some(i) => k <= i < s.len() && s[i].api_key@ == key,
            None => forall|j: int| k <= j < s.len() ==> s[j].api_key@ != key,
        },
    decreases s.len() - k,
{
    if k < s.len() && s[k].api_key@ != key {
        lemma_row_index_in_range(s, key, k + 1);
    }
}

proof fn lemma_row_index_some(s: Seq<ApiProvider>, key: Seq<char>, k: int, i: int)
    requires
        0 <= k <= i < s.len(),
        s[i].api_key@ == key,
        forall|j: int| k <= j < i ==> s[j].api_key@ != key,
    ensures
        row_index_from(s, key, k) == Some(i),
    decreases i - k,
{
    if k < i {
        lemma_row_index_some(s, key, k + 1, i);
    }
}

/// Admitting the same `api_key` twice leaves the row's `id` and
/// `created_at` as the first admission left them: the second
/// insert-or-replace rewrites every other field but preserves the row's
/// identity.
pub proof fn lemma_upsert_preserves_identity(
    s: Seq<ApiProvider>,
    row1: ApiProvider,
    row2: ApiProvider,
)
    requires
        row1.api_key@ == row2.api_key@,
        forall|i: int, j: int|
            0 <= i < j < s.len() ==> (#[trigger] s[i]).api_key@ != (#[trigger] s[j]).api_key@,
    ensures
        ({
            let s1 = spec_upsert(s, row1);
            let s2 = spec_upsert(s1, row2);
            &&& row_index(s1, row2.api_key@) is Some
            &&& s2.len() == s1.len()
            &&& s2[row_index(s1, row2.api_key@)->Some_0].id == s1[row_index(
                s1,
                row2.api_key@,
            )->Some_0].id
            &&& s2[row_index(s1, row2.api_key@)->Some_0].created_at == s1[row_index(
                s1,
                row2.api_key@,
            )->Some_0].created_at
        }),
{
    let key = row1.api_key@;
    lemma_row_index_in_range(s, key, 0);
    let s1 = spec_upsert(s, row1);
    match row_index(s, key) {
        None => {
            assert(s1 == s.push(row1));
            assert(s1[s.len() as int].api_key@ == key);
            assert forall|j: int| 0 <= j < s.len() implies s1[j].api_key@ != key by {
                assert(s1[j] == s[j]);
            }
            lemma_row_index_some(s1, key, 0, s.len() as int);
        },
        Some(i) => {
            assert(s1[i].api_key@ == key);
            assert forall|j: int| 0 <= j < i implies s1[j].api_key@ != key by {
                assert(s1[j] == s[j]);
                assert(s[j].api_key@ != s[i].api_key@);
            }
            lemma_row_index_some(s1, key, 0, i);
        },
    }
}

/// Every surviving row is one of the input rows, and survives on its
/// own account.
pub proof fn lemma_surviving_rows_props(s: Seq<ApiProvider>)
    ensures
        forall|k: int|
            0 <= k < surviving_rows(s).len() ==> keep_row(#[trigger] surviving_rows(s)[k])
                && exists|j: int| 0 <= j < s.len() && s[j] == surviving_rows(s)[k],
    decreases s.len(),
{
    if s.len() > 0 {
        lemma_surviving_rows_props(s.drop_last());
        let p = surviving_rows(s.drop_last());
        let f = surviving_rows(s);
        assert forall|k: int| 0 <= k < f.len() implies keep_row(#[trigger] f[k]) && exists|j: int|
            0 <= j < s.len() && s[j] == f[k] by {
            if k < p.len() {
                assert(keep_row(p[k]));
                let j = choose|j: int| 0 <= j < s.drop_last().len() && s.drop_last()[j] == p[k];
                assert(s[j] == f[k]);
            } else {
                assert(f[k] == s.last());
                assert(s[s.len() - 1] == f[k]);
            }
        }
    }
}

/// Batch eviction keeps keys unique.
proof fn lemma_surviving_rows_unique(s: Seq<ApiProvider>)
    requires
        forall|i: int, j: int|
            0 <= i < j < s.len() ==> (#[trigger] s[i]).api_key@ != (#[trigger] s[j]).api_key@,
    ensures
        forall|i: int, j: int|
            0 <= i < j < surviving_rows(s).len() ==> (#[trigger] surviving_rows(s)[i]).api_key@
                != (#[trigger] surviving_rows(s)[j]).api_key@,
    decreases s.len(),
{
    if s.len() > 0 {
        lemma_surviving_rows_unique(s.drop_last());
        lemma_surviving_rows_props(s.drop_last());
        let p = surviving_rows(s.drop_last());
        let f = surviving_rows(s);
        assert forall|i: int, j: int|
            0 <= i < j < f.len() implies (#[trigger] f[i]).api_key@ != (
        #[trigger] f[j]).api_key@ by {
            if j < p.len() {
                assert(f[i] == p[i] && f[j] == p[j]);
            } else if j == p.len() && f.len() > p.len() {
                assert(f[i] == p[i]);
                assert(f[j] == s.last());
                let w = choose|w: int| 0 <= w < s.drop_last().len() && s.drop_last()[w] == p[i];
                assert(s[w].api_key@ != s[s.len() - 1].api_key@);
            }
        }
    }
}

} // verus!
