//! The balance reconciler's decision logic.
//!
//! The reconciler periodically asks each active, balance-checked key's
//! upstream for its credit.  The HTTP round-trips happen outside the
//! crate; what stands here is everything decided from their outcomes: the
//! user-info URL derived from a key's base URL, the reading taken from the
//! response body, how one outcome changes the key's row, and the batch
//! cycle that applies all outcomes, evicts exhausted and invalidated keys,
//! and rebuilds the pool.

use crate::ext;
use crate::fixed::{fixed4_val, parse_fixed4, valid_fixed4};
use crate::pool::ProviderPoolState;
use crate::provider::ApiProvider;
use crate::store::{keep_row, row_index, surviving_rows, ProviderTable};
use crate::text::{contains_seq, contains_str, find_str, prefix_before};
use vstd::prelude::*;
use vstd::string::*;

verus! {

/// The user-info URL for a key at `base`: a fixed host for the
/// siliconflow service, otherwise the prefix of `base` before the first
/// `"/v1/"` with the user-info path appended.
pub open spec fn spec_user_info_url(base: Seq<char>) -> Seq<char> {
    if contains_seq(base, "siliconflow"@) {
        "https://api.siliconflow.cn/v1/user/info"@
    } else {
        prefix_before(base, "/v1/"@) + "/v1/user/info"@
    }
}

/// Derives the user-info URL from a key's chat-completions base URL.
pub fn user_info_url(base_url: &str) -> (r: String)
    ensures
        r@ == spec_user_info_url(base_url@),
{
    if contains_str(base_url, "siliconflow") {
        return "https://api.siliconflow.cn/v1/user/info".to_owned();
    }
    let len = base_url.unicode_len();
    let cut = match find_str(base_url, "/v1/") {
        Some(i) => i,
        None => len,
    };
    proof {
        crate::text::lemma_find_first_props(base_url@, "/v1/"@);
    }
    let prefix = base_url.substring_char(0, cut);
    let mut url = prefix.to_owned();
    url.append("/v1/user/info");
    proof {
        assert(prefix@ =~= prefix_before(base_url@, "/v1/"@));
    }
    url
}

/// What one balance probe came to.  `Balance` carries the parsed reading
/// in ten-thousandths; `Unauthorized` is an upstream 401; `HttpFailure`
/// is any other non-success status; `Transport` is a failure before any
/// status arrived; `Malformed` is a response body the reading could not
/// be taken from.
#[derive(Clone, Copy, Debug, PartialEq, Eq, Structural)]
pub enum ProbeOutcome {
    Balance(u64),
    Unauthorized,
    HttpFailure(u16),
    Transport,
    Malformed,
}

/// The reading a user-info response body yields: its `data.balance`
/// member parsed as a plain decimal, in ten-thousandths; `None` when the
/// member is missing, not a string, not a plain decimal, or too large.
pub open spec fn spec_user_info_balance(body: Seq<char>, r: Option<u64>) -> bool {
    match ext::balance_text_of(body) {
        Some(t) => {
            if valid_fixed4(t) && fixed4_val(t) <= u64::MAX {
                r == Some(fixed4_val(t) as u64)
            } else {
                r is None
            }
        },
        None => r is None,
    }
}

/// Takes the credit reading out of a user-info response body: the
/// `data.balance` member, a decimal string, in ten-thousandths.  `None`
/// when the body, the member or the number is not of that shape.
pub fn parse_user_info_balance(body: &str) -> (r: Option<u64>)
    ensures
        spec_user_info_balance(body@, r),
{
    match ext::extract_balance_text(body) {
        Some(text) => parse_fixed4(text.as_str()),
        None => None,
    }
}

/// The table after one probe outcome lands on `key`: a reading writes the
/// balance with the check time, a 401 invalidates the credential, and any
/// failure leaves the row untouched.
pub open spec fn spec_apply_probe(
    s: Seq<ApiProvider>,
    key: Seq<char>,
    outcome: ProbeOutcome,
    now: int,
) -> Seq<ApiProvider> {
    match outcome {
        ProbeOutcome::Balance(b) => spec_write_balance(s, key, Some(b), now),
        ProbeOutcome::Unauthorized => spec_write_balance(s, key, None, now),
        ProbeOutcome::HttpFailure(_) => s,
        ProbeOutcome::Transport => s,
        ProbeOutcome::Malformed => s,
    }
}

/// The table after a balance write on `key`; an unknown key changes
/// nothing.
pub open spec fn spec_write_balance(
    s: Seq<ApiProvider>,
    key: Seq<char>,
    balance: Option<u64>,
    now: int,
) -> Seq<ApiProvider> {
    match row_index(s, key) {
        None => s,
        Some(i) => s.update(
            i,
            ApiProvider {
                balance,
                last_balance_check: Some(now as i64),
                updated_at: now as i64,
                ..s[i]
            },
        ),
    }
}

/// Applies one probe outcome to the row holding `key`.
pub fn apply_probe(table: &mut ProviderTable, api_key: &str, outcome: &ProbeOutcome, now: i64)
    requires
        old(table).wf(),
    ensures
        final(table).wf(),
        final(table).rows_seq() == spec_apply_probe(
            old(table).rows_seq(),
            api_key@,
            *outcome,
            now as int,
        ),
{
    match outcome {
        ProbeOutcome::Balance(b) => table.update_balance(api_key, Some(*b), now),
        ProbeOutcome::Unauthorized => table.update_balance(api_key, None, now),
        ProbeOutcome::HttpFailure(_) => {
        },
        ProbeOutcome::Transport => {
        },
        ProbeOutcome::Malformed => {
        },
    }
}

/// The table after a whole list of probe outcomes, applied in order.
pub open spec fn spec_apply_all(
    s: Seq<ApiProvider>,
    checks: Seq<(String, ProbeOutcome)>,
    now: int,
) -> Seq<ApiProvider>
    decreases checks.len(),
{
    if checks.len() == 0 {
        s
    } else {
        spec_apply_probe(
            spec_apply_all(s, checks.drop_last(), now),
            checks.last().0@,
            checks.last().1,
            now,
        )
    }
}

/// One reconciler cycle: applies every probe outcome (the caller gathers
/// one probe per active balance-checked row), evicts in one batch every
/// balance-checked row whose balance is now zero or invalid, and
/// rebuilds the pool from the surviving active rows.  After the cycle no
/// balance-checked row is exhausted or invalidated.
pub fn run_cycle(table: &mut ProviderTable, checks: &Vec<(String, ProbeOutcome)>, now: i64) -> (r: (
    ProviderPoolState,
    (usize, usize),
))
    requires
        old(table).wf(),
    ensures
        final(table).wf(),
        final(table).rows_seq() == surviving_rows(
            spec_apply_all(old(table).rows_seq(), checks@, now as int),
        ),
        forall|k: int|
            0 <= k < final(table).rows_seq().len() ==> keep_row(
                #[trigger] final(table).rows_seq()[k],
            ),
        r.0.cursor() == 0,
        r.0.entries_seq().len() == crate::store::active_idx(final(table).rows_seq()).len(),
        forall|k: int|
            0 <= k < r.0.entries_seq().len() ==> crate::store::info_matches_row(
                (#[trigger] r.0.entries_seq()[k]).info,
                final(table).rows_seq()[crate::store::active_idx(final(table).rows_seq())[k]],
            ),
        r.0.wf(),
{
    let ghost s0 = old(table).rows_seq();
    let n = checks.len();
    let mut i: usize = 0;
    while i < n
        invariant
            n == checks@.len(),
            i <= n,
            table.wf(),
            table.rows_seq() == spec_apply_all(old(table).rows_seq(), checks@.take(i as int), now as int),
        decreases n - i,
    {
        proof {
            assert(checks@.take(i as int + 1).drop_last() =~= checks@.take(i as int));
            assert(checks@.take(i as int + 1).last() == checks@[i as int]);
        }
        let pair = &checks[i];
        apply_probe(table, pair.0.as_str(), &pair.1, now);
        i = i + 1;
    }
    proof {
        assert(checks@.take(n as int) =~= checks@);
    }
    let deleted = table.delete_exhausted();
    let pool = table.build_pool();
    (pool, deleted)
}

/// The fields a probe outcome leaves on the row it touched: a reading
/// and its stamp, or an invalidated credential and its stamp; failures
/// leave no mark.
pub open spec fn probe_fields_ok(row: ApiProvider, outcome: ProbeOutcome, now: int) -> bool {
    match outcome {
        ProbeOutcome::Balance(b) => row.balance == Some(b) && row.last_balance_check == Some(
            now as i64,
        ) && row.updated_at == now as i64,
        ProbeOutcome::Unauthorized => row.balance is None && row.last_balance_check == Some(
            now as i64,
        ) && row.updated_at == now as i64,
        ProbeOutcome::HttpFailure(_) => true,
        ProbeOutcome::Transport => true,
        ProbeOutcome::Malformed => true,
    }
}

/// Applying a list of probes keeps the table's length and keys, and
/// stamps each checked key's row with its outcome's fields.
proof fn lemma_apply_all_fields(s: Seq<ApiProvider>, checks: Seq<(String, ProbeOutcome)>, now: int)
    requires
        forall|i: int, j: int|
            0 <= i < j < s.len() ==> (#[trigger] s[i]).api_key@ != (#[trigger] s[j]).api_key@,
        forall|i: int, j: int|
            0 <= i < j < checks.len() ==> (#[trigger] checks[i]).0@ != (#[trigger] checks[j]).0@,
    ensures
        spec_apply_all(s, checks, now).len() == s.len(),
        forall|i: int|
            0 <= i < s.len() ==> (#[trigger] spec_apply_all(s, checks, now)[i]).api_key@
                == s[i].api_key@,
        forall|j: int, i: int|
            0 <= j < checks.len() && 0 <= i < s.len() && (#[trigger] spec_apply_all(
                s,
                checks,
                now,
            )[i]).api_key@ == (#[trigger] checks[j]).0@ ==> probe_fields_ok(
                spec_apply_all(s, checks, now)[i],
                checks[j].1,
                now,
            ),
    decreases checks.len(),
{
    if checks.len() > 0 {
        let pre = checks.drop_last();
        assert(forall|i: int, j: int|
            0 <= i < j < pre.len() ==> (#[trigger] pre[i]).0@ != (#[trigger] pre[j]).0@);
        lemma_apply_all_fields(s, pre, now);
        let a = spec_apply_all(s, pre, now);
        let key = checks.last().0@;
        let outcome = checks.last().1;
        let b = spec_apply_all(s, checks, now);
        assert(b == spec_apply_probe(a, key, outcome, now));
        crate::store::lemma_row_index_in_range(a, key, 0);
        assert forall|j: int, i: int|
            0 <= j < checks.len() && 0 <= i < s.len() && (#[trigger] b[i]).api_key@ == (
        #[trigger] checks[j]).0@ implies probe_fields_ok(b[i], checks[j].1, now) by {
            match outcome {
                ProbeOutcome::Balance(_) | ProbeOutcome::Unauthorized => {
                    match row_index(a, key) {
                        None => {
                            assert(b == a);
                            if j < checks.len() - 1 {
                                assert(pre[j] == checks[j]);
                            } else {
                                assert(a[i].api_key@ == key);
                            }
                        },
                        Some(w) => {
                            assert(a[w].api_key@ == key);
                            if j < checks.len() - 1 {
                                assert(pre[j] == checks[j]);
                                assert(checks[j].0@ != key);
                                assert(i != w);
                                assert(b[i] == a[i]);
                            } else {
                                // the touched row is the one checked last
                                if i != w {
                                    assert(b[i] == a[i]);
                                    assert(a[i].api_key@ == s[i].api_key@);
                                    assert(a[w].api_key@ == s[w].api_key@);
                                    assert(s[i].api_key@ != s[w].api_key@);
                                    assert(false);
                                }
                            }
                        },
                    }
                },
                _ => {
                    assert(b == a);
                    if j < checks.len() - 1 {
                        assert(pre[j] == checks[j]);
                    }
                },
            }
        }
    }
}

/// A table every probe has already stamped is a fixed point of the
/// probe list.
proof fn lemma_apply_all_fixed(t: Seq<ApiProvider>, checks: Seq<(String, ProbeOutcome)>, now: int)
    requires
        forall|j: int, i: int|
            0 <= j < checks.len() && 0 <= i < t.len() && (#[trigger] t[i]).api_key@ == (
            #[trigger] checks[j]).0@ ==> probe_fields_ok(t[i], checks[j].1, now),
    ensures
        spec_apply_all(t, checks, now) == t,
    decreases checks.len(),
{
    if checks.len() > 0 {
        let pre = checks.drop_last();
        assert(forall|j: int| 0 <= j < pre.len() ==> pre[j] == checks[j]);
        lemma_apply_all_fixed(t, pre, now);
        let key = checks.last().0@;
        let outcome = checks.last().1;
        assert(spec_apply_all(t, checks, now) == spec_apply_probe(t, key, outcome, now));
        crate::store::lemma_row_index_in_range(t, key, 0);
        match outcome {
            ProbeOutcome::Balance(bal) => {
                match row_index(t, key) {
                    None => {
                    },
                    Some(i) => {
                        assert(t[i].api_key@ == checks[checks.len() - 1].0@);
                        assert(probe_fields_ok(t[i], outcome, now));
                        assert(t.update(
                            i,
                            ApiProvider {
                                balance: Some(bal),
                                last_balance_check: Some(now as i64),
                                updated_at: now as i64,
                                ..t[i]
                            },
                        ) =~= t);
                    },
                }
            },
            ProbeOutcome::Unauthorized => {
                match row_index(t, key) {
                    None => {
                    },
                    Some(i) => {
                        assert(t[i].api_key@ == checks[checks.len() - 1].0@);
                        assert(probe_fields_ok(t[i], outcome, now));
                        assert(t[i].balance is None);
                        assert(t.update(
                            i,
                            ApiProvider {
                                balance: None,
                                last_balance_check: Some(now as i64),
                                updated_at: now as i64,
                                ..t[i]
                            },
                        ) =~= t);
                    },
                }
            },
            _ => {
            },
        }
    }
}

/// Eviction is a fixed point on a table whose every row survives.
proof fn lemma_surviving_all_kept(t: Seq<ApiProvider>)
    requires
        forall|k: int| 0 <= k < t.len() ==> keep_row(#[trigger] t[k]),
    ensures
        surviving_rows(t) == t,
    decreases t.len(),
{
    if t.len() > 0 {
        assert(forall|k: int| 0 <= k < t.drop_last().len() ==> keep_row(
            #[trigger] t.drop_last()[k],
        ));
        lemma_surviving_all_kept(t.drop_last());
        assert(surviving_rows(t) =~= t);
    }
}

/// One reconciler cycle is idempotent on a stable upstream: running the
/// same probe outcomes again over the table a cycle produced, and
/// evicting again, changes nothing.  The premises state what a cycle
/// looks like: `api_key` is unique across the table, and the probe list
/// names each key at most once — a cycle probes each balance-checked row
/// exactly once, so a stable upstream yields exactly such a list.  The
/// second cycle runs at the same clock reading; at a later reading only
/// the `last_balance_check` and `updated_at` stamps differ.
pub proof fn lemma_cycle_idempotent(
    s: Seq<ApiProvider>,
    checks: Seq<(String, ProbeOutcome)>,
    now: int,
)
    requires
        forall|i: int, j: int|
            0 <= i < j < s.len() ==> (#[trigger] s[i]).api_key@ != (#[trigger] s[j]).api_key@,
        forall|i: int, j: int|
            0 <= i < j < checks.len() ==> (#[trigger] checks[i]).0@ != (#[trigger] checks[j]).0@,
    ensures
        ({
            let once = surviving_rows(spec_apply_all(s, checks, now));
            surviving_rows(spec_apply_all(once, checks, now)) == once
        }),
{
    let a = spec_apply_all(s, checks, now);
    let once = surviving_rows(a);
    lemma_apply_all_fields(s, checks, now);
    crate::store::lemma_surviving_rows_props(a);
    assert forall|j: int, i: int|
        0 <= j < checks.len() && 0 <= i < once.len() && (#[trigger] once[i]).api_key@ == (
    #[trigger] checks[j]).0@ implies probe_fields_ok(once[i], checks[j].1, now) by {
        let w = choose|w: int| 0 <= w < a.len() && a[w] == once[i];
        assert(a[w].api_key@ == checks[j].0@);
        assert(probe_fields_ok(a[w], checks[j].1, now));
    }
    lemma_apply_all_fixed(once, checks, now);
    assert forall|k: int| 0 <= k < once.len() implies keep_row(#[trigger] once[k]) by {}
    lemma_surviving_all_kept(once);
}

} // verus!
