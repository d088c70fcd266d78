//! Model pricing records.
//!
//! Prices are held in ten-thousandths of a currency unit per thousand
//! tokens.  The table preserves history: updating a price inserts a new
//! row, and the current price of a pair is the row with the latest
//! effective date, the most recently inserted among equals.

use crate::ext;
use crate::text::str_eq;
use vstd::prelude::*;
use vstd::string::*;

verus! {

/// One priced model of one provider, effective from a date.
#[derive(Debug)]
pub struct ModelPricing {
    pub id: String,
    pub name: String,
    pub model: String,
    /// Ten-thousandths of a currency unit per thousand prompt tokens.
    pub prompt_token_price: u64,
    /// Ten-thousandths of a currency unit per thousand completion tokens.
    pub completion_token_price: u64,
    pub currency: String,
    pub effective_date: i64,
    pub created_at: i64,
    pub updated_at: i64,
}

impl Clone for ModelPricing {
    /// A clone carries exactly the same values.
    fn clone(&self) -> (r: Self)
        ensures
            r == *self,
    {
        ModelPricing {
            id: self.id.clone(),
            name: self.name.clone(),
            model: self.model.clone(),
            prompt_token_price: self.prompt_token_price,
            completion_token_price: self.completion_token_price,
            currency: self.currency.clone(),
            effective_date: self.effective_date,
            created_at: self.created_at,
            updated_at: self.updated_at,
        }
    }
}

impl ModelPricing {
    /// Builds a price row with a fresh identifier, stamped now; the
    /// effective date defaults to now.
    pub fn new(
        name: &str,
        model: &str,
        prompt_token_price: u64,
        completion_token_price: u64,
        currency: &str,
        effective_date: Option<i64>,
    ) -> (r: ModelPricing)
        ensures
            r.name@ == name@,
            r.model@ == model@,
            r.prompt_token_price == prompt_token_price,
            r.completion_token_price == completion_token_price,
            r.currency@ == currency@,
            match effective_date {
                Some(d) => r.effective_date == d,
                None => r.effective_date == r.created_at,
            },
            r.created_at == r.updated_at,
            r.id@.len() == 36,
    {
        let now = ext::now_millis();
        ModelPricing {
            id: ext::generate_uuid(),
            name: name.to_owned(),
            model: model.to_owned(),
            prompt_token_price,
            completion_token_price,
            currency: currency.to_owned(),
            effective_date: match effective_date {
                Some(d) => d,
                None => now,
            },
            created_at: now,
            updated_at: now,
        }
    }

    /// The cost of a call at this price, in ten-thousandths of a
    /// currency unit, each side rounded down to the thousandth token.
    pub fn calculate_cost(&self, prompt_tokens: u32, completion_tokens: u32) -> (r: u64)
        requires
            prompt_tokens * self.prompt_token_price + completion_tokens
                * self.completion_token_price <= u64::MAX,
        ensures
            r == (prompt_tokens * self.prompt_token_price) / 1000 + (completion_tokens
                * self.completion_token_price) / 1000,
    {
        proof {
            assert(prompt_tokens * self.prompt_token_price >= 0) by (nonlinear_arith);
            assert(completion_tokens * self.completion_token_price >= 0) by (nonlinear_arith);
            assert((prompt_tokens * self.prompt_token_price) / 1000 <= prompt_tokens
                * self.prompt_token_price) by (nonlinear_arith);
            assert((completion_tokens * self.completion_token_price) / 1000 <= completion_tokens
                * self.completion_token_price) by (nonlinear_arith);
        }
        (prompt_tokens as u64 * self.prompt_token_price) / 1000 + (completion_tokens as u64
            * self.completion_token_price) / 1000
    }
}

/// The position of the current price for a pair: the latest effective
/// date, the most recently inserted among equals.
pub open spec fn current_price_idx(s: Seq<ModelPricing>, name: Seq<char>, model: Seq<char>)
    -> Option<int>
    decreases s.len(),
{
    if s.len() == 0 {
        None
    } else {
        let p = current_price_idx(s.drop_last(), name, model);
        if s.last().name@ == name && s.last().model@ == model {
            match p {
                None => Some(s.len() - 1),
                Some(j) => {
                    if s.last().effective_date >= s[j].effective_date {
                        Some(s.len() - 1)
                    } else {
                        Some(j)
                    }
                },
            }
        } else {
            p
        }
    }
}

/// The price history, one row per posted price.
#[derive(Debug)]
pub struct PricingTable {
    rows: Vec<ModelPricing>,
}

impl PricingTable {
    /// The table's rows.
    pub closed spec fn rows_seq(self) -> Seq<ModelPricing> {
        self.rows@
    }

    /// An empty history.
    pub fn new() -> (r: PricingTable)
        ensures
            r.rows_seq() == Seq::<ModelPricing>::empty(),
    {
        PricingTable { rows: Vec::new() }
    }

    /// How many rows the history holds.
    pub fn row_count(&self) -> (r: usize)
        ensures
            r == self.rows_seq().len(),
    {
        self.rows.len()
    }

    /// The row in slot `i`.
    pub fn row_at(&self, i: usize) -> (r: ModelPricing)
        requires
            i < self.rows_seq().len(),
        ensures
            r == self.rows_seq()[i as int],
    {
        self.rows[i].clone()
    }

    /// Posts a price: appends a fresh row, never touching history, and
    /// hands the row back.
    pub fn update_price(
        &mut self,
        name: &str,
        model: &str,
        prompt_token_price: u64,
        completion_token_price: u64,
        currency: &str,
        effective_date: Option<i64>,
    ) -> (r: ModelPricing)
        ensures
            final(self).rows_seq() == old(self).rows_seq().push(r),
            r.name@ == name@,
            r.model@ == model@,
            r.prompt_token_price == prompt_token_price,
            r.completion_token_price == completion_token_price,
            r.currency@ == currency@,
            match effective_date {
                Some(d) => r.effective_date == d,
                None => r.effective_date == r.created_at,
            },
    {
        let row = ModelPricing::new(
            name,
            model,
            prompt_token_price,
            completion_token_price,
            currency,
            effective_date,
        );
        let out = row.clone();
        self.rows.push(row);
        out
    }

    /// The current price of a provider-model pair: the row with the
    /// latest effective date, the most recently posted among equals;
    /// `None` when the pair has no history.
    pub fn get_current_price(&self, name: &str, model: &str) -> (r: Option<ModelPricing>)
        ensures
            match current_price_idx(self.rows_seq(), name@, model@) {
                None => r is None,
                Some(i) => r == Some(self.rows_seq()[i]),
            },
    {
        let ghost s = self.rows@;
        let n = self.rows.len();
        let mut best: Option<usize> = None;
        let mut i: usize = 0;
        while i < n
            invariant
                n == s.len(),
                s == self.rows@,
                i <= n,
                match best {
                    None => current_price_idx(s.take(i as int), name@, model@) is None,
                    Some(b) => b < i && current_price_idx(s.take(i as int), name@, model@)
                        == Some(b as int),
                },
            decreases n - i,
        {
            proof {
                assert(s.take(i as int + 1).drop_last() =~= s.take(i as int));
                assert(s.take(i as int + 1).last() == s[i as int]);
            }
            let row = &self.rows[i];
            if str_eq(row.name.as_str(), name) && str_eq(row.model.as_str(), model) {
                match best {
                    None => {
                        best = Some(i);
                    },
                    Some(b) => {
                        if row.effective_date >= self.rows[b].effective_date {
                            best = Some(i);
                        }
                    },
                }
            }
            i = i + 1;
        }
        proof {
            assert(s.take(n as int) =~= s);
        }
        match best {
            Some(b) => Some(self.rows[b].clone()),
            None => None,
        }
    }
}

} // verus!
