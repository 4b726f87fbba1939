//! Inbound submissions and queries, and the normalization of a trade
//! submission into a full record.

use vstd::prelude::*;
use crate::clock::{datetime_string_of, now_datetime, timestamp_to_datetime_string};
use crate::money::{
    compute_execution_fee, compute_transaction_fee, execution_fee_of, transaction_fee_of,
    MONEY_MAX,
};
use crate::trade::Trade;

verus! {

/// A trade submission. Monetary fields are in milli-units; absent optional
/// fields default to zero on normalization.
pub struct TradeForm {
    pub user_id: String,
    pub wallet_id: String,
    pub amount: u64,
    pub chain: String,
    pub trade_type: String,
    pub asset: String,
    pub before_price: Option<u64>,
    pub execution_price: Option<u64>,
    pub final_price: Option<u64>,
    pub traded_amount: Option<u64>,
    pub timestamp: Option<i64>,
}

/// An analytics query: a required user and date range, optionally narrowed
/// by asset or trade type.
pub struct TradeQuery {
    pub start_date: String,
    pub end_date: String,
    pub trader_id: String,
    pub asset: Option<String>,
    pub trade_type: Option<String>,
}

/// A user registration submission.
pub struct UserForm {
    pub name: String,
    pub email: String,
    pub password: String,
}

/// A login submission.
pub struct LoginForm {
    pub email: String,
    pub password: String,
}

impl TradeQuery {
    /// Whether the three required parameters are present. A query failing
    /// this is rejected before it reaches the engine.
    pub fn has_required(&self) -> (r: bool)
        ensures
            r == (self.start_date@.len() > 0 && self.end_date@.len() > 0 && self.trader_id@.len()
                > 0),
    {
        !self.start_date.as_str().is_empty() && !self.end_date.as_str().is_empty()
            && !self.trader_id.as_str().is_empty()
    }
}

/// An optional milli-unit amount, defaulted to zero.
pub open spec fn or_zero(o: Option<u64>) -> u64 {
    match o {
        Some(v) => v,
        None => 0,
    }
}

/// Whether an optional milli-unit amount is within the admitted range.
pub open spec fn opt_in_range(o: Option<u64>) -> bool {
    match o {
        Some(v) => v <= MONEY_MAX,
        None => true,
    }
}

/// Normalize a submission into a full record: absent optional prices and
/// amounts become zero, both fees are derived from the execution price and
/// traded amount, the identifier is left empty pending assignment, and the
/// creation time comes from the submitted epoch timestamp when there is one,
/// else from the clock.
pub fn fill_optional_fields(trade: &TradeForm) -> (r: Trade)
    requires
        trade.amount <= MONEY_MAX,
        opt_in_range(trade.before_price),
        opt_in_range(trade.execution_price),
        opt_in_range(trade.final_price),
        opt_in_range(trade.traded_amount),
        (trade.timestamp matches Some(t) ==> 0 <= t <= 253_402_300_799),
    ensures
        r.user_id == trade.user_id,
        r.wallet_id == trade.wallet_id,
        r.amount == trade.amount,
        r.chain == trade.chain,
        r.trade_type == trade.trade_type,
        r.asset == trade.asset,
        r.before_price == or_zero(trade.before_price),
        r.execution_price == or_zero(trade.execution_price),
        r.final_price == or_zero(trade.final_price),
        r.traded_amount == or_zero(trade.traded_amount),
        r.execution_fee == execution_fee_of(
            or_zero(trade.execution_price) as int,
            or_zero(trade.traded_amount) as int,
        ),
        r.transaction_fee == transaction_fee_of(or_zero(trade.execution_price) as int),
        r.id@ == Seq::<char>::empty(),
        (trade.timestamp matches Some(t) ==> r.created_at@ == datetime_string_of(t as int)),
        trade.timestamp is None ==> r.created_at@.len() >= 19,
        r.updated_at@.len() >= 19,
        r.fields_wf(),
{
    let before_price = match trade.before_price {
        Some(v) => v,
        None => 0,
    };
    let execution_price = match trade.execution_price {
        Some(v) => v,
        None => 0,
    };
    let final_price = match trade.final_price {
        Some(v) => v,
        None => 0,
    };
    let traded_amount = match trade.traded_amount {
        Some(v) => v,
        None => 0,
    };
    let created_at = match trade.timestamp {
        Some(t) => timestamp_to_datetime_string(t),
        None => now_datetime(),
    };
    Trade {
        id: String::new(),
        user_id: trade.user_id.clone(),
        wallet_id: trade.wallet_id.clone(),
        amount: trade.amount,
        chain: trade.chain.clone(),
        trade_type: trade.trade_type.clone(),
        asset: trade.asset.clone(),
        before_price: before_price,
        execution_price: execution_price,
        final_price: final_price,
        traded_amount: traded_amount,
        execution_fee: compute_execution_fee(execution_price, traded_amount),
        transaction_fee: compute_transaction_fee(execution_price),
        created_at: created_at,
        updated_at: now_datetime(),
    }
}

} // verus!
