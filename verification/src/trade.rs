//! The trade entity, its domain enumerations, and per-trade derived figures.

use vstd::prelude::*;
use crate::money::{FEE_MAX, MONEY_MAX};
use crate::text::str_eq;

verus! {

/// The closed set of settlement chains.
pub open spec fn valid_chain(s: Seq<char>) -> bool {
    ||| s == "Ethereum"@
    ||| s == "Arbitrum"@
    ||| s == "Optimism"@
    ||| s == "Polygon"@
}

/// The closed set of trade types.
pub open spec fn valid_trade_type(s: Seq<char>) -> bool {
    ||| s == "LimitBuy"@
    ||| s == "LimitSell"@
    ||| s == "MarketBuy"@
    ||| s == "MarketSell"@
}

/// The closed set of traded assets.
pub open spec fn valid_asset(s: Seq<char>) -> bool {
    ||| s == "BTC"@
    ||| s == "ETH"@
    ||| s == "XRP"@
    ||| s == "XLM"@
    ||| s == "DOGE"@
}

pub open spec fn is_buy(s: Seq<char>) -> bool {
    s == "LimitBuy"@ || s == "MarketBuy"@
}

pub open spec fn is_sell(s: Seq<char>) -> bool {
    s == "LimitSell"@ || s == "MarketSell"@
}

pub struct Chain;

pub struct TradeType;

pub struct Asset;

impl Chain {
    /// Exact, case-sensitive membership in the chain enumeration.
    pub fn is_valid(chain: &str) -> (r: bool)
        ensures
            r == valid_chain(chain@),
    {
        str_eq(chain, "Ethereum") || str_eq(chain, "Arbitrum") || str_eq(chain, "Optimism")
            || str_eq(chain, "Polygon")
    }
}

impl TradeType {
    /// Exact, case-sensitive membership in the trade-type enumeration.
    pub fn is_valid(tradetype: &str) -> (r: bool)
        ensures
            r == valid_trade_type(tradetype@),
    {
        str_eq(tradetype, "LimitBuy") || str_eq(tradetype, "LimitSell") || str_eq(
            tradetype,
            "MarketBuy",
        ) || str_eq(tradetype, "MarketSell")
    }
}

impl Asset {
    /// Exact, case-sensitive membership in the asset enumeration.
    pub fn is_valid(asset: &str) -> (r: bool)
        ensures
            r == valid_asset(asset@),
    {
        str_eq(asset, "BTC") || str_eq(asset, "ETH") || str_eq(asset, "XRP") || str_eq(
            asset,
            "XLM",
        ) || str_eq(asset, "DOGE")
    }
}

/// A single executed trade. Monetary fields are in milli-units.
pub struct Trade {
    pub id: String,
    pub user_id: String,
    pub wallet_id: String,
    pub amount: u64,
    pub chain: String,
    pub trade_type: String,
    pub asset: String,
    pub before_price: u64,
    pub execution_price: u64,
    pub final_price: u64,
    pub traded_amount: u64,
    pub execution_fee: u64,
    pub transaction_fee: u64,
    pub created_at: String,
    pub updated_at: String,
}

/// A day's aggregated result: profit and loss in whole units.
pub struct DailyProfitLoss {
    pub date: String,
    pub profit: i128,
    pub loss: i128,
}

pub struct CumulativeFeesResponse {
    pub trader_id: String,
    pub cumulative_fees: i128,
}

pub struct DailyProfitLossByAsset {
    pub date: String,
    pub profit: i128,
    pub loss: i128,
    pub asset: String,
}

pub struct DailyProfitLossByTradeType {
    pub date: String,
    pub profit: i128,
    pub loss: i128,
    pub trade_type: String,
}

pub struct SlippageByTrader {
    pub trader_id: String,
    pub total_slippage: i128,
    pub average_slippage: i128,
    pub total_slippage_cost_percent: i128,
    pub average_slippage_cost_percent: i128,
}

/// Magnitude bound on the net profit or loss of one well-formed trade,
/// in micro-units.
pub const PNL_ABS: i64 = 2_000_000_000_000_000_000;

/// Magnitude bound on the slippage of one well-formed trade, in milli-units.
pub const SLIP_ABS: i128 = 2_000_000_000_000_000_000;

/// Magnitude bound on the slippage cost percentage of one well-formed trade,
/// in milli-percent.
pub const PCT_ABS: i128 = 200_000_000_000_000_000_000_000;

impl Trade {
    /// The representation's capacity bounds on the monetary fields.
    pub open spec fn fields_wf(self) -> bool {
        &&& self.amount <= MONEY_MAX
        &&& self.before_price <= MONEY_MAX
        &&& self.execution_price <= MONEY_MAX
        &&& self.final_price <= MONEY_MAX
        &&& self.traded_amount <= MONEY_MAX
        &&& self.execution_fee <= FEE_MAX
        &&& self.transaction_fee <= FEE_MAX
    }

    /// The enumerated fields hold values of their closed sets.
    pub open spec fn enums_valid(self) -> bool {
        &&& valid_chain(self.chain@)
        &&& valid_trade_type(self.trade_type@)
        &&& valid_asset(self.asset@)
    }

    /// The price difference a trade is judged against: buys against their own
    /// fill price, sells against the pre-trade reference price.
    pub open spec fn raw_pnl(self) -> int {
        if is_buy(self.trade_type@) {
            self.final_price - self.execution_price
        } else if is_sell(self.trade_type@) {
            self.final_price - self.before_price
        } else {
            0
        }
    }

    /// Net economic result of the trade in micro-units: the raw price
    /// difference times the traded amount, minus both fees.
    pub open spec fn pnl_micro(self) -> int {
        self.raw_pnl() * self.traded_amount - 1_000 * (
        self.execution_fee + self.transaction_fee)
    }

    /// Slippage in milli-units: the effective fill price (fees included)
    /// minus the pre-trade reference price; zero when no amount was traded.
    pub open spec fn slippage_milli(self) -> int {
        if self.traded_amount == 0 {
            0
        } else {
            (self.execution_price * self.traded_amount + 1_000 * (
            self.execution_fee + self.transaction_fee)) / (self.traded_amount as int)
                - self.before_price
        }
    }

    /// Slippage cost in milli-percent of the reference price; zero when no
    /// amount was traded or no reference price is known.
    pub open spec fn slippage_pct_milli(self) -> int {
        if self.traded_amount == 0 || self.before_price == 0 {
            0
        } else {
            (100_000 * self.slippage_milli()) / (self.before_price as int)
        }
    }

    /// An owned copy, equal to the original.
    pub fn duplicate(&self) -> (r: Trade)
        ensures
            r == *self,
    {
        Trade {
            id: self.id.clone(),
            user_id: self.user_id.clone(),
            wallet_id: self.wallet_id.clone(),
            amount: self.amount,
            chain: self.chain.clone(),
            trade_type: self.trade_type.clone(),
            asset: self.asset.clone(),
            before_price: self.before_price,
            execution_price: self.execution_price,
            final_price: self.final_price,
            traded_amount: self.traded_amount,
            execution_fee: self.execution_fee,
            transaction_fee: self.transaction_fee,
            created_at: self.created_at.clone(),
            updated_at: self.updated_at.clone(),
        }
    }

    /// Net profit or loss of this trade, in micro-units.
    pub fn calculate_trade_pnl(&self) -> (r: i64)
        requires
            self.fields_wf(),
        ensures
            r == self.pnl_micro(),
            -PNL_ABS <= r <= PNL_ABS,
    {
        let raw: i128 = if str_eq(self.trade_type.as_str(), "LimitBuy") || str_eq(
            self.trade_type.as_str(),
            "MarketBuy",
        ) {
            self.final_price as i128 - self.execution_price as i128
        } else if str_eq(self.trade_type.as_str(), "LimitSell") || str_eq(
            self.trade_type.as_str(),
            "MarketSell",
        ) {
            self.final_price as i128 - self.before_price as i128
        } else {
            0
        };
        proof {
            assert(-1_000_000_000_000_000_000 <= raw * (self.traded_amount as int)
                <= 1_000_000_000_000_000_000) by (nonlinear_arith)
                requires
                    -1_000_000_000 <= raw <= 1_000_000_000,
                    0 <= self.traded_amount <= 1_000_000_000,
            ;
        }
        let scaled: i128 = raw * (self.traded_amount as i128);
        let fees: i128 = 1_000 * (self.execution_fee as i128 + self.transaction_fee as i128);
        (scaled - fees) as i64
    }

    /// Slippage (milli-units) and slippage cost (milli-percent) of this
    /// trade, with the division-by-zero cases pinned to zero.
    pub fn calculate_slippage(&self) -> (r: (i128, i128))
        requires
            self.fields_wf(),
        ensures
            r.0 == self.slippage_milli(),
            r.1 == self.slippage_pct_milli(),
            -SLIP_ABS <= r.0 <= SLIP_ABS,
            -PCT_ABS <= r.1 <= PCT_ABS,
    {
        if self.traded_amount == 0 {
            return (0, 0);
        }
        proof {
            assert((self.execution_price as int) * (self.traded_amount as int)
                <= 1_000_000_000_000_000_000) by (nonlinear_arith)
                requires
                    0 <= self.execution_price <= 1_000_000_000,
                    0 <= self.traded_amount <= 1_000_000_000,
            ;
        }
        let total_cost: u128 = (self.execution_price as u128) * (self.traded_amount as u128);
        let total_fees: u128 = 1_000 * (self.execution_fee as u128 + self.transaction_fee as u128);
        let effective_price: u128 = (total_cost + total_fees) / (self.traded_amount as u128);
        proof {
            assert(effective_price <= total_cost + total_fees) by (nonlinear_arith)
                requires
                    self.traded_amount >= 1,
                    effective_price == ((total_cost as int) + (total_fees as int)) / (
                    self.traded_amount as int),
            ;
        }
        let slippage: i128 = effective_price as i128 - self.before_price as i128;
        if self.before_price == 0 {
            return (slippage, 0);
        }
        let pct: i128 = match (100_000 * slippage).checked_div_euclid(self.before_price as i128) {
            Some(q) => q,
            None => 0,
        };
        proof {
            let num: int = 100_000 * slippage;
            let d: int = self.before_price as int;
            assert(-PCT_ABS <= num / d <= PCT_ABS) by (nonlinear_arith)
                requires
                    -PCT_ABS <= num <= PCT_ABS,
                    1 <= d,
            ;
        }
        (slippage, pct)
    }
}

/// A member of any of the three enumerations is a non-empty string.
pub proof fn lemma_valid_enum_nonempty()
    ensures
        forall|s: Seq<char>| #[trigger] valid_chain(s) ==> s.len() > 0,
        forall|s: Seq<char>| #[trigger] valid_trade_type(s) ==> s.len() > 0,
        forall|s: Seq<char>| #[trigger] valid_asset(s) ==> s.len() > 0,
{
    reveal_strlit("Ethereum");
    reveal_strlit("Arbitrum");
    reveal_strlit("Optimism");
    reveal_strlit("Polygon");
    reveal_strlit("LimitBuy");
    reveal_strlit("LimitSell");
    reveal_strlit("MarketBuy");
    reveal_strlit("MarketSell");
    reveal_strlit("BTC");
    reveal_strlit("ETH");
    reveal_strlit("XRP");
    reveal_strlit("XLM");
    reveal_strlit("DOGE");
}

} // verus!
