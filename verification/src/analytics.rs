//! Analytics over the trade ledger: a shared filter stage and three
//! reductions — daily profit/loss, cumulative fees, and slippage.

use vstd::prelude::*;
use crate::ledger::Ledger;
use crate::money::{round_micro, round_milli, round_micro_to_units, round_milli_to_units};
use crate::text::{date_of, in_date_range, str_eq, str_lex_le, date_of_str};
use crate::trade::{
    CumulativeFeesResponse, DailyProfitLoss, SlippageByTrader, Trade, PCT_ABS, PNL_ABS, SLIP_ABS,
};

verus! {

/// The optional narrowing dimension: an exact match on the asset, or —
/// only when no asset is asked for — on the trade type.
pub open spec fn dim_matches(
    t: Trade,
    asset: Option<Seq<char>>,
    tradetype: Option<Seq<char>>,
) -> bool {
    match asset {
        Some(a) => t.asset@ == a,
        None => match tradetype {
            Some(w) => t.trade_type@ == w,
            None => true,
        },
    }
}

/// Whether a trade belongs to the queried user, falls in the inclusive date
/// range, and matches the narrowing dimension.
pub open spec fn selected(
    t: Trade,
    user: Seq<char>,
    start: Seq<char>,
    end: Seq<char>,
    asset: Option<Seq<char>>,
    tradetype: Option<Seq<char>>,
) -> bool {
    &&& t.user_id@ == user
    &&& in_date_range(t.created_at@, start, end)
    &&& dim_matches(t, asset, tradetype)
}

/// The subsequence of trades that the query selects, in storage order.
pub open spec fn select(
    s: Seq<Trade>,
    user: Seq<char>,
    start: Seq<char>,
    end: Seq<char>,
    asset: Option<Seq<char>>,
    tradetype: Option<Seq<char>>,
) -> Seq<Trade>
    decreases s.len(),
{
    if s.len() == 0 {
        Seq::empty()
    } else {
        let rest = select(s.drop_last(), user, start, end, asset, tradetype);
        if selected(s.last(), user, start, end, asset, tradetype) {
            rest.push(s.last())
        } else {
            rest
        }
    }
}

pub open spec fn opt_str_view(o: Option<String>) -> Option<Seq<char>> {
    match o {
        Some(s) => Some(s@),
        None => None,
    }
}

pub open spec fn opt_ref_view(o: Option<&String>) -> Option<Seq<char>> {
    match o {
        Some(s) => Some(s@),
        None => None,
    }
}

/// Capacity bounds hold of every trade of the sequence.
pub open spec fn all_fields_wf(s: Seq<Trade>) -> bool {
    forall|i: int| 0 <= i < s.len() ==> (#[trigger] s[i]).fields_wf()
}

/// A selection never holds more trades than the store it came from.
pub proof fn lemma_select_len(
    s: Seq<Trade>,
    user: Seq<char>,
    start: Seq<char>,
    end: Seq<char>,
    asset: Option<Seq<char>>,
    tradetype: Option<Seq<char>>,
)
    ensures
        select(s, user, start, end, asset, tradetype).len() <= s.len(),
    decreases s.len(),
{
    if s.len() > 0 {
        lemma_select_len(s.drop_last(), user, start, end, asset, tradetype);
    }
}

/// A selection out of a store of well-formed trades is itself well-formed.
pub proof fn lemma_select_fields_wf(
    s: Seq<Trade>,
    user: Seq<char>,
    start: Seq<char>,
    end: Seq<char>,
    asset: Option<Seq<char>>,
    tradetype: Option<Seq<char>>,
)
    requires
        all_fields_wf(s),
    ensures
        all_fields_wf(select(s, user, start, end, asset, tradetype)),
    decreases s.len(),
{
    if s.len() > 0 {
        assert(all_fields_wf(s.drop_last()));
        lemma_select_fields_wf(s.drop_last(), user, start, end, asset, tradetype);
    }
}

/// Materialize the selection of a query, in storage order.
fn select_trades(
    ledger: &Ledger,
    user_id: &str,
    start: &str,
    end: &str,
    asset: Option<&String>,
    tradetype: Option<&String>,
) -> (r: Vec<Trade>)
    ensures
        r@ == select(ledger@, user_id@, start@, end@, opt_ref_view(asset), opt_ref_view(tradetype)),
{
    let ghost ga = opt_ref_view(asset);
    let ghost gt = opt_ref_view(tradetype);
    let all = ledger.records();
    let n = all.len();
    let mut out: Vec<Trade> = Vec::new();
    proof {
        assert(ledger@.subrange(0, 0) =~= Seq::<Trade>::empty());
    }
    for i in 0..n
        invariant
            n == all@.len(),
            all@ == ledger@,
            out@ == select(ledger@.subrange(0, i as int), user_id@, start@, end@, ga, gt),
            ga == opt_ref_view(asset),
            gt == opt_ref_view(tradetype),
    {
        let t = &all[i];
        let mut keep = str_eq(t.user_id.as_str(), user_id) && str_lex_le(
            start,
            t.created_at.as_str(),
        ) && str_lex_le(t.created_at.as_str(), end);
        match asset {
            Some(a) => {
                keep = keep && str_eq(t.asset.as_str(), a.as_str());
            },
            None => {
                match tradetype {
                    Some(w) => {
                        keep = keep && str_eq(t.trade_type.as_str(), w.as_str());
                    },
                    None => {},
                }
            },
        }
        proof {
            let pre = ledger@.subrange(0, i as int);
            let cur = ledger@.subrange(0, i + 1);
            assert(cur.drop_last() =~= pre);
            assert(cur.last() == ledger@[i as int]);
            assert(keep == selected(ledger@[i as int], user_id@, start@, end@, ga, gt));
        }
        if keep {
            out.push(t.duplicate());
        }
    }
    proof {
        assert(ledger@.subrange(0, n as int) =~= ledger@);
    }
    out
}

/// Sum of both fees over a trade sequence, in milli-units.
pub open spec fn sum_fees(s: Seq<Trade>) -> int
    decreases s.len(),
{
    if s.len() == 0 {
        0
    } else {
        sum_fees(s.drop_last()) + s.last().execution_fee + s.last().transaction_fee
    }
}

/// Sum of net profit/loss over a trade sequence, in micro-units.
pub open spec fn sum_pnl(s: Seq<Trade>) -> int
    decreases s.len(),
{
    if s.len() == 0 {
        0
    } else {
        sum_pnl(s.drop_last()) + s.last().pnl_micro()
    }
}

/// Sum, in micro-units, of the strictly positive per-trade results on the
/// given calendar date.
pub open spec fn sum_profit_on(s: Seq<Trade>, d: Seq<char>) -> int
    decreases s.len(),
{
    if s.len() == 0 {
        0
    } else {
        let rest = sum_profit_on(s.drop_last(), d);
        if date_of(s.last().created_at@) == d && s.last().pnl_micro() > 0 {
            rest + s.last().pnl_micro()
        } else {
            rest
        }
    }
}

/// Sum, in micro-units, of the zero-or-negative per-trade results on the
/// given calendar date.
pub open spec fn sum_loss_on(s: Seq<Trade>, d: Seq<char>) -> int
    decreases s.len(),
{
    if s.len() == 0 {
        0
    } else {
        let rest = sum_loss_on(s.drop_last(), d);
        if date_of(s.last().created_at@) == d && s.last().pnl_micro() <= 0 {
            rest + s.last().pnl_micro()
        } else {
            rest
        }
    }
}

/// The distinct calendar dates of a trade sequence, in order of first
/// appearance.
pub open spec fn dates_of(s: Seq<Trade>) -> Seq<Seq<char>>
    decreases s.len(),
{
    if s.len() == 0 {
        Seq::empty()
    } else {
        let rest = dates_of(s.drop_last());
        let d = date_of(s.last().created_at@);
        if rest.contains(d) {
            rest
        } else {
            rest.push(d)
        }
    }
}

pub open spec fn views_of(s: Seq<String>) -> Seq<Seq<char>> {
    s.map_values(|x: String| x@)
}

/// Sum of per-trade slippage over a trade sequence, in milli-units.
pub open spec fn sum_slippage(s: Seq<Trade>) -> int
    decreases s.len(),
{
    if s.len() == 0 {
        0
    } else {
        sum_slippage(s.drop_last()) + s.last().slippage_milli()
    }
}

/// Sum of per-trade slippage cost over a trade sequence, in milli-percent.
pub open spec fn sum_slippage_pct(s: Seq<Trade>) -> int
    decreases s.len(),
{
    if s.len() == 0 {
        0
    } else {
        sum_slippage_pct(s.drop_last()) + s.last().slippage_pct_milli()
    }
}

/// The per-day profit and loss totals of `s`, summed across the dates `ds`.
pub open spec fn sum_daily(s: Seq<Trade>, ds: Seq<Seq<char>>) -> int
    decreases ds.len(),
{
    if ds.len() == 0 {
        0
    } else {
        sum_daily(s, ds.drop_last()) + sum_profit_on(s, ds.last()) + sum_loss_on(s, ds.last())
    }
}

/// How often the date `d` occurs in `ds`.
pub open spec fn count_occ(ds: Seq<Seq<char>>, d: Seq<char>) -> int
    decreases ds.len(),
{
    if ds.len() == 0 {
        0
    } else {
        count_occ(ds.drop_last(), d) + if ds.last() == d {
            1int
        } else {
            0int
        }
    }
}

proof fn lemma_sum_on_push(s: Seq<Trade>, t: Trade, d: Seq<char>)
    ensures
        sum_profit_on(s.push(t), d) == sum_profit_on(s, d) + if date_of(t.created_at@) == d
            && t.pnl_micro() > 0 {
            t.pnl_micro()
        } else {
            0int
        },
        sum_loss_on(s.push(t), d) == sum_loss_on(s, d) + if date_of(t.created_at@) == d
            && t.pnl_micro() <= 0 {
            t.pnl_micro()
        } else {
            0int
        },
{
    assert(s.push(t).drop_last() =~= s);
}

proof fn lemma_sum_daily_push(s: Seq<Trade>, t: Trade, ds: Seq<Seq<char>>)
    ensures
        sum_daily(s.push(t), ds) == sum_daily(s, ds) + count_occ(ds, date_of(t.created_at@))
            * t.pnl_micro(),
    decreases ds.len(),
{
    let d = date_of(t.created_at@);
    if ds.len() == 0 {
        assert(count_occ(ds, d) * t.pnl_micro() == 0) by (nonlinear_arith)
            requires
                count_occ(ds, d) == 0,
        ;
    } else {
        lemma_sum_daily_push(s, t, ds.drop_last());
        lemma_sum_on_push(s, t, ds.last());
        assert((count_occ(ds.drop_last(), d) + 1) * t.pnl_micro() == count_occ(ds.drop_last(), d)
            * t.pnl_micro() + t.pnl_micro()) by (nonlinear_arith);
    }
}

proof fn lemma_dates_of_count(s: Seq<Trade>, d: Seq<char>)
    ensures
        count_occ(dates_of(s), d) == if dates_of(s).contains(d) {
            1int
        } else {
            0int
        },
    decreases s.len(),
{
    if s.len() > 0 {
        let s0 = s.drop_last();
        let d2 = date_of(s.last().created_at@);
        let rest = dates_of(s0);
        lemma_dates_of_count(s0, d);
        if rest.contains(d2) {
        } else {
            assert(rest.push(d2).last() == d2);
            assert(rest.push(d2).drop_last() =~= rest);
            if rest.push(d2).contains(d) {
                let i = choose|i: int| 0 <= i < rest.push(d2).len() && rest.push(d2)[i] == d;
                if i < rest.len() {
                    assert(rest[i] == d);
                }
            }
            if rest.contains(d) {
                let i = choose|i: int| 0 <= i < rest.len() && rest[i] == d;
                assert(rest.push(d2)[i] == d);
            }
        }
    }
}

/// A date is among a sequence's distinct dates exactly when some trade of
/// the sequence bears it.
pub proof fn lemma_dates_of_complete(s: Seq<Trade>, d: Seq<char>)
    ensures
        dates_of(s).contains(d) <==> exists|i: int|
            0 <= i < s.len() && date_of((#[trigger] s[i]).created_at@) == d,
    decreases s.len(),
{
    if s.len() > 0 {
        let s0 = s.drop_last();
        let d2 = date_of(s.last().created_at@);
        let rest = dates_of(s0);
        lemma_dates_of_complete(s0, d);
        if rest.contains(d2) {
            if d == d2 {
                let i = choose|i: int|
                    0 <= i < s0.len() && date_of(s0[i].created_at@) == d;
                assert(s[i] == s0[i]);
            }
            if exists|i: int| 0 <= i < s.len() && date_of((#[trigger] s[i]).created_at@) == d {
                let i = choose|i: int|
                    0 <= i < s.len() && date_of((#[trigger] s[i]).created_at@) == d;
                if i < s0.len() {
                    assert(s0[i] == s[i]);
                }
            }
        } else {
            assert(rest.push(d2).last() == d2);
            assert(rest.push(d2).drop_last() =~= rest);
            if rest.push(d2).contains(d) {
                let i = choose|i: int| 0 <= i < rest.push(d2).len() && rest.push(d2)[i] == d;
                if i < rest.len() {
                    assert(rest[i] == d);
                    let j = choose|j: int|
                        0 <= j < s0.len() && date_of(s0[j].created_at@) == d;
                    assert(s[j] == s0[j]);
                } else {
                    assert(date_of(s[s.len() - 1].created_at@) == d);
                }
            }
            if exists|i: int| 0 <= i < s.len() && date_of((#[trigger] s[i]).created_at@) == d {
                let i = choose|i: int|
                    0 <= i < s.len() && date_of((#[trigger] s[i]).created_at@) == d;
                if i < s0.len() {
                    assert(s0[i] == s[i]);
                    assert(rest.contains(d));
                    let k = choose|k: int| 0 <= k < rest.len() && rest[k] == d;
                    assert(rest.push(d2)[k] == d);
                } else {
                    assert(rest.push(d2)[rest.len() as int] == d2);
                }
            }
        }
    }
}

proof fn lemma_sum_on_absent(s: Seq<Trade>, d: Seq<char>)
    requires
        forall|i: int| 0 <= i < s.len() ==> date_of((#[trigger] s[i]).created_at@) != d,
    ensures
        sum_profit_on(s, d) == 0,
        sum_loss_on(s, d) == 0,
    decreases s.len(),
{
    if s.len() > 0 {
        assert(forall|i: int|
            0 <= i < s.drop_last().len() ==> date_of(
                (#[trigger] s.drop_last()[i]).created_at@,
            ) != d);
        lemma_sum_on_absent(s.drop_last(), d);
    }
}

/// Law: over any trade sequence, the per-day profit and loss totals, summed
/// across the distinct calendar dates, reconcile exactly with the sum of
/// every trade's net result.
pub proof fn lemma_profit_loss_reconciles(s: Seq<Trade>)
    ensures
        sum_daily(s, dates_of(s)) == sum_pnl(s),
    decreases s.len(),
{
    if s.len() > 0 {
        let s0 = s.drop_last();
        let t = s.last();
        let d = date_of(t.created_at@);
        let rest = dates_of(s0);
        lemma_profit_loss_reconciles(s0);
        assert(s0.push(t) =~= s);
        if rest.contains(d) {
            lemma_sum_daily_push(s0, t, rest);
            lemma_dates_of_count(s0, d);
            assert(1 * t.pnl_micro() == t.pnl_micro()) by (nonlinear_arith);
        } else {
            assert(dates_of(s) == rest.push(d));
            assert(rest.push(d).drop_last() =~= rest);
            assert(rest.push(d).last() == d);
            lemma_sum_daily_push(s0, t, rest);
            lemma_dates_of_count(s0, d);
            assert(0 * t.pnl_micro() == 0) by (nonlinear_arith);
            lemma_dates_of_complete(s0, d);
            lemma_sum_on_absent(s0, d);
            lemma_sum_on_push(s0, t, d);
        }
    }
}

/// The trades a query would select were its asset dimension inverted: those
/// of the user and date range whose asset is *not* `v`.
pub open spec fn select_other_assets(
    s: Seq<Trade>,
    user: Seq<char>,
    start: Seq<char>,
    end: Seq<char>,
    v: Seq<char>,
) -> Seq<Trade>
    decreases s.len(),
{
    if s.len() == 0 {
        Seq::empty()
    } else {
        let rest = select_other_assets(s.drop_last(), user, start, end, v);
        if selected(s.last(), user, start, end, None, None) && s.last().asset@ != v {
            rest.push(s.last())
        } else {
            rest
        }
    }
}

/// The trades a query would select were its trade-type dimension inverted.
pub open spec fn select_other_trade_types(
    s: Seq<Trade>,
    user: Seq<char>,
    start: Seq<char>,
    end: Seq<char>,
    v: Seq<char>,
) -> Seq<Trade>
    decreases s.len(),
{
    if s.len() == 0 {
        Seq::empty()
    } else {
        let rest = select_other_trade_types(s.drop_last(), user, start, end, v);
        if selected(s.last(), user, start, end, None, None) && s.last().trade_type@ != v {
            rest.push(s.last())
        } else {
            rest
        }
    }
}

/// Law: narrowing a query by one asset splits the unfiltered profit/loss
/// total in two — the total over that asset's trades plus the total over
/// the remaining trades of the same user and range.
pub proof fn lemma_asset_dimension_splits(
    s: Seq<Trade>,
    user: Seq<char>,
    start: Seq<char>,
    end: Seq<char>,
    v: Seq<char>,
)
    ensures
        sum_pnl(select(s, user, start, end, None, None)) == sum_pnl(
            select(s, user, start, end, Some(v), None),
        ) + sum_pnl(select_other_assets(s, user, start, end, v)),
    decreases s.len(),
{
    if s.len() > 0 {
        lemma_asset_dimension_splits(s.drop_last(), user, start, end, v);
        let t = s.last();
        assert(select(s.drop_last(), user, start, end, None, None).push(t).drop_last()
            =~= select(s.drop_last(), user, start, end, None, None));
        assert(select(s.drop_last(), user, start, end, Some(v), None).push(t).drop_last()
            =~= select(s.drop_last(), user, start, end, Some(v), None));
        assert(select_other_assets(s.drop_last(), user, start, end, v).push(t).drop_last()
            =~= select_other_assets(s.drop_last(), user, start, end, v));
    }
}

/// Law: narrowing a query by one trade type splits the unfiltered
/// profit/loss total the same way.
pub proof fn lemma_trade_type_dimension_splits(
    s: Seq<Trade>,
    user: Seq<char>,
    start: Seq<char>,
    end: Seq<char>,
    v: Seq<char>,
)
    ensures
        sum_pnl(select(s, user, start, end, None, None)) == sum_pnl(
            select(s, user, start, end, None, Some(v)),
        ) + sum_pnl(select_other_trade_types(s, user, start, end, v)),
    decreases s.len(),
{
    if s.len() > 0 {
        lemma_trade_type_dimension_splits(s.drop_last(), user, start, end, v);
        let t = s.last();
        assert(select(s.drop_last(), user, start, end, None, None).push(t).drop_last()
            =~= select(s.drop_last(), user, start, end, None, None));
        assert(select(s.drop_last(), user, start, end, None, Some(v)).push(t).drop_last()
            =~= select(s.drop_last(), user, start, end, None, Some(v)));
        assert(select_other_trade_types(s.drop_last(), user, start, end, v).push(t).drop_last()
            =~= select_other_trade_types(s.drop_last(), user, start, end, v));
    }
}

/// Every trade of an asset-narrowed selection bears that asset, so the
/// selections of two different assets share no trade.
pub proof fn lemma_asset_selection_members(
    s: Seq<Trade>,
    user: Seq<char>,
    start: Seq<char>,
    end: Seq<char>,
    v: Seq<char>,
)
    ensures
        forall|i: int|
            0 <= i < select(s, user, start, end, Some(v), None).len() ==> (#[trigger] select(
                s,
                user,
                start,
                end,
                Some(v),
                None,
            )[i]).asset@ == v,
    decreases s.len(),
{
    if s.len() > 0 {
        lemma_asset_selection_members(s.drop_last(), user, start, end, v);
        let rest = select(s.drop_last(), user, start, end, Some(v), None);
        let sel = select(s, user, start, end, Some(v), None);
        assert forall|i: int| 0 <= i < sel.len() implies (#[trigger] sel[i]).asset@ == v by {
            if selected(s.last(), user, start, end, Some(v), None) {
                assert(sel == rest.push(s.last()));
                if i < rest.len() {
                    assert(sel[i] == rest[i]);
                } else {
                    assert(sel[i] == s.last());
                }
            } else {
                assert(sel == rest);
            }
        }
    }
}

/// Whether some element of `v` reads `s`.
fn vec_contains_str(v: &Vec<String>, s: &str) -> (r: bool)
    ensures
        r == views_of(v@).contains(s@),
{
    let n = v.len();
    for i in 0..n
        invariant
            n == v@.len(),
            forall|j: int| 0 <= j < i ==> v@[j]@ != s@,
    {
        if str_eq(v[i].as_str(), s) {
            proof {
                assert(views_of(v@)[i as int] == s@);
            }
            return true;
        }
    }
    proof {
        assert forall|j: int| 0 <= j < views_of(v@).len() implies views_of(v@)[j] != s@ by {
            assert(v@[j]@ != s@);
        }
    }
    false
}

impl Trade {
    /// The fees a user paid over the date range: the sum of execution and
    /// transaction fees across exactly the selected trades, rounded to whole
    /// units.
    pub fn cumulative_fees(
        ledger: &Ledger,
        start_date: String,
        end_date: String,
        user_id: String,
    ) -> (r: CumulativeFeesResponse)
        requires
            ledger.wf(),
        ensures
            r.trader_id == user_id,
            r.cumulative_fees == round_milli(
                sum_fees(select(ledger@, user_id@, start_date@, end_date@, None, None)),
            ),
    {
        let sel = select_trades(
            ledger,
            user_id.as_str(),
            start_date.as_str(),
            end_date.as_str(),
            None,
            None,
        );
        proof {
            lemma_select_fields_wf(ledger@, user_id@, start_date@, end_date@, None, None);
        }
        let n = sel.len();
        let mut fees: i128 = 0;
        proof {
            assert(sel@.subrange(0, 0) =~= Seq::<Trade>::empty());
        }
        for i in 0..n
            invariant
                n == sel@.len(),
                all_fields_wf(sel@),
                fees == sum_fees(sel@.subrange(0, i as int)),
                0 <= fees <= (i as int) * 8_000_000_000_000,
        {
            let t = &sel[i];
            proof {
                let pre = sel@.subrange(0, i as int);
                let cur = sel@.subrange(0, i + 1);
                assert(cur.drop_last() =~= pre);
                assert(cur.last() == sel@[i as int]);
            }
            fees = fees + (t.execution_fee as i128) + (t.transaction_fee as i128);
        }
        proof {
            assert(sel@.subrange(0, n as int) =~= sel@);
        }
        CumulativeFeesResponse { trader_id: user_id, cumulative_fees: round_milli_to_units(fees) }
    }

    /// Daily profit/loss over the date range, optionally narrowed to one
    /// asset or (only when no asset is given) one trade type. Each distinct
    /// calendar date of the selection, in order of first appearance, yields
    /// one record: the sums of the positive and of the non-positive
    /// per-trade results of that date, each rounded to whole units.
    pub fn profit_loss(
        ledger: &Ledger,
        start_date: String,
        end_date: String,
        user_id: String,
        asset: Option<String>,
        tradetype: Option<String>,
    ) -> (r: Vec<DailyProfitLoss>)
        requires
            ledger.wf(),
        ensures
            ({
                let sel = select(
                    ledger@,
                    user_id@,
                    start_date@,
                    end_date@,
                    opt_str_view(asset),
                    opt_str_view(tradetype),
                );
                let ds = dates_of(sel);
                &&& r@.len() == ds.len()
                &&& forall|k: int|
                    0 <= k < ds.len() ==> (#[trigger] r@[k]).date@ == ds[k] && r@[k].profit
                        == round_micro(sum_profit_on(sel, ds[k])) && r@[k].loss == round_micro(
                        sum_loss_on(sel, ds[k]),
                    )
            }),
    {
        let aref: Option<&String> = asset.as_ref();
        let tref: Option<&String> = tradetype.as_ref();
        proof {
            assert(opt_ref_view(aref) == opt_str_view(asset));
            assert(opt_ref_view(tref) == opt_str_view(tradetype));
        }
        let sel = select_trades(
            ledger,
            user_id.as_str(),
            start_date.as_str(),
            end_date.as_str(),
            aref,
            tref,
        );
        let ghost gsel = sel@;
        proof {
            lemma_select_fields_wf(
                ledger@,
                user_id@,
                start_date@,
                end_date@,
                opt_str_view(asset),
                opt_str_view(tradetype),
            );
        }
        let n = sel.len();
        let mut dates: Vec<String> = Vec::new();
        proof {
            assert(gsel.subrange(0, 0) =~= Seq::<Trade>::empty());
            assert(views_of(dates@) =~= dates_of(gsel.subrange(0, 0)));
        }
        for i in 0..n
            invariant
                n == gsel.len(),
                gsel == sel@,
                views_of(dates@) == dates_of(gsel.subrange(0, i as int)),
        {
            let d = date_of_str(sel[i].created_at.as_str());
            proof {
                let pre = gsel.subrange(0, i as int);
                let cur = gsel.subrange(0, i + 1);
                assert(cur.drop_last() =~= pre);
                assert(cur.last() == gsel[i as int]);
            }
            if !vec_contains_str(&dates, d.as_str()) {
                let ghost old_dates = dates@;
                dates.push(d);
                proof {
                    assert(views_of(dates@) =~= views_of(old_dates).push(
                        date_of(gsel[i as int].created_at@),
                    ));
                }
            }
        }
        proof {
            assert(gsel.subrange(0, n as int) =~= gsel);
        }
        let m = dates.len();
        let mut out: Vec<DailyProfitLoss> = Vec::new();
        for k in 0..m
            invariant
                m == dates@.len(),
                n == gsel.len(),
                gsel == sel@,
                all_fields_wf(gsel),
                views_of(dates@) == dates_of(gsel),
                out@.len() == k,
                forall|q: int|
                    0 <= q < k ==> (#[trigger] out@[q]).date@ == dates_of(gsel)[q] && out@[q].profit
                        == round_micro(sum_profit_on(gsel, dates_of(gsel)[q])) && out@[q].loss
                        == round_micro(sum_loss_on(gsel, dates_of(gsel)[q])),
        {
            let d = &dates[k];
            proof {
                assert(views_of(dates@)[k as int] == dates@[k as int]@);
            }
            let mut profit: i128 = 0;
            let mut loss: i128 = 0;
            proof {
                assert(gsel.subrange(0, 0) =~= Seq::<Trade>::empty());
            }
            for j in 0..n
                invariant
                    n == gsel.len(),
                    gsel == sel@,
                    all_fields_wf(gsel),
                    d@ == dates_of(gsel)[k as int],
                    0 <= k < dates_of(gsel).len(),
                    profit == sum_profit_on(gsel.subrange(0, j as int), d@),
                    loss == sum_loss_on(gsel.subrange(0, j as int), d@),
                    0 <= profit <= (j as int) * (PNL_ABS as int),
                    -((j as int) * (PNL_ABS as int)) <= loss <= 0,
            {
                let t = &sel[j];
                proof {
                    assert(gsel[j as int].fields_wf());
                    let pre = gsel.subrange(0, j as int);
                    let cur = gsel.subrange(0, j + 1);
                    assert(cur.drop_last() =~= pre);
                    assert(cur.last() == gsel[j as int]);
                }
                let td = date_of_str(t.created_at.as_str());
                if str_eq(td.as_str(), d.as_str()) {
                    let pnl = t.calculate_trade_pnl();
                    if pnl > 0 {
                        profit = profit + (pnl as i128);
                    } else {
                        loss = loss + (pnl as i128);
                    }
                }
            }
            proof {
                assert(gsel.subrange(0, n as int) =~= gsel);
            }
            out.push(
                DailyProfitLoss {
                    date: d.clone(),
                    profit: round_micro_to_units(profit),
                    loss: round_micro_to_units(loss),
                },
            );
        }
        out
    }

    /// Slippage statistics for a user over the date range: the rounded sums
    /// of per-trade slippage and slippage cost, and their rounded averages —
    /// the floor quotient of each total by the trade count. An empty
    /// selection yields all-zero statistics rather than an undefined value.
    pub fn get_slippage_bt_dates(
        ledger: &Ledger,
        start_date: String,
        end_date: String,
        user_id: String,
    ) -> (r: SlippageByTrader)
        requires
            ledger.wf(),
        ensures
            ({
                let sel = select(ledger@, user_id@, start_date@, end_date@, None, None);
                &&& r.trader_id == user_id
                &&& r.total_slippage == round_milli(sum_slippage(sel))
                &&& r.total_slippage_cost_percent == round_milli(sum_slippage_pct(sel))
                &&& sel.len() == 0 ==> r.average_slippage == 0 && r.average_slippage_cost_percent
                    == 0
                &&& sel.len() > 0 ==> r.average_slippage == round_milli(
                    sum_slippage(sel) / sel.len() as int,
                ) && r.average_slippage_cost_percent == round_milli(
                    sum_slippage_pct(sel) / sel.len() as int,
                )
            }),
    {
        let sel = select_trades(
            ledger,
            user_id.as_str(),
            start_date.as_str(),
            end_date.as_str(),
            None,
            None,
        );
        let ghost gsel = sel@;
        proof {
            lemma_select_fields_wf(ledger@, user_id@, start_date@, end_date@, None, None);
            lemma_select_len(ledger@, user_id@, start_date@, end_date@, None, None);
        }
        let n = sel.len();
        let mut total_slippage: i128 = 0;
        let mut total_pct: i128 = 0;
        proof {
            assert(gsel.subrange(0, 0) =~= Seq::<Trade>::empty());
        }
        for i in 0..n
            invariant
                n == gsel.len(),
                gsel == sel@,
                gsel.len() <= 1_000_000_000_000,
                all_fields_wf(gsel),
                total_slippage == sum_slippage(gsel.subrange(0, i as int)),
                total_pct == sum_slippage_pct(gsel.subrange(0, i as int)),
                -((i as int) * SLIP_ABS) <= total_slippage <= (i as int) * SLIP_ABS,
                -((i as int) * PCT_ABS) <= total_pct <= (i as int) * PCT_ABS,
        {
            proof {
                assert(gsel[i as int].fields_wf());
                let pre = gsel.subrange(0, i as int);
                let cur = gsel.subrange(0, i + 1);
                assert(cur.drop_last() =~= pre);
                assert(cur.last() == gsel[i as int]);
            }
            let (slippage, slippage_cost_percent) = sel[i].calculate_slippage();
            total_slippage = total_slippage + slippage;
            total_pct = total_pct + slippage_cost_percent;
        }
        proof {
            assert(gsel.subrange(0, n as int) =~= gsel);
        }
        let (average_slippage, average_pct): (i128, i128) = if n == 0 {
            (0, 0)
        } else {
            let a = match total_slippage.checked_div_euclid(n as i128) {
                Some(q) => q,
                None => 0,
            };
            let b = match total_pct.checked_div_euclid(n as i128) {
                Some(q) => q,
                None => 0,
            };
            proof {
                let len: int = gsel.len() as int;
                assert(-((1_000_000_000_000 as int) * PCT_ABS) <= sum_slippage_pct(gsel) / len
                    <= (1_000_000_000_000 as int) * PCT_ABS) by (nonlinear_arith)
                    requires
                        1 <= len,
                        -(len * PCT_ABS) <= sum_slippage_pct(gsel) <= len * PCT_ABS,
                        len <= 1_000_000_000_000,
                ;
                assert(-((1_000_000_000_000 as int) * SLIP_ABS) <= sum_slippage(gsel) / len
                    <= (1_000_000_000_000 as int) * SLIP_ABS) by (nonlinear_arith)
                    requires
                        1 <= len,
                        -(len * SLIP_ABS) <= sum_slippage(gsel) <= len * SLIP_ABS,
                        len <= 1_000_000_000_000,
                ;
            }
            (a, b)
        };
        SlippageByTrader {
            trader_id: user_id,
            total_slippage: round_milli_to_units(total_slippage),
            average_slippage: round_milli_to_units(average_slippage),
            total_slippage_cost_percent: round_milli_to_units(total_pct),
            average_slippage_cost_percent: round_milli_to_units(average_pct),
        }
    }
}

} // verus!
