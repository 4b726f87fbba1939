//! The trade ledger: an in-memory store with validated create, update and
//! delete, injected into each engine operation by its caller.

use vstd::prelude::*;
use vstd::multiset::Multiset;
use crate::idgen::new_uuid;
use crate::clock::now_datetime;
use crate::trade::{Asset, Chain, Trade, TradeType};
use crate::text::{lemma_lex_le_total, lemma_lex_le_trans, lex_le, str_eq, str_lex_le};

verus! {

/// Whether the records stand in descending identifier order.
pub open spec fn sorted_by_id_desc(s: Seq<Trade>) -> bool {
    forall|i: int, j: int| 0 <= i < j < s.len() ==> lex_le(s[j].id@, s[i].id@)
}

/// Capacity bound of the store.
pub const LEDGER_CAP: u64 = 1_000_000_000_000;

/// Whether some record of `s` carries the identifier `id`.
pub open spec fn contains_id(s: Seq<Trade>, id: Seq<char>) -> bool {
    exists|i: int| 0 <= i < s.len() && (#[trigger] s[i]).id@ == id
}

/// The record `t` stored under the identifier `id`.
pub open spec fn with_id(t: Trade, id: String) -> Trade {
    Trade { id: id, ..t }
}

/// The stored record `stored` after an update from `t` stamped at `ts`:
/// every mutable field is overwritten, while the identifier, the owner, the
/// wallet reference and the creation time are kept.
pub open spec fn updated_record(stored: Trade, t: Trade, ts: String) -> Trade {
    Trade {
        amount: t.amount,
        chain: t.chain,
        trade_type: t.trade_type,
        asset: t.asset,
        before_price: t.before_price,
        execution_price: t.execution_price,
        final_price: t.final_price,
        traded_amount: t.traded_amount,
        execution_fee: t.execution_fee,
        transaction_fee: t.transaction_fee,
        updated_at: ts,
        ..stored
    }
}

pub struct Ledger {
    trades: Vec<Trade>,
}

impl View for Ledger {
    type V = Seq<Trade>;

    closed spec fn view(&self) -> Seq<Trade> {
        self.trades@
    }
}

impl Ledger {
    /// Every stored record is within the representation bounds, carries valid
    /// enumerated fields, and identifiers are unique.
    pub open spec fn wf(self) -> bool {
        &&& self@.len() <= LEDGER_CAP
        &&& forall|i: int| 0 <= i < self@.len() ==> (#[trigger] self@[i]).fields_wf()
        &&& forall|i: int| 0 <= i < self@.len() ==> (#[trigger] self@[i]).enums_valid()
        &&& forall|i: int, j: int|
            0 <= i < j < self@.len() ==> self@[i].id@ != self@[j].id@
    }

    /// An empty ledger.
    pub fn new() -> (r: Ledger)
        ensures
            r@ == Seq::<Trade>::empty(),
            r.wf(),
    {
        Ledger { trades: Vec::new() }
    }

    pub fn len(&self) -> (r: usize)
        ensures
            r == self@.len(),
    {
        self.trades.len()
    }

    /// An index holding the identifier, if any record does.
    fn index_of(&self, id: &str) -> (r: Option<usize>)
        ensures
            match r {
                Some(i) => 0 <= i < self@.len() && self@[i as int].id@ == id@,
                None => !contains_id(self@, id@),
            },
    {
        let n = self.trades.len();
        for i in 0..n
            invariant
                n == self@.len(),
                forall|j: int| 0 <= j < i ==> (#[trigger] self@[j]).id@ != id@,
        {
            if str_eq(self.trades[i].id.as_str(), id) {
                return Some(i);
            }
        }
        None
    }

    /// The stored record with the given identifier, if present.
    pub fn find_by_id(&self, id: String) -> (r: Option<Trade>)
        ensures
            match r {
                Some(t) => contains_id(self@, id@) && t.id@ == id@ && exists|i: int|
                    0 <= i < self@.len() && self@[i] == t,
                None => !contains_id(self@, id@),
            },
    {
        match self.index_of(id.as_str()) {
            Some(i) => Some(self.trades[i].duplicate()),
            None => None,
        }
    }

    /// The stored records in storage order, borrowed.
    pub(crate) fn records(&self) -> (r: &Vec<Trade>)
        ensures
            r@ == self@,
    {
        &self.trades
    }

    /// A copy of every stored record, in descending identifier order.
    pub fn list(&self) -> (r: Vec<Trade>)
        ensures
            r@.to_multiset() == self@.to_multiset(),
            sorted_by_id_desc(r@),
    {
        broadcast use vstd::seq_lib::group_to_multiset_ensures;

        let n = self.trades.len();
        let mut rest: Vec<Trade> = Vec::new();
        for i in 0..n
            invariant
                n == self@.len(),
                rest@ =~= self@.subrange(0, i as int),
        {
            rest.push(self.trades[i].duplicate());
        }
        proof {
            assert(rest@ =~= self@);
        }
        let mut out: Vec<Trade> = Vec::new();
        while rest.len() > 0
            invariant
                out@.to_multiset().add(rest@.to_multiset()) == self@.to_multiset(),
                sorted_by_id_desc(out@),
                forall|p: int, q: int|
                    0 <= p < out@.len() && 0 <= q < rest@.len() ==> lex_le(
                        rest@[q].id@,
                        out@[p].id@,
                    ),
            decreases rest@.len(),
        {
            let ghost rest0 = rest@;
            let ghost out0 = out@;
            let mut m: usize = 0;
            let mut j: usize = 1;
            proof {
                lemma_lex_le_total(rest@[0].id@, rest@[0].id@);
            }
            while j < rest.len()
                invariant
                    rest@ == rest0,
                    rest@.len() > 0,
                    m < j <= rest@.len(),
                    forall|k: int| 0 <= k < j ==> lex_le(rest@[k].id@, rest@[m as int].id@),
                decreases rest@.len() - j,
            {
                if !str_lex_le(rest[j].id.as_str(), rest[m].id.as_str()) {
                    proof {
                        lemma_lex_le_total(rest@[j as int].id@, rest@[m as int].id@);
                        assert forall|k: int|
                            0 <= k <= j implies lex_le(rest@[k].id@, rest@[j as int].id@) by {
                            if k < j {
                                lemma_lex_le_trans(
                                    rest@[k].id@,
                                    rest@[m as int].id@,
                                    rest@[j as int].id@,
                                );
                            } else {
                                lemma_lex_le_total(rest@[k].id@, rest@[k].id@);
                            }
                        }
                    }
                    m = j;
                }
                j = j + 1;
            }
            let picked = rest.remove(m);
            out.push(picked);
            proof {
                out0.to_multiset_ensures();
                rest0.to_multiset_ensures();
                assert(rest0.contains(picked)) by {
                    assert(rest0[m as int] == picked);
                }
                assert(out@ == out0.push(picked));
                assert(rest@ == rest0.remove(m as int));
                assert(out@.to_multiset() =~= out0.to_multiset().insert(picked));
                assert(rest@.to_multiset() =~= rest0.to_multiset().remove(picked));
                assert(out@.to_multiset().add(rest@.to_multiset()) =~= out0.to_multiset().add(
                    rest0.to_multiset(),
                ));
                assert forall|p: int, q: int|
                    0 <= p < out@.len() && 0 <= q < rest@.len() implies lex_le(
                    rest@[q].id@,
                    out@[p].id@,
                ) by {
                    assert(rest@[q] == if q < m {
                        rest0[q]
                    } else {
                        rest0[q + 1]
                    });
                    if p < out0.len() {
                        assert(out@[p] == out0[p]);
                    } else {
                        assert(out@[p] == picked);
                    }
                }
                assert forall|p: int, q: int|
                    0 <= p < q < out@.len() implies lex_le(out@[q].id@, out@[p].id@) by {
                    if q < out0.len() {
                        assert(out@[q] == out0[q] && out@[p] == out0[p]);
                    } else {
                        assert(out@[q] == picked && out@[p] == out0[p]);
                    }
                }
            }
        }
        proof {
            assert(rest@.to_multiset() =~= Multiset::<Trade>::empty());
            assert(out@.to_multiset() =~= self@.to_multiset());
        }
        out
    }

    /// Store `trade` under the identifier `id`. The record is accepted and
    /// appended exactly when its enumerated fields are valid and the
    /// identifier is not yet taken; otherwise nothing changes.
    pub fn create_with_id(&mut self, id: String, trade: &Trade) -> (r: Option<Trade>)
        requires
            old(self).wf(),
            old(self)@.len() < LEDGER_CAP,
            trade.fields_wf(),
        ensures
            final(self).wf(),
            trade.enums_valid() && !contains_id(old(self)@, id@) ==> r == Some(
                with_id(*trade, id),
            ) && final(self)@ == old(self)@.push(with_id(*trade, id)),
            !(trade.enums_valid() && !contains_id(old(self)@, id@)) ==> r is None
                && final(self)@ == old(self)@,
    {
        proof {
            crate::trade::lemma_valid_enum_nonempty();
        }
        if trade.chain.as_str().is_empty() || trade.trade_type.as_str().is_empty()
            || trade.asset.as_str().is_empty() {
            return None;
        }
        if !Chain::is_valid(trade.chain.as_str()) || !TradeType::is_valid(
            trade.trade_type.as_str(),
        ) || !Asset::is_valid(trade.asset.as_str()) {
            return None;
        }
        if self.index_of(id.as_str()).is_some() {
            return None;
        }
        let mut stored = trade.duplicate();
        stored.id = id;
        let result = stored.duplicate();
        self.trades.push(stored);
        Some(result)
    }

    /// Assign a fresh identifier to `trade` and store it. A record is
    /// accepted exactly when its enumerated fields are valid; the returned
    /// record is the stored one.
    pub fn create(&mut self, trade: &Trade) -> (r: Option<Trade>)
        requires
            old(self).wf(),
            old(self)@.len() < LEDGER_CAP,
            trade.fields_wf(),
        ensures
            final(self).wf(),
            !trade.enums_valid() ==> r is None,
            match r {
                Some(t) => trade.enums_valid() && t == with_id(*trade, t.id) && t.id@.len() == 36
                    && !contains_id(old(self)@, t.id@) && final(self)@ == old(self)@.push(t),
                None => final(self)@ == old(self)@,
            },
    {
        let id = new_uuid();
        self.create_with_id(id, trade)
    }

    /// Overwrite the mutable fields of the record stored under `id` with
    /// those of `trade`, stamping the update time. The update is applied
    /// exactly when `trade`'s enumerated fields are valid and the identifier
    /// is present; fee fields are stored as given, not recomputed.
    pub fn update(&mut self, id: String, trade: &Trade) -> (r: Option<Trade>)
        requires
            old(self).wf(),
            trade.fields_wf(),
        ensures
            final(self).wf(),
            !(trade.enums_valid() && contains_id(old(self)@, id@)) ==> r is None,
            trade.enums_valid() && contains_id(old(self)@, id@) ==> r is Some,
            match r {
                Some(t) => trade.enums_valid() && exists|i: int|
                    0 <= i < old(self)@.len() && (#[trigger] old(self)@[i]).id@ == id@ && t
                        == updated_record(old(self)@[i], *trade, t.updated_at) && final(self)@
                        == old(self)@.update(i, t),
                None => final(self)@ == old(self)@,
            },
    {
        proof {
            crate::trade::lemma_valid_enum_nonempty();
        }
        if trade.chain.as_str().is_empty() || trade.trade_type.as_str().is_empty()
            || trade.asset.as_str().is_empty() {
            return None;
        }
        if !Chain::is_valid(trade.chain.as_str()) || !TradeType::is_valid(
            trade.trade_type.as_str(),
        ) || !Asset::is_valid(trade.asset.as_str()) {
            return None;
        }
        match self.index_of(id.as_str()) {
            Some(i) => {
                let now = now_datetime();
                let new_rec = Trade {
                    id: self.trades[i].id.clone(),
                    user_id: self.trades[i].user_id.clone(),
                    wallet_id: self.trades[i].wallet_id.clone(),
                    amount: trade.amount,
                    chain: trade.chain.clone(),
                    trade_type: trade.trade_type.clone(),
                    asset: trade.asset.clone(),
                    before_price: trade.before_price,
                    execution_price: trade.execution_price,
                    final_price: trade.final_price,
                    traded_amount: trade.traded_amount,
                    execution_fee: trade.execution_fee,
                    transaction_fee: trade.transaction_fee,
                    created_at: self.trades[i].created_at.clone(),
                    updated_at: now,
                };
                let result = new_rec.duplicate();
                self.trades.remove(i);
                self.trades.insert(i, new_rec);
                proof {
                    assert(self.trades@ =~= old(self)@.update(i as int, result));
                }
                Some(result)
            },
            None => None,
        }
    }

    /// Remove the record stored under `id` and report whether the identifier
    /// is now absent — which it always is, so a second delete of the same
    /// identifier again returns true.
    pub fn delete(&mut self, id: String) -> (r: bool)
        requires
            old(self).wf(),
        ensures
            final(self).wf(),
            r == true,
            !contains_id(final(self)@, id@),
            !contains_id(old(self)@, id@) ==> final(self)@ == old(self)@,
            contains_id(old(self)@, id@) ==> exists|i: int|
                0 <= i < old(self)@.len() && (#[trigger] old(self)@[i]).id@ == id@ && final(self)@
                    == old(self)@.remove(i),
    {
        match self.index_of(id.as_str()) {
            Some(i) => {
                self.trades.remove(i);
            },
            None => {},
        }
        self.index_of(id.as_str()).is_none()
    }
}

} // verus!
