//! Wallets: created with a zero balance and a fresh 64-character identifying
//! hash, and mutated only through an explicit balance update.

use vstd::prelude::*;
use vstd::multiset::Multiset;
use crate::clock::now_datetime;
use crate::hashing::{is_hex_seq, is_hex_str, new_hash};
use crate::idgen::new_uuid;
use crate::text::{lemma_lex_le_total, lemma_lex_le_trans, lex_le, str_eq, str_lex_le};

verus! {

/// A wallet. The balance is in milli-units.
pub struct Wallet {
    pub id: String,
    pub hash: String,
    pub balance: u64,
    pub created_at: String,
    pub updated_at: String,
}

impl Wallet {
    /// An owned copy, equal to the original.
    pub fn duplicate(&self) -> (r: Wallet)
        ensures
            r == *self,
    {
        Wallet {
            id: self.id.clone(),
            hash: self.hash.clone(),
            balance: self.balance,
            created_at: self.created_at.clone(),
            updated_at: self.updated_at.clone(),
        }
    }
}

/// Whether some wallet of `s` carries the identifier `id`.
pub open spec fn has_wallet_id(s: Seq<Wallet>, id: Seq<char>) -> bool {
    exists|i: int| 0 <= i < s.len() && (#[trigger] s[i]).id@ == id
}

/// Whether some wallet of `s` carries the public hash `h`.
pub open spec fn has_wallet_hash(s: Seq<Wallet>, h: Seq<char>) -> bool {
    exists|i: int| 0 <= i < s.len() && (#[trigger] s[i]).hash@ == h
}

/// Whether the wallets stand in descending identifier order.
pub open spec fn sorted_by_id_desc(s: Seq<Wallet>) -> bool {
    forall|i: int, j: int| 0 <= i < j < s.len() ==> lex_le(s[j].id@, s[i].id@)
}

pub struct WalletStore {
    wallets: Vec<Wallet>,
}

impl View for WalletStore {
    type V = Seq<Wallet>;

    closed spec fn view(&self) -> Seq<Wallet> {
        self.wallets@
    }
}

impl WalletStore {
    /// Identifiers and public hashes are unique, and every hash is exactly
    /// 64 hex characters.
    pub open spec fn wf(self) -> bool {
        &&& forall|i: int, j: int|
            0 <= i < j < self@.len() ==> self@[i].id@ != self@[j].id@
        &&& forall|i: int, j: int|
            0 <= i < j < self@.len() ==> self@[i].hash@ != self@[j].hash@
        &&& forall|i: int| 0 <= i < self@.len() ==> (#[trigger] self@[i]).hash@.len() == 64
        &&& forall|i: int| 0 <= i < self@.len() ==> is_hex_seq((#[trigger] self@[i]).hash@)
    }

    /// An empty store.
    pub fn new() -> (r: WalletStore)
        ensures
            r@ == Seq::<Wallet>::empty(),
            r.wf(),
    {
        WalletStore { wallets: Vec::new() }
    }

    fn index_of_id(&self, id: &str) -> (r: Option<usize>)
        ensures
            match r {
                Some(i) => 0 <= i < self@.len() && self@[i as int].id@ == id@ && forall|j: int|
                    0 <= j < i ==> (#[trigger] self@[j]).id@ != id@,
                None => !has_wallet_id(self@, id@),
            },
    {
        let n = self.wallets.len();
        for i in 0..n
            invariant
                n == self@.len(),
                forall|j: int| 0 <= j < i ==> (#[trigger] self@[j]).id@ != id@,
        {
            if str_eq(self.wallets[i].id.as_str(), id) {
                return Some(i);
            }
        }
        None
    }

    fn index_of_hash(&self, h: &str) -> (r: Option<usize>)
        ensures
            match r {
                Some(i) => 0 <= i < self@.len() && self@[i as int].hash@ == h@ && forall|j: int|
                    0 <= j < i ==> (#[trigger] self@[j]).hash@ != h@,
                None => !has_wallet_hash(self@, h@),
            },
    {
        let n = self.wallets.len();
        for i in 0..n
            invariant
                n == self@.len(),
                forall|j: int| 0 <= j < i ==> (#[trigger] self@[j]).hash@ != h@,
        {
            if str_eq(self.wallets[i].hash.as_str(), h) {
                return Some(i);
            }
        }
        None
    }

    /// The first wallet stored under the identifier, if any.
    pub fn find_by_id(&self, id: String) -> (r: Option<Wallet>)
        ensures
            match r {
                Some(w) => has_wallet_id(self@, id@) && w.id@ == id@ && exists|i: int|
                    0 <= i < self@.len() && self@[i] == w,
                None => !has_wallet_id(self@, id@),
            },
    {
        match self.index_of_id(id.as_str()) {
            Some(i) => Some(self.wallets[i].duplicate()),
            None => None,
        }
    }

    /// The first wallet stored under the public hash, if any.
    pub fn find_by_hash(&self, hash: String) -> (r: Option<Wallet>)
        ensures
            match r {
                Some(w) => has_wallet_hash(self@, hash@) && w.hash@ == hash@ && exists|i: int|
                    0 <= i < self@.len() && self@[i] == w,
                None => !has_wallet_hash(self@, hash@),
            },
    {
        match self.index_of_hash(hash.as_str()) {
            Some(i) => Some(self.wallets[i].duplicate()),
            None => None,
        }
    }

    /// A copy of every stored wallet, in descending identifier order.
    pub fn list(&self) -> (r: Vec<Wallet>)
        ensures
            r@.to_multiset() == self@.to_multiset(),
            sorted_by_id_desc(r@),
    {
        broadcast use vstd::seq_lib::group_to_multiset_ensures;

        let n = self.wallets.len();
        let mut rest: Vec<Wallet> = Vec::new();
        for i in 0..n
            invariant
                n == self@.len(),
                rest@ =~= self@.subrange(0, i as int),
        {
            rest.push(self.wallets[i].duplicate());
        }
        proof {
            assert(rest@ =~= self@);
        }
        let mut out: Vec<Wallet> = Vec::new();
        while rest.len() > 0
            invariant
                out@.to_multiset().add(rest@.to_multiset()) == self@.to_multiset(),
                sorted_by_id_desc(out@),
                forall|p: int, q: int|
                    0 <= p < out@.len() && 0 <= q < rest@.len() ==> lex_le(
                        rest@[q].id@,
                        out@[p].id@,
                    ),
            decreases rest@.len(),
        {
            let ghost rest0 = rest@;
            let ghost out0 = out@;
            let mut m: usize = 0;
            let mut j: usize = 1;
            proof {
                lemma_lex_le_total(rest@[0].id@, rest@[0].id@);
            }
            while j < rest.len()
                invariant
                    rest@ == rest0,
                    rest@.len() > 0,
                    m < j <= rest@.len(),
                    forall|k: int| 0 <= k < j ==> lex_le(rest@[k].id@, rest@[m as int].id@),
                decreases rest@.len() - j,
            {
                if !str_lex_le(rest[j].id.as_str(), rest[m].id.as_str()) {
                    proof {
                        lemma_lex_le_total(rest@[j as int].id@, rest@[m as int].id@);
                        assert forall|k: int|
                            0 <= k <= j implies lex_le(rest@[k].id@, rest@[j as int].id@) by {
                            if k < j {
                                lemma_lex_le_trans(
                                    rest@[k].id@,
                                    rest@[m as int].id@,
                                    rest@[j as int].id@,
                                );
                            } else {
                                lemma_lex_le_total(rest@[k].id@, rest@[k].id@);
                            }
                        }
                    }
                    m = j;
                }
                j = j + 1;
            }
            let picked = rest.remove(m);
            out.push(picked);
            proof {
                out0.to_multiset_ensures();
                rest0.to_multiset_ensures();
                assert(rest0.contains(picked)) by {
                    assert(rest0[m as int] == picked);
                }
                assert(out@ == out0.push(picked));
                assert(rest@ == rest0.remove(m as int));
                assert(out@.to_multiset() =~= out0.to_multiset().insert(picked));
                assert(rest@.to_multiset() =~= rest0.to_multiset().remove(picked));
                assert(out@.to_multiset().add(rest@.to_multiset()) =~= out0.to_multiset().add(
                    rest0.to_multiset(),
                ));
                assert forall|p: int, q: int|
                    0 <= p < out@.len() && 0 <= q < rest@.len() implies lex_le(
                    rest@[q].id@,
                    out@[p].id@,
                ) by {
                    assert(rest@[q] == if q < m {
                        rest0[q]
                    } else {
                        rest0[q + 1]
                    });
                    if p < out0.len() {
                        assert(out@[p] == out0[p]);
                    } else {
                        assert(out@[p] == picked);
                    }
                }
                assert forall|p: int, q: int|
                    0 <= p < q < out@.len() implies lex_le(out@[q].id@, out@[p].id@) by {
                    if q < out0.len() {
                        assert(out@[q] == out0[q] && out@[p] == out0[p]);
                    } else {
                        assert(out@[q] == picked && out@[p] == out0[p]);
                    }
                }
            }
        }
        proof {
            assert(rest@.to_multiset() =~= Multiset::<Wallet>::empty());
            assert(out@.to_multiset() =~= self@.to_multiset());
        }
        out
    }

    /// Store a wallet under the given identifier and hash, created at `now`
    /// with a zero balance. It is accepted and appended exactly when the
    /// hash is 64 characters and neither identifier nor hash is taken.
    pub fn create_with(&mut self, id: String, hash: String, now: String) -> (r: Option<Wallet>)
        requires
            old(self).wf(),
        ensures
            final(self).wf(),
            ({
                let w = Wallet {
                    id: id,
                    hash: hash,
                    balance: 0,
                    created_at: now,
                    updated_at: now,
                };
                if hash@.len() == 64 && is_hex_seq(hash@) && !has_wallet_id(old(self)@, id@)
                    && !has_wallet_hash(old(self)@, hash@) {
                    r == Some(w) && final(self)@ == old(self)@.push(w)
                } else {
                    r is None && final(self)@ == old(self)@
                }
            }),
    {
        if hash.as_str().unicode_len() != 64 {
            return None;
        }
        if !is_hex_str(hash.as_str()) {
            return None;
        }
        if self.index_of_id(id.as_str()).is_some() {
            return None;
        }
        if self.index_of_hash(hash.as_str()).is_some() {
            return None;
        }
        let wallet = Wallet {
            id: id,
            hash: hash,
            balance: 0,
            created_at: now.clone(),
            updated_at: now,
        };
        let result = wallet.duplicate();
        self.wallets.push(wallet);
        Some(result)
    }

    /// Create a wallet with a fresh identifier and identifying hash and a
    /// zero balance, and return the stored record.
    pub fn create(&mut self) -> (r: Option<Wallet>)
        requires
            old(self).wf(),
        ensures
            final(self).wf(),
            match r {
                Some(w) => w.id@.len() == 36 && w.hash@.len() == 64 && is_hex_seq(w.hash@)
                    && w.balance == 0
                    && !has_wallet_id(old(self)@, w.id@) && !has_wallet_hash(old(self)@, w.hash@)
                    && final(self)@ == old(self)@.push(w),
                None => final(self)@ == old(self)@,
            },
    {
        let id = new_uuid();
        let hash = new_hash();
        let now = now_datetime();
        self.create_with(id, hash, now)
    }

    /// Set the balance of the wallet stored under `id`; nothing else of the
    /// record changes. Absent identifiers change nothing and yield `None`.
    pub fn update_balance(&mut self, id: String, balance: u64) -> (r: Option<Wallet>)
        requires
            old(self).wf(),
        ensures
            final(self).wf(),
            match r {
                Some(w) => exists|i: int|
                    0 <= i < old(self)@.len() && (#[trigger] old(self)@[i]).id@ == id@ && w
                        == Wallet { balance: balance, ..old(self)@[i] } && final(self)@ == old(
                        self,
                    )@.update(i, w),
                None => !has_wallet_id(old(self)@, id@) && final(self)@ == old(self)@,
            },
    {
        match self.index_of_id(id.as_str()) {
            Some(i) => {
                let updated = Wallet {
                    id: self.wallets[i].id.clone(),
                    hash: self.wallets[i].hash.clone(),
                    balance: balance,
                    created_at: self.wallets[i].created_at.clone(),
                    updated_at: self.wallets[i].updated_at.clone(),
                };
                let result = updated.duplicate();
                self.wallets.remove(i);
                self.wallets.insert(i, updated);
                proof {
                    assert(self.wallets@ =~= old(self)@.update(i as int, result));
                }
                Some(result)
            },
            None => None,
        }
    }
}

} // verus!
