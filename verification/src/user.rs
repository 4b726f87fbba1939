//! Users: identities bound one-to-one to a wallet, with salted credential
//! hashes, email-unique registration, and credential-checked login.

use vstd::prelude::*;
use vstd::multiset::Multiset;
use crate::clock::now_datetime;
use crate::idgen::new_uuid;
use crate::password::{hash_password, password_matches, verify_password};
use crate::text::{lemma_lex_le_total, lemma_lex_le_trans, lex_le, str_eq, str_lex_le};
use crate::wallet::{has_wallet_id, WalletStore};

verus! {

pub struct User {
    pub id: String,
    pub name: String,
    pub email: String,
    pub password: String,
    pub wallet_id: String,
    pub created_at: String,
    pub updated_at: String,
}

impl User {
    /// An owned copy, equal to the original.
    pub fn duplicate(&self) -> (r: User)
        ensures
            r == *self,
    {
        User {
            id: self.id.clone(),
            name: self.name.clone(),
            email: self.email.clone(),
            password: self.password.clone(),
            wallet_id: self.wallet_id.clone(),
            created_at: self.created_at.clone(),
            updated_at: self.updated_at.clone(),
        }
    }
}

/// Whether some user of `s` carries the identifier `id`.
pub open spec fn has_user_id(s: Seq<User>, id: Seq<char>) -> bool {
    exists|i: int| 0 <= i < s.len() && (#[trigger] s[i]).id@ == id
}

/// Whether some user of `s` carries the email `e`.
pub open spec fn has_user_email(s: Seq<User>, e: Seq<char>) -> bool {
    exists|i: int| 0 <= i < s.len() && (#[trigger] s[i]).email@ == e
}

/// The first user of `s` carrying the email `e`, if any.
pub open spec fn first_user_by_email(s: Seq<User>, e: Seq<char>) -> Option<User>
    decreases s.len(),
{
    if s.len() == 0 {
        None
    } else if s[0].email@ == e {
        Some(s[0])
    } else {
        first_user_by_email(s.skip(1), e)
    }
}

/// Whether the users stand in descending identifier order.
pub open spec fn sorted_by_id_desc(s: Seq<User>) -> bool {
    forall|i: int, j: int| 0 <= i < j < s.len() ==> lex_le(s[j].id@, s[i].id@)
}

pub struct UserStore {
    users: Vec<User>,
}

impl View for UserStore {
    type V = Seq<User>;

    closed spec fn view(&self) -> Seq<User> {
        self.users@
    }
}

impl UserStore {
    /// Identifiers are unique.
    pub open spec fn wf(self) -> bool {
        forall|i: int, j: int| 0 <= i < j < self@.len() ==> self@[i].id@ != self@[j].id@
    }

    /// An empty store.
    pub fn new() -> (r: UserStore)
        ensures
            r@ == Seq::<User>::empty(),
            r.wf(),
    {
        UserStore { users: Vec::new() }
    }

    fn index_of_id(&self, id: &str) -> (r: Option<usize>)
        ensures
            match r {
                Some(i) => 0 <= i < self@.len() && self@[i as int].id@ == id@,
                None => !has_user_id(self@, id@),
            },
    {
        let n = self.users.len();
        for i in 0..n
            invariant
                n == self@.len(),
                forall|j: int| 0 <= j < i ==> (#[trigger] self@[j]).id@ != id@,
        {
            if str_eq(self.users[i].id.as_str(), id) {
                return Some(i);
            }
        }
        None
    }

    /// The user stored under the identifier, if present.
    pub fn find_by_id(&self, id: String) -> (r: Option<User>)
        ensures
            match r {
                Some(u) => has_user_id(self@, id@) && u.id@ == id@ && exists|i: int|
                    0 <= i < self@.len() && self@[i] == u,
                None => !has_user_id(self@, id@),
            },
    {
        match self.index_of_id(id.as_str()) {
            Some(i) => Some(self.users[i].duplicate()),
            None => None,
        }
    }

    /// The first user stored under the email, if any.
    pub fn find_by_email(&self, email: String) -> (r: Option<User>)
        ensures
            r == first_user_by_email(self@, email@),
    {
        let n = self.users.len();
        proof {
            assert(self@.skip(0) =~= self@);
        }
        for i in 0..n
            invariant
                n == self@.len(),
                first_user_by_email(self@, email@) == first_user_by_email(
                    self@.skip(i as int),
                    email@,
                ),
        {
            if str_eq(self.users[i].email.as_str(), email.as_str()) {
                proof {
                    assert(self@.skip(i as int)[0] == self@[i as int]);
                }
                return Some(self.users[i].duplicate());
            }
            proof {
                assert(self@.skip(i as int).skip(1) =~= self@.skip(i + 1));
            }
        }
        None
    }

    /// A copy of every stored user, in descending identifier order.
    pub fn list(&self) -> (r: Vec<User>)
        ensures
            r@.to_multiset() == self@.to_multiset(),
            sorted_by_id_desc(r@),
    {
        broadcast use vstd::seq_lib::group_to_multiset_ensures;

        let n = self.users.len();
        let mut rest: Vec<User> = Vec::new();
        for i in 0..n
            invariant
                n == self@.len(),
                rest@ =~= self@.subrange(0, i as int),
        {
            rest.push(self.users[i].duplicate());
        }
        proof {
            assert(rest@ =~= self@);
        }
        let mut out: Vec<User> = Vec::new();
        while rest.len() > 0
            invariant
                out@.to_multiset().add(rest@.to_multiset()) == self@.to_multiset(),
                sorted_by_id_desc(out@),
                forall|p: int, q: int|
                    0 <= p < out@.len() && 0 <= q < rest@.len() ==> lex_le(
                        rest@[q].id@,
                        out@[p].id@,
                    ),
            decreases rest@.len(),
        {
            let ghost rest0 = rest@;
            let ghost out0 = out@;
            let mut m: usize = 0;
            let mut j: usize = 1;
            proof {
                lemma_lex_le_total(rest@[0].id@, rest@[0].id@);
            }
            while j < rest.len()
                invariant
                    rest@ == rest0,
                    rest@.len() > 0,
                    m < j <= rest@.len(),
                    forall|k: int| 0 <= k < j ==> lex_le(rest@[k].id@, rest@[m as int].id@),
                decreases rest@.len() - j,
            {
                if !str_lex_le(rest[j].id.as_str(), rest[m].id.as_str()) {
                    proof {
                        lemma_lex_le_total(rest@[j as int].id@, rest@[m as int].id@);
                        assert forall|k: int|
                            0 <= k <= j implies lex_le(rest@[k].id@, rest@[j as int].id@) by {
                            if k < j {
                                lemma_lex_le_trans(
                                    rest@[k].id@,
                                    rest@[m as int].id@,
                                    rest@[j as int].id@,
                                );
                            } else {
                                lemma_lex_le_total(rest@[k].id@, rest@[k].id@);
                            }
                        }
                    }
                    m = j;
                }
                j = j + 1;
            }
            let picked = rest.remove(m);
            out.push(picked);
            proof {
                out0.to_multiset_ensures();
                rest0.to_multiset_ensures();
                assert(rest0.contains(picked)) by {
                    assert(rest0[m as int] == picked);
                }
                assert(out@ == out0.push(picked));
                assert(rest@ == rest0.remove(m as int));
                assert(out@.to_multiset() =~= out0.to_multiset().insert(picked));
                assert(rest@.to_multiset() =~= rest0.to_multiset().remove(picked));
                assert(out@.to_multiset().add(rest@.to_multiset()) =~= out0.to_multiset().add(
                    rest0.to_multiset(),
                ));
                assert forall|p: int, q: int|
                    0 <= p < out@.len() && 0 <= q < rest@.len() implies lex_le(
                    rest@[q].id@,
                    out@[p].id@,
                ) by {
                    assert(rest@[q] == if q < m {
                        rest0[q]
                    } else {
                        rest0[q + 1]
                    });
                    if p < out0.len() {
                        assert(out@[p] == out0[p]);
                    } else {
                        assert(out@[p] == picked);
                    }
                }
                assert forall|p: int, q: int|
                    0 <= p < q < out@.len() implies lex_le(out@[q].id@, out@[p].id@) by {
                    if q < out0.len() {
                        assert(out@[q] == out0[q] && out@[p] == out0[p]);
                    } else {
                        assert(out@[q] == picked && out@[p] == out0[p]);
                    }
                }
            }
        }
        proof {
            assert(rest@.to_multiset() =~= Multiset::<User>::empty());
            assert(out@.to_multiset() =~= self@.to_multiset());
        }
        out
    }

    /// Store a user under the given identifier with an already-hashed
    /// password, stamped at `now`. Registration fails with a message when a
    /// required field is empty, the email is taken, or the referenced wallet
    /// does not exist; otherwise the record is appended and returned.
    pub fn register_with(
        &mut self,
        wallets: &WalletStore,
        id: String,
        name: String,
        email: String,
        wallet_id: String,
        hashed_password: String,
        now: String,
    ) -> (r: (Option<User>, Option<String>))
        requires
            old(self).wf(),
            !has_user_id(old(self)@, id@),
        ensures
            final(self).wf(),
            ({
                let u = User {
                    id: id,
                    name: name,
                    email: email,
                    password: hashed_password,
                    wallet_id: wallet_id,
                    created_at: now,
                    updated_at: now,
                };
                if name@.len() == 0 || email@.len() == 0 || wallet_id@.len() == 0
                    || hashed_password@.len() == 0 {
                    r.0 is None && (r.1 matches Some(m) && m@ == "Missing required fields"@)
                        && final(self)@ == old(self)@
                } else if has_user_email(old(self)@, email@) {
                    r.0 is None && (r.1 matches Some(m) && m@ == "Email already exists"@) && final(self)@ == old(self)@
                } else if !has_wallet_id(wallets@, wallet_id@) {
                    r.0 is None && (r.1 matches Some(m) && m@ == "Wallet does not exist"@) && final(self)@ == old(self)@
                } else {
                    r.0 == Some(u) && r.1 is None && final(self)@ == old(self)@.push(u)
                }
            }),
    {
        if name.as_str().is_empty() || email.as_str().is_empty() || wallet_id.as_str().is_empty()
            || hashed_password.as_str().is_empty() {
            return (None, Some("Missing required fields".to_owned()));
        }
        if self.find_by_email(email.clone()).is_some() {
            proof {
                let u = first_user_by_email(self@, email@);
                lemma_first_user_by_email_member(self@, email@);
            }
            return (None, Some("Email already exists".to_owned()));
        }
        proof {
            lemma_first_user_by_email_none(self@, email@);
        }
        if wallets.find_by_id(wallet_id.clone()).is_none() {
            return (None, Some("Wallet does not exist".to_owned()));
        }
        let user = User {
            id: id,
            name: name,
            email: email,
            password: hashed_password,
            wallet_id: wallet_id,
            created_at: now.clone(),
            updated_at: now,
        };
        let result = user.duplicate();
        self.users.push(user);
        (Some(result), None)
    }

    /// Register a user: allocate a fresh identifier, hash the password, and
    /// store the record, against the same checks as `register_with`. On
    /// success the stored user is returned; its password field holds the
    /// salted hash, which accepts the submitted password.
    pub fn create(
        &mut self,
        wallets: &WalletStore,
        name: String,
        email: String,
        wallet_id: String,
        password: String,
    ) -> (r: (Option<User>, Option<String>))
        requires
            old(self).wf(),
        ensures
            final(self).wf(),
            ({
                if name@.len() == 0 || email@.len() == 0 || wallet_id@.len() == 0 || password@.len()
                    == 0 {
                    r.0 is None && (r.1 matches Some(m) && m@ == "Missing required fields"@)
                        && final(self)@ == old(self)@
                } else if has_user_email(old(self)@, email@) {
                    r.0 is None && (r.1 matches Some(m) && m@ == "Email already exists"@) && final(self)@ == old(self)@
                } else if !has_wallet_id(wallets@, wallet_id@) {
                    r.0 is None && (r.1 matches Some(m) && m@ == "Wallet does not exist"@) && final(self)@ == old(self)@
                } else {
                    match r.0 {
                        Some(u) => r.1 is None && u.name == name && u.email == email && u.wallet_id
                            == wallet_id && u.id@.len() == 36 && !has_user_id(old(self)@, u.id@)
                            && password_matches(password@, u.password@) && u.created_at
                            == u.updated_at && final(self)@ == old(self)@.push(u),
                        None => r.1 is Some && final(self)@ == old(self)@,
                    }
                }
            }),
    {
        if name.as_str().is_empty() || email.as_str().is_empty() || wallet_id.as_str().is_empty()
            || password.as_str().is_empty() {
            return (None, Some("Missing required fields".to_owned()));
        }
        if self.find_by_email(email.clone()).is_some() {
            proof {
                lemma_first_user_by_email_member(self@, email@);
            }
            return (None, Some("Email already exists".to_owned()));
        }
        proof {
            lemma_first_user_by_email_none(self@, email@);
        }
        if wallets.find_by_id(wallet_id.clone()).is_none() {
            return (None, Some("Wallet does not exist".to_owned()));
        }
        let id = new_uuid();
        if self.index_of_id(id.as_str()).is_some() {
            return (None, Some("Failed to create user".to_owned()));
        }
        let hashed = match hash_password(password.as_str()) {
            Some(h) => h,
            None => {
                return (None, Some("Failed to hash password".to_owned()));
            },
        };
        if hashed.as_str().is_empty() {
            return (None, Some("Failed to hash password".to_owned()));
        }
        let now = now_datetime();
        self.register_with(wallets, id, name, email, wallet_id, hashed, now)
    }

    /// Overwrite name, email, wallet reference and password of the user
    /// stored under `id`, stamping the update time. The stored password is a
    /// fresh salted hash of the submitted one; the returned record carries
    /// the submitted password as given, as the storage layer's reload would
    /// not. Absent identifiers change nothing and yield `None`.
    pub fn update(
        &mut self,
        id: String,
        name: String,
        email: String,
        wallet: String,
        password: String,
    ) -> (r: Option<User>)
        requires
            old(self).wf(),
        ensures
            final(self).wf(),
            !has_user_id(old(self)@, id@) ==> r is None,
            match r {
                Some(u) => exists|i: int|
                    0 <= i < old(self)@.len() && (#[trigger] old(self)@[i]).id@ == id@ && u == (User {
                        name: name,
                        email: email,
                        wallet_id: wallet,
                        password: password,
                        updated_at: u.updated_at,
                        ..old(self)@[i]
                    }) && final(self)@ == old(self)@.update(i, final(self)@[i]) && final(self)@[i]
                        == (User {
                        password: final(self)@[i].password,
                        ..u
                    }) && password_matches(password@, final(self)@[i].password@),
                None => final(self)@ == old(self)@,
            },
    {
        match self.index_of_id(id.as_str()) {
            Some(i) => {
                let hashed = match hash_password(password.as_str()) {
                    Some(h) => h,
                    None => {
                        return None;
                    },
                };
                let now = now_datetime();
                let returned = User {
                    id: self.users[i].id.clone(),
                    name: name.clone(),
                    email: email.clone(),
                    password: password,
                    wallet_id: wallet.clone(),
                    created_at: self.users[i].created_at.clone(),
                    updated_at: now.clone(),
                };
                let stored = User {
                    id: self.users[i].id.clone(),
                    name: name,
                    email: email,
                    password: hashed,
                    wallet_id: wallet,
                    created_at: self.users[i].created_at.clone(),
                    updated_at: now,
                };
                self.users.remove(i);
                self.users.insert(i, stored);
                proof {
                    assert(self.users@ =~= old(self)@.update(i as int, self.users@[i as int]));
                }
                Some(returned)
            },
            None => None,
        }
    }

    /// Remove the user stored under `id`; report whether one was there.
    pub fn delete(&mut self, id: String) -> (r: bool)
        requires
            old(self).wf(),
        ensures
            final(self).wf(),
            r == has_user_id(old(self)@, id@),
            !has_user_id(final(self)@, id@),
            !r ==> final(self)@ == old(self)@,
            r ==> exists|i: int|
                0 <= i < old(self)@.len() && (#[trigger] old(self)@[i]).id@ == id@ && final(self)@
                    == old(self)@.remove(i),
    {
        match self.index_of_id(id.as_str()) {
            Some(i) => {
                self.users.remove(i);
                proof {
                    assert forall|j: int|
                        0 <= j < self@.len() implies (#[trigger] self@[j]).id@ != id@ by {
                        if j < i {
                            assert(self@[j] == old(self)@[j]);
                        } else {
                            assert(self@[j] == old(self)@[j + 1]);
                        }
                    }
                }
                true
            },
            None => false,
        }
    }

    /// Check credentials: the first user under the email must exist and the
    /// password must match its stored hash. On success the user's identifier
    /// is returned, for the caller to issue a session token for.
    pub fn login(&self, email: String, password: String) -> (r: Option<String>)
        ensures
            r == (match first_user_by_email(self@, email@) {
                Some(u) => if password_matches(password@, u.password@) {
                    Some(u.id)
                } else {
                    None::<String>
                },
                None => None::<String>,
            }),
    {
        match self.find_by_email(email) {
            Some(u) => {
                if verify_password(password.as_str(), u.password.as_str()) {
                    Some(u.id)
                } else {
                    None
                }
            },
            None => None,
        }
    }
}

/// A first-match by email is a member of the sequence with that email.
proof fn lemma_first_user_by_email_member(s: Seq<User>, e: Seq<char>)
    requires
        first_user_by_email(s, e) is Some,
    ensures
        has_user_email(s, e),
    decreases s.len(),
{
    if s.len() > 0 {
        if s[0].email@ == e {
        } else {
            lemma_first_user_by_email_member(s.skip(1), e);
            let i = choose|i: int| 0 <= i < s.skip(1).len() && (#[trigger] s.skip(1)[i]).email@ == e;
            assert(s[i + 1] == s.skip(1)[i]);
        }
    }
}

/// Where no first match exists, no user carries the email.
proof fn lemma_first_user_by_email_none(s: Seq<User>, e: Seq<char>)
    requires
        first_user_by_email(s, e) is None,
    ensures
        !has_user_email(s, e),
    decreases s.len(),
{
    if s.len() > 0 {
        lemma_first_user_by_email_none(s.skip(1), e);
        assert forall|i: int| 0 <= i < s.len() implies (#[trigger] s[i]).email@ != e by {
            if i > 0 {
                assert(s.skip(1)[i - 1] == s[i]);
            }
        }
    }
}

} // verus!
