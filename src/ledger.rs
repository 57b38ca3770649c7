//! An in-memory store that implements every storage operation over the rows
//! it holds, with the constraints of the relational schema kept as invariants.

use vstd::prelude::*;
use crate::types::{DatabaseError, ExternalLink, TokenRecord, Transaction, User, UserRecord};
use crate::queries::{
    balance, balance_for_user, find_user, recent_transactions, sorted_by_balance, token_matches,
    token_resolves, token_user, user_exists, user_for_token, user_view, user_views,
    validate_transaction,
};
use crate::user_map::{keyed, user_map_entries, users_by_balance};
use linear_map::LinearMap;
use crate::token::{generate_token, is_alphanumeric, token_shaped, TOKEN_LENGTH};

verus! {

/// The rows of the users, external-link, token and transaction tables.
pub struct Ledger {
    pub users: Vec<UserRecord>,
    pub links: Vec<ExternalLink>,
    pub tokens: Vec<TokenRecord>,
    pub transactions: Vec<Transaction>,
}

pub open spec fn linked(links: Seq<ExternalLink>, ext: Seq<char>) -> bool {
    exists|i: int| 0 <= i < links.len() && #[trigger] links[i].external_id@ == ext
}

pub open spec fn has_token(tokens: Seq<TokenRecord>, t: Seq<char>) -> bool {
    exists|i: int| 0 <= i < tokens.len() && #[trigger] tokens[i].token@ == t
}

/// `after` is `before` with the fresh token `token` issued to `user_id`.
pub open spec fn token_added(before: Ledger, after: Ledger, token: String, user_id: String) -> bool {
    &&& !has_token(before.tokens@, token@)
    &&& after.tokens@ == before.tokens@.push(TokenRecord { token, user_id })
    &&& after.users@ == before.users@
    &&& after.links@ == before.links@
    &&& after.transactions@ == before.transactions@
}

/// Holds of the token records that do not name `t`.
pub open spec fn other_token(t: Seq<char>) -> spec_fn(TokenRecord) -> bool {
    |r: TokenRecord| r.token@ != t
}

/// `after` is `before` with every record of the token `t` deleted.
pub open spec fn token_revoked(before: Ledger, after: Ledger, t: Seq<char>) -> bool {
    &&& after.tokens@ == before.tokens@.filter(other_token(t))
    &&& after.users@ == before.users@
    &&& after.links@ == before.links@
    &&& after.transactions@ == before.transactions@
}

impl Ledger {
    /// User ids, external ids and token strings are each unique.
    pub open spec fn wf(&self) -> bool {
        &&& forall|i: int, j: int|
            0 <= i < j < self.users@.len() ==> self.users@[i].user_id@ != self.users@[j].user_id@
        &&& forall|i: int, j: int|
            0 <= i < j < self.links@.len() ==> self.links@[i].external_id@ != self.links@[j].external_id@
        &&& forall|i: int, j: int|
            0 <= i < j < self.tokens@.len() ==> self.tokens@[i].token@ != self.tokens@[j].token@
    }

    pub fn new() -> (r: Ledger)
        ensures
            r.wf(),
            r.users@.len() == 0,
            r.links@.len() == 0,
            r.tokens@.len() == 0,
            r.transactions@.len() == 0,
    {
        Ledger { users: Vec::new(), links: Vec::new(), tokens: Vec::new(), transactions: Vec::new() }
    }

    /// The internal user id linked to `external_id`, if any.
    pub fn lookup_user_by_external_id(&self, external_id: &String) -> (r: Option<String>)
        ensures
            r is Some <==> linked(self.links@, external_id@),
            r is Some ==> exists|i: int|
                0 <= i < self.links@.len() && #[trigger] self.links@[i].external_id@ == external_id@
                    && self.links@[i].user_id == r->Some_0,
    {
        let mut i: usize = 0;
        while i < self.links.len()
            invariant
                i <= self.links@.len(),
                forall|k: int| 0 <= k < i ==> self.links@[k].external_id@ != external_id@,
            decreases self.links@.len() - i,
        {
            if self.links[i].external_id == *external_id {
                return Some(self.links[i].user_id.clone());
            }
            i += 1;
        }
        None
    }

    /// Provisions a user whose internal id is `external_id`, linked to that
    /// external id. Both rows are written, or neither: an external id that is
    /// already linked, or a user id that is taken, leaves the store unchanged
    /// and fails with a query error, as the schema's unique keys would.
    pub fn create_user_by_external_id(&mut self, external_id: String, display_name: String) -> (r: Result<String, DatabaseError>)
        requires
            old(self).wf(),
        ensures
            final(self).wf(),
            r is Ok <==> !linked(old(self).links@, external_id@) && !user_exists(old(self).users@, external_id@),
            r is Ok ==> {
                &&& r->Ok_0 == external_id
                &&& final(self).users@ == old(self).users@.push(UserRecord { user_id: external_id, display_name })
                &&& final(self).links@ == old(self).links@.push(ExternalLink { external_id, user_id: external_id })
                &&& final(self).tokens@ == old(self).tokens@
                &&& final(self).transactions@ == old(self).transactions@
            },
            r is Err ==> *final(self) == *old(self) && r->Err_0 is Query,
    {
        if self.lookup_user_by_external_id(&external_id).is_some() {
            return Err(DatabaseError::Query { message: "duplicate key: external id is already linked".to_owned() });
        }
        if find_user(&self.users, &external_id).is_some() {
            return Err(DatabaseError::Query { message: "duplicate key: user id is taken".to_owned() });
        }
        self.links.push(ExternalLink { external_id: external_id.clone(), user_id: external_id.clone() });
        self.users.push(UserRecord { user_id: external_id.clone(), display_name });
        Ok(external_id)
    }

    /// Stores `token` for `user_id`. A token string that is already stored is
    /// refused with a query error and leaves the store unchanged.
    pub fn add_token(&mut self, token: String, user_id: String) -> (r: Result<(), DatabaseError>)
        requires
            old(self).wf(),
        ensures
            final(self).wf(),
            r is Ok <==> !has_token(old(self).tokens@, token@),
            r is Ok ==> token_added(*old(self), *final(self), token, user_id),
            r is Err ==> *final(self) == *old(self) && r->Err_0 is Query,
    {
        let mut i: usize = 0;
        while i < self.tokens.len()
            invariant
                i <= self.tokens@.len(),
                *self == *old(self),
                self.wf(),
                forall|k: int| 0 <= k < i ==> self.tokens@[k].token@ != token@,
            decreases self.tokens@.len() - i,
        {
            if self.tokens[i].token == token {
                return Err(DatabaseError::Query { message: "duplicate key: token exists".to_owned() });
            }
            i += 1;
        }
        self.tokens.push(TokenRecord { token, user_id });
        Ok(())
    }

    /// Issues a fresh random token to `user_id`. The user is not checked here.
    /// Issuing can only fail when the drawn token is already stored, so it
    /// succeeds whenever no stored token has the shape of a generated one.
    pub fn issue_token(&mut self, user_id: String) -> (r: Result<String, DatabaseError>)
        requires
            old(self).wf(),
        ensures
            final(self).wf(),
            r is Ok ==> {
                &&& r->Ok_0@.len() == TOKEN_LENGTH
                &&& forall|i: int| 0 <= i < r->Ok_0@.len() ==> is_alphanumeric(#[trigger] r->Ok_0@[i])
                &&& token_added(*old(self), *final(self), r->Ok_0, user_id)
            },
            r is Err ==> *final(self) == *old(self) && r->Err_0 is Query,
            r is Err ==> exists|i: int|
                0 <= i < old(self).tokens@.len() && token_shaped(#[trigger] old(self).tokens@[i].token@),
    {
        let token = generate_token();
        match self.add_token(token.clone(), user_id) {
            Ok(()) => Ok(token),
            Err(e) => Err(e),
        }
    }

    /// Deletes every record of `token`; succeeds whether or not it existed.
    pub fn revoke_token(&mut self, token: &String) -> (r: Result<(), DatabaseError>)
        requires
            old(self).wf(),
        ensures
            final(self).wf(),
            r is Ok,
            token_revoked(*old(self), *final(self), token@),
    {
        let mut kept: Vec<TokenRecord> = Vec::new();
        let mut i: usize = 0;
        while i < self.tokens.len()
            invariant
                i <= self.tokens@.len(),
                self.wf(),
                kept@ == self.tokens@.subrange(0, i as int).filter(other_token(token@)),
                forall|m: int, k: int| 0 <= m < kept@.len() && i <= k < self.tokens@.len()
                    ==> #[trigger] kept@[m].token@ != #[trigger] self.tokens@[k].token@,
                forall|a: int, b: int| 0 <= a < b < kept@.len() ==> kept@[a].token@ != kept@[b].token@,
            decreases self.tokens@.len() - i,
        {
            proof {
                reveal(Seq::filter);
                assert(self.tokens@.subrange(0, i + 1).drop_last() == self.tokens@.subrange(0, i as int));
                assert(self.tokens@.subrange(0, i + 1).last() == self.tokens@[i as int]);
            }
            if !(self.tokens[i].token == *token) {
                assert((other_token(token@))(self.tokens@[i as int]));
                let ghost before = kept@;
                kept.push(TokenRecord { token: self.tokens[i].token.clone(), user_id: self.tokens[i].user_id.clone() });
                assert(kept@ == before.push(self.tokens@[i as int]));
                assert forall|m: int, k: int| 0 <= m < kept@.len() && i + 1 <= k < self.tokens@.len()
                    implies #[trigger] kept@[m].token@ != #[trigger] self.tokens@[k].token@ by {
                    if m == before.len() {
                        assert(self.tokens@[i as int].token@ != self.tokens@[k].token@);
                    }
                }
                assert forall|a: int, b: int| 0 <= a < b < kept@.len() implies kept@[a].token@ != kept@[b].token@ by {
                    if b == before.len() {
                        assert(kept@[a].token@ != self.tokens@[i as int].token@);
                    }
                }
            }
            i += 1;
        }
        assert(self.tokens@.subrange(0, self.tokens@.len() as int) == self.tokens@);
        self.tokens = kept;
        Ok(())
    }

    /// The user that `token` authenticates, with its derived balance; `None`
    /// when no stored token names it or its user has no row.
    pub fn authenticate_token(&self, token: &String) -> (r: Option<User>)
        ensures
            r is Some <==> token_resolves(self.tokens@, self.users@, token@),
            r is Some ==> token_user(self.tokens@, self.users@, self.transactions@, token@, r->Some_0),
    {
        user_for_token(&self.tokens, &self.users, &self.transactions, token)
    }

    /// The derived balance of `user_id`, or `UnknownUser` when it has no row.
    pub fn get_balance(&self, user_id: &String) -> (r: Result<i128, DatabaseError>)
        ensures
            match r {
                Ok(b) => user_exists(self.users@, user_id@) && b == balance(self.transactions@, user_id@),
                Err(e) => !user_exists(self.users@, user_id@) && e == (DatabaseError::UnknownUser { user_id: *user_id }),
            },
    {
        balance_for_user(&self.users, &self.transactions, user_id)
    }

    /// Every user with its derived balance, keyed by user id, in
    /// non-decreasing order of balance.
    pub fn list_users_with_balances(&self) -> (r: LinearMap<String, User>)
        requires
            self.wf(),
        ensures
            exists|s: Seq<User>| {
                &&& s.to_multiset() == user_views(self.users@, self.transactions@).to_multiset()
                &&& sorted_by_balance(s)
                &&& #[trigger] keyed(s) == user_map_entries(r)
            },
    {
        users_by_balance(&self.users, &self.transactions)
    }

    /// Appends `tx` to the ledger. A shaftee without a row fails with
    /// `UnknownUser` and leaves the store unchanged.
    pub fn record_transaction(&mut self, tx: Transaction) -> (r: Result<(), DatabaseError>)
        requires
            old(self).wf(),
        ensures
            final(self).wf(),
            r is Ok <==> user_exists(old(self).users@, tx.shaftee@),
            r is Ok ==> {
                &&& final(self).transactions@ == old(self).transactions@.push(tx)
                &&& final(self).users@ == old(self).users@
                &&& final(self).links@ == old(self).links@
                &&& final(self).tokens@ == old(self).tokens@
            },
            r is Err ==> *final(self) == *old(self) && r == Err::<(), DatabaseError>(DatabaseError::UnknownUser { user_id: tx.shaftee }),
    {
        match validate_transaction(&self.users, &tx) {
            Ok(()) => {
                self.transactions.push(tx);
                Ok(())
            },
            Err(e) => Err(e),
        }
    }

    /// The last `limit` transactions recorded, most recent first.
    pub fn list_recent_transactions(&self, limit: u32) -> (r: Vec<Transaction>)
        ensures
            r@.len() == if (limit as int) < self.transactions@.len() { limit as int } else { self.transactions@.len() as int },
            forall|k: int| 0 <= k < r@.len() ==> r@[k] == self.transactions@[self.transactions@.len() - 1 - k],
    {
        recent_transactions(&self.transactions, limit)
    }
}

/// A token that was issued to an existing user authenticates that user, and
/// no other.
pub proof fn lemma_issued_token_authenticates(before: Ledger, after: Ledger, token: String, user: UserRecord)
    requires
        before.wf(),
        before.users@.contains(user),
        token_added(before, after, token, user.user_id),
    ensures
        token_resolves(after.tokens@, after.users@, token@),
        forall|u: User| token_user(after.tokens@, after.users@, after.transactions@, token@, u)
            ==> u == user_view(user, after.transactions@),
{
    let n = before.tokens@.len() as int;
    let j = choose|j: int| 0 <= j < before.users@.len() && before.users@[j] == user;
    assert(after.tokens@[n] == (TokenRecord { token, user_id: user.user_id }));
    assert(token_matches(after.tokens@, after.users@, token@, n, j));
    assert forall|u: User| token_user(after.tokens@, after.users@, after.transactions@, token@, u)
        implies u == user_view(user, after.transactions@) by {
        let (a, b) = choose|a: int, b: int|
            token_matches(after.tokens@, after.users@, token@, a, b) && u == user_view(#[trigger] after.users@[b], after.transactions@)
                && #[trigger] after.tokens@[a] == after.tokens@[a];
        if a < n {
            assert(before.tokens@[a].token@ == token@);
        }
        assert(a == n);
        if b < j {
            assert(before.users@[b].user_id@ != before.users@[j].user_id@);
        } else if j < b {
            assert(before.users@[j].user_id@ != before.users@[b].user_id@);
        }
    }
}

/// Once a token is revoked, it authenticates nobody.
pub proof fn lemma_revoked_token_fails(before: Ledger, after: Ledger, token: Seq<char>)
    requires
        token_revoked(before, after, token),
    ensures
        !token_resolves(after.tokens@, after.users@, token),
{
    broadcast use vstd::seq_lib::group_filter_ensures;
    if token_resolves(after.tokens@, after.users@, token) {
        let (a, b) = choose|a: int, b: int| token_matches(after.tokens@, after.users@, token, a, b);
        assert((other_token(token))(after.tokens@[a]));
    }
}

} // verus!
