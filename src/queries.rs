//! Queries over the rows of the users, tokens and transactions tables:
//! balance derivation, the ordered user listing, token lookup and the tail of
//! the ledger.

use vstd::prelude::*;
use crate::types::{DatabaseError, TokenRecord, Transaction, User, UserRecord};

verus! {

broadcast use vstd::seq_lib::group_to_multiset_ensures;

/// What `t` adds to `u`'s total as shafter.
pub open spec fn shafter_part(t: Transaction, u: Seq<char>) -> int {
    if t.shafter@ == u { t.amount as int } else { 0 }
}

/// What `t` adds to `u`'s total as shaftee.
pub open spec fn shaftee_part(t: Transaction, u: Seq<char>) -> int {
    if t.shaftee@ == u { t.amount as int } else { 0 }
}

/// Sum of the amounts of the transactions in which `u` is the shafter.
pub open spec fn sum_as_shafter(txs: Seq<Transaction>, u: Seq<char>) -> int
    decreases txs.len(),
{
    if txs.len() == 0 {
        0
    } else {
        sum_as_shafter(txs.drop_last(), u) + shafter_part(txs.last(), u)
    }
}

/// Sum of the amounts of the transactions in which `u` is the shaftee.
pub open spec fn sum_as_shaftee(txs: Seq<Transaction>, u: Seq<char>) -> int
    decreases txs.len(),
{
    if txs.len() == 0 {
        0
    } else {
        sum_as_shaftee(txs.drop_last(), u) + shaftee_part(txs.last(), u)
    }
}

/// The balance of `u` derived from the ledger `txs`.
pub open spec fn balance(txs: Seq<Transaction>, u: Seq<char>) -> int {
    sum_as_shafter(txs, u) - sum_as_shaftee(txs, u)
}

/// The user that a row of the users table stands for, given the ledger.
pub open spec fn user_view(u: UserRecord, txs: Seq<Transaction>) -> User {
    User { user_id: u.user_id, display_name: u.display_name, balance: balance(txs, u.user_id@) as i128 }
}

pub open spec fn user_views(users: Seq<UserRecord>, txs: Seq<Transaction>) -> Seq<User> {
    users.map_values(|u: UserRecord| user_view(u, txs))
}

pub open spec fn user_exists(users: Seq<UserRecord>, id: Seq<char>) -> bool {
    exists|i: int| 0 <= i < users.len() && #[trigger] users[i].user_id@ == id
}

/// No two rows of `users` share a user id.
pub open spec fn unique_user_ids(users: Seq<UserRecord>) -> bool {
    forall|i: int, j: int| 0 <= i < j < users.len() ==> users[i].user_id@ != users[j].user_id@
}

/// One of the first `n` rows of `users` has the id `id`.
spec fn id_among(users: Seq<UserRecord>, n: int, id: Seq<char>) -> bool {
    exists|k: int| 0 <= k < n && #[trigger] users[k].user_id@ == id
}

/// No two users of `s` share a user id.
pub open spec fn distinct_ids(s: Seq<User>) -> bool {
    forall|i: int, j: int| 0 <= i < j < s.len() ==> s[i].user_id@ != s[j].user_id@
}

pub open spec fn sorted_by_balance(s: Seq<User>) -> bool {
    forall|i: int, j: int| 0 <= i < j < s.len() ==> s[i].balance <= s[j].balance
}

/// Token record `i` names `t` and belongs to the user of row `j`.
pub open spec fn token_matches(
    tokens: Seq<TokenRecord>,
    users: Seq<UserRecord>,
    t: Seq<char>,
    i: int,
    j: int,
) -> bool {
    &&& 0 <= i < tokens.len()
    &&& 0 <= j < users.len()
    &&& tokens[i].token@ == t
    &&& tokens[i].user_id@ == users[j].user_id@
}

/// Some token record names `t` and belongs to an existing user.
pub open spec fn token_resolves(tokens: Seq<TokenRecord>, users: Seq<UserRecord>, t: Seq<char>) -> bool {
    exists|i: int, j: int| token_matches(tokens, users, t, i, j)
}

/// `u` is the user that the token `t` authenticates.
pub open spec fn token_user(
    tokens: Seq<TokenRecord>,
    users: Seq<UserRecord>,
    txs: Seq<Transaction>,
    t: Seq<char>,
    u: User,
) -> bool {
    exists|i: int, j: int|
        token_matches(tokens, users, t, i, j) && u == user_view(#[trigger] users[j], txs) && #[trigger] tokens[i] == tokens[i]
}

/// Index of the first row of `users` with the id `id`.
pub(crate) fn find_user(users: &Vec<UserRecord>, id: &String) -> (r: Option<usize>)
    ensures
        match r {
            Some(i) => i < users@.len() && users@[i as int].user_id@ == id@,
            None => !user_exists(users@, id@),
        },
{
    let mut i: usize = 0;
    while i < users.len()
        invariant
            i <= users@.len(),
            forall|k: int| 0 <= k < i ==> users@[k].user_id@ != id@,
        decreases users@.len() - i,
    {
        if users[i].user_id == *id {
            return Some(i);
        }
        i += 1;
    }
    None
}

/// The balance of `user_id` over the ledger `txs`: the sum of the amounts
/// where the user is shafter, minus the sum where the user is shaftee.
pub fn balance_of(txs: &Vec<Transaction>, user_id: &String) -> (r: i128)
    ensures
        r == sum_as_shafter(txs@, user_id@) - sum_as_shaftee(txs@, user_id@),
{
    let mut acc: i128 = 0;
    let mut i: usize = 0;
    while i < txs.len()
        invariant
            i <= txs@.len(),
            acc == balance(txs@.subrange(0, i as int), user_id@),
            -(i as int) * 0x8000_0000_0000_0000 <= acc <= (i as int) * 0x8000_0000_0000_0000,
        decreases txs@.len() - i,
    {
        let t = &txs[i];
        let mut step: i128 = 0;
        if t.shafter == *user_id {
            step = t.amount as i128;
        }
        if t.shaftee == *user_id {
            step = step - t.amount as i128;
        }
        assert(txs@.subrange(0, i + 1).drop_last() == txs@.subrange(0, i as int));
        acc = acc + step;
        i += 1;
    }
    assert(txs@.subrange(0, txs@.len() as int) == txs@);
    acc
}

/// The balance of `user_id`, or `UnknownUser` when no row of `users` has that id.
pub fn balance_for_user(users: &Vec<UserRecord>, txs: &Vec<Transaction>, user_id: &String) -> (r: Result<i128, DatabaseError>)
    ensures
        match r {
            Ok(b) => user_exists(users@, user_id@) && b == balance(txs@, user_id@),
            Err(e) => !user_exists(users@, user_id@) && e == (DatabaseError::UnknownUser { user_id: *user_id }),
        },
{
    match find_user(users, user_id) {
        Some(_) => Ok(balance_of(txs, user_id)),
        None => Err(DatabaseError::UnknownUser { user_id: user_id.clone() }),
    }
}

/// Every user with the balance derived from `txs`, in non-decreasing order of
/// balance.
pub fn users_with_balances(users: &Vec<UserRecord>, txs: &Vec<Transaction>) -> (r: Vec<User>)
    ensures
        r@.to_multiset() == user_views(users@, txs@).to_multiset(),
        sorted_by_balance(r@),
        unique_user_ids(users@) ==> distinct_ids(r@),
{
    let mut out: Vec<User> = Vec::new();
    let mut i: usize = 0;
    while i < users.len()
        invariant
            i <= users@.len(),
            out@.to_multiset() == user_views(users@.subrange(0, i as int), txs@).to_multiset(),
            sorted_by_balance(out@),
            forall|m: int| 0 <= m < out@.len() ==> id_among(users@, i as int, #[trigger] out@[m].user_id@),
            unique_user_ids(users@) ==> distinct_ids(out@),
        decreases users@.len() - i,
    {
        let u = &users[i];
        let b = balance_of(txs, &u.user_id);
        let entry = User { user_id: u.user_id.clone(), display_name: u.display_name.clone(), balance: b };
        assert(entry == user_view(users@[i as int], txs@));
        let mut p: usize = 0;
        while p < out.len() && out[p].balance <= b
            invariant
                p <= out@.len(),
                forall|k: int| 0 <= k < p ==> out@[k].balance <= b,
            decreases out@.len() - p,
        {
            p += 1;
        }
        let ghost before = out@;
        out.insert(p, entry);
        assert(sorted_by_balance(out@)) by {
            assert forall|x: int, y: int| 0 <= x < y < out@.len() implies out@[x].balance <= out@[y].balance by {
                if y < p {
                } else if y == p {
                } else if x < p {
                    assert(out@[y] == before[y - 1]);
                } else if x == p {
                    assert(before[p as int].balance <= before[y - 1].balance);
                } else {
                    assert(out@[x] == before[x - 1]);
                    assert(out@[y] == before[y - 1]);
                }
            }
        }
        assert forall|m: int| 0 <= m < out@.len() implies id_among(users@, i + 1, #[trigger] out@[m].user_id@) by {
            if m < p {
                assert(out@[m] == before[m]);
                let k = choose|k: int| 0 <= k < i && #[trigger] users@[k].user_id@ == before[m].user_id@;
                assert(users@[k].user_id@ == out@[m].user_id@);
            } else if m == p {
                assert(users@[i as int].user_id@ == out@[m].user_id@);
            } else {
                assert(out@[m] == before[m - 1]);
                let k = choose|k: int| 0 <= k < i && #[trigger] users@[k].user_id@ == before[m - 1].user_id@;
                assert(users@[k].user_id@ == out@[m].user_id@);
            }
        }
        proof {
        if unique_user_ids(users@) {
            assert forall|m: int| 0 <= m < before.len() implies before[m].user_id@ != users@[i as int].user_id@ by {
                let k = choose|k: int| 0 <= k < i && #[trigger] users@[k].user_id@ == before[m].user_id@;
                assert(users@[k].user_id@ != users@[i as int].user_id@);
            }
            assert forall|x: int, y: int| 0 <= x < y < out@.len() implies out@[x].user_id@ != out@[y].user_id@ by {
                if y < p {
                } else if y == p {
                    assert(before[x].user_id@ != users@[i as int].user_id@);
                } else if x < p {
                    assert(out@[y] == before[y - 1]);
                } else if x == p {
                    assert(out@[y] == before[y - 1]);
                    assert(before[y - 1].user_id@ != users@[i as int].user_id@);
                } else {
                    assert(out@[x] == before[x - 1]);
                    assert(out@[y] == before[y - 1]);
                }
            }
        }
        }
        assert(users@.subrange(0, i + 1).map_values(|u: UserRecord| user_view(u, txs@))
            == users@.subrange(0, i as int).map_values(|u: UserRecord| user_view(u, txs@)).push(entry));
        i += 1;
    }
    assert(users@.subrange(0, users@.len() as int) == users@);
    out
}

/// Whether the ledger may take `tx`: its shaftee must have a row in `users`.
pub fn validate_transaction(users: &Vec<UserRecord>, tx: &Transaction) -> (r: Result<(), DatabaseError>)
    ensures
        r is Ok <==> user_exists(users@, tx.shaftee@),
        r is Err ==> r == Err::<(), DatabaseError>(DatabaseError::UnknownUser { user_id: tx.shaftee }),
{
    match find_user(users, &tx.shaftee) {
        Some(_) => Ok(()),
        None => Err(DatabaseError::UnknownUser { user_id: tx.shaftee.clone() }),
    }
}

/// The user that `token` authenticates, with its balance, if a token record
/// names it and belongs to an existing user.
pub fn user_for_token(
    tokens: &Vec<TokenRecord>,
    users: &Vec<UserRecord>,
    txs: &Vec<Transaction>,
    token: &String,
) -> (r: Option<User>)
    ensures
        r is Some <==> token_resolves(tokens@, users@, token@),
        r is Some ==> token_user(tokens@, users@, txs@, token@, r->Some_0),
{
    let mut i: usize = 0;
    while i < tokens.len()
        invariant
            i <= tokens@.len(),
            forall|a: int, b: int| 0 <= a < i ==> !token_matches(tokens@, users@, token@, a, b),
        decreases tokens@.len() - i,
    {
        if tokens[i].token == *token {
            match find_user(users, &tokens[i].user_id) {
                Some(j) => {
                    let u = &users[j];
                    let b = balance_of(txs, &u.user_id);
                    let found = User { user_id: u.user_id.clone(), display_name: u.display_name.clone(), balance: b };
                    assert(token_matches(tokens@, users@, token@, i as int, j as int));
                    assert(found == user_view(users@[j as int], txs@));
                    return Some(found);
                },
                None => {},
            }
        }
        i += 1;
    }
    None
}

/// The last `limit` transactions of the ledger, most recent first.
pub fn recent_transactions(txs: &Vec<Transaction>, limit: u32) -> (r: Vec<Transaction>)
    ensures
        r@.len() == if (limit as int) < txs@.len() { limit as int } else { txs@.len() as int },
        forall|k: int| 0 <= k < r@.len() ==> r@[k] == txs@[txs@.len() - 1 - k],
{
    let mut out: Vec<Transaction> = Vec::new();
    let mut k: usize = 0;
    let n = txs.len();
    while k < n && (k as u64) < (limit as u64)
        invariant
            n == txs@.len(),
            k <= n,
            k <= limit,
            out@.len() == k,
            forall|m: int| 0 <= m < k ==> out@[m] == txs@[n - 1 - m],
        decreases n - k,
    {
        out.push(txs[n - 1 - k].duplicate());
        k += 1;
    }
    out
}

/// The bulk listing and the single-user lookup agree: every user in a listing
/// of `users` carries the balance derived for its id from `txs`.
pub proof fn lemma_listing_agrees_with_lookup(users: Seq<UserRecord>, txs: Seq<Transaction>, listed: Seq<User>)
    requires
        listed.to_multiset() == user_views(users, txs).to_multiset(),
    ensures
        forall|k: int| 0 <= k < listed.len() ==> (#[trigger] listed[k]).balance == balance(txs, listed[k].user_id@) as i128,
{
    assert forall|k: int| 0 <= k < listed.len() implies (#[trigger] listed[k]).balance == balance(txs, listed[k].user_id@) as i128 by {
        assert(listed.contains(listed[k]));
        assert(listed.to_multiset().contains(listed[k]));
        assert(user_views(users, txs).contains(listed[k]));
        let j = choose|j: int| 0 <= j < users.len() && user_views(users, txs)[j] == listed[k];
    }
}

/// Recording the transactions of `recorded` after those of `txs` moves the
/// balance of every user `u` by what `recorded` sums to for `u` as shafter,
/// less what it sums to as shaftee.
pub proof fn lemma_balance_after_recording_all(txs: Seq<Transaction>, recorded: Seq<Transaction>, u: Seq<char>)
    ensures
        balance(txs + recorded, u) == balance(txs, u) + sum_as_shafter(recorded, u) - sum_as_shaftee(recorded, u),
    decreases recorded.len(),
{
    if recorded.len() > 0 {
        lemma_balance_after_recording_all(txs, recorded.drop_last(), u);
        assert((txs + recorded).drop_last() == txs + recorded.drop_last());
        assert((txs + recorded).last() == recorded.last());
    } else {
        assert(txs + recorded == txs);
    }
}

/// Recording `tx` moves the balance of every user `u` by exactly what `tx`
/// adds to `u` as shafter, less what it adds as shaftee; the rest of the
/// ledger is summed as before.
pub proof fn lemma_balance_after_recording(txs: Seq<Transaction>, tx: Transaction, u: Seq<char>)
    ensures
        balance(txs.push(tx), u) == balance(txs, u) + shafter_part(tx, u) - shaftee_part(tx, u),
{
    assert(txs.push(tx).drop_last() == txs);
}

} // verus!
