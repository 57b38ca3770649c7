//! The user listing as an order-preserving map from user id to user.

use vstd::prelude::*;
use linear_map::LinearMap;
use crate::types::{User, UserRecord, Transaction};
use crate::queries::{distinct_ids, sorted_by_balance, unique_user_ids, user_views, users_with_balances};

verus! {

#[verifier::external_type_specification]
#[verifier::external_body]
#[verifier::reject_recursive_types(K)]
#[verifier::reject_recursive_types(V)]
pub struct ExLinearMap<K, V>(LinearMap<K, V>);

/// The entries of a map, in storage order, each key by its characters.
pub uninterp spec fn user_map_entries(m: LinearMap<String, User>) -> Seq<(Seq<char>, User)>;

/// Relies on `LinearMap::new`: the map starts with no entries.
#[verifier::external_body]
fn empty_user_map() -> (r: LinearMap<String, User>)
    ensures
        user_map_entries(r) == Seq::<(Seq<char>, User)>::empty(),
{
    LinearMap::new()
}

/// Relies on `LinearMap::insert`: a key that no entry holds is appended with
/// its value at the end of the storage; otherwise the first entry with that key
/// keeps its place, takes the new value, and the old value is returned.
#[verifier::external_body]
fn user_map_insert(m: &mut LinearMap<String, User>, key: String, value: User) -> (r: Option<User>)
    ensures
        (forall|i: int| 0 <= i < user_map_entries(*old(m)).len() ==> (#[trigger] user_map_entries(*old(m))[i]).0 != key@)
            ==> r is None && user_map_entries(*final(m)) == user_map_entries(*old(m)).push((key@, value)),
        (exists|i: int| 0 <= i < user_map_entries(*old(m)).len() && (#[trigger] user_map_entries(*old(m))[i]).0 == key@)
            ==> exists|i: int| {
                &&& 0 <= i < user_map_entries(*old(m)).len()
                &&& (#[trigger] user_map_entries(*old(m))[i]).0 == key@
                &&& forall|k: int| 0 <= k < i ==> user_map_entries(*old(m))[k].0 != key@
                &&& r == Some(user_map_entries(*old(m))[i].1)
                &&& user_map_entries(*final(m)) == user_map_entries(*old(m)).update(i, (key@, value))
            },
{
    m.insert(key, value)
}

/// Each user paired with its id.
pub open spec fn keyed(s: Seq<User>) -> Seq<(Seq<char>, User)> {
    s.map_values(|u: User| (u.user_id@, u))
}

/// The users of `listed` keyed by user id, in the order of `listed`.
pub fn index_users(listed: &Vec<User>) -> (r: LinearMap<String, User>)
    ensures
        distinct_ids(listed@) ==> user_map_entries(r) == keyed(listed@),
{
    let mut m = empty_user_map();
    let mut i: usize = 0;
    while i < listed.len()
        invariant
            i <= listed@.len(),
            distinct_ids(listed@) ==> user_map_entries(m) == keyed(listed@.subrange(0, i as int)),
        decreases listed@.len() - i,
    {
        let u = listed[i].duplicate();
        let ghost entries = user_map_entries(m);
        proof {
            if distinct_ids(listed@) {
                assert forall|k: int| 0 <= k < entries.len() implies (#[trigger] entries[k]).0 != u.user_id@ by {
                    assert(entries[k] == (listed@[k].user_id@, listed@[k]));
                }
            }
        }
        user_map_insert(&mut m, u.user_id.clone(), u);
        assert(listed@.subrange(0, i + 1).map_values(|u: User| (u.user_id@, u))
            == listed@.subrange(0, i as int).map_values(|u: User| (u.user_id@, u)).push((listed@[i as int].user_id@, listed@[i as int])));
        i += 1;
    }
    assert(listed@.subrange(0, listed@.len() as int) == listed@);
    m
}

/// Every user with its derived balance, keyed by user id, in non-decreasing
/// order of balance.
pub fn users_by_balance(users: &Vec<UserRecord>, txs: &Vec<Transaction>) -> (r: LinearMap<String, User>)
    ensures
        unique_user_ids(users@) ==> exists|s: Seq<User>| {
            &&& s.to_multiset() == user_views(users@, txs@).to_multiset()
            &&& sorted_by_balance(s)
            &&& #[trigger] keyed(s) == user_map_entries(r)
        },
{
    let listed = users_with_balances(users, txs);
    let r = index_users(&listed);
    proof {
        if unique_user_ids(users@) {
            assert(keyed(listed@) == user_map_entries(r));
        }
    }
    r
}

} // verus!
