//! The rows and entities that the storage layer reads and returns.

use vstd::prelude::*;

verus! {

/// A row of the users table.
#[derive(Clone, Debug, PartialEq, Eq)]
pub struct UserRecord {
    pub user_id: String,
    pub display_name: String,
}

/// A user as reported to callers, with the balance derived from the ledger.
#[derive(Clone, Debug, PartialEq, Eq)]
pub struct User {
    pub user_id: String,
    pub display_name: String,
    pub balance: i128,
}

/// One entry of the ledger: `shafter` is owed `amount` by `shaftee`.
#[derive(Clone, Debug, PartialEq, Eq)]
pub struct Transaction {
    pub shafter: String,
    pub shaftee: String,
    pub amount: i64,
    /// Seconds since the Unix epoch.
    pub time_sec: i64,
    pub reason: String,
}

/// A bearer token issued to a user.
#[derive(Clone, Debug, PartialEq, Eq)]
pub struct TokenRecord {
    pub token: String,
    pub user_id: String,
}

/// Links an identity provider's account id to an internal user id.
#[derive(Clone, Debug, PartialEq, Eq)]
pub struct ExternalLink {
    pub external_id: String,
    pub user_id: String,
}

/// The ways a storage operation can fail.
#[derive(Clone, Debug, PartialEq, Eq)]
pub enum DatabaseError {
    /// The connection pool could not supply a connection.
    ConnectionPool { message: String },
    /// The backend failed to prepare or run a statement, or refused it.
    Query { message: String },
    /// The referenced user has no row in the users table.
    UnknownUser { user_id: String },
}

impl UserRecord {
    pub fn duplicate(&self) -> (r: UserRecord)
        ensures
            r == *self,
    {
        UserRecord { user_id: self.user_id.clone(), display_name: self.display_name.clone() }
    }
}

impl User {
    pub fn duplicate(&self) -> (r: User)
        ensures
            r == *self,
    {
        User { user_id: self.user_id.clone(), display_name: self.display_name.clone(), balance: self.balance }
    }
}

impl Transaction {
    pub fn duplicate(&self) -> (r: Transaction)
        ensures
            r == *self,
    {
        Transaction {
            shafter: self.shafter.clone(),
            shaftee: self.shaftee.clone(),
            amount: self.amount,
            time_sec: self.time_sec,
            reason: self.reason.clone(),
        }
    }
}

} // verus!
