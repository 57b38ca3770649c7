//! Storage layer of a shared ledger: users, bearer tokens and an append-only
//! log of transactions from which every balance is derived on read.

pub mod types;
pub mod queries;
pub mod token;
pub mod ledger;
pub mod user_map;

pub use types::{DatabaseError, ExternalLink, TokenRecord, Transaction, User, UserRecord};
pub use queries::{
    balance_for_user, balance_of, recent_transactions, user_for_token, users_with_balances,
    validate_transaction,
};
pub use token::{generate_token, TOKEN_LENGTH};
pub use ledger::Ledger;
pub use user_map::{index_users, users_by_balance};
