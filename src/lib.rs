//! The state and security core of a contract execution engine: a versioned
//! global state store, the references a deploy may use, weighted-key account
//! authorization, and the execution context of one deploy.

pub mod semver;
pub mod keys;
pub mod named_keys;
pub mod account;
pub mod store;
pub mod capability;
pub mod executor;
pub mod authorized_keys;
pub mod transfer_purse_to_account;
pub mod genesis;
