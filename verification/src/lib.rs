//! Four on-chain programs: a voting ballot, a shared (multisig) wallet, a
//! user identity registry and a blog, each with its account constraints.
pub mod accounts;
pub mod shared_wallet;
pub mod voting;
pub mod identity;
pub mod solblog;
