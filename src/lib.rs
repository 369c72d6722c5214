//! A multi-provider gateway for Ethereum JSON-RPC calls: provider registry and
//! source resolution, call metering and the provider ledger, deterministic
//! response canonicalization, access control and signature checks.

pub mod text;
pub mod validate;
pub mod auth;
pub mod registry;
pub mod error;
pub mod ledger;
pub mod cost;
pub mod transform;
pub mod signature;
pub mod gateway;
pub mod rpc_args;
