//! Verified ledgers of a carbon-credit platform: a role registry, a carbon
//! credit token, a registry of field verifiers and an escrow for trading
//! credits against a payment token.
pub mod escrow;
pub mod rbac;
pub mod registry;
pub mod token;
pub mod vecmap;

pub use vecmap::{MapKey, VecMap};
