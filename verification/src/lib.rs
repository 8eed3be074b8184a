//! A poll-diff-notify monitor for a remote download queue: it fetches the
//! service's current snapshot through an authenticated RPC endpoint, compares
//! it against the last stored snapshot, and owes one notification for every
//! detected change — an external IP change or an item crossing into
//! completion — delivered with a bounded retry policy.

pub mod diff;
pub mod engine;
pub mod fetch;
pub mod json;
pub mod notify;
pub mod rpc;
pub mod state;
pub mod store;
pub mod text;
