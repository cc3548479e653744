//! Contributor-side core of a cross-chain token sale.
//!
//! A conductor chain originates a sale, later seals it (distributing
//! allocations of the sold token) or aborts it (enabling refunds).  This
//! crate holds the verified core that runs on each contributor chain: the
//! ingestion gate for verified cross-chain messages, the sale registry, the
//! per-asset contribution ledger, the escrow reconciler, and the
//! allocation/refund engine.  Message verification, token movement and wire
//! encoding are the host's business; the core consumes and produces plain
//! values.

pub mod errors;
pub mod types;
pub mod state;
pub mod instantiate;
pub mod vaa;
pub mod ledger;
pub mod claims;
pub mod query;
pub mod msg;
