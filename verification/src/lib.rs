//! Client-side logic for an ElectrumX-style JSON endpoint with Atomicals
//! extensions: a failover/retry schedule over a preference-ordered list of
//! base URIs, wire framing and envelope decoding for the typed RPC methods,
//! and the UTXO normalisation, ordering and selection rules layered above.
//!
//! The network itself (HTTP, sleeps, task scheduling) lives outside this
//! crate; everything here is a decision or a computation on plain values.

pub mod client;
pub mod error;
pub mod json;
pub mod retry;
pub mod rpc;
pub mod text;
pub mod utxo;
