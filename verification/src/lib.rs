//! Distribution layer for short trade-order messages.
//!
//! Orders travel either point-to-point over an encrypted multiplexed-stream
//! transport, or by gossip broadcast among peers discovered on the local
//! network.  This crate holds the verified core of that layer: the canonical
//! wire codec, the trust-policy and transport-configuration decisions, the
//! per-stream dispatch rules with fault isolation, and the gossip membership
//! and deduplication state machine.  The asynchronous socket plumbing around
//! it lives outside the library and hands plain values in and out.

pub mod codec;
pub mod config;
pub mod creds;
pub mod dispatch;
pub mod errors;
pub mod gossip;
pub mod order;
pub mod session;
pub mod sink;
pub mod trust;
