//! Core of a FIX drop-copy relay: per-session retention of received
//! application messages keyed by sequence number, classification of inbound
//! traffic into ordinary messages and resend requests, and replay of stored
//! ranges with duplicate flagging.
//!
//! The FIX engine itself (session negotiation, framing, transport) is an
//! external collaborator: this crate consumes already-parsed messages and
//! hands back decisions and outbound payloads.

pub mod config;
pub mod dispatch;
pub mod handler;
pub mod message;
pub mod numeric;
pub mod resend;
pub mod store;
pub mod worker;
