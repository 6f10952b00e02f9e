//! A message dispatch filter for a consensus node.
//!
//! The filter sits between the consensus engine and the network transport.
//! Outbound protocol messages arrive tagged with their destinations on one of
//! two pipelines, are optionally held back for an artificial delay, and are
//! then serialized into transport envelopes.
//!
//! The crate holds the decisions of that component as a state machine from
//! events to actions; the surrounding runtime performs the waiting and the
//! channel traffic.

pub mod message;
pub mod policy;
pub mod envelope;
pub mod model;
pub mod scheduler;
pub mod dispatch;
pub mod laws;
