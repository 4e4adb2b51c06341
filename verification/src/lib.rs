//! A node runtime for small replicated protocols that talk over a line
//! protocol: echo, gossip broadcast and a grow-only set.
//!
//! The library is a sequential state machine. A driver reads and decodes the
//! lines, hands each to the [`runtime::Runtime`] or the [`node::Node`], tells
//! it the time now and then, and writes out the messages and log lines it
//! has collected. The library never blocks and never does I/O.
//!
//! What the node is and does is stated over a mathematical picture of it,
//! [`state::NodeView`]: each operation says which picture it leaves. The
//! modules [`convergence`], [`correlation`] and [`delivery`] prove what
//! follows for whole runs: a value is spread once, an acknowledged
//! neighbour is left alone, a reply reaches only the continuation of its
//! own request, at most once, and a value is sent again for as long as a
//! neighbour owes its acknowledgment.

pub mod callbacks;
pub mod convergence;
pub mod correlation;
pub mod delivery;
pub mod error;
pub mod handshake;
pub mod message;
pub mod message_set;
pub mod node;
pub mod pending;
pub mod runtime;
pub mod scheduler;
pub mod state;
pub mod topology;
