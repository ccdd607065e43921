//! The event core of a cluster node that speaks a line-oriented message
//! protocol: replies, gossip of a growing set, a grow-only counter, a
//! single-leader replicated log and an epoch sequencer for transactions.
//!
//! Every handler is a function from the node's state and one event to the
//! next state and the messages to emit; reading and writing lines is left
//! to the caller.

pub mod broadcaster;
pub mod counter;
pub mod gossip;
pub mod ident;
pub mod idmap;
pub mod kvstore;
pub mod laws;
pub mod logstore;
pub mod message;
pub mod model;
pub mod neighborhood;
pub mod node;
pub mod sequencer;
pub mod unique;
pub mod valueset;
