//! A line-oriented TCP server core: a registry actor that owns the client
//! table, per-connection reader and writer actors, a reusable slot allocator
//! for client identities, and the bridge that translates between the registry
//! and an external control layer.
//!
//! Every state transition of the core is an ordinary function from state and
//! incoming message to new state and outgoing actions, with a contract that
//! pins the transition down exactly. The surrounding process (sockets,
//! threads, channels) performs the actions and feeds the messages back in.

pub mod bridge;
pub mod events;
pub mod reader;
pub mod registry;
pub mod slots;
pub mod writer;
