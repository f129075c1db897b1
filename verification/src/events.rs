//! The two message vocabularies exchanged with the external control layer:
//! lifecycle events the registry reports outward, and control commands the
//! control layer issues inward.

use vstd::prelude::*;

verus! {

/// A lifecycle event the registry emits to the control layer: a client
/// appeared, a client went away, or a client sent one line of text.
#[derive(Debug, Clone, PartialEq)]
pub enum ListenerEvent {
    ClientConnected(usize),
    ClientDisconnected(usize),
    LineReceived(usize, String),
}

/// A command the control layer issues to the registry: write a line to one
/// client or to all of them, disconnect one client or all of them, or stop
/// the whole server.
#[derive(Debug, Clone, PartialEq)]
pub enum LuaEvent {
    SendTo(usize, String),
    SendToAll(String),
    Kick(usize),
    KickAll,
    Shutdown,
}

} // verus!
