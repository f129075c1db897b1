//! The control bridge: the pure translation boundary between the registry
//! and the external control layer. Inbound, every control command becomes
//! exactly one registry command; outbound, every lifecycle event becomes the
//! callback invocation the control layer consumes. The bridge holds no state
//! of its own, except the shutdown latch the control layer uses to make sure
//! it asks for shutdown at most once.

use vstd::prelude::*;

use crate::events::{ListenerEvent, LuaEvent};
use crate::registry::RegistryCommand;

verus! {

/// The registry command a control command translates to, and whether the
/// control loop stops forwarding afterwards (only `Shutdown` ends it).
pub open spec fn spec_control_to_registry(ev: LuaEvent) -> (RegistryCommand, bool) {
    match ev {
        LuaEvent::SendTo(id, line) => (RegistryCommand::SendTo(id, line), false),
        LuaEvent::SendToAll(line) => (RegistryCommand::SendToAll(line), false),
        LuaEvent::Kick(id) => (RegistryCommand::Kick(id), false),
        LuaEvent::KickAll => (RegistryCommand::KickAll, false),
        LuaEvent::Shutdown => (RegistryCommand::Shutdown, true),
    }
}

/// Translate one control command into the registry command it stands for.
/// The second component says whether this was the final command.
pub fn control_to_registry(ev: LuaEvent) -> (r: (RegistryCommand, bool))
    ensures
        r == spec_control_to_registry(ev),
{
    match ev {
        LuaEvent::SendTo(id, line) => (RegistryCommand::SendTo(id, line), false),
        LuaEvent::SendToAll(line) => (RegistryCommand::SendToAll(line), false),
        LuaEvent::Kick(id) => (RegistryCommand::Kick(id), false),
        LuaEvent::KickAll => (RegistryCommand::KickAll, false),
        LuaEvent::Shutdown => (RegistryCommand::Shutdown, true),
    }
}

/// The callback invocation the control layer consumes for one lifecycle
/// event: the callback's name, the client it concerns, and the received
/// line when there is one.
pub struct Dispatch {
    pub callback: String,
    pub client: usize,
    pub line: Option<String>,
}

/// Translate one lifecycle event into the callback invocation the control
/// layer consumes: `on_client_connected`, `on_client_disconnected` or
/// `on_line_received`, with the client id and, for a received line, the
/// line itself.
pub fn event_dispatch(ev: ListenerEvent) -> (d: Dispatch)
    ensures
        match ev {
            ListenerEvent::ClientConnected(id) => d.callback@ == "on_client_connected"@
                && d.client == id && d.line is None,
            ListenerEvent::ClientDisconnected(id) => d.callback@ == "on_client_disconnected"@
                && d.client == id && d.line is None,
            ListenerEvent::LineReceived(id, line) => d.callback@ == "on_line_received"@
                && d.client == id && d.line == Some(line),
        },
{
    match ev {
        ListenerEvent::ClientConnected(id) => Dispatch {
            callback: String::from_str("on_client_connected"),
            client: id,
            line: None,
        },
        ListenerEvent::ClientDisconnected(id) => Dispatch {
            callback: String::from_str("on_client_disconnected"),
            client: id,
            line: None,
        },
        ListenerEvent::LineReceived(id, line) => Dispatch {
            callback: String::from_str("on_line_received"),
            client: id,
            line: Some(line),
        },
    }
}

/// The control layer's shutdown latch: armed until the first shutdown
/// request goes through, so the shutdown command is issued at most once
/// however often the layer asks for it.
pub struct ControlGate {
    armed: bool,
}

impl ControlGate {
    /// Whether a shutdown request would still be forwarded.
    pub closed spec fn is_armed(&self) -> bool {
        self.armed
    }

    /// A fresh latch: the first shutdown request will be forwarded.
    pub fn new() -> (g: ControlGate)
        ensures
            g.is_armed(),
    {
        ControlGate { armed: true }
    }

    /// Request shutdown: true the first time, false ever after; the latch
    /// is disarmed from then on.
    pub fn try_shutdown(&mut self) -> (fire: bool)
        ensures
            fire == old(self).is_armed(),
            !final(self).is_armed(),
    {
        let fire = self.armed;
        self.armed = false;
        fire
    }
}

} // verus!
