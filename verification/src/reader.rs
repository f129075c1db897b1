//! The reader actor: owns the inbound half of exactly one socket. It first
//! registers with the registry and waits for its client id; only then may it
//! forward lines, each tagged with that id; and when its stream ends — end
//! of file or a read error, neither is retried — it reports the disconnect
//! exactly once. The `requires` clauses are the protocol: no line before
//! registration, no second disconnect.

use vstd::prelude::*;

use crate::registry::RegistryCommand;

verus! {

/// Where the reader stands in its lifecycle.
#[derive(Debug, Clone, Copy, PartialEq, Eq, Structural)]
pub enum ReaderState {
    Unregistered,
    Registered(usize),
    Closed,
}

/// One connection's reader actor.
pub struct Reader {
    state: ReaderState,
}

impl Reader {
    /// The reader's lifecycle state.
    pub closed spec fn phase(&self) -> ReaderState {
        self.state
    }

    /// A reader for a freshly accepted connection: not yet registered.
    pub fn new() -> (r: Reader)
        ensures
            r.phase() == ReaderState::Unregistered,
    {
        Reader { state: ReaderState::Unregistered }
    }

    /// Exec observer for the lifecycle state.
    pub fn state(&self) -> (s: ReaderState)
        ensures
            s == self.phase(),
    {
        self.state
    }

    /// The registration request this reader opens with: it announces its
    /// sibling writer's channel token and suspends until the registry
    /// answers with the assigned id.
    pub fn register_request(&self, writer_token: u64) -> (c: RegistryCommand)
        requires
            self.phase() == ReaderState::Unregistered,
        ensures
            c == RegistryCommand::ClientConnected(writer_token),
    {
        RegistryCommand::ClientConnected(writer_token)
    }

    /// The registry answered the registration with this client id; lines
    /// may be forwarded from now on.
    pub fn on_registered(&mut self, id: usize)
        requires
            old(self).phase() == ReaderState::Unregistered,
        ensures
            final(self).phase() == ReaderState::Registered(id),
    {
        self.state = ReaderState::Registered(id);
    }

    /// One line arrived on the socket: forward it, tagged with this
    /// reader's id.
    pub fn on_line(&self, line: String) -> (c: RegistryCommand)
        requires
            self.phase() is Registered,
        ensures
            c == RegistryCommand::LineReceived(self.phase()->Registered_0, line),
    {
        match self.state {
            ReaderState::Registered(id) => RegistryCommand::LineReceived(id, line),
            _ => unreached(),
        }
    }

    /// The stream ended (end of file or read error): report the disconnect.
    /// The state moves to `Closed`, so the report can only happen once, and
    /// only after registration — every `Connected` is matched by exactly
    /// one `Disconnected`, even on abnormal closure.
    pub fn on_stream_end(&mut self) -> (c: RegistryCommand)
        requires
            old(self).phase() is Registered,
        ensures
            c == RegistryCommand::ClientDisconnected(old(self).phase()->Registered_0),
            final(self).phase() == ReaderState::Closed,
    {
        let id = match self.state {
            ReaderState::Registered(id) => id,
            _ => unreached(),
        };
        self.state = ReaderState::Closed;
        RegistryCommand::ClientDisconnected(id)
    }
}

} // verus!
