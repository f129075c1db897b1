//! The registry actor: the single owner of the client table. It processes
//! one command at a time and answers with the actions the surrounding
//! process must perform (reply with an assigned id, emit a lifecycle event,
//! enqueue a command on one client's writer channel, or announce shutdown).
//!
//! The whole transition is captured by two spec functions, `spec_step` for
//! the state and `spec_actions` for the output, and `handle_command` is
//! proved to implement exactly those.

use vstd::prelude::*;

use crate::events::ListenerEvent;
use crate::slots::{
    first_vacant, lemma_first_vacant_at, lemma_first_vacant_bounds, lemma_live_count_push,
    lemma_live_count_update, lemma_live_ids_count, live_count, live_ids, table_insert, Slots,
};

verus! {

/// A command the registry processes: registrations and traffic arriving
/// from the per-connection actors, and control commands arriving from the
/// control layer. A new connection is identified by the token of its writer
/// channel; the registry assigns the client id.
#[derive(Debug, Clone, PartialEq)]
pub enum RegistryCommand {
    ClientConnected(u64),
    ClientDisconnected(usize),
    LineReceived(usize, String),
    SendTo(usize, String),
    SendToAll(String),
    Kick(usize),
    KickAll,
    Shutdown,
}

/// An effect the surrounding process performs on the registry's behalf:
/// deliver the assigned id to the waiting reader, emit a lifecycle event to
/// the control layer, enqueue a command on the writer channel named by its
/// token, or announce that the registry has terminated.
#[derive(Debug, Clone, PartialEq)]
pub enum Action {
    AssignId(usize),
    Emit(ListenerEvent),
    WriterSend(u64, String),
    WriterClose(u64),
    NotifyShutdown,
}

/// True when `id` names a live client in table `s`.
pub open spec fn slot_live(s: Seq<Option<u64>>, id: usize) -> bool {
    id < s.len() && s[id as int] is Some
}

/// One `Send` per live client of `s`, in id order, each carrying `line`.
pub open spec fn send_actions(s: Seq<Option<u64>>, line: String) -> Seq<Action>
    decreases s.len(),
{
    if s.len() == 0 {
        Seq::empty()
    } else {
        send_actions(s.drop_last(), line) + (match s.last() {
            Some(t) => seq![Action::WriterSend(t, line)],
            None => Seq::empty(),
        })
    }
}

/// One `Close` per live client of `s`, in id order.
pub open spec fn close_actions(s: Seq<Option<u64>>) -> Seq<Action>
    decreases s.len(),
{
    if s.len() == 0 {
        Seq::empty()
    } else {
        close_actions(s.drop_last()) + (match s.last() {
            Some(t) => seq![Action::WriterClose(t)],
            None => Seq::empty(),
        })
    }
}

/// The table and run flag after the registry processes `cmd`: a terminated
/// registry ignores every command; otherwise a connect fills the smallest
/// vacant slot, a disconnect of a live id frees that one slot (a repeated
/// disconnect is a no-op), `Shutdown` reaches the terminal state, and no
/// other command touches the table.
pub open spec fn spec_step(
    s: Seq<Option<u64>>,
    running: bool,
    cmd: RegistryCommand,
) -> (Seq<Option<u64>>, bool) {
    if !running {
        (s, false)
    } else {
        match cmd {
            RegistryCommand::ClientConnected(tok) => (table_insert(s, tok), true),
            RegistryCommand::ClientDisconnected(id) => if slot_live(s, id) {
                (s.update(id as int, None), true)
            } else {
                (s, true)
            },
            RegistryCommand::Shutdown => (s, false),
            _ => (s, true),
        }
    }
}

/// The actions the registry performs while processing `cmd`. A terminated
/// registry performs none. A connect answers the reader with the assigned
/// id and reports the arrival; a disconnect of a live id reports the
/// departure (a repeated disconnect reports nothing); a received line is
/// forwarded verbatim; sends and kicks aimed at an absent id are silently
/// dropped; broadcasts and kicks reach every live client in id order; and
/// `Shutdown` closes every live client's writer, then announces termination.
pub open spec fn spec_actions(
    s: Seq<Option<u64>>,
    running: bool,
    cmd: RegistryCommand,
) -> Seq<Action> {
    if !running {
        Seq::empty()
    } else {
        match cmd {
            RegistryCommand::ClientConnected(_) => seq![
                Action::AssignId(first_vacant(s) as usize),
                Action::Emit(ListenerEvent::ClientConnected(first_vacant(s) as usize)),
            ],
            RegistryCommand::ClientDisconnected(id) => if slot_live(s, id) {
                seq![Action::Emit(ListenerEvent::ClientDisconnected(id))]
            } else {
                Seq::empty()
            },
            RegistryCommand::LineReceived(id, line) => seq![
                Action::Emit(ListenerEvent::LineReceived(id, line)),
            ],
            RegistryCommand::SendTo(id, line) => if slot_live(s, id) {
                seq![Action::WriterSend(s[id as int]->0, line)]
            } else {
                Seq::empty()
            },
            RegistryCommand::SendToAll(line) => send_actions(s, line),
            RegistryCommand::Kick(id) => if slot_live(s, id) {
                seq![Action::WriterClose(s[id as int]->0)]
            } else {
                Seq::empty()
            },
            RegistryCommand::KickAll => close_actions(s),
            RegistryCommand::Shutdown => close_actions(s).push(Action::NotifyShutdown),
        }
    }
}

/// Extending a table prefix by one slot appends that slot's send, if any.
proof fn lemma_send_actions_prefix(s: Seq<Option<u64>>, i: int, line: String)
    requires
        0 <= i < s.len(),
    ensures
        send_actions(s.subrange(0, i + 1), line) == send_actions(s.subrange(0, i), line)
            + (match s[i] {
            Some(t) => seq![Action::WriterSend(t, line)],
            None => Seq::<Action>::empty(),
        }),
{
    let p = s.subrange(0, i + 1);
    assert(p.drop_last() =~= s.subrange(0, i));
    assert(p.last() == s[i]);
}

/// Extending a table prefix by one slot appends that slot's close, if any.
proof fn lemma_close_actions_prefix(s: Seq<Option<u64>>, i: int)
    ensures
        0 <= i < s.len() ==> close_actions(s.subrange(0, i + 1)) == close_actions(
            s.subrange(0, i),
        ) + (match s[i] {
            Some(t) => seq![Action::WriterClose(t)],
            None => Seq::<Action>::empty(),
        }),
{
    if 0 <= i < s.len() {
        let p = s.subrange(0, i + 1);
        assert(p.drop_last() =~= s.subrange(0, i));
        assert(p.last() == s[i]);
    }
}

/// Fold of `spec_step` over a whole command sequence, front to back.
pub open spec fn run_steps(
    s: Seq<Option<u64>>,
    running: bool,
    cmds: Seq<RegistryCommand>,
) -> (Seq<Option<u64>>, bool)
    decreases cmds.len(),
{
    if cmds.len() == 0 {
        (s, running)
    } else {
        let st = spec_step(s, running, cmds[0]);
        run_steps(st.0, st.1, cmds.subrange(1, cmds.len() as int))
    }
}

/// How many connect commands a sequence holds.
pub open spec fn count_connects(cmds: Seq<RegistryCommand>) -> nat
    decreases cmds.len(),
{
    if cmds.len() == 0 {
        0
    } else {
        (if cmds[0] is ClientConnected {
            1nat
        } else {
            0nat
        }) + count_connects(cmds.subrange(1, cmds.len() as int))
    }
}

/// One step raises the number of live clients only on a connect, and then
/// by exactly one.
proof fn lemma_step_live_count(s: Seq<Option<u64>>, running: bool, cmd: RegistryCommand)
    ensures
        live_count(spec_step(s, running, cmd).0) <= live_count(s) + (if cmd is ClientConnected {
            1nat
        } else {
            0nat
        }),
{
    if running {
        match cmd {
            RegistryCommand::ClientConnected(tok) => {
                lemma_first_vacant_bounds(s);
                if first_vacant(s) < s.len() {
                    lemma_live_count_update(s, first_vacant(s), Some(tok));
                } else {
                    lemma_live_count_push(s, Some(tok));
                }
            }
            RegistryCommand::ClientDisconnected(id) => {
                if slot_live(s, id) {
                    lemma_live_count_update(s, id as int, None);
                }
            }
            _ => {}
        }
    }
}

proof fn lemma_run_live_count(s: Seq<Option<u64>>, running: bool, cmds: Seq<RegistryCommand>)
    ensures
        live_count(run_steps(s, running, cmds).0) <= live_count(s) + count_connects(cmds),
    decreases cmds.len(),
{
    if cmds.len() > 0 {
        let st = spec_step(s, running, cmds[0]);
        lemma_step_live_count(s, running, cmds[0]);
        lemma_run_live_count(st.0, st.1, cmds.subrange(1, cmds.len() as int));
    }
}

proof fn lemma_count_connects_le(cmds: Seq<RegistryCommand>)
    ensures
        count_connects(cmds) <= cmds.len(),
    decreases cmds.len(),
{
    if cmds.len() > 0 {
        lemma_count_connects_le(cmds.subrange(1, cmds.len() as int));
    }
}

/// Law: run any sequence of commands against a fresh registry. The live
/// client ids form a finite set — a set of table indices, so free of
/// duplicates by construction — whose size never exceeds the number of
/// connect commands processed, and so never exceeds the number of commands.
pub proof fn lemma_live_ids_bounded(cmds: Seq<RegistryCommand>)
    ensures
        ({
            let t = run_steps(Seq::empty(), true, cmds).0;
            &&& live_ids(t).finite()
            &&& live_ids(t).len() == live_count(t)
            &&& live_ids(t).len() <= count_connects(cmds)
            &&& live_ids(t).len() <= cmds.len()
        }),
{
    let t = run_steps(Seq::empty(), true, cmds).0;
    lemma_run_live_count(Seq::empty(), true, cmds);
    lemma_live_ids_count(t);
    lemma_count_connects_le(cmds);
}

/// Law: a connect never assigns an id that is still present in the table,
/// and the assigned id is live immediately afterwards.
pub proof fn lemma_assigned_id_fresh(s: Seq<Option<u64>>, tok: u64)
    requires
        s.len() <= usize::MAX,
    ensures
        spec_actions(s, true, RegistryCommand::ClientConnected(tok))[0] == Action::AssignId(
            first_vacant(s) as usize,
        ),
        !slot_live(s, first_vacant(s) as usize),
        slot_live(
            spec_step(s, true, RegistryCommand::ClientConnected(tok)).0,
            first_vacant(s) as usize,
        ),
{
    lemma_first_vacant_bounds(s);
}

/// Law: an id freed by a disconnect is vacant afterwards and, while no
/// smaller id is vacant, the very next connect assigns exactly that id.
pub proof fn lemma_id_reuse(s: Seq<Option<u64>>, id: usize, tok: u64)
    requires
        s.len() <= usize::MAX,
        slot_live(s, id),
        forall|j: int| 0 <= j < id ==> s[j] is Some,
    ensures
        ({
            let s1 = spec_step(s, true, RegistryCommand::ClientDisconnected(id)).0;
            &&& !slot_live(s1, id)
            &&& first_vacant(s1) == id
            &&& spec_actions(s1, true, RegistryCommand::ClientConnected(tok))[0]
                == Action::AssignId(id)
            &&& spec_step(s1, true, RegistryCommand::ClientConnected(tok)).0 == s1.update(
                id as int,
                Some(tok),
            )
        }),
{
    let s1 = s.update(id as int, None);
    lemma_first_vacant_at(s1, id as int);
}

/// Law: a broadcast reaches every client live at the moment it is
/// processed — exactly one send per live client, each carrying the
/// broadcast line.
pub proof fn lemma_broadcast_covers_live(s: Seq<Option<u64>>, line: String)
    ensures
        send_actions(s, line).len() == live_count(s),
        forall|id: int| #![trigger s[id]]
            0 <= id < s.len() && s[id] is Some ==> send_actions(s, line).contains(
                Action::WriterSend(s[id]->0, line),
            ),
    decreases s.len(),
{
    if s.len() > 0 {
        let t = s.drop_last();
        let tail = (match s.last() {
            Some(tk) => seq![Action::WriterSend(tk, line)],
            None => Seq::<Action>::empty(),
        });
        lemma_broadcast_covers_live(t, line);
        assert forall|id: int|
            0 <= id < s.len() && s[id] is Some implies send_actions(s, line).contains(
            Action::WriterSend(s[id]->0, line),
        ) by {
            let a = send_actions(t, line);
            if id < s.len() - 1 {
                assert(t[id] == s[id]);
                assert(a.contains(Action::WriterSend(t[id]->0, line)));
                let k = choose|k: int|
                    0 <= k < a.len() && a[k] == Action::WriterSend(t[id]->0, line);
                assert(send_actions(s, line)[k] == Action::WriterSend(s[id]->0, line));
            } else {
                assert(send_actions(s, line)[a.len() as int] == Action::WriterSend(
                    s[id]->0,
                    line,
                ));
            }
        }
    }
}

/// Every live client's writer is told to close, exactly once per live
/// client.
pub proof fn lemma_closes_cover_live(s: Seq<Option<u64>>)
    ensures
        close_actions(s).len() == live_count(s),
        forall|id: int| #![trigger s[id]]
            0 <= id < s.len() && s[id] is Some ==> close_actions(s).contains(
                Action::WriterClose(s[id]->0),
            ),
    decreases s.len(),
{
    if s.len() > 0 {
        let t = s.drop_last();
        lemma_closes_cover_live(t);
        assert forall|id: int|
            0 <= id < s.len() && s[id] is Some implies close_actions(s).contains(
            Action::WriterClose(s[id]->0),
        ) by {
            let a = close_actions(t);
            if id < s.len() - 1 {
                assert(t[id] == s[id]);
                assert(a.contains(Action::WriterClose(t[id]->0)));
                let k = choose|k: int| 0 <= k < a.len() && a[k] == Action::WriterClose(t[id]->0);
                assert(close_actions(s)[k] == Action::WriterClose(s[id]->0));
            } else {
                assert(close_actions(s)[a.len() as int] == Action::WriterClose(s[id]->0));
            }
        }
    }
}

/// Law: `Shutdown` closes every live client's writer and announces
/// termination, and a terminated registry accepts nothing — any later
/// command leaves the table untouched and performs no action at all.
pub proof fn lemma_shutdown_terminal(s: Seq<Option<u64>>, cmd: RegistryCommand)
    ensures
        spec_step(s, true, RegistryCommand::Shutdown).0 == s,
        !spec_step(s, true, RegistryCommand::Shutdown).1,
        spec_actions(s, true, RegistryCommand::Shutdown) == close_actions(s).push(
            Action::NotifyShutdown,
        ),
        close_actions(s).len() == live_count(s),
        forall|id: int| #![trigger s[id]]
            0 <= id < s.len() && s[id] is Some ==> close_actions(s).contains(
                Action::WriterClose(s[id]->0),
            ),
        spec_step(s, false, cmd).0 == s,
        !spec_step(s, false, cmd).1,
        spec_actions(s, false, cmd) == Seq::<Action>::empty(),
{
    lemma_closes_cover_live(s);
}

/// The registry's state: the client table and whether the command loop is
/// still accepting commands.
pub struct Registry {
    clients: Slots,
    running: bool,
}

impl Registry {
    /// The client table: slot `id` holds the writer token of client `id`.
    pub closed spec fn table(&self) -> Seq<Option<u64>> {
        self.clients@
    }

    /// False once `Shutdown` has been processed.
    pub closed spec fn is_running(&self) -> bool {
        self.running
    }

    /// A fresh registry: no clients, accepting commands.
    pub fn new() -> (r: Registry)
        ensures
            r.table() == Seq::<Option<u64>>::empty(),
            r.is_running(),
    {
        Registry { clients: Slots::new(), running: true }
    }

    /// Whether the registry still accepts commands.
    pub fn running(&self) -> (b: bool)
        ensures
            b == self.is_running(),
    {
        self.running
    }

    /// Whether client `id` is currently registered.
    pub fn contains(&self, id: usize) -> (b: bool)
        ensures
            b == slot_live(self.table(), id),
    {
        self.clients.contains(id)
    }

    /// The table's current extent.
    pub fn table_len(&self) -> (n: usize)
        ensures
            n == self.table().len(),
    {
        self.clients.slot_count()
    }

    /// Process one command: the state moves exactly as `spec_step` says and
    /// the returned actions are exactly `spec_actions`, in order.
    pub fn handle_command(&mut self, cmd: RegistryCommand) -> (acts: Vec<Action>)
        requires
            cmd is ClientConnected ==> old(self).table().len() < usize::MAX,
        ensures
            final(self).table() == spec_step(
                old(self).table(),
                old(self).is_running(),
                cmd,
            ).0,
            final(self).is_running() == spec_step(
                old(self).table(),
                old(self).is_running(),
                cmd,
            ).1,
            acts@ == spec_actions(old(self).table(), old(self).is_running(), cmd),
    {
        let mut acts: Vec<Action> = Vec::new();
        if !self.running {
            assert(acts@ =~= Seq::<Action>::empty());
            return acts;
        }
        match cmd {
            RegistryCommand::ClientConnected(tok) => {
                let id = self.clients.insert(tok);
                acts.push(Action::AssignId(id));
                acts.push(Action::Emit(ListenerEvent::ClientConnected(id)));
                assert(acts@ =~= seq![
                    Action::AssignId(id),
                    Action::Emit(ListenerEvent::ClientConnected(id)),
                ]);
            }
            RegistryCommand::ClientDisconnected(id) => {
                if self.clients.contains(id) {
                    self.clients.remove(id);
                    acts.push(Action::Emit(ListenerEvent::ClientDisconnected(id)));
                    assert(acts@ =~= seq![Action::Emit(ListenerEvent::ClientDisconnected(id))]);
                } else {
                    assert(acts@ =~= Seq::<Action>::empty());
                }
            }
            RegistryCommand::LineReceived(id, line) => {
                acts.push(Action::Emit(ListenerEvent::LineReceived(id, line)));
            }
            RegistryCommand::SendTo(id, line) => {
                match self.clients.get(id) {
                    Some(t) => {
                        acts.push(Action::WriterSend(t, line));
                    }
                    None => {
                        assert(acts@ =~= Seq::<Action>::empty());
                    }
                }
            }
            RegistryCommand::SendToAll(line) => {
                self.push_sends(&mut acts, &line);
            }
            RegistryCommand::Kick(id) => {
                match self.clients.get(id) {
                    Some(t) => {
                        acts.push(Action::WriterClose(t));
                    }
                    None => {
                        assert(acts@ =~= Seq::<Action>::empty());
                    }
                }
            }
            RegistryCommand::KickAll => {
                self.push_closes(&mut acts);
            }
            RegistryCommand::Shutdown => {
                self.push_closes(&mut acts);
                acts.push(Action::NotifyShutdown);
                self.running = false;
            }
        }
        acts
    }

    /// Append one `Send(line)` per live client, in id order.
    fn push_sends(&self, acts: &mut Vec<Action>, line: &String)
        requires
            old(acts)@ == Seq::<Action>::empty(),
        ensures
            final(acts)@ == send_actions(self.table(), *line),
    {
        let n = self.clients.slot_count();
        let mut i: usize = 0;
        assert(self.table().subrange(0, 0) =~= Seq::<Option<u64>>::empty());
        while i < n
            invariant
                i <= n,
                n == self.table().len(),
                acts@ == send_actions(self.table().subrange(0, i as int), *line),
            decreases n - i,
        {
            match self.clients.get(i) {
                Some(t) => {
                    acts.push(Action::WriterSend(t, line.clone()));
                }
                None => {}
            }
            proof {
                lemma_send_actions_prefix(self.table(), i as int, *line);
                assert(acts@ =~= send_actions(self.table().subrange(0, i as int + 1), *line));
            }
            i += 1;
        }
        assert(self.table().subrange(0, n as int) =~= self.table());
    }

    /// Append one `Close` per live client, in id order.
    fn push_closes(&self, acts: &mut Vec<Action>)
        requires
            old(acts)@ == Seq::<Action>::empty(),
        ensures
            final(acts)@ == close_actions(self.table()),
    {
        let n = self.clients.slot_count();
        let mut i: usize = 0;
        assert(self.table().subrange(0, 0) =~= Seq::<Option<u64>>::empty());
        while i < n
            invariant
                i <= n,
                n == self.table().len(),
                acts@ == close_actions(self.table().subrange(0, i as int)),
            decreases n - i,
        {
            match self.clients.get(i) {
                Some(t) => {
                    acts.push(Action::WriterClose(t));
                }
                None => {}
            }
            proof {
                lemma_close_actions_prefix(self.table(), i as int);
                assert(acts@ =~= close_actions(self.table().subrange(0, i as int + 1)));
            }
            i += 1;
        }
        assert(self.table().subrange(0, n as int) =~= self.table());
    }
}

} // verus!
