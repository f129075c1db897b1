//! The writer actor: owns the outbound half of exactly one socket and
//! processes its private command queue in strict arrival order. `Send`
//! frames the line with a trailing newline and hands the framed text to the
//! socket; `Close` closes the socket and ends the actor; nothing is
//! processed after `Close`. Because the queue is processed front to back, a
//! `Send` queued before a `Close` always reaches the socket before the
//! socket closes — the ordering that makes "send, then kick" safe.

use vstd::prelude::*;
use vstd::string::StringExecFns;

verus! {

/// A command on one client's writer channel.
#[derive(Debug, Clone, PartialEq)]
pub enum WriterCommand {
    Send(String),
    Close,
}

/// What the surrounding process must do to the socket: write the framed
/// text, or flush and close the outbound half.
#[derive(Debug, Clone, PartialEq)]
pub enum WriterAction {
    Write(String),
    CloseSocket,
}

/// One framed line: the line itself with a newline terminator appended.
pub open spec fn framed(line: Seq<char>) -> Seq<char> {
    line.push('\n')
}

/// The framed text a command carries: empty for `Close`.
pub open spec fn framed_of(cmd: WriterCommand) -> Seq<char> {
    match cmd {
        WriterCommand::Send(l) => framed(l@),
        WriterCommand::Close => Seq::empty(),
    }
}

/// The writer state after one command: a closed writer ignores everything;
/// an open one appends the framed line on `Send` and closes on `Close`.
pub open spec fn writer_step(
    active: bool,
    sent: Seq<Seq<char>>,
    cmd: WriterCommand,
) -> (bool, Seq<Seq<char>>) {
    if !active {
        (false, sent)
    } else {
        match cmd {
            WriterCommand::Send(line) => (true, sent.push(framed(line@))),
            WriterCommand::Close => (false, sent),
        }
    }
}

/// Fold of `writer_step` over a whole command queue, front to back.
pub open spec fn writer_run(
    active: bool,
    sent: Seq<Seq<char>>,
    cmds: Seq<WriterCommand>,
) -> (bool, Seq<Seq<char>>)
    decreases cmds.len(),
{
    if cmds.len() == 0 {
        (active, sent)
    } else {
        let st = writer_step(active, sent, cmds[0]);
        writer_run(st.0, st.1, cmds.subrange(1, cmds.len() as int))
    }
}

/// The writer actor's state: whether its socket half is still open, and the
/// framed lines handed to the socket so far, oldest first. The latter is
/// the actor's model of the outbound byte stream.
pub struct Writer {
    active: bool,
    sent: Vec<String>,
}

impl Writer {
    /// Whether the outbound half is still open.
    pub closed spec fn is_active(&self) -> bool {
        self.active
    }

    /// The framed lines handed to the socket so far, oldest first.
    pub closed spec fn stream(&self) -> Seq<Seq<char>> {
        self.sent@.map_values(|s: String| s@)
    }

    /// A writer for a freshly opened socket: open, nothing written yet.
    pub fn new() -> (w: Writer)
        ensures
            w.is_active(),
            w.stream() == Seq::<Seq<char>>::empty(),
    {
        let w = Writer { active: true, sent: Vec::new() };
        proof {
            assert(w.stream() =~= Seq::<Seq<char>>::empty());
        }
        w
    }

    /// Exec observer for `is_active`.
    pub fn active(&self) -> (b: bool)
        ensures
            b == self.is_active(),
    {
        self.active
    }

    /// How many framed lines have been handed to the socket.
    pub fn sent_count(&self) -> (n: usize)
        ensures
            n == self.stream().len(),
    {
        self.sent.len()
    }

    /// A copy of the `k`-th framed line handed to the socket.
    pub fn sent_at(&self, k: usize) -> (s: String)
        requires
            k < self.stream().len(),
        ensures
            s@ == self.stream()[k as int],
    {
        self.sent[k].clone()
    }

    /// Process one command, exactly as `writer_step` says: the returned
    /// action is the write of the framed line while open, the socket close
    /// on `Close`, and nothing once closed.
    pub fn step(&mut self, cmd: WriterCommand) -> (act: Option<WriterAction>)
        ensures
            ({
                let st = writer_step(old(self).is_active(), old(self).stream(), cmd);
                &&& final(self).is_active() == st.0
                &&& final(self).stream() == st.1
            }),
            !old(self).is_active() ==> act is None,
            old(self).is_active() ==> match cmd {
                WriterCommand::Send(line) => (act matches Some(WriterAction::Write(f))
                    && f@ == framed(line@)),
                WriterCommand::Close => act == Some(WriterAction::CloseSocket),
            },
    {
        if !self.active {
            return None;
        }
        match cmd {
            WriterCommand::Send(line) => {
                let mut f = line.clone();
                f.append("\n");
                proof {
                    reveal_strlit("\n");
                    assert(f@ =~= framed(line@));
                }
                self.sent.push(f.clone());
                proof {
                    assert(self.stream() =~= old(self).stream().push(f@));
                }
                Some(WriterAction::Write(f))
            }
            WriterCommand::Close => {
                self.active = false;
                Some(WriterAction::CloseSocket)
            }
        }
    }

    /// A write failed on the socket: the actor moves toward close at once —
    /// the failure never becomes a process-wide fault. The stream model
    /// keeps only what was handed to the socket before the failure.
    pub fn on_write_error(&mut self)
        ensures
            !final(self).is_active(),
            final(self).stream() == old(self).stream(),
    {
        self.active = false;
    }
}

/// A closed writer stays closed and writes nothing more.
proof fn lemma_run_closed_stays(sent: Seq<Seq<char>>, cmds: Seq<WriterCommand>)
    ensures
        writer_run(false, sent, cmds) == (false, sent),
    decreases cmds.len(),
{
    if cmds.len() > 0 {
        lemma_run_closed_stays(sent, cmds.subrange(1, cmds.len() as int));
    }
}

/// A queue of nothing but sends leaves the writer open and appends each
/// framed line, in queue order.
proof fn lemma_run_all_sends(sent: Seq<Seq<char>>, cmds: Seq<WriterCommand>)
    requires
        forall|k: int| 0 <= k < cmds.len() ==> cmds[k] is Send,
    ensures
        writer_run(true, sent, cmds).0,
        writer_run(true, sent, cmds).1 == sent + cmds.map_values(|c: WriterCommand| framed_of(c)),
    decreases cmds.len(),
{
    let m = cmds.map_values(|c: WriterCommand| framed_of(c));
    if cmds.len() == 0 {
        assert(writer_run(true, sent, cmds).1 =~= sent + m);
    } else {
        let rest = cmds.subrange(1, cmds.len() as int);
        let st = writer_step(true, sent, cmds[0]);
        assert(st.1 == sent.push(framed_of(cmds[0])));
        lemma_run_all_sends(st.1, rest);
        assert(st.1 + rest.map_values(|c: WriterCommand| framed_of(c)) =~= sent + m);
    }
}

/// Whatever stands in the stream already is still there, unchanged, after
/// any further commands run.
proof fn lemma_run_extends(active: bool, sent: Seq<Seq<char>>, cmds: Seq<WriterCommand>)
    ensures
        writer_run(active, sent, cmds).1.len() >= sent.len(),
        forall|k: int|
            0 <= k < sent.len() ==> writer_run(active, sent, cmds).1[k] == sent[k],
    decreases cmds.len(),
{
    if cmds.len() > 0 {
        let st = writer_step(active, sent, cmds[0]);
        let rest = cmds.subrange(1, cmds.len() as int);
        lemma_run_extends(st.0, st.1, rest);
        assert forall|k: int|
            0 <= k < sent.len() implies writer_run(active, sent, cmds).1[k] == sent[k] by {
            assert(writer_run(active, sent, cmds) == writer_run(st.0, st.1, rest));
            assert(writer_run(st.0, st.1, rest).1[k] == st.1[k]);
        }
    }
}

/// Once some `Close` stands in the queue, the writer ends closed.
proof fn lemma_run_close_somewhere(active: bool, sent: Seq<Seq<char>>, cmds: Seq<WriterCommand>)
    requires
        exists|k: int| 0 <= k < cmds.len() && cmds[k] is Close,
    ensures
        !writer_run(active, sent, cmds).0,
    decreases cmds.len(),
{
    if !active {
        lemma_run_closed_stays(sent, cmds);
    } else {
        let st = writer_step(active, sent, cmds[0]);
        let rest = cmds.subrange(1, cmds.len() as int);
        if cmds[0] is Close {
            lemma_run_closed_stays(st.1, rest);
        } else {
            let k = choose|k: int| 0 <= k < cmds.len() && cmds[k] is Close;
            assert(rest[k - 1] is Close);
            lemma_run_close_somewhere(st.0, st.1, rest);
        }
    }
}

/// Law: a `Send` that stands in the queue ahead of any `Close`, with a
/// `Close` somewhere behind it, is always written — the framed line stands
/// in the outbound stream at the send's queue position — and the writer
/// ends closed. The write therefore reaches the socket before the socket
/// closes.
pub proof fn lemma_send_written_before_close(
    cmds: Seq<WriterCommand>,
    i: int,
    j: int,
    line: String,
)
    requires
        0 <= i < j < cmds.len(),
        cmds[i] == WriterCommand::Send(line),
        cmds[j] is Close,
        forall|k: int| 0 <= k < i ==> cmds[k] is Send,
    ensures
        ({
            let r = writer_run(true, Seq::empty(), cmds);
            &&& r.1.len() > i
            &&& r.1[i] == framed(line@)
            &&& !r.0
        }),
{
    let pre = cmds.subrange(0, i);
    let rest = cmds.subrange(i, cmds.len() as int);
    assert(cmds =~= pre + rest);
    lemma_run_append(true, Seq::empty(), pre, rest);
    lemma_run_all_sends(Seq::empty(), pre);
    let s1 = writer_run(true, Seq::empty(), pre).1;
    assert(s1.len() == i);
    let rest1 = rest.subrange(1, rest.len() as int);
    assert(rest[0] == cmds[i]);
    let s2 = s1.push(framed(line@));
    assert(writer_run(true, s1, rest) == writer_run(true, s2, rest1));
    lemma_run_extends(true, s2, rest1);
    assert(rest1 =~= cmds.subrange(i + 1, cmds.len() as int));
    assert(rest1[j - i - 1] is Close);
    lemma_run_close_somewhere(true, s2, rest1);
    assert(writer_run(true, Seq::empty(), cmds).1[i] == s2[i]);
}

/// Running a queue split in two is running the first part, then the second.
proof fn lemma_run_append(
    active: bool,
    sent: Seq<Seq<char>>,
    c1: Seq<WriterCommand>,
    c2: Seq<WriterCommand>,
)
    ensures
        writer_run(active, sent, c1 + c2) == writer_run(
            writer_run(active, sent, c1).0,
            writer_run(active, sent, c1).1,
            c2,
        ),
    decreases c1.len(),
{
    if c1.len() == 0 {
        assert(c1 + c2 =~= c2);
    } else {
        let st = writer_step(active, sent, c1[0]);
        assert((c1 + c2)[0] == c1[0]);
        assert((c1 + c2).subrange(1, (c1 + c2).len() as int) =~= c1.subrange(
            1,
            c1.len() as int,
        ) + c2);
        lemma_run_append(st.0, st.1, c1.subrange(1, c1.len() as int), c2);
    }
}

} // verus!
