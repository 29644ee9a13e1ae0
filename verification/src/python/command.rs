//! The dialogue handle that a script drives: a buffer of commands, replayed onto
//! the dialogue once the script's handler has returned.
use crate::dialogue::engine::TerminationHandler;
use crate::dialogue::handle::{following, Dialogue, DialogueModel};
use crate::dialogue::turn::PeerTurn;
use crate::transaction::{copy_some, octets, AbortBy, StagedModel};
use crate::transport::msu::copy_octets;
use vstd::prelude::*;

verus! {

/// An Invoke that a script built.
#[derive(Clone, Debug, PartialEq, Eq)]
pub struct StagedInvoke {
    /// The operation code.
    pub op: i64,
    /// The argument.
    pub arg: Option<Vec<u8>>,
}

/// A ReturnResult that a script built.
#[derive(Clone, Debug, PartialEq, Eq)]
pub struct StagedResult {
    /// The operation code.
    pub op: i64,
    /// The parameter.
    pub param: Option<Vec<u8>>,
}

/// An operation code with optional octets: what a [`StagedInvoke`] or a
/// [`StagedResult`] holds.
pub struct Prepared {
    pub op: i64,
    pub octets: Option<Seq<u8>>,
}

impl View for StagedInvoke {
    type V = Prepared;

    open spec fn view(&self) -> Prepared {
        Prepared { op: self.op, octets: octets(self.arg) }
    }
}

impl View for StagedResult {
    type V = Prepared;

    open spec fn view(&self) -> Prepared {
        Prepared { op: self.op, octets: octets(self.param) }
    }
}

/// One recorded command.
#[derive(Clone, Debug, PartialEq, Eq)]
pub enum DlgCmd {
    Invoke { op: i64, arg: Option<Vec<u8>> },
    Reply { op: i64, result: Option<Vec<u8>> },
    ReplyTo { id: i64, op: i64, result: Option<Vec<u8>> },
    Error { id: i64, code: i64 },
    Send,
    End,
    Abort,
}

/// What a [`DlgCmd`] says.
pub enum Command {
    Invoke { op: i64, arg: Option<Seq<u8>> },
    Reply { op: i64, result: Option<Seq<u8>> },
    ReplyTo { id: i64, op: i64, result: Option<Seq<u8>> },
    Error { id: i64, code: i64 },
    Send,
    End,
    Abort,
}

impl View for DlgCmd {
    type V = Command;

    open spec fn view(&self) -> Command {
        match *self {
            DlgCmd::Invoke { op, arg } => Command::Invoke { op, arg: octets(arg) },
            DlgCmd::Reply { op, result } => Command::Reply { op, result: octets(result) },
            DlgCmd::ReplyTo { id, op, result } => Command::ReplyTo {
                id,
                op,
                result: octets(result),
            },
            DlgCmd::Error { id, code } => Command::Error { id, code },
            DlgCmd::Send => Command::Send,
            DlgCmd::End => Command::End,
            DlgCmd::Abort => Command::Abort,
        }
    }
}

/// What a list of commands says.
pub open spec fn commands(s: Seq<DlgCmd>) -> Seq<Command> {
    s.map_values(|c: DlgCmd| c@)
}

/// The handle that a script drives.
#[derive(Clone, Debug)]
pub struct PyDialogue {
    cmds: Vec<DlgCmd>,
    otid: Vec<u8>,
    dtid: Vec<u8>,
}

impl PyDialogue {
    /// The commands recorded so far.
    pub closed spec fn recorded(&self) -> Seq<Command> {
        commands(self.cmds@)
    }

    /// Our transaction id.
    pub closed spec fn our_tid(&self) -> Seq<u8> {
        self.otid@
    }

    /// The peer's transaction id.
    pub closed spec fn peer_tid(&self) -> Seq<u8> {
        self.dtid@
    }

    /// A handle with nothing recorded.
    pub fn new(otid: Vec<u8>, dtid: Vec<u8>) -> (r: PyDialogue)
        ensures
            r.recorded() == Seq::<Command>::empty(),
            r.our_tid() == otid@,
            r.peer_tid() == dtid@,
    {
        let r = PyDialogue { cmds: Vec::new(), otid, dtid };
        proof {
            assert(r.recorded() =~= Seq::<Command>::empty());
        }
        r
    }

    /// A handle for a dialogue.
    pub fn of(dlg: &Dialogue) -> (r: PyDialogue)
        ensures
            r.recorded() == Seq::<Command>::empty(),
            r.our_tid() == dlg@.our_tid,
            r.peer_tid() == dlg@.peer_tid,
    {
        PyDialogue::new(copy_octets(dlg.otid()), copy_octets(dlg.dtid()))
    }

    /// Our transaction id.
    pub fn otid(&self) -> (r: &Vec<u8>)
        ensures
            r@ == self.our_tid(),
    {
        &self.otid
    }

    /// The peer's transaction id.
    pub fn dtid(&self) -> (r: &Vec<u8>)
        ensures
            r@ == self.peer_tid(),
    {
        &self.dtid
    }

    /// One more command is recorded, and nothing else changed.
    pub open spec fn with(&self, before: &PyDialogue, c: Command) -> bool {
        &&& self.recorded() == before.recorded().push(c)
        &&& self.our_tid() == before.our_tid()
        &&& self.peer_tid() == before.peer_tid()
    }

    fn push(&mut self, cmd: DlgCmd)
        ensures
            final(self).with(old(self), cmd@),
    {
        let ghost before = self.recorded();
        self.cmds.push(cmd);
        proof {
            assert(self.recorded() =~= before.push(cmd@));
        }
    }

    /// Records an Invoke.
    pub fn invoke(&mut self, invoke: &StagedInvoke)
        ensures
            final(self).with(
                old(self),
                Command::Invoke { op: invoke@.op, arg: invoke@.octets },
            ),
    {
        self.push(DlgCmd::Invoke { op: invoke.op, arg: copy_some(&invoke.arg) });
    }

    /// Records a ReturnResultLast for the invoke that opened the dialogue.
    pub fn reply(&mut self, result: &StagedResult)
        ensures
            final(self).with(
                old(self),
                Command::Reply { op: result@.op, result: result@.octets },
            ),
    {
        self.push(DlgCmd::Reply { op: result.op, result: copy_some(&result.param) });
    }

    /// Records a ReturnResultLast for a given invoke id.
    pub fn reply_to(&mut self, invoke_id: i64, result: &StagedResult)
        ensures
            final(self).with(
                old(self),
                Command::ReplyTo { id: invoke_id, op: result@.op, result: result@.octets },
            ),
    {
        self.push(
            DlgCmd::ReplyTo { id: invoke_id, op: result.op, result: copy_some(&result.param) },
        );
    }

    /// Records a ReturnError for a given invoke id.
    pub fn error(&mut self, invoke_id: i64, error_code: i64)
        ensures
            final(self).with(old(self), Command::Error { id: invoke_id, code: error_code }),
    {
        self.push(DlgCmd::Error { id: invoke_id, code: error_code });
    }

    /// Records a flush that keeps the dialogue open.
    pub fn send(&mut self)
        ensures
            final(self).with(old(self), Command::Send),
    {
        self.push(DlgCmd::Send);
    }

    /// Records a flush that closes the dialogue.
    pub fn end(&mut self)
        ensures
            final(self).with(old(self), Command::End),
    {
        self.push(DlgCmd::End);
    }

    /// Records an abort by the dialogue user.
    pub fn abort(&mut self)
        ensures
            final(self).with(old(self), Command::Abort),
    {
        self.push(DlgCmd::Abort);
    }

    /// Takes the recorded commands.
    pub fn take(&mut self) -> (r: Vec<DlgCmd>)
        ensures
            commands(r@) == old(self).recorded(),
            final(self).recorded() == Seq::<Command>::empty(),
            final(self).our_tid() == old(self).our_tid(),
            final(self).peer_tid() == old(self).peer_tid(),
    {
        let mut out: Vec<DlgCmd> = Vec::new();
        std::mem::swap(&mut out, &mut self.cmds);
        proof {
            assert(self.recorded() =~= Seq::<Command>::empty());
        }
        out
    }
}

// ── Replay ──────────────────────────────────────────────────────────────────

/// A dialogue after one command.
pub open spec fn commanded(d: DialogueModel, c: Command) -> DialogueModel {
    match c {
        Command::Invoke { op, arg } => DialogueModel {
            next_invoke_id: following(d.next_invoke_id),
            awaiting_op: Some(op),
            ..d.staging(
                StagedModel::Invoke {
                    invoke_id: d.next_invoke_id,
                    operation: op,
                    parameter: arg,
                },
            )
        },
        Command::Reply { op, result } => d.staging(
            StagedModel::ResultLast {
                invoke_id: d.reply_invoke_id,
                operation: op,
                parameter: result,
            },
        ),
        Command::ReplyTo { id, op, result } => d.staging(
            StagedModel::ResultLast { invoke_id: id, operation: op, parameter: result },
        ),
        Command::Error { id, code } => d.staging(StagedModel::Error { invoke_id: id, error: code }),
        Command::Send => d.flushed(false),
        Command::End => d.flushed(true),
        Command::Abort => d.aborted(AbortBy::User),
    }
}

/// A dialogue after the first `n` commands.
pub open spec fn replayed(d: DialogueModel, cmds: Seq<Command>, n: int) -> DialogueModel
    decreases n,
{
    if n <= 0 {
        d
    } else {
        commanded(replayed(d, cmds, n - 1), cmds[n - 1])
    }
}

/// A dialogue after all commands.
pub open spec fn replayed_all(d: DialogueModel, cmds: Seq<Command>) -> DialogueModel {
    replayed(d, cmds, cmds.len() as int)
}

/// Replays commands onto a dialogue.
pub fn replay(dlg: &mut Dialogue, cmds: Vec<DlgCmd>)
    ensures
        final(dlg)@ == replayed_all(old(dlg)@, commands(cmds@)),
{
    let ghost start = dlg@;
    let ghost said = commands(cmds@);
    let mut i: usize = 0;
    while i < cmds.len()
        invariant
            i <= cmds@.len(),
            said == commands(cmds@),
            dlg@ == replayed(start, said, i as int),
        decreases cmds.len() - i,
    {
        proof {
            assert(said[i as int] == cmds@[i as int]@);
        }
        match &cmds[i] {
            DlgCmd::Invoke { op, arg } => {
                let _ = dlg.invoke(*op, copy_some(arg));
            },
            DlgCmd::Reply { op, result } => dlg.reply(*op, copy_some(result)),
            DlgCmd::ReplyTo { id, op, result } => dlg.reply_to(*id, *op, copy_some(result)),
            DlgCmd::Error { id, code } => dlg.error(*id, *code),
            DlgCmd::Send => dlg.send(),
            DlgCmd::End => dlg.end(),
            DlgCmd::Abort => dlg.abort(AbortBy::User),
        }
        i += 1;
    }
}

/// How the call of a script's handler went.
#[derive(Clone, Copy, PartialEq, Eq, Structural, Debug)]
pub enum CallOutcome {
    /// The handler was not called: its arguments could not be built.
    NotCalled,
    /// The handler raised before it returned.
    Raised,
    /// The handler returned. A coroutine that it returned may still have raised
    /// while it ran.
    Returned,
}

/// Ends a handler's leg: what it recorded is replayed onto the dialogue if the
/// handler returned, even if a coroutine of it raised after that; else the dialogue
/// is left as it was.
pub fn run(dlg: &mut Dialogue, handle: &mut PyDialogue, outcome: CallOutcome)
    ensures
        final(dlg)@ == if outcome == CallOutcome::Returned {
            replayed_all(old(dlg)@, old(handle).recorded())
        } else {
            old(dlg)@
        },
        final(handle).our_tid() == old(handle).our_tid(),
        final(handle).peer_tid() == old(handle).peer_tid(),
        final(handle).recorded() == if outcome == CallOutcome::Returned {
            Seq::<Command>::empty()
        } else {
            old(handle).recorded()
        },
{
    match outcome {
        CallOutcome::Returned => {
            let cmds = handle.take();
            replay(dlg, cmds);
        },
        _ => {},
    }
}

/// A dialogue that was closed stays closed, and what it sent stays sent, whatever
/// a script records.
pub proof fn law_replay_only_adds(d: DialogueModel, cmds: Seq<Command>, n: int)
    requires
        0 <= n <= cmds.len(),
    ensures
        d.closed ==> replayed(d, cmds, n).closed,
        d.out.len() <= replayed(d, cmds, n).out.len(),
        replayed(d, cmds, n).out.subrange(0, d.out.len() as int) == d.out,
        replayed(d, cmds, n).our_tid == d.our_tid,
        replayed(d, cmds, n).peer_tid == d.peer_tid,
        replayed(d, cmds, n).addressing == d.addressing,
    decreases n,
{
    if n > 0 {
        law_replay_only_adds(d, cmds, n - 1);
        let before = replayed(d, cmds, n - 1);
        let after = replayed(d, cmds, n);
        assert(after.out.subrange(0, d.out.len() as int) =~= before.out.subrange(
            0,
            d.out.len() as int,
        ));
    } else {
        assert(d.out.subrange(0, d.out.len() as int) =~= d.out);
    }
}

// ── Origination ─────────────────────────────────────────────────────────────

/// The handler of a dialogue that the node originates for one request and its
/// response.
#[derive(Clone, Debug)]
pub struct OriginationHandler {
    /// The operation to invoke.
    pub op: i64,
    /// Its argument.
    pub arg: Option<Vec<u8>>,
}

/// A dialogue of ours with its opening invoke sent.
pub open spec fn opened_with(d: DialogueModel, op: i64, arg: Option<Seq<u8>>) -> DialogueModel {
    commanded(commanded(d, Command::Invoke { op, arg }), Command::Send)
}

impl OriginationHandler {
    /// Stages the opening invoke and sends it.
    pub fn opening(&self, dialogue: &mut Dialogue)
        ensures
            final(dialogue)@ == opened_with(old(dialogue)@, self.op, octets(self.arg)),
    {
        let _ = dialogue.invoke(self.op, copy_some(&self.arg));
        dialogue.send();
    }

    /// Ends the dialogue where the peer left it open: the response is all there is
    /// to it.
    pub fn answered(&self, dialogue: &mut Dialogue, peer: &PeerTurn)
        ensures
            final(dialogue)@ == if !peer.is_end && !old(dialogue)@.closed {
                old(dialogue)@.flushed(true)
            } else {
                old(dialogue)@
            },
    {
        if !peer.is_end && !dialogue.is_closed() {
            dialogue.end();
        }
    }
}

impl TerminationHandler for OriginationHandler {
    fn on_start(&self, dialogue: &mut Dialogue)
        ensures
            final(dialogue)@ == opened_with(old(dialogue)@, self.op, octets(self.arg)),
    {
        self.opening(dialogue);
    }

    fn on_continue(&self, dialogue: &mut Dialogue, peer: &PeerTurn)
        ensures
            final(dialogue)@ == if !peer.is_end && !old(dialogue)@.closed {
                old(dialogue)@.flushed(true)
            } else {
                old(dialogue)@
            },
    {
        self.answered(dialogue, peer);
    }
}

/// An originated dialogue does not linger: after the peer's first turn it is
/// closed from one side or the other.
pub proof fn law_origination_is_one_exchange(d: DialogueModel, is_end: bool, after: DialogueModel)
    requires
        after == if !is_end && !d.closed {
            d.flushed(true)
        } else {
            d
        },
    ensures
        is_end || after.closed,
{
}

// ── Hexadecimal ─────────────────────────────────────────────────────────────

/// The hexadecimal digit for a number below 16, in lower case.
pub open spec fn hex_digit(n: int) -> char {
    if n < 10 {
        crate::text::digit(n as nat)
    } else if n == 10 {
        'a'
    } else if n == 11 {
        'b'
    } else if n == 12 {
        'c'
    } else if n == 13 {
        'd'
    } else if n == 14 {
        'e'
    } else {
        'f'
    }
}

/// The first `n` octets in hexadecimal, two digits each.
pub open spec fn hex_text(b: Seq<u8>, n: int) -> Seq<char>
    decreases n,
{
    if n <= 0 {
        Seq::empty()
    } else {
        hex_text(b, n - 1).push(hex_digit(b[n - 1] as int / 16)).push(
            hex_digit(b[n - 1] as int % 16),
        )
    }
}

fn hex_digit_of(n: u8) -> (c: char)
    requires
        n < 16,
    ensures
        c == hex_digit(n as int),
{
    match n {
        10 => 'a',
        11 => 'b',
        12 => 'c',
        13 => 'd',
        14 => 'e',
        15 => 'f',
        _ => crate::text::digit_of(n as u64),
    }
}

/// Octets in hexadecimal, two digits each.
pub fn hex(bytes: &Vec<u8>) -> (r: String)
    ensures
        r@ == hex_text(bytes@, bytes@.len() as int),
{
    let mut out = String::new();
    let mut i: usize = 0;
    proof {
        assert(out@ =~= hex_text(bytes@, 0));
    }
    while i < bytes.len()
        invariant
            i <= bytes@.len(),
            out@ == hex_text(bytes@, i as int),
        decreases bytes.len() - i,
    {
        out.push(hex_digit_of(bytes[i] / 16));
        out.push(hex_digit_of(bytes[i] % 16));
        i += 1;
    }
    out
}

} // verus!
