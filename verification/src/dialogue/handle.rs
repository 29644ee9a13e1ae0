//! The handle through which a handler drives a dialogue.
use crate::sccp::message::{
    sccp_encoded, AddressModel, MessageModel, PartyAddress, SccpForm, SccpHead, Unitdata,
};
use crate::transaction::{
    arcs, copy_some, encode_transaction, octets, staged_models, transaction_octets, AbortBy, Outgoing,
    OutgoingModel, Staged, StagedModel,
};
use crate::transport::framing::SI_SCCP;
use crate::transport::msu::{copy_octets, Msu, MsuModel};
use vstd::prelude::*;

verus! {

/// A transaction id, of one to four octets.
pub type Tid = Vec<u8>;

/// Who opened a dialogue.
#[derive(Clone, Copy, PartialEq, Eq, Structural, Debug)]
pub enum Role {
    /// A peer did; we answer.
    Responder,
    /// We did.
    Initiator,
}

/// The addresses and routing label of a dialogue's outbound messages.
#[derive(Clone, Debug)]
pub struct Addressing {
    /// The called party of our messages.
    pub out_called: PartyAddress,
    /// The calling party of our messages.
    pub out_calling: PartyAddress,
    /// Our point code.
    pub opc: u32,
    /// The peer's point code.
    pub dpc: u32,
    /// The network indicator.
    pub ni: u8,
    /// The link selection.
    pub sls: u8,
}

/// What an [`Addressing`] holds.
pub struct AddressingModel {
    pub out_called: AddressModel,
    pub out_calling: AddressModel,
    pub opc: u32,
    pub dpc: u32,
    pub ni: u8,
    pub sls: u8,
}

impl View for Addressing {
    type V = AddressingModel;

    open spec fn view(&self) -> AddressingModel {
        AddressingModel {
            out_called: self.out_called@,
            out_calling: self.out_calling@,
            opc: self.opc,
            dpc: self.dpc,
            ni: self.ni,
            sls: self.sls,
        }
    }
}

/// The addressing of replies to a message: called and calling party exchanged,
/// and the point codes too.
pub open spec fn reversed(udt: MessageModel, inbound: MsuModel) -> AddressingModel {
    AddressingModel {
        out_called: udt.calling_party,
        out_calling: udt.called_party,
        opc: inbound.dpc,
        dpc: inbound.opc,
        ni: inbound.ni,
        sls: inbound.sls,
    }
}

impl Addressing {
    /// The addressing of replies to a message.
    pub fn reverse(udt: &Unitdata, inbound: &Msu) -> (r: Addressing)
        ensures
            r@ == reversed(udt@, inbound@),
    {
        Addressing {
            out_called: udt.calling_party.copy(),
            out_calling: udt.called_party.copy(),
            opc: inbound.dpc,
            dpc: inbound.opc,
            ni: inbound.ni,
            sls: inbound.sls,
        }
    }

    /// A copy of this addressing.
    pub fn copy(&self) -> (r: Addressing)
        ensures
            r@ == self@,
    {
        Addressing {
            out_called: self.out_called.copy(),
            out_calling: self.out_calling.copy(),
            opc: self.opc,
            dpc: self.dpc,
            ni: self.ni,
            sls: self.sls,
        }
    }
}

/// The SCCP message that carries a transaction message.
pub open spec fn carrier(data: Seq<u8>, a: AddressingModel) -> MessageModel {
    MessageModel {
        form: SccpForm::Short,
        head: SccpHead::Data { protocol_class: 0, message_handling: 0 },
        hop_counter: None,
        called_party: a.out_called,
        calling_party: a.out_calling,
        data,
        optional_part: Seq::empty(),
    }
}

/// The unit that carries a transaction message, if it encodes.
pub open spec fn wrapped(msg: OutgoingModel, a: AddressingModel) -> Option<MsuModel> {
    match transaction_octets(msg) {
        Ok(data) => match sccp_encoded(carrier(data, a)) {
            Ok(payload) => Some(
                MsuModel {
                    opc: a.opc,
                    dpc: a.dpc,
                    si: SI_SCCP,
                    ni: a.ni,
                    mp: 0,
                    sls: a.sls,
                    payload,
                },
            ),
            Err(_) => None,
        },
        Err(_) => None,
    }
}

/// What an optional unit holds.
pub open spec fn some_unit(o: Option<Msu>) -> Option<MsuModel> {
    match o {
        Some(m) => Some(m@),
        None => None,
    }
}

/// What a list of units holds.
pub open spec fn units(s: Seq<Msu>) -> Seq<MsuModel> {
    s.map_values(|m: Msu| m@)
}

/// Wraps a transaction message in an SCCP message and a routing label.
pub fn wrap_msu(msg: Outgoing, a: &Addressing) -> (r: Option<Msu>)
    ensures
        some_unit(r) == wrapped(msg@, a@),
{
    let data = match encode_transaction(msg) {
        Ok(d) => d,
        Err(_) => {
            return None;
        },
    };
    let udt = Unitdata::udt(a.out_called.copy(), a.out_calling.copy(), data);
    match udt.encode() {
        Ok(payload) => Some(
            Msu { opc: a.opc, dpc: a.dpc, si: SI_SCCP, ni: a.ni, mp: 0, sls: a.sls, payload },
        ),
        Err(_) => None,
    }
}

/// The units that abort a transaction toward the peer.
pub open spec fn abort_units(a: AddressingModel, peer_tid: Seq<u8>, by: AbortBy) -> Seq<MsuModel> {
    match wrapped(OutgoingModel::Abort { dtid: peer_tid, by }, a) {
        Some(m) => seq![m],
        None => Seq::empty(),
    }
}

/// The units that abort a transaction toward the peer.
pub fn abort_now(a: &Addressing, peer_tid: &Vec<u8>, by: AbortBy) -> (r: Vec<Msu>)
    ensures
        units(r@) == abort_units(a@, peer_tid@, by),
{
    let mut out: Vec<Msu> = Vec::new();
    match wrap_msu(Outgoing::Abort { dtid: copy_octets(peer_tid), by }, a) {
        Some(m) => {
            out.push(m);
            proof {
                assert(units(out@) =~= seq![m@]);
            }
        },
        None => {
            proof {
                assert(units(out@) =~= Seq::<MsuModel>::empty());
            }
        },
    }
    out
}

/// A live dialogue. A handler stages components and flushes them.
pub struct Dialogue {
    pub(crate) role: Role,
    pub(crate) our_tid: Tid,
    pub(crate) peer_tid: Tid,
    pub(crate) ac: Vec<u32>,
    pub(crate) reply_invoke_id: i64,
    pub(crate) next_invoke_id: i64,
    pub(crate) first_flush_done: bool,
    pub(crate) aare_pending: bool,
    pub(crate) closed: bool,
    pub(crate) awaiting_op: Option<i64>,
    pub(crate) outstanding: Option<(i64, u64)>,
    pub(crate) addressing: Addressing,
    pub(crate) pending: Vec<Staged>,
    pub(crate) out: Vec<Outgoing>,
}

/// What a [`Dialogue`] holds.
pub struct DialogueModel {
    /// Who opened it.
    pub role: Role,
    /// Our transaction id.
    pub our_tid: Seq<u8>,
    /// The peer's transaction id, empty until it is known.
    pub peer_tid: Seq<u8>,
    /// The application context.
    pub ac: Seq<u32>,
    /// The invoke id that a reply answers.
    pub reply_invoke_id: i64,
    /// The invoke id that the next invoke gets.
    pub next_invoke_id: i64,
    /// Something was flushed already.
    pub first_flush_done: bool,
    /// The next message carries the dialogue response.
    pub aare_pending: bool,
    /// It is closed.
    pub closed: bool,
    /// The operation of the last invoke staged.
    pub awaiting_op: Option<i64>,
    /// The operation of an invoke of an earlier leg that is not answered yet, and
    /// when it was asked.
    pub outstanding: Option<(i64, u64)>,
    /// Where its messages go.
    pub addressing: AddressingModel,
    /// The components staged since the last flush.
    pub pending: Seq<StagedModel>,
    /// The messages flushed.
    pub out: Seq<OutgoingModel>,
}

/// What a list of outgoing messages holds.
pub open spec fn outgoing_models(s: Seq<Outgoing>) -> Seq<OutgoingModel> {
    s.map_values(|m: Outgoing| m@)
}

/// The invoke id after another. It wraps around at the end of its range.
pub open spec fn following(id: i64) -> i64 {
    if id == i64::MAX {
        i64::MIN
    } else {
        (id + 1) as i64
    }
}

impl DialogueModel {
    /// A dialogue that a peer opened, at its start.
    pub open spec fn fresh_responder(
        our_tid: Seq<u8>,
        peer_tid: Seq<u8>,
        ac: Seq<u32>,
        reply_invoke_id: i64,
        addressing: AddressingModel,
    ) -> DialogueModel {
        DialogueModel {
            role: Role::Responder,
            our_tid,
            peer_tid,
            ac,
            reply_invoke_id,
            next_invoke_id: 1,
            first_flush_done: false,
            aare_pending: true,
            closed: false,
            awaiting_op: None,
            outstanding: None,
            addressing,
            pending: Seq::empty(),
            out: Seq::empty(),
        }
    }

    /// A dialogue that we open, at its start.
    pub open spec fn fresh_initiator(
        our_tid: Seq<u8>,
        ac: Seq<u32>,
        addressing: AddressingModel,
    ) -> DialogueModel {
        DialogueModel {
            role: Role::Initiator,
            our_tid,
            peer_tid: Seq::empty(),
            ac,
            reply_invoke_id: 0,
            next_invoke_id: 1,
            first_flush_done: false,
            aare_pending: false,
            closed: false,
            awaiting_op: None,
            outstanding: None,
            addressing,
            pending: Seq::empty(),
            out: Seq::empty(),
        }
    }

    /// With one more component staged.
    pub open spec fn staging(self, c: StagedModel) -> DialogueModel {
        DialogueModel { pending: self.pending.push(c), ..self }
    }

    /// With an Invoke staged under the next invoke id.
    pub open spec fn invoking(self, operation: i64, argument: Option<Seq<u8>>) -> DialogueModel {
        DialogueModel {
            next_invoke_id: following(self.next_invoke_id),
            awaiting_op: Some(operation),
            ..self.staging(
                StagedModel::Invoke {
                    invoke_id: self.next_invoke_id,
                    operation,
                    parameter: argument,
                },
            )
        }
    }

    /// With a ReturnResultLast staged for a given invoke id.
    pub open spec fn replying_to(
        self,
        invoke_id: i64,
        operation: i64,
        result: Option<Seq<u8>>,
    ) -> DialogueModel {
        self.staging(StagedModel::ResultLast { invoke_id, operation, parameter: result })
    }

    /// With a ReturnError staged for a given invoke id.
    pub open spec fn failing(self, invoke_id: i64, error: i64) -> DialogueModel {
        self.staging(StagedModel::Error { invoke_id, error })
    }

    /// The next flush opens the dialogue.
    pub open spec fn opening(self) -> bool {
        self.role == Role::Initiator && !self.first_flush_done
    }

    /// The context that the next flush carries: ours as a request when it opens
    /// the dialogue, the peer's as a response on the first answer, else none.
    pub open spec fn flushed_context(self) -> Option<Seq<u32>> {
        if self.opening() || self.aare_pending {
            Some(self.ac)
        } else {
            None
        }
    }

    /// The message that a flush makes of the staged components: a Begin when it
    /// opens the dialogue, else an End when it closes it, else a Continue.
    pub open spec fn flushed_message(self, closing: bool) -> OutgoingModel {
        if self.opening() {
            OutgoingModel::Begin {
                otid: self.our_tid,
                context: self.flushed_context(),
                components: self.pending,
            }
        } else if closing {
            OutgoingModel::End {
                dtid: self.peer_tid,
                context: self.flushed_context(),
                components: self.pending,
            }
        } else {
            OutgoingModel::Continue {
                otid: self.our_tid,
                dtid: self.peer_tid,
                context: self.flushed_context(),
                components: self.pending,
            }
        }
    }

    /// After a flush: the message is out, nothing is staged, and a closing flush
    /// has closed the dialogue.
    pub open spec fn flushed(self, closing: bool) -> DialogueModel {
        DialogueModel {
            out: self.out.push(self.flushed_message(closing)),
            pending: Seq::empty(),
            first_flush_done: true,
            aare_pending: if self.opening() {
                self.aare_pending
            } else {
                false
            },
            closed: self.closed || closing,
            ..self
        }
    }

    /// After an abort: what was staged is gone, and the dialogue is closed.
    pub open spec fn aborted(self, by: AbortBy) -> DialogueModel {
        DialogueModel {
            out: self.out.push(OutgoingModel::Abort { dtid: self.peer_tid, by }),
            pending: Seq::empty(),
            closed: true,
            ..self
        }
    }
}

/// A copy of some arcs.
pub fn copy_arcs(v: &Vec<u32>) -> (r: Vec<u32>)
    ensures
        r@ == v@,
{
    let mut out: Vec<u32> = Vec::new();
    let mut i: usize = 0;
    while i < v.len()
        invariant
            i <= v@.len(),
            out@ == v@.subrange(0, i as int),
        decreases v.len() - i,
    {
        out.push(v[i]);
        proof {
            assert(out@ =~= v@.subrange(0, i + 1));
        }
        i += 1;
    }
    proof {
        assert(out@ =~= v@);
    }
    out
}

/// A copy of an optional context.
pub fn copy_context(o: &Option<Vec<u32>>) -> (r: Option<Vec<u32>>)
    ensures
        arcs(r) == arcs(*o),
{
    match o {
        Some(v) => Some(copy_arcs(v)),
        None => None,
    }
}

impl Dialogue {
    /// A dialogue that a peer opened.
    pub fn responder(
        our_tid: Tid,
        peer_tid: Tid,
        ac: Vec<u32>,
        reply_invoke_id: i64,
        addressing: Addressing,
    ) -> (r: Dialogue)
        ensures
            r@ == DialogueModel::fresh_responder(
                our_tid@,
                peer_tid@,
                ac@,
                reply_invoke_id,
                addressing@,
            ),
    {
        let r = Dialogue {
            role: Role::Responder,
            our_tid,
            peer_tid,
            ac,
            reply_invoke_id,
            next_invoke_id: 1,
            first_flush_done: false,
            aare_pending: true,
            closed: false,
            awaiting_op: None,
            outstanding: None,
            addressing,
            pending: Vec::new(),
            out: Vec::new(),
        };
        proof {
            assert(r@.pending =~= Seq::empty());
            assert(r@.out =~= Seq::empty());
        }
        r
    }

    /// A dialogue that we open.
    pub fn initiator(our_tid: Tid, ac: Vec<u32>, addressing: Addressing) -> (r: Dialogue)
        ensures
            r@ == DialogueModel::fresh_initiator(our_tid@, ac@, addressing@),
    {
        let r = Dialogue {
            role: Role::Initiator,
            our_tid,
            peer_tid: Vec::new(),
            ac,
            reply_invoke_id: 0,
            next_invoke_id: 1,
            first_flush_done: false,
            aare_pending: false,
            closed: false,
            awaiting_op: None,
            outstanding: None,
            addressing,
            pending: Vec::new(),
            out: Vec::new(),
        };
        proof {
            assert(r@.peer_tid =~= Seq::empty());
            assert(r@.pending =~= Seq::empty());
            assert(r@.out =~= Seq::empty());
        }
        r
    }

    /// Our transaction id.
    pub fn otid(&self) -> (r: &Vec<u8>)
        ensures
            r@ == self@.our_tid,
    {
        &self.our_tid
    }

    /// The peer's transaction id.
    pub fn dtid(&self) -> (r: &Vec<u8>)
        ensures
            r@ == self@.peer_tid,
    {
        &self.peer_tid
    }

    /// The application context.
    pub fn application_context(&self) -> (r: &Vec<u32>)
        ensures
            r@ == self@.ac,
    {
        &self.ac
    }

    /// Whether the dialogue is closed.
    pub fn is_closed(&self) -> (r: bool)
        ensures
            r == self@.closed,
    {
        self.closed
    }

    /// Stages an Invoke and gives its invoke id.
    pub fn invoke(&mut self, operation_code: i64, argument: Option<Vec<u8>>) -> (r: i64)
        ensures
            r == old(self)@.next_invoke_id,
            final(self)@ == old(self)@.invoking(operation_code, octets(argument)),
            r < i64::MAX ==> final(self)@.next_invoke_id == r + 1,
            final(self)@.pending.last() == (StagedModel::Invoke {
                invoke_id: r,
                operation: operation_code,
                parameter: octets(argument),
            }),
    {
        let ghost before = self@;
        let id: i64 = self.next_invoke_id;
        self.next_invoke_id = if id == i64::MAX {
            i64::MIN
        } else {
            id + 1
        };
        let c = Staged::Invoke { invoke_id: id, operation: operation_code, parameter: argument };
        let ghost model = c@;
        self.pending.push(c);
        self.awaiting_op = Some(operation_code);
        proof {
            assert(self@.pending =~= before.pending.push(model));
        }
        id
    }

    /// Stages a ReturnResultLast for the invoke that opened the dialogue.
    pub fn reply(&mut self, operation_code: i64, result: Option<Vec<u8>>)
        ensures
            final(self)@ == old(self)@.replying_to(
                old(self)@.reply_invoke_id,
                operation_code,
                octets(result),
            ),
    {
        let id: i64 = self.reply_invoke_id;
        self.reply_to(id, operation_code, result);
    }

    /// Stages a ReturnResultLast for a given invoke id.
    pub fn reply_to(&mut self, invoke_id: i64, operation_code: i64, result: Option<Vec<u8>>)
        ensures
            final(self)@ == old(self)@.replying_to(invoke_id, operation_code, octets(result)),
    {
        let ghost before = self@;
        let c = Staged::ResultLast { invoke_id, operation: operation_code, parameter: result };
        let ghost model = c@;
        self.pending.push(c);
        proof {
            assert(self@.pending =~= before.pending.push(model));
        }
    }

    /// Stages a ReturnError for a given invoke id.
    pub fn error(&mut self, invoke_id: i64, error_code: i64)
        ensures
            final(self)@ == old(self)@.failing(invoke_id, error_code),
    {
        let ghost before = self@;
        let c = Staged::Error { invoke_id, error: error_code };
        let ghost model = c@;
        self.pending.push(c);
        proof {
            assert(self@.pending =~= before.pending.push(model));
        }
    }

    /// Flushes the staged components as a Continue, or as the Begin that opens a
    /// dialogue of ours. The dialogue stays open.
    pub fn send(&mut self)
        ensures
            final(self)@ == old(self)@.flushed(false),
    {
        self.flush(false);
    }

    /// Flushes the staged components as an End, which closes the dialogue.
    pub fn end(&mut self)
        ensures
            final(self)@ == old(self)@.flushed(true),
    {
        self.flush(true);
    }

    /// Aborts the dialogue; what was staged is dropped.
    pub fn abort(&mut self, by: AbortBy)
        ensures
            final(self)@ == old(self)@.aborted(by),
    {
        let ghost before = self@;
        self.pending = Vec::new();
        let msg = Outgoing::Abort { dtid: copy_octets(&self.peer_tid), by };
        let ghost model = msg@;
        self.out.push(msg);
        self.closed = true;
        proof {
            assert(self@.pending =~= Seq::empty());
            assert(self@.out =~= before.out.push(model));
        }
    }

    fn flush(&mut self, closing: bool)
        ensures
            final(self)@ == old(self)@.flushed(closing),
    {
        let ghost before = self@;
        let opening = self.role == Role::Initiator && !self.first_flush_done;
        let context = if opening {
            Some(copy_arcs(&self.ac))
        } else if self.aare_pending {
            self.aare_pending = false;
            Some(copy_arcs(&self.ac))
        } else {
            None
        };
        let components = copy_staged(&self.pending);
        self.pending = Vec::new();
        let msg = if opening {
            Outgoing::Begin { otid: copy_octets(&self.our_tid), context, components }
        } else if closing {
            Outgoing::End { dtid: copy_octets(&self.peer_tid), context, components }
        } else {
            Outgoing::Continue {
                otid: copy_octets(&self.our_tid),
                dtid: copy_octets(&self.peer_tid),
                context,
                components,
            }
        };
        let ghost model = msg@;
        self.first_flush_done = true;
        if closing {
            self.closed = true;
        }
        self.out.push(msg);
        proof {
            assert(model == before.flushed_message(closing));
            assert(self@.pending =~= Seq::empty());
            assert(self@.out =~= before.out.push(model));
        }
    }
}

/// A copy of some staged components.
pub fn copy_staged(v: &Vec<Staged>) -> (r: Vec<Staged>)
    ensures
        staged_models(r@) == staged_models(v@),
{
    let mut out: Vec<Staged> = Vec::new();
    let mut i: usize = 0;
    while i < v.len()
        invariant
            i <= v@.len(),
            out@.len() == i,
            forall|k: int| 0 <= k < i ==> (#[trigger] out@[k])@ == v@[k]@,
        decreases v.len() - i,
    {
        out.push(
            match &v[i] {
                Staged::Invoke { invoke_id, operation, parameter } => Staged::Invoke {
                    invoke_id: *invoke_id,
                    operation: *operation,
                    parameter: copy_some(parameter),
                },
                Staged::ResultLast { invoke_id, operation, parameter } => Staged::ResultLast {
                    invoke_id: *invoke_id,
                    operation: *operation,
                    parameter: copy_some(parameter),
                },
                Staged::Error { invoke_id, error } => Staged::Error {
                    invoke_id: *invoke_id,
                    error: *error,
                },
            },
        );
        i += 1;
    }
    proof {
        assert(staged_models(out@) =~= staged_models(v@));
    }
    out
}

// ── Laws ────────────────────────────────────────────────────────────────────

/// A single response: a reply and an end on a fresh dialogue of a peer's give one
/// message, an End to the peer's transaction with the dialogue response and one
/// result for the peer's invoke, and the dialogue is closed.
pub proof fn law_single_response(d: DialogueModel, operation: i64, result: Option<Seq<u8>>)
    requires
        d == DialogueModel::fresh_responder(
            d.our_tid,
            d.peer_tid,
            d.ac,
            d.reply_invoke_id,
            d.addressing,
        ),
    ensures
        ({
            let c = StagedModel::ResultLast {
                invoke_id: d.reply_invoke_id,
                operation,
                parameter: result,
            };
            let e = d.staging(c).flushed(true);
            &&& e.closed
            &&& e.out == seq![
                OutgoingModel::End { dtid: d.peer_tid, context: Some(d.ac), components: seq![c] },
            ]
        }),
{
    let c = StagedModel::ResultLast { invoke_id: d.reply_invoke_id, operation, parameter: result };
    assert(d.staging(c).pending =~= seq![c]);
    assert(d.staging(c).flushed(true).out =~= seq![
        OutgoingModel::End { dtid: d.peer_tid, context: Some(d.ac), components: seq![c] },
    ]);
}

/// The dialogue response rides on the first answer only: the one after it carries
/// no context.
pub proof fn law_response_rides_once(d: DialogueModel, closing: bool)
    requires
        d.role == Role::Responder,
    ensures
        d.flushed(false).flushed_context() is None,
        d.aare_pending ==> d.flushed_context() == Some(d.ac),
{
}

/// The first flush of a dialogue of ours is a Begin with our context, whatever
/// follows it is not.
pub proof fn law_begin_opens_once(d: DialogueModel, closing: bool, again: bool)
    requires
        d.opening(),
    ensures
        d.flushed_message(closing) is Begin,
        d.flushed_context() == Some(d.ac),
        !(d.flushed(closing).flushed_message(again) is Begin),
{
}

/// Every message of an answered dialogue goes to the peer's transaction.
pub proof fn law_answers_echo_peer(d: DialogueModel, closing: bool)
    requires
        d.role == Role::Responder,
    ensures
        match d.flushed_message(closing) {
            OutgoingModel::End { dtid, context, components } => closing && dtid == d.peer_tid,
            OutgoingModel::Continue { otid, dtid, context, components } => !closing && dtid
                == d.peer_tid && otid == d.our_tid,
            _ => false,
        },
{
}

} // verus!
